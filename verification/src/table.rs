//! Enumeration of all truth assignments for a list of variable names, and
//! the truth-table driver that evaluates one formula across all of them.

use vstd::prelude::*;
use crate::assign::Assignment;
use crate::ast::Expr;
use crate::eval::{evaluate, spec_evaluate, EvalError};

verus! {

/// Two to the power `n`: the number of truth assignments over `n` names.
pub open spec fn two_pow(n: nat) -> nat
    decreases n,
{
    if n == 0 {
        1
    } else {
        2 * two_pow((n - 1) as nat)
    }
}

/// The `i`-th assignment over `names`, in binary-counter order: the last
/// name is the least-significant bit, `false` before `true`, so assignment 0
/// is all-false. When a name repeats, its later occurrence wins.
pub open spec fn assignment_at(names: Seq<String>, i: int) -> Map<Seq<char>, bool>
    decreases names.len(),
{
    if names.len() == 0 {
        Map::empty()
    } else {
        assignment_at(names.drop_last(), i / 2).insert(names.last()@, i % 2 == 1)
    }
}

/// Produces every truth assignment over `vars`, in binary-counter order with
/// the last name as the least-significant bit: exactly `2^n` assignments,
/// from all-false up to all-true.
pub fn permutate(vars: Vec<String>) -> (r: Vec<Assignment>)
    ensures
        r@.len() == two_pow(vars@.len()),
        forall|i: int| 0 <= i < r@.len() ==> (#[trigger] r@[i])@ == assignment_at(vars@, i),
    decreases vars@.len(),
{
    let mut vars = vars;
    let n = vars.len();
    if n == 0 {
        let mut base: Vec<Assignment> = Vec::new();
        base.push(Assignment::new());
        base
    } else {
        let ghost all_names = vars@;
        let last = vars.pop().unwrap();
        proof {
            assert(vars@ =~= all_names.drop_last());
        }
        let subcombs = permutate(vars);
        let mut combs: Vec<Assignment> = Vec::new();
        let m = subcombs.len();
        let mut k: usize = 0;
        while k < m
            invariant
                m == subcombs@.len(),
                m == two_pow(all_names.drop_last().len()),
                k <= m,
                all_names.len() >= 1,
                last@ == all_names.last()@,
                forall|i: int| 0 <= i < m ==> (#[trigger] subcombs@[i])@ == assignment_at(
                    all_names.drop_last(),
                    i,
                ),
                combs@.len() == 2 * k,
                forall|i: int| 0 <= i < combs@.len() ==> (#[trigger] combs@[i])@
                    == assignment_at(all_names, i),
            decreases m - k,
        {
            let subcomb = &subcombs[k];
            let mut comb1 = subcomb.clone();
            comb1.set(last.clone(), false);
            let mut comb2 = subcomb.clone();
            comb2.set(last.clone(), true);
            combs.push(comb1);
            combs.push(comb2);
            proof {
                let ki = k as int;
                assert((2 * ki) / 2 == ki && (2 * ki) % 2 == 0) by (nonlinear_arith);
                assert((2 * ki + 1) / 2 == ki && (2 * ki + 1) % 2 == 1) by (nonlinear_arith);
                assert(assignment_at(all_names, 2 * ki) == assignment_at(
                    all_names.drop_last(),
                    ki,
                ).insert(all_names.last()@, false));
                assert(assignment_at(all_names, 2 * ki + 1) == assignment_at(
                    all_names.drop_last(),
                    ki,
                ).insert(all_names.last()@, true));
                assert(combs@[2 * ki]@ == assignment_at(all_names, 2 * ki));
                assert(combs@[2 * ki + 1]@ == assignment_at(all_names, 2 * ki + 1));
            }
            k = k + 1;
        }
        proof {
            assert(all_names.len() >= 1);
            assert(two_pow(all_names.len()) == 2 * two_pow(all_names.drop_last().len()));
        }
        combs
    }
}

/// Evaluates `expr` once per assignment in `states`, in order: row `i` of
/// the table is the value of `expr` under `states[i]`. Stops at the first
/// assignment that leaves a variable of `expr` unbound and reports it.
pub fn solve_truth_table(expr: &Expr, states: &Vec<Assignment>) -> (r: Result<
    Vec<bool>,
    EvalError,
>)
    ensures
        match r {
            Ok(sols) => sols@.len() == states@.len() && forall|i: int|
                0 <= i < states@.len() ==> spec_evaluate(expr@, (#[trigger] states@[i])@)
                    == Ok::<bool, Seq<char>>(sols@[i]),
            Err(e) => exists|i: int|
                0 <= i < states@.len() && (forall|j: int|
                    0 <= j < i ==> spec_evaluate(expr@, (#[trigger] states@[j])@) is Ok) && (
                e matches EvalError::UnboundVariable(s) && spec_evaluate(
                    expr@,
                    (#[trigger] states@[i])@,
                ) == Err::<bool, Seq<char>>(s@)),
        },
{
    let mut solutions: Vec<bool> = Vec::new();
    let n = states.len();
    let mut i: usize = 0;
    while i < n
        invariant
            n == states@.len(),
            i <= n,
            solutions@.len() == i,
            forall|j: int| 0 <= j < i ==> spec_evaluate(expr@, (#[trigger] states@[j])@)
                == Ok::<bool, Seq<char>>(solutions@[j]),
        decreases n - i,
    {
        let state = &states[i];
        match evaluate(expr, state) {
            Ok(res) => {
                solutions.push(res);
            },
            Err(e) => {
                proof {
                    let wi = i as int;
                    assert(0 <= wi < states@.len() && (forall|j: int|
                        0 <= j < wi ==> spec_evaluate(expr@, (#[trigger] states@[j])@) is Ok)
                        && (e matches EvalError::UnboundVariable(s) && spec_evaluate(
                        expr@,
                        (#[trigger] states@[wi])@,
                    ) == Err::<bool, Seq<char>>(s@)));
                }
                return Err(e);
            },
        }
        i = i + 1;
    }
    Ok(solutions)
}

} // verus!
