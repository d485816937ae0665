//! A truth assignment: a mapping from variable names to boolean values.

use vstd::prelude::*;

verus! {

/// The mapping described by a sequence of (name, value) pairs, read left to
/// right: when a name occurs more than once, the later pair wins.
pub open spec fn map_of(pairs: Seq<(String, bool)>) -> Map<Seq<char>, bool>
    decreases pairs.len(),
{
    if pairs.len() == 0 {
        Map::empty()
    } else {
        map_of(pairs.drop_last()).insert(pairs.last().0@, pairs.last().1)
    }
}

/// A total assignment of truth values to variable names. Keys are unique in
/// the abstract map; setting a name twice keeps the later value.
#[derive(Debug)]
pub struct Assignment {
    pairs: Vec<(String, bool)>,
}

impl View for Assignment {
    type V = Map<Seq<char>, bool>;

    closed spec fn view(&self) -> Map<Seq<char>, bool> {
        map_of(self.pairs@)
    }
}

/// Compares two strings character by character.
pub(crate) fn str_eq(a: &str, b: &str) -> (r: bool)
    ensures
        r == (a@ == b@),
{
    let alen = a.unicode_len();
    let blen = b.unicode_len();
    if alen != blen {
        proof {
            assert(a@ != b@) by {
                assert(a@.len() != b@.len());
            }
        }
        return false;
    }
    let mut i: usize = 0;
    while i < alen
        invariant
            alen == a@.len(),
            alen == b@.len(),
            i <= alen,
            forall|k: int| 0 <= k < i ==> a@[k] == b@[k],
        decreases alen - i,
    {
        if a.get_char(i) != b.get_char(i) {
            return false;
        }
        i = i + 1;
    }
    proof {
        assert(a@ =~= b@);
    }
    true
}

impl Assignment {
    /// The empty assignment: no variable is bound.
    pub fn new() -> (r: Assignment)
        ensures
            r@ == Map::<Seq<char>, bool>::empty(),
    {
        Assignment { pairs: Vec::new() }
    }

    /// Binds `name` to `value`, replacing any earlier binding of the same name.
    pub fn set(&mut self, name: String, value: bool)
        ensures
            final(self)@ == old(self)@.insert(name@, value),
    {
        let ghost old_pairs = self.pairs@;
        self.pairs.push((name, value));
        proof {
            assert(self.pairs@.drop_last() =~= old_pairs);
        }
    }

    /// Looks `name` up: the bound value, or `None` where the name is unbound.
    pub fn get(&self, name: &str) -> (r: Option<bool>)
        ensures
            r == (if self@.contains_key(name@) {
                Some(self@[name@])
            } else {
                None::<bool>
            }),
    {
        let n = self.pairs.len();
        let mut res: Option<bool> = None;
        let mut i: usize = 0;
        while i < n
            invariant
                n == self.pairs@.len(),
                i <= n,
                res == (if map_of(self.pairs@.take(i as int)).contains_key(name@) {
                    Some(map_of(self.pairs@.take(i as int))[name@])
                } else {
                    None::<bool>
                }),
            decreases n - i,
        {
            proof {
                assert(self.pairs@.take(i + 1).drop_last() =~= self.pairs@.take(i as int));
                assert(self.pairs@.take(i + 1).last() == self.pairs@[i as int]);
            }
            let p = &self.pairs[i];
            if str_eq(p.0.as_str(), name) {
                res = Some(p.1);
            }
            i = i + 1;
        }
        proof {
            assert(self.pairs@.take(n as int) =~= self.pairs@);
        }
        res
    }
}

impl Clone for Assignment {
    /// A cloned assignment binds exactly the names the original binds, to the
    /// same values.
    fn clone(&self) -> (r: Self)
        ensures
            r@ == self@,
    {
        let mut pairs: Vec<(String, bool)> = Vec::new();
        let n = self.pairs.len();
        let mut i: usize = 0;
        while i < n
            invariant
                n == self.pairs@.len(),
                i <= n,
                pairs@ =~= self.pairs@.take(i as int),
            decreases n - i,
        {
            let p = &self.pairs[i];
            pairs.push((p.0.clone(), p.1));
            proof {
                assert(pairs@ =~= self.pairs@.take(i + 1));
            }
            i = i + 1;
        }
        proof {
            assert(pairs@ =~= self.pairs@);
        }
        Assignment { pairs }
    }
}

} // verus!
