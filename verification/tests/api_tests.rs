use logical_solver::ast::{has_variable, Expr, Opcode};
use logical_solver::token::Token;
use logical_solver::{
    evaluate, parse_expression, permutate, solve_truth_table, Assignment, EvalError, ParseError,
};

fn assignment(pairs: &[(&str, bool)]) -> Assignment {
    let mut a = Assignment::new();
    for (name, value) in pairs {
        a.set(name.to_string(), *value);
    }
    a
}

#[test]
fn precedence_and_binds_before_or() {
    let plain = parse_expression("A and B or C").unwrap();
    let grouped = parse_expression("(A and B) or C").unwrap();
    assert_eq!(plain, grouped);
    let states = permutate(vec!["A".to_string(), "B".to_string(), "C".to_string()]);
    assert_eq!(
        solve_truth_table(&plain, &states).unwrap(),
        solve_truth_table(&grouped, &states).unwrap()
    );
}

#[test]
fn conditional_is_left_associative() {
    let plain = parse_expression("A => B => C").unwrap();
    let grouped = parse_expression("(A => B) => C").unwrap();
    assert_eq!(plain, grouped);
}

#[test]
fn not_binds_tighter_than_and() {
    let plain = parse_expression("not A and B").unwrap();
    let grouped = parse_expression("(not A) and B").unwrap();
    assert_eq!(plain, grouped);
}

#[test]
fn double_negation_parses_nested() {
    let expr = parse_expression("not not A").unwrap();
    assert_eq!(
        *expr,
        Expr::Neg(Box::new(Expr::Neg(Box::new(Expr::Variable(
            "A".to_string()
        )))))
    );
    for value in [false, true] {
        let state = assignment(&[("A", value)]);
        assert_eq!(evaluate(&expr, &state).unwrap(), value);
    }
}

#[test]
fn conditional_identity() {
    let expr = parse_expression("P => Q").unwrap();
    for p in [false, true] {
        for q in [false, true] {
            let state = assignment(&[("P", p), ("Q", q)]);
            assert_eq!(evaluate(&expr, &state).unwrap(), !p || q);
        }
    }
}

#[test]
fn biconditional_identity() {
    let expr = parse_expression("P <=> Q").unwrap();
    for p in [false, true] {
        for q in [false, true] {
            let state = assignment(&[("P", p), ("Q", q)]);
            assert_eq!(evaluate(&expr, &state).unwrap(), p == q);
        }
    }
}

#[test]
fn permutate_order_for_two_names() {
    let states = permutate(vec!["A".to_string(), "B".to_string()]);
    assert_eq!(states.len(), 4);
    let expected = [
        (false, false),
        (false, true),
        (true, false),
        (true, true),
    ];
    for (state, (a, b)) in states.iter().zip(expected.iter()) {
        assert_eq!(state.get("A"), Some(*a));
        assert_eq!(state.get("B"), Some(*b));
    }
}

#[test]
fn permutate_empty_yields_one_empty_assignment() {
    let states = permutate(Vec::new());
    assert_eq!(states.len(), 1);
    assert_eq!(states[0].get("A"), None);
}

#[test]
fn permutate_length_is_two_to_the_n() {
    for n in 0..=12usize {
        let names: Vec<String> = (0..n).map(|i| format!("V{}", i)).collect();
        assert_eq!(permutate(names).len(), 1usize << n);
    }
}

#[test]
fn permutate_duplicate_name_last_occurrence_wins() {
    let states = permutate(vec!["A".to_string(), "A".to_string()]);
    assert_eq!(states.len(), 4);
    let expected = [false, true, false, true];
    for (state, v) in states.iter().zip(expected.iter()) {
        assert_eq!(state.get("A"), Some(*v));
    }
}

#[test]
fn truth_table_rows_match_assignments() {
    let expr = parse_expression("A and not B").unwrap();
    let states = permutate(vec!["A".to_string(), "B".to_string()]);
    let table = solve_truth_table(&expr, &states).unwrap();
    assert_eq!(table.len(), states.len());
    for (row, state) in table.iter().zip(states.iter()) {
        assert_eq!(*row, evaluate(&expr, state).unwrap());
    }
    assert_eq!(table, vec![false, false, true, false]);
}

#[test]
fn truth_table_reports_unbound_variable() {
    let expr = parse_expression("A and C").unwrap();
    let states = permutate(vec!["A".to_string(), "B".to_string()]);
    assert_eq!(
        solve_truth_table(&expr, &states),
        Err(EvalError::UnboundVariable("C".to_string()))
    );
}

#[test]
fn render_uses_symbols_and_parentheses() {
    let expr = parse_expression("A and B").unwrap();
    assert_eq!(expr.render(), "(A \u{2227} B)");
    let expr = parse_expression("not (A and B)").unwrap();
    assert_eq!(expr.render(), "\u{ac} (A \u{2227} B)");
    let expr = parse_expression("true or false").unwrap();
    assert_eq!(expr.render(), "(true \u{2228} false)");
    let expr = parse_expression("A => B <=> C").unwrap();
    assert_eq!(expr.render(), "((A \u{21d2} B) \u{21d4} C)");
}

#[test]
fn rendered_text_reparses_equivalently() {
    let sources = [
        "A and B or C",
        "not (A and B) or (not A and C) <=> B",
        "not not A => B and true",
        "A or false <=> not B and not not C",
    ];
    let states = permutate(vec!["A".to_string(), "B".to_string(), "C".to_string()]);
    for source in sources {
        let expr = parse_expression(source).unwrap();
        let reparsed = parse_expression(expr.render().as_str()).unwrap();
        assert_eq!(expr, reparsed);
        assert_eq!(
            solve_truth_table(&expr, &states).unwrap(),
            solve_truth_table(&reparsed, &states).unwrap()
        );
    }
}

#[test]
fn symbolic_spellings_parse_like_keywords() {
    assert_eq!(
        parse_expression("A \u{2227} B").unwrap(),
        parse_expression("A and B").unwrap()
    );
    assert_eq!(
        parse_expression("A \u{2228} B").unwrap(),
        parse_expression("A or B").unwrap()
    );
    assert_eq!(
        parse_expression("\u{ac} A").unwrap(),
        parse_expression("not A").unwrap()
    );
    assert_eq!(
        parse_expression("A \u{21d2} B").unwrap(),
        parse_expression("A => B").unwrap()
    );
    assert_eq!(
        parse_expression("A \u{21d4} B").unwrap(),
        parse_expression("A <=> B").unwrap()
    );
}

#[test]
fn evaluate_reports_first_unbound_variable() {
    let expr = parse_expression("A").unwrap();
    let empty = Assignment::new();
    assert_eq!(
        evaluate(&expr, &empty),
        Err(EvalError::UnboundVariable("A".to_string()))
    );

    let expr = parse_expression("A and B").unwrap();
    assert_eq!(
        evaluate(&expr, &empty),
        Err(EvalError::UnboundVariable("A".to_string()))
    );
    let only_a = assignment(&[("A", true)]);
    assert_eq!(
        evaluate(&expr, &only_a),
        Err(EvalError::UnboundVariable("B".to_string()))
    );
}

#[test]
fn parse_rejects_unexpected_closing_parenthesis() {
    assert_eq!(
        parse_expression("A and )"),
        Err(ParseError::UnexpectedToken {
            token: Token::RParen,
            position: 2,
        })
    );
}

#[test]
fn parse_rejects_malformed_input() {
    assert_eq!(parse_expression(""), Err(ParseError::UnexpectedEnd));
    assert_eq!(parse_expression("A and"), Err(ParseError::UnexpectedEnd));
    assert_eq!(parse_expression("(A"), Err(ParseError::UnexpectedEnd));
    assert_eq!(
        parse_expression("A $ B"),
        Err(ParseError::InvalidCharacter { position: 2 })
    );
    assert_eq!(
        parse_expression("tru"),
        Err(ParseError::InvalidCharacter { position: 0 })
    );
    assert_eq!(
        parse_expression("A B"),
        Err(ParseError::UnexpectedToken {
            token: Token::Ident("B".to_string()),
            position: 1,
        })
    );
}

#[test]
fn parse_tolerates_extra_whitespace_and_newline() {
    let plain = parse_expression("A and B").unwrap();
    assert_eq!(parse_expression("  A   and\tB \n").unwrap(), plain);
}

#[test]
fn assignment_set_get_and_overwrite() {
    let mut state = Assignment::new();
    assert_eq!(state.get("A"), None);
    state.set("A".to_string(), true);
    assert_eq!(state.get("A"), Some(true));
    state.set("A".to_string(), false);
    assert_eq!(state.get("A"), Some(false));
    state.set("B".to_string(), true);
    assert_eq!(state.get("A"), Some(false));
    assert_eq!(state.get("B"), Some(true));
    let copy = state.clone();
    assert_eq!(copy.get("A"), Some(false));
    assert_eq!(copy.get("B"), Some(true));
}

#[test]
fn leaves_and_variables() {
    assert!(Expr::Boolean(true).is_leaf());
    assert!(Expr::Variable("X".to_string()).is_leaf());
    assert!(!Expr::Op(
        Box::new(Expr::Boolean(false)),
        Opcode::And,
        Box::new(Expr::Variable("Y".to_string()))
    )
    .is_leaf());
    assert!(!Expr::Neg(Box::new(Expr::Boolean(true))).is_leaf());

    let expr = Expr::Op(
        Box::new(Expr::Variable("P".to_string())),
        Opcode::And,
        Box::new(Expr::Boolean(false)),
    );
    assert_eq!(has_variable(expr), true);
    let expr = Expr::Neg(Box::new(Expr::Boolean(true)));
    assert_eq!(has_variable(expr), false);
}
