use muadb::combinator::Grammar;
use muadb::combinator::Tag;
use muadb::combinator::Token;
use muadb::combinator::recurse;
use muadb::error::SQLError;
use muadb::parser_space::SQLSpace;
use muadb::value::ErrFn;
use muadb::value::OutFn;
use muadb::value::Value;

#[test]
fn alphabet() {
    let mut g = Grammar::new();
    let parser = recurse(&mut g, |this: Tag| {
        Token::new("a")
            .both(this)
            .out(OutFn::SecondPlus(20))
            .merged_or(Token::new("b").out(OutFn::ConstInt(1)))
            .err(ErrFn::ToUnknown)
    });
    let example = "aaabb";
    let mut space = SQLSpace::new(example);
    let this = parser.parse(&g, example, 0, &mut space);
    let (_, out) = this.unwrap();
    match out {
        Value::Int(n) => assert!(61 == n),
        other => panic!("unexpected output {other:?}"),
    }
}

#[test]
fn arithemetic() {
    let mut g = Grammar::new();
    let parser = recurse(&mut g, |this: Tag| {
        Token::new("a")
            .both(this)
            .or(Token::new("b"))
            .err(ErrFn::ToUnknown)
            .out(OutFn::ToUnit)
    });
    let example = "aaabb";
    let mut space = SQLSpace::new(example);
    println!("{:?}", parser.parse(&g, example, 0, &mut space));
}

#[test]
fn token_literal() {
    // Token("i64") on "i64," at position 0 succeeds at position 3.
    let g = Grammar::new();
    let parser = Token::new("i64");
    let input = "i64,";
    let mut space = SQLSpace::new(input);
    let r = parser.parse(&g, input, 0, &mut space);
    let (pos, out) = r.unwrap();
    assert_eq!(pos, 3);
    assert!(matches!(out, Value::Unit));
}

#[test]
fn token_pair() {
    // Then(Token("("), Token(")")) on "()" succeeds at position 2 with a
    // pair of unit outputs.
    let g = Grammar::new();
    let parser = Token::new("(").both(Token::new(")"));
    let input = "()";
    let mut space = SQLSpace::new(input);
    let r = parser.parse(&g, input, 0, &mut space);
    let (pos, out) = r.unwrap();
    assert_eq!(pos, 2);
    match out {
        Value::Pair(a, b) => {
            assert!(matches!(*a, Value::Unit));
            assert!(matches!(*b, Value::Unit));
        }
        other => panic!("unexpected output {other:?}"),
    }
}

#[test]
fn choice_right_branch() {
    // Else(Token("a"), Token("b")) on "b" succeeds via the right branch.
    let g = Grammar::new();
    let parser = Token::new("a").or(Token::new("b"));
    let input = "b";
    let mut space = SQLSpace::new(input);
    let r = parser.parse(&g, input, 0, &mut space);
    let (pos, out) = r.unwrap();
    assert_eq!(pos, 1);
    assert!(matches!(out, Value::Right(_)));
}

fn depth_of(v: &Value) -> usize {
    // Left(Pair(_, inner)) wraps one recursion level; Right(_) ends it.
    match v {
        Value::Left(p) => match &**p {
            Value::Pair(_, inner) => 1 + depth_of(inner),
            _ => 0,
        },
        _ => 0,
    }
}

#[test]
fn recursive_grammar() {
    // Expr := Token("a") Expr | Token("b"), with the recursion memoized.
    let mut g = Grammar::new();
    let parser = recurse(&mut g, |this: Tag| {
        Token::new("a").both(this).or(Token::new("b"))
    });

    let input = "aaab";
    let mut space = SQLSpace::new(input);
    let r = parser.parse(&g, input, 0, &mut space);
    let (pos, out) = r.unwrap();
    assert_eq!(pos, 4);
    assert_eq!(depth_of(&out), 3);

    let input2 = "aaa";
    let mut space2 = SQLSpace::new(input2);
    let r2 = parser.parse(&g, input2, 0, &mut space2);
    let (pos2, err) = r2.unwrap_err();
    assert_eq!(pos2, 0);
    assert!(matches!(err, SQLError::Merge(_, _)));
}

#[test]
fn deterministic_outcomes() {
    // Equal sessions give equal outcomes; an already-used session gives
    // the same outcome again from its cache.
    let mut g = Grammar::new();
    let parser = recurse(&mut g, |this: Tag| {
        Token::new("a").both(this).or(Token::new("b"))
    });
    let input = "aab";
    let mut s1 = SQLSpace::new(input);
    let mut s2 = SQLSpace::new(input);
    let r1 = format!("{:?}", parser.parse(&g, input, 0, &mut s1));
    let r2 = format!("{:?}", parser.parse(&g, input, 0, &mut s2));
    assert_eq!(r1, r2);
    let r3 = format!("{:?}", parser.parse(&g, input, 0, &mut s1));
    assert_eq!(r1, r3);
}

#[test]
fn replay_wins_over_rule_body() {
    // A recorded outcome is replayed without entering the rule body: the
    // body would fail on this input, the cache says otherwise.
    let mut g = Grammar::new();
    let parser = g.memorized(Token::new("x"));
    let input = "ab";
    let mut space = SQLSpace::new(input);
    space.record(0, 0, Ok((2, Value::Int(77))));
    let r = parser.parse(&g, input, 0, &mut space);
    let (pos, out) = r.unwrap();
    assert_eq!(pos, 2);
    assert!(matches!(out, Value::Int(77)));
}

#[test]
fn choice_skips_right_when_left_succeeds() {
    // The right branch is memoized; after a parse where the left branch
    // succeeded, nothing about the right branch is in the session.
    let mut g = Grammar::new();
    let right = g.memorized(Token::new("a"));
    let parser = Token::new("a").or(right);
    let input = "a";
    let mut space = SQLSpace::new(input);
    let r = parser.parse(&g, input, 0, &mut space);
    assert!(r.is_ok());
    assert!(space.replay(0, 0).is_none());
}

#[test]
fn repeat_never_fails() {
    let g = Grammar::new();
    let parser = Token::new("a").star();
    let input = "aaab";
    let mut space = SQLSpace::new(input);
    let (pos, out) = parser.parse(&g, input, 0, &mut space).unwrap();
    assert_eq!(pos, 3);
    match out {
        Value::List(vs) => assert_eq!(vs.len(), 3),
        other => panic!("unexpected output {other:?}"),
    }

    // Zero matches: the initial, empty accumulator at the original
    // position.
    let parser2 = Token::new("a").star();
    let input2 = "b";
    let mut space2 = SQLSpace::new(input2);
    let (pos2, out2) = parser2.parse(&g, input2, 0, &mut space2).unwrap();
    assert_eq!(pos2, 0);
    match out2 {
        Value::List(vs) => assert_eq!(vs.len(), 0),
        other => panic!("unexpected output {other:?}"),
    }
}

#[test]
fn padding_skips_whitespace() {
    let g = Grammar::new();
    let parser = Token::new("a").pad();
    let input = "  a  b";
    let mut space = SQLSpace::new(input);
    let (pos, _) = parser.parse(&g, input, 0, &mut space).unwrap();
    assert_eq!(pos, 5);
}

#[test]
fn mismatch_error_carries_literal() {
    let g = Grammar::new();
    let parser = Token::new("i64");
    let input = "u64";
    let mut space = SQLSpace::new(input);
    let (pos, err) = parser.parse(&g, input, 0, &mut space).unwrap_err();
    assert_eq!(pos, 0);
    match err {
        SQLError::MismatchToken(at, tok) => {
            assert_eq!(at, 0);
            assert_eq!(tok.as_str(), "i64");
        }
        other => panic!("unexpected error {other:?}"),
    }
}

#[test]
fn left_recursion_is_cut_off() {
    // A rule whose body is itself: the guard fails it instead of
    // looping.
    let mut g = Grammar::new();
    let parser = recurse(&mut g, |this: Tag| this);
    let input = "a";
    let mut space = SQLSpace::new(input);
    let (pos, err) = parser.parse(&g, input, 0, &mut space).unwrap_err();
    assert_eq!(pos, 0);
    assert!(matches!(err, SQLError::Visited));
}

#[test]
fn mapped_error_is_unknown() {
    let g = Grammar::new();
    let parser = Token::new("a").err(ErrFn::ToUnknown);
    let input = "b";
    let mut space = SQLSpace::new(input);
    let (_, err) = parser.parse(&g, input, 0, &mut space).unwrap_err();
    assert!(matches!(err, SQLError::Unknown));
}

#[test]
fn relabelled_error() {
    let g = Grammar::new();
    let parser = Token::new("a").err(ErrFn::Mismatch(String::from("letter")));
    let input = "b";
    let mut space = SQLSpace::new(input);
    let (_, err) = parser.parse(&g, input, 0, &mut space).unwrap_err();
    match err {
        SQLError::MismatchToken(at, tok) => {
            assert_eq!(at, 0);
            assert_eq!(tok.as_str(), "letter");
        }
        other => panic!("unexpected error {other:?}"),
    }
}

#[test]
fn memorized_rule_handle() {
    let mut g = muadb::combinator::Grammar::new();
    let m = muadb::combinator::Memorized::new(&mut g, Token::new("ab"));
    let parser = m.handle();
    let input = "abab";
    let mut space = SQLSpace::new(input);
    let (pos, _) = parser.parse(&g, input, 0, &mut space).unwrap();
    assert_eq!(pos, 2);
    // The outcome is now cached for this position.
    assert!(space.replay(0, m.tag).is_some());
}

#[test]
fn visited_error_value() {
    let e: SQLError = <SQLError as muadb::error::Visited>::visited();
    assert!(matches!(e, SQLError::Visited));
}

#[test]
fn error_map_keeps_failure_position() {
    // The failure inside the padding is blamed at position 1; the error
    // transform receives and keeps that position.
    let g = Grammar::new();
    let parser = Token::new("y").pad().err(ErrFn::Mismatch(String::from("why")));
    let input = " x";
    let mut space = SQLSpace::new(input);
    let (pos, err) = parser.parse(&g, input, 0, &mut space).unwrap_err();
    assert_eq!(pos, 1);
    match err {
        SQLError::MismatchToken(at, tok) => {
            assert_eq!(at, 1);
            assert_eq!(tok.as_str(), "why");
        }
        other => panic!("unexpected error {other:?}"),
    }
}
