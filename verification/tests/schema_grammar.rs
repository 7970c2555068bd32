use muadb::parser_space::SQLSpace;
use muadb::sql_parser::SQLIdent;
use muadb::sql_parser::sql_parser_schema;
use muadb::sql_schema::SQLSchema;
use muadb::value::Value;

#[test]
fn parse_tuple() {
    let input = "(a: i32, s: (i64, i64))";
    let mut space = SQLSpace::new(input);
    let (g, parser) = sql_parser_schema();
    println!("{:?}", parser.parse(&g, input, 0, &mut space));
}

#[test]
fn named_tuple_shape() {
    let input = "(a: i32, s: (i64, i64))";
    let mut space = SQLSpace::new(input);
    let (g, parser) = sql_parser_schema();
    let (pos, out) = parser.parse(&g, input, 0, &mut space).unwrap();
    assert_eq!(pos, input.len());
    match out {
        Value::Schema(SQLSchema::NamedTuple { name, tuple }) => {
            assert_eq!(name.len(), 2);
            assert_eq!(name[0].as_str(), "a");
            assert_eq!(name[1].as_str(), "s");
            assert!(matches!(tuple[0], SQLSchema::I32));
            match &tuple[1] {
                SQLSchema::Tuple { tuple: inner } => {
                    assert_eq!(inner.len(), 2);
                    assert!(matches!(inner[0], SQLSchema::I64));
                    assert!(matches!(inner[1], SQLSchema::I64));
                }
                other => panic!("unexpected field schema {other:?}"),
            }
        }
        other => panic!("unexpected output {other:?}"),
    }
}

#[test]
fn tuple_with_trailing_comma() {
    // Tuple := "(" (Schema ",")* Schema? ")", so "(i64,i64,)" is a
    // two-element tuple.
    let input = "(i64,i64,)";
    let mut space = SQLSpace::new(input);
    let (g, parser) = sql_parser_schema();
    let (pos, out) = parser.parse(&g, input, 0, &mut space).unwrap();
    assert_eq!(pos, 10);
    match out {
        Value::Schema(SQLSchema::Tuple { tuple }) => {
            assert_eq!(tuple.len(), 2);
            assert!(matches!(tuple[0], SQLSchema::I64));
            assert!(matches!(tuple[1], SQLSchema::I64));
        }
        other => panic!("unexpected output {other:?}"),
    }
}

#[test]
fn tuple_without_trailing_comma() {
    let input = "(i64, str)";
    let mut space = SQLSpace::new(input);
    let (g, parser) = sql_parser_schema();
    let (pos, out) = parser.parse(&g, input, 0, &mut space).unwrap();
    assert_eq!(pos, input.len());
    match out {
        Value::Schema(SQLSchema::Tuple { tuple }) => {
            assert_eq!(tuple.len(), 2);
            assert!(matches!(tuple[0], SQLSchema::I64));
            assert!(matches!(tuple[1], SQLSchema::Str));
        }
        other => panic!("unexpected output {other:?}"),
    }
}

#[test]
fn simple_type_names() {
    let cases: Vec<(&str, SQLSchema)> = vec![
        ("i64", SQLSchema::I64),
        ("i8", SQLSchema::I8),
        ("u16", SQLSchema::U16),
        ("nil", SQLSchema::Nil),
        ("f32", SQLSchema::F32),
        ("str", SQLSchema::Str),
    ];
    for (text, expected) in cases {
        let mut space = SQLSpace::new(text);
        let (g, parser) = sql_parser_schema();
        let (pos, out) = parser.parse(&g, text, 0, &mut space).unwrap();
        assert_eq!(pos, text.len());
        match out {
            Value::Schema(s) => {
                assert_eq!(format!("{s:?}"), format!("{expected:?}"));
            }
            other => panic!("unexpected output {other:?}"),
        }
    }
}

#[test]
fn schema_rejects_garbage() {
    let input = "!!";
    let mut space = SQLSpace::new(input);
    let (g, parser) = sql_parser_schema();
    let r = parser.parse(&g, input, 0, &mut space);
    assert!(r.is_err());
}

#[test]
fn ident_run() {
    let g = muadb::combinator::Grammar::new();
    let parser = SQLIdent::new();
    let input = "abc_9 x";
    let mut space = SQLSpace::new(input);
    let (pos, out) = parser.parse(&g, input, 0, &mut space).unwrap();
    assert_eq!(pos, 5);
    match out {
        Value::Str(s) => assert_eq!(s.as_str(), "abc_9"),
        other => panic!("unexpected output {other:?}"),
    }
}

#[test]
fn ident_missing() {
    let g = muadb::combinator::Grammar::new();
    let parser = SQLIdent::new();
    let input = "!x";
    let mut space = SQLSpace::new(input);
    let (pos, err) = parser.parse(&g, input, 0, &mut space).unwrap_err();
    assert_eq!(pos, 0);
    assert!(matches!(err, muadb::error::SQLError::CannotFindIdent(0)));
}
