use jatom::analysis::AnalysisContext;
use jatom::parser::AtomParser;
use jatom::runtime::{Value, ValueData};
use jatom::syntax::{ExprValue, Literal, Number};

#[test]
fn it_works() {
    let parser = AtomParser::new();
    let srcs = [
        "x",
        "_x",
        "x_y",
        "--1.2e3",
        "1",
        "(1)",
        "(-1)",
        "(1 2)",
        "(1 -2)",
        "(1 2 3)",
        "if 1 2",
        "if 1 2 else 3",
        "if -1 -2 else -3",
        "if --1 --2 else --3",
        "if 1 2 else if 3 4",
        "if 1 2 else if 3 4 else 5",
        "if --1 (--2 3) else (--3 4)",
        "if --1 if 2 3 else 4 else 5",
        "if --1 if 2 if 3 4",
        "if --1 if 2 if 3 4 else 5",
        "if --1 if 2 if 3 4 else 5 else 6",
        "if --1 if 2 if 3 4 else 5 else 6 else 7",
        "if --1 if 2 if 3 4 else 5 else 6 else 7 # foo",
        "if --1 if 2 if 3 4 else 5 else 6 else 7 # foo测试",
        "if --1 if 2 if 3 4 else 5 else 6 else # foo测试\n 7",
        "{1==2}",
        "{1<2==2<3}",
        "{1<2==2<3+1}",
        "{1<2==2<3+1;2}",
        "{1<2==2<3+1;2-3}",
        "{1<2==2<3+1;2-3*2}",
        "{1<2==2<3+1;2-3*2;5*x}",
        "if  {a<b} 1 else 2",
        "if  {a<b} -1 else 2",
        "{if {a<b} -1 else 2}",
        "{if {a<b} -1 else -2}",
        "{if {a<b} -1 else -2;4}",
        "{if {a<b} f(2) else -2;4}",
        "{if {a<b} f(2).3 else -2;4}",
        "{if {a<b} f(2).-3 else -2;4}",
        "{if {a<b} f(2).--3 else -2;4}",
        "{if {a<b} f(2).f(3) else -2;4}",
        "{if {a<b} f(2).{f(3)} else -2;4}",
        "if  a<b 1 else 2",
        "if  a<b -1 else 2",
        "{if a<b -1 else 2}",
        "{if a<b -1 else -2}",
        "{if a<b -1 else -2;4}",
        "{if a<b f(2) else -2;4}",
        "{if a<b f(2).3 else -2;4}",
        "{if a<b f(2).-3 else -2;4}",
        "{if a<b f(2).--3 else -2;4}",
        "{if a<b f(2).f(3) else -2;4}",
        "{if a<b f(2).{f(3)} else -2;4}",
        "if  a<b 1 else 2",
        "if  a<b && c || d -1 else 2",
        "{if a<b && c || d -1 else 2}",
        "{if a<b && c || d -1 else -2}",
        "{if a<b && c || d -1 else -2;4}",
        "{if a<b && c || d f(2) else -2;4}",
        "{if a<b && c || d f(2).3 else -2;4}",
        "{if a<b && c || d f(2).-3 else -2;4}",
        "{if a<b && c || d f(2).--3 else -2;4}",
        "{if a<b && c || d f(2).f(3) else -2;4}",
        "{if a<b && c || d f(2).{f(3)} else -2;4}",
        "{if a<-b && !c || d f(2).{f(3)} else -2;4}",
        "{if a<b&&{c||d} m}",
        "{'a'.'b'}",
        "'a'.'b'",
        "fmt.'b'",
        "('a'fmt.'b')",
    ];
    for src in srcs {
        parser.parse(src).expect(src);
    }
}

#[test]
fn parser_rejects_unbalanced_and_trailing_input() {
    let parser = AtomParser::new();
    assert_eq!(parser.parse("(1 2").unwrap_err().position, 4);
    assert_eq!(parser.parse("1 )").unwrap_err().position, 2);
    assert!(parser.parse("").is_err());
    assert!(parser.parse("'abc").is_err());
    assert!(parser.parse("'\\U00110000'").is_err());
}

#[test]
fn parser_reads_number_as_exact_decimal() {
    let e = AtomParser::new().parse("1.25e3").unwrap();
    match &*e.value {
        ExprValue::Literal(Literal::Number(n)) => assert_eq!(*n, Number::new(125, 1)),
        _ => panic!("expected a number"),
    }
    assert_eq!(e.location, (0, 6));
}

#[test]
fn parser_decodes_string_escapes() {
    let e = AtomParser::new().parse("'a\\tb'").unwrap();
    match &*e.value {
        ExprValue::Literal(Literal::String(s)) => assert_eq!(s.as_str(), "a\tb"),
        _ => panic!("expected a string"),
    }
}

#[test]
fn parsed_block_analyzes_end_to_end() {
    let raw = AtomParser::new().parse("{ a = 1; if a < 2 (a + 1) else (a - 1) }").unwrap();
    let mut v = Value::from_expr(&raw);
    assert!(AnalysisContext::new().analysis(&mut v).is_ok());
    let stages = match &v.data {
        ValueData::Pipe(xs) => xs.clone(),
        _ => panic!("expected a block"),
    };
    assert_eq!(stages.len(), 2);
    match &stages[1].data {
        ValueData::If(x) => {
            for branch in [&x.cond, &x.yes, x.no.as_ref().unwrap()] {
                match &branch.data {
                    ValueData::Op2(_, l, _) => match &l.data {
                        ValueData::Ident(i) => {
                            assert_eq!(i.name(), "a");
                            let b = i.value.as_ref().expect("resolved");
                            assert_eq!(b.data, ValueData::Number(Number::new(1, 0)));
                        },
                        _ => panic!("expected a reference"),
                    },
                    _ => panic!("expected a binary operation"),
                }
            }
        },
        _ => panic!("expected a conditional"),
    }
}

#[test]
fn parsed_undefined_reference_fails_analysis() {
    let raw = AtomParser::new().parse("{ x = 1; y }").unwrap();
    let mut v = Value::from_expr(&raw);
    let err = AnalysisContext::new().analysis(&mut v).unwrap_err();
    assert_eq!(err.location(), 9);
}
