use mal_rs::quux::printer::Printer;
use mal_rs::quux::reader::read_str;
use mal_rs::quux::types::MalType;

#[test]
fn pr_str_works() {
    {
        let ty = MalType::integer("123");
        assert_eq!("123", ty.pr_str());
    }
    {
        let ty = MalType::completed_list(vec![MalType::integer("123"), MalType::integer("456")]);
        assert_eq!("(123 456)", ty.pr_str());
    }
    {
        let ty = MalType::completed_list(vec![
            MalType::string("+"),
            MalType::integer("2"),
            MalType::completed_list(vec![
                MalType::string("*"),
                MalType::integer("3"),
                MalType::integer("4"),
            ]),
        ]);
        assert_eq!("(+ 2 (* 3 4))", ty.pr_str());
    }
}

#[test]
fn pr_str_atoms() {
    assert_eq!("nil", MalType::Nil.pr_str());
    assert_eq!("true", MalType::Bool(true).pr_str());
    assert_eq!("false", MalType::Bool(false).pr_str());
    assert_eq!("0", MalType::Int(0).pr_str());
    assert_eq!("7", MalType::Int(7).pr_str());
    assert_eq!("10", MalType::Int(10).pr_str());
    assert_eq!("-42", MalType::Int(-42).pr_str());
    assert_eq!("1000000", MalType::Int(1000000).pr_str());
    assert_eq!("2147483647", MalType::Int(i32::MAX).pr_str());
    assert_eq!("-2147483648", MalType::Int(i32::MIN).pr_str());
    assert_eq!("abc", MalType::Symbol("abc".to_string()).pr_str());
    assert_eq!("", MalType::Symbol(String::new()).pr_str());
}

#[test]
fn pr_str_keeps_strings_as_stored() {
    assert_eq!("\"a\\\"b\"", MalType::String("\"a\\\"b\"".to_string()).pr_str());
    assert_eq!("no quotes", MalType::String("no quotes".to_string()).pr_str());
}

#[test]
fn pr_str_collections() {
    let items = vec![MalType::Int(1), MalType::Symbol("a".to_string()), MalType::Nil];
    assert_eq!("(1 a nil)", MalType::List(items.clone()).pr_str());
    assert_eq!("[1 a nil]", MalType::Vector(items.clone()).pr_str());
    assert_eq!("{1 a nil}", MalType::HashMap(items).pr_str());
    assert_eq!("(1)", MalType::List(vec![MalType::Int(1)]).pr_str());
}

#[test]
fn pr_str_empty_collections() {
    assert_eq!("()", MalType::List(vec![]).pr_str());
    assert_eq!("[]", MalType::Vector(vec![]).pr_str());
    assert_eq!("{}", MalType::HashMap(vec![]).pr_str());
    assert_eq!(
        "([] ({}) [[]])",
        MalType::List(vec![
            MalType::Vector(vec![]),
            MalType::List(vec![MalType::HashMap(vec![])]),
            MalType::Vector(vec![MalType::Vector(vec![])]),
        ])
        .pr_str()
    );
}

#[test]
fn read_then_print_normalizes() {
    assert_eq!("(1 2)", read_str("( 1 2 )").unwrap().pr_str());
    assert_eq!("(+ 2 (* 3 4))", read_str("(+ 2 (* 3 4))").unwrap().pr_str());
    assert_eq!("(+ 2 (* 3 4))", read_str(" ( + 2,(* 3,4 ) ) ").unwrap().pr_str());
    assert_eq!("[a {b \"c d\"} ()]", read_str("[a{b\"c d\"}()]").unwrap().pr_str());
    assert_eq!("-42", read_str("-42").unwrap().pr_str());
    assert_eq!("[]", read_str("[]").unwrap().pr_str());
    assert_eq!("[]", read_str("[ ]").unwrap().pr_str());
    assert_eq!("nil", read_str("nil ; the rest").unwrap().pr_str());
}

#[test]
fn read_then_print_where_the_text_changes() {
    assert_eq!("(quote x)", read_str("'x").unwrap().pr_str());
    assert_eq!("(splice-unquote (a b))", read_str("~@(a b)").unwrap().pr_str());
    assert_eq!("(meta {a 1} [1 2])", read_str("^{a 1} [1 2]").unwrap().pr_str());
    assert_eq!("7", read_str("007").unwrap().pr_str());
    assert_eq!("0", read_str("-0").unwrap().pr_str());
}

#[test]
fn clone_is_equal() {
    let value = read_str("(a [1 \"s\" {nil true}] -3)").unwrap();
    let copy = value.clone();
    assert_eq!(value, copy);
    assert_eq!(value.pr_str(), copy.pr_str());
}
