use mal_rs::quux::reader::{
    atom_from, classify, read_atom, read_form, read_list, read_str, select_tokens, tokenize,
    Reader, ReaderOps,
};
use mal_rs::quux::types::MalType;
use mal_rs::quux::MalErr;

fn strings(texts: &[&str]) -> Vec<String> {
    texts.iter().map(|t| t.to_string()).collect()
}

fn symbol(name: &str) -> MalType {
    MalType::Symbol(name.to_string())
}

#[test]
fn next_peek_works() {
    let mut reader = Reader::new(
        vec!["t", "o", "k", "e", "n", "s"]
            .iter()
            .map(|c| c.to_string())
            .collect(),
    );
    assert_eq!("t".to_string(), reader.peek().unwrap());
    assert_eq!("t".to_string(), reader.next().unwrap());
    assert_eq!("o".to_string(), reader.peek().unwrap());
    assert_eq!("o".to_string(), reader.next().unwrap());
    assert_eq!("k".to_string(), reader.peek().unwrap());
    assert_eq!("k".to_string(), reader.next().unwrap());
    assert_eq!("e".to_string(), reader.peek().unwrap());
    assert_eq!("e".to_string(), reader.next().unwrap());
    assert_eq!("n".to_string(), reader.peek().unwrap());
    assert_eq!("n".to_string(), reader.next().unwrap());
    assert_eq!("s".to_string(), reader.peek().unwrap());
    assert_eq!("s".to_string(), reader.next().unwrap());
}

#[test]
fn tokenize_works() {
    {
        let tokens = tokenize("abc bcd def").unwrap();
        assert_eq!(vec!["abc", "bcd", "def"], tokens);
    }
    {
        let tokens = tokenize("abc; never read").unwrap();
        assert_eq!(vec!["abc"], tokens);
    }
    {
        let tokens = tokenize("( 1 + 2 )").unwrap();
        assert_eq!(vec!["(", "1", "+", "2", ")"], tokens);
    }
}

#[test]
fn read_form_works() {
    {
        let ast = read_form(&mut Reader::new(tokenize("123").unwrap()));
        assert_eq!(MalType::Int(123), ast.unwrap());
    }
    {
        let ast = read_form(&mut Reader::new(tokenize("123 ").unwrap()));
        assert_eq!(MalType::Int(123), ast.unwrap());
    }
    {
        let ast = read_form(&mut Reader::new(tokenize("abc").unwrap()));
        assert_eq!(MalType::Symbol("abc".to_string()), ast.unwrap());
    }
    {
        let ast = read_form(&mut Reader::new(tokenize("abc ").unwrap()));
        assert_eq!(MalType::Symbol("abc".to_string()), ast.unwrap());
    }
    {
        let ast = read_form(&mut Reader::new(tokenize("(123 456)").unwrap()));
        assert_eq!(
            MalType::List(vec![MalType::Int(123), MalType::Int(456)]),
            ast.unwrap()
        );
    }
    {
        let ast = read_form(&mut Reader::new(tokenize("( + 2 (* 3 4) )").unwrap()));
        assert_eq!(
            MalType::List(vec![
                MalType::Symbol("+".to_string()),
                MalType::Int(2),
                MalType::List(vec![
                    MalType::Symbol("*".to_string()),
                    MalType::Int(3),
                    MalType::Int(4)
                ])
            ]),
            ast.unwrap()
        );
    }
}

#[test]
fn peek_and_next_past_the_end() {
    let mut reader = Reader::new(strings(&["a"]));
    assert_eq!(Some("a".to_string()), reader.next());
    assert_eq!(1, reader.pos);
    assert_eq!(None, reader.peek());
    assert_eq!(1, reader.pos);
    assert_eq!(None, reader.next());
    assert_eq!(2, reader.pos);
    assert_eq!(None, reader.next());
    assert_eq!(3, reader.pos);
    assert_eq!(strings(&["a"]), reader.tokens);
}

#[test]
fn tokenize_ignores_blanks_and_commas() {
    let expected = vec!["abc", "bcd", "def"];
    assert_eq!(expected, tokenize("  abc bcd def").unwrap());
    assert_eq!(expected, tokenize("abc bcd def  ").unwrap());
    assert_eq!(expected, tokenize(",abc,,bcd , def,").unwrap());
    assert_eq!(expected, tokenize("\tabc\nbcd\r\ndef\n").unwrap());
}

#[test]
fn tokenize_empty_input() {
    assert_eq!(Vec::<String>::new(), tokenize("").unwrap());
    assert_eq!(Vec::<String>::new(), tokenize("   ").unwrap());
    assert_eq!(Vec::<String>::new(), tokenize(" , ,").unwrap());
    assert_eq!(Vec::<String>::new(), tokenize("; only a comment").unwrap());
}

#[test]
fn tokenize_drops_comments() {
    assert_eq!(vec!["abc"], tokenize("abc; comment").unwrap());
    assert_eq!(vec!["abc"], tokenize("abc ;; (not read) \"x").unwrap());
    assert_eq!(vec!["a", "b"], tokenize("a ; first line\nb ; second").unwrap());
}

#[test]
fn tokenize_punctuation() {
    assert_eq!(
        vec!["[", "]", "{", "}", "(", ")", "'", "`", "~", "^", "@"],
        tokenize("[]{}()'`~^@").unwrap()
    );
    assert_eq!(vec!["~@", "x"], tokenize("~@x").unwrap());
    assert_eq!(vec!["~", "x", "~@", "(", "y", ")"], tokenize("~x ~@(y)").unwrap());
    assert_eq!(vec!["'", "x"], tokenize("'x").unwrap());
    assert_eq!(vec!["a~b^c@d"], tokenize("a~b^c@d").unwrap());
}

#[test]
fn tokenize_strings() {
    assert_eq!(vec!["\"abc\""], tokenize("\"abc\"").unwrap());
    assert_eq!(vec!["\"a b, c\"", "d"], tokenize("\"a b, c\" d").unwrap());
    assert_eq!(vec!["\"a\\\"b\""], tokenize("\"a\\\"b\"").unwrap());
    assert_eq!(vec!["\"\""], tokenize("\"\"").unwrap());
    assert_eq!(vec!["(", "\"(;)\"", ")"], tokenize("(\"(;)\")").unwrap());
}

#[test]
fn tokenize_unterminated_string_is_one_token() {
    assert_eq!(vec!["\"abc"], tokenize("\"abc").unwrap());
    assert_eq!(vec!["x", "\"abc def"], tokenize("x \"abc def").unwrap());
}

#[test]
fn tokenize_takes_any_white_space_for_a_blank() {
    assert_eq!(vec!["a", "b", "c"], tokenize("a\u{a0}b\u{3000}c").unwrap());
}

#[test]
fn tokenize_ends_a_comment_with_its_line() {
    assert_eq!(vec!["x", "y"], tokenize("; c1\n x ;c2\r\n y").unwrap());
}

#[test]
fn tokenize_takes_no_line_end_after_a_backslash() {
    assert_eq!(
        vec!["\"a", "\\", "b", "\" c"],
        tokenize("\"a\\\nb\" c").unwrap()
    );
}

#[test]
fn select_tokens_keeps_order_and_drops_the_rest() {
    let found = vec![
        Some("a".to_string()),
        None,
        Some("".to_string()),
        Some("; c".to_string()),
        Some("b".to_string()),
        Some(";".to_string()),
        Some("a".to_string()),
    ];
    assert_eq!(vec!["a", "b", "a"], select_tokens(found));
    assert_eq!(Vec::<String>::new(), select_tokens(vec![]));
}

#[test]
fn read_str_integer_ignores_trailing_blank() {
    assert_eq!(Ok(MalType::Int(123)), read_str("123"));
    assert_eq!(Ok(MalType::Int(123)), read_str("123 "));
}

#[test]
fn read_str_nested_list() {
    let expected = MalType::List(vec![
        symbol("+"),
        MalType::Int(2),
        MalType::List(vec![symbol("*"), MalType::Int(3), MalType::Int(4)]),
    ]);
    assert_eq!(Ok(expected), read_str("(+ 2 (* 3 4))"));
}

#[test]
fn read_str_reader_macros() {
    assert_eq!(
        Ok(MalType::List(vec![symbol("quote"), symbol("x")])),
        read_str("'x")
    );
    assert_eq!(
        Ok(MalType::List(vec![symbol("splice-unquote"), symbol("x")])),
        read_str("~@x")
    );
    assert_eq!(
        Ok(MalType::List(vec![symbol("quasiquote"), symbol("x")])),
        read_str("`x")
    );
    assert_eq!(
        Ok(MalType::List(vec![symbol("unquote"), symbol("x")])),
        read_str("~x")
    );
    assert_eq!(
        Ok(MalType::List(vec![symbol("deref"), symbol("x")])),
        read_str("@x")
    );
    assert_eq!(
        Ok(MalType::List(vec![
            symbol("quote"),
            MalType::List(vec![MalType::Int(1), MalType::List(vec![symbol("unquote"), symbol("a")])])
        ])),
        read_str("'(1 ~a)")
    );
}

#[test]
fn read_str_meta_takes_two_forms() {
    assert_eq!(
        Ok(MalType::List(vec![
            symbol("meta"),
            MalType::HashMap(vec![symbol("a"), MalType::Int(1)]),
            MalType::Vector(vec![MalType::Int(1), MalType::Int(2)]),
        ])),
        read_str("^{a 1} [1 2]")
    );
    assert_eq!(Err(MalErr::EmptyInput), read_str("^"));
    assert_eq!(Err(MalErr::EmptyInput), read_str("^x"));
    assert_eq!(Err(MalErr::UnexpectedCloser(')')), read_str("^x )"));
}

#[test]
fn read_str_prefix_without_form() {
    assert_eq!(Err(MalErr::EmptyInput), read_str("'"));
    assert_eq!(Err(MalErr::UnexpectedCloser(']')), read_str("~@]"));
}

#[test]
fn read_str_unterminated_collection() {
    assert_eq!(Err(MalErr::UnterminatedCollection), read_str("(1 2"));
    assert_eq!(Err(MalErr::UnterminatedCollection), read_str("(1 2 "));
    assert_eq!(Err(MalErr::UnterminatedCollection), read_str("["));
    assert_eq!(Err(MalErr::UnterminatedCollection), read_str("{a (b)"));
    assert_eq!(Err(MalErr::UnterminatedCollection), read_str("(1 (2 3)"));
}

#[test]
fn read_str_unexpected_closer() {
    assert_eq!(Err(MalErr::UnexpectedCloser(')')), read_str(")"));
    assert_eq!(Err(MalErr::UnexpectedCloser(']')), read_str("]"));
    assert_eq!(Err(MalErr::UnexpectedCloser('}')), read_str("}"));
    assert_eq!(Err(MalErr::UnexpectedCloser(']')), read_str("(1 2]"));
    assert_eq!(Err(MalErr::UnexpectedCloser(')')), read_str("{a )"));
}

#[test]
fn read_str_empty_input() {
    assert_eq!(Err(MalErr::EmptyInput), read_str(""));
    assert_eq!(Err(MalErr::EmptyInput), read_str("   "));
    assert_eq!(Err(MalErr::EmptyInput), read_str("; nothing here"));
}

#[test]
fn read_str_negative_integer() {
    assert_eq!(Ok(MalType::Int(-42)), read_str("-42"));
    assert_eq!(Ok(symbol("-")), read_str("-"));
    assert_eq!(Ok(symbol("-a")), read_str("-a"));
    assert_eq!(Ok(symbol("4-2")), read_str("4-2"));
}

#[test]
fn read_str_empty_collections() {
    assert_eq!(Ok(MalType::Vector(vec![])), read_str("[]"));
    assert_eq!(Ok(MalType::List(vec![])), read_str("()"));
    assert_eq!(Ok(MalType::HashMap(vec![])), read_str("{}"));
    assert_eq!(
        Ok(MalType::List(vec![MalType::Vector(vec![]), MalType::HashMap(vec![])])),
        read_str("([] {})")
    );
}

#[test]
fn read_str_hash_map_stays_flat() {
    assert_eq!(
        Ok(MalType::HashMap(vec![
            MalType::String("\"a\"".to_string()),
            MalType::Int(1),
            MalType::String("\"a\"".to_string()),
        ])),
        read_str("{\"a\" 1 \"a\"}")
    );
}

#[test]
fn read_str_reads_only_the_first_form() {
    assert_eq!(Ok(MalType::Int(1)), read_str("1 2 3"));
    assert_eq!(Ok(MalType::List(vec![])), read_str("() )"));
}

#[test]
fn read_form_leaves_the_cursor_after_the_form() {
    let mut reader = Reader::new(tokenize("(1 (2)) x )").unwrap());
    assert_eq!(
        Ok(MalType::List(vec![MalType::Int(1), MalType::List(vec![MalType::Int(2)])])),
        read_form(&mut reader)
    );
    assert_eq!(6, reader.pos);
    assert_eq!(Ok(symbol("x")), read_form(&mut reader));
    assert_eq!(7, reader.pos);
    assert_eq!(Err(MalErr::UnexpectedCloser(')')), read_form(&mut reader));
    assert_eq!(7, reader.pos);
    reader.next();
    assert_eq!(Err(MalErr::EmptyInput), read_form(&mut reader));
    assert_eq!(8, reader.pos);
}

#[test]
fn read_form_stops_where_it_fails() {
    let mut reader = Reader::new(strings(&["(", "1", "(", "2", "]", "3", ")"]));
    assert_eq!(Err(MalErr::UnexpectedCloser(']')), read_form(&mut reader));
    assert_eq!(4, reader.pos);
    let mut reader = Reader::new(strings(&["(", "1", "2"]));
    assert_eq!(Err(MalErr::UnterminatedCollection), read_form(&mut reader));
    assert_eq!(3, reader.pos);
}

#[test]
fn read_list_wraps_by_closer() {
    let tokens = strings(&["(", "1", "a", ")"]);
    let items = vec![MalType::Int(1), symbol("a")];
    let mut reader = Reader::new(tokens.clone());
    assert_eq!(Ok(MalType::List(items.clone())), read_list(&mut reader, ")"));
    assert_eq!(4, reader.pos);
    let tokens = strings(&["[", "1", "a", "]"]);
    let mut reader = Reader::new(tokens);
    assert_eq!(Ok(MalType::Vector(items.clone())), read_list(&mut reader, "]"));
    let tokens = strings(&["{", "1", "a", "}"]);
    let mut reader = Reader::new(tokens);
    assert_eq!(Ok(MalType::HashMap(items)), read_list(&mut reader, "}"));
}

#[test]
fn read_list_with_an_unknown_closer() {
    let mut reader = Reader::new(strings(&["<", "1", ">", "2"]));
    assert_eq!(Err(MalErr::InternalError), read_list(&mut reader, ">"));
    assert_eq!(3, reader.pos);
}

#[test]
fn read_list_without_tokens() {
    let mut reader = Reader::new(vec![]);
    assert_eq!(Err(MalErr::UnterminatedCollection), read_list(&mut reader, ")"));
    assert_eq!(1, reader.pos);
}

#[test]
fn read_atom_without_token_is_internal_error() {
    let mut reader = Reader::new(vec![]);
    assert_eq!(Err(MalErr::InternalError), read_atom(&mut reader));
    assert_eq!(1, reader.pos);
}

#[test]
fn read_atom_takes_one_token() {
    let mut reader = Reader::new(strings(&["nil", "true", "false", "12", "\"s\"", "sym"]));
    assert_eq!(Ok(MalType::Nil), read_atom(&mut reader));
    assert_eq!(Ok(MalType::Bool(true)), read_atom(&mut reader));
    assert_eq!(Ok(MalType::Bool(false)), read_atom(&mut reader));
    assert_eq!(Ok(MalType::Int(12)), read_atom(&mut reader));
    assert_eq!(Ok(MalType::String("\"s\"".to_string())), read_atom(&mut reader));
    assert_eq!(Ok(symbol("sym")), read_atom(&mut reader));
    assert_eq!(6, reader.pos);
}

#[test]
fn atom_from_asks_the_patterns() {
    assert_eq!(Ok(MalType::Int(7)), atom_from("007"));
    assert_eq!(Ok(MalType::Int(0)), atom_from("-0"));
    assert_eq!(Ok(MalType::Int(2147483647)), atom_from("2147483647"));
    assert_eq!(Ok(MalType::Int(-2147483648)), atom_from("-2147483648"));
    assert_eq!(Ok(symbol("+5")), atom_from("+5"));
    assert_eq!(Ok(symbol("1.5")), atom_from("1.5"));
    assert_eq!(Ok(symbol("12a")), atom_from("12a"));
    assert_eq!(Ok(symbol("12\n")), atom_from("12\n"));
    assert_eq!(Ok(symbol("nilly")), atom_from("nilly"));
    assert_eq!(Ok(symbol("True")), atom_from("True"));
    assert_eq!(
        Ok(MalType::String("\"a\\\"b\"".to_string())),
        atom_from("\"a\\\"b\"")
    );
    assert_eq!(Ok(symbol("\"abc")), atom_from("\"abc"));
    assert_eq!(Ok(symbol("\"abc\\\"")), atom_from("\"abc\\\""));
}

#[test]
fn atom_from_integer_out_of_range_is_internal_error() {
    assert_eq!(Err(MalErr::InternalError), atom_from("2147483648"));
    assert_eq!(Err(MalErr::InternalError), atom_from("-2147483649"));
    assert_eq!(Err(MalErr::InternalError), atom_from("99999999999999999999999"));
    assert_eq!(Err(MalErr::InternalError), read_str("(1 99999999999)"));
}

#[test]
fn classify_goes_by_what_the_patterns_said() {
    assert_eq!(Ok(MalType::Nil), classify("nil", true, true));
    assert_eq!(Ok(MalType::Bool(true)), classify("true", false, true));
    assert_eq!(Ok(MalType::Bool(false)), classify("false", false, false));
    assert_eq!(Ok(MalType::Int(-12)), classify("-12", true, true));
    assert_eq!(Err(MalErr::InternalError), classify("abc", true, false));
    assert_eq!(Ok(MalType::String("abc".to_string())), classify("abc", false, true));
    assert_eq!(Ok(symbol("12")), classify("12", false, false));
}
