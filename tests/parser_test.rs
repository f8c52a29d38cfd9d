use parser::{
    Action, Parser, ParserOutput, State, action, at_least_one, clear_white_space, get_all,
    is_alphabetic, is_numeric, item, keyword, state, word,
};

#[test]
fn test_state() {
    let p_state = Parser::new(&state);

    assert_eq!(
        p_state.parse("state abc {entry bar}").0,
        Ok((
            State {
                name: "abc".to_string(),
                actions: vec![Action::Entry("bar".to_string())]
            },
            "".to_string()
        ))
    );
}

#[test]
fn parser_test_test_item() {
    let item = Parser::new(item);
    assert_eq!(item.parse("Foo").unwrap(), ('F', "oo".to_string()));
    assert_eq!(item.parse("B").unwrap(), ('B', "".to_string()));
    assert_eq!(item.parse("").is_valid(), false)
}

#[test]
fn parser_test_test_is_numeric() {
    let numeric = Parser::new(is_numeric);
    assert_eq!(numeric.parse("").is_valid(), false);
    assert_eq!(numeric.parse("a").is_valid(), false);
    assert_eq!(numeric.parse("01").unwrap(), ('0', "1".to_string()));
}

#[test]
fn parser_test_test_word() {
    let word = Parser::new(word);
    assert_eq!(
        word.parse("Als ich").unwrap(),
        ("Als".to_string(), " ich".to_string())
    );
    assert_eq!(
        word.parse("Als1 ich").unwrap(),
        ("Als".to_string(), "1 ich".to_string())
    );
}

#[test]
fn parser_test_test_get_all() {
    let all = Parser::new(|s: &String| get_all(s, &Parser::new(|str| is_numeric(str))));

    assert_eq!(all.parse("01f").unwrap(), (vec!['0', '1'], "f".to_string()));
}

#[test]
fn parser_test_test_at_least_one() {
    let one_number = Parser::new(|s| at_least_one(s, &Parser::new(is_numeric)));
    assert_eq!(one_number.parse("abc").is_valid(), false);
    assert_eq!(
        one_number.parse("12f").unwrap(),
        (vec!['1', '2'], "f".to_string())
    );
}

#[test]
fn parser_test_test_clear_whitespace() {
    let clear_ws = Parser::new(clear_white_space);
    assert_eq!(clear_ws.parse("  aba").unwrap(), ((), "aba".to_string()));
}

#[test]
fn parser_test_test_keyword() {
    let kw = Parser::new(|s| keyword(s, "foo"));
    assert_eq!(kw.parse("foo bar").unwrap(), ((), " bar".to_string()));
}

#[test]
fn parser_test_test_action() {
    let action = Parser::new(action);
    assert_eq!(
        action.parse(" entry Namear bla").unwrap(),
        (Action::Entry("Namear".to_string()), " bla".to_string())
    );
}

#[test]
fn main_test_item() {
    let item = Parser::new(item);
    assert_eq!(item.parse("Foo").unwrap(), ('F', "oo".to_string()));
    assert_eq!(item.parse("B").unwrap(), ('B', "".to_string()));
    assert_eq!(item.parse("").is_valid(), false)
}

#[test]
fn main_test_is_numeric() {
    let numeric = Parser::new(is_numeric);
    assert_eq!(numeric.parse("").is_valid(), false);
    assert_eq!(numeric.parse("a").is_valid(), false);
    assert_eq!(numeric.parse("01").unwrap(), ('0', "1".to_string()));
}

#[test]
fn main_test_word() {
    let word = Parser::new(word);
    assert_eq!(
        word.parse("Als ich").unwrap(),
        ("Als".to_string(), " ich".to_string())
    );
    assert_eq!(
        word.parse("Als1 ich").unwrap(),
        ("Als".to_string(), "1 ich".to_string())
    );
}

#[test]
fn main_test_get_all() {
    let all = Parser::new(|s: &String| get_all(s, &Parser::new(|str| is_numeric(str))));

    assert_eq!(all.parse("01f").unwrap(), (vec!['0', '1'], "f".to_string()));
}

#[test]
fn main_test_at_least_one() {
    let one_number = Parser::new(|s| at_least_one(s, &Parser::new(is_numeric)));
    assert_eq!(one_number.parse("abc").is_valid(), false);
    assert_eq!(
        one_number.parse("12f").unwrap(),
        (vec!['1', '2'], "f".to_string())
    );
}

#[test]
fn main_test_clear_whitespace() {
    let clear_ws = Parser::new(clear_white_space);
    assert_eq!(clear_ws.parse("  aba").unwrap(), ((), "aba".to_string()));
}

#[test]
fn main_test_keyword() {
    let kw = Parser::new(|s| keyword(s, "foo"));
    assert_eq!(kw.parse("foo bar").unwrap(), ((), " bar".to_string()));
}

#[test]
fn main_test_action() {
    let action = Parser::new(action);
    assert_eq!(
        action.parse(" entry Namear bla").unwrap(),
        (Action::Entry("Namear".to_string()), " bla".to_string())
    );
}

#[test]
fn item_on_empty_input_reports_nothing_left() {
    assert_eq!(
        Parser::new(item).parse("").0,
        Err("Nothing left to parse".to_string())
    );
}

#[test]
fn item_takes_one_whole_multibyte_character() {
    assert_eq!(Parser::new(item).parse("éa").unwrap(), ('é', "a".to_string()));
}

#[test]
fn is_alphabetic_rejects_digit() {
    let letters = Parser::new(is_alphabetic);
    assert_eq!(letters.parse("1a").0, Err("Expecting alphabetic".to_string()));
    assert_eq!(letters.parse("a1").unwrap(), ('a', "1".to_string()));
}

#[test]
fn is_numeric_reports_expected_class() {
    assert_eq!(
        Parser::new(is_numeric).parse("x").0,
        Err("Expecting numeric".to_string())
    );
}

#[test]
fn white_space_takes_only_whitespace() {
    let spaces = Parser::new(parser::white_space);
    assert_eq!(spaces.parse("\tx").unwrap(), ('\t', "x".to_string()));
    assert_eq!(spaces.parse("x").0, Err("Expecting whitespace".to_string()));
}

#[test]
fn get_all_on_empty_input_collects_nothing() {
    let digits = Parser::new(is_numeric);
    assert_eq!(
        get_all(&String::new(), &digits).unwrap(),
        (Vec::<char>::new(), String::new())
    );
}

#[test]
fn at_least_one_reports_empty_repetition() {
    let digits = Parser::new(is_numeric);
    assert_eq!(
        at_least_one(&"abc".to_string(), &digits).0,
        Err("Expecting something".to_string())
    );
}

#[test]
fn at_least_one_fails_exactly_when_first_attempt_fails() {
    let digits = Parser::new(is_numeric);
    for input in ["", "a", "1", "12a", "a1"] {
        let first = Parser::new(is_numeric).parse(input).is_valid();
        let many = at_least_one(&input.to_string(), &digits).is_valid();
        assert_eq!(many, first);
    }
}

#[test]
fn repetition_of_non_consuming_parser_terminates() {
    let blanks = Parser::new(clear_white_space).all();
    assert_eq!(blanks.parse("  a").unwrap(), (vec![()], "a".to_string()));
    assert_eq!(blanks.parse("a").unwrap(), (Vec::<()>::new(), "a".to_string()));
}

#[test]
fn remainder_is_a_suffix_of_input() {
    let input = "Als1 ich";
    let (_, rest) = Parser::new(word).parse(input).unwrap();
    assert!(rest.len() <= input.len());
    assert!(input.ends_with(rest.as_str()));
}

#[test]
fn or_second_alternative_sees_original_input() {
    let item_then_digit = Parser::new(item).and_then(Parser::new(is_numeric));
    let either = item_then_digit.or(Parser::new(item));
    assert_eq!(either.parse("ab").unwrap(), ('a', "b".to_string()));
    assert_eq!(
        Parser::new(item).parse("ab").unwrap(),
        ('a', "b".to_string())
    );
}

#[test]
fn or_takes_first_success() {
    let either = Parser::new(is_numeric).or(Parser::new(is_alphabetic));
    assert_eq!(either.parse("1a").unwrap(), ('1', "a".to_string()));
    assert_eq!(either.parse("a1").unwrap(), ('a', "1".to_string()));
    assert_eq!(either.parse(" ").0, Err("Expecting alphabetic".to_string()));
}

#[test]
fn map_keeps_failure_message() {
    let shouted = Parser::new(is_numeric).map(|c: &char| c.to_ascii_uppercase());
    assert_eq!(shouted.parse("a").0, Err("Expecting numeric".to_string()));
    assert_eq!(shouted.parse("1x").unwrap(), ('1', "x".to_string()));
    let upper = Parser::new(is_alphabetic).map(|c: &char| c.to_ascii_uppercase());
    assert_eq!(upper.parse("ab").unwrap(), ('A', "b".to_string()));
}

#[test]
fn parser_only_if_filters_value() {
    let not_zero = Parser::new(is_numeric).only_if(|c: &char| *c != '0');
    assert_eq!(not_zero.parse("10").unwrap(), ('1', "0".to_string()));
    assert_eq!(not_zero.parse("01").0, Err("If not matched".to_string()));
    assert_eq!(not_zero.parse("x").0, Err("Expecting numeric".to_string()));
}

#[test]
fn parser_and_then_threads_remainder() {
    let two = Parser::new(item).and_then(Parser::new(item));
    assert_eq!(two.parse("abc").unwrap(), ('b', "c".to_string()));
    assert_eq!(two.parse("a").0, Err("Nothing left to parse".to_string()));
}

#[test]
fn output_combinators() {
    let ok = ParserOutput(Ok(('a', "rest".to_string())));
    assert_eq!(ok.set_error("other".to_string()).0, Ok(('a', "rest".to_string())));
    let failed: ParserOutput<char> = ParserOutput(Err("first".to_string()));
    assert_eq!(failed.set_error("second".to_string()).0, Err::<(char, String), String>("second".to_string()));
    let ok = ParserOutput(Ok(('a', "rest".to_string())));
    assert_eq!(ok.only_if(|c| *c == 'b').0, Err("If not matched".to_string()));
    let ok = ParserOutput(Ok(('a', "rest".to_string())));
    assert_eq!(ok.only_if_message(|c| *c == 'a', "no".to_string()).0, Ok(('a', "rest".to_string())));
    let ok = ParserOutput(Ok(('a', "1x".to_string())));
    assert_eq!(ok.and_then(&Parser::new(is_numeric)).0, Ok(('1', "x".to_string())));
    let failed: ParserOutput<char> = ParserOutput(Err("first".to_string()));
    assert_eq!(failed.map(|c| c.to_string()).0, Err("first".to_string()));
}

#[test]
fn keyword_rejects_other_word() {
    let kw = Parser::new(|s| keyword(s, "foo"));
    assert_eq!(kw.parse("bar").0, Err("Expecting foo".to_string()));
    assert_eq!(kw.parse("foobar").0, Err("Expecting foo".to_string()));
    assert_eq!(kw.parse("Foo").0, Err("Expecting foo".to_string()));
    assert_eq!(kw.parse("").0, Err("Expecting foo".to_string()));
}

#[test]
fn special_char_matches_exact_character() {
    let brace = Parser::new(|s| parser::special_char(s, '{'));
    assert_eq!(brace.parse("{x").unwrap(), ((), "x".to_string()));
    assert_eq!(brace.parse("}x").0, Err("Expecting {".to_string()));
    assert_eq!(brace.parse("").0, Err("Expecting {".to_string()));
}

#[test]
fn action_forms() {
    let action = Parser::new(action);
    assert_eq!(
        action.parse("do run").unwrap(),
        (Action::DoAction("run".to_string()), "".to_string())
    );
    assert_eq!(
        action.parse("  exit   stop}").unwrap(),
        (Action::Exit("stop".to_string()), "}".to_string())
    );
    assert_eq!(action.parse("jump x").0, Err("Expecting exit".to_string()));
}

#[test]
fn state_with_several_actions() {
    let parsed = Parser::new(state).parse("state idle {\n  entry start\n  do wait\n  exit stop\n} tail");
    assert_eq!(
        parsed.0,
        Ok((
            State {
                name: "idle".to_string(),
                actions: vec![
                    Action::Entry("start".to_string()),
                    Action::DoAction("wait".to_string()),
                    Action::Exit("stop".to_string()),
                ]
            },
            " tail".to_string()
        ))
    );
}

#[test]
fn state_failures_name_first_missing_part() {
    let p = Parser::new(state);
    assert_eq!(p.parse("stat abc {}").0, Err("Expecting state".to_string()));
    assert_eq!(p.parse("state {}").0, Err("Expecting something".to_string()));
    assert_eq!(p.parse("state abc entry x}").0, Err("Expecting {".to_string()));
    assert_eq!(p.parse("state abc {entry x").0, Err("Expecting }".to_string()));
    assert_eq!(
        p.parse("state abc {}").0,
        Ok((State { name: "abc".to_string(), actions: vec![] }, "".to_string()))
    );
}
