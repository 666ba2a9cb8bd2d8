use rsh::parse_args;
use rsh::tokenizer::filter_nonempty;
use rsh::tokenizer::parse_string_into_vec;
use rsh::ParseResult;
use rsh::QuoteState;

#[test]
fn parse_args_test() {
    // parse empty string
    {
        let expected: Vec<String> = Vec::new();
        let result = parse_args(&String::from(""));
        assert_eq!(result, expected);
    }

    // parse single-word string
    {
        let expected: Vec<String> = vec!["echo".to_string()];
        let result = parse_args(&String::from("echo"));
        assert_eq!(result, expected);
    }

    // parse single-word string inside quotes
    {
        let expected = vec!["echo".to_string()];
        let result = parse_args(&String::from("\"echo\""));
        assert_eq!(result, expected);
    }

    // parse multi-word string with closed quotes section
    {
        let expected = vec!["echo".to_string(), "-n".into(), "Hello Dear World".into()];
        let result = parse_args(&String::from("echo -n \"Hello Dear World\""));
        assert_eq!(result, expected);
    }

    // parse multi-word string with multiple closed quotes sections
    {
        let expected = vec!["echo".to_string(), "Hello".into(), "Dear World".into()];
        let result = parse_args(&String::from("echo \"Hello\" \"Dear World\""));
        assert_eq!(result, expected);
    }

    // parse multi-word string with no spaces around single quotes
    {
        let expected = vec!["echo".to_string(), "helloworld".into()];
        let result = parse_args(&String::from("echo 'hello'world"));
        assert_eq!(result, expected);
    }

    // parse multi-word string with no spaces around double quotes
    {
        let expected = vec!["echo".to_string(), "helloworld".into()];
        let result = parse_args(&String::from("echo \"hello\"world"));
        assert_eq!(result, expected);
    }

    // allow double quotes inside single quotes
    {
        let expected = vec!["\"".to_string()];
        let result = parse_args(&String::from("'\"'"));
        assert_eq!(result, expected);
    }

    // allow single quotes inside double quotes
    {
        let expected = vec!["\'".to_string()];
        let result = parse_args(&String::from("\"\'\""));
        assert_eq!(result, expected);
    }

    // handle multiple quote sections in succession
    {
        let expected = vec!["echo".to_string(), "hello world how are you".into()];
        let result = parse_args(&String::from("echo \"hello world\"\' how are you\'"));
        assert_eq!(result, expected);
    }

    // preserve newlines
    {
        let expected = vec!["echo".to_string(), "hello\nworld".into()];
        let result = parse_args(&String::from("echo \"hello\nworld\""));
        assert_eq!(result, expected);
    }

    // remove final newline
    {
        let expected = vec!["echo".to_string()];
        let result = parse_args(&String::from("echo\n"));
        assert_eq!(result, expected);
    }
}

#[test]
fn balanced_line_is_single_pass() {
    let mut pr = ParseResult::new();
    parse_string_into_vec(&String::from("echo -n \"Hello Dear World\"\n"), &mut pr);
    assert!(pr.completed);
    assert_eq!(pr.build_type, QuoteState::Unquoted);
}

#[test]
fn unterminated_quote_requests_continuation() {
    let mut pr = ParseResult::new();
    parse_string_into_vec(&String::from("echo \"open"), &mut pr);
    assert!(!pr.completed);
    assert_eq!(pr.build_type, QuoteState::InDoubleQuote);
    assert_eq!(pr.result, vec!["echo".to_string()]);

    parse_string_into_vec(&String::from("ing\"\n"), &mut pr);
    assert!(pr.completed);
    let tokens = filter_nonempty(pr.result);
    assert_eq!(tokens, vec!["echo".to_string(), "opening".to_string()]);
}

#[test]
fn continuation_keeps_newline_inside_quotes() {
    let mut pr = ParseResult::new();
    parse_string_into_vec(&String::from("echo \"hello\n"), &mut pr);
    assert!(!pr.completed);

    parse_string_into_vec(&String::from("world\"\n"), &mut pr);
    assert!(pr.completed);
    let tokens = filter_nonempty(pr.result);
    assert_eq!(tokens, vec!["echo".to_string(), "hello\nworld".to_string()]);
}

#[test]
fn unterminated_single_quote_requests_continuation() {
    let mut pr = ParseResult::new();
    parse_string_into_vec(&String::from("echo 'alm"), &mut pr);
    assert!(!pr.completed);
    assert_eq!(pr.build_type, QuoteState::InSingleQuote);

    parse_string_into_vec(&String::from("ost'\n"), &mut pr);
    assert!(pr.completed);
    let tokens = filter_nonempty(pr.result);
    assert_eq!(tokens, vec!["echo".to_string(), "almost".to_string()]);
}

#[test]
fn consecutive_spaces_yield_no_empty_tokens() {
    let expected = vec!["a".to_string(), "b".to_string()];
    assert_eq!(parse_args(&String::from("a   b")), expected);
}
