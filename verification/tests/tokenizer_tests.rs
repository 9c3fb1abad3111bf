use commands::tokenizer::classify;
use commands::tokenizer::finish;
use commands::tokenizer::tokenize;
use commands::tokenizer::transition;
use commands::tokenizer::CharClass;
use commands::tokenizer::SourceLocation;
use commands::tokenizer::SourceOffset;
use commands::tokenizer::State;
use commands::tokenizer::Token;
use commands::tokenizer::TokenType;
use commands::tokenizer::TokenizerError;
use commands::tokenizer::Transition;

fn mk_token(text: &str, token_type: TokenType, start: usize, end: usize) -> Token<'_> {
    Token::new(
        text,
        token_type,
        SourceLocation::new(
            SourceOffset::new(start, 0, start),
            SourceOffset::new(end, 0, end),
        ),
    )
}

fn texts<'a>(tokens: &[Token<'a>]) -> Vec<&'a str> {
    tokens.iter().map(|t| t.text).collect()
}

#[test]
fn empty_test() {
    match tokenize("") {
        Ok(ts) => assert_eq!(ts.len(), 0),
        _ => {}
    };
}

#[test]
fn single_word() {
    match tokenize("a") {
        Ok(ts) => {
            assert_eq!(ts.len(), 1);
            assert_eq!(ts[0], mk_token("a", TokenType::Word, 0, 0));
        }
        _ => {}
    };
}

#[test]
fn multiple_words() {
    match tokenize(" aa bb  ccc ") {
        Ok(ts) => {
            assert_eq!(ts.len(), 7);
            assert_eq!(ts[0], mk_token(" ", TokenType::Whitespace, 0, 0));
            assert_eq!(ts[1], mk_token("aa", TokenType::Word, 1, 2));
            assert_eq!(ts[2], mk_token(" ", TokenType::Whitespace, 3, 3));
            assert_eq!(ts[3], mk_token("bb", TokenType::Word, 4, 5));
            assert_eq!(ts[4], mk_token("  ", TokenType::Whitespace, 6, 7));
            assert_eq!(ts[5], mk_token("ccc", TokenType::Word, 8, 10));
            assert_eq!(ts[6], mk_token(" ", TokenType::Whitespace, 11, 11));
        }
        _ => {}
    };
}

#[test]
fn double_quoted_text() {
    match tokenize(r#"a "b c""#) {
        Ok(ts) => {
            assert_eq!(ts.len(), 3);
            assert_eq!(ts[0], mk_token("a", TokenType::Word, 0, 0));
            assert_eq!(ts[1], mk_token(" ", TokenType::Whitespace, 1, 1));
            assert_eq!(ts[2], mk_token(r#""b c""#, TokenType::Word, 2, 6));
        }
        _ => {}
    };
}

#[test]
fn single_quoted_text() {
    match tokenize(r#"a '"b c"'"#) {
        Ok(ts) => {
            assert_eq!(ts.len(), 3);
            assert_eq!(ts[0], mk_token("a", TokenType::Word, 0, 0));
            assert_eq!(ts[1], mk_token(" ", TokenType::Whitespace, 1, 1));
            assert_eq!(ts[2], mk_token(r#"'"b c"'"#, TokenType::Word, 2, 8));
        }
        _ => {}
    };
}

#[test]
fn escaped_whitespace_in_word() {
    match tokenize(r#"a\ b"#) {
        Ok(ts) => {
            assert_eq!(ts.len(), 1);
            assert_eq!(ts[0], mk_token(r#"a\ b"#, TokenType::Word, 0, 3));
        }
        _ => {}
    };
}

#[test]
fn character_not_allowed_here() {
    match tokenize(r#"ab \!"#) {
        Err(TokenizerError::CharacterNotAllowedHere(_)) => {}
        _ => panic!(),
    };

    match tokenize(r#"ab "\ ab"#) {
        Err(TokenizerError::CharacterNotAllowedHere(_)) => {}
        _ => panic!(),
    };
}

#[test]
#[should_panic]
fn escaping_backslash_at_end_of_input() {
    match tokenize(r#"ab \"#) {
        Err(TokenizerError::EscapingBackslashAtEndOfInput) => panic!(),
        _ => {}
    }
}

#[test]
#[should_panic]
fn unclosed_double_quote_at_end_of_input() {
    match tokenize(r#"ab ""#) {
        Err(TokenizerError::UnclosedDoubleQuote) => panic!(),
        _ => {}
    }
}

#[test]
#[should_panic]
fn escaped_double_quote_at_end_of_input() {
    match tokenize(r#"ab "\"#) {
        Err(TokenizerError::EscapingBackslashAtEndOfInput) => panic!(),
        _ => {}
    }
}

#[test]
fn the_empty_line_has_no_tokens() {
    assert_eq!(tokenize("").unwrap().len(), 0);
}

#[test]
fn tokens_are_exactly_as_expected() {
    let ts = tokenize(" aa bb  ccc ").unwrap();
    assert_eq!(
        ts,
        vec![
            mk_token(" ", TokenType::Whitespace, 0, 0),
            mk_token("aa", TokenType::Word, 1, 2),
            mk_token(" ", TokenType::Whitespace, 3, 3),
            mk_token("bb", TokenType::Word, 4, 5),
            mk_token("  ", TokenType::Whitespace, 6, 7),
            mk_token("ccc", TokenType::Word, 8, 10),
            mk_token(" ", TokenType::Whitespace, 11, 11),
        ]
    );
}

#[test]
fn word_and_whitespace_examples() {
    assert_eq!(tokenize("word").unwrap().len(), 1);
    let ts = tokenize("show interface").unwrap();
    assert_eq!(ts.len(), 3);
    assert_eq!(ts[1].token_type, TokenType::Whitespace);
}

#[test]
fn double_quotes_make_one_token() {
    let ts = tokenize(r#"echo -n "a b c""#).unwrap();
    assert_eq!(ts.len(), 5);
    assert_eq!(ts[0].text, "echo");
    assert_eq!(ts[2].text, "-n");
    assert_eq!(ts[4].text, "\"a b c\"");
    assert_eq!(ts[4], mk_token("\"a b c\"", TokenType::Word, 8, 14));
}

#[test]
fn single_quotes_make_one_token() {
    let ts = tokenize(r#"'"One token"' 'and another'"#).unwrap();
    assert_eq!(ts.len(), 3);
    assert_eq!(texts(&ts), vec![r#"'"One token"'"#, " ", "'and another'"]);
}

#[test]
fn backslash_escapes_a_space() {
    let ts = tokenize(r#"ls My\ Documents"#).unwrap();
    assert_eq!(ts.len(), 3);
    assert_eq!(ts[2].text, r#"My\ Documents"#);
}

#[test]
fn backslash_may_open_a_word() {
    let ts = tokenize(r#"\a b"#).unwrap();
    assert_eq!(texts(&ts), vec![r#"\a"#, " ", "b"]);
    assert_eq!(ts[0], mk_token(r#"\a"#, TokenType::Word, 0, 1));
}

#[test]
fn escaped_characters_inside_quotes() {
    let ts = tokenize(r#""a\"b" 'c\'d'"#).unwrap();
    assert_eq!(texts(&ts), vec![r#""a\"b""#, " ", r#"'c\'d'"#]);
}

#[test]
fn a_quote_ends_a_bare_word() {
    let ts = tokenize(r#"ab"c d"e"#).unwrap();
    assert_eq!(texts(&ts), vec!["ab", r#""c d""#, "e"]);
    assert_eq!(ts[1], mk_token(r#""c d""#, TokenType::Word, 2, 6));
    assert_eq!(ts[2], mk_token("e", TokenType::Word, 7, 7));
    let ts = tokenize("ab'c'").unwrap();
    assert_eq!(texts(&ts), vec!["ab", "'c'"]);
}

#[test]
fn reserved_characters_are_tokens_by_themselves() {
    let ts = tokenize("a;b|c?d").unwrap();
    assert_eq!(texts(&ts), vec!["a", ";", "b", "|", "c", "?", "d"]);
    for t in &ts {
        assert_eq!(t.token_type, TokenType::Word);
    }
    assert_eq!(ts[1], mk_token(";", TokenType::Word, 1, 1));
    let ts = tokenize("; ?").unwrap();
    assert_eq!(texts(&ts), vec![";", " ", "?"]);
    let ts = tokenize(" |").unwrap();
    assert_eq!(texts(&ts), vec![" ", "|"]);
}

#[test]
fn reserved_characters_inside_quotes_are_text() {
    let ts = tokenize(r#""a;b" 'c|d'"#).unwrap();
    assert_eq!(texts(&ts), vec![r#""a;b""#, " ", "'c|d'"]);
}

#[test]
fn runs_of_whitespace_coalesce() {
    let ts = tokenize("a \t\n b").unwrap();
    assert_eq!(texts(&ts), vec!["a", " \t\n ", "b"]);
    assert_eq!(ts[1], mk_token(" \t\n ", TokenType::Whitespace, 1, 4));
}

#[test]
fn offsets_count_bytes() {
    // "é" takes two bytes, "日本" six, and U+00A0 is whitespace of two bytes.
    let ts = tokenize("é 日本\u{a0}x").unwrap();
    assert_eq!(
        ts,
        vec![
            mk_token("é", TokenType::Word, 0, 1),
            mk_token(" ", TokenType::Whitespace, 2, 2),
            mk_token("日本", TokenType::Word, 3, 8),
            mk_token("\u{a0}", TokenType::Whitespace, 9, 10),
            mk_token("x", TokenType::Word, 11, 11),
        ]
    );
}

#[test]
fn token_text_is_the_bytes_of_its_location() {
    let line = "sh\\ ow 'é ü' ; 日本";
    let ts = tokenize(line).unwrap();
    for t in &ts {
        assert_eq!(
            t.text,
            &line[t.location.start.char..t.location.end.char + 1]
        );
        assert_eq!(t.location.start.line, 0);
        assert_eq!(t.location.start.column, t.location.start.char);
        assert_eq!(t.location.end.column, t.location.end.char);
    }
}

#[test]
fn token_texts_give_the_line_back() {
    for line in [
        "",
        "a",
        " aa bb  ccc ",
        "show interface eth0",
        "a b c d e f",
        r#"echo -n "a b c""#,
        r#"a\ b 'c d'"e""f";g|h"#,
        "é 日本\u{a0}x",
    ] {
        let ts = tokenize(line).unwrap();
        let joined: String = ts.iter().map(|t| t.text).collect();
        assert_eq!(joined, line);
    }
}

#[test]
fn tokens_follow_each_other_without_gaps() {
    let line = r#" show  "a b"  c\ d;e "#;
    let ts = tokenize(line).unwrap();
    assert_eq!(ts[0].location.start.char, 0);
    for i in 1..ts.len() {
        assert_eq!(ts[i].location.start.char, ts[i - 1].location.end.char + 1);
    }
    assert_eq!(ts[ts.len() - 1].location.end.char, line.len() - 1);
}

#[test]
fn lines_of_words_and_single_spaces_tokenize() {
    let line = "show route src 10.0.0.1 dst 10.0.0.2";
    let ts = tokenize(line).unwrap();
    assert_eq!(ts.len(), 11);
    for (i, t) in ts.iter().enumerate() {
        if i % 2 == 0 {
            assert_eq!(t.token_type, TokenType::Word);
        } else {
            assert_eq!(*t, mk_token(" ", TokenType::Whitespace, t.location.start.char, t.location.start.char));
        }
    }
}

#[test]
fn character_not_allowed_after_backslash() {
    assert_eq!(
        tokenize(r#"ab \!"#),
        Err(TokenizerError::CharacterNotAllowedHere(4))
    );
    assert_eq!(
        tokenize(r#"ab "\ ab"#),
        Err(TokenizerError::CharacterNotAllowedHere(5))
    );
    assert_eq!(
        tokenize(r#"ab '\ ab"#),
        Err(TokenizerError::CharacterNotAllowedHere(5))
    );
    assert_eq!(
        tokenize(r#"a\;b"#),
        Err(TokenizerError::CharacterNotAllowedHere(2))
    );
    assert_eq!(
        tokenize(r#"a\"b"#),
        Err(TokenizerError::CharacterNotAllowedHere(2))
    );
}

#[test]
fn the_error_offset_counts_bytes() {
    assert_eq!(
        tokenize("é\\!"),
        Err(TokenizerError::CharacterNotAllowedHere(3))
    );
}

#[test]
fn only_the_first_error_is_reported() {
    assert_eq!(
        tokenize(r#"a\! "b"#),
        Err(TokenizerError::CharacterNotAllowedHere(2))
    );
}

#[test]
fn a_letter_of_any_script_may_follow_a_backslash() {
    let ts = tokenize("a\\é").unwrap();
    assert_eq!(ts, vec![mk_token("a\\é", TokenType::Word, 0, 3)]);
}

#[test]
fn errors_at_the_end_of_the_line() {
    assert_eq!(
        tokenize(r#"ab \"#),
        Err(TokenizerError::EscapingBackslashAtEndOfInput)
    );
    assert_eq!(tokenize(r#"ab ""#), Err(TokenizerError::UnclosedDoubleQuote));
    assert_eq!(tokenize("ab 'cd"), Err(TokenizerError::UnclosedSingleQuote));
    assert_eq!(
        tokenize(r#"ab "\"#),
        Err(TokenizerError::EscapingBackslashAtEndOfInput)
    );
    assert_eq!(
        tokenize(r#"ab '\"#),
        Err(TokenizerError::EscapingBackslashAtEndOfInput)
    );
}

#[test]
fn error_descriptions() {
    assert_eq!(
        TokenizerError::CharacterNotAllowedHere(3).description(),
        "Character not allowed here"
    );
    assert_eq!(
        TokenizerError::SpecialNotYetImplemented(3).description(),
        "Special not yet implemented"
    );
    assert_eq!(
        TokenizerError::EscapingBackslashAtEndOfInput.description(),
        "Escaping backlash at end of input"
    );
    assert_eq!(
        TokenizerError::UnclosedDoubleQuote.description(),
        "Unclosed double quote at end of input"
    );
    assert_eq!(
        TokenizerError::UnclosedSingleQuote.description(),
        "Unclosed single quote at end of input"
    );
}

#[test]
fn characters_are_classified() {
    assert_eq!(classify(' '), CharClass::Whitespace);
    assert_eq!(classify('\t'), CharClass::Whitespace);
    assert_eq!(classify('\u{3000}'), CharClass::Whitespace);
    assert_eq!(classify(';'), CharClass::Special);
    assert_eq!(classify('?'), CharClass::Special);
    assert_eq!(classify('|'), CharClass::Special);
    assert_eq!(classify('"'), CharClass::DoubleQuote);
    assert_eq!(classify('\''), CharClass::SingleQuote);
    assert_eq!(classify('\\'), CharClass::Backslash);
    assert_eq!(classify('a'), CharClass::Alphanumeric);
    assert_eq!(classify('7'), CharClass::Alphanumeric);
    assert_eq!(classify('é'), CharClass::Alphanumeric);
    assert_eq!(classify('!'), CharClass::Other);
    assert_eq!(classify('-'), CharClass::Other);
}

#[test]
fn the_table_opens_tokens() {
    let open = |next| Ok(Transition { flush: false, next, emit: false });
    assert_eq!(
        transition(State::Initial, CharClass::Whitespace, 0),
        open(State::Whitespace)
    );
    assert_eq!(
        transition(State::Initial, CharClass::Special, 0),
        Ok(Transition { flush: false, next: State::Special, emit: true })
    );
    assert_eq!(
        transition(State::Initial, CharClass::DoubleQuote, 0),
        open(State::Doublequote)
    );
    assert_eq!(
        transition(State::Initial, CharClass::SingleQuote, 0),
        open(State::Singlequote)
    );
    assert_eq!(
        transition(State::Initial, CharClass::Backslash, 0),
        open(State::WordBackslash)
    );
    assert_eq!(
        transition(State::Initial, CharClass::Alphanumeric, 0),
        open(State::Word)
    );
    assert_eq!(transition(State::Initial, CharClass::Other, 0), open(State::Word));
}

#[test]
fn the_table_closes_tokens() {
    assert_eq!(
        transition(State::Word, CharClass::Whitespace, 2),
        Ok(Transition { flush: true, next: State::Whitespace, emit: false })
    );
    assert_eq!(
        transition(State::Word, CharClass::Special, 2),
        Ok(Transition { flush: true, next: State::Special, emit: true })
    );
    assert_eq!(
        transition(State::Word, CharClass::DoubleQuote, 2),
        Ok(Transition { flush: true, next: State::Doublequote, emit: false })
    );
    assert_eq!(
        transition(State::Whitespace, CharClass::Other, 2),
        Ok(Transition { flush: true, next: State::Word, emit: false })
    );
    assert_eq!(
        transition(State::Whitespace, CharClass::Whitespace, 2),
        Ok(Transition { flush: false, next: State::Whitespace, emit: false })
    );
    assert_eq!(
        transition(State::Doublequote, CharClass::DoubleQuote, 2),
        Ok(Transition { flush: false, next: State::Doublequote, emit: true })
    );
    assert_eq!(
        transition(State::Singlequote, CharClass::SingleQuote, 2),
        Ok(Transition { flush: false, next: State::Singlequote, emit: true })
    );
    assert_eq!(
        transition(State::Singlequote, CharClass::DoubleQuote, 2),
        Ok(Transition { flush: false, next: State::Singlequote, emit: false })
    );
}

#[test]
fn the_table_rejects_characters() {
    assert_eq!(
        transition(State::WordBackslash, CharClass::Other, 7),
        Err(TokenizerError::CharacterNotAllowedHere(7))
    );
    assert_eq!(
        transition(State::WordBackslash, CharClass::Whitespace, 7),
        Ok(Transition { flush: false, next: State::Word, emit: false })
    );
    assert_eq!(
        transition(State::DoublequoteBackslash, CharClass::Whitespace, 7),
        Err(TokenizerError::CharacterNotAllowedHere(7))
    );
    assert_eq!(
        transition(State::DoublequoteBackslash, CharClass::Other, 7),
        Ok(Transition { flush: false, next: State::Doublequote, emit: false })
    );
    assert_eq!(
        transition(State::SinglequoteBackslash, CharClass::Whitespace, 7),
        Err(TokenizerError::CharacterNotAllowedHere(7))
    );
    assert_eq!(
        transition(State::Special, CharClass::Alphanumeric, 7),
        Err(TokenizerError::SpecialNotYetImplemented(7))
    );
}

#[test]
fn the_end_of_the_line() {
    assert_eq!(finish(State::Initial, 3), Ok(false));
    assert_eq!(finish(State::Word, 3), Ok(true));
    assert_eq!(finish(State::Whitespace, 3), Ok(true));
    assert_eq!(
        finish(State::WordBackslash, 3),
        Err(TokenizerError::EscapingBackslashAtEndOfInput)
    );
    assert_eq!(
        finish(State::Doublequote, 3),
        Err(TokenizerError::UnclosedDoubleQuote)
    );
    assert_eq!(
        finish(State::Singlequote, 3),
        Err(TokenizerError::UnclosedSingleQuote)
    );
    assert_eq!(
        finish(State::DoublequoteBackslash, 3),
        Err(TokenizerError::EscapingBackslashAtEndOfInput)
    );
    assert_eq!(
        finish(State::SinglequoteBackslash, 3),
        Err(TokenizerError::EscapingBackslashAtEndOfInput)
    );
    assert_eq!(
        finish(State::Special, 3),
        Err(TokenizerError::SpecialNotYetImplemented(2))
    );
    assert_eq!(
        finish(State::Special, 0),
        Err(TokenizerError::SpecialNotYetImplemented(0))
    );
}
