use commands::parser::Completion;
use commands::parser::CompletionOption;
use commands::tokenizer::tokenize;
use commands::tokenizer::Token;

fn word(text: &str) -> Token<'_> {
    tokenize(text).unwrap()[0]
}

fn make<'a>(
    token: Option<Token<'a>>,
    exhaustive: bool,
    complete: Vec<&str>,
    other: Vec<&str>,
) -> Vec<(String, bool)> {
    let completion = Completion::new(
        "symbol".to_string(),
        "text".to_string(),
        token,
        exhaustive,
        complete,
        other,
    );
    assert_eq!(completion.help_symbol, "symbol");
    assert_eq!(completion.help_text, "text");
    assert_eq!(completion.token, token);
    assert_eq!(completion.exhaustive, exhaustive);
    completion
        .options
        .iter()
        .map(|o| (o.option_string.clone(), o.complete))
        .collect()
}

fn opt(text: &str, complete: bool) -> (String, bool) {
    (text.to_string(), complete)
}

#[test]
fn an_option_is_what_it_was_made_of() {
    let option = CompletionOption::new("show".to_string(), true);
    assert_eq!(option.option_string, "show");
    assert!(option.complete);
    let option = CompletionOption::new("sh".to_string(), false);
    assert_eq!(option.option_string, "sh");
    assert!(!option.complete);
}

#[test]
fn one_name_completes_to_itself() {
    assert_eq!(make(None, true, vec!["show"], vec![]), vec![opt("show", true)]);
    assert_eq!(
        make(Some(word("sh")), true, vec!["show"], vec![]),
        vec![opt("show", true)]
    );
}

#[test]
fn no_options_leave_the_empty_prefix() {
    assert_eq!(make(None, true, vec![], vec![]), vec![opt("", false)]);
    assert_eq!(
        make(Some(word("abc")), true, vec![], vec![]),
        vec![opt("", false)]
    );
}

#[test]
fn the_common_prefix_is_offered() {
    assert_eq!(
        make(None, true, vec!["zebrawood", "zebrafish"], vec![]),
        vec![
            opt("zebrawood", true),
            opt("zebrafish", true),
            opt("zebra", false)
        ]
    );
    assert_eq!(
        make(Some(word("z")), true, vec!["zebrawood", "zebrafish"], vec![]),
        vec![
            opt("zebrawood", true),
            opt("zebrafish", true),
            opt("zebra", false)
        ]
    );
}

#[test]
fn the_common_prefix_is_not_offered_when_it_is_the_token() {
    assert_eq!(
        make(Some(word("zebra")), true, vec!["zebrawood", "zebrafish"], vec![]),
        vec![opt("zebrawood", true), opt("zebrafish", true)]
    );
}

#[test]
fn the_common_prefix_is_not_offered_twice() {
    assert_eq!(
        make(None, true, vec!["ab", "abc"], vec![]),
        vec![opt("ab", true), opt("abc", true)]
    );
    assert_eq!(
        make(None, true, vec!["abc"], vec!["ab"]),
        vec![opt("abc", true), opt("ab", false)]
    );
}

#[test]
fn the_token_filters_the_options() {
    // The common prefix is that of all options, those filtered out too.
    assert_eq!(
        make(Some(word("sh")), true, vec!["show", "set", "shut"], vec![]),
        vec![opt("show", true), opt("shut", true), opt("s", false)]
    );
    assert_eq!(
        make(Some(word("x")), true, vec!["show", "set"], vec!["sx"]),
        vec![opt("s", false)]
    );
}

#[test]
fn other_options_are_not_complete() {
    assert_eq!(
        make(None, true, vec!["alpha"], vec!["beta"]),
        vec![opt("alpha", true), opt("beta", false), opt("", false)]
    );
    assert_eq!(
        make(Some(word("b")), true, vec!["alpha"], vec!["beta", "bet"]),
        vec![opt("beta", false), opt("bet", false), opt("", false)]
    );
}

#[test]
fn the_token_is_an_option_when_not_exhaustive() {
    assert_eq!(
        make(Some(word("sh")), false, vec!["show", "shut"], vec![]),
        vec![opt("show", true), opt("shut", true), opt("sh", false)]
    );
    // Not when it is an option already.
    assert_eq!(
        make(Some(word("show")), false, vec!["show", "shown"], vec![]),
        vec![opt("show", true), opt("shown", true)]
    );
    assert_eq!(
        make(Some(word("sh")), false, vec!["show"], vec!["sh"]),
        vec![opt("show", true), opt("sh", false)]
    );
    // And never when exhaustive: what is left here is the common prefix of
    // the options, which the token has filtered out.
    assert_eq!(
        make(Some(word("x")), true, vec!["show"], vec![]),
        vec![opt("show", false)]
    );
    assert_eq!(
        make(Some(word("x")), false, vec!["show"], vec![]),
        vec![opt("x", false), opt("show", false)]
    );
}
