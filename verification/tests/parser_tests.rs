use commands::parser::Command;
use commands::parser::CommandNode;
use commands::parser::CommandTree;
use commands::parser::Completion;
use commands::parser::Grammar;
use commands::parser::Node;
use commands::parser::NodeOps;
use commands::parser::Parameter;
use commands::parser::ParameterKind;
use commands::parser::ParameterNameNode;
use commands::parser::ParameterNode;
use commands::parser::ParseError;
use commands::parser::Parser;
use commands::parser::RootNode;
use commands::parser::VerifyError;
use commands::parser::PRIORITY_DEFAULT;
use commands::parser::PRIORITY_MINIMUM;
use commands::parser::PRIORITY_PARAMETER;
use commands::tokenizer::tokenize;
use commands::tokenizer::Token;

fn show_set_help() -> Grammar {
    let mut tree = CommandTree::new();
    tree.command(Command::new("show"));
    tree.command(Command::new("set"));
    tree.command(Command::new("help"));
    tree.finalize()
}

fn names(grammar: &Grammar, ids: &[usize]) -> Vec<String> {
    ids.iter()
        .map(|id| grammar.get(*id).unwrap().node().name.clone())
        .collect()
}

fn word(text: &str) -> Token<'_> {
    tokenize(text).unwrap()[0]
}

fn options(completion: &Completion) -> Vec<(String, bool)> {
    completion
        .options
        .iter()
        .map(|o| (o.option_string.clone(), o.complete))
        .collect()
}

/// A command `show` with a handler and one required simple parameter
/// `name`, and a command `quit` with a handler and no parameters.
fn grammar_with_handlers() -> Grammar {
    let nodes = vec![
        Node::Parameter(ParameterNode::new(
            "name",
            None,
            false,
            PRIORITY_PARAMETER,
            vec![],
            false,
            None,
            ParameterKind::Simple,
            true,
        )),
        Node::Command(CommandNode::new(
            "show",
            None,
            false,
            PRIORITY_DEFAULT,
            vec![0],
            Some(7),
            vec![0],
        )),
        Node::Command(CommandNode::new(
            "quit",
            None,
            false,
            PRIORITY_DEFAULT,
            vec![],
            Some(8),
            vec![],
        )),
        Node::Root(RootNode::new(vec![1, 2])),
    ];
    Grammar::new(nodes, 3).unwrap()
}

#[test]
#[should_panic]
fn verify_signals_no_command() {
    let root = CommandTree::new().finalize();
    let parser = Parser::new(&root);
    match parser.verify() {
        Err(VerifyError::NoCommandAccepted) => panic!(),
        _ => {}
    }
}

#[test]
#[should_panic]
fn parse_signals_no_matches() {
    let mut tree = CommandTree::new();
    tree.command(Command::new("show"));
    let grammar = tree.finalize();
    let mut parser = Parser::new(&grammar);
    if let Ok(tokens) = tokenize("h") {
        match parser.parse(tokens) {
            Err(ParseError::NoMatches(_, _)) => panic!(),
            _ => {}
        }
    }
}

#[test]
#[should_panic]
fn parse_signals_ambiguous_match() {
    let mut tree = CommandTree::new();
    tree.command(Command::new("show"));
    tree.command(Command::new("set"));
    let grammar = tree.finalize();
    let mut parser = Parser::new(&grammar);
    if let Ok(tokens) = tokenize("s") {
        match parser.parse(tokens) {
            Err(ParseError::AmbiguousMatch(_, _)) => panic!(),
            _ => {}
        }
    }
}

#[test]
fn a_new_parser_stands_at_the_root() {
    let grammar = show_set_help();
    let parser = Parser::new(&grammar);
    assert_eq!(parser.current_node(), grammar.root());
    assert!(parser.nodes().is_empty());
    assert!(parser.tokens().is_empty());
    assert!(parser.execute().is_empty());
    assert!(matches!(
        grammar.get(grammar.root()).unwrap(),
        Node::Root(_)
    ));
}

#[test]
fn exact_match_is_accepted() {
    let grammar = show_set_help();
    let mut parser = Parser::new(&grammar);
    assert!(parser.parse(tokenize("help").unwrap()).is_ok());
    assert_eq!(parser.nodes().len(), 1);
    assert_eq!(names(&grammar, parser.nodes()), vec!["help"]);
    assert!(matches!(
        grammar.get(parser.nodes()[0]).unwrap(),
        Node::Command(_)
    ));
    assert_eq!(parser.current_node(), parser.nodes()[0]);
    assert_eq!(parser.tokens().len(), 1);
    assert_eq!(parser.tokens()[0], word("help"));
}

#[test]
fn an_abbreviation_is_accepted() {
    let grammar = show_set_help();
    let mut parser = Parser::new(&grammar);
    assert!(parser.parse(tokenize("sh").unwrap()).is_ok());
    assert_eq!(names(&grammar, parser.nodes()), vec!["show"]);
    let mut parser = Parser::new(&grammar);
    assert!(parser.parse(tokenize("  se ").unwrap()).is_ok());
    assert_eq!(names(&grammar, parser.nodes()), vec!["set"]);
    assert_eq!(parser.tokens()[0].text, "se");
}

#[test]
fn ambiguity_is_reported_with_its_candidates() {
    let grammar = show_set_help();
    let mut parser = Parser::new(&grammar);
    match parser.parse(tokenize("s").unwrap()) {
        Err(ParseError::AmbiguousMatch(token, candidates)) => {
            assert_eq!(token, word("s"));
            assert_eq!(candidates.len(), 2);
            assert_eq!(names(&grammar, &candidates), vec!["show", "set"]);
        }
        _ => panic!(),
    }
    assert!(parser.nodes().is_empty());
    assert!(parser.tokens().is_empty());
    assert_eq!(parser.current_node(), grammar.root());
}

#[test]
fn no_match_is_reported_with_all_candidates() {
    let grammar = show_set_help();
    let mut parser = Parser::new(&grammar);
    match parser.parse(tokenize("x").unwrap()) {
        Err(ParseError::NoMatches(token, candidates)) => {
            assert_eq!(token, word("x"));
            assert_eq!(candidates.len(), 3);
            assert_eq!(names(&grammar, &candidates), vec!["show", "set", "help"]);
        }
        _ => panic!(),
    }
    assert!(parser.nodes().is_empty());
}

#[test]
fn no_match_names_hidden_candidates_too() {
    let mut tree = CommandTree::new();
    tree.command(Command::new("show"));
    tree.command(Command::new("secret").hidden(true));
    let grammar = tree.finalize();
    let mut parser = Parser::new(&grammar);
    match parser.advance(word("x")) {
        Err(ParseError::NoMatches(_, candidates)) => {
            assert_eq!(names(&grammar, &candidates), vec!["show", "secret"]);
        }
        _ => panic!(),
    }
}

#[test]
fn a_hidden_command_still_matches() {
    let mut tree = CommandTree::new();
    tree.command(Command::new("show"));
    tree.command(Command::new("debug").hidden(true));
    let grammar = tree.finalize();
    let mut parser = Parser::new(&grammar);
    assert!(parser.advance(word("deb")).is_ok());
    assert_eq!(names(&grammar, parser.nodes()), vec!["debug"]);
}

#[test]
fn an_error_leaves_what_was_accepted() {
    let mut tree = CommandTree::new();
    tree.command(
        Command::new("show")
            .parameter(Parameter::new("verbose").kind(ParameterKind::Flag))
            .parameter(Parameter::new("version").kind(ParameterKind::Flag)),
    );
    let grammar = tree.finalize();
    let mut parser = Parser::new(&grammar);
    match parser.parse(tokenize("show ver extra").unwrap()) {
        Err(ParseError::AmbiguousMatch(token, candidates)) => {
            assert_eq!(token.text, "ver");
            assert_eq!(names(&grammar, &candidates), vec!["verbose", "version"]);
        }
        _ => panic!(),
    }
    assert_eq!(names(&grammar, parser.nodes()), vec!["show"]);
    assert_eq!(parser.tokens().len(), 1);
    // The line can be taken up again from where it stopped.
    assert!(parser.advance(word("verb")).is_ok());
    assert_eq!(names(&grammar, parser.nodes()), vec!["show", "verbose"]);
}

#[test]
fn a_command_is_not_accepted_twice() {
    let nodes = vec![
        Node::Command(CommandNode::new(
            "again",
            None,
            false,
            PRIORITY_DEFAULT,
            vec![0],
            None,
            vec![],
        )),
        Node::Root(RootNode::new(vec![0])),
    ];
    let grammar = Grammar::new(nodes, 1).unwrap();
    let mut parser = Parser::new(&grammar);
    assert!(parser.advance(word("again")).is_ok());
    match parser.advance(word("again")) {
        Err(ParseError::NoMatches(_, candidates)) => assert!(candidates.is_empty()),
        _ => panic!(),
    }
}

#[test]
fn simple_parameters_take_any_text() {
    let mut tree = CommandTree::new();
    tree.command(Command::new("show").parameter(Parameter::new("interface")));
    let grammar = tree.finalize();
    let mut parser = Parser::new(&grammar);
    assert!(parser.parse(tokenize("show eth0").unwrap()).is_ok());
    assert_eq!(names(&grammar, parser.nodes()), vec!["show", "interface"]);
    assert!(parser.has_parameter("interface"));
    assert!(!parser.has_parameter("eth0"));
    assert!(!parser.has_parameter("inter"));
    assert_eq!(parser.tokens()[1].text, "eth0");
}

#[test]
fn named_parameters_take_their_name_then_a_value() {
    let mut tree = CommandTree::new();
    tree.command(
        Command::new("route").parameter(
            Parameter::new("src")
                .kind(ParameterKind::Named)
                .alias("source"),
        ),
    );
    let grammar = tree.finalize();
    let mut parser = Parser::new(&grammar);
    assert!(parser.parse(tokenize("route sou 10.0.0.1").unwrap()).is_ok());
    assert_eq!(names(&grammar, parser.nodes()), vec!["route", "source", "src"]);
    assert!(parser.has_parameter("src"));
    assert!(!parser.has_parameter("source"));

    let mut parser = Parser::new(&grammar);
    match parser.parse(tokenize("route s").unwrap()) {
        Err(ParseError::AmbiguousMatch(_, candidates)) => {
            assert_eq!(names(&grammar, &candidates), vec!["src", "source"]);
        }
        _ => panic!(),
    }
}

#[test]
fn flags_match_prefixes_of_their_name() {
    let mut tree = CommandTree::new();
    tree.command(
        Command::new("log").parameter(Parameter::new("verbose").kind(ParameterKind::Flag)),
    );
    let grammar = tree.finalize();
    let mut parser = Parser::new(&grammar);
    assert!(parser.parse(tokenize("log v").unwrap()).is_ok());
    assert!(parser.has_parameter("verbose"));
    let mut parser = Parser::new(&grammar);
    assert!(matches!(
        parser.parse(tokenize("log x").unwrap()),
        Err(ParseError::NoMatches(_, _))
    ));
}

#[test]
fn commands_of_the_builder_have_no_handler() {
    let grammar = show_set_help();
    let mut parser = Parser::new(&grammar);
    assert!(parser.parse(tokenize("show").unwrap()).is_ok());
    assert!(parser.execute().is_empty());
    assert!(matches!(
        parser.verify(),
        Err(VerifyError::NoCommandAccepted)
    ));
}

#[test]
fn verify_asks_for_required_parameters() {
    let grammar = grammar_with_handlers();
    let mut parser = Parser::new(&grammar);
    assert!(matches!(
        parser.verify(),
        Err(VerifyError::NoCommandAccepted)
    ));
    assert!(parser.parse(tokenize("show").unwrap()).is_ok());
    assert_eq!(parser.execute(), vec![1]);
    match parser.verify() {
        Err(VerifyError::MissingParameter(name)) => assert_eq!(name, "name"),
        _ => panic!(),
    }
    match parser.verify() {
        Err(VerifyError::MissingParameter(name)) => assert_eq!(name, "name"),
        _ => panic!(),
    }
    assert!(parser.parse(tokenize(" eth0").unwrap()).is_ok());
    assert!(parser.verify().is_ok());
    assert_eq!(parser.execute(), vec![1]);
}

#[test]
fn verify_passes_without_required_parameters() {
    let grammar = grammar_with_handlers();
    let mut parser = Parser::new(&grammar);
    assert!(parser.parse(tokenize("quit").unwrap()).is_ok());
    assert!(parser.verify().is_ok());
    assert_eq!(parser.execute(), vec![2]);
}

#[test]
fn verify_names_the_first_missing_parameter() {
    let parameter = |name, required| {
        Node::Parameter(ParameterNode::new(
            name,
            None,
            false,
            PRIORITY_DEFAULT,
            vec![],
            false,
            None,
            ParameterKind::Flag,
            required,
        ))
    };
    let nodes = vec![
        parameter("alpha", false),
        parameter("beta", true),
        parameter("gamma", true),
        Node::Command(CommandNode::new(
            "run",
            None,
            false,
            PRIORITY_DEFAULT,
            vec![0, 1, 2],
            Some(1),
            vec![0, 1, 2],
        )),
        Node::Root(RootNode::new(vec![3])),
    ];
    let grammar = Grammar::new(nodes, 4).unwrap();
    let mut parser = Parser::new(&grammar);
    assert!(parser.advance(word("run")).is_ok());
    match parser.verify() {
        Err(VerifyError::MissingParameter(name)) => assert_eq!(name, "beta"),
        _ => panic!(),
    }
}

#[test]
fn error_descriptions_of_the_parser() {
    assert_eq!(
        VerifyError::NoCommandAccepted.description(),
        "No command has been accepted by the parser."
    );
    assert_eq!(
        VerifyError::MissingParameter("x".to_string()).description(),
        "A required parameter is missing."
    );
    assert_eq!(
        ParseError::NoMatches(word("x"), vec![]).description(),
        "No match."
    );
    assert_eq!(
        ParseError::AmbiguousMatch(word("x"), vec![]).description(),
        "Ambiguous match."
    );
}

#[test]
fn completion_without_a_token_lists_every_command() {
    let grammar = show_set_help();
    let parser = Parser::new(&grammar);
    let comps = parser.complete(None);
    assert_eq!(comps.len(), 3);
    let symbols: Vec<&str> = comps.iter().map(|c| c.help_symbol.as_str()).collect();
    assert_eq!(symbols, vec!["show", "set", "help"]);
    for c in &comps {
        assert!(c.exhaustive);
        assert!(c.token.is_none());
        assert_eq!(c.help_text, "Command");
        assert_eq!(options(c), vec![(c.help_symbol.clone(), true)]);
    }
}

#[test]
fn completion_counts_the_commands_that_are_not_hidden() {
    for n in 0..6 {
        let names: Vec<String> = (0..n).map(|i| format!("command{}", i)).collect();
        let mut tree = CommandTree::new();
        for name in &names {
            tree.command(Command::new(name));
        }
        tree.command(Command::new("hidden").hidden(true));
        let grammar = tree.finalize();
        let parser = Parser::new(&grammar);
        assert_eq!(parser.complete(None).len(), n);
    }
}

#[test]
fn completion_with_a_token_lists_what_matches() {
    let grammar = show_set_help();
    let parser = Parser::new(&grammar);
    let comps = parser.complete(Some(word("h")));
    assert_eq!(comps.len(), 1);
    assert_eq!(comps[0].options.len(), 1);
    assert_eq!(comps[0].options[0].option_string, "help");
    assert!(comps[0].options[0].complete);
    assert_eq!(comps[0].token, Some(word("h")));

    let comps = parser.complete(Some(word("s")));
    assert_eq!(comps.len(), 2);
    assert_eq!(options(&comps[0]), vec![("show".to_string(), true)]);
    assert_eq!(options(&comps[1]), vec![("set".to_string(), true)]);

    assert_eq!(parser.complete(Some(word("x"))).len(), 0);
}

#[test]
fn completion_gives_the_same_result_each_time() {
    let grammar = show_set_help();
    let mut parser = Parser::new(&grammar);
    assert!(parser.advance(word("show")).is_ok());
    let describe = |comps: &Vec<Completion>| -> Vec<(String, String, bool, Vec<(String, bool)>)> {
        comps
            .iter()
            .map(|c| {
                (
                    c.help_symbol.clone(),
                    c.help_text.clone(),
                    c.exhaustive,
                    options(c),
                )
            })
            .collect()
    };
    for token in [None, Some(word("s")), Some(word("he"))] {
        let parser = Parser::new(&grammar);
        let first = describe(&parser.complete(token));
        let second = describe(&parser.complete(token));
        let third = describe(&parser.complete(token));
        assert_eq!(first, second);
        assert_eq!(second, third);
        assert!(parser.nodes().is_empty());
        assert_eq!(parser.current_node(), grammar.root());
    }
    let before = parser.nodes().clone();
    let _ = parser.complete(None);
    assert_eq!(*parser.nodes(), before);
}

#[test]
fn completion_leaves_out_what_was_accepted() {
    let mut tree = CommandTree::new();
    tree.command(
        Command::new("show")
            .parameter(Parameter::new("verbose").kind(ParameterKind::Flag))
            .parameter(Parameter::new("brief").kind(ParameterKind::Flag).hidden(true))
            .parameter(Parameter::new("interface").help("The interface to show."))
            .parameter(Parameter::new("src").kind(ParameterKind::Named)),
    );
    let grammar = tree.finalize();
    let mut parser = Parser::new(&grammar);
    assert!(parser.advance(word("show")).is_ok());
    let comps = parser.complete(None);
    let symbols: Vec<&str> = comps.iter().map(|c| c.help_symbol.as_str()).collect();
    assert_eq!(symbols, vec!["<verbose>", "<interface>", "src <src>"]);
    assert_eq!(comps[0].help_text, "Flag");
    assert_eq!(comps[1].help_text, "The interface to show.");
    assert_eq!(comps[2].help_text, "Parameter");
    assert_eq!(options(&comps[0]), vec![("verbose".to_string(), true)]);
    // A simple parameter has no fixed text: the one option is the empty
    // common prefix, and it is not complete.
    assert_eq!(options(&comps[1]), vec![("".to_string(), false)]);
    assert_eq!(options(&comps[2]), vec![("src".to_string(), true)]);

    // With a token, the flag must match it; the simple parameter takes any.
    let comps = parser.complete(Some(word("ver")));
    let symbols: Vec<&str> = comps.iter().map(|c| c.help_symbol.as_str()).collect();
    assert_eq!(symbols, vec!["<verbose>", "<interface>"]);
    assert_eq!(options(&comps[1]), vec![("".to_string(), false)]);
}

#[test]
fn nodes_answer_for_themselves() {
    let grammar = grammar_with_handlers();
    let mut parser = Parser::new(&grammar);
    let show = grammar.get(1).unwrap();
    let name = grammar.get(0).unwrap();
    let root = grammar.get(3).unwrap();
    assert!(show.acceptable(&parser, 1));
    assert!(show.matches(&parser, word("sh")));
    assert!(!show.matches(&parser, word("shown")));
    assert!(name.matches(&parser, word("anything")));
    assert!(!root.acceptable(&parser, 3));
    show.accept(&mut parser, word("sh"), 1);
    assert_eq!(parser.execute(), vec![1]);
    // Accepting records; the histories are the business of `advance`.
    assert!(parser.nodes().is_empty());
    name.accept(&mut parser, word("eth0"), 0);
    assert!(parser.has_parameter("name"));
    root.accept(&mut parser, word("x"), 3);
    assert_eq!(parser.execute(), vec![1]);
    let completion = show.complete(Some(word("s")));
    assert_eq!(completion.help_symbol, "show");
    assert_eq!(options(&completion), vec![("show".to_string(), true)]);
}

#[test]
fn a_repeat_marker_closes_a_node() {
    // 0: a repeatable flag that closes once the flag at 1 has been accepted.
    let flag = |name, repeatable, marker| {
        Node::Parameter(ParameterNode::new(
            name,
            None,
            false,
            PRIORITY_DEFAULT,
            vec![0, 1],
            repeatable,
            marker,
            ParameterKind::Flag,
            false,
        ))
    };
    let nodes = vec![
        flag("more", true, Some(1)),
        flag("end", false, None),
        Node::Root(RootNode::new(vec![0, 1])),
    ];
    let grammar = Grammar::new(nodes, 2).unwrap();
    let mut parser = Parser::new(&grammar);
    assert!(parser.advance(word("more")).is_ok());
    assert!(parser.advance(word("more")).is_ok());
    assert!(parser.advance(word("end")).is_ok());
    assert_eq!(names(&grammar, parser.nodes()), vec!["more", "more", "end"]);
    match parser.advance(word("more")) {
        Err(ParseError::NoMatches(_, candidates)) => assert!(candidates.is_empty()),
        _ => panic!(),
    }
    match parser.advance(word("end")) {
        Err(ParseError::NoMatches(_, candidates)) => assert!(candidates.is_empty()),
        _ => panic!(),
    }
}

#[test]
fn a_grammar_checks_its_indices() {
    let command = |successors, parameters| {
        Node::Command(CommandNode::new(
            "c",
            None,
            false,
            PRIORITY_DEFAULT,
            successors,
            None,
            parameters,
        ))
    };
    assert!(Grammar::new(vec![], 0).is_none());
    assert!(Grammar::new(vec![Node::Root(RootNode::new(vec![]))], 0).is_some());
    assert!(Grammar::new(vec![Node::Root(RootNode::new(vec![]))], 1).is_none());
    assert!(Grammar::new(vec![Node::Root(RootNode::new(vec![1]))], 0).is_none());
    assert!(Grammar::new(vec![Node::Root(RootNode::new(vec![0]))], 0).is_some());
    // The parameters of a command are parameter nodes.
    assert!(Grammar::new(
        vec![command(vec![], vec![1]), Node::Root(RootNode::new(vec![0]))],
        1
    )
    .is_none());
    assert!(Grammar::new(
        vec![command(vec![5], vec![]), Node::Root(RootNode::new(vec![0]))],
        1
    )
    .is_none());
    let grammar = Grammar::new(
        vec![command(vec![], vec![]), Node::Root(RootNode::new(vec![0]))],
        1,
    )
    .unwrap();
    assert_eq!(grammar.len(), 2);
    assert_eq!(grammar.root(), 1);
    assert!(grammar.get(2).is_none());
    assert_eq!(grammar.node(0).node().name, "c");
    assert_eq!(*grammar.node(1).successors(), vec![0]);
}

#[test]
fn a_name_node_must_name_a_node() {
    let parameter = Node::Parameter(ParameterNode::new(
        "src",
        None,
        false,
        PRIORITY_PARAMETER,
        vec![],
        false,
        None,
        ParameterKind::Named,
        false,
    ));
    let name = ParameterNameNode::new("src", false, PRIORITY_DEFAULT, vec![0], false, Some(0), 4, &parameter);
    assert!(Grammar::new(
        vec![parameter, Node::ParameterName(name), Node::Root(RootNode::new(vec![1]))],
        2
    )
    .is_none());
}

#[test]
fn priorities() {
    assert_eq!(PRIORITY_MINIMUM, -10000);
    assert_eq!(PRIORITY_PARAMETER, -10);
    assert_eq!(PRIORITY_DEFAULT, 0);
}
