//! # Command Parser
//!
//! The command parser deals with interpreting textual input (like a
//! command line) against a grammar of commands and their parameters.
//!
//! Commands can take parameters. There are three kinds of parameters:
//!
//! * Simple: Just a value that is present in the command line. For
//!   example: `show interface eth0` where `eth0` is a simple
//!   parameter `name` which will have the value `eth0`.
//! * Named: A name that precedes the value in the command line. For
//!   example: `show route src <ip> dst <ip>` where `src <ip>` and
//!   `dst <ip>` are both named parameters to a command `show route`.
//! * Flag: Present or absent. For example: `show log verbose` where
//!   `verbose` is a flag parameter.
//!
//! The command parser does not assume anything about the implementation
//! of the textual interface. It takes tokens and reports what it accepted,
//! what went wrong and how the input can go on as structured data.
//!
//! The command parser consists of two important things:
//!
//! * A [`Grammar`]: the nodes that represent the available commands and
//!   their parameters. A grammar is best made with a [`CommandTree`].
//! * A [`Parser`] that handles input and matches it against the grammar.
//!   A parser lives for one command line.

pub mod builder;
pub mod completion;
pub mod constants;
pub mod nodes;

pub use self::builder::Command;
pub use self::builder::CommandTree;
pub use self::builder::Parameter;
pub use self::completion::Completion;
pub use self::completion::CompletionOption;
pub use self::constants::ParameterKind;
pub use self::constants::PRIORITY_DEFAULT;
pub use self::constants::PRIORITY_MINIMUM;
pub use self::constants::PRIORITY_PARAMETER;
pub use self::nodes::CommandNode;
pub use self::nodes::Grammar;
pub use self::nodes::Node;
pub use self::nodes::NodeOps;
pub use self::nodes::ParameterNameNode;
pub use self::nodes::ParameterNode;
pub use self::nodes::RootNode;
pub use self::nodes::TreeNode;

use self::completion::completion_options;
use self::completion::hint_of;
use self::completion::CompletionView;
use self::nodes::well_formed;
use self::nodes::NodeView;
use crate::tokenizer::Token;
use crate::tokenizer::TokenType;
use crate::util::lemma_filter_push;
use crate::util::same_text;
use vstd::prelude::*;

verus! {

/// What a parser has accepted so far.
pub struct ParserView<'text> {
    /// The node that was accepted last, or the entry node.
    pub current: usize,
    /// The nodes accepted, in order.
    pub nodes: Seq<usize>,
    /// The tokens accepted, in order: token `i` was accepted by node `i`.
    pub tokens: Seq<Token<'text>>,
    /// The accepted command nodes that have a handler, in order.
    pub commands: Seq<usize>,
    /// The value of each parameter that was accepted, by its name.
    pub parameters: Map<Seq<char>, Seq<char>>,
}

impl NodeView {
    /// Whether a token with the text `text` matches the node. A command, a
    /// parameter name and a flag match the prefixes of their name; a named
    /// or simple parameter takes any text as its value; a root matches
    /// nothing.
    pub open spec fn matches_text(self, text: Seq<char>) -> bool {
        match self {
            NodeView::Root { .. } => false,
            NodeView::Parameter { node, kind, .. } => kind != ParameterKind::Flag
                || text.is_prefix_of(node.name),
            _ => text.is_prefix_of(self.tree_node().name),
        }
    }

    /// Whether the node, which stands at index `id`, can be accepted after
    /// the nodes of `history` have been.
    ///
    /// - A root never can.
    /// - A command can if it has not been accepted yet.
    /// - A parameter or a parameter name can if the node that its repeat
    ///   marker names, where it has one, has not been accepted, and if it is
    ///   repeatable or has not been accepted itself.
    pub open spec fn acceptable(self, id: usize, history: Seq<usize>) -> bool {
        match self {
            NodeView::Root { .. } => false,
            NodeView::Command { .. } => !history.contains(id),
            _ => {
                let node = self.tree_node();
                &&& node.repeat_marker matches Some(marker) ==> !history.contains(marker)
                &&& node.repeatable || !history.contains(id)
            },
        }
    }

    /// What accepting the node, which stands at index `id`, with `token`
    /// records: a command with a handler is added to the commands, and a
    /// parameter gets the token's text as its value.
    pub open spec fn accepted<'text>(
        self,
        parser: ParserView<'text>,
        token: Token,
        id: usize,
    ) -> ParserView<'text> {
        match self {
            NodeView::Command { handler: Some(_), .. } => ParserView {
                commands: parser.commands.push(id),
                ..parser
            },
            NodeView::Parameter { node, .. } => ParserView {
                parameters: parser.parameters.insert(node.name, token.text@),
                ..parser
            },
            _ => parser,
        }
    }

    /// The completion of the node, hinted by `token`. A command, a
    /// parameter name and a flag complete to their name; a named or simple
    /// parameter has no fixed text to complete to.
    pub open spec fn completion<'text>(self, token: Option<Token<'text>>) -> CompletionView<
        'text,
    > {
        let node = self.tree_node();
        let names = match self {
            NodeView::Parameter { kind, .. } if kind != ParameterKind::Flag => Seq::empty(),
            _ => seq![node.name],
        };
        CompletionView {
            help_symbol: node.help_symbol,
            help_text: node.help_text,
            token,
            exhaustive: true,
            options: completion_options(hint_of(token), true, names, Seq::empty()),
        }
    }
}

/// The test "is a node of `grammar` that can be accepted after `history`".
pub open spec fn is_acceptable(grammar: Seq<NodeView>, history: Seq<usize>) -> spec_fn(
    usize,
) -> bool {
    |id: usize| id < grammar.len() && grammar[id as int].acceptable(id, history)
}

/// The test "can be accepted after `history` and matches `text`".
pub open spec fn is_candidate(
    grammar: Seq<NodeView>,
    history: Seq<usize>,
    text: Seq<char>,
) -> spec_fn(usize) -> bool {
    |id: usize|
        id < grammar.len() && grammar[id as int].acceptable(id, history)
            && grammar[id as int].matches_text(text)
}

/// The test "is not hidden, can be accepted after `history` and, if there
/// is a hint, matches it".
pub open spec fn is_eligible(
    grammar: Seq<NodeView>,
    history: Seq<usize>,
    hint: Option<Seq<char>>,
) -> spec_fn(usize) -> bool {
    |id: usize|
        id < grammar.len() && !grammar[id as int].tree_node().hidden
            && grammar[id as int].acceptable(id, history) && (hint matches Some(text)
            ==> grammar[id as int].matches_text(text))
}

/// The successors of the current node.
pub open spec fn successors_of(grammar: Seq<NodeView>, parser: ParserView) -> Seq<usize> {
    grammar[parser.current as int].tree_node().successors
}

/// The successors of the current node that can be accepted and match
/// `text`, in the order of the successors.
pub open spec fn candidates(grammar: Seq<NodeView>, parser: ParserView, text: Seq<char>) -> Seq<
    usize,
> {
    successors_of(grammar, parser).filter(is_candidate(grammar, parser.nodes, text))
}

/// The parser after the node at index `id` has accepted `token`: what the
/// node records, the node as the current one, and node and token at the end
/// of the histories.
pub open spec fn advanced<'text>(
    grammar: Seq<NodeView>,
    parser: ParserView<'text>,
    token: Token<'text>,
    id: usize,
) -> ParserView<'text> {
    let recorded = grammar[id as int].accepted(parser, token, id);
    ParserView {
        current: id,
        nodes: recorded.nodes.push(id),
        tokens: recorded.tokens.push(token),
        ..recorded
    }
}

/// The map that a list of names and values stands for: each name has the
/// value that was given last.
pub open spec fn map_of(entries: Seq<(String, String)>) -> Map<Seq<char>, Seq<char>>
    decreases entries.len(),
{
    if entries.len() == 0 {
        Map::empty()
    } else {
        map_of(entries.drop_last()).insert(entries.last().0@, entries.last().1@)
    }
}

/// A name is in the map of a list of entries if one of the entries has it.
proof fn lemma_map_of_contains(entries: Seq<(String, String)>, name: Seq<char>)
    ensures
        map_of(entries).contains_key(name) <==> exists|i: int|
            0 <= i < entries.len() && (#[trigger] entries[i]).0@ == name,
    decreases entries.len(),
{
    if entries.len() > 0 {
        lemma_map_of_contains(entries.drop_last(), name);
        if map_of(entries).contains_key(name) {
            if entries.last().0@ == name {
                assert(entries[entries.len() - 1].0@ == name);
            } else {
                let i = choose|i: int|
                    0 <= i < entries.drop_last().len() && (#[trigger] entries.drop_last()[i]).0@
                        == name;
                assert(entries[i].0@ == name);
            }
        }
        if exists|i: int| 0 <= i < entries.len() && (#[trigger] entries[i]).0@ == name {
            let i = choose|i: int| 0 <= i < entries.len() && (#[trigger] entries[i]).0@ == name;
            if i < entries.len() - 1 {
                assert(entries.drop_last()[i].0@ == name);
            }
        }
    }
}

/// Whether `ids` holds `id`.
pub fn contains_id(ids: &Vec<usize>, id: usize) -> (r: bool)
    ensures
        r == ids@.contains(id),
{
    let mut i: usize = 0;
    while i < ids.len()
        invariant
            i <= ids@.len(),
            forall|j: int| 0 <= j < i ==> ids@[j] != id,
        decreases ids@.len() - i,
    {
        if ids[i] == id {
            return true;
        }
        i = i + 1;
    }
    false
}

/// Command parser
///
/// The lifetime parameter `'text` is that of the tokens passed into the
/// parser, and so that of the text they were made from. The lifetime
/// parameter `'grammar` is that of the grammar, which the parser reads and
/// never changes.
///
/// The parser is constructed as a mutable object as most of
/// the methods on it will modify its state.
pub struct Parser<'grammar, 'text> {
    grammar: &'grammar Grammar,
    current_node: usize,
    nodes: Vec<usize>,
    tokens: Vec<Token<'text>>,
    commands: Vec<usize>,
    parameters: Vec<(String, String)>,
}

impl<'grammar, 'text> View for Parser<'grammar, 'text> {
    type V = ParserView<'text>;

    closed spec fn view(&self) -> ParserView<'text> {
        ParserView {
            current: self.current_node,
            nodes: self.nodes@,
            tokens: self.tokens@,
            commands: self.commands@,
            parameters: map_of(self.parameters@),
        }
    }
}

impl<'grammar, 'text> Parser<'grammar, 'text> {
    /// The nodes of the grammar that the parser reads.
    pub closed spec fn grammar(&self) -> Seq<NodeView> {
        self.grammar@
    }

    /// The parser is in order: its grammar is one, the current node and
    /// every node of the history are nodes of the grammar, there are as
    /// many tokens as nodes in the history, and each accepted command is a
    /// command node of the grammar that has a handler.
    pub closed spec fn wf(&self) -> bool {
        &&& well_formed(self.grammar@, self.grammar.root_id())
        &&& self.current_node < self.grammar@.len()
        &&& self.nodes@.len() == self.tokens@.len()
        &&& forall|i: int| 0 <= i < self.nodes@.len() ==> #[trigger] self.nodes@[i] < self.grammar@.len()
        &&& forall|i: int|
            0 <= i < self.commands@.len() ==> {
                &&& #[trigger] self.commands@[i] < self.grammar@.len()
                &&& self.grammar@[self.commands@[i] as int] matches NodeView::Command {
                    handler: Some(_),
                    ..
                }
            }
    }

    /// Construct a parser that stands at the entry node of `grammar` and
    /// has accepted nothing.
    pub fn new(grammar: &'grammar Grammar) -> (parser: Parser<'grammar, 'text>)
        ensures
            parser.wf(),
            parser.grammar() == grammar@,
            parser@ == (ParserView {
                current: grammar.root_id(),
                nodes: Seq::empty(),
                tokens: Seq::empty(),
                commands: Seq::empty(),
                parameters: Map::empty(),
            }),
    {
        let current_node = grammar.root();
        Parser {
            grammar,
            current_node,
            nodes: Vec::new(),
            tokens: Vec::new(),
            commands: Vec::new(),
            parameters: Vec::new(),
        }
    }

    /// The grammar that the parser reads.
    pub fn tree(&self) -> (grammar: &'grammar Grammar)
        ensures
            grammar@ == self.grammar(),
    {
        self.grammar
    }

    /// The index of the node that was accepted last, or of the entry node.
    pub fn current_node(&self) -> (id: usize)
        requires
            self.wf(),
        ensures
            id == self@.current,
            id < self.grammar().len(),
    {
        self.current_node
    }

    /// The nodes which have been accepted during `parse` or `advance`.
    pub fn nodes(&self) -> (nodes: &Vec<usize>)
        ensures
            nodes@ == self@.nodes,
    {
        &self.nodes
    }

    /// The tokens which have been accepted during `parse` or `advance`.
    pub fn tokens(&self) -> (tokens: &Vec<Token<'text>>)
        ensures
            tokens@ == self@.tokens,
    {
        &self.tokens
    }

    /// Adds the command node at index `id` to the accepted commands.
    pub(crate) fn record_command(&mut self, id: usize)
        requires
            old(self).wf(),
            id < old(self).grammar().len(),
            old(self).grammar()[id as int] matches NodeView::Command { handler: Some(_), .. },
        ensures
            final(self).wf(),
            final(self).grammar() == old(self).grammar(),
            final(self)@ == (ParserView { commands: old(self)@.commands.push(id), ..old(self)@ }),
    {
        self.commands.push(id);
    }

    /// Gives the parameter `name` the value `value`.
    pub(crate) fn record_parameter(&mut self, name: String, value: String)
        requires
            old(self).wf(),
        ensures
            final(self).wf(),
            final(self).grammar() == old(self).grammar(),
            final(self)@ == (ParserView {
                parameters: old(self)@.parameters.insert(name@, value@),
                ..old(self)@
            }),
    {
        self.parameters.push((name, value));
        assert(self.parameters@.drop_last() =~= old(self).parameters@);
    }

    /// Whether the parameter `name` has been given a value.
    pub fn has_parameter(&self, name: &str) -> (r: bool)
        ensures
            r == self@.parameters.contains_key(name@),
    {
        let mut i: usize = 0;
        while i < self.parameters.len()
            invariant
                i <= self.parameters@.len(),
                forall|j: int| 0 <= j < i ==> (#[trigger] self.parameters@[j]).0@ != name@,
            decreases self.parameters@.len() - i,
        {
            if same_text(self.parameters[i].0.as_str(), name) {
                proof {
                    lemma_map_of_contains(self.parameters@, name@);
                    assert(self.parameters@[i as int].0@ == name@);
                }
                return true;
            }
            i = i + 1;
        }
        proof {
            lemma_map_of_contains(self.parameters@, name@);
        }
        false
    }
}

/// Errors that calling `parse` on the `Parser` can raise.
#[derive(Clone, Debug)]
pub enum ParseError<'text> {
    /// There were no matches for the token. The nodes are the successors
    /// of the current node that could have been accepted, hidden or not.
    NoMatches(Token<'text>, Vec<usize>),
    /// There was more than 1 possible match for the token. The nodes are
    /// those that matched.
    AmbiguousMatch(Token<'text>, Vec<usize>),
}

/// A `ParseError` with its nodes as a sequence.
pub enum ParseErrorView<'text> {
    /// There were no matches for the token.
    NoMatches(Token<'text>, Seq<usize>),
    /// There was more than 1 possible match for the token.
    AmbiguousMatch(Token<'text>, Seq<usize>),
}

impl<'text> View for ParseError<'text> {
    type V = ParseErrorView<'text>;

    open spec fn view(&self) -> ParseErrorView<'text> {
        match self {
            ParseError::NoMatches(token, nodes) => ParseErrorView::NoMatches(*token, nodes@),
            ParseError::AmbiguousMatch(token, nodes) => ParseErrorView::AmbiguousMatch(
                *token,
                nodes@,
            ),
        }
    }
}

impl<'text> ParseError<'text> {
    /// A sentence that describes the error.
    pub fn description(&self) -> (text: &'static str)
        ensures
            text@ == match self {
                ParseError::NoMatches(_, _) => "No match."@,
                ParseError::AmbiguousMatch(_, _) => "Ambiguous match."@,
            },
    {
        match self {
            ParseError::NoMatches(_, _) => "No match.",
            ParseError::AmbiguousMatch(_, _) => "Ambiguous match.",
        }
    }
}

/// Errors that calling `verify` on the `Parser` can raise.
#[derive(Clone, Debug)]
pub enum VerifyError {
    /// No command has been accepted by the parser.
    NoCommandAccepted,
    /// A required parameter is missing.
    MissingParameter(String),
}

/// A `VerifyError` with the name of the parameter by its characters.
pub enum VerifyErrorView {
    /// No command has been accepted by the parser.
    NoCommandAccepted,
    /// A required parameter is missing.
    MissingParameter(Seq<char>),
}

impl View for VerifyError {
    type V = VerifyErrorView;

    open spec fn view(&self) -> VerifyErrorView {
        match self {
            VerifyError::NoCommandAccepted => VerifyErrorView::NoCommandAccepted,
            VerifyError::MissingParameter(name) => VerifyErrorView::MissingParameter(name@),
        }
    }
}

impl VerifyError {
    /// A sentence that describes the error.
    pub fn description(&self) -> (text: &'static str)
        ensures
            text@ == match self {
                VerifyError::NoCommandAccepted => "No command has been accepted by the parser."@,
                VerifyError::MissingParameter(_) => "A required parameter is missing."@,
            },
    {
        match self {
            VerifyError::NoCommandAccepted => "No command has been accepted by the parser.",
            VerifyError::MissingParameter(_) => "A required parameter is missing.",
        }
    }
}

/// What `advance` does with `token`. If exactly one successor of the current
/// node can be accepted and matches the token, that node accepts it. If none
/// does, the error names the successors that could have been accepted. If
/// more than one does, the error names them.
pub open spec fn advance_spec<'text>(
    grammar: Seq<NodeView>,
    parser: ParserView<'text>,
    token: Token<'text>,
) -> Result<ParserView<'text>, ParseErrorView<'text>> {
    let found = candidates(grammar, parser, token.text@);
    if found.len() == 1 {
        Ok(advanced(grammar, parser, token, found[0]))
    } else if found.len() == 0 {
        Err(
            ParseErrorView::NoMatches(
                token,
                successors_of(grammar, parser).filter(is_acceptable(grammar, parser.nodes)),
            ),
        )
    } else {
        Err(ParseErrorView::AmbiguousMatch(token, found))
    }
}

/// What `parse` does with `tokens`: the parser at which it stops, and the
/// error that stopped it, if one did. Whitespace is passed over; each word
/// goes to `advance`; the first error ends the parse and leaves what was
/// accepted before it.
pub open spec fn parse_spec<'text>(
    grammar: Seq<NodeView>,
    parser: ParserView<'text>,
    tokens: Seq<Token<'text>>,
) -> (ParserView<'text>, Option<ParseErrorView<'text>>)
    decreases tokens.len(),
{
    if tokens.len() == 0 {
        (parser, None)
    } else if tokens[0].token_type == TokenType::Whitespace {
        parse_spec(grammar, parser, tokens.drop_first())
    } else {
        match advance_spec(grammar, parser, tokens[0]) {
            Ok(next) => parse_spec(grammar, next, tokens.drop_first()),
            Err(e) => (parser, Some(e)),
        }
    }
}

/// The name of the first node of `parameters` that is a required parameter
/// without a value in `given`.
pub open spec fn first_missing(
    grammar: Seq<NodeView>,
    parameters: Seq<usize>,
    given: Map<Seq<char>, Seq<char>>,
) -> Option<Seq<char>>
    decreases parameters.len(),
{
    if parameters.len() == 0 {
        None
    } else {
        match grammar[parameters[0] as int] {
            NodeView::Parameter { node, required: true, .. } if !given.contains_key(node.name) => {
                Some(node.name)
            },
            _ => first_missing(grammar, parameters.drop_first(), given),
        }
    }
}

/// What `verify` finds: no command with a handler has been accepted; or a
/// required parameter of the first such command has no value; or all is
/// well.
pub open spec fn verify_spec(grammar: Seq<NodeView>, parser: ParserView) -> Result<
    (),
    VerifyErrorView,
> {
    if parser.commands.len() == 0 {
        Err(VerifyErrorView::NoCommandAccepted)
    } else {
        match grammar[parser.commands[0] as int] {
            NodeView::Command { parameters, .. } => match first_missing(
                grammar,
                parameters,
                parser.parameters,
            ) {
                Some(name) => Err(VerifyErrorView::MissingParameter(name)),
                None => Ok(()),
            },
            _ => Err(VerifyErrorView::NoCommandAccepted),
        }
    }
}

/// The completions of a list, each by its characters.
pub open spec fn completion_views<'text>(completions: Seq<Completion<'text>>) -> Seq<
    CompletionView<'text>,
> {
    completions.map_values(|c: Completion<'text>| c@)
}

/// The nodes that `complete` completes: the successors of the current node
/// that are not hidden, can be accepted and, if there is a token, match it.
pub open spec fn eligible(grammar: Seq<NodeView>, parser: ParserView, token: Option<Token>) -> Seq<
    usize,
> {
    successors_of(grammar, parser).filter(is_eligible(grammar, parser.nodes, hint_of(token)))
}

/// What `complete` returns: the completion of each eligible node.
pub open spec fn complete_spec<'text>(
    grammar: Seq<NodeView>,
    parser: ParserView<'text>,
    token: Option<Token<'text>>,
) -> Seq<CompletionView<'text>> {
    eligible(grammar, parser, token).map_values(|id: usize| grammar[id as int].completion(token))
}

impl<'grammar, 'text> Parser<'grammar, 'text> {
    /// Given an optional token, get the possible valid completions
    /// for the current parser state.
    ///
    /// Possible completions are successors of the current node which
    /// are not `hidden`, are `acceptable`, and which match the token,
    /// if one has been provided.
    ///
    /// Each valid successor node will have one `Completion` in the
    /// result vector, in the order of the successors. The parser does not
    /// change, and the same state and token give the same completions.
    pub fn complete(&self, token: Option<Token<'text>>) -> (completions: Vec<Completion<'text>>)
        requires
            self.wf(),
        ensures
            completion_views(completions@) == complete_spec(self.grammar(), self@, token),
            completions@.len() == eligible(self.grammar(), self@, token).len(),
    {
        let grammar = self.grammar;
        let successors = grammar.node(self.current_node).successors();
        let ghost test = is_eligible(grammar@, self@.nodes, hint_of(token));
        let ghost found: Seq<usize> = Seq::empty();
        let mut completions: Vec<Completion<'text>> = Vec::new();
        let mut i: usize = 0;
        proof {
            lemma_filter_push(Seq::<usize>::empty(), 0usize, test);
            assert(successors@.take(0) =~= Seq::<usize>::empty());
            assert(completion_views(completions@) =~= found.map_values(
                |id: usize| grammar@[id as int].completion(token),
            ));
        }
        while i < successors.len()
            invariant
                self.wf(),
                grammar == self.grammar,
                successors@ == successors_of(grammar@, self@),
                forall|k: int| 0 <= k < successors@.len() ==> #[trigger] successors@[k] < grammar@.len(),
                test == is_eligible(grammar@, self@.nodes, hint_of(token)),
                i <= successors@.len(),
                found == successors@.take(i as int).filter(test),
                completion_views(completions@) == found.map_values(
                    |id: usize| grammar@[id as int].completion(token),
                ),
            decreases successors@.len() - i,
        {
            let id = successors[i];
            let node = grammar.node(id);
            let keep = !node.node().hidden && node.acceptable(self, id) && match token {
                Some(t) => node.matches(self, t),
                None => true,
            };
            proof {
                assert(successors@.take(i + 1) =~= successors@.take(i as int).push(id));
                lemma_filter_push(successors@.take(i as int), id, test);
                assert(keep == test(id));
            }
            if keep {
                let ghost before = completion_views(completions@);
                let completion = node.complete(token);
                completions.push(completion);
                proof {
                    assert(completion_views(completions@) =~= before.push(completion@));
                    assert(completion_views(completions@) =~= found.push(id).map_values(
                        |id: usize| grammar@[id as int].completion(token),
                    ));
                    found = found.push(id);
                }
            }
            i = i + 1;
        }
        proof {
            assert(successors@.take(successors@.len() as int) =~= successors@);
        }
        completions
    }

    /// Parse a vector of tokens, advancing through the
    /// node hierarchy. Whitespace is passed over. The first token that
    /// cannot be accepted ends the parse with its error; what was accepted
    /// before it stays accepted.
    pub fn parse(&mut self, tokens: Vec<Token<'text>>) -> (r: Result<(), ParseError<'text>>)
        requires
            old(self).wf(),
        ensures
            final(self).wf(),
            final(self).grammar() == old(self).grammar(),
            final(self)@ == parse_spec(old(self).grammar(), old(self)@, tokens@).0,
            match r {
                Ok(_) => parse_spec(old(self).grammar(), old(self)@, tokens@).1 is None,
                Err(e) => parse_spec(old(self).grammar(), old(self)@, tokens@).1 == Some(e@),
            },
    {
        let mut i: usize = 0;
        proof {
            assert(tokens@.skip(0) =~= tokens@);
        }
        while i < tokens.len()
            invariant
                self.wf(),
                self.grammar() == old(self).grammar(),
                i <= tokens@.len(),
                parse_spec(old(self).grammar(), old(self)@, tokens@) == parse_spec(
                    self.grammar(),
                    self@,
                    tokens@.skip(i as int),
                ),
            decreases tokens@.len() - i,
        {
            let token = tokens[i];
            proof {
                assert(tokens@.skip(i as int)[0] == token);
                assert(tokens@.skip(i as int).drop_first() =~= tokens@.skip(i + 1));
            }
            match token.token_type {
                TokenType::Whitespace => {},
                TokenType::Word => {
                    match self.advance(token) {
                        Ok(_) => {},
                        Err(e) => {
                            return Err(e);
                        },
                    }
                },
            }
            i = i + 1;
        }
        Ok(())
    }

    /// Parse a single token, advancing through the node hierarchy.
    ///
    /// The successors of the current node that can be accepted and match
    /// the token are looked for. Exactly one: it accepts the token and is
    /// the current node from now on. None or several: the parser stays as
    /// it is, and the error says which nodes were in question.
    pub fn advance(&mut self, token: Token<'text>) -> (r: Result<(), ParseError<'text>>)
        requires
            old(self).wf(),
        ensures
            final(self).wf(),
            final(self).grammar() == old(self).grammar(),
            match r {
                Ok(_) => advance_spec(old(self).grammar(), old(self)@, token) == Ok::<
                    ParserView<'text>,
                    ParseErrorView<'text>,
                >(final(self)@),
                Err(e) => final(self)@ == old(self)@ && advance_spec(
                    old(self).grammar(),
                    old(self)@,
                    token,
                ) == Err::<ParserView<'text>, ParseErrorView<'text>>(e@),
            },
    {
        let grammar = self.grammar;
        let successors = grammar.node(self.current_node).successors();
        let ghost test = is_candidate(grammar@, self@.nodes, token.text@);
        let mut matches: Vec<usize> = Vec::new();
        let mut i: usize = 0;
        proof {
            lemma_filter_push(Seq::<usize>::empty(), 0usize, test);
            assert(successors@.take(0) =~= Seq::<usize>::empty());
        }
        while i < successors.len()
            invariant
                self.wf(),
                grammar == self.grammar,
                forall|k: int| 0 <= k < successors@.len() ==> #[trigger] successors@[k] < grammar@.len(),
                test == is_candidate(grammar@, self@.nodes, token.text@),
                i <= successors@.len(),
                matches@ == successors@.take(i as int).filter(test),
                forall|k: int| 0 <= k < matches@.len() ==> #[trigger] matches@[k] < grammar@.len(),
            decreases successors@.len() - i,
        {
            let id = successors[i];
            let node = grammar.node(id);
            proof {
                assert(successors@.take(i + 1) =~= successors@.take(i as int).push(id));
                lemma_filter_push(successors@.take(i as int), id, test);
            }
            if node.acceptable(self, id) && node.matches(self, token) {
                matches.push(id);
            }
            i = i + 1;
        }
        proof {
            assert(successors@.take(successors@.len() as int) =~= successors@);
        }
        if matches.len() == 1 {
            let id = matches[0];
            let matching_node = grammar.node(id);
            matching_node.accept(self, token, id);
            self.current_node = id;
            self.nodes.push(id);
            self.tokens.push(token);
            Ok(())
        } else if matches.len() == 0 {
            let ghost open = is_acceptable(grammar@, self@.nodes);
            let mut acceptable: Vec<usize> = Vec::new();
            let mut j: usize = 0;
            proof {
                lemma_filter_push(Seq::<usize>::empty(), 0usize, open);
                assert(successors@.take(0) =~= Seq::<usize>::empty());
            }
            while j < successors.len()
                invariant
                    self.wf(),
                    grammar == self.grammar,
                    forall|k: int|
                        0 <= k < successors@.len() ==> #[trigger] successors@[k] < grammar@.len(),
                    open == is_acceptable(grammar@, self@.nodes),
                    j <= successors@.len(),
                    acceptable@ == successors@.take(j as int).filter(open),
                decreases successors@.len() - j,
            {
                let id = successors[j];
                proof {
                    assert(successors@.take(j + 1) =~= successors@.take(j as int).push(id));
                    lemma_filter_push(successors@.take(j as int), id, open);
                }
                if grammar.node(id).acceptable(self, id) {
                    acceptable.push(id);
                }
                j = j + 1;
            }
            proof {
                assert(successors@.take(successors@.len() as int) =~= successors@);
            }
            Err(ParseError::NoMatches(token, acceptable))
        } else {
            Err(ParseError::AmbiguousMatch(token, matches))
        }
    }

    /// The command nodes that have been accepted and have a handler, in the
    /// order in which they were accepted. To run their handlers is left to
    /// the caller.
    pub fn execute(&self) -> (commands: Vec<usize>)
        ensures
            commands@ == self@.commands,
    {
        self.commands.clone()
    }

    /// Verify that the parser is in a valid state with
    /// respect to having accepted a command and all
    /// required parameters.
    ///
    /// The error is `NoCommandAccepted` if no command with a handler has
    /// been accepted. Else the parameters of the first such command are
    /// gone through in order, and the first that is required and has no
    /// value gives `MissingParameter` with its name.
    pub fn verify(&self) -> (r: Result<(), VerifyError>)
        requires
            self.wf(),
        ensures
            match r {
                Ok(_) => verify_spec(self.grammar(), self@) == Ok::<(), VerifyErrorView>(()),
                Err(e) => verify_spec(self.grammar(), self@) == Err::<(), VerifyErrorView>(e@),
            },
    {
        if self.commands.len() == 0 {
            return Err(VerifyError::NoCommandAccepted);
        }
        let grammar = self.grammar;
        match grammar.node(self.commands[0]) {
            Node::Command(command) => {
                let parameters = &command.parameters;
                let mut i: usize = 0;
                proof {
                    assert(parameters@.skip(0) =~= parameters@);
                }
                while i < parameters.len()
                    invariant
                        grammar == self.grammar,
                        self@.commands.len() > 0,
                        grammar@[self@.commands[0] as int] == command@,
                        parameters@ == command.parameters@,
                        forall|k: int|
                            0 <= k < parameters@.len() ==> #[trigger] parameters@[k]
                                < grammar@.len(),
                        i <= parameters@.len(),
                        first_missing(grammar@, parameters@, self@.parameters) == first_missing(
                            grammar@,
                            parameters@.skip(i as int),
                            self@.parameters,
                        ),
                    decreases parameters@.len() - i,
                {
                    proof {
                        assert(parameters@.skip(i as int)[0] == parameters@[i as int]);
                        assert(parameters@.skip(i as int).drop_first() =~= parameters@.skip(
                            i + 1,
                        ));
                    }
                    match grammar.node(parameters[i]) {
                        Node::Parameter(param) => {
                            if param.required && !self.has_parameter(param.node.name.as_str()) {
                                return Err(VerifyError::MissingParameter(param.node.name.clone()));
                            }
                        },
                        _ => {},
                    }
                    i = i + 1;
                }
                Ok(())
            },
            _ => Err(VerifyError::NoCommandAccepted),
        }
    }
}

/// A filter keeps a whole sequence if every member passes the test.
proof fn lemma_filter_all(ids: Seq<usize>, test: spec_fn(usize) -> bool)
    requires
        forall|k: int| 0 <= k < ids.len() ==> test(#[trigger] ids[k]),
    ensures
        ids.filter(test) == ids,
    decreases ids.len(),
{
    if ids.len() == 0 {
        lemma_filter_push(Seq::<usize>::empty(), 0usize, test);
        assert(ids =~= Seq::<usize>::empty());
    } else {
        let before = ids.drop_last();
        assert forall|k: int| 0 <= k < before.len() implies test(#[trigger] before[k]) by {
            assert(before[k] == ids[k]);
        }
        lemma_filter_all(before, test);
        lemma_filter_push(before, ids.last(), test);
        assert(ids =~= before.push(ids.last()));
    }
}

/// Without a hinting token, completion gives one entry for each successor
/// of the current node if none of them is hidden and all of them can be
/// accepted: as many entries as there are successors, in their order.
pub proof fn lemma_complete_counts_successors(grammar: Seq<NodeView>, parser: ParserView)
    requires
        forall|k: int|
            0 <= k < successors_of(grammar, parser).len() ==> {
                let id = #[trigger] successors_of(grammar, parser)[k];
                &&& id < grammar.len()
                &&& !grammar[id as int].tree_node().hidden
                &&& grammar[id as int].acceptable(id, parser.nodes)
            },
    ensures
        eligible(grammar, parser, None) == successors_of(grammar, parser),
        complete_spec(grammar, parser, None).len() == successors_of(grammar, parser).len(),
{
    lemma_filter_all(successors_of(grammar, parser), is_eligible(grammar, parser.nodes, None));
}

/// What `complete` returns depends on the grammar, on what the parser has
/// accepted and on the token, and on nothing else: parsers that have
/// accepted the same over the same grammar complete a token alike, however
/// often they are asked.
pub proof fn lemma_complete_is_a_function_of_state<'text>(
    first: &Parser<'_, 'text>,
    second: &Parser<'_, 'text>,
    token: Option<Token<'text>>,
)
    requires
        first.grammar() == second.grammar(),
        first@ == second@,
    ensures
        complete_spec(first.grammar(), first@, token) == complete_spec(
            second.grammar(),
            second@,
            token,
        ),
{
}

impl<'grammar, 'text> Parser<'grammar, 'text> {
    /// What holds of a parser that is in order: the current node and the
    /// nodes of the history are nodes of the grammar, the histories of
    /// nodes and tokens are of one length, and every accepted command is a
    /// command node with a handler.
    pub proof fn lemma_in_order(&self)
        requires
            self.wf(),
        ensures
            self@.current < self.grammar().len(),
            self@.nodes.len() == self@.tokens.len(),
            forall|i: int|
                0 <= i < self@.nodes.len() ==> #[trigger] self@.nodes[i] < self.grammar().len(),
            forall|i: int|
                0 <= i < self@.commands.len() ==> {
                    &&& #[trigger] self@.commands[i] < self.grammar().len()
                    &&& self.grammar()[self@.commands[i] as int] matches NodeView::Command {
                        handler: Some(_),
                        ..
                    }
                },
    {
    }
}

} // verus!
