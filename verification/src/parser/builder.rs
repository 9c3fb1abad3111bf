//! Describing commands and their parameters, and making a grammar of them.

use super::constants::ParameterKind;
use super::constants::PRIORITY_DEFAULT;
use super::constants::PRIORITY_PARAMETER;
use super::nodes::admissible;
use super::nodes::default_parameter_help;
use super::nodes::name_help_symbol;
use super::nodes::node_views;
use super::nodes::parameter_help_symbol;
use super::nodes::CommandNode;
use super::nodes::Grammar;
use super::nodes::Node;
use super::nodes::NodeView;
use super::nodes::ParameterNameNode;
use super::nodes::ParameterNode;
use super::nodes::RootNode;
use super::nodes::TreeNodeView;
use crate::util::views;
use vstd::prelude::*;

verus! {

/// Description of a parameter to be added to the [`Command`].
///
/// The lifetime parameter `'a` refers to the lifetime
/// of the strings used for parameter names, aliases and
/// help text.
pub struct Parameter<'a> {
    hidden: bool,
    priority: Option<i32>,
    name: &'a str,
    repeatable: bool,
    aliases: Vec<&'a str>,
    help_text: Option<&'a str>,
    kind: ParameterKind,
    required: bool,
}

/// What a `Parameter` describes.
pub struct ParameterView {
    /// Hidden parameters match but are not listed during completion.
    pub hidden: bool,
    /// The priority, if one was given.
    pub priority: Option<i32>,
    /// The name of the parameter.
    pub name: Seq<char>,
    /// Whether the parameter can be given more than once.
    pub repeatable: bool,
    /// Other names under which a named parameter can be given.
    pub aliases: Seq<Seq<char>>,
    /// The help text, if one was given.
    pub help_text: Option<Seq<char>>,
    /// The kind of the parameter.
    pub kind: ParameterKind,
    /// Whether the parameter must be given.
    pub required: bool,
}

/// The characters of a text that may be absent.
pub open spec fn text_view(text: Option<&str>) -> Option<Seq<char>> {
    match text {
        Some(t) => Some(t@),
        None => None,
    }
}

impl<'a> View for Parameter<'a> {
    type V = ParameterView;

    closed spec fn view(&self) -> ParameterView {
        ParameterView {
            hidden: self.hidden,
            priority: self.priority,
            name: self.name@,
            repeatable: self.repeatable,
            aliases: views(self.aliases@),
            help_text: text_view(self.help_text),
            kind: self.kind,
            required: self.required,
        }
    }
}

impl<'a> Parameter<'a> {
    /// Construct a default (blank) parameter with the given `name`: a
    /// simple parameter, neither hidden nor repeatable nor required, with
    /// no aliases, no help text and no priority of its own.
    pub fn new(name: &'a str) -> (parameter: Parameter<'a>)
        ensures
            parameter@ == (ParameterView {
                hidden: false,
                priority: None,
                name: name@,
                repeatable: false,
                aliases: Seq::empty(),
                help_text: None,
                kind: ParameterKind::Simple,
                required: false,
            }),
    {
        let parameter = Parameter {
            hidden: false,
            priority: None,
            name,
            repeatable: false,
            aliases: Vec::new(),
            help_text: None,
            kind: ParameterKind::Simple,
            required: false,
        };
        assert(views(parameter.aliases@) =~= Seq::<Seq<char>>::empty());
        parameter
    }

    /// Mark the parameter as hidden. Hidden parameters will match
    /// within the parser, but are not listed during completion.
    pub fn hidden(self, hidden: bool) -> (parameter: Parameter<'a>)
        ensures
            parameter@ == (ParameterView { hidden, ..self@ }),
    {
        let mut parameter = self;
        parameter.hidden = hidden;
        parameter
    }

    /// Give the parameter a priority. This is used when sorting
    /// out conflicts during matching and completion.
    ///
    /// The `priority` of a `Parameter` defaults to `PRIORITY_PARAMETER`
    /// except for when the `kind` is `ParameterKind::Flag` in which
    /// case, the default will be `PRIORITY_DEFAULT`.
    pub fn priority(self, priority: i32) -> (parameter: Parameter<'a>)
        ensures
            parameter@ == (ParameterView { priority: Some(priority), ..self@ }),
    {
        let mut parameter = self;
        parameter.priority = Some(priority);
        parameter
    }

    /// Establish whether or not this parameter is repeatable.
    /// Repeated parameters can be given multiple times within a single
    /// command invocation.
    pub fn repeatable(self, repeatable: bool) -> (parameter: Parameter<'a>)
        ensures
            parameter@ == (ParameterView { repeatable, ..self@ }),
    {
        let mut parameter = self;
        parameter.repeatable = repeatable;
        parameter
    }

    /// Add an alias that this parameter can use.
    ///
    /// Aliases are currently only valid for parameters of `kind`
    /// `ParameterKind::Named`.
    pub fn alias(self, alias: &'a str) -> (parameter: Parameter<'a>)
        ensures
            parameter@ == (ParameterView { aliases: self@.aliases.push(alias@), ..self@ }),
    {
        let mut parameter = self;
        parameter.aliases.push(alias);
        assert(views(parameter.aliases@) =~= views(self.aliases@).push(alias@));
        parameter
    }

    /// Supply the help text for the parameter.
    pub fn help(self, help_text: &'a str) -> (parameter: Parameter<'a>)
        ensures
            parameter@ == (ParameterView { help_text: Some(help_text@), ..self@ }),
    {
        let mut parameter = self;
        parameter.help_text = Some(help_text);
        parameter
    }

    /// Establish whether or not this parameter is required.
    pub fn required(self, required: bool) -> (parameter: Parameter<'a>)
        ensures
            parameter@ == (ParameterView { required, ..self@ }),
    {
        let mut parameter = self;
        parameter.required = required;
        parameter
    }

    /// Set which kind of parameter node is to be created
    /// to represent this parameter.
    pub fn kind(self, kind: ParameterKind) -> (parameter: Parameter<'a>)
        ensures
            parameter@ == (ParameterView { kind, ..self@ }),
    {
        let mut parameter = self;
        parameter.kind = kind;
        parameter
    }
}

/// Description of a command to be added to the [`CommandTree`].
///
/// The lifetime parameter `'a` refers to the lifetime
/// of the strings used for command names and help text.
pub struct Command<'a> {
    hidden: bool,
    priority: i32,
    name: &'a str,
    help_text: Option<&'a str>,
    parameters: Vec<Parameter<'a>>,
    wrapped_root: Option<String>,
}

/// What a `Command` describes.
pub struct CommandView {
    /// Hidden commands match but are not listed during completion.
    pub hidden: bool,
    /// The priority of the command.
    pub priority: i32,
    /// The name of the command.
    pub name: Seq<char>,
    /// The help text, if one was given.
    pub help_text: Option<Seq<char>>,
    /// The parameters, in the order in which they were added.
    pub parameters: Seq<ParameterView>,
    /// The path to the command that this command wraps.
    pub wrapped_root: Option<Seq<char>>,
}

/// What each parameter of a list describes.
pub open spec fn parameter_views(parameters: Seq<Parameter>) -> Seq<ParameterView> {
    parameters.map_values(|p: Parameter| p@)
}

impl<'a> View for Command<'a> {
    type V = CommandView;

    closed spec fn view(&self) -> CommandView {
        CommandView {
            hidden: self.hidden,
            priority: self.priority,
            name: self.name@,
            help_text: text_view(self.help_text),
            parameters: parameter_views(self.parameters@),
            wrapped_root: match self.wrapped_root {
                Some(path) => Some(path@),
                None => None,
            },
        }
    }
}

impl<'a> Command<'a> {
    /// Construct a default (blank) command with the given `name`: not
    /// hidden, of the default priority, with no help text and no
    /// parameters.
    pub fn new(name: &'a str) -> (command: Command<'a>)
        ensures
            command@ == (CommandView {
                hidden: false,
                priority: PRIORITY_DEFAULT,
                name: name@,
                help_text: None,
                parameters: Seq::empty(),
                wrapped_root: None,
            }),
    {
        let command = Command {
            hidden: false,
            priority: PRIORITY_DEFAULT,
            name,
            help_text: None,
            parameters: Vec::new(),
            wrapped_root: None,
        };
        assert(parameter_views(command.parameters@) =~= Seq::<ParameterView>::empty());
        command
    }

    /// Mark the command as hidden. Hidden commands will match
    /// within the parser, but are not listed during completion.
    pub fn hidden(self, hidden: bool) -> (command: Command<'a>)
        ensures
            command@ == (CommandView { hidden, ..self@ }),
    {
        let mut command = self;
        command.hidden = hidden;
        command
    }

    /// Give the command a priority. This is used when sorting
    /// out conflicts during matching and completion.
    pub fn priority(self, priority: i32) -> (command: Command<'a>)
        ensures
            command@ == (CommandView { priority, ..self@ }),
    {
        let mut command = self;
        command.priority = priority;
        command
    }

    /// Supply help text for the command.
    pub fn help(self, help_text: &'a str) -> (command: Command<'a>)
        ensures
            command@ == (CommandView { help_text: Some(help_text@), ..self@ }),
    {
        let mut command = self;
        command.help_text = Some(help_text);
        command
    }

    /// Add a [`Parameter`] to the command.
    pub fn parameter(self, parameter: Parameter<'a>) -> (command: Command<'a>)
        ensures
            command@ == (CommandView { parameters: self@.parameters.push(parameter@), ..self@ }),
    {
        let mut command = self;
        command.parameters.push(parameter);
        assert(parameter_views(command.parameters@) =~= parameter_views(self.parameters@).push(
            parameter@,
        ));
        command
    }

    /// The `wrapped_root` signifies the path to the command that should
    /// be wrapped by this command. This is used for the `help` command.
    pub fn wraps(self, wrapped_root: String) -> (command: Command<'a>)
        ensures
            command@ == (CommandView { wrapped_root: Some(wrapped_root@), ..self@ }),
    {
        let mut command = self;
        command.wrapped_root = Some(wrapped_root);
        command
    }
}

/// The priority of the node of a parameter: the one given, else the default
/// priority for a flag and the parameter priority for the other kinds.
pub open spec fn parameter_priority(p: ParameterView) -> i32 {
    match p.priority {
        Some(priority) => priority,
        None => if p.kind == ParameterKind::Flag {
            PRIORITY_DEFAULT
        } else {
            PRIORITY_PARAMETER
        },
    }
}

/// The node of a parameter. It has no successors.
pub open spec fn parameter_node(p: ParameterView) -> NodeView {
    NodeView::Parameter {
        node: TreeNodeView {
            name: p.name,
            help_symbol: parameter_help_symbol(p.name, p.repeatable),
            help_text: match p.help_text {
                Some(text) => text,
                None => default_parameter_help(p.kind),
            },
            hidden: p.hidden,
            priority: parameter_priority(p),
            repeatable: p.repeatable,
            repeat_marker: None,
            successors: Seq::empty(),
        },
        required: p.required,
        kind: p.kind,
    }
}

/// The node of the name `name` of the named parameter `p`, whose node
/// stands at index `parameter`. The parameter is its one successor and its
/// repeat marker.
pub open spec fn name_node(p: ParameterView, name: Seq<char>, parameter: usize) -> NodeView {
    let of = parameter_node(p).tree_node();
    NodeView::ParameterName {
        node: TreeNodeView {
            name,
            help_symbol: name_help_symbol(name, of.help_symbol),
            help_text: of.help_text,
            hidden: p.hidden,
            priority: PRIORITY_DEFAULT,
            repeatable: p.repeatable,
            repeat_marker: Some(parameter),
            successors: seq![parameter],
        },
        parameter,
    }
}

/// The names under which a named parameter can be given: its name, then
/// its aliases.
pub open spec fn names_of(p: ParameterView) -> Seq<Seq<char>> {
    seq![p.name] + p.aliases
}

/// The nodes of a parameter, the first of which stands at index `base`: the
/// parameter's node and, for a named parameter, one node for each of its
/// names.
pub open spec fn parameter_nodes(p: ParameterView, base: usize) -> Seq<NodeView> {
    if p.kind == ParameterKind::Named {
        seq![parameter_node(p)] + names_of(p).map_values(|n: Seq<char>| name_node(p, n, base))
    } else {
        seq![parameter_node(p)]
    }
}

/// The successors that a parameter gives its command: the nodes of its
/// names for a named parameter, its own node for the other kinds.
pub open spec fn parameter_successors(p: ParameterView, base: usize) -> Seq<usize> {
    if p.kind == ParameterKind::Named {
        Seq::new(names_of(p).len(), |k: int| (base + 1 + k) as usize)
    } else {
        seq![base]
    }
}

/// The nodes of a list of parameters, the first of which stands at index
/// `base`.
pub open spec fn parameters_nodes(ps: Seq<ParameterView>, base: usize) -> Seq<NodeView>
    decreases ps.len(),
{
    if ps.len() == 0 {
        Seq::empty()
    } else {
        let before = parameters_nodes(ps.drop_last(), base);
        before + parameter_nodes(ps.last(), (base + before.len()) as usize)
    }
}

/// The indices of the parameter nodes of a list of parameters.
pub open spec fn parameters_ids(ps: Seq<ParameterView>, base: usize) -> Seq<usize>
    decreases ps.len(),
{
    if ps.len() == 0 {
        Seq::empty()
    } else {
        parameters_ids(ps.drop_last(), base).push(
            (base + parameters_nodes(ps.drop_last(), base).len()) as usize,
        )
    }
}

/// The successors that a list of parameters gives its command.
pub open spec fn parameters_successors(ps: Seq<ParameterView>, base: usize) -> Seq<usize>
    decreases ps.len(),
{
    if ps.len() == 0 {
        Seq::empty()
    } else {
        parameters_successors(ps.drop_last(), base) + parameter_successors(
            ps.last(),
            (base + parameters_nodes(ps.drop_last(), base).len()) as usize,
        )
    }
}

/// The node of a command whose first parameter node stands at index `base`.
/// It has no handler and wraps nothing.
pub open spec fn command_node(c: CommandView, base: usize) -> NodeView {
    NodeView::Command {
        node: TreeNodeView {
            name: c.name,
            help_symbol: c.name,
            help_text: match c.help_text {
                Some(text) => text,
                None => "Command"@,
            },
            hidden: c.hidden,
            priority: c.priority,
            repeatable: false,
            repeat_marker: None,
            successors: parameters_successors(c.parameters, base),
        },
        handler: None,
        parameters: parameters_ids(c.parameters, base),
        wrapped_root: None,
    }
}

/// The nodes of a command, the first of which stands at index `base`: those
/// of its parameters, then its own.
pub open spec fn command_nodes(c: CommandView, base: usize) -> Seq<NodeView> {
    parameters_nodes(c.parameters, base).push(command_node(c, base))
}

/// The nodes of a list of commands, from index 0 on.
pub open spec fn commands_nodes(cs: Seq<CommandView>) -> Seq<NodeView>
    decreases cs.len(),
{
    if cs.len() == 0 {
        Seq::empty()
    } else {
        let before = commands_nodes(cs.drop_last());
        before + command_nodes(cs.last(), before.len() as usize)
    }
}

/// The indices of the command nodes of a list of commands.
pub open spec fn commands_ids(cs: Seq<CommandView>) -> Seq<usize>
    decreases cs.len(),
{
    if cs.len() == 0 {
        Seq::empty()
    } else {
        commands_ids(cs.drop_last()).push((commands_nodes(cs).len() - 1) as usize)
    }
}

/// The root of a grammar whose commands stand at `successors`.
pub open spec fn root_node(successors: Seq<usize>) -> NodeView {
    NodeView::Root {
        node: TreeNodeView {
            name: "__root__"@,
            help_symbol: ""@,
            help_text: ""@,
            hidden: false,
            priority: PRIORITY_DEFAULT,
            repeatable: false,
            repeat_marker: None,
            successors,
        },
    }
}

/// The nodes of the grammar of a list of commands: the nodes of the
/// commands, then the root, whose successors are the commands in the order
/// in which they were added.
pub open spec fn grammar_of(cs: Seq<CommandView>) -> Seq<NodeView> {
    commands_nodes(cs).push(root_node(commands_ids(cs)))
}

/// What each command of a list describes.
pub open spec fn command_views(commands: Seq<Command>) -> Seq<CommandView> {
    commands.map_values(|c: Command| c@)
}

/// Every node of the list can stand in it.
pub open spec fn all_admissible(nodes: Seq<NodeView>) -> bool {
    forall|i: int| 0 <= i < nodes.len() ==> admissible(#[trigger] nodes[i], nodes)
}

/// The indices of `parameters` are those of parameter nodes of `nodes`, and
/// the indices of `successors` are those of nodes of `nodes`.
pub open spec fn linked(nodes: Seq<NodeView>, parameters: Seq<usize>, successors: Seq<usize>) -> bool {
    &&& forall|k: int|
        0 <= k < parameters.len() ==> #[trigger] parameters[k] < nodes.len()
            && nodes[parameters[k] as int] is Parameter
    &&& forall|k: int| 0 <= k < successors.len() ==> #[trigger] successors[k] < nodes.len()
}

/// A list in which every node can stand stays one when a node that can
/// stand in the longer list is added.
proof fn lemma_admissible_push(nodes: Seq<NodeView>, node: NodeView)
    requires
        all_admissible(nodes),
        admissible(node, nodes.push(node)),
    ensures
        all_admissible(nodes.push(node)),
{
    let longer = nodes.push(node);
    assert forall|i: int| 0 <= i < longer.len() implies admissible(#[trigger] longer[i], longer) by {
        if i < nodes.len() {
            assert(admissible(nodes[i], nodes));
            assert(longer[i] == nodes[i]);
            if let NodeView::Command { parameters, .. } = nodes[i] {
                assert forall|j: int| 0 <= j < parameters.len() implies longer[#[trigger] parameters[j] as int] is Parameter by {
                    assert(nodes[parameters[j] as int] is Parameter);
                }
            }
        }
    }
}

/// Adds `node` to `nodes` and returns its index.
fn push_node(nodes: &mut Vec<Node>, node: Node) -> (id: usize)
    requires
        all_admissible(node_views(old(nodes)@)),
        admissible(node@, node_views(old(nodes)@).push(node@)),
    ensures
        id == old(nodes)@.len(),
        node_views(final(nodes)@) == node_views(old(nodes)@).push(node@),
        all_admissible(node_views(final(nodes)@)),
{
    let id = nodes.len();
    proof {
        lemma_admissible_push(node_views(nodes@), node@);
    }
    nodes.push(node);
    assert(node_views(nodes@) =~= node_views(old(nodes)@).push(node@));
    id
}

/// Store a command tree while populating it. This is used
/// to construct a [`Grammar`] to be used with the `Parser`.
///
/// The lifetime parameter `'a` refers to the lifetime
/// of the strings used for command and parameter names and
/// help text.
pub struct CommandTree<'a> {
    commands: Vec<Command<'a>>,
}

impl<'a> View for CommandTree<'a> {
    type V = Seq<CommandView>;

    closed spec fn view(&self) -> Seq<CommandView> {
        command_views(self.commands@)
    }
}

impl<'a> CommandTree<'a> {
    /// Create a new `CommandTree`, with no commands.
    pub fn new() -> (tree: CommandTree<'a>)
        ensures
            tree@ == Seq::<CommandView>::empty(),
    {
        let tree = CommandTree { commands: Vec::new() };
        assert(command_views(tree.commands@) =~= Seq::<CommandView>::empty());
        tree
    }

    /// Add a `Command` to the `CommandTree`.
    pub fn command(&mut self, command: Command<'a>)
        ensures
            final(self)@ == old(self)@.push(command@),
    {
        self.commands.push(command);
        assert(command_views(self.commands@) =~= command_views(old(self).commands@).push(
            command@,
        ));
    }

    /// Construct the grammar of the commands: for each command, in the
    /// order in which they were added, the nodes of its parameters and its
    /// own node; then the root, which is the entry node.
    pub fn finalize(&self) -> (grammar: Grammar)
        ensures
            grammar@ == grammar_of(self@),
            grammar.root_id() == grammar@.len() - 1,
    {
        let mut nodes: Vec<Node> = Vec::new();
        let mut successors: Vec<usize> = Vec::new();
        let mut i: usize = 0;
        proof {
            assert(self@.take(0) =~= Seq::<CommandView>::empty());
            assert(node_views(nodes@) =~= commands_nodes(self@.take(0)));
        }
        while i < self.commands.len()
            invariant
                i <= self.commands@.len(),
                self@ == command_views(self.commands@),
                node_views(nodes@) == commands_nodes(self@.take(i as int)),
                successors@ == commands_ids(self@.take(i as int)),
                all_admissible(node_views(nodes@)),
                forall|k: int| 0 <= k < successors@.len() ==> #[trigger] successors@[k] < nodes@.len(),
            decreases self.commands@.len() - i,
        {
            let ghost before = node_views(nodes@);
            let ghost old_len = nodes@.len();
            let id = self.build_command(&self.commands[i], &mut nodes);
            successors.push(id);
            proof {
                assert(before.len() == old_len);
                assert(node_views(nodes@).len() == nodes@.len());
                assert(self@.take(i + 1).drop_last() =~= self@.take(i as int));
                assert(self@.take(i + 1).last() == self.commands@[i as int]@);
            }
            i = i + 1;
        }
        proof {
            assert(self@.take(self@.len() as int) =~= self@);
        }
        let root = push_node(&mut nodes, Node::Root(RootNode::new(successors)));
        Grammar::new(nodes, root).unwrap()
    }

    /// Adds the nodes of `command` to `nodes` and returns the index of the
    /// command's node, which is the last of them.
    fn build_command(&self, command: &Command, nodes: &mut Vec<Node>) -> (id: usize)
        requires
            all_admissible(node_views(old(nodes)@)),
        ensures
            node_views(final(nodes)@) == node_views(old(nodes)@) + command_nodes(
                command@,
                old(nodes)@.len() as usize,
            ),
            id == final(nodes)@.len() - 1,
            all_admissible(node_views(final(nodes)@)),
    {
        let ghost start = node_views(nodes@);
        let ghost base = nodes.len();
        let ghost ps = command@.parameters;
        let mut parameters: Vec<usize> = Vec::new();
        let mut successors: Vec<usize> = Vec::new();
        let mut i: usize = 0;
        proof {
            assert(ps.take(0) =~= Seq::<ParameterView>::empty());
            assert(node_views(nodes@) =~= start + parameters_nodes(ps.take(0), base));
        }
        while i < command.parameters.len()
            invariant
                i <= command.parameters@.len(),
                ps == parameter_views(command.parameters@),
                ps == command@.parameters,
                base == start.len(),
                node_views(nodes@) == start + parameters_nodes(ps.take(i as int), base),
                parameters@ == parameters_ids(ps.take(i as int), base),
                successors@ == parameters_successors(ps.take(i as int), base),
                all_admissible(node_views(nodes@)),
                linked(node_views(nodes@), parameters@, successors@),
            decreases command.parameters@.len() - i,
        {
            let parameter = &command.parameters[i];
            proof {
                assert(ps.take(i + 1).drop_last() =~= ps.take(i as int));
                assert(ps.take(i + 1).last() == parameter@);
                assert(node_views(nodes@).len() == nodes@.len());
                assert(nodes@.len() == base + parameters_nodes(ps.take(i as int), base).len());
            }
            match parameter.kind {
                ParameterKind::Flag => {
                    self.build_flag_parameter(parameter, nodes, &mut parameters, &mut successors);
                },
                ParameterKind::Named => {
                    self.build_named_parameter(parameter, nodes, &mut parameters, &mut successors);
                },
                ParameterKind::Simple => {
                    self.build_simple_parameter(
                        parameter,
                        nodes,
                        &mut parameters,
                        &mut successors,
                    );
                },
            };
            proof {
                assert(node_views(nodes@) =~= start + parameters_nodes(ps.take(i + 1), base));
            }
            i = i + 1;
        }
        proof {
            assert(ps.take(ps.len() as int) =~= ps);
        }
        let node = CommandNode::new(
            command.name,
            command.help_text,
            command.hidden,
            command.priority,
            successors,
            None,
            parameters,
        );
        proof {
            assert(node@ == command_node(command@, base));
        }
        let id = push_node(nodes, Node::Command(node));
        proof {
            assert(node_views(nodes@) =~= start + command_nodes(command@, base));
        }
        id
    }

    /// Adds the node of the flag `parameter`. Its priority is the default
    /// priority unless one was given.
    fn build_flag_parameter(
        &self,
        parameter: &Parameter,
        nodes: &mut Vec<Node>,
        parameters: &mut Vec<usize>,
        successors: &mut Vec<usize>,
    )
        requires
            parameter@.kind == ParameterKind::Flag,
            all_admissible(node_views(old(nodes)@)),
            linked(node_views(old(nodes)@), old(parameters)@, old(successors)@),
        ensures
            node_views(final(nodes)@) == node_views(old(nodes)@) + parameter_nodes(
                parameter@,
                old(nodes)@.len() as usize,
            ),
            final(parameters)@ == old(parameters)@.push(old(nodes)@.len() as usize),
            final(successors)@ == old(successors)@ + parameter_successors(
                parameter@,
                old(nodes)@.len() as usize,
            ),
            all_admissible(node_views(final(nodes)@)),
            linked(node_views(final(nodes)@), final(parameters)@, final(successors)@),
    {
        let p = ParameterNode::new(
            parameter.name,
            parameter.help_text,
            parameter.hidden,
            parameter.priority.unwrap_or(PRIORITY_DEFAULT),
            Vec::new(),
            parameter.repeatable,
            None,
            parameter.kind,
            parameter.required,
        );
        proof {
            assert(p@ == parameter_node(parameter@));
        }
        let p = push_node(nodes, Node::Parameter(p));
        parameters.push(p);
        successors.push(p);
        proof {
            assert(node_views(nodes@) =~= node_views(old(nodes)@) + parameter_nodes(
                parameter@,
                old(nodes)@.len() as usize,
            ));
            assert(successors@ =~= old(successors)@ + parameter_successors(
                parameter@,
                old(nodes)@.len() as usize,
            ));
        }
    }

    /// Adds the node of the named `parameter` and, as successors, one node
    /// for its name and one for each of its aliases. The priority of the
    /// parameter's node is the parameter priority unless one was given.
    fn build_named_parameter(
        &self,
        parameter: &Parameter,
        nodes: &mut Vec<Node>,
        parameters: &mut Vec<usize>,
        successors: &mut Vec<usize>,
    )
        requires
            parameter@.kind == ParameterKind::Named,
            all_admissible(node_views(old(nodes)@)),
            linked(node_views(old(nodes)@), old(parameters)@, old(successors)@),
        ensures
            node_views(final(nodes)@) == node_views(old(nodes)@) + parameter_nodes(
                parameter@,
                old(nodes)@.len() as usize,
            ),
            final(parameters)@ == old(parameters)@.push(old(nodes)@.len() as usize),
            final(successors)@ == old(successors)@ + parameter_successors(
                parameter@,
                old(nodes)@.len() as usize,
            ),
            all_admissible(node_views(final(nodes)@)),
            linked(node_views(final(nodes)@), final(parameters)@, final(successors)@),
    {
        let ghost start = node_views(nodes@);
        let ghost names = names_of(parameter@);
        let ghost made = |n: Seq<char>| name_node(parameter@, n, start.len() as usize);
        let p = ParameterNode::new(
            parameter.name,
            parameter.help_text,
            parameter.hidden,
            parameter.priority.unwrap_or(PRIORITY_PARAMETER),
            Vec::new(),
            parameter.repeatable,
            None,
            parameter.kind,
            parameter.required,
        );
        proof {
            assert(p@ == parameter_node(parameter@));
        }
        let p = push_node(nodes, Node::Parameter(p));
        parameters.push(p);
        let n = ParameterNameNode::new(
            parameter.name,
            parameter.hidden,
            PRIORITY_DEFAULT,
            vec![p],
            parameter.repeatable,
            Some(p),
            p,
            &nodes[p],
        );
        proof {
            assert(node_views(nodes@)[p as int] == parameter_node(parameter@));
            assert(n@.tree_node().successors =~= seq![p]);
            assert(n@ == name_node(parameter@, names[0], p));
        }
        let id = push_node(nodes, Node::ParameterName(n));
        successors.push(id);
        let mut i: usize = 0;
        proof {
            assert(node_views(nodes@) =~= start + seq![parameter_node(parameter@)] + names.take(
                1,
            ).map_values(made));
            assert(successors@ =~= old(successors)@ + Seq::new(1, |k: int| (p + 1 + k) as usize));
        }
        while i < parameter.aliases.len()
            invariant
                i <= parameter.aliases@.len(),
                names == names_of(parameter@),
                parameter@.aliases == views(parameter.aliases@),
                made == |n: Seq<char>| name_node(parameter@, n, start.len() as usize),
                p == start.len(),
                nodes@.len() == p + 2 + i,
                node_views(nodes@) == start + seq![parameter_node(parameter@)] + names.take(
                    i + 1,
                ).map_values(made),
                parameters@ == old(parameters)@.push(p),
                successors@ == old(successors)@ + Seq::new(
                    (i + 1) as nat,
                    |k: int| (p + 1 + k) as usize,
                ),
                all_admissible(node_views(nodes@)),
                linked(node_views(nodes@), parameters@, successors@),
            decreases parameter.aliases@.len() - i,
        {
            let ghost before = node_views(nodes@);
            let ghost before_successors = successors@;
            let a = ParameterNameNode::new(
                parameter.aliases[i],
                parameter.hidden,
                PRIORITY_DEFAULT,
                vec![p],
                parameter.repeatable,
                Some(p),
                p,
                &nodes[p],
            );
            proof {
                assert(node_views(nodes@)[p as int] == parameter_node(parameter@));
                assert(a@.tree_node().successors =~= seq![p]);
                assert(names[i + 1] == parameter.aliases@[i as int]@);
                assert(a@ == name_node(parameter@, names[i + 1], p));
            }
            let id = push_node(nodes, Node::ParameterName(a));
            successors.push(id);
            proof {
                assert(names.take(i + 2) =~= names.take(i + 1).push(names[i + 1]));
                assert(node_views(nodes@) =~= start + seq![parameter_node(parameter@)]
                    + names.take(i + 2).map_values(made));
                assert(successors@ =~= old(successors)@ + Seq::new(
                    (i + 2) as nat,
                    |k: int| (p + 1 + k) as usize,
                ));
            }
            i = i + 1;
        }
        proof {
            assert(names.take(names.len() as int) =~= names);
            assert(node_views(nodes@) =~= start + parameter_nodes(parameter@, p));
            assert(successors@ =~= old(successors)@ + parameter_successors(parameter@, p));
        }
    }

    /// Adds the node of the simple `parameter`. Its priority is the
    /// parameter priority unless one was given.
    fn build_simple_parameter(
        &self,
        parameter: &Parameter,
        nodes: &mut Vec<Node>,
        parameters: &mut Vec<usize>,
        successors: &mut Vec<usize>,
    )
        requires
            parameter@.kind == ParameterKind::Simple,
            all_admissible(node_views(old(nodes)@)),
            linked(node_views(old(nodes)@), old(parameters)@, old(successors)@),
        ensures
            node_views(final(nodes)@) == node_views(old(nodes)@) + parameter_nodes(
                parameter@,
                old(nodes)@.len() as usize,
            ),
            final(parameters)@ == old(parameters)@.push(old(nodes)@.len() as usize),
            final(successors)@ == old(successors)@ + parameter_successors(
                parameter@,
                old(nodes)@.len() as usize,
            ),
            all_admissible(node_views(final(nodes)@)),
            linked(node_views(final(nodes)@), final(parameters)@, final(successors)@),
    {
        let p = ParameterNode::new(
            parameter.name,
            parameter.help_text,
            parameter.hidden,
            parameter.priority.unwrap_or(PRIORITY_PARAMETER),
            Vec::new(),
            parameter.repeatable,
            None,
            parameter.kind,
            parameter.required,
        );
        proof {
            assert(p@ == parameter_node(parameter@));
        }
        let p = push_node(nodes, Node::Parameter(p));
        parameters.push(p);
        successors.push(p);
        proof {
            assert(node_views(nodes@) =~= node_views(old(nodes)@) + parameter_nodes(
                parameter@,
                old(nodes)@.len() as usize,
            ));
            assert(successors@ =~= old(successors)@ + parameter_successors(
                parameter@,
                old(nodes)@.len() as usize,
            ));
        }
    }
}

} // verus!
