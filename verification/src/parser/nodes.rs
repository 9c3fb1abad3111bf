//! Parser nodes represent the grammar that is defined by the currently
//! permissible set of commands and their parameters.
//!
//! The nodes of a grammar stand in one list, the [`Grammar`], and a node
//! names another by its index in that list. Two nodes with the same fields
//! are still two nodes: what tells them apart is where they stand.

use super::completion::Completion;
use super::constants::ParameterKind;
use super::constants::PRIORITY_DEFAULT;
use super::contains_id;
use super::Parser;
use crate::tokenizer::Token;
use crate::util::starts_with;
use crate::util::views;
use vstd::prelude::*;
use vstd::string::StringExecFns;

verus! {

/// A parse tree node.
pub struct TreeNode {
    /// The name of this node.
    pub name: String,
    /// The text used to identify this node in help text.
    /// This is typically the node name, either in plain
    /// form or decorated for parameters.
    pub help_symbol: String,
    /// Help text describing this node.
    pub help_text: String,
    /// Hidden nodes are not completed. This doesn't modify matching.
    pub hidden: bool,
    /// Match and complete priority.
    pub priority: i32,
    /// Whether or not this node can be repeated. A repeated
    /// node can be accepted multiple times.
    pub repeatable: bool,
    /// If present, this node will no longer be acceptable once the node
    /// named here has been accepted.
    pub repeat_marker: Option<usize>,
    /// Possible successor nodes, in the order in which completion shows
    /// them.
    pub successors: Vec<usize>,
}

/// A `TreeNode` by its characters and indices.
pub struct TreeNodeView {
    /// The name of the node.
    pub name: Seq<char>,
    /// The text used to identify the node in help text.
    pub help_symbol: Seq<char>,
    /// Help text describing the node.
    pub help_text: Seq<char>,
    /// Hidden nodes are not completed.
    pub hidden: bool,
    /// Match and complete priority.
    pub priority: i32,
    /// Whether the node can be accepted more than once.
    pub repeatable: bool,
    /// The node whose acceptance closes this one.
    pub repeat_marker: Option<usize>,
    /// Possible successor nodes.
    pub successors: Seq<usize>,
}

impl View for TreeNode {
    type V = TreeNodeView;

    open spec fn view(&self) -> TreeNodeView {
        TreeNodeView {
            name: self.name@,
            help_symbol: self.help_symbol@,
            help_text: self.help_text@,
            hidden: self.hidden,
            priority: self.priority,
            repeatable: self.repeatable,
            repeat_marker: self.repeat_marker,
            successors: self.successors@,
        }
    }
}

/// The root of a command tree.
pub struct RootNode {
    /// `TreeNode` data.
    pub node: TreeNode,
}

/// A node representing a command.
///
/// If `wrapped_root` is set then this node wraps another command.
/// This is used for the help command so that it can complete
/// normal commands.
pub struct CommandNode {
    /// `TreeNode` data.
    pub node: TreeNode,
    /// The identity of the handler that is to run once this node has been
    /// accepted. The parser never runs it: it records that the command
    /// was accepted.
    pub handler: Option<usize>,
    /// Parameter nodes for this command
    pub parameters: Vec<usize>,
    /// If present, the command wrapped by this node.
    pub wrapped_root: Option<usize>,
}

/// A node that represents the name portion of a named
/// parameter.
pub struct ParameterNameNode {
    /// `TreeNode` data.
    pub node: TreeNode,
    /// The `parameter` named by this node.
    pub parameter: usize,
}

/// A node representing a parameter for a command.
pub struct ParameterNode {
    /// `TreeNode` data.
    pub node: TreeNode,
    /// A `required` parameter must be supplied for the
    /// command line being parsed to be valid.
    pub required: bool,
    /// What type of `ParameterKind` this is.
    pub kind: ParameterKind,
}

/// Enumeration of node types used to have vectors of `Node` and so on.
pub enum Node {
    /// `Node` variant wrapping a `CommandNode`.
    Command(CommandNode),
    /// `Node` variant wrapping a `ParameterNode`.
    Parameter(ParameterNode),
    /// `Node` variant wrapping a `ParameterNameNode`.
    ParameterName(ParameterNameNode),
    /// `Node` variant wrapping a `RootNode`.
    Root(RootNode),
}

/// A `Node` by its characters and indices.
pub enum NodeView {
    /// A command.
    Command {
        /// `TreeNode` data.
        node: TreeNodeView,
        /// The identity of the command's handler.
        handler: Option<usize>,
        /// The parameter nodes of the command.
        parameters: Seq<usize>,
        /// The command wrapped by this one.
        wrapped_root: Option<usize>,
    },
    /// A parameter.
    Parameter {
        /// `TreeNode` data.
        node: TreeNodeView,
        /// Whether the parameter must be supplied.
        required: bool,
        /// The kind of the parameter.
        kind: ParameterKind,
    },
    /// The name of a named parameter.
    ParameterName {
        /// `TreeNode` data.
        node: TreeNodeView,
        /// The parameter named by this node.
        parameter: usize,
    },
    /// The root of a command tree.
    Root {
        /// `TreeNode` data.
        node: TreeNodeView,
    },
}

impl NodeView {
    /// The data that every kind of node has.
    pub open spec fn tree_node(self) -> TreeNodeView {
        match self {
            NodeView::Command { node, .. } => node,
            NodeView::Parameter { node, .. } => node,
            NodeView::ParameterName { node, .. } => node,
            NodeView::Root { node } => node,
        }
    }

    /// Every node that this one names stands in a list of `len` nodes.
    pub open spec fn in_range(self, len: nat) -> bool {
        let node = self.tree_node();
        &&& forall|i: int| 0 <= i < node.successors.len() ==> #[trigger] node.successors[i] < len
        &&& node.repeat_marker matches Some(marker) ==> marker < len
        &&& self matches NodeView::Command { parameters, wrapped_root, .. } ==> {
            &&& forall|i: int| 0 <= i < parameters.len() ==> #[trigger] parameters[i] < len
            &&& wrapped_root matches Some(wrapped) ==> wrapped < len
        }
        &&& self matches NodeView::ParameterName { parameter, .. } ==> parameter < len
    }
}

impl View for RootNode {
    type V = NodeView;

    open spec fn view(&self) -> NodeView {
        NodeView::Root { node: self.node@ }
    }
}

impl View for CommandNode {
    type V = NodeView;

    open spec fn view(&self) -> NodeView {
        NodeView::Command {
            node: self.node@,
            handler: self.handler,
            parameters: self.parameters@,
            wrapped_root: self.wrapped_root,
        }
    }
}

impl View for ParameterNameNode {
    type V = NodeView;

    open spec fn view(&self) -> NodeView {
        NodeView::ParameterName { node: self.node@, parameter: self.parameter }
    }
}

impl View for ParameterNode {
    type V = NodeView;

    open spec fn view(&self) -> NodeView {
        NodeView::Parameter { node: self.node@, required: self.required, kind: self.kind }
    }
}

impl View for Node {
    type V = NodeView;

    open spec fn view(&self) -> NodeView {
        match self {
            Node::Command(command) => command@,
            Node::Parameter(parameter) => parameter@,
            Node::ParameterName(name) => name@,
            Node::Root(root) => root@,
        }
    }
}

impl Node {
    /// Get the `TreeNode` data for a given `Node`.
    pub fn node(&self) -> (tree_node: &TreeNode)
        ensures
            tree_node@ == self@.tree_node(),
    {
        match self {
            Node::Command(command) => &command.node,
            Node::Parameter(parameter) => &parameter.node,
            Node::ParameterName(name) => &name.node,
            Node::Root(root) => &root.node,
        }
    }

    /// Get the successors of this node.
    pub fn successors(&self) -> (successors: &Vec<usize>)
        ensures
            successors@ == self@.tree_node().successors,
    {
        &self.node().successors
    }
}

impl RootNode {
    /// Create a new `RootNode`
    pub fn new(successors: Vec<usize>) -> (root: RootNode)
        ensures
            root@ == (NodeView::Root {
                node: TreeNodeView {
                    name: "__root__"@,
                    help_symbol: ""@,
                    help_text: ""@,
                    hidden: false,
                    priority: PRIORITY_DEFAULT,
                    repeatable: false,
                    repeat_marker: None,
                    successors: successors@,
                },
            }),
    {
        RootNode {
            node: TreeNode {
                name: "__root__".to_owned(),
                help_symbol: "".to_owned(),
                help_text: "".to_owned(),
                hidden: false,
                priority: PRIORITY_DEFAULT,
                repeat_marker: None,
                repeatable: false,
                successors,
            },
        }
    }
}

impl CommandNode {
    /// Construct a new `CommandNode`. Without a help text, the text is
    /// "Command".
    pub fn new(
        name: &str,
        help_text: Option<&str>,
        hidden: bool,
        priority: i32,
        successors: Vec<usize>,
        handler: Option<usize>,
        parameters: Vec<usize>,
    ) -> (command: CommandNode)
        ensures
            command@ == (NodeView::Command {
                node: TreeNodeView {
                    name: name@,
                    help_symbol: name@,
                    help_text: match help_text {
                        Some(text) => text@,
                        None => "Command"@,
                    },
                    hidden,
                    priority,
                    repeatable: false,
                    repeat_marker: None,
                    successors: successors@,
                },
                handler,
                parameters: parameters@,
                wrapped_root: None,
            }),
    {
        CommandNode {
            node: TreeNode {
                name: name.to_owned(),
                help_symbol: name.to_owned(),
                help_text: help_text.unwrap_or("Command").to_owned(),
                hidden,
                priority,
                repeat_marker: None,
                repeatable: false,
                successors,
            },
            handler,
            parameters,
            wrapped_root: None,
        }
    }
}

/// The help symbol of a parameter name: the name, a space and the help
/// symbol of the parameter.
pub open spec fn name_help_symbol(name: Seq<char>, parameter_symbol: Seq<char>) -> Seq<char> {
    name + " "@ + parameter_symbol
}

impl ParameterNameNode {
    /// Construct a new `ParameterNameNode` for the parameter at index
    /// `parameter`, which is `parameter_node`. The help text is that of the
    /// parameter.
    pub fn new(
        name: &str,
        hidden: bool,
        priority: i32,
        successors: Vec<usize>,
        repeatable: bool,
        repeat_marker: Option<usize>,
        parameter: usize,
        parameter_node: &Node,
    ) -> (name_node: ParameterNameNode)
        ensures
            name_node@ == (NodeView::ParameterName {
                node: TreeNodeView {
                    name: name@,
                    help_symbol: name_help_symbol(name@, parameter_node@.tree_node().help_symbol),
                    help_text: parameter_node@.tree_node().help_text,
                    hidden,
                    priority,
                    repeatable,
                    repeat_marker,
                    successors: successors@,
                },
                parameter,
            }),
    {
        let param_node = parameter_node.node();
        let help_text = param_node.help_text.clone();
        let help_symbol = name.to_owned().concat(" ").concat(param_node.help_symbol.as_str());
        ParameterNameNode {
            node: TreeNode {
                name: name.to_owned(),
                help_symbol,
                help_text,
                hidden,
                priority,
                repeat_marker,
                repeatable,
                successors,
            },
            parameter,
        }
    }
}

/// The help symbol of a parameter: its name in angle brackets, with three
/// dots behind them if it can be repeated.
pub open spec fn parameter_help_symbol(name: Seq<char>, repeatable: bool) -> Seq<char> {
    if repeatable {
        "<"@ + name + ">..."@
    } else {
        "<"@ + name + ">"@
    }
}

/// The help text of a parameter of kind `kind` that was given none.
pub open spec fn default_parameter_help(kind: ParameterKind) -> Seq<char> {
    match kind {
        ParameterKind::Flag => "Flag"@,
        ParameterKind::Named | ParameterKind::Simple => "Parameter"@,
    }
}

impl ParameterNode {
    /// Construct a new `ParameterNode`.
    pub fn new(
        name: &str,
        help_text: Option<&str>,
        hidden: bool,
        priority: i32,
        successors: Vec<usize>,
        repeatable: bool,
        repeat_marker: Option<usize>,
        kind: ParameterKind,
        required: bool,
    ) -> (parameter: ParameterNode)
        ensures
            parameter@ == (NodeView::Parameter {
                node: TreeNodeView {
                    name: name@,
                    help_symbol: parameter_help_symbol(name@, repeatable),
                    help_text: match help_text {
                        Some(text) => text@,
                        None => default_parameter_help(kind),
                    },
                    hidden,
                    priority,
                    repeatable,
                    repeat_marker,
                    successors: successors@,
                },
                required,
                kind,
            }),
    {
        let help_symbol = if repeatable {
            String::from_str("<").concat(name).concat(">...")
        } else {
            String::from_str("<").concat(name).concat(">")
        };
        let default_help_text = match kind {
            ParameterKind::Flag => "Flag",
            ParameterKind::Named | ParameterKind::Simple => "Parameter",
        };
        let help_text = help_text.unwrap_or(default_help_text).to_owned();
        ParameterNode {
            node: TreeNode {
                name: name.to_owned(),
                help_symbol,
                help_text,
                hidden,
                priority,
                repeat_marker,
                repeatable,
                successors,
            },
            kind,
            required,
        }
    }
}

/// The nodes of a list, each by its characters and indices.
pub open spec fn node_views(nodes: Seq<Node>) -> Seq<NodeView> {
    nodes.map_values(|n: Node| n@)
}

/// `node` can stand in the list `nodes`: every node that it names is in the
/// list, and the parameters of a command are parameter nodes.
pub open spec fn admissible(node: NodeView, nodes: Seq<NodeView>) -> bool {
    &&& node.in_range(nodes.len())
    &&& node matches NodeView::Command { parameters, .. } ==> forall|j: int|
        0 <= j < parameters.len() ==> nodes[#[trigger] parameters[j] as int] is Parameter
}

/// The list `nodes` with the entry node `root` is a grammar: the entry node
/// and every node that a node names are in the list, and the parameters of a
/// command are parameter nodes.
pub open spec fn well_formed(nodes: Seq<NodeView>, root: usize) -> bool {
    &&& root < nodes.len()
    &&& forall|i: int| 0 <= i < nodes.len() ==> admissible(#[trigger] nodes[i], nodes)
}

/// A grammar: a list of nodes, each known by its index, and the index of
/// the node at which parsing starts.
///
/// A grammar does not change once it is made, and any number of parsers can
/// read it.
pub struct Grammar {
    nodes: Vec<Node>,
    root: usize,
}

impl View for Grammar {
    type V = Seq<NodeView>;

    closed spec fn view(&self) -> Seq<NodeView> {
        node_views(self.nodes@)
    }
}

/// Whether every index in `ids` is below `len`.
fn ids_in_range(ids: &Vec<usize>, len: usize) -> (r: bool)
    ensures
        r == forall|i: int| 0 <= i < ids@.len() ==> #[trigger] ids@[i] < len,
{
    let mut i: usize = 0;
    while i < ids.len()
        invariant
            i <= ids@.len(),
            forall|j: int| 0 <= j < i ==> #[trigger] ids@[j] < len,
        decreases ids@.len() - i,
    {
        if ids[i] >= len {
            return false;
        }
        i = i + 1;
    }
    true
}

/// Whether an index, if there is one, is below `len`.
fn id_in_range(id: Option<usize>, len: usize) -> (r: bool)
    ensures
        r == (id matches Some(i) ==> i < len),
{
    match id {
        Some(i) => i < len,
        None => true,
    }
}

/// Whether `node` can stand in the list `nodes`.
fn is_admissible(node: &Node, nodes: &Vec<Node>) -> (r: bool)
    ensures
        r == admissible(node@, node_views(nodes@)),
{
    let len = nodes.len();
    let tree_node = node.node();
    assert(node_views(nodes@).len() == len);
    if !ids_in_range(&tree_node.successors, len) {
        let ghost i = choose|i: int|
            0 <= i < tree_node.successors@.len() && !(#[trigger] tree_node.successors@[i] < len);
        assert(!(node@.tree_node().successors[i] < len));
        return false;
    }
    if !id_in_range(tree_node.repeat_marker, len) {
        return false;
    }
    match node {
        Node::Command(command) => {
            if !ids_in_range(&command.parameters, len) {
                let ghost i = choose|i: int|
                    0 <= i < command.parameters@.len() && !(#[trigger] command.parameters@[i]
                        < len);
                assert(node@ matches NodeView::Command { parameters, .. } && !(parameters[i]
                    < len));
                return false;
            }
            if !id_in_range(command.wrapped_root, len) {
                return false;
            }
            let mut j: usize = 0;
            while j < command.parameters.len()
                invariant
                    j <= command.parameters@.len(),
                    node@ == command@,
                    forall|k: int|
                        0 <= k < command.parameters@.len() ==> #[trigger] command.parameters@[k]
                            < nodes@.len(),
                    forall|k: int|
                        0 <= k < j ==> node_views(
                            nodes@,
                        )[#[trigger] command.parameters@[k] as int] is Parameter,
                decreases command.parameters@.len() - j,
            {
                match &nodes[command.parameters[j]] {
                    Node::Parameter(_) => {},
                    _ => {
                        assert(node@ matches NodeView::Command { parameters, .. } && !(node_views(
                            nodes@,
                        )[parameters[j as int] as int] is Parameter));
                        return false;
                    },
                }
                j = j + 1;
            }
            true
        },
        Node::ParameterName(name) => name.parameter < len,
        _ => true,
    }
}

impl Grammar {
    /// The index of the node at which parsing starts.
    pub closed spec fn root_id(&self) -> usize {
        self.root
    }

    #[verifier::type_invariant]
    spec fn valid(&self) -> bool {
        well_formed(self@, self.root)
    }

    /// Makes a grammar of `nodes`, with the node at index `root` as the
    /// entry. The result is `None` if the entry node or a node that some
    /// node names is not in the list, or if a parameter of a command is not
    /// a parameter node.
    pub fn new(nodes: Vec<Node>, root: usize) -> (grammar: Option<Grammar>)
        ensures
            grammar is Some <==> well_formed(node_views(nodes@), root),
            grammar matches Some(g) ==> g@ == node_views(nodes@) && g.root_id() == root,
    {
        if root >= nodes.len() {
            return None;
        }
        let mut i: usize = 0;
        while i < nodes.len()
            invariant
                i <= nodes@.len(),
                forall|k: int|
                    0 <= k < i ==> admissible(#[trigger] node_views(nodes@)[k], node_views(nodes@)),
            decreases nodes@.len() - i,
        {
            if !is_admissible(&nodes[i], &nodes) {
                assert(!admissible(node_views(nodes@)[i as int], node_views(nodes@)));
                return None;
            }
            i = i + 1;
        }
        Some(Grammar { nodes, root })
    }

    /// The number of nodes.
    pub fn len(&self) -> (len: usize)
        ensures
            len == self@.len(),
    {
        self.nodes.len()
    }

    /// The index of the node at which parsing starts.
    pub fn root(&self) -> (root: usize)
        ensures
            root == self.root_id(),
            well_formed(self@, root),
    {
        proof {
            use_type_invariant(self);
        }
        self.root
    }

    /// The node at index `id`, if there is one.
    pub fn get(&self, id: usize) -> (node: Option<&Node>)
        ensures
            node is Some <==> id < self@.len(),
            node matches Some(n) ==> n@ == self@[id as int] && admissible(n@, self@),
    {
        proof {
            use_type_invariant(self);
            if id < self@.len() {
                assert(admissible(self@[id as int], self@));
            }
        }
        if id < self.nodes.len() {
            Some(&self.nodes[id])
        } else {
            None
        }
    }

    /// The node at index `id`.
    pub fn node(&self, id: usize) -> (node: &Node)
        requires
            id < self@.len(),
        ensures
            node@ == self@[id as int],
            admissible(node@, self@),
    {
        proof {
            use_type_invariant(self);
            assert(admissible(self@[id as int], self@));
        }
        &self.nodes[id]
    }
}

/// The operations that every node must implement.
pub trait NodeOps: View<V = NodeView> {
    /// Accept this node with the given `token` as data. `node_ref` is the
    /// index of the node in the parser's grammar.
    ///
    /// By default, nothing needs to happen for `accept`.
    fn accept<'grammar, 'text, 'a>(
        &self,
        parser: &mut Parser<'grammar, 'text>,
        token: Token<'a>,
        node_ref: usize,
    )
        requires
            old(parser).wf(),
            node_ref < old(parser).grammar().len(),
            old(parser).grammar()[node_ref as int] == self@,
        ensures
            final(parser).wf(),
            final(parser).grammar() == old(parser).grammar(),
            final(parser)@ == self@.accepted(old(parser)@, token, node_ref),
    ;

    /// Can this node be accepted in the current parser state?
    /// By default, a node can be accepted when it hasn't been seen yet.
    /// `node_ref` is the index of the node in the parser's grammar.
    fn acceptable<'grammar, 'text>(&self, parser: &Parser<'grammar, 'text>, node_ref: usize) -> (r:
        bool)
        ensures
            r == self@.acceptable(node_ref, parser@.nodes),
    ;

    /// Given a node and an optional token, provide the completion options.
    ///
    /// By default, completion should complete for the name of the given
    /// node. A root cannot be completed.
    fn complete<'text>(&self, token: Option<Token<'text>>) -> (completion: Completion<'text>)
        requires
            !(self@ is Root),
        ensures
            completion@ == self@.completion(token),
    ;

    /// By default, a node matches a `token` when the name of the
    /// node starts with the `token`. A root cannot be matched.
    fn matches<'grammar, 'text, 'a>(&self, parser: &Parser<'grammar, 'text>, token: Token<'a>) -> (r:
        bool)
        requires
            !(self@ is Root),
        ensures
            r == self@.matches_text(token.text@),
    ;
}

/// The completion of a node that completes to its name.
fn complete_to_name<'text>(node: &TreeNode, token: Option<Token<'text>>) -> (completion:
    Completion<'text>)
    ensures
        completion@ == (NodeView::Root { node: node@ }).completion(token),
{
    let names: Vec<&str> = vec![node.name.as_str()];
    let none: Vec<&str> = Vec::new();
    proof {
        assert(views(names@) =~= seq![node@.name]);
        assert(views(none@) =~= Seq::<Seq<char>>::empty());
    }
    Completion::new(node.help_symbol.clone(), node.help_text.clone(), token, true, names, none)
}

/// Whether a node with the data `node` can be accepted by `parser`, going
/// by its repeat marker, by whether it is repeatable and by whether it has
/// been accepted before.
fn repeat_acceptable<'grammar, 'text>(
    node: &TreeNode,
    parser: &Parser<'grammar, 'text>,
    node_ref: usize,
) -> (r: bool)
    ensures
        r == (NodeView::ParameterName { node: node@, parameter: 0 }).acceptable(
            node_ref,
            parser@.nodes,
        ),
{
    let open = match node.repeat_marker {
        None => true,
        Some(marker) => !contains_id(parser.nodes(), marker),
    };
    open && (node.repeatable || !contains_id(parser.nodes(), node_ref))
}

impl NodeOps for Node {
    fn accept<'grammar, 'text, 'a>(
        &self,
        parser: &mut Parser<'grammar, 'text>,
        token: Token<'a>,
        node_ref: usize,
    ) {
        match self {
            Node::Command(command) => command.accept(parser, token, node_ref),
            Node::Parameter(parameter) => parameter.accept(parser, token, node_ref),
            Node::ParameterName(name) => name.accept(parser, token, node_ref),
            Node::Root(root) => root.accept(parser, token, node_ref),
        }
    }

    fn acceptable<'grammar, 'text>(&self, parser: &Parser<'grammar, 'text>, node_ref: usize) -> (r:
        bool) {
        match self {
            Node::Command(command) => command.acceptable(parser, node_ref),
            Node::Parameter(parameter) => parameter.acceptable(parser, node_ref),
            Node::ParameterName(name) => name.acceptable(parser, node_ref),
            Node::Root(root) => root.acceptable(parser, node_ref),
        }
    }

    fn complete<'text>(&self, token: Option<Token<'text>>) -> (completion: Completion<'text>) {
        match self {
            Node::Command(command) => command.complete(token),
            Node::Parameter(parameter) => parameter.complete(token),
            Node::ParameterName(name) => name.complete(token),
            Node::Root(root) => root.complete(token),
        }
    }

    fn matches<'grammar, 'text, 'a>(&self, parser: &Parser<'grammar, 'text>, token: Token<'a>) -> (r:
        bool) {
        match self {
            Node::Command(command) => command.matches(parser, token),
            Node::Parameter(parameter) => parameter.matches(parser, token),
            Node::ParameterName(name) => name.matches(parser, token),
            Node::Root(root) => root.matches(parser, token),
        }
    }
}

/// A root takes no part in parsing but as the place to start from: it
/// accepts nothing and is never acceptable.
impl NodeOps for RootNode {
    fn accept<'grammar, 'text, 'a>(
        &self,
        parser: &mut Parser<'grammar, 'text>,
        token: Token<'a>,
        node_ref: usize,
    ) {
    }

    fn acceptable<'grammar, 'text>(&self, parser: &Parser<'grammar, 'text>, node_ref: usize) -> (r:
        bool) {
        false
    }

    /// A `RootNode` can not be completed.
    fn complete<'text>(&self, token: Option<Token<'text>>) -> (completion: Completion<'text>) {
        complete_to_name(&self.node, token)
    }

    /// A `RootNode` can not be matched.
    fn matches<'grammar, 'text, 'a>(&self, parser: &Parser<'grammar, 'text>, token: Token<'a>) -> (r:
        bool) {
        false
    }
}

impl NodeOps for CommandNode {
    /// Record this command.
    fn accept<'grammar, 'text, 'a>(
        &self,
        parser: &mut Parser<'grammar, 'text>,
        token: Token<'a>,
        node_ref: usize,
    ) {
        if self.handler.is_some() {
            parser.record_command(node_ref)
        }
    }

    fn acceptable<'grammar, 'text>(&self, parser: &Parser<'grammar, 'text>, node_ref: usize) -> (r:
        bool) {
        !contains_id(parser.nodes(), node_ref)
    }

    fn complete<'text>(&self, token: Option<Token<'text>>) -> (completion: Completion<'text>) {
        complete_to_name(&self.node, token)
    }

    fn matches<'grammar, 'text, 'a>(&self, parser: &Parser<'grammar, 'text>, token: Token<'a>) -> (r:
        bool) {
        starts_with(self.node.name.as_str(), token.text)
    }
}

impl NodeOps for ParameterNameNode {
    fn accept<'grammar, 'text, 'a>(
        &self,
        parser: &mut Parser<'grammar, 'text>,
        token: Token<'a>,
        node_ref: usize,
    ) {
    }

    fn acceptable<'grammar, 'text>(&self, parser: &Parser<'grammar, 'text>, node_ref: usize) -> (r:
        bool) {
        repeat_acceptable(&self.node, parser, node_ref)
    }

    fn complete<'text>(&self, token: Option<Token<'text>>) -> (completion: Completion<'text>) {
        complete_to_name(&self.node, token)
    }

    fn matches<'grammar, 'text, 'a>(&self, parser: &Parser<'grammar, 'text>, token: Token<'a>) -> (r:
        bool) {
        starts_with(self.node.name.as_str(), token.text)
    }
}

impl NodeOps for ParameterNode {
    /// Record this parameter value.
    fn accept<'grammar, 'text, 'a>(
        &self,
        parser: &mut Parser<'grammar, 'text>,
        token: Token<'a>,
        node_ref: usize,
    ) {
        parser.record_parameter(self.node.name.clone(), token.text.to_owned());
    }

    fn acceptable<'grammar, 'text>(&self, parser: &Parser<'grammar, 'text>, node_ref: usize) -> (r:
        bool) {
        repeat_acceptable(&self.node, parser, node_ref)
    }

    /// Named and simple parameters have no fixed text to complete to, while
    /// flag parameters complete to the name of the flag.
    fn complete<'text>(&self, token: Option<Token<'text>>) -> (completion: Completion<'text>) {
        match self.kind {
            ParameterKind::Named | ParameterKind::Simple => {
                let names: Vec<&str> = Vec::new();
                let none: Vec<&str> = Vec::new();
                proof {
                    assert(views(names@) =~= Seq::<Seq<char>>::empty());
                }
                Completion::new(
                    self.node.help_symbol.clone(),
                    self.node.help_text.clone(),
                    token,
                    true,
                    names,
                    none,
                )
            },
            ParameterKind::Flag => complete_to_name(&self.node, token),
        }
    }

    fn matches<'grammar, 'text, 'a>(&self, parser: &Parser<'grammar, 'text>, token: Token<'a>) -> (r:
        bool) {
        match self.kind {
            ParameterKind::Named | ParameterKind::Simple => true,
            ParameterKind::Flag => starts_with(self.node.name.as_str(), token.text),
        }
    }
}

} // verus!
