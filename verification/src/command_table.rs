//! # Command Tables

use crate::menu_definition::MenuDefinition;
use std::rc::Rc;
use vstd::prelude::*;

verus! {

/// A command
pub trait Command {
    /// Execute the command
    fn execute(&self);
}

/// Information about a command in a command table.
pub struct CommandTableEntry {
    /// Name of a command. This is used for command line entry.
    pub name: String,
    /// The underlying command that can be executed.
    pub command: Rc<dyn Command>,
}

/// A group of related commands
///
/// Command tables are a way of grouping a set of related
/// command objects and providing user interfaces to the
/// commands.
///
/// Command tables can be interacted with via menus,
/// toolbars, keystrokes, gestures, and more.
pub struct CommandTable {
    /// The name of the command table
    pub name: String,
    /// Tables inherited by this table
    pub inherit: Vec<Rc<CommandTable>>,
    /// Commands in this table
    pub commands: Vec<CommandTableEntry>,
    /// Menu description
    pub menu_definition: Option<MenuDefinition>,
}

impl CommandTable {
    /// Construct a `CommandTable` with the given name, inherited tables
    /// and commands, and without a menu definition.
    pub fn new(
        name: String,
        inherit: Vec<Rc<CommandTable>>,
        commands: Vec<CommandTableEntry>,
    ) -> (table: Rc<CommandTable>)
        ensures
            table.name == name,
            table.inherit == inherit,
            table.commands == commands,
            table.menu_definition is None,
    {
        Rc::new(CommandTable { name, inherit, commands, menu_definition: None })
    }
}

} // verus!
