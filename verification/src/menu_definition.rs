//! # Menu Definitions

use vstd::prelude::*;

verus! {

/// Types of menu items.
pub enum MenuItem {
    /// A separator item in a menu.
    Separator,
}

/// The definition to be used to generate a menu or
/// toolbar in whatever GUI framework is being used.
pub struct MenuDefinition {
    /// The items in the menu. Ordered vector.
    pub items: Vec<MenuItem>,
}

} // verus!
