//! How whitespace is shown.

use vstd::prelude::*;

verus! {

/// Columns that a tab takes.
pub const TABSIZE: usize = 4;

/// Stands for a line feed, which it keeps behind it.
pub const LF: &'static str = "¶\n";

/// Stands for a carriage return.
pub const CR: &'static str = "⁋";

/// Stands for a space.
pub const SPACE: &'static str = "·";

/// One column of a shown tab.
pub const TAB: &'static str = "↦";

} // verus!
