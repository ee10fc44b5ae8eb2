//! The UTF-16 code units that structure a raw command line.

use vstd::prelude::*;

verus! {

/// Ends a command line.
pub const NULL: u16 = 0;

/// Horizontal tab.
pub const TAB: u16 = 9;

/// Space.
pub const SPACE: u16 = 32;

/// Double quote.
pub const QUOTE: u16 = 34;

/// A separator is a space or a horizontal tab.
pub open spec fn is_separator(unit: u16) -> bool {
    unit == SPACE || unit == TAB
}

/// The kinds of code unit that a scan of the command line looks for.
#[derive(Clone, Copy, Debug, PartialEq, Eq)]
pub enum UnitClass {
    /// The null unit.
    Null,
    /// The double quote.
    Quote,
    /// A space or a tab.
    Separator,
    /// Anything but a space or a tab; the null unit counts.
    Text,
}

impl UnitClass {
    /// Whether `unit` belongs to this class.
    pub open spec fn holds(self, unit: u16) -> bool {
        match self {
            UnitClass::Null => unit == NULL,
            UnitClass::Quote => unit == QUOTE,
            UnitClass::Separator => is_separator(unit),
            UnitClass::Text => !is_separator(unit),
        }
    }

    /// Tests one code unit against the class.
    pub fn admits(self, unit: u16) -> (yes: bool)
        ensures
            yes == self.holds(unit),
    {
        match self {
            UnitClass::Null => unit == NULL,
            UnitClass::Quote => unit == QUOTE,
            UnitClass::Separator => unit == SPACE || unit == TAB,
            UnitClass::Text => unit != SPACE && unit != TAB,
        }
    }
}

} // verus!
