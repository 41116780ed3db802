//! Input binding identifiers: the names under which the embedding
//! application wires axes and actions to the engine's input layer. The
//! terrain core itself never reads input; these only name the bindings.

use vstd::prelude::*;

verus! {

/// A movement axis binding.
#[derive(Clone, Copy, Debug, Hash, PartialEq, Eq, Structural)]
pub enum AxisBinding {
    ZAxis,
    YAxis,
    XAxis,
}

/// An action binding.
#[derive(Clone, Copy, Debug, Hash, PartialEq, Eq, Structural)]
pub enum ActionBinding {
    Interact,
}

impl AxisBinding {
    /// The label under which the binding appears in configuration.
    pub fn label(&self) -> (s: &'static str)
        ensures
            *self is ZAxis ==> s@ == "ZAxis"@,
            *self is YAxis ==> s@ == "YAxis"@,
            *self is XAxis ==> s@ == "XAxis"@,
    {
        match self {
            AxisBinding::ZAxis => "ZAxis",
            AxisBinding::YAxis => "YAxis",
            AxisBinding::XAxis => "XAxis",
        }
    }
}

impl ActionBinding {
    /// The label under which the binding appears in configuration.
    pub fn label(&self) -> (s: &'static str)
        ensures
            s@ == "Interact"@,
    {
        "Interact"
    }
}

/// Ties the axis and action binding types together for the embedding
/// application's input map.
#[derive(Clone, Copy, Debug, Default, PartialEq, Eq, Structural)]
pub struct GameBindings;

} // verus!
