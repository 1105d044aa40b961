use vstd::prelude::*;
use crate::action::ActionTypeEnum;

verus! {

/// The kind of a compound action, as written in a stored application
/// description.
#[derive(Debug, Clone, Copy, PartialEq, Eq, Structural)]
pub enum ParentActionType {
    StickyBool,
    Axis1d,
    Axis2d,
}

/// An action as written in a stored application description: its name, data
/// type and, for a compound action, its kind.
#[derive(Debug, Clone, Copy)]
pub struct Action<'a> {
    pub name: &'a str,
    pub data_type: ActionTypeEnum,
    pub parent_type: Option<ParentActionType>,
}

/// A binding as written in a stored application description: the action,
/// the parent action it is a child of, if any, and the input component, all
/// by name.
#[derive(Debug, Clone, PartialEq, Eq)]
pub enum Binding {
    Simple { parent_action: Option<String>, action: String, input_component: String },
}

} // verus!
