use vstd::prelude::*;
use crate::serial;

verus! {

/// The kind of a child action of a compound (parent) action.
///
/// `Parent` stands for the parent action itself when its state is fed into
/// the compound state alongside its children.
#[derive(Debug, Clone, Copy, PartialEq, Eq, Structural)]
pub enum ChildActionType {
    StickyPress,
    StickyToggle,
    StickyRelease,
    Positive,
    Negative,
    Up,
    Right,
    Down,
    Left,
    Vertical,
    Horizontal,
    Move,
    Parent,
}


/// The data type of an action.
#[derive(Debug, Clone, Copy, PartialEq, Eq, Structural)]
pub enum ActionTypeEnum {
    Boolean,
    Delta2d,
    Cursor,
    Value,
    Axis1d,
    Axis2d,
}

/// How an action is created: its data type and, for compound actions, the
/// names of the child actions (a default name is used where none is given).
#[derive(Debug, Clone, PartialEq, Eq)]
pub enum ActionCreateInfo {
    Boolean { sticky: bool },
    Delta2D,
    Cursor,
    Value,
    Axis1d { positive: Option<String>, negative: Option<String> },
    Axis2d {
        up: Option<String>,
        down: Option<String>,
        left: Option<String>,
        right: Option<String>,
        vertical: Option<String>,
        horizontal: Option<String>,
    },
}

/// The child actions of a compound action, by handle.
#[derive(Debug, Clone, Copy, PartialEq, Eq, Structural)]
pub enum ParentActionType {
    StickyBool { sticky_press: u64, sticky_release: u64, sticky_toggle: u64 },
    Axis1d { positive: u64, negative: u64 },
    Axis2d { up: u64, down: u64, left: u64, right: u64, vertical: u64, horizontal: u64 },
}

/// Whether an action is a child of a compound action, a compound action with
/// children, or neither.
#[derive(Debug, Clone, Copy, PartialEq, Eq, Structural)]
pub enum ActionCompoundType {
    Child { parent: u64, ty: ChildActionType },
    Parent { ty: ParentActionType },
    Single,
}

/// An action: a handle unique within its instance, the action set it
/// belongs to, its name, data type and compound role.
#[derive(Debug, Clone)]
pub struct Action {
    pub handle: u64,
    pub action_set: u64,
    pub name: String,
    pub data_type: ActionTypeEnum,
    pub compound: ActionCompoundType,
}

/// The handle of the child of kind `ty` of a compound action, if it has one.
pub open spec fn parent_child(p: ParentActionType, ty: ChildActionType) -> Option<u64> {
    match p {
        ParentActionType::StickyBool { sticky_press, sticky_release, sticky_toggle } => {
            match ty {
                ChildActionType::StickyPress => Some(sticky_press),
                ChildActionType::StickyRelease => Some(sticky_release),
                ChildActionType::StickyToggle => Some(sticky_toggle),
                _ => None,
            }
        },
        ParentActionType::Axis1d { positive, negative } => {
            match ty {
                ChildActionType::Positive => Some(positive),
                ChildActionType::Negative => Some(negative),
                _ => None,
            }
        },
        ParentActionType::Axis2d { up, down, left, right, vertical, horizontal } => {
            match ty {
                ChildActionType::Up => Some(up),
                ChildActionType::Down => Some(down),
                ChildActionType::Left => Some(left),
                ChildActionType::Right => Some(right),
                ChildActionType::Vertical => Some(vertical),
                ChildActionType::Horizontal => Some(horizontal),
                _ => None,
            }
        },
    }
}

/// The abstract value of an action.
pub struct ActionView {
    pub handle: u64,
    pub action_set: u64,
    pub name: Seq<char>,
    pub data_type: ActionTypeEnum,
    pub compound: ActionCompoundType,
}

impl View for Action {
    type V = ActionView;

    open spec fn view(&self) -> ActionView {
        ActionView {
            handle: self.handle,
            action_set: self.action_set,
            name: self.name@,
            data_type: self.data_type,
            compound: self.compound,
        }
    }
}

impl Action {
    /// The handle of this compound action's child of kind `ty`.
    pub fn get_child_action(&self, ty: ChildActionType) -> (h: u64)
        requires
            self.compound matches ActionCompoundType::Parent { ty: p } && parent_child(p, ty)
                is Some,
        ensures
            self.compound matches ActionCompoundType::Parent { ty: p } && parent_child(p, ty)
                == Some(h),
    {
        match self.compound {
            ActionCompoundType::Parent { ty: parent_type } => {
                match parent_type {
                    ParentActionType::StickyBool { sticky_press, sticky_release, sticky_toggle } => {
                        match ty {
                            ChildActionType::StickyPress => sticky_press,
                            ChildActionType::StickyRelease => sticky_release,
                            _ => sticky_toggle,
                        }
                    },
                    ParentActionType::Axis1d { positive, negative } => {
                        match ty {
                            ChildActionType::Positive => positive,
                            _ => negative,
                        }
                    },
                    ParentActionType::Axis2d { up, down, left, right, vertical, horizontal } => {
                        match ty {
                            ChildActionType::Up => up,
                            ChildActionType::Down => down,
                            ChildActionType::Left => left,
                            ChildActionType::Right => right,
                            ChildActionType::Vertical => vertical,
                            _ => horizontal,
                        }
                    },
                }
            },
            _ => 0,
        }
    }

    /// How this action is written in a stored application description. A
    /// child action is not written: its parent stands for it.
    pub fn serialize(&self) -> (r: Option<serial::Action<'_>>)
        ensures
            match self.compound {
                ActionCompoundType::Child { .. } => r is None,
                ActionCompoundType::Parent { ty } => r matches Some(a) && a.name@ == self.name@
                    && a.data_type == self.data_type && a.parent_type == Some(serial_kind(ty)),
                ActionCompoundType::Single => r matches Some(a) && a.name@ == self.name@
                    && a.data_type == self.data_type && a.parent_type is None,
            },
    {
        match self.compound {
            ActionCompoundType::Child { .. } => None,
            ActionCompoundType::Parent { ty } => {
                let kind = match ty {
                    ParentActionType::StickyBool { .. } => serial::ParentActionType::StickyBool,
                    ParentActionType::Axis1d { .. } => serial::ParentActionType::Axis1d,
                    ParentActionType::Axis2d { .. } => serial::ParentActionType::Axis2d,
                };
                Some(serial::Action { name: self.name.as_str(), data_type: self.data_type, parent_type: Some(kind) })
            },
            ActionCompoundType::Single => Some(
                serial::Action { name: self.name.as_str(), data_type: self.data_type, parent_type: None },
            ),
        }
    }
}

/// The stored kind of a compound action.
pub open spec fn serial_kind(p: ParentActionType) -> serial::ParentActionType {
    match p {
        ParentActionType::StickyBool { .. } => serial::ParentActionType::StickyBool,
        ParentActionType::Axis1d { .. } => serial::ParentActionType::Axis1d,
        ParentActionType::Axis2d { .. } => serial::ParentActionType::Axis2d,
    }
}

/// The stored kind of a compound action is the one whose children it has:
/// a sticky boolean has the sticky press, release and toggle children, a
/// 1D axis the positive and negative ones, a 2D axis the four directions
/// and the vertical and horizontal axes.
pub proof fn lemma_serial_kind_by_children(p: ParentActionType)
    ensures
        (serial_kind(p) == serial::ParentActionType::StickyBool) <==> (parent_child(p, ChildActionType::StickyPress) is Some
            && parent_child(p, ChildActionType::StickyRelease) is Some
            && parent_child(p, ChildActionType::StickyToggle) is Some),
        (serial_kind(p) == serial::ParentActionType::Axis1d) <==> (parent_child(p, ChildActionType::Positive) is Some
            && parent_child(p, ChildActionType::Negative) is Some),
        (serial_kind(p) == serial::ParentActionType::Axis2d) <==> (parent_child(p, ChildActionType::Up) is Some
            && parent_child(p, ChildActionType::Down) is Some && parent_child(p, ChildActionType::Left) is Some
            && parent_child(p, ChildActionType::Right) is Some && parent_child(p, ChildActionType::Vertical) is Some
            && parent_child(p, ChildActionType::Horizontal) is Some),
{
}

} // verus!
