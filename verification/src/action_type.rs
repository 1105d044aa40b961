use vstd::prelude::*;

use crate::action::{ActionCreateInfo, ActionTypeEnum};
use crate::types::Time;

verus! {

/// Seals the set of action data types: only the types of this module are
/// action types.
pub trait Sealed {}

impl Sealed for bool {}

impl Sealed for Value {}

impl Sealed for Delta2d {}

impl Sealed for Axis1d {}

impl Sealed for Axis2d {}

/// How a boolean action is created: whether it is sticky, which gives it
/// press, release and toggle children.
#[derive(Debug, Clone, Copy, Default)]
pub struct BooleanActionCreateInfo {
    pub sticky: bool,
}

/// The state of a boolean action as seen by the application.
#[derive(Debug, Clone, Copy)]
pub struct BooleanActionState {
    pub current_state: bool,
    pub changed_since_last_sync: bool,
    pub last_changed_time: Time,
    pub is_active: bool,
}

impl Default for BooleanActionState {
    fn default() -> (r: Self)
        ensures
            r == (BooleanActionState {
                current_state: false,
                changed_since_last_sync: false,
                last_changed_time: Time(0),
                is_active: false,
            }),
    {
        BooleanActionState {
            current_state: false,
            changed_since_last_sync: false,
            last_changed_time: Time(0),
            is_active: false,
        }
    }
}

/// The value action type.
#[derive(Debug, Clone, Copy)]
pub struct Value;

/// The two-dimensional delta action type.
#[derive(Debug, Clone, Copy)]
pub struct Delta2d;

/// The one-dimensional axis action type.
#[derive(Debug, Clone, Copy)]
pub struct Axis1d;

/// How a one-dimensional axis action is created: the names of its positive
/// and negative children, where they differ from the defaults.
#[derive(Debug, Default, Clone)]
pub struct Axis1dActionCreateInfo {
    pub positive: Option<String>,
    pub negative: Option<String>,
}

/// The two-dimensional axis action type.
#[derive(Debug, Clone, Copy)]
pub struct Axis2d;

/// How a two-dimensional axis action is created: the names of its six
/// children, where they differ from the defaults.
#[derive(Debug, Default, Clone)]
pub struct Axis2dActionCreateInfo {
    pub up: Option<String>,
    pub down: Option<String>,
    pub left: Option<String>,
    pub right: Option<String>,
    pub vertical: Option<String>,
    pub horizontal: Option<String>,
}

/// The state of a pose action as seen by the application.
#[derive(Debug, Clone, Copy)]
pub struct PoseActionState {
    pub is_active: bool,
}

/// The data type of each action type, and what an action of that type is
/// created from.
pub trait ActionType: Sealed {
    /// The options an action of this type is created with.
    type CreateInfo;

    fn action_type() -> (r: ActionTypeEnum)
        ensures
            r == Self::spec_action_type(),
    ;

    spec fn spec_action_type() -> ActionTypeEnum;

    /// The creation request for an action of this type made with `info`.
    fn create_info(info: Self::CreateInfo) -> (r: ActionCreateInfo)
        ensures
            r == Self::spec_create_info(info),
    ;

    spec fn spec_create_info(info: Self::CreateInfo) -> ActionCreateInfo;
}

impl ActionType for bool {
    type CreateInfo = BooleanActionCreateInfo;

    open spec fn spec_create_info(info: BooleanActionCreateInfo) -> ActionCreateInfo {
        ActionCreateInfo::Boolean { sticky: info.sticky }
    }

    fn create_info(info: BooleanActionCreateInfo) -> (r: ActionCreateInfo) {
        ActionCreateInfo::Boolean { sticky: info.sticky }
    }

    open spec fn spec_action_type() -> ActionTypeEnum {
        ActionTypeEnum::Boolean
    }

    fn action_type() -> (r: ActionTypeEnum) {
        ActionTypeEnum::Boolean
    }
}

impl ActionType for Value {
    type CreateInfo = ();

    open spec fn spec_create_info(info: ()) -> ActionCreateInfo {
        ActionCreateInfo::Value
    }

    fn create_info(_info: ()) -> (r: ActionCreateInfo) {
        ActionCreateInfo::Value
    }

    open spec fn spec_action_type() -> ActionTypeEnum {
        ActionTypeEnum::Value
    }

    fn action_type() -> (r: ActionTypeEnum) {
        ActionTypeEnum::Value
    }
}

impl ActionType for Delta2d {
    type CreateInfo = ();

    open spec fn spec_create_info(info: ()) -> ActionCreateInfo {
        ActionCreateInfo::Delta2D
    }

    fn create_info(_info: ()) -> (r: ActionCreateInfo) {
        ActionCreateInfo::Delta2D
    }

    open spec fn spec_action_type() -> ActionTypeEnum {
        ActionTypeEnum::Delta2d
    }

    fn action_type() -> (r: ActionTypeEnum) {
        ActionTypeEnum::Delta2d
    }
}

impl ActionType for Axis1d {
    type CreateInfo = Axis1dActionCreateInfo;

    open spec fn spec_create_info(info: Axis1dActionCreateInfo) -> ActionCreateInfo {
        ActionCreateInfo::Axis1d { positive: info.positive, negative: info.negative }
    }

    fn create_info(info: Axis1dActionCreateInfo) -> (r: ActionCreateInfo) {
        info.into_create_info()
    }

    open spec fn spec_action_type() -> ActionTypeEnum {
        ActionTypeEnum::Axis1d
    }

    fn action_type() -> (r: ActionTypeEnum) {
        ActionTypeEnum::Axis1d
    }
}

impl ActionType for Axis2d {
    type CreateInfo = Axis2dActionCreateInfo;

    open spec fn spec_create_info(info: Axis2dActionCreateInfo) -> ActionCreateInfo {
        ActionCreateInfo::Axis2d {
            up: info.up,
            down: info.down,
            left: info.left,
            right: info.right,
            vertical: info.vertical,
            horizontal: info.horizontal,
        }
    }

    fn create_info(info: Axis2dActionCreateInfo) -> (r: ActionCreateInfo) {
        info.into_create_info()
    }

    open spec fn spec_action_type() -> ActionTypeEnum {
        ActionTypeEnum::Axis2d
    }

    fn action_type() -> (r: ActionTypeEnum) {
        ActionTypeEnum::Axis2d
    }
}

impl BooleanActionCreateInfo {
    /// The creation request for a boolean action made with these options.
    pub fn into_create_info(self) -> (r: ActionCreateInfo)
        ensures
            r == (ActionCreateInfo::Boolean { sticky: self.sticky }),
    {
        ActionCreateInfo::Boolean { sticky: self.sticky }
    }
}

impl Axis1dActionCreateInfo {
    /// The creation request for a one-dimensional axis action with these
    /// child names.
    pub fn into_create_info(self) -> (r: ActionCreateInfo)
        ensures
            r == (ActionCreateInfo::Axis1d { positive: self.positive, negative: self.negative }),
    {
        ActionCreateInfo::Axis1d { positive: self.positive, negative: self.negative }
    }
}

impl Axis2dActionCreateInfo {
    /// The creation request for a two-dimensional axis action with these
    /// child names.
    pub fn into_create_info(self) -> (r: ActionCreateInfo)
        ensures
            r == (ActionCreateInfo::Axis2d {
                up: self.up,
                down: self.down,
                left: self.left,
                right: self.right,
                vertical: self.vertical,
                horizontal: self.horizontal,
            }),
    {
        ActionCreateInfo::Axis2d {
            up: self.up,
            down: self.down,
            left: self.left,
            right: self.right,
            vertical: self.vertical,
            horizontal: self.horizontal,
        }
    }
}

} // verus!
