use vstd::prelude::*;

use crate::types::SuPath;

verus! {

/// A binding of an action to an input path
/// (`/user/.../input/<source>/<component>`).
#[derive(Debug, Clone, Copy, PartialEq, Eq, Structural)]
pub struct SimpleBinding {
    pub action: u64,
    pub path: SuPath,
}

/// A boolean binding: an input, the activator that turns it into action
/// events, and the action it drives.
#[derive(Debug, Clone, Copy)]
pub struct BooleanBinding {
    pub input: SuPath,
    pub activator: Activator,
    pub output: u64,
}

/// What a binding does when a binding of higher priority takes its input.
#[derive(Debug, Clone, Copy, PartialEq, Eq, Structural)]
pub enum OverriddenBehavior {
    Block,
    Interrupt,
    /// Keeps acting as if nothing overrode it.
    Unaffected,
}

/// What an impulse binding does when a binding of higher priority takes its
/// input.
#[derive(Debug, Clone, Copy, PartialEq, Eq, Structural)]
pub enum ImpulseOverriddenBehavior {
    Block,
    /// Keeps acting as if nothing overrode it.
    Unaffected,
}

/// Whether an activation fires once, on press or on release.
#[derive(Debug, Clone, Copy, PartialEq, Eq, Structural)]
pub enum Impulse {
    False,
    OnPress,
    OnRelease,
}

/// How a button becomes a boolean action.
#[derive(Debug, Clone, Copy, PartialEq, Eq, Structural)]
pub enum Activator {
    Hold { overridden_behavior: OverriddenBehavior, impulse: Impulse },
    QuickTap { overridden_behavior: ImpulseOverriddenBehavior, blocking: bool, max_hold_duration: u32 },
    MultiTap {
        overridden_behavior: OverriddenBehavior,
        blocking: bool,
        duration: u32,
        impulse: Impulse,
        taps: u32,
    },
    LongHold { min_hold_duration: u32, impulse: Impulse },
}

/// The rotation that drives the horizontal axis of a gyro binding.
#[derive(Debug, PartialEq, Eq, Clone, Copy, Structural)]
pub enum XAxis {
    Yaw,
    Roll,
}

/// How a chord modifier acts on the bindings it guards.
#[derive(Debug, PartialEq, Eq, Clone, Copy, Structural)]
pub enum ChordType {
    PressToEnable,
    PressToDisable,
    Toggle,
}

} // verus!
