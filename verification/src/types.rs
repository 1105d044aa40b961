use vstd::prelude::*;

use crate::binding::SimpleBinding;

verus! {

/// A path handle. Paths name interaction profiles, devices, users and input
/// components (`/interaction_profiles/<vendor>/<type>`, `/devices/<vendor>/<name>`,
/// `/user/...`, `/input/<source>/<component>`).
#[derive(Debug, Clone, Copy, PartialEq, Eq, Hash, Structural)]
pub struct SuPath(pub u32);

/// A point in time, in ticks.
#[derive(Debug, Clone, Copy, PartialEq, Eq, PartialOrd, Ord, Hash, Structural)]
pub struct Time(pub u64);

/// An opaque action handle.
#[derive(Debug, Clone, Copy, PartialEq, Eq, Hash, Structural)]
pub struct ActionHandle(u64);

/// A path string that is not a well-formed path.
#[derive(Debug, Clone, Copy, PartialEq, Eq, Structural)]
pub struct PathFormatError;

/// Why a binding layout was refused.
#[derive(Debug, Clone, PartialEq, Eq)]
pub enum CreateBindingLayoutError {
    /// A path handle that names no path.
    InvalidPathHandle(SuPath),
    /// An action handle that names no action.
    InvalidActionHandle(u64),
    /// A path that names no interaction profile.
    BadInteractionProfilePath(String),
    /// A path that names no input component of the user's device.
    BadComponentPath(String),
    /// A path that names no user of the interaction profile.
    BadUserPath(String),
    /// A binding of an action to an input component that cannot drive it.
    BadBinding(SimpleBinding),
}

} // verus!
