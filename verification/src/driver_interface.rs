use vstd::prelude::*;

use crate::types::SuPath;

verus! {

/// A request of a driver that the runtime refused.
#[derive(Debug, Clone, Copy, PartialEq, Eq, Structural)]
pub enum RuntimeInterfaceError {
    /// The driver called the runtime before it was initialized.
    DriverUninitialized,
}

/// A source of input devices and events, implemented by drivers.
pub trait SuInputDriver {
    fn initialize(&mut self);

    /// Forces a refresh.
    fn poll(&self);

    fn get_component_state(&self, device: usize, path: SuPath);

    fn set_windows(&mut self, windows: &[usize]) {
    }

    fn destroy(&mut self);
}

} // verus!
