use vstd::prelude::*;

verus! {

/// How the speed of a gyro binding scales its output: by a constant factor,
/// or by a factor that goes from `slow_scale` to `fast_scale` as the speed
/// goes from `slow_threshold` to `fast_threshold`.
#[derive(Debug, Clone, Copy)]
pub enum Sensitivity<T> {
    Linear(T),
    Acceleration { slow_threshold: T, fast_threshold: T, slow_scale: T, fast_scale: T },
}

/// The rotation that drives the horizontal output of a gyro binding.
#[derive(Debug, PartialEq, Eq, Clone, Copy, Structural)]
pub enum Axis {
    Yaw,
    Roll,
}

} // verus!
