use vstd::prelude::*;

verus! {

/// How a motion sensor's gyroscope is calibrated: by hand, while it is
/// held still (optionally helped by sensor fusion), or by sensor fusion
/// alone.
#[derive(Debug, Clone, Copy, PartialEq, Eq, Structural)]
pub enum CalibrationMode {
    Manual,
    Stillness { sensor_fusion: bool },
    SensorFusion,
}

} // verus!
