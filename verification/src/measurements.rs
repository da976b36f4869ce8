//! The measurements service: a placeholder surface with no implemented
//! operations.

use vstd::prelude::*;

verus! {

/// The measurements service; every operation of its surface is an
/// unimplemented placeholder handled by the transport layer.
pub struct MeasurementsService {}

impl MeasurementsService {
    pub fn new() -> MeasurementsService {
        MeasurementsService {  }
    }
}

} // verus!
