use vstd::prelude::*;

verus! {

/// Why an operation on the module ended without its result.
#[derive(Clone, Copy, Debug, PartialEq, Eq, Structural)]
pub enum DriverError {
    /// The byte transport reported a failure while a frame was written or a
    /// reply was clocked in.
    Transport,
    /// Behind the opening sentinel of a reply, the code byte, the number of
    /// parameters or the closing sentinel was not the one expected.
    ProtocolDesync,
    /// The reply declares a payload of another length than the caller
    /// expects.
    ReplyShapeMismatch,
    /// The ready line did not go high within the polls that the driver was
    /// given.
    ModuleUnresponsive,
}

} // verus!
