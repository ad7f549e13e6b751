//! The router and worker services: their shared status type, the state each
//! keeps, and the decisions each makes on the replies of the other.
pub mod remote;
pub mod router;
pub mod schedule;
pub mod worker;

use vstd::prelude::*;

verus! {

/// Why a service reports itself unhealthy.
#[derive(Debug, Clone, Copy, PartialEq, Eq, Structural)]
pub enum StatusError {
    Died,
}

/// The answer to a status request: `Ok(())` when the service is healthy.
pub type Status = Result<(), StatusError>;

} // verus!
