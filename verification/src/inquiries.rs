//! Payload of the inquiry service's status update. The inquiry records
//! themselves live with the persistence collaborator; only the plain data
//! the service forwards is modelled here.

use vstd::prelude::*;

verus! {

/// Payload of an inquiry status change.
pub struct UpdateInquiryStatusPayload {
    pub status: String,
}

} // verus!
