//! The upgrade endpoint's decision: given the two path parameters of a
//! connection request and a handle for the new connection, either reject
//! the handshake (leaving the registry untouched) or create an open,
//! registered session.

use crate::registry::Registry;
use crate::session::{Session, SessionState};
use vstd::prelude::*;

verus! {

/// Both path parameters must be present and non-empty.
pub open spec fn valid_path_params(self_id: Seq<char>, peer_id: Seq<char>) -> bool {
    self_id.len() > 0 && peer_id.len() > 0
}

/// Accepts or rejects a transport upgrade request carrying the path
/// parameters `(self_id, peer_id)`. On valid parameters the session is
/// created, registered under `self_id`, and opened; on malformed (empty)
/// parameters no session is created and the registry is not touched.
pub fn accept_upgrade<H>(
    reg: &mut Registry<H>,
    self_id: String,
    peer_id: String,
    handle: H,
) -> (r: Option<Session>)
    requires
        old(reg).wf(),
    ensures
        final(reg).wf(),
        valid_path_params(self_id@, peer_id@) ==> (r matches Some(s) && s.self_id@ == self_id@
            && s.peer_id@ == peer_id@ && s.state == SessionState::Open && final(reg)@ == old(
            reg,
        )@.insert(self_id@, handle)),
        !valid_path_params(self_id@, peer_id@) ==> r is None && final(reg)@ == old(reg)@,
{
    if self_id.as_str().is_empty() || peer_id.as_str().is_empty() {
        return None;
    }
    let mut s = Session::new(self_id, peer_id);
    s.open(reg, handle);
    Some(s)
}

} // verus!
