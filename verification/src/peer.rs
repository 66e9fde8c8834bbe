//! Peer identity text handling.
//!
//! The registry stores a peer id in its canonical base-58 text form, the
//! form the control-plane client reports. A caller-supplied peer id is
//! put into the same form before it is matched against the registry, so
//! that any spelling that denotes an identity selects the records that
//! carry that identity.

use vstd::prelude::*;

use std::str::FromStr;

verus! {

/// The canonical text form of the peer identity that `s` denotes, if
/// `s` denotes one.
pub uninterp spec fn peer_id_canon(s: Seq<char>) -> Option<Seq<char>>;

/// Relies on libp2p_identity::PeerId::from_str (base-58 decode plus
/// multihash validation) and PeerId::to_base58: both depend on the
/// characters of `s` alone, so the outcome is a function of `s`.
#[verifier::external_body]
pub fn canonical_peer_id(s: &str) -> (r: Option<String>)
    ensures
        match r {
            Some(c) => peer_id_canon(s@) == Some(c@),
            None => peer_id_canon(s@) is None,
        },
{
    match libp2p_identity::PeerId::from_str(s) {
        Ok(p) => Some(p.to_base58()),
        Err(_) => None,
    }
}

} // verus!
