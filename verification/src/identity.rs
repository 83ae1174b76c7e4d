//! Identities as the protocol shows them: a public key and the node
//! identifier derived from it. Private keys never enter this crate.

use vstd::prelude::*;
use vstd::string::*;

verus! {

/// The length of a public key in bytes.
pub const PUBLIC_KEY_LEN: usize = 32;

/// The public face of a keypair: the public key and its node identifier.
#[derive(Clone, Debug, PartialEq, Eq)]
pub struct Identity {
    pub public_key: [u8; 32],
    pub node_id: String,
}

/// The remote party, known once a handshake has succeeded.
#[derive(Clone, Debug, PartialEq, Eq)]
pub struct PeerIdentity {
    pub public_key: [u8; 32],
    pub node_id: String,
}

/// The mathematical value of an [`Identity`] or a [`PeerIdentity`].
pub struct IdentityView {
    pub public_key: Seq<u8>,
    pub node_id: Seq<char>,
}

impl View for Identity {
    type V = IdentityView;

    open spec fn view(&self) -> IdentityView {
        IdentityView { public_key: self.public_key@, node_id: self.node_id@ }
    }
}

impl View for PeerIdentity {
    type V = IdentityView;

    open spec fn view(&self) -> IdentityView {
        IdentityView { public_key: self.public_key@, node_id: self.node_id@ }
    }
}

} // verus!
