//! The identity holder: an opaque peer identity derived from a fresh
//! Ed25519 keypair, and the authenticated static DH configuration for
//! the transport handshake. Generated once per process; construction
//! needs only local entropy.

use vstd::prelude::*;

verus! {

#[verifier::external_type_specification]
#[verifier::external_body]
pub struct ExKeypair(libp2p::identity::Keypair);

#[verifier::external_type_specification]
#[verifier::external_body]
pub struct ExPeerId(libp2p::PeerId);

#[verifier::external_type_specification]
#[verifier::external_body]
pub struct ExNoiseConfig(libp2p::noise::Config);

/// Relies on `libp2p::identity::Keypair::generate_ed25519`: a fresh
/// Ed25519 keypair from local entropy. The keys are random, so nothing
/// is promised of the value.
#[verifier::external_body]
fn generate_keypair() -> libp2p::identity::Keypair {
    libp2p::identity::Keypair::generate_ed25519()
}

/// Relies on `libp2p::PeerId::from_public_key` over `Keypair::public`:
/// the network identity that the keypair's public key denotes.
#[verifier::external_body]
fn derive_peer_id(keys: &libp2p::identity::Keypair) -> libp2p::PeerId {
    libp2p::PeerId::from_public_key(&keys.public())
}

/// Relies on `libp2p::PeerId::to_base58` (on a copy of the id): the
/// base-58 text of the peer id.
#[verifier::external_body]
fn peer_id_text(peer_id: &libp2p::PeerId) -> String {
    (*peer_id).to_base58()
}

/// Relies on `libp2p::noise::Config::new`: the keypair's static DH
/// keys authenticated for the noise handshake, or nothing if signing
/// them fails.
#[verifier::external_body]
fn authenticate(keys: &libp2p::identity::Keypair) -> Option<libp2p::noise::Config> {
    match libp2p::noise::Config::new(keys) {
        Ok(config) => Some(config),
        Err(_) => None,
    }
}

/// Stores the local identity: the peer id and the identity keypair.
pub struct KeyStore {
    peer_id: libp2p::PeerId,
    keys: libp2p::identity::Keypair,
}

impl KeyStore {
    /// The held identity.
    pub closed spec fn spec_id(&self) -> libp2p::PeerId {
        self.peer_id
    }

    /// A fresh identity: a new keypair and the peer id derived from it.
    pub fn new() -> Self {
        let keys = generate_keypair();
        let peer_id = derive_peer_id(&keys);
        Self { keys, peer_id }
    }

    /// The peer id.
    pub fn get_id(&self) -> (peer_id: &libp2p::PeerId)
        ensures
            *peer_id == self.spec_id(),
    {
        &self.peer_id
    }

    /// The peer id in its base-58 text form.
    pub fn id_string(&self) -> String {
        peer_id_text(&self.peer_id)
    }

    /// The authenticated handshake keys for the transport, or nothing
    /// if the noise signing fails.
    pub fn noise_keys(&self) -> Option<libp2p::noise::Config> {
        authenticate(&self.keys)
    }
}

} // verus!
