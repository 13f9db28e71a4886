//! The primitive types which Serai's events and messages are made of.
use crate::bytes::copy_bytes;
use crate::network_id::{ExternalNetworkId, NetworkId};
use vstd::prelude::*;

verus! {

/// The hash of a block.
#[derive(Clone, Copy, PartialEq, Eq, Debug, Hash)]
pub struct BlockHash(pub [u8; 32]);

/// The address of an account on Serai.
#[derive(Clone, Copy, PartialEq, Eq, Debug, Hash)]
pub struct SeraiAddress(pub [u8; 32]);

/// A public key on Serai, by its encoding.
#[derive(Clone, Copy, PartialEq, Eq, Debug, Hash)]
pub struct Public(pub [u8; 32]);

/// The most bytes an [`ExternalAddress`] has.
pub const EXTERNAL_ADDRESS_MAX_SIZE: u32 = 512;

/// The most bytes an [`ExternalKey`] has.
pub const EXTERNAL_KEY_MAX_SIZE: u32 = 96;

/// An address on an external network.
#[derive(PartialEq, Eq, Debug, Hash)]
pub struct ExternalAddress(Vec<u8>);

impl Clone for ExternalAddress {
    fn clone(&self) -> (copy: Self)
        ensures
            copy@ == self@,
    {
        proof {
            use_type_invariant(self);
        }
        ExternalAddress(copy_bytes(self.0.as_slice()))
    }
}

impl View for ExternalAddress {
    type V = Seq<u8>;

    closed spec fn view(&self) -> Seq<u8> {
        self.0@
    }
}

impl ExternalAddress {
    #[verifier::type_invariant]
    spec fn bounded(self) -> bool {
        self.0@.len() <= EXTERNAL_ADDRESS_MAX_SIZE
    }

    /// An address of these bytes, unless there are more than an address may have.
    pub fn new(bytes: Vec<u8>) -> (address: Option<ExternalAddress>)
        ensures
            address is Some <==> bytes@.len() <= EXTERNAL_ADDRESS_MAX_SIZE,
            address matches Some(a) ==> a@ == bytes@,
    {
        if bytes.len() <= EXTERNAL_ADDRESS_MAX_SIZE as usize {
            Some(ExternalAddress(bytes))
        } else {
            None
        }
    }

    /// The bytes of this address.
    pub fn as_slice(&self) -> (bytes: &[u8])
        ensures
            bytes@ == self@,
            bytes@.len() <= EXTERNAL_ADDRESS_MAX_SIZE,
    {
        proof {
            use_type_invariant(self);
        }
        self.0.as_slice()
    }
}

/// A key on an external network.
#[derive(PartialEq, Eq, Debug, Hash)]
pub struct ExternalKey(Vec<u8>);

impl Clone for ExternalKey {
    fn clone(&self) -> (copy: Self)
        ensures
            copy@ == self@,
    {
        proof {
            use_type_invariant(self);
        }
        ExternalKey(copy_bytes(self.0.as_slice()))
    }
}

impl View for ExternalKey {
    type V = Seq<u8>;

    closed spec fn view(&self) -> Seq<u8> {
        self.0@
    }
}

impl ExternalKey {
    #[verifier::type_invariant]
    spec fn bounded(self) -> bool {
        self.0@.len() <= EXTERNAL_KEY_MAX_SIZE
    }

    /// A key of these bytes, unless there are more than a key may have.
    pub fn new(bytes: Vec<u8>) -> (key: Option<ExternalKey>)
        ensures
            key is Some <==> bytes@.len() <= EXTERNAL_KEY_MAX_SIZE,
            key matches Some(k) ==> k@ == bytes@,
    {
        if bytes.len() <= EXTERNAL_KEY_MAX_SIZE as usize {
            Some(ExternalKey(bytes))
        } else {
            None
        }
    }

    /// The bytes of this key.
    pub fn as_slice(&self) -> (bytes: &[u8])
        ensures
            bytes@ == self@,
            bytes@.len() <= EXTERNAL_KEY_MAX_SIZE,
    {
        proof {
            use_type_invariant(self);
        }
        self.0.as_slice()
    }
}

/// The keys a validator set generated: for Serai, and for its external network.
#[derive(PartialEq, Eq, Debug)]
pub struct KeyPair(pub Public, pub ExternalKey);

impl Clone for KeyPair {
    fn clone(&self) -> (copy: Self)
        ensures
            copy.0 == self.0,
            copy.1@ == self.1@,
    {
        KeyPair(self.0, self.1.clone())
    }
}

/// The number of a validator set's session.
#[derive(Clone, Copy, PartialEq, Eq, Structural, Debug, Hash)]
pub struct Session(pub u32);

/// A set of validators, for a session, of a network.
#[derive(Clone, Copy, PartialEq, Eq, Structural, Debug, Hash)]
pub struct ValidatorSet {
    /// The network validated.
    pub network: NetworkId,
    /// The session these validators are for.
    pub session: Session,
}

/// A set of validators, for a session, of an external network.
#[derive(Clone, Copy, PartialEq, Eq, Structural, Debug, Hash)]
pub struct ExternalValidatorSet {
    /// The external network validated.
    pub network: ExternalNetworkId,
    /// The session these validators are for.
    pub session: Session,
}

impl ValidatorSet {
    /// This as a set of an external network, if its network is one.
    pub open spec fn spec_external(self) -> Option<ExternalValidatorSet> {
        match self.network {
            NetworkId::Serai => None,
            NetworkId::External(network) => Some(
                ExternalValidatorSet { network, session: self.session },
            ),
        }
    }

    /// This as a set of an external network, if its network is one.
    #[verifier::when_used_as_spec(spec_external)]
    pub fn external(self) -> (set: Option<ExternalValidatorSet>)
        ensures
            set == self.spec_external(),
    {
        match self.network {
            NetworkId::Serai => None,
            NetworkId::External(network) => Some(
                ExternalValidatorSet { network, session: self.session },
            ),
        }
    }
}

/// A validator's weight, as the amount of key shares it's to hold.
#[derive(Clone, Copy, PartialEq, Eq, Structural, Debug, Hash)]
pub struct KeyShares(pub u16);

/// The most key shares which a single set may have.
pub const MAX_KEY_SHARES_PER_SET: u16 = 127;

} // verus!
