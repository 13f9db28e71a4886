//! The auxiliary keys validators declare, and the index of them.
use crate::bytes::{copy_bytes, same_bytes};
use crate::network_id::{ExternalNetworkId, NetworkId};
use crate::primitives::SeraiAddress;
use vstd::prelude::*;

verus! {

/// The auxiliary keys a validator declared for a network, each by its encoding.
#[derive(Clone, Copy, PartialEq, Eq, Debug)]
pub enum EmbeddedEllipticCurveKeys {
    /// The auxiliary key for Serai.
    Serai([u8; 32]),
    /// The Substrate auxiliary key, and the one for Bitcoin.
    Bitcoin([u8; 32], [u8; 33]),
    /// The Substrate auxiliary key, and the one for Ethereum.
    Ethereum([u8; 32], [u8; 33]),
    /// The Substrate auxiliary key, which is the one for Monero too.
    Monero([u8; 32]),
}

impl EmbeddedEllipticCurveKeys {
    /// The network these keys are for.
    pub open spec fn spec_network(self) -> NetworkId {
        match self {
            EmbeddedEllipticCurveKeys::Serai(_) => NetworkId::Serai,
            EmbeddedEllipticCurveKeys::Bitcoin(_, _) => NetworkId::External(
                ExternalNetworkId::Bitcoin,
            ),
            EmbeddedEllipticCurveKeys::Ethereum(_, _) => NetworkId::External(
                ExternalNetworkId::Ethereum,
            ),
            EmbeddedEllipticCurveKeys::Monero(_) => NetworkId::External(ExternalNetworkId::Monero),
        }
    }

    /// The network these keys are for.
    #[verifier::when_used_as_spec(spec_network)]
    pub fn network(self) -> (network: NetworkId)
        ensures
            network == self.spec_network(),
    {
        match self {
            EmbeddedEllipticCurveKeys::Serai(_) => NetworkId::Serai,
            EmbeddedEllipticCurveKeys::Bitcoin(_, _) => NetworkId::External(
                ExternalNetworkId::Bitcoin,
            ),
            EmbeddedEllipticCurveKeys::Ethereum(_, _) => NetworkId::External(
                ExternalNetworkId::Ethereum,
            ),
            EmbeddedEllipticCurveKeys::Monero(_) => NetworkId::External(ExternalNetworkId::Monero),
        }
    }

    /// The key these hold for Substrate.
    pub open spec fn spec_substrate_key(self) -> [u8; 32] {
        match self {
            EmbeddedEllipticCurveKeys::Serai(substrate) => substrate,
            EmbeddedEllipticCurveKeys::Bitcoin(substrate, _) => substrate,
            EmbeddedEllipticCurveKeys::Ethereum(substrate, _) => substrate,
            EmbeddedEllipticCurveKeys::Monero(substrate) => substrate,
        }
    }

    /// The key these hold for Substrate.
    #[verifier::when_used_as_spec(spec_substrate_key)]
    pub fn substrate_key(self) -> (key: [u8; 32])
        ensures
            key == self.spec_substrate_key(),
    {
        match self {
            EmbeddedEllipticCurveKeys::Serai(substrate) => substrate,
            EmbeddedEllipticCurveKeys::Bitcoin(substrate, _) => substrate,
            EmbeddedEllipticCurveKeys::Ethereum(substrate, _) => substrate,
            EmbeddedEllipticCurveKeys::Monero(substrate) => substrate,
        }
    }

    /// The bytes of the key these hold for their network.
    pub open spec fn network_key_bytes(self) -> Seq<u8> {
        match self {
            EmbeddedEllipticCurveKeys::Serai(substrate) => substrate@,
            EmbeddedEllipticCurveKeys::Bitcoin(_, external) => external@,
            EmbeddedEllipticCurveKeys::Ethereum(_, external) => external@,
            EmbeddedEllipticCurveKeys::Monero(substrate) => substrate@,
        }
    }

    /// The key these hold for their network.
    pub fn network_key(&self) -> (key: Vec<u8>)
        ensures
            key@ == self.network_key_bytes(),
    {
        match self {
            EmbeddedEllipticCurveKeys::Serai(substrate) => copy_bytes(substrate.as_slice()),
            EmbeddedEllipticCurveKeys::Bitcoin(_, external) => copy_bytes(external.as_slice()),
            EmbeddedEllipticCurveKeys::Ethereum(_, external) => copy_bytes(external.as_slice()),
            EmbeddedEllipticCurveKeys::Monero(substrate) => copy_bytes(substrate.as_slice()),
        }
    }
}

/// The auxiliary keys of validators, by the network they're for and the validator's address.
pub type AuxiliaryKeysModel = Map<(NetworkId, Seq<u8>), EmbeddedEllipticCurveKeys>;

/// The last auxiliary keys each validator declared for each network.
#[derive(Debug)]
pub struct AuxiliaryKeys {
    entries: Vec<(SeraiAddress, EmbeddedEllipticCurveKeys)>,
}

/// Where an entry is found.
spec fn entry_key(entry: (SeraiAddress, EmbeddedEllipticCurveKeys)) -> (NetworkId, Seq<u8>) {
    (entry.1.network(), entry.0.0@)
}

impl View for AuxiliaryKeys {
    type V = AuxiliaryKeysModel;

    closed spec fn view(&self) -> AuxiliaryKeysModel {
        Map::new(
            |key: (NetworkId, Seq<u8>)|
                exists|i: int| 0 <= i < self.entries@.len() && entry_key(self.entries@[i]) == key,
            |key: (NetworkId, Seq<u8>)|
                self.entries@[choose|i: int|
                    0 <= i < self.entries@.len() && entry_key(self.entries@[i]) == key].1,
        )
    }
}

impl AuxiliaryKeys {
    /// No validator has two entries for one network.
    pub closed spec fn wf(&self) -> bool {
        forall|i: int, j: int|
            0 <= i < j < self.entries@.len() ==> entry_key(#[trigger] self.entries@[i])
                != entry_key(#[trigger] self.entries@[j])
    }

    /// An index without keys.
    pub fn new() -> (keys: Self)
        ensures
            keys.wf(),
            keys@ == AuxiliaryKeysModel::empty(),
    {
        let keys = AuxiliaryKeys { entries: Vec::new() };
        assert(keys@ =~= AuxiliaryKeysModel::empty());
        keys
    }

    /// Where the keys for a network of a validator are held, if they are.
    fn position(&self, network: NetworkId, validator: &SeraiAddress) -> (position: Option<usize>)
        requires
            self.wf(),
        ensures
            match position {
                Some(i) => i < self.entries@.len() && entry_key(self.entries@[i as int]) == (
                    network,
                    validator.0@,
                ),
                None => forall|i: int|
                    0 <= i < self.entries@.len() ==> entry_key(#[trigger] self.entries@[i]) != (
                        network,
                        validator.0@,
                    ),
            },
    {
        let mut i: usize = 0;
        while i < self.entries.len()
            invariant
                i <= self.entries.len(),
                forall|j: int|
                    0 <= j < i ==> entry_key(#[trigger] self.entries@[j]) != (network, validator.0@),
            decreases self.entries.len() - i,
        {
            if self.entries[i].1.network() == network && same_bytes(
                self.entries[i].0.0.as_slice(),
                validator.0.as_slice(),
            ) {
                return Some(i);
            }
            i += 1;
        }
        None
    }

    /// Get the keys for a network which a validator declared.
    pub fn get(&self, network: NetworkId, validator: &SeraiAddress) -> (keys: Option<
        EmbeddedEllipticCurveKeys,
    >)
        requires
            self.wf(),
        ensures
            keys == if self@.contains_key((network, validator.0@)) {
                Some(self@[(network, validator.0@)])
            } else {
                None
            },
            keys matches Some(k) ==> k.network() == network,
    {
        match self.position(network, validator) {
            Some(i) => {
                proof {
                    let key = (network, validator.0@);
                    let j = choose|j: int|
                        0 <= j < self.entries@.len() && entry_key(self.entries@[j]) == key;
                    assert(entry_key(self.entries@[i as int]) == key);
                    assert(i == j);
                }
                Some(self.entries[i].1)
            },
            None => None,
        }
    }

    /// Set the keys a validator declared, for the network which they are for.
    pub fn set(&mut self, validator: SeraiAddress, keys: EmbeddedEllipticCurveKeys)
        requires
            old(self).wf(),
        ensures
            final(self).wf(),
            final(self)@ == old(self)@.insert((keys.network(), validator.0@), keys),
    {
        let ghost before = *self;
        let ghost key = (keys.network(), validator.0@);
        match self.position(keys.network(), &validator) {
            Some(i) => {
                self.entries[i] = (validator, keys);
                proof {
                    assert forall|a: int, b: int| 0 <= a < b < self.entries@.len() implies entry_key(
                        #[trigger] self.entries@[a],
                    ) != entry_key(#[trigger] self.entries@[b]) by {
                        assert(entry_key(before.entries@[a]) != entry_key(before.entries@[b]));
                    }
                    lemma_same_index(before, *self, i as int, key, keys);
                }
            },
            None => {
                self.entries.push((validator, keys));
                proof {
                    let at = self.entries@.len() - 1;
                    assert forall|a: int, b: int| 0 <= a < b < self.entries@.len() implies entry_key(
                        #[trigger] self.entries@[a],
                    ) != entry_key(#[trigger] self.entries@[b]) by {
                        assert(self.entries@[a] == before.entries@[a]);
                        if b < at {
                            assert(self.entries@[b] == before.entries@[b]);
                        }
                    }
                    lemma_same_index(before, *self, at, key, keys);
                }
            },
        }
    }
}

/// To put keys in one place, and leave all else as it was, is to insert them.
proof fn lemma_same_index(
    before: AuxiliaryKeys,
    after: AuxiliaryKeys,
    at: int,
    key: (NetworkId, Seq<u8>),
    keys: EmbeddedEllipticCurveKeys,
)
    requires
        before.wf(),
        after.wf(),
        0 <= at < after.entries@.len(),
        before.entries@.len() <= after.entries@.len() <= before.entries@.len() + 1,
        after.entries@.len() > before.entries@.len() ==> at == before.entries@.len(),
        at < before.entries@.len() ==> entry_key(before.entries@[at]) == key,
        entry_key(after.entries@[at]) == key,
        after.entries@[at].1 == keys,
        forall|i: int|
            0 <= i < before.entries@.len() && i != at ==> #[trigger] after.entries@[i]
                == before.entries@[i],
    ensures
        after@ == before@.insert(key, keys),
{
    let expected = before@.insert(key, keys);
    assert forall|k: (NetworkId, Seq<u8>)| after@.contains_key(k) <==> expected.contains_key(k) by {
        if after@.contains_key(k) && k != key {
            let i = choose|i: int| 0 <= i < after.entries@.len() && entry_key(after.entries@[i]) == k;
            assert(entry_key(before.entries@[i]) == k);
        }
        if expected.contains_key(k) && k != key {
            let i = choose|i: int|
                0 <= i < before.entries@.len() && entry_key(before.entries@[i]) == k;
            assert(entry_key(after.entries@[i]) == k);
        }
    }
    assert forall|k: (NetworkId, Seq<u8>)| after@.contains_key(k) implies after@[k]
        == expected[k] by {
        let i = choose|i: int| 0 <= i < after.entries@.len() && entry_key(after.entries@[i]) == k;
        if k == key {
            assert(i == at);
        } else {
            let j = choose|j: int|
                0 <= j < before.entries@.len() && entry_key(before.entries@[j]) == k;
            assert(entry_key(before.entries@[i]) == k);
            assert(i == j);
        }
    }
    assert(after@ =~= expected);
}

} // verus!
