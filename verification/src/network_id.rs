//! The networks Serai runs over.
use vstd::prelude::*;

verus! {

/// A network external to Serai.
#[derive(Clone, Copy, PartialEq, Eq, Structural, Debug, Hash)]
pub enum ExternalNetworkId {
    /// The Bitcoin network.
    Bitcoin,
    /// The Ethereum network.
    Ethereum,
    /// The Monero network.
    Monero,
}

/// Every external network, in the order in which they are walked.
pub open spec fn external_networks() -> Seq<ExternalNetworkId> {
    seq![ExternalNetworkId::Bitcoin, ExternalNetworkId::Ethereum, ExternalNetworkId::Monero]
}

impl ExternalNetworkId {
    /// Every external network, each once.
    pub fn all() -> (networks: Vec<ExternalNetworkId>)
        ensures
            networks@ == external_networks(),
    {
        vec![ExternalNetworkId::Bitcoin, ExternalNetworkId::Ethereum, ExternalNetworkId::Monero]
    }
}

/// A network: Serai itself, or one external to it.
#[derive(Clone, Copy, PartialEq, Eq, Structural, Debug, Hash)]
pub enum NetworkId {
    /// The Serai network.
    Serai,
    /// A network external to Serai.
    External(ExternalNetworkId),
}

impl NetworkId {
    /// Every network: Serai, then the external ones.
    pub fn all() -> (networks: Vec<NetworkId>)
        ensures
            networks@ == seq![NetworkId::Serai] + external_networks().map_values(
                |n: ExternalNetworkId| NetworkId::External(n),
            ),
    {
        vec![
            NetworkId::Serai,
            NetworkId::External(ExternalNetworkId::Bitcoin),
            NetworkId::External(ExternalNetworkId::Ethereum),
            NetworkId::External(ExternalNetworkId::Monero),
        ]
    }

    /// The external network this is, if it is one.
    pub open spec fn spec_external(self) -> Option<ExternalNetworkId> {
        match self {
            NetworkId::Serai => None,
            NetworkId::External(network) => Some(network),
        }
    }

    /// The external network this is, if it is one.
    #[verifier::when_used_as_spec(spec_external)]
    pub fn external(self) -> (network: Option<ExternalNetworkId>)
        ensures
            network == self.spec_external(),
    {
        match self {
            NetworkId::Serai => None,
            NetworkId::External(network) => Some(network),
        }
    }
}

/// A coin of an external network.
#[derive(Clone, Copy, PartialEq, Eq, Structural, Debug, Hash)]
pub enum ExternalCoin {
    /// Bitcoin, of the network of the same name.
    Bitcoin,
    /// Ether, of Ethereum.
    Ether,
    /// Dai, of Ethereum.
    Dai,
    /// Monero, of the network of the same name.
    Monero,
}

impl ExternalCoin {
    /// The network this coin is of.
    pub open spec fn spec_network(self) -> ExternalNetworkId {
        match self {
            ExternalCoin::Bitcoin => ExternalNetworkId::Bitcoin,
            ExternalCoin::Ether => ExternalNetworkId::Ethereum,
            ExternalCoin::Dai => ExternalNetworkId::Ethereum,
            ExternalCoin::Monero => ExternalNetworkId::Monero,
        }
    }

    /// The network this coin is of.
    #[verifier::when_used_as_spec(spec_network)]
    pub fn network(self) -> (network: ExternalNetworkId)
        ensures
            network == self.spec_network(),
    {
        match self {
            ExternalCoin::Bitcoin => ExternalNetworkId::Bitcoin,
            ExternalCoin::Ether => ExternalNetworkId::Ethereum,
            ExternalCoin::Dai => ExternalNetworkId::Ethereum,
            ExternalCoin::Monero => ExternalNetworkId::Monero,
        }
    }
}

/// One value for each external network.
#[derive(PartialEq, Eq, Debug)]
pub struct PerNetwork<T> {
    /// The value for Bitcoin.
    pub bitcoin: T,
    /// The value for Ethereum.
    pub ethereum: T,
    /// The value for Monero.
    pub monero: T,
}

impl<T> PerNetwork<T> {
    /// The value for a network.
    pub open spec fn of(self, network: ExternalNetworkId) -> T {
        match network {
            ExternalNetworkId::Bitcoin => self.bitcoin,
            ExternalNetworkId::Ethereum => self.ethereum,
            ExternalNetworkId::Monero => self.monero,
        }
    }

    /// Get the value for a network.
    pub fn get(&self, network: ExternalNetworkId) -> (value: &T)
        ensures
            *value == self.of(network),
    {
        match network {
            ExternalNetworkId::Bitcoin => &self.bitcoin,
            ExternalNetworkId::Ethereum => &self.ethereum,
            ExternalNetworkId::Monero => &self.monero,
        }
    }
}

} // verus!
