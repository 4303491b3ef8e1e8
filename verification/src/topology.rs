//! Deployment scenarios and the latency range that each one stands for.

use vstd::prelude::*;
use crate::error::QuorumError;

verus! {

/// A deployment scenario, which fixes the range of validator response latency.
#[derive(Debug, Clone, Copy, PartialEq, Eq, Structural)]
pub enum NetworkTopology {
    /// All validators in the same datacenter.
    LocalLAN,
    /// Validators distributed globally.
    Geographic,
    /// Some validators slow or offline.
    Adversarial,
}

impl NetworkTopology {
    /// The inclusive latency range `(min_ms, max_ms)` of the scenario.
    pub open spec fn spec_latency_ms(&self) -> (u64, u64) {
        match self {
            NetworkTopology::LocalLAN => (1, 5),
            NetworkTopology::Geographic => (50, 200),
            NetworkTopology::Adversarial => (100, 500),
        }
    }

    /// The symbolic name of the scenario.
    pub open spec fn spec_name(self) -> Seq<char> {
        match self {
            NetworkTopology::LocalLAN => "local"@,
            NetworkTopology::Geographic => "geographic"@,
            NetworkTopology::Adversarial => "adversarial"@,
        }
    }

    /// The scenario that a name stands for, if any.
    pub open spec fn spec_from_name(name: Seq<char>) -> Option<NetworkTopology> {
        if name == "local"@ {
            Some(NetworkTopology::LocalLAN)
        } else if name == "geographic"@ {
            Some(NetworkTopology::Geographic)
        } else if name == "adversarial"@ {
            Some(NetworkTopology::Adversarial)
        } else {
            None
        }
    }

    #[verifier::when_used_as_spec(spec_latency_ms)]
    pub fn latency_ms(&self) -> (range: (u64, u64))
        ensures
            range == self.spec_latency_ms(),
            range.0 <= range.1,
    {
        match self {
            NetworkTopology::LocalLAN => (1, 5),
            NetworkTopology::Geographic => (50, 200),
            NetworkTopology::Adversarial => (100, 500),
        }
    }

    /// Every scenario, in the order in which a full benchmark visits them.
    pub fn all() -> (list: Vec<NetworkTopology>)
        ensures
            list@ == seq![
                NetworkTopology::LocalLAN,
                NetworkTopology::Geographic,
                NetworkTopology::Adversarial,
            ],
    {
        let mut list = Vec::new();
        list.push(NetworkTopology::LocalLAN);
        list.push(NetworkTopology::Geographic);
        list.push(NetworkTopology::Adversarial);
        assert(list@ =~= seq![
            NetworkTopology::LocalLAN,
            NetworkTopology::Geographic,
            NetworkTopology::Adversarial,
        ]);
        list
    }

    pub fn name(&self) -> (r: &'static str)
        ensures
            r@ == self.spec_name(),
    {
        match self {
            NetworkTopology::LocalLAN => "local",
            NetworkTopology::Geographic => "geographic",
            NetworkTopology::Adversarial => "adversarial",
        }
    }

    /// Looks a scenario up by name; the name must match exactly.
    pub fn from_name(name: &str) -> (r: Result<NetworkTopology, QuorumError>)
        ensures
            r == match Self::spec_from_name(name@) {
                Some(t) => Ok::<NetworkTopology, QuorumError>(t),
                None => Err::<NetworkTopology, QuorumError>(QuorumError::UnknownTopology),
            },
    {
        let given: String = name.to_owned();
        if given == "local".to_owned() {
            Ok(NetworkTopology::LocalLAN)
        } else if given == "geographic".to_owned() {
            Ok(NetworkTopology::Geographic)
        } else if given == "adversarial".to_owned() {
            Ok(NetworkTopology::Adversarial)
        } else {
            Err(QuorumError::UnknownTopology)
        }
    }
}

/// The latency range that a named scenario stands for.
pub open spec fn spec_latency_range(name: Seq<char>) -> Result<(u64, u64), QuorumError> {
    match NetworkTopology::spec_from_name(name) {
        Some(t) => Ok(t.spec_latency_ms()),
        None => Err(QuorumError::UnknownTopology),
    }
}

/// Maps a scenario name to its latency range `(min_ms, max_ms)`.
pub fn latency_range(name: &str) -> (r: Result<(u64, u64), QuorumError>)
    ensures
        r == spec_latency_range(name@),
        r is Ok ==> r->Ok_0.0 <= r->Ok_0.1,
{
    match NetworkTopology::from_name(name) {
        Ok(t) => Ok(t.latency_ms()),
        Err(e) => Err(e),
    }
}

/// A name is recognized exactly when it is the name of some scenario, and
/// looking that name up gives the scenario back.
pub proof fn lemma_name_round_trip(t: NetworkTopology)
    ensures
        NetworkTopology::spec_from_name(t.spec_name()) == Some(t),
{
    reveal_strlit("local");
    reveal_strlit("geographic");
    reveal_strlit("adversarial");
    assert("local"@.len() == 5);
    assert("geographic"@.len() == 10);
    assert("adversarial"@.len() == 11);
}

} // verus!
