//! Choosing a backend at run time.

use crate::error::CommitmentError;
use crate::field::FieldElement;
use crate::halo2_impl::Halo2PedersenCommitment;
use crate::pedersen::DEFAULT_LOG2_CAPACITY;
use crate::plonk_impl::PlonkPedersenCommitment;
use crate::scheme::{CommitmentScheme, PedersenCommitment};
use vstd::prelude::*;

verus! {

/// Names one of the supported circuit backends.
#[derive(Clone, Copy, Debug, PartialEq, Eq, Structural)]
pub enum ZkSystem {
    Halo2,
    Plonk,
}

/// The scheme of one backend, as the factory hands it out. It is a
/// commitment scheme itself: every call goes to the backend it holds.
pub enum SchemeHandle {
    Halo2(Halo2PedersenCommitment),
    Plonk(PlonkPedersenCommitment),
}

impl SchemeHandle {
    /// The backend whose scheme this is.
    pub open spec fn spec_system(self) -> ZkSystem {
        match self {
            SchemeHandle::Halo2(_) => ZkSystem::Halo2,
            SchemeHandle::Plonk(_) => ZkSystem::Plonk,
        }
    }

    /// The capacity exponent of the scheme.
    pub open spec fn spec_log2_capacity(self) -> nat {
        match self {
            SchemeHandle::Halo2(s) => s.spec_log2_capacity(),
            SchemeHandle::Plonk(s) => s.spec_log2_capacity(),
        }
    }

    /// The backend whose scheme this is.
    pub fn system(&self) -> (system: ZkSystem)
        ensures
            system == self.spec_system(),
    {
        match self {
            SchemeHandle::Halo2(_) => ZkSystem::Halo2,
            SchemeHandle::Plonk(_) => ZkSystem::Plonk,
        }
    }
}

impl CommitmentScheme for SchemeHandle {
    type Commitment = Vec<u8>;

    type CommittedValue = Vec<FieldElement>;

    type Randomness = FieldElement;

    open spec fn spec_commit(&self, value: Seq<nat>, randomness: nat) -> Option<Seq<u8>> {
        match self {
            SchemeHandle::Halo2(s) => s.spec_commit(value, randomness),
            SchemeHandle::Plonk(s) => s.spec_commit(value, randomness),
        }
    }

    fn commit(&self, value: &Vec<FieldElement>, randomness: &FieldElement) -> (r: Result<
        Vec<u8>,
        CommitmentError,
    >) {
        match self {
            SchemeHandle::Halo2(s) => s.commit(value, randomness),
            SchemeHandle::Plonk(s) => s.commit(value, randomness),
        }
    }

    fn verify(&self, commitment: &Vec<u8>, value: &Vec<FieldElement>, randomness: &FieldElement) -> (ok:
        bool) {
        match self {
            SchemeHandle::Halo2(s) => s.verify(commitment, value, randomness),
            SchemeHandle::Plonk(s) => s.verify(commitment, value, randomness),
        }
    }
}

impl PedersenCommitment for SchemeHandle {
    type Generators = Vec<Vec<u8>>;

    open spec fn spec_generators(&self) -> Seq<Seq<u8>> {
        match self {
            SchemeHandle::Halo2(s) => s.spec_generators(),
            SchemeHandle::Plonk(s) => s.spec_generators(),
        }
    }

    fn generators(&self) -> (g: Vec<Vec<u8>>) {
        match self {
            SchemeHandle::Halo2(s) => s.generators(),
            SchemeHandle::Plonk(s) => s.generators(),
        }
    }
}

/// Hands out the scheme of a backend, where the backend is registered.
///
/// The registry is filled when the factory is made and read ever after.
pub struct CommitmentFactory {
    halo2: bool,
    plonk: bool,
}

impl CommitmentFactory {
    /// Whether `system` is registered.
    pub closed spec fn spec_is_registered(self, system: ZkSystem) -> bool {
        match system {
            ZkSystem::Halo2 => self.halo2,
            ZkSystem::Plonk => self.plonk,
        }
    }

    /// The factory in which exactly the backends listed are registered.
    pub fn with_backends(backends: &[ZkSystem]) -> (factory: Self)
        ensures
            forall|system: ZkSystem|
                factory.spec_is_registered(system) == backends@.contains(system),
    {
        let mut factory = CommitmentFactory { halo2: false, plonk: false };
        let mut i: usize = 0;
        while i < backends.len()
            invariant
                i <= backends.len(),
                factory.halo2 == backends@.take(i as int).contains(ZkSystem::Halo2),
                factory.plonk == backends@.take(i as int).contains(ZkSystem::Plonk),
            decreases backends.len() - i,
        {
            let backend = backends[i];
            let ghost seen = backends@.take(i as int);
            let ghost next = backends@.take(i + 1);
            proof {
                assert(next =~= seen.push(backend));
                assert forall|system: ZkSystem|
                    (#[trigger] next.contains(system)) == (seen.contains(system) || system
                        == backend) by {
                    if seen.contains(system) {
                        let j = choose|j: int| 0 <= j < seen.len() && seen[j] == system;
                        assert(next[j] == system);
                    }
                    if system == backend {
                        assert(next[i as int] == system);
                    }
                    if next.contains(system) {
                        let j = choose|j: int| 0 <= j < next.len() && next[j] == system;
                        if j < i {
                            assert(seen[j] == system);
                        }
                    }
                }
            }
            match backend {
                ZkSystem::Halo2 => {
                    factory.halo2 = true;
                },
                ZkSystem::Plonk => {
                    factory.plonk = true;
                },
            }
            i = i + 1;
        }
        proof {
            assert(backends@.take(backends@.len() as int) =~= backends@);
            assert forall|system: ZkSystem|
                factory.spec_is_registered(system) == backends@.contains(system) by {
                match system {
                    ZkSystem::Halo2 => {},
                    ZkSystem::Plonk => {},
                }
            }
        }
        factory
    }

    /// Whether `system` is registered.
    pub fn is_registered(&self, system: ZkSystem) -> (registered: bool)
        ensures
            registered == self.spec_is_registered(system),
    {
        match system {
            ZkSystem::Halo2 => self.halo2,
            ZkSystem::Plonk => self.plonk,
        }
    }

    /// The scheme of the backend `system`, set up with the standard
    /// capacity.
    ///
    /// Fails with `UnsupportedBackend` exactly where the backend is not
    /// registered; no other backend is ever handed out in its place.
    pub fn create_commitment_scheme(&self, system: ZkSystem) -> (r: Result<
        SchemeHandle,
        CommitmentError,
    >)
        ensures
            r is Ok <==> self.spec_is_registered(system),
            r matches Ok(handle) ==> handle.spec_system() == system && handle.spec_log2_capacity()
                == DEFAULT_LOG2_CAPACITY,
            r matches Err(e) ==> e == CommitmentError::UnsupportedBackend,
    {
        if !self.is_registered(system) {
            return Err(CommitmentError::UnsupportedBackend);
        }
        match system {
            ZkSystem::Halo2 => Ok(SchemeHandle::Halo2(Halo2PedersenCommitment::standard())),
            ZkSystem::Plonk => Ok(SchemeHandle::Plonk(PlonkPedersenCommitment::standard())),
        }
    }
}

} // verus!
