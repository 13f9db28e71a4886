//! The database the event streams read from and write to.
use crate::auxiliary_keys::{AuxiliaryKeys, AuxiliaryKeysModel};
use crate::canonical::{CanonicalDb, CanonicalModel};
use crate::cosign::Cosigning;
use crate::ephemeral::{EphemeralDb, EphemeralModel};
use vstd::prelude::*;

verus! {

/// An in-memory database.
#[derive(Debug)]
pub struct MemDb {
    /// What's known of which blocks were cosigned.
    pub cosigning: Cosigning,
    /// The auxiliary keys validators declared.
    pub auxiliary_keys: AuxiliaryKeys,
    /// What the canonical event stream wrote.
    pub canonical: CanonicalDb,
    /// What the ephemeral event stream wrote.
    pub ephemeral: EphemeralDb,
}

/// The content of a [`MemDb`].
#[verifier::ext_equal]
pub struct DbModel {
    pub cosigning: Cosigning,
    pub auxiliary_keys: AuxiliaryKeysModel,
    pub canonical: CanonicalModel,
    pub ephemeral: EphemeralModel,
}

impl View for MemDb {
    type V = DbModel;

    open spec fn view(&self) -> DbModel {
        DbModel {
            cosigning: self.cosigning,
            auxiliary_keys: self.auxiliary_keys@,
            canonical: self.canonical@,
            ephemeral: self.ephemeral@,
        }
    }
}

impl MemDb {
    /// Every part of this is well-formed.
    pub open spec fn wf(&self) -> bool {
        self.auxiliary_keys.wf() && self.ephemeral.wf()
    }

    /// A database which nothing was written to.
    pub fn new() -> (db: Self)
        ensures
            db.wf(),
            db.cosigning.substrate_block_hashes@.dom() =~= Set::empty(),
            db.cosigning.latest_cosigned_block_number is None,
            db.cosigning.faulted_session is None,
            db@.auxiliary_keys == AuxiliaryKeysModel::empty(),
            db@.canonical.is_new(),
            db@.ephemeral.is_new(),
    {
        MemDb {
            cosigning: Cosigning::new(),
            auxiliary_keys: AuxiliaryKeys::new(),
            canonical: CanonicalDb::new(),
            ephemeral: EphemeralDb::new(),
        }
    }
}

} // verus!
