//! The envelope and its field types, with their mathematical views.

use vstd::prelude::*;

verus! {

/// A 32-byte root digest (for example the genesis validators root).
#[derive(Clone, Debug, PartialEq, Eq)]
pub struct Hash256 {
    pub bytes: Vec<u8>,
}

impl View for Hash256 {
    type V = Seq<u8>;

    open spec fn view(&self) -> Seq<u8> {
        self.bytes@
    }
}

impl Hash256 {
    /// A hash value is exactly 32 bytes long.
    pub open spec fn wf(&self) -> bool {
        self@.len() == 32
    }

    pub fn new(bytes: Vec<u8>) -> (r: Self)
        requires
            bytes@.len() == 32,
        ensures
            r.wf(),
            r@ == bytes@,
    {
        Hash256 { bytes }
    }
}

/// A fixed-size signature container: the envelope's representation of the
/// selection proof (96 bytes, a compressed BLS signature).
#[derive(Clone, Debug, PartialEq, Eq)]
pub struct Signature {
    pub bytes: Vec<u8>,
}

impl View for Signature {
    type V = Seq<u8>;

    open spec fn view(&self) -> Seq<u8> {
        self.bytes@
    }
}

impl Signature {
    /// A signature container holds exactly 96 bytes.
    pub open spec fn wf(&self) -> bool {
        self@.len() == 96
    }

    pub fn new(bytes: Vec<u8>) -> (r: Self)
        requires
            bytes@.len() == 96,
        ensures
            r.wf(),
            r@ == bytes@,
    {
        Signature { bytes }
    }
}

/// A selection proof: a signature over a duty's signing root, proving that
/// a validator was selected to aggregate for a slot and subcommittee.
#[derive(Clone, Debug, PartialEq, Eq)]
pub struct SyncSelectionProof {
    pub bytes: Vec<u8>,
}

impl View for SyncSelectionProof {
    type V = Seq<u8>;

    open spec fn view(&self) -> Seq<u8> {
        self.bytes@
    }
}

impl SyncSelectionProof {
    /// A selection proof holds exactly 96 bytes.
    pub open spec fn wf(&self) -> bool {
        self@.len() == 96
    }
}

/// The envelope keeps the proof as a plain signature container; the
/// conversion moves the bytes unchanged.
impl From<SyncSelectionProof> for Signature {
    fn from(p: SyncSelectionProof) -> (r: Signature) {
        Signature { bytes: p.bytes }
    }
}

impl vstd::std_specs::convert::FromSpecImpl<SyncSelectionProof> for Signature {
    open spec fn obeys_from_spec() -> bool {
        true
    }

    open spec fn from_spec(p: SyncSelectionProof) -> Signature {
        Signature { bytes: p.bytes }
    }
}

/// The fork and domain-separation context: which protocol versions are in
/// force around an epoch boundary.
pub ghost struct ForkView {
    pub previous_version: Seq<u8>,
    pub current_version: Seq<u8>,
    pub epoch: u64,
}

#[derive(Clone, Debug, PartialEq, Eq)]
pub struct Fork {
    pub previous_version: Vec<u8>,
    pub current_version: Vec<u8>,
    pub epoch: u64,
}

impl View for Fork {
    type V = ForkView;

    open spec fn view(&self) -> ForkView {
        ForkView {
            previous_version: self.previous_version@,
            current_version: self.current_version@,
            epoch: self.epoch,
        }
    }
}

impl Fork {
    /// Fork versions are 4-byte identifiers.
    pub open spec fn wf(&self) -> bool {
        self@.previous_version.len() == 4 && self@.current_version.len() == 4
    }
}

/// The aggregate payload: the duty's slot and subcommittee index, and the
/// aggregated content itself, which this crate carries opaquely as bytes.
pub ghost struct ContributionView {
    pub slot: u64,
    pub subcommittee_index: u64,
    pub aggregate: Seq<u8>,
}

#[derive(Clone, Debug, PartialEq, Eq)]
pub struct SyncCommitteeContribution {
    pub slot: u64,
    pub subcommittee_index: u64,
    pub aggregate: Vec<u8>,
}

impl View for SyncCommitteeContribution {
    type V = ContributionView;

    open spec fn view(&self) -> ContributionView {
        ContributionView {
            slot: self.slot,
            subcommittee_index: self.subcommittee_index,
            aggregate: self.aggregate@,
        }
    }
}

impl SyncCommitteeContribution {
    /// The slot the aggregate was collected for.
    pub fn slot(&self) -> (r: u64)
        ensures
            r == self@.slot,
    {
        self.slot
    }

    /// The subcommittee the aggregate was collected for.
    pub fn subcommittee_index(&self) -> (r: u64)
        ensures
            r == self@.subcommittee_index,
    {
        self.subcommittee_index
    }
}

/// A validator's aggregate contribution together with its selection proof.
pub ghost struct EnvelopeView {
    pub aggregator_index: u64,
    pub contribution: ContributionView,
    pub selection_proof: Seq<u8>,
}

/// A validator's aggregate sync-committee contribution and selection proof.
///
/// The triple is immutable once constructed: equality, the canonical
/// encoding and the structural digest are pure functions of the three
/// fields, independent of whether the proof was supplied or derived.
#[derive(Clone, Debug, PartialEq, Eq)]
pub struct ContributionAndProof {
    /// The index of the validator that created the sync contribution.
    pub aggregator_index: u64,
    /// The aggregate contribution.
    pub contribution: SyncCommitteeContribution,
    /// A proof provided by the validator that permits them to publish on
    /// the sync-committee contribution-and-proof topic.
    pub selection_proof: Signature,
}

impl View for ContributionAndProof {
    type V = EnvelopeView;

    open spec fn view(&self) -> EnvelopeView {
        EnvelopeView {
            aggregator_index: self.aggregator_index,
            contribution: self.contribution@,
            selection_proof: self.selection_proof@,
        }
    }
}

/// Well-formedness of an envelope's view: the proof has signature size.
pub open spec fn wf_envelope(e: EnvelopeView) -> bool {
    e.selection_proof.len() == 96
}

impl ContributionAndProof {
    pub open spec fn wf(&self) -> bool {
        wf_envelope(self@)
    }
}

} // verus!
