//! Constructing an envelope: a supplied selection proof is used exactly
//! as given; absent one, the proof is derived from the contribution's own
//! slot and subcommittee index. The constructor's result is pinned, field
//! by field, to a spec-level function of its inputs.

use vstd::prelude::*;
use crate::crypto::SecretKey;
use crate::selection::derived_proof;
use crate::types::{
    ContributionAndProof, ContributionView, EnvelopeView, Fork, ForkView, Hash256, Signature,
    SyncCommitteeContribution, SyncSelectionProof,
};

verus! {

/// The selection proof an envelope ends up holding: the supplied one,
/// unchanged, or the one derived from the contribution's own duty.
pub open spec fn resolved_proof(
    contribution: ContributionView,
    supplied: Option<Seq<u8>>,
    seed: Seq<u8>,
    fork: ForkView,
    genesis_validators_root: Seq<u8>,
) -> Seq<u8> {
    match supplied {
        Some(p) => p,
        None => derived_proof(
            contribution.slot,
            contribution.subcommittee_index,
            seed,
            fork.current_version,
            genesis_validators_root,
        ),
    }
}

/// The envelope that construction yields, as a function of its inputs.
pub open spec fn constructed_envelope(
    aggregator_index: u64,
    contribution: ContributionView,
    supplied: Option<Seq<u8>>,
    seed: Seq<u8>,
    fork: ForkView,
    genesis_validators_root: Seq<u8>,
) -> EnvelopeView {
    EnvelopeView {
        aggregator_index,
        contribution,
        selection_proof: resolved_proof(
            contribution,
            supplied,
            seed,
            fork,
            genesis_validators_root,
        ),
    }
}

/// The bytes of a supplied proof, if one was supplied.
pub open spec fn supplied_view(p: Option<SyncSelectionProof>) -> Option<Seq<u8>> {
    match p {
        Some(q) => Some(q@),
        None => None,
    }
}

impl ContributionAndProof {
    /// Produce a new `ContributionAndProof` with a `selection_proof`
    /// generated by signing the selection data with `secret_key`.
    ///
    /// If `selection_proof.is_none()` it will be computed locally, from
    /// the contribution's own slot and subcommittee index. A supplied
    /// proof is trusted and used unchanged: the caller is responsible for
    /// having computed it over this contribution's slot and subcommittee
    /// index.
    pub fn from_aggregate(
        aggregator_index: u64,
        contribution: SyncCommitteeContribution,
        selection_proof: Option<SyncSelectionProof>,
        secret_key: &SecretKey,
        fork: &Fork,
        genesis_validators_root: Hash256,
    ) -> (r: Self)
        requires
            fork.wf(),
            genesis_validators_root.wf(),
            (selection_proof matches Some(p) ==> p.wf()),
        ensures
            r.wf(),
            r@ == constructed_envelope(
                aggregator_index,
                contribution@,
                supplied_view(selection_proof),
                secret_key@,
                fork@,
                genesis_validators_root@,
            ),
    {
        let resolved: Signature = match selection_proof {
            Some(p) => Signature::from(p),
            None => {
                let derived = SyncSelectionProof::new(
                    contribution.slot,
                    contribution.subcommittee_index,
                    secret_key,
                    fork,
                    &genesis_validators_root,
                );
                Signature::from(derived)
            },
        };
        ContributionAndProof { aggregator_index, contribution, selection_proof: resolved }
    }
}

/// Law: construction without a supplied proof is deterministic. Any two
/// envelopes constructed from equal inputs are identical, field for
/// field; repeated derivation is idempotent.
pub proof fn lemma_construction_deterministic(
    e1: EnvelopeView,
    e2: EnvelopeView,
    aggregator_index: u64,
    contribution: ContributionView,
    seed: Seq<u8>,
    fork: ForkView,
    genesis_validators_root: Seq<u8>,
)
    requires
        e1 == constructed_envelope(
            aggregator_index,
            contribution,
            None::<Seq<u8>>,
            seed,
            fork,
            genesis_validators_root,
        ),
        e2 == constructed_envelope(
            aggregator_index,
            contribution,
            None::<Seq<u8>>,
            seed,
            fork,
            genesis_validators_root,
        ),
    ensures
        e1 == e2,
{
}

/// Law: a supplied proof is reused exactly. The envelope's selection
/// proof equals the supplied value, with no recomputation and no
/// mutation, whatever the other inputs are.
pub proof fn lemma_supplied_proof_exact(
    aggregator_index: u64,
    contribution: ContributionView,
    supplied: Seq<u8>,
    seed: Seq<u8>,
    fork: ForkView,
    genesis_validators_root: Seq<u8>,
)
    ensures
        constructed_envelope(
            aggregator_index,
            contribution,
            Some(supplied),
            seed,
            fork,
            genesis_validators_root,
        ).selection_proof == supplied,
{
}

} // verus!
