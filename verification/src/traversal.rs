use vstd::prelude::*;
use vstd::utf8::encode_utf8;

use crate::adapter::{
    allowed_regions_for, bind_refusal, find_mode_from, session_bound, substrate_lookup,
    BindingSession, ReadOnlyProjectionAdapter,
};
use crate::digest::{sha256_json, sha256_text};
use crate::package::{file_hash, BrainPackage, PackageDisk};
use crate::text::texts;
use crate::working::{
    entries, entries_after_insert, expansion_delta_json, insert_position, working_body_hash,
    WorkingBody,
};

verus! {

/// The receipt of a demo traversal: what was bound and read, the hashes that
/// pin the brain and the working body before and after, and the status of
/// the output (a proposal only).
#[derive(Debug, Clone)]
pub struct TraversalReceipt {
    pub schema: String,
    pub brain_id: String,
    pub brain_hash_before: String,
    pub brain_hash_after: String,
    pub immutable_substrate_verified: bool,
    pub adapter_id: String,
    pub read_mode_id: String,
    pub route_hash: String,
    pub output_hash: String,
    pub output_claim_status: String,
    pub expansion_delta_hashes: Vec<String>,
    pub working_body_before_hash: String,
    pub working_body_after_hash: String,
}

/// The chosen output and the receipt of a demo traversal.
#[derive(Debug, Clone)]
pub struct TraversalResult {
    pub output: usize,
    pub receipt: TraversalReceipt,
}

/// A demo traversal in progress: the binding, the working body, and what
/// has been recorded so far.
#[derive(Debug)]
pub struct DemoTraversal {
    pub adapter: ReadOnlyProjectionAdapter,
    pub binding: BindingSession,
    pub working_body: WorkingBody,
    pub working_body_before_hash: String,
    pub brain_hash_before: String,
    pub expansion_delta_hashes: Vec<String>,
}

/// The read mode the demo binds with.
pub open spec fn demo_read_mode() -> Seq<char> {
    "readonly_activation_projection_v0"@
}

/// The ABI of the default adapter.
pub open spec fn demo_abi() -> Seq<char> {
    "torch_readonly_projection_adapter_v0"@
}

/// The two activation regions the demo reads first.
pub open spec fn layer_0() -> Seq<char> {
    "encoder.layer_0.activation"@
}

pub open spec fn layer_1() -> Seq<char> {
    "encoder.layer_1.activation"@
}

/// The region holding the output logits.
pub open spec fn logits_region() -> Seq<char> {
    "output.logits"@
}

/// The JSON text of the demo's route, as `serde_json` writes the route
/// document (compact, object keys in sorted order).
pub open spec fn demo_route_json() -> Seq<char> {
    "{\"steps\":[{\"event\":\"read_region\",\"region_id\":\"encoder.layer_0.activation\"},{\"event\":\"read_region\",\"region_id\":\"encoder.layer_1.activation\"},{\"event\":\"compose\",\"target\":\"working_body.column_0.composer\"},{\"event\":\"emit_candidate_output\",\"target\":\"output_head\"}]}"@
}

/// The hash text of an expansion delta.
pub open spec fn expansion_delta_hash(
    reason: Seq<char>,
    previous: Seq<char>,
    next: Seq<char>,
    modules: Seq<Seq<char>>,
) -> Seq<char> {
    sha256_text(encode_utf8(expansion_delta_json(reason, previous, next, modules)))
}

/// Whether a binding under the demo read mode lets `region` be read.
pub open spec fn demo_readable(brain: BrainPackage, region: Seq<char>) -> bool {
    let mode = brain.read_modes@[find_mode_from(brain.read_modes@, demo_read_mode(), 0)->0];
    allowed_regions_for(None, brain, mode).contains(region) && substrate_lookup(
        brain.substrate@,
        region,
    ) is Some
}

/// Why the demo stops before weighing confidence, or `None`.
pub open spec fn start_refusal(brain: BrainPackage, disk: PackageDisk) -> Option<Seq<char>> {
    let refusal = bind_refusal(demo_abi(), None, brain, demo_read_mode(), disk);
    if refusal is Some {
        refusal
    } else if !demo_readable(brain, layer_0()) || !demo_readable(brain, layer_1()) {
        Some("REJECT_ROUTE"@)
    } else {
        None
    }
}

/// The adapter the demo uses.
pub open spec fn is_default_adapter(a: ReadOnlyProjectionAdapter) -> bool {
    &&& a.adapter_id@ == "readonly_projection_adapter.v0"@
    &&& a.abi_id@ == demo_abi()
    &&& a.permitted_scope is None
}

/// The state right after `start` succeeded on `brain` with `disk`.
pub open spec fn started(t: DemoTraversal, brain: BrainPackage, disk: PackageDisk) -> bool {
    &&& is_default_adapter(t.adapter)
    &&& session_bound(
        t.binding,
        t.adapter.adapter_id@,
        None,
        brain,
        demo_read_mode(),
        disk,
    )
    &&& t.working_body.columns == 1
    &&& t.working_body.state@.len() == 0
    &&& t.working_body_before_hash@ == working_body_hash(1, Seq::empty())
    &&& t.brain_hash_before@ == file_hash(disk.substrate)->Ok_0
    &&& t.expansion_delta_hashes@.len() == 0
}

/// The state after confidence was weighed: unchanged when it was high; when
/// low, the working body grew one column, recorded `capacity_rejection` as
/// its expansion reason, and the delta's hash was appended.
pub open spec fn noted(before: DemoTraversal, after: DemoTraversal, low_confidence: bool) -> bool {
    &&& after.adapter == before.adapter
    &&& after.binding == before.binding
    &&& after.working_body_before_hash == before.working_body_before_hash
    &&& after.brain_hash_before == before.brain_hash_before
    &&& !low_confidence ==> {
        &&& after.working_body == before.working_body
        &&& after.expansion_delta_hashes == before.expansion_delta_hashes
    }
    &&& low_confidence ==> {
        let old_state = entries(before.working_body.state@);
        let new_state = entries(after.working_body.state@);
        &&& after.working_body.columns == before.working_body.columns + 1
        &&& exists|p: int|
            insert_position(old_state, "expansion_reason"@, p) && new_state == entries_after_insert(
                old_state,
                "expansion_reason"@,
                "capacity_rejection"@,
                p,
            )
        &&& texts(after.expansion_delta_hashes@) == texts(before.expansion_delta_hashes@).push(
            expansion_delta_hash(
                "capacity_rejection"@,
                working_body_hash(before.working_body.columns as nat, old_state),
                working_body_hash(after.working_body.columns as nat, new_state),
                Seq::empty(),
            ),
        )
    }
}

/// The result `finish` returns for traversal state `t`.
pub open spec fn finished(
    t: DemoTraversal,
    r: TraversalResult,
    brain: BrainPackage,
    output: usize,
    logits_json: Seq<char>,
    disk: PackageDisk,
) -> bool {
    let after = file_hash(disk.substrate)->Ok_0;
    let receipt = r.receipt;
    &&& r.output == output
    &&& receipt.schema@ == "traversal_receipt_v0"@
    &&& receipt.brain_id@ == brain.manifest.brain_id@
    &&& receipt.brain_hash_before@ == t.brain_hash_before@
    &&& receipt.brain_hash_after@ == after
    &&& receipt.immutable_substrate_verified == (t.brain_hash_before@ == after)
    &&& receipt.adapter_id@ == t.binding.adapter_id@
    &&& receipt.read_mode_id@ == t.binding.read_mode_id@
    &&& receipt.route_hash@ == sha256_text(encode_utf8(demo_route_json()))
    &&& receipt.output_hash@ == sha256_text(encode_utf8(logits_json))
    &&& receipt.output_claim_status@ == "proposal_only"@
    &&& texts(receipt.expansion_delta_hashes@) == texts(t.expansion_delta_hashes@)
    &&& receipt.working_body_before_hash@ == t.working_body_before_hash@
    &&& receipt.working_body_after_hash@ == working_body_hash(
        t.working_body.columns as nat,
        entries(t.working_body.state@),
    )
}

impl DemoTraversal {
    /// Binds the default adapter to `brain` under the demo read mode, starts
    /// a fresh working body, records the hashes before the traversal, and
    /// reads the two activation regions (as `f32` bit patterns).
    pub fn start(brain: &BrainPackage, disk: &PackageDisk) -> (res: Result<
        (DemoTraversal, Vec<u32>, Vec<u32>),
        String,
    >)
        ensures
            match res {
                Ok((t, r0, r1)) => {
                    &&& start_refusal(*brain, *disk) is None
                    &&& started(t, *brain, *disk)
                    &&& r0@ == substrate_lookup(brain.substrate@, layer_0())->0
                    &&& r1@ == substrate_lookup(brain.substrate@, layer_1())->0
                },
                Err(e) => start_refusal(*brain, *disk) == Some(e@),
            },
    {
        let adapter = ReadOnlyProjectionAdapter::new();
        let binding = adapter.bind(brain, "readonly_activation_projection_v0", disk)?;
        let working_body = WorkingBody::new();
        let working_body_before_hash = working_body.hash();
        assert(crate::working::entries(working_body.state@) =~= Seq::empty());
        let brain_hash_before = brain.hash(disk)?;
        let r0 = adapter.read_region(&binding, brain, "encoder.layer_0.activation")?;
        let r1 = adapter.read_region(&binding, brain, "encoder.layer_1.activation")?;
        let t = DemoTraversal {
            adapter,
            binding,
            working_body,
            working_body_before_hash,
            brain_hash_before,
            expansion_delta_hashes: Vec::new(),
        };
        Ok((t, r0, r1))
    }

    /// Records how confident the traversal is in the activations: a low
    /// confidence is a capacity rejection, which expands the working body and
    /// appends the hash of the expansion delta.
    pub fn note_confidence(&mut self, low_confidence: bool)
        requires
            old(self).working_body.columns < usize::MAX,
        ensures
            noted(*old(self), *final(self), low_confidence),
    {
        if low_confidence {
            let delta = self.working_body.expand("capacity_rejection");
            let h = delta.hash();
            assert(texts(delta.brain_modules_modified@) =~= Seq::<Seq<char>>::empty());
            let ghost before = texts(self.expansion_delta_hashes@);
            self.expansion_delta_hashes.push(h);
            assert(texts(self.expansion_delta_hashes@) =~= before.push(h@));
        }
    }

    /// Reads the output logits through the binding (as `f32` bit patterns).
    pub fn read_logits(&self, brain: &BrainPackage) -> (res: Result<Vec<u32>, String>)
        ensures
            texts(self.binding.allowed_regions@).contains(logits_region()) && substrate_lookup(
                brain.substrate@,
                logits_region(),
            ) is Some ==> res is Ok && res->Ok_0@ == substrate_lookup(
                brain.substrate@,
                logits_region(),
            )->0,
            !(texts(self.binding.allowed_regions@).contains(logits_region()) && substrate_lookup(
                brain.substrate@,
                logits_region(),
            ) is Some) ==> res is Err && res->Err_0@ == "REJECT_ROUTE"@,
    {
        self.adapter.read_region(&self.binding, brain, "output.logits")
    }

    /// Ends the traversal with the chosen `output` and the JSON text of the
    /// logits it was chosen from: hashes the route and the logits, re-hashes
    /// the substrate on disk, and writes the receipt.
    pub fn finish(self, brain: &BrainPackage, output: usize, logits_json: &str, disk: &PackageDisk) -> (res:
        Result<TraversalResult, String>)
        ensures
            match res {
                Ok(r) => file_hash(disk.substrate) is Ok && finished(
                    self,
                    r,
                    *brain,
                    output,
                    logits_json@,
                    *disk,
                ),
                Err(e) => file_hash(disk.substrate) == Err::<Seq<char>, Seq<char>>(e@),
            },
    {
        let output_hash = sha256_json(logits_json);
        let route_hash = sha256_json(
            "{\"steps\":[{\"event\":\"read_region\",\"region_id\":\"encoder.layer_0.activation\"},{\"event\":\"read_region\",\"region_id\":\"encoder.layer_1.activation\"},{\"event\":\"compose\",\"target\":\"working_body.column_0.composer\"},{\"event\":\"emit_candidate_output\",\"target\":\"output_head\"}]}",
        );
        let brain_hash_after = brain.hash(disk)?;
        let immutable = crate::text::same_text(
            self.brain_hash_before.as_str(),
            brain_hash_after.as_str(),
        );
        let working_body_after_hash = self.working_body.hash();
        let receipt = TraversalReceipt {
            schema: "traversal_receipt_v0".to_owned(),
            brain_id: brain.manifest.brain_id.clone(),
            brain_hash_before: self.brain_hash_before,
            brain_hash_after,
            immutable_substrate_verified: immutable,
            adapter_id: self.binding.adapter_id,
            read_mode_id: self.binding.read_mode_id,
            route_hash,
            output_hash,
            output_claim_status: "proposal_only".to_owned(),
            expansion_delta_hashes: self.expansion_delta_hashes,
            working_body_before_hash: self.working_body_before_hash,
            working_body_after_hash,
        };
        Ok(TraversalResult { output, receipt })
    }
}

} // verus!
