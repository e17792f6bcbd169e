use vstd::prelude::*;

use crate::adapter::{
    allowed_regions_for, find_mode_from, readable_regions, scope_allows, BindingSession,
    ReadOnlyProjectionAdapter,
};
use crate::package::{file_hash, receipt_present, BrainPackage, PackageDisk};
use crate::text::texts;
use crate::traversal::{expansion_delta_hash, finished, noted, started, DemoTraversal, TraversalResult};
use crate::working::{entries, working_body_hash};

verus! {

/// A package that fails verification is never bound: `bind` answers with
/// the verification error, whatever the adapter and read mode.
pub proof fn lemma_unverified_package_never_binds(
    a: ReadOnlyProjectionAdapter,
    brain: BrainPackage,
    read_mode: Seq<char>,
    disk: PackageDisk,
)
    requires
        brain.verify_outcome(disk) is Err,
    ensures
        a.bind_error(brain, read_mode, disk) == Some(brain.verify_outcome(disk)->Err_0),
{
}

/// Every region a binding allows is declared readable and not writable,
/// is listed by the bound read mode, and lies within the adapter's scope;
/// so a read through the binding never reaches anything else.
pub proof fn lemma_binding_confined_to_readonly_regions(
    a: ReadOnlyProjectionAdapter,
    s: BindingSession,
    brain: BrainPackage,
    read_mode: Seq<char>,
    disk: PackageDisk,
    region: Seq<char>,
)
    requires
        a.bind_error(brain, read_mode, disk) is None,
        a.bound_session(s, brain, read_mode, disk),
        texts(s.allowed_regions@).contains(region),
    ensures
        exists|i: int|
            0 <= i < brain.region_map.regions@.len() && #[trigger] brain.region_map.regions@[i].region_id@
                == region && brain.region_map.regions@[i].readable
                && !brain.region_map.regions@[i].writable,
        texts(
            brain.read_modes@[find_mode_from(brain.read_modes@, read_mode, 0)->0].allowed_regions@,
        ).contains(region),
        scope_allows(crate::adapter::scope_view(a.permitted_scope), region),
        !s.mutation_allowed,
{
    assert(texts(s.allowed_regions@).to_set().contains(region));
    assert(readable_regions(brain.region_map.regions@).contains(region));
}

/// A permitted scope only narrows what a binding allows: the allowed regions
/// under a scope are allowed without it, and lie within the scope.
pub proof fn lemma_scope_only_narrows(
    scope: Seq<Seq<char>>,
    brain: BrainPackage,
    mode: crate::package::ReadMode,
)
    ensures
        allowed_regions_for(Some(scope), brain, mode).subset_of(allowed_regions_for(None, brain, mode)),
        allowed_regions_for(Some(scope), brain, mode).subset_of(scope.to_set()),
{
}

/// When the substrate file reads the same bytes before and after the
/// traversal, the receipt certifies the substrate as unchanged.
pub proof fn lemma_unchanged_substrate_is_verified(
    t: DemoTraversal,
    r: TraversalResult,
    brain: BrainPackage,
    output: usize,
    logits_json: Seq<char>,
    before: PackageDisk,
    after: PackageDisk,
)
    requires
        before.substrate is Ok,
        t.brain_hash_before@ == file_hash(before.substrate)->Ok_0,
        finished(t, r, brain, output, logits_json, after),
        after.substrate is Ok,
        after.substrate->Ok_0@ == before.substrate->Ok_0@,
    ensures
        r.receipt.immutable_substrate_verified,
        r.receipt.brain_hash_before@ == r.receipt.brain_hash_after@,
{
}

/// A low-confidence traversal records exactly one expansion, and the delta's
/// hash commits to the working-body hashes the receipt reports before and
/// after; the working body ends with two columns and the expansion reason.
pub proof fn lemma_expansion_delta_links_receipt_hashes(
    t0: DemoTraversal,
    t1: DemoTraversal,
    r: TraversalResult,
    brain: BrainPackage,
    disk0: PackageDisk,
    output: usize,
    logits_json: Seq<char>,
    disk1: PackageDisk,
)
    requires
        started(t0, brain, disk0),
        noted(t0, t1, true),
        finished(t1, r, brain, output, logits_json, disk1),
    ensures
        texts(r.receipt.expansion_delta_hashes@) == seq![
            expansion_delta_hash(
                "capacity_rejection"@,
                r.receipt.working_body_before_hash@,
                r.receipt.working_body_after_hash@,
                Seq::empty(),
            ),
        ],
        r.receipt.working_body_after_hash@ == working_body_hash(
            2,
            seq![("expansion_reason"@, "capacity_rejection"@)],
        ),
{
    let old_state = entries(t0.working_body.state@);
    assert(old_state =~= Seq::empty());
    let p = choose|p: int|
        crate::working::insert_position(old_state, "expansion_reason"@, p)
            && entries(t1.working_body.state@) == crate::working::entries_after_insert(
            old_state,
            "expansion_reason"@,
            "capacity_rejection"@,
            p,
        );
    assert(p == 0);
    assert(entries(t1.working_body.state@) =~= seq![("expansion_reason"@, "capacity_rejection"@)]);
    assert(texts(t0.expansion_delta_hashes@) =~= Seq::empty());
    assert(texts(t1.expansion_delta_hashes@) =~= seq![
        expansion_delta_hash(
            "capacity_rejection"@,
            working_body_hash(1, Seq::empty()),
            working_body_hash(2, seq![("expansion_reason"@, "capacity_rejection"@)]),
            Seq::empty(),
        ),
    ]);
}

/// Without a capacity rejection the traversal expands nothing: no delta is
/// recorded and the working body's hash is the same before and after.
pub proof fn lemma_no_expansion_keeps_working_body(
    t0: DemoTraversal,
    t1: DemoTraversal,
    r: TraversalResult,
    brain: BrainPackage,
    disk0: PackageDisk,
    output: usize,
    logits_json: Seq<char>,
    disk1: PackageDisk,
)
    requires
        started(t0, brain, disk0),
        noted(t0, t1, false),
        finished(t1, r, brain, output, logits_json, disk1),
    ensures
        r.receipt.expansion_delta_hashes@.len() == 0,
        r.receipt.working_body_before_hash@ == r.receipt.working_body_after_hash@,
        r.receipt.output_claim_status@ == "proposal_only"@,
{
    assert(entries(t1.working_body.state@) =~= Seq::empty());
    assert(texts(r.receipt.expansion_delta_hashes@).len() == 0);
}

} // verus!

verus! {

/// Setting one key leaves the value found under any other key unchanged.
pub proof fn lemma_lookup_other_key_after_insert(
    es: Seq<(Seq<char>, Seq<char>)>,
    key: Seq<char>,
    value: Seq<char>,
    p: int,
    k: Seq<char>,
)
    requires
        key != k,
        0 <= p <= es.len(),
    ensures
        crate::arc::entry_lookup(crate::working::entries_after_insert(es, key, value, p), k)
            == crate::arc::entry_lookup(es, k),
    decreases p,
{
    let after = crate::working::entries_after_insert(es, key, value, p);
    if p == 0 {
        if es.len() > 0 && es[0].0 == key {
            assert(after.drop_first() =~= es.drop_first());
        } else {
            assert(after.drop_first() =~= es);
        }
    } else {
        let rest = es.drop_first();
        lemma_lookup_other_key_after_insert(rest, key, value, p - 1, k);
        assert(after[0] == es[0]);
        assert(after.drop_first() =~= crate::working::entries_after_insert(rest, key, value, p - 1));
    }
}

/// The engine changes no value except the one under the target of a granted
/// write: whatever a probe says, every other key keeps its value.
pub proof fn lemma_only_granted_write_changes_substrate(
    before: crate::arc::ArcPhysicsEngine,
    after: crate::arc::ArcPhysicsEngine,
    probe: crate::arc::Probe,
    r: crate::arc::Receipt,
    k: Seq<char>,
)
    requires
        crate::arc::adjudicated(before, after, probe, r),
        k != probe.target@ || !texts(before.allowed_write@).contains(k),
    ensures
        crate::arc::entry_lookup(entries(after.substrate@), k) == crate::arc::entry_lookup(
            entries(before.substrate@),
            k,
        ),
{
    if crate::arc::admits_write(before, probe) {
        let payload = match crate::arc::option_text(probe.payload) {
            Some(v) => v,
            None => Seq::empty(),
        };
        let p = choose|i: int|
            crate::working::insert_position(entries(before.substrate@), probe.target@, i)
                && entries(after.substrate@) == crate::working::entries_after_insert(
                entries(before.substrate@),
                probe.target@,
                payload,
                i,
            );
        lemma_lookup_other_key_after_insert(entries(before.substrate@), probe.target@, payload, p, k);
    } else {
        assert(entries(after.substrate@) =~= entries(before.substrate@));
    }
}

/// Starting from the engine at rest, no sequence of probes, however it is
/// argued, changes the locked core kernel: it still reads `INTEGRITY_LOCKED`
/// and the contract is unchanged.
pub proof fn lemma_core_kernel_stays_locked(
    engines: Seq<crate::arc::ArcPhysicsEngine>,
    probes: Seq<crate::arc::Probe>,
    receipts: Seq<crate::arc::Receipt>,
)
    requires
        engines.len() == probes.len() + 1,
        receipts.len() == probes.len(),
        entries(engines[0].substrate@) == seq![
            ("approved_zone"@, "empty"@),
            ("core_kernel"@, "INTEGRITY_LOCKED"@),
        ],
        texts(engines[0].allowed_write@) == seq!["approved_zone"@],
        forall|i: int|
            0 <= i < probes.len() ==> crate::arc::adjudicated(
                #[trigger] engines[i],
                engines[i + 1],
                probes[i],
                receipts[i],
            ),
    ensures
        crate::arc::entry_lookup(entries(engines.last().substrate@), "core_kernel"@) == Some(
            "INTEGRITY_LOCKED"@,
        ),
        texts(engines.last().allowed_write@) == seq!["approved_zone"@],
    decreases probes.len(),
{
    reveal_strlit("approved_zone");
    reveal_strlit("core_kernel");
    if probes.len() == 0 {
        let es = entries(engines[0].substrate@);
        assert(es[0].0 == "approved_zone"@);
        assert("approved_zone"@.len() != "core_kernel"@.len());
        assert(es[0].0 != "core_kernel"@);
        assert(es.drop_first() =~= seq![("core_kernel"@, "INTEGRITY_LOCKED"@)]);
        assert(crate::arc::entry_lookup(seq![("core_kernel"@, "INTEGRITY_LOCKED"@)], "core_kernel"@)
            == Some("INTEGRITY_LOCKED"@));
        assert(engines.last() == engines[0]);
    } else {
        let n = probes.len() - 1;
        lemma_core_kernel_stays_locked(engines.drop_last(), probes.drop_last(), receipts.drop_last());
        assert(engines.drop_last().last() == engines[n]);
        assert(crate::arc::adjudicated(engines[n], engines[n + 1], probes[n], receipts[n]));
        assert(!texts(engines[n].allowed_write@).contains("core_kernel"@)) by {
            if texts(engines[n].allowed_write@).contains("core_kernel"@) {
                let j = choose|j: int|
                    0 <= j < texts(engines[n].allowed_write@).len() && texts(
                        engines[n].allowed_write@,
                    )[j] == "core_kernel"@;
                assert(texts(engines[n].allowed_write@)[0] == "approved_zone"@);
            }
        }
        lemma_only_granted_write_changes_substrate(
            engines[n],
            engines[n + 1],
            probes[n],
            receipts[n],
            "core_kernel"@,
        );
        assert(texts(engines[n + 1].allowed_write@) == texts(engines[n].allowed_write@));
    }
}

/// A probe the engine does not admit leaves the substrate as it was: the
/// receipt's state hashes before and after agree.
pub proof fn lemma_refused_probe_keeps_state(
    before: crate::arc::ArcPhysicsEngine,
    after: crate::arc::ArcPhysicsEngine,
    probe: crate::arc::Probe,
    r: crate::arc::Receipt,
)
    requires
        crate::arc::adjudicated(before, after, probe, r),
        r.status@ != "ADMITTED"@,
    ensures
        after.substrate@ == before.substrate@,
        r.state_before_hash@ == r.state_after_hash@,
{
    assert(entries(after.substrate@) =~= entries(before.substrate@));
}

/// The engine decides by verb and target alone: probes that differ only in
/// narrative, intent or payload get the same verdict, effect, reason and
/// terminal flag.
pub proof fn lemma_narrative_does_not_sway_verdict(
    e: crate::arc::ArcPhysicsEngine,
    a1: crate::arc::ArcPhysicsEngine,
    a2: crate::arc::ArcPhysicsEngine,
    p1: crate::arc::Probe,
    p2: crate::arc::Probe,
    r1: crate::arc::Receipt,
    r2: crate::arc::Receipt,
)
    requires
        p1.verb@ == p2.verb@,
        p1.target@ == p2.target@,
        crate::arc::adjudicated(e, a1, p1, r1),
        crate::arc::adjudicated(e, a2, p2, r2),
    ensures
        r1.status@ == r2.status@,
        r1.state_effect@ == r2.state_effect@,
        crate::arc::option_text(r1.reason) == crate::arc::option_text(r2.reason),
        r1.terminal == r2.terminal,
{
}

} // verus!

verus! {

/// The probe hash a receipt carries, without its `arc_probe_` prefix.
pub open spec fn receipt_probe_digest(r: crate::arc::Receipt) -> Seq<char> {
    r.probe_hash@.skip(10)
}

/// A terminate probe ends the loop and is admitted; a receipt is terminal
/// exactly when its probe was a terminate, and a terminal receipt is always
/// an admission that changed nothing.
pub proof fn lemma_terminate_is_admitted(
    e: crate::arc::ArcPhysicsEngine,
    a: crate::arc::ArcPhysicsEngine,
    p: crate::arc::Probe,
    r: crate::arc::Receipt,
)
    requires
        crate::arc::adjudicated(e, a, p, r),
    ensures
        r.terminal <==> p.verb@ == "terminate"@,
        r.terminal ==> r.status@ == "ADMITTED"@,
        p.verb@ == "terminate"@ ==> {
            &&& r.status@ == "ADMITTED"@
            &&& r.terminal
            &&& r.reason is None
            &&& r.receipt_hash@ == "arc_rx_admitted_"@ + receipt_probe_digest(r)
            &&& r.evidence matches Some(crate::arc::Evidence::Terminal { terminal_reason })
                && terminal_reason@ == "goal_saturated"@
            &&& a.substrate@ == e.substrate@
        },
{
    reveal_strlit("terminate");
    reveal_strlit("inspect");
    reveal_strlit("write");
    reveal_strlit("read");
    reveal_strlit("request_resign");
    reveal_strlit("ADMITTED");
    reveal_strlit("admitted");
    reveal_strlit("arc_rx_");
    reveal_strlit("_");
    reveal_strlit("arc_rx_admitted_");
    reveal_strlit("arc_probe_");
    let h = crate::digest::short_hash(crate::arc::probe_json(p));
    assert(r.probe_hash@.skip(10) =~= h);
    if p.verb@ == "terminate"@ {
        assert(r.receipt_hash@ =~= "arc_rx_admitted_"@ + h);
    }
}

/// A read is admitted exactly when its target is granted for reading,
/// whatever the forbidden list holds; a refused read is denied with
/// `DENY_UNGRANTED_READ`. Either way the substrate is unchanged.
pub proof fn lemma_read_verdict(
    e: crate::arc::ArcPhysicsEngine,
    a: crate::arc::ArcPhysicsEngine,
    p: crate::arc::Probe,
    r: crate::arc::Receipt,
)
    requires
        crate::arc::adjudicated(e, a, p, r),
        p.verb@ == "read"@,
    ensures
        a.substrate@ == e.substrate@,
        !r.terminal,
        texts(e.allowed_read@).contains(p.target@) ==> {
            &&& r.status@ == "ADMITTED"@
            &&& r.reason is None
            &&& r.receipt_hash@ == "arc_rx_admitted_"@ + receipt_probe_digest(r)
            &&& r.evidence matches Some(crate::arc::Evidence::TargetValue { target_value })
                && crate::arc::option_text(target_value) == crate::arc::entry_lookup(
                entries(e.substrate@),
                p.target@,
            )
        },
        !texts(e.allowed_read@).contains(p.target@) ==> {
            &&& r.status@ == "DENIED"@
            &&& crate::arc::option_text(r.reason) == Some("DENY_UNGRANTED_READ: "@ + p.target@)
            &&& r.receipt_hash@ == "arc_rx_denied_"@ + receipt_probe_digest(r)
            &&& r.evidence is None
        },
{
    reveal_strlit("terminate");
    reveal_strlit("inspect");
    reveal_strlit("write");
    reveal_strlit("read");
    reveal_strlit("ADMITTED");
    reveal_strlit("DENIED");
    reveal_strlit("admitted");
    reveal_strlit("denied");
    reveal_strlit("arc_rx_");
    reveal_strlit("_");
    reveal_strlit("arc_rx_admitted_");
    reveal_strlit("arc_rx_denied_");
    reveal_strlit("arc_probe_");
    let h = crate::digest::short_hash(crate::arc::probe_json(p));
    assert(r.probe_hash@.skip(10) =~= h);
    if texts(e.allowed_read@).contains(p.target@) {
        assert(r.receipt_hash@ =~= "arc_rx_admitted_"@ + h);
    } else {
        assert(r.status@ == "DENIED"@);
        assert(crate::arc::lower_status("DENIED"@) == "denied"@);
        assert(r.receipt_hash@ == "arc_rx_"@ + "denied"@ + "_"@ + h);
        assert(r.receipt_hash@ =~= "arc_rx_denied_"@ + h);
    }
}

/// A write is admitted exactly when its target is granted for writing, and
/// then stores the payload (empty if none) under the target; otherwise a
/// forbidden target is denied and any other target needs new authority.
pub proof fn lemma_write_verdict(
    e: crate::arc::ArcPhysicsEngine,
    a: crate::arc::ArcPhysicsEngine,
    p: crate::arc::Probe,
    r: crate::arc::Receipt,
)
    requires
        crate::arc::adjudicated(e, a, p, r),
        p.verb@ == "write"@,
    ensures
        !r.terminal,
        r.evidence is None,
        texts(e.allowed_write@).contains(p.target@) ==> {
            &&& r.status@ == "ADMITTED"@
            &&& r.reason is None
            &&& r.state_effect@ == "Mutated "@ + p.target@
            &&& r.receipt_hash@ == "arc_rx_admitted_"@ + receipt_probe_digest(r)
            &&& crate::arc::entry_lookup(entries(a.substrate@), p.target@) == Some(
                match crate::arc::option_text(p.payload) {
                    Some(v) => v,
                    None => Seq::<char>::empty(),
                },
            )
        },
        !texts(e.allowed_write@).contains(p.target@) && texts(e.forbidden@).contains(p.target@)
            ==> {
            &&& r.status@ == "DENIED"@
            &&& crate::arc::option_text(r.reason) == Some("DENY_FORBIDDEN_TARGET: "@ + p.target@)
            &&& r.receipt_hash@ == "arc_rx_denied_"@ + receipt_probe_digest(r)
            &&& a.substrate@ == e.substrate@
        },
        !texts(e.allowed_write@).contains(p.target@) && !texts(e.forbidden@).contains(p.target@)
            ==> {
            &&& r.status@ == "REQUIRE_RESIGN"@
            &&& crate::arc::option_text(r.reason) == Some("TARGET_NOT_IN_CONTRACT: "@ + p.target@)
            &&& r.receipt_hash@ == "arc_rx_require_resign_"@ + receipt_probe_digest(r)
            &&& a.substrate@ == e.substrate@
        },
{
    reveal_strlit("terminate");
    reveal_strlit("inspect");
    reveal_strlit("write");
    reveal_strlit("read");
    reveal_strlit("ADMITTED");
    reveal_strlit("DENIED");
    reveal_strlit("REQUIRE_RESIGN");
    reveal_strlit("admitted");
    reveal_strlit("denied");
    reveal_strlit("require_resign");
    reveal_strlit("arc_rx_");
    reveal_strlit("_");
    reveal_strlit("arc_rx_admitted_");
    reveal_strlit("arc_rx_denied_");
    reveal_strlit("arc_rx_require_resign_");
    reveal_strlit("arc_probe_");
    let h = crate::digest::short_hash(crate::arc::probe_json(p));
    assert(r.probe_hash@.skip(10) =~= h);
    if texts(e.allowed_write@).contains(p.target@) {
        assert(r.receipt_hash@ =~= "arc_rx_admitted_"@ + h);
        let payload = match crate::arc::option_text(p.payload) {
            Some(v) => v,
            None => Seq::<char>::empty(),
        };
        let es = entries(e.substrate@);
        let i = choose|i: int|
            crate::working::insert_position(es, p.target@, i) && entries(a.substrate@)
                == crate::working::entries_after_insert(es, p.target@, payload, i);
        lemma_lookup_inserted_key(es, p.target@, payload, i);
    } else if texts(e.forbidden@).contains(p.target@) {
        assert(r.status@ == "DENIED"@);
        assert(crate::arc::lower_status("DENIED"@) == "denied"@);
        assert(r.receipt_hash@ == "arc_rx_"@ + "denied"@ + "_"@ + h);
        assert(r.receipt_hash@ =~= "arc_rx_denied_"@ + h);
    } else {
        assert(r.status@ == "REQUIRE_RESIGN"@);
        assert(crate::arc::lower_status("REQUIRE_RESIGN"@) == "require_resign"@);
        assert(r.receipt_hash@ == "arc_rx_"@ + "require_resign"@ + "_"@ + h);
        assert(r.receipt_hash@ =~= "arc_rx_require_resign_"@ + h);
    }
}

/// After setting `key` at its insert position, `key` is found with the new value.
pub proof fn lemma_lookup_inserted_key(
    es: Seq<(Seq<char>, Seq<char>)>,
    key: Seq<char>,
    value: Seq<char>,
    p: int,
)
    requires
        crate::working::insert_position(es, key, p),
    ensures
        crate::arc::entry_lookup(crate::working::entries_after_insert(es, key, value, p), key)
            == Some(value),
    decreases p,
{
    let after = crate::working::entries_after_insert(es, key, value, p);
    if p > 0 {
        let rest = es.drop_first();
        assert(crate::text::text_lt(es[0].0, key));
        assert(es[0].0 != key) by {
            crate::text::lemma_text_lt_irreflexive(key);
        }
        assert forall|j: int| 0 <= j < p - 1 implies crate::text::text_lt(#[trigger] rest[j].0, key) by {
            assert(rest[j] == es[j + 1]);
        }
        lemma_lookup_inserted_key(rest, key, value, p - 1);
        assert(after[0] == es[0]);
        assert(after.drop_first() =~= crate::working::entries_after_insert(rest, key, value, p - 1));
    }
}

/// The verdicts on the remaining verbs: a request for authority needs new
/// authority, an inspection of an inspectable target is admitted with the
/// contract as evidence, and anything else is denied as unknown. None of
/// them changes the substrate.
pub proof fn lemma_other_verdicts(
    e: crate::arc::ArcPhysicsEngine,
    a: crate::arc::ArcPhysicsEngine,
    p: crate::arc::Probe,
    r: crate::arc::Receipt,
)
    requires
        crate::arc::adjudicated(e, a, p, r),
        p.verb@ != "read"@,
        p.verb@ != "write"@,
        p.verb@ != "terminate"@,
    ensures
        a.substrate@ == e.substrate@,
        !r.terminal,
        p.verb@ == "request_resign"@ ==> {
            &&& r.status@ == "REQUIRE_RESIGN"@
            &&& crate::arc::option_text(r.reason) == Some(
                "REQUEST_NEW_AUTHORITY_FOR: "@ + p.target@,
            )
            &&& r.evidence is None
        },
        p.verb@ == "inspect"@ && texts(e.inspectable@).contains(p.target@) ==> {
            &&& r.status@ == "ADMITTED"@
            &&& r.reason is None
            &&& r.evidence matches Some(
                crate::arc::Evidence::Contract { allowed_write, allowed_read, forbidden },
            ) && texts(allowed_write@) == texts(e.allowed_write@) && texts(allowed_read@) == texts(
                e.allowed_read@,
            ) && texts(forbidden@) == texts(e.forbidden@)
        },
        !(p.verb@ == "inspect"@ && texts(e.inspectable@).contains(p.target@)) && p.verb@
            != "request_resign"@ ==> {
            &&& r.status@ == "DENIED"@
            &&& crate::arc::option_text(r.reason) == Some(
                "DENY_UNKNOWN_VERB_OR_TARGET: "@ + p.verb@ + ":"@ + p.target@,
            )
            &&& r.evidence is None
        },
        r.status@ == "ADMITTED"@ || r.status@ == "DENIED"@ || r.status@ == "REQUIRE_RESIGN"@,
{
    reveal_strlit("terminate");
    reveal_strlit("inspect");
    reveal_strlit("write");
    reveal_strlit("read");
    reveal_strlit("request_resign");
}

} // verus!

verus! {

/// `i` is the position of the first read mode called `id`.
pub open spec fn is_first_mode(modes: Seq<crate::package::ReadMode>, id: Seq<char>, i: int) -> bool {
    &&& 0 <= i < modes.len()
    &&& modes[i].read_mode_id@ == id
    &&& forall|j: int| 0 <= j < i ==> (#[trigger] modes[j]).read_mode_id@ != id
}

/// The search for a read mode finds the first mode with that id, and finds
/// nothing exactly when no mode has it.
pub proof fn lemma_find_mode_is_first(modes: Seq<crate::package::ReadMode>, id: Seq<char>, k: int)
    requires
        0 <= k,
        forall|j: int| 0 <= j < k && j < modes.len() ==> (#[trigger] modes[j]).read_mode_id@ != id,
    ensures
        find_mode_from(modes, id, k) matches Some(i) ==> is_first_mode(modes, id, i),
        find_mode_from(modes, id, k) is None ==> forall|j: int|
            0 <= j < modes.len() ==> (#[trigger] modes[j]).read_mode_id@ != id,
    decreases modes.len() - k,
{
    if k < modes.len() && modes[k].read_mode_id@ != id {
        lemma_find_mode_is_first(modes, id, k + 1);
    }
}

/// A successful bind means: the package verified, the adapter's ABI is both
/// listed by the manifest and declared by the package's ABI document, and
/// the read mode bound (the first one with the requested id) allows no
/// write-back, no gradient flow and no mutation.
pub proof fn lemma_bind_requires_readonly_mode_and_matching_abi(
    a: ReadOnlyProjectionAdapter,
    brain: BrainPackage,
    read_mode: Seq<char>,
    disk: PackageDisk,
)
    requires
        a.bind_error(brain, read_mode, disk) is None,
    ensures
        brain.verify_outcome(disk) is Ok,
        texts(brain.manifest.supported_adapter_abis@).contains(a.abi_id@),
        brain.adapter_abi.adapter_abi_id@ == a.abi_id@,
        exists|i: int|
            is_first_mode(brain.read_modes@, read_mode, i) && !brain.read_modes@[i].write_back_allowed
                && !brain.read_modes@[i].gradient_flow_allowed
                && !brain.read_modes@[i].mutation_allowed,
{
    lemma_find_mode_is_first(brain.read_modes@, read_mode, 0);
    let i = find_mode_from(brain.read_modes@, read_mode, 0)->0;
    assert(is_first_mode(brain.read_modes@, read_mode, i));
}

/// On a verified package, `bind` refuses a mismatched ABI (not listed by the
/// manifest, or not the one the ABI document declares), then an unknown read
/// mode, then a mode that allows write-back, gradient flow or mutation.
pub proof fn lemma_bind_refusals(
    a: ReadOnlyProjectionAdapter,
    brain: BrainPackage,
    read_mode: Seq<char>,
    disk: PackageDisk,
)
    requires
        brain.verify_outcome(disk) is Ok,
    ensures
        !texts(brain.manifest.supported_adapter_abis@).contains(a.abi_id@)
            || brain.adapter_abi.adapter_abi_id@ != a.abi_id@ ==> a.bind_error(
            brain,
            read_mode,
            disk,
        ) == Some("ADAPTER_ABI_MISMATCH"@),
        texts(brain.manifest.supported_adapter_abis@).contains(a.abi_id@)
            && brain.adapter_abi.adapter_abi_id@ == a.abi_id@ && (forall|j: int|
            0 <= j < brain.read_modes@.len() ==> (#[trigger] brain.read_modes@[j]).read_mode_id@
                != read_mode) ==> a.bind_error(brain, read_mode, disk) == Some("READ_REJECTED"@),
        forall|i: int|
            #![trigger is_first_mode(brain.read_modes@, read_mode, i)]
            texts(brain.manifest.supported_adapter_abis@).contains(a.abi_id@)
                && brain.adapter_abi.adapter_abi_id@ == a.abi_id@ && is_first_mode(
                brain.read_modes@,
                read_mode,
                i,
            ) && (brain.read_modes@[i].write_back_allowed
                || brain.read_modes@[i].gradient_flow_allowed
                || brain.read_modes@[i].mutation_allowed) ==> a.bind_error(brain, read_mode, disk)
                == Some("READ_MODE_NOT_READONLY"@),
{
    lemma_find_mode_is_first(brain.read_modes@, read_mode, 0);
    assert forall|i: int|
        #![trigger is_first_mode(brain.read_modes@, read_mode, i)]
        texts(brain.manifest.supported_adapter_abis@).contains(a.abi_id@)
            && brain.adapter_abi.adapter_abi_id@ == a.abi_id@ && is_first_mode(
            brain.read_modes@,
            read_mode,
            i,
        ) && (brain.read_modes@[i].write_back_allowed
            || brain.read_modes@[i].gradient_flow_allowed
            || brain.read_modes@[i].mutation_allowed) implies a.bind_error(brain, read_mode, disk)
        == Some("READ_MODE_NOT_READONLY"@) by {
        let found = find_mode_from(brain.read_modes@, read_mode, 0);
        assert(found is Some) by {
            if found is None {
                assert(brain.read_modes@[i].read_mode_id@ != read_mode);
            }
        }
        let k = found->0;
        assert(is_first_mode(brain.read_modes@, read_mode, k));
        if k < i {
            assert(brain.read_modes@[k].read_mode_id@ != read_mode);
        } else if k > i {
            assert(brain.read_modes@[i].read_mode_id@ != read_mode);
        }
    }
    if texts(brain.manifest.supported_adapter_abis@).contains(a.abi_id@)
        && brain.adapter_abi.adapter_abi_id@ == a.abi_id@ && (forall|j: int|
        0 <= j < brain.read_modes@.len() ==> (#[trigger] brain.read_modes@[j]).read_mode_id@
            != read_mode) {
        let found = find_mode_from(brain.read_modes@, read_mode, 0);
        if found is Some {
            let k = found->0;
            assert(is_first_mode(brain.read_modes@, read_mode, k));
        }
    }
}

/// Two packages that agree on everything `verify` reads except the
/// coordinate law, whose laws have the same set of top-level keys (or are
/// both not objects).
pub open spec fn differ_only_in_law_key_order(p1: BrainPackage, p2: BrainPackage) -> bool {
    &&& p1.manifest == p2.manifest
    &&& p1.region_map == p2.region_map
    &&& match (p1.coordinate_law.object_keys, p2.coordinate_law.object_keys) {
        (None, None) => true,
        (Some(k1), Some(k2)) => texts(k1@).to_set() == texts(k2@).to_set(),
        _ => false,
    }
}

/// The coordinate-law check asks only whether `schema` is a key: reordering
/// (or repeating) the keys never changes what `verify` answers.
pub proof fn lemma_verify_ignores_law_key_order(p1: BrainPackage, p2: BrainPackage, disk: PackageDisk)
    requires
        differ_only_in_law_key_order(p1, p2),
    ensures
        p1.verify_outcome(disk) == p2.verify_outcome(disk),
{
    match (p1.coordinate_law.object_keys, p2.coordinate_law.object_keys) {
        (Some(k1), Some(k2)) => {
            assert(texts(k1@).contains("schema"@) == texts(k1@).to_set().contains("schema"@));
            assert(texts(k2@).contains("schema"@) == texts(k2@).to_set().contains("schema"@));
        },
        _ => {},
    }
}

/// `verify` accepts only a coordinate law that is an object with a `schema`
/// key; and when that is the only thing that differs between two packages,
/// a law with a `schema` key passes wherever one did, while a law without it
/// is refused with `coordinate_law required`.
pub proof fn lemma_verify_schema_key(p1: BrainPackage, p2: BrainPackage, disk: PackageDisk)
    requires
        p1.manifest == p2.manifest,
        p1.region_map == p2.region_map,
        p1.verify_outcome(disk) is Ok,
    ensures
        p1.coordinate_law.object_keys matches Some(ks) && texts(ks@).contains("schema"@),
        (p2.coordinate_law.object_keys matches Some(ks) && texts(ks@).contains("schema"@))
            ==> p2.verify_outcome(disk) is Ok,
        !(p2.coordinate_law.object_keys matches Some(ks) && texts(ks@).contains("schema"@))
            ==> p2.verify_outcome(disk) == Err::<(), Seq<char>>("coordinate_law required"@),
{
}

} // verus!

verus! {

/// A package `verify` accepts has mutation forbidden by default, every hashed
/// file read and matching the manifest's `sha256:` hash, at least one probe
/// receipt and every one of them present, a coordinate law with a `schema`
/// key, and at least one declared region.
pub proof fn lemma_verified_package_passes_every_check(p: BrainPackage, disk: PackageDisk)
    requires
        p.verify_outcome(disk) is Ok,
    ensures
        p.manifest.mutation_default@ == "forbidden"@,
        disk.substrate matches Ok(b) && crate::digest::sha256_text(b@) == p.manifest.substrate_hash@,
        disk.coordinate_law matches Ok(b) && crate::digest::sha256_text(b@)
            == p.manifest.coordinate_law_hash@,
        disk.region_map matches Ok(b) && crate::digest::sha256_text(b@)
            == p.manifest.region_map_hash@,
        disk.read_modes matches Ok(b) && crate::digest::sha256_text(b@)
            == p.manifest.read_modes_hash@,
        disk.adapter_abi matches Ok(b) && crate::digest::sha256_text(b@)
            == p.manifest.adapter_abi_hash@,
        p.manifest.probe_receipts@.len() > 0,
        forall|i: int|
            0 <= i < p.manifest.probe_receipts@.len() ==> #[trigger] receipt_present(
                disk.probe_receipts_present@,
                i,
            ),
        p.coordinate_law.object_keys matches Some(ks) && texts(ks@).contains("schema"@),
        p.region_map.regions@.len() > 0,
{
    let n = p.manifest.probe_receipts@.len() as int;
    assert forall|i: int| 0 <= i < n implies #[trigger] receipt_present(
        disk.probe_receipts_present@,
        i,
    ) by {
        lemma_no_missing_receipt(disk.probe_receipts_present@, n, 0, i);
    }
}

proof fn lemma_no_missing_receipt(present: Seq<bool>, n: int, k: int, i: int)
    requires
        0 <= k <= i < n,
        crate::package::first_missing_receipt(present, n, k) is None,
    ensures
        receipt_present(present, i),
    decreases i - k,
{
    if k < i {
        lemma_no_missing_receipt(present, n, k + 1, i);
    }
}

/// A binding allows every region the package declares readable and not
/// writable, that the bound mode lists and that the adapter's scope permits.
pub proof fn lemma_binding_allows_every_permitted_region(
    a: ReadOnlyProjectionAdapter,
    s: BindingSession,
    brain: BrainPackage,
    read_mode: Seq<char>,
    disk: PackageDisk,
    i: int,
)
    requires
        a.bind_error(brain, read_mode, disk) is None,
        a.bound_session(s, brain, read_mode, disk),
        0 <= i < brain.region_map.regions@.len(),
        brain.region_map.regions@[i].readable,
        !brain.region_map.regions@[i].writable,
        texts(
            brain.read_modes@[find_mode_from(brain.read_modes@, read_mode, 0)->0].allowed_regions@,
        ).contains(brain.region_map.regions@[i].region_id@),
        scope_allows(crate::adapter::scope_view(a.permitted_scope), brain.region_map.regions@[i].region_id@),
    ensures
        texts(s.allowed_regions@).contains(brain.region_map.regions@[i].region_id@),
{
    let id = brain.region_map.regions@[i].region_id@;
    assert(brain.region_map.regions@[i].region_id@ == id);
    assert(readable_regions(brain.region_map.regions@).contains(id));
    assert(texts(s.allowed_regions@).to_set().contains(id));
}

/// A substrate lookup finds the values of the first entry with the id, and
/// nothing exactly when no entry has it.
pub proof fn lemma_substrate_lookup_is_first_match(
    substrate: Seq<crate::package::SubstrateRegion>,
    id: Seq<char>,
)
    ensures
        crate::adapter::substrate_lookup(substrate, id) is None <==> forall|j: int|
            0 <= j < substrate.len() ==> (#[trigger] substrate[j]).region_id@ != id,
        crate::adapter::substrate_lookup(substrate, id) matches Some(v) ==> exists|i: int|
            0 <= i < substrate.len() && substrate[i].region_id@ == id && substrate[i].values@ == v
                && forall|j: int| 0 <= j < i ==> (#[trigger] substrate[j]).region_id@ != id,
    decreases substrate.len(),
{
    if substrate.len() > 0 {
        let rest = substrate.drop_first();
        lemma_substrate_lookup_is_first_match(rest, id);
        if substrate[0].region_id@ != id {
            assert forall|j: int| 1 <= j < substrate.len() implies (#[trigger] substrate[j]).region_id@
                == rest[j - 1].region_id@ by {}
            if crate::adapter::substrate_lookup(substrate, id) is None {
                assert forall|j: int| 0 <= j < substrate.len() implies (#[trigger] substrate[j]).region_id@
                    != id by {
                    if j > 0 {
                        assert(substrate[j] == rest[j - 1]);
                    }
                }
            } else {
                let v = crate::adapter::substrate_lookup(substrate, id)->0;
                let k = choose|k: int|
                    0 <= k < rest.len() && rest[k].region_id@ == id && rest[k].values@ == v
                        && forall|j: int| 0 <= j < k ==> (#[trigger] rest[j]).region_id@ != id;
                assert(substrate[k + 1] == rest[k]);
                assert forall|j: int| 0 <= j < k + 1 implies (#[trigger] substrate[j]).region_id@
                    != id by {
                    if j > 0 {
                        assert(substrate[j] == rest[j - 1]);
                    }
                }
                assert(forall|j: int| 0 <= j < substrate.len() ==> (#[trigger] substrate[j]).region_id@
                    != id ==> true);
                assert(substrate[k + 1].region_id@ == id);
            }
        }
    }
}

} // verus!
