use vstd::prelude::*;

use crate::digest::{sha256_short, short_hash};
use crate::json::{json_quote, json_string, json_string_object};
use crate::text::{contains_text, same_text, texts};
use crate::working::{
    entries, entries_after_insert, insert_entry, insert_position, keys_sorted,
    push_json_string_object,
};

verus! {

/// A move the model proposes: a verb on a target, with an optional payload
/// and the story the model tells about it (which the engine ignores).
#[derive(Debug, Clone)]
pub struct Probe {
    pub verb: String,
    pub target: String,
    pub payload: Option<String>,
    pub narrative: String,
    pub intent: String,
}

/// The evidence a receipt may carry.
#[derive(Debug, Clone)]
pub enum Evidence {
    /// The contract surface: the granted writes and reads and the forbidden targets.
    Contract { allowed_write: Vec<String>, allowed_read: Vec<String>, forbidden: Vec<String> },
    /// The value a granted read found (none when the target holds nothing).
    TargetValue { target_value: Option<String> },
    /// Why the loop ended.
    Terminal { terminal_reason: String },
}

/// The engine's answer to a probe.
#[derive(Debug, Clone)]
pub struct Receipt {
    pub probe_hash: String,
    pub verb: String,
    pub target: String,
    pub state_before_hash: String,
    pub status: String,
    pub receipt_hash: String,
    pub state_effect: String,
    pub reason: Option<String>,
    pub evidence: Option<Evidence>,
    pub state_after_hash: String,
    pub terminal: bool,
}

/// The deterministic engine: a substrate of named values (kept in key order),
/// the log of every receipt, and the contract that decides what is admitted.
#[derive(Debug, Clone)]
pub struct ArcPhysicsEngine {
    pub substrate: Vec<(String, String)>,
    pub audit_log: Vec<Receipt>,
    pub allowed_write: Vec<String>,
    pub allowed_read: Vec<String>,
    pub inspectable: Vec<String>,
    pub forbidden: Vec<String>,
}

/// What the engine shows the model before each step.
#[derive(Debug, Clone)]
pub struct EngineEvidence {
    pub approved_zone_status: String,
    pub audit_log_len: usize,
}

/// An optional string by its view.
pub open spec fn option_text(o: Option<String>) -> Option<Seq<char>> {
    match o {
        Some(s) => Some(s@),
        None => None,
    }
}

/// An optional string as JSON: `null` or the quoted string.
pub open spec fn json_option_string(o: Option<Seq<char>>) -> Seq<char> {
    match o {
        Some(s) => json_quote(s),
        None => "null"@,
    }
}

/// The JSON text of a probe, as `serde_json` writes the struct.
pub open spec fn probe_json(p: Probe) -> Seq<char> {
    "{\"verb\":"@ + json_quote(p.verb@) + ",\"target\":"@ + json_quote(p.target@) + ",\"payload\":"@
        + json_option_string(option_text(p.payload)) + ",\"narrative\":"@ + json_quote(p.narrative@)
        + ",\"intent\":"@ + json_quote(p.intent@) + "}"@
}

/// The value of the first entry with the given key.
pub open spec fn entry_lookup(es: Seq<(Seq<char>, Seq<char>)>, key: Seq<char>) -> Option<Seq<char>>
    decreases es.len(),
{
    if es.len() == 0 {
        None
    } else if es[0].0 == key {
        Some(es[0].1)
    } else {
        entry_lookup(es.drop_first(), key)
    }
}

/// The short hash of the engine's substrate.
pub open spec fn state_hash(e: ArcPhysicsEngine) -> Seq<char> {
    short_hash(json_string_object(entries(e.substrate@)))
}

/// An inspection of an inspectable target.
pub open spec fn admits_inspect(e: ArcPhysicsEngine, p: Probe) -> bool {
    p.verb@ == "inspect"@ && texts(e.inspectable@).contains(p.target@)
}

/// A write to a granted target: the one move that changes the substrate.
pub open spec fn admits_write(e: ArcPhysicsEngine, p: Probe) -> bool {
    !admits_inspect(e, p) && p.verb@ == "write"@ && texts(e.allowed_write@).contains(p.target@)
}

/// A read of a granted target.
pub open spec fn admits_read(e: ArcPhysicsEngine, p: Probe) -> bool {
    !admits_inspect(e, p) && p.verb@ == "read"@ && texts(e.allowed_read@).contains(p.target@)
}

/// The engine's verdict on a probe.
pub open spec fn status_of(e: ArcPhysicsEngine, p: Probe) -> Seq<char> {
    let t = p.target@;
    if admits_inspect(e, p) {
        "ADMITTED"@
    } else if p.verb@ == "write"@ {
        if texts(e.allowed_write@).contains(t) {
            "ADMITTED"@
        } else if texts(e.forbidden@).contains(t) {
            "DENIED"@
        } else {
            "REQUIRE_RESIGN"@
        }
    } else if p.verb@ == "read"@ {
        if texts(e.allowed_read@).contains(t) {
            "ADMITTED"@
        } else {
            "DENIED"@
        }
    } else if p.verb@ == "request_resign"@ {
        "REQUIRE_RESIGN"@
    } else if p.verb@ == "terminate"@ {
        "ADMITTED"@
    } else {
        "DENIED"@
    }
}

/// What the receipt says happened to the substrate.
pub open spec fn effect_of(e: ArcPhysicsEngine, p: Probe) -> Seq<char> {
    let t = p.target@;
    if admits_inspect(e, p) {
        "No mutation. Contract evidence emitted."@
    } else if p.verb@ == "write"@ {
        if texts(e.allowed_write@).contains(t) {
            "Mutated "@ + t
        } else if texts(e.forbidden@).contains(t) {
            "None. Substrate preserved."@
        } else {
            "None. New signed authority required."@
        }
    } else if p.verb@ == "read"@ {
        if texts(e.allowed_read@).contains(t) {
            "No mutation. Read evidence emitted."@
        } else {
            "None. Substrate preserved."@
        }
    } else if p.verb@ == "request_resign"@ {
        "None. Request surfaced; no authority granted."@
    } else if p.verb@ == "terminate"@ {
        "No mutation. Goal saturated; loop terminated."@
    } else {
        "None. Substrate preserved."@
    }
}

/// Why a probe was not simply admitted.
pub open spec fn reason_of(e: ArcPhysicsEngine, p: Probe) -> Option<Seq<char>> {
    let t = p.target@;
    if admits_inspect(e, p) {
        None
    } else if p.verb@ == "write"@ {
        if texts(e.allowed_write@).contains(t) {
            None
        } else if texts(e.forbidden@).contains(t) {
            Some("DENY_FORBIDDEN_TARGET: "@ + t)
        } else {
            Some("TARGET_NOT_IN_CONTRACT: "@ + t)
        }
    } else if p.verb@ == "read"@ {
        if texts(e.allowed_read@).contains(t) {
            None
        } else {
            Some("DENY_UNGRANTED_READ: "@ + t)
        }
    } else if p.verb@ == "request_resign"@ {
        Some("REQUEST_NEW_AUTHORITY_FOR: "@ + t)
    } else if p.verb@ == "terminate"@ {
        None
    } else {
        Some("DENY_UNKNOWN_VERB_OR_TARGET: "@ + p.verb@ + ":"@ + t)
    }
}

/// Whether the probe ends the loop.
pub open spec fn is_terminal(e: ArcPhysicsEngine, p: Probe) -> bool {
    !admits_inspect(e, p) && p.verb@ == "terminate"@
}

/// The lower-case form of a verdict, as it appears in receipt hashes.
pub open spec fn lower_status(s: Seq<char>) -> Seq<char> {
    if s == "ADMITTED"@ {
        "admitted"@
    } else if s == "DENIED"@ {
        "denied"@
    } else {
        "require_resign"@
    }
}

/// The evidence a receipt carries for a probe.
pub open spec fn evidence_matches(ev: Option<Evidence>, e: ArcPhysicsEngine, p: Probe) -> bool {
    if admits_inspect(e, p) {
        ev matches Some(Evidence::Contract { allowed_write, allowed_read, forbidden })
            && texts(allowed_write@) == texts(e.allowed_write@) && texts(allowed_read@) == texts(
            e.allowed_read@,
        ) && texts(forbidden@) == texts(e.forbidden@)
    } else if admits_read(e, p) {
        ev matches Some(Evidence::TargetValue { target_value }) && option_text(target_value)
            == entry_lookup(entries(e.substrate@), p.target@)
    } else if is_terminal(e, p) {
        ev matches Some(Evidence::Terminal { terminal_reason }) && terminal_reason@
            == "goal_saturated"@
    } else {
        ev is None
    }
}

/// Two pieces of evidence that say the same.
pub open spec fn same_evidence(a: Option<Evidence>, b: Option<Evidence>) -> bool {
    match (a, b) {
        (None, None) => true,
        (
            Some(Evidence::Contract { allowed_write: w1, allowed_read: r1, forbidden: f1 }),
            Some(Evidence::Contract { allowed_write: w2, allowed_read: r2, forbidden: f2 }),
        ) => texts(w1@) == texts(w2@) && texts(r1@) == texts(r2@) && texts(f1@) == texts(f2@),
        (
            Some(Evidence::TargetValue { target_value: v1 }),
            Some(Evidence::TargetValue { target_value: v2 }),
        ) => option_text(v1) == option_text(v2),
        (
            Some(Evidence::Terminal { terminal_reason: r1 }),
            Some(Evidence::Terminal { terminal_reason: r2 }),
        ) => r1@ == r2@,
        _ => false,
    }
}

/// Two receipts that say the same.
pub open spec fn same_receipt(a: Receipt, b: Receipt) -> bool {
    &&& a.probe_hash@ == b.probe_hash@
    &&& a.verb@ == b.verb@
    &&& a.target@ == b.target@
    &&& a.state_before_hash@ == b.state_before_hash@
    &&& a.status@ == b.status@
    &&& a.receipt_hash@ == b.receipt_hash@
    &&& a.state_effect@ == b.state_effect@
    &&& option_text(a.reason) == option_text(b.reason)
    &&& same_evidence(a.evidence, b.evidence)
    &&& a.state_after_hash@ == b.state_after_hash@
    &&& a.terminal == b.terminal
}

/// The engine and receipt after adjudicating `p` on `before`.
pub open spec fn adjudicated(
    before: ArcPhysicsEngine,
    after: ArcPhysicsEngine,
    p: Probe,
    r: Receipt,
) -> bool {
    let h = short_hash(probe_json(p));
    let status = status_of(before, p);
    let payload = match option_text(p.payload) {
        Some(v) => v,
        None => Seq::empty(),
    };
    &&& r.probe_hash@ == "arc_probe_"@ + h
    &&& r.verb@ == p.verb@
    &&& r.target@ == p.target@
    &&& r.state_before_hash@ == state_hash(before)
    &&& r.status@ == status
    &&& r.receipt_hash@ == "arc_rx_"@ + lower_status(status) + "_"@ + h
    &&& r.state_effect@ == effect_of(before, p)
    &&& option_text(r.reason) == reason_of(before, p)
    &&& evidence_matches(r.evidence, before, p)
    &&& r.terminal == is_terminal(before, p)
    &&& r.state_after_hash@ == state_hash(after)
    &&& admits_write(before, p) ==> exists|i: int|
        insert_position(entries(before.substrate@), p.target@, i) && entries(after.substrate@)
            == entries_after_insert(entries(before.substrate@), p.target@, payload, i)
    &&& !admits_write(before, p) ==> after.substrate@ == before.substrate@
    &&& keys_sorted(entries(before.substrate@)) ==> keys_sorted(entries(after.substrate@))
    &&& after.allowed_write@ == before.allowed_write@
    &&& after.allowed_read@ == before.allowed_read@
    &&& after.inspectable@ == before.inspectable@
    &&& after.forbidden@ == before.forbidden@
    &&& after.audit_log@.len() == before.audit_log@.len() + 1
    &&& after.audit_log@.take(before.audit_log@.len() as int) == before.audit_log@
    &&& same_receipt(after.audit_log@.last(), r)
}

/// The UTF-8 encoding of a string that starts with an ASCII character starts
/// with that character's code.
proof fn lemma_first_byte_ascii(s: Seq<char>)
    requires
        s.len() > 0,
        (s[0] as u32) < 128,
    ensures
        vstd::utf8::encode_utf8(s).len() > 0,
        vstd::utf8::encode_utf8(s)[0] == (s[0] as u32) as u8,
{
    let v = s[0] as u32;
    assert((v & 0x7F) == v) by (bit_vector)
        requires
            v < 128,
    ;
    assert(vstd::utf8::encode_scalar(v) =~= seq![(v & 0x7F) as u8]);
}

/// `prefix` followed by `rest`.
fn joined(prefix: &str, rest: &str) -> (s: String)
    ensures
        s@ == prefix@ + rest@,
{
    let mut s = prefix.to_owned();
    s.append(rest);
    s
}

/// A copy of a list of strings.
fn copy_texts(v: &Vec<String>) -> (c: Vec<String>)
    ensures
        texts(c@) == texts(v@),
{
    let mut c: Vec<String> = Vec::new();
    let n = v.len();
    let mut i: usize = 0;
    while i < n
        invariant
            n == v@.len(),
            i <= n,
            texts(c@) == texts(v@).take(i as int),
        decreases n - i,
    {
        let ghost before = texts(c@);
        c.push(v[i].clone());
        assert(texts(c@) =~= before.push(v@[i as int]@));
        assert(texts(v@).take(i + 1) =~= texts(v@).take(i as int).push(v@[i as int]@));
        i = i + 1;
    }
    assert(texts(v@).take(n as int) =~= texts(v@));
    c
}

fn copy_option_text(o: &Option<String>) -> (c: Option<String>)
    ensures
        option_text(c) == option_text(*o),
{
    match o {
        Some(s) => Some(s.clone()),
        None => None,
    }
}

fn copy_evidence(ev: &Option<Evidence>) -> (c: Option<Evidence>)
    ensures
        same_evidence(c, *ev),
{
    match ev {
        None => None,
        Some(Evidence::Contract { allowed_write, allowed_read, forbidden }) => Some(
            Evidence::Contract {
                allowed_write: copy_texts(allowed_write),
                allowed_read: copy_texts(allowed_read),
                forbidden: copy_texts(forbidden),
            },
        ),
        Some(Evidence::TargetValue { target_value }) => Some(
            Evidence::TargetValue { target_value: copy_option_text(target_value) },
        ),
        Some(Evidence::Terminal { terminal_reason }) => Some(
            Evidence::Terminal { terminal_reason: terminal_reason.clone() },
        ),
    }
}

/// A copy of a receipt, for the audit log.
fn copy_receipt(r: &Receipt) -> (c: Receipt)
    ensures
        same_receipt(c, *r),
{
    Receipt {
        probe_hash: r.probe_hash.clone(),
        verb: r.verb.clone(),
        target: r.target.clone(),
        state_before_hash: r.state_before_hash.clone(),
        status: r.status.clone(),
        receipt_hash: r.receipt_hash.clone(),
        state_effect: r.state_effect.clone(),
        reason: copy_option_text(&r.reason),
        evidence: copy_evidence(&r.evidence),
        state_after_hash: r.state_after_hash.clone(),
        terminal: r.terminal,
    }
}

/// The value of the first entry with the given key.
fn lookup_entry(state: &Vec<(String, String)>, key: &str) -> (v: Option<String>)
    ensures
        option_text(v) == entry_lookup(entries(state@), key@),
{
    let ghost es = entries(state@);
    let n = state.len();
    let mut i: usize = 0;
    assert(es.skip(0) =~= es);
    while i < n
        invariant
            n == state@.len(),
            es == entries(state@),
            i <= n,
            entry_lookup(es, key@) == entry_lookup(es.skip(i as int), key@),
        decreases n - i,
    {
        assert(es.skip(i as int)[0] == es[i as int]);
        if same_text(state[i].0.as_str(), key) {
            return Some(state[i].1.clone());
        }
        assert(es.skip(i as int).drop_first() =~= es.skip(i + 1));
        i = i + 1;
    }
    None
}

/// The JSON text of a probe.
fn probe_json_text(p: &Probe) -> (json: String)
    ensures
        json@ == probe_json(*p),
{
    let mut json = "{\"verb\":".to_owned();
    json.append(json_string(p.verb.as_str()).as_str());
    json.append(",\"target\":");
    json.append(json_string(p.target.as_str()).as_str());
    json.append(",\"payload\":");
    match &p.payload {
        Some(v) => json.append(json_string(v.as_str()).as_str()),
        None => json.append("null"),
    }
    json.append(",\"narrative\":");
    json.append(json_string(p.narrative.as_str()).as_str());
    json.append(",\"intent\":");
    json.append(json_string(p.intent.as_str()).as_str());
    json.append("}");
    json
}

/// The short hash of a substrate.
fn substrate_hash(state: &Vec<(String, String)>) -> (h: String)
    ensures
        h@ == short_hash(json_string_object(entries(state@))),
{
    let mut json = String::new();
    push_json_string_object(&mut json, state);
    assert(json@ =~= json_string_object(entries(state@)));
    sha256_short(json.as_str())
}

impl ArcPhysicsEngine {
    /// The engine at rest: the core kernel locked, the approved zone empty,
    /// writes and reads granted on the approved zone only, the contract
    /// inspectable, the core kernel forbidden.
    pub fn new() -> (e: Self)
        ensures
            entries(e.substrate@) == seq![
                ("approved_zone"@, "empty"@),
                ("core_kernel"@, "INTEGRITY_LOCKED"@),
            ],
            keys_sorted(entries(e.substrate@)),
            e.audit_log@.len() == 0,
            texts(e.allowed_write@) == seq!["approved_zone"@],
            texts(e.allowed_read@) == seq!["approved_zone"@],
            texts(e.inspectable@) == seq!["contract"@],
            texts(e.forbidden@) == seq!["core_kernel"@],
    {
        let mut substrate: Vec<(String, String)> = Vec::new();
        insert_entry(&mut substrate, "core_kernel".to_owned(), "INTEGRITY_LOCKED".to_owned());
        insert_entry(&mut substrate, "approved_zone".to_owned(), "empty".to_owned());
        proof {
            reveal_strlit("approved_zone");
            reveal_strlit("core_kernel");
            lemma_first_byte_ascii("approved_zone"@);
            lemma_first_byte_ascii("core_kernel"@);
            assert(crate::text::text_lt("approved_zone"@, "core_kernel"@));
            let es = entries(substrate@);
            assert(es.len() == 2);
            assert(es[0] == ("approved_zone"@, "empty"@));
            assert(es =~= seq![("approved_zone"@, "empty"@), ("core_kernel"@, "INTEGRITY_LOCKED"@)]);
        }
        let mut allowed_write = Vec::new();
        allowed_write.push("approved_zone".to_owned());
        let mut allowed_read = Vec::new();
        allowed_read.push("approved_zone".to_owned());
        let mut inspectable = Vec::new();
        inspectable.push("contract".to_owned());
        let mut forbidden = Vec::new();
        forbidden.push("core_kernel".to_owned());
        let e = ArcPhysicsEngine {
            substrate,
            audit_log: Vec::new(),
            allowed_write,
            allowed_read,
            inspectable,
            forbidden,
        };
        assert(texts(e.allowed_write@) =~= seq!["approved_zone"@]);
        assert(texts(e.allowed_read@) =~= seq!["approved_zone"@]);
        assert(texts(e.inspectable@) =~= seq!["contract"@]);
        assert(texts(e.forbidden@) =~= seq!["core_kernel"@]);
        e
    }

    /// What the model sees: the approved zone's value (`missing` if absent)
    /// and how many receipts the log holds.
    pub fn emit_evidence(&self) -> (ev: EngineEvidence)
        ensures
            ev.approved_zone_status@ == match entry_lookup(
                entries(self.substrate@),
                "approved_zone"@,
            ) {
                Some(v) => v,
                None => "missing"@,
            },
            ev.audit_log_len == self.audit_log@.len(),
    {
        let status = match lookup_entry(&self.substrate, "approved_zone") {
            Some(v) => v,
            None => "missing".to_owned(),
        };
        EngineEvidence { approved_zone_status: status, audit_log_len: self.audit_log.len() }
    }

    /// Decides a probe by the contract alone, applies a granted write, and
    /// returns the receipt (also appended to the audit log).
    pub fn adjudicate_probe(&mut self, probe: &Probe) -> (r: Receipt)
        ensures
            adjudicated(*old(self), *final(self), *probe, r),
    {
        let ghost before = *self;
        proof {
            reveal_strlit("inspect");
            reveal_strlit("write");
            reveal_strlit("read");
            reveal_strlit("request_resign");
            reveal_strlit("terminate");
            reveal_strlit("ADMITTED");
            reveal_strlit("DENIED");
            reveal_strlit("REQUIRE_RESIGN");
        }
        let h = sha256_short(probe_json_text(probe).as_str());
        let state_before_hash = substrate_hash(&self.substrate);
        let verb = probe.verb.as_str();
        let target = probe.target.as_str();
        let status: String;
        let lower: &str;
        let effect: String;
        let mut reason: Option<String> = None;
        let mut evidence: Option<Evidence> = None;
        let mut terminal = false;
        if same_text(verb, "inspect") && contains_text(&self.inspectable, target) {
            status = "ADMITTED".to_owned();
            lower = "admitted";
            effect = "No mutation. Contract evidence emitted.".to_owned();
            evidence = Some(
                Evidence::Contract {
                    allowed_write: copy_texts(&self.allowed_write),
                    allowed_read: copy_texts(&self.allowed_read),
                    forbidden: copy_texts(&self.forbidden),
                },
            );
        } else if same_text(verb, "write") {
            if contains_text(&self.allowed_write, target) {
                let value = match &probe.payload {
                    Some(v) => v.clone(),
                    None => String::new(),
                };
                insert_entry(&mut self.substrate, probe.target.clone(), value);
                status = "ADMITTED".to_owned();
                lower = "admitted";
                effect = joined("Mutated ", target);
            } else if contains_text(&self.forbidden, target) {
                status = "DENIED".to_owned();
                lower = "denied";
                effect = "None. Substrate preserved.".to_owned();
                reason = Some(joined("DENY_FORBIDDEN_TARGET: ", target));
            } else {
                status = "REQUIRE_RESIGN".to_owned();
                lower = "require_resign";
                effect = "None. New signed authority required.".to_owned();
                reason = Some(joined("TARGET_NOT_IN_CONTRACT: ", target));
            }
        } else if same_text(verb, "read") {
            if contains_text(&self.allowed_read, target) {
                status = "ADMITTED".to_owned();
                lower = "admitted";
                effect = "No mutation. Read evidence emitted.".to_owned();
                evidence = Some(
                    Evidence::TargetValue { target_value: lookup_entry(&self.substrate, target) },
                );
            } else {
                status = "DENIED".to_owned();
                lower = "denied";
                effect = "None. Substrate preserved.".to_owned();
                reason = Some(joined("DENY_UNGRANTED_READ: ", target));
            }
        } else if same_text(verb, "request_resign") {
            status = "REQUIRE_RESIGN".to_owned();
            lower = "require_resign";
            effect = "None. Request surfaced; no authority granted.".to_owned();
            reason = Some(joined("REQUEST_NEW_AUTHORITY_FOR: ", target));
        } else if same_text(verb, "terminate") {
            status = "ADMITTED".to_owned();
            lower = "admitted";
            effect = "No mutation. Goal saturated; loop terminated.".to_owned();
            evidence = Some(Evidence::Terminal { terminal_reason: "goal_saturated".to_owned() });
            terminal = true;
        } else {
            status = "DENIED".to_owned();
            lower = "denied";
            effect = "None. Substrate preserved.".to_owned();
            let mut why = joined("DENY_UNKNOWN_VERB_OR_TARGET: ", verb);
            why.append(":");
            why.append(target);
            reason = Some(why);
        }
        assert(status@ == status_of(before, *probe));
        assert(lower@ == lower_status(status@));
        let mut receipt_hash = joined("arc_rx_", lower);
        receipt_hash.append("_");
        receipt_hash.append(h.as_str());
        let state_after_hash = substrate_hash(&self.substrate);
        let receipt = Receipt {
            probe_hash: joined("arc_probe_", h.as_str()),
            verb: probe.verb.clone(),
            target: probe.target.clone(),
            state_before_hash,
            status,
            receipt_hash,
            state_effect: effect,
            reason,
            evidence,
            state_after_hash,
            terminal,
        };
        self.audit_log.push(copy_receipt(&receipt));
        assert(self.audit_log@.take(before.audit_log@.len() as int) =~= before.audit_log@);
        receipt
    }
}

} // verus!

verus! {

/// How many times `s` occurs in `statuses`.
pub open spec fn status_count(statuses: Seq<Seq<char>>, s: Seq<char>) -> nat
    decreases statuses.len(),
{
    if statuses.len() == 0 {
        0
    } else {
        status_count(statuses.drop_last(), s) + if statuses.last() == s {
            1nat
        } else {
            0nat
        }
    }
}

/// `h` counts `statuses`: one entry per distinct status, in increasing order
/// of status, each with its number of occurrences.
pub open spec fn is_histogram(h: Seq<(Seq<char>, nat)>, statuses: Seq<Seq<char>>) -> bool {
    &&& forall|i: int, j: int|
        0 <= i < j < h.len() ==> crate::text::text_lt(#[trigger] h[i].0, #[trigger] h[j].0)
    &&& forall|i: int| 0 <= i < h.len() ==> #[trigger] h[i].1 == status_count(statuses, h[i].0)
    &&& forall|s: Seq<char>|
        statuses.contains(s) <==> exists|i: int| 0 <= i < h.len() && #[trigger] h[i].0 == s
}

/// A histogram by its views.
pub open spec fn histogram_view(h: Seq<(String, usize)>) -> Seq<(Seq<char>, nat)> {
    h.map_values(|e: (String, usize)| (e.0@, e.1 as nat))
}

proof fn lemma_count_le_len(statuses: Seq<Seq<char>>, s: Seq<char>)
    ensures
        status_count(statuses, s) <= statuses.len(),
    decreases statuses.len(),
{
    if statuses.len() > 0 {
        lemma_count_le_len(statuses.drop_last(), s);
    }
}

/// Counts how many steps ended with each status, in increasing status order.
pub fn status_histogram(statuses: &Vec<String>) -> (h: Vec<(String, usize)>)
    ensures
        is_histogram(histogram_view(h@), texts(statuses@)),
{
    let ghost all = texts(statuses@);
    let mut h: Vec<(String, usize)> = Vec::new();
    let n = statuses.len();
    let mut i: usize = 0;
    while i < n
        invariant
            n == statuses@.len(),
            all == texts(statuses@),
            i <= n,
            is_histogram(histogram_view(h@), all.take(i as int)),
        decreases n - i,
    {
        let s = &statuses[i];
        let ghost seen = all.take(i as int);
        let ghost next = all.take(i + 1);
        assert(next.drop_last() =~= seen);
        assert(next.last() == s@);
        let ghost hv = histogram_view(h@);
        let m = h.len();
        let mut p: usize = 0;
        while p < m
            invariant
                m == h@.len(),
                hv == histogram_view(h@),
                p <= m,
                forall|j: int| 0 <= j < p ==> crate::text::text_lt(#[trigger] hv[j].0, s@),
            ensures
                p <= m,
                forall|j: int| 0 <= j < p ==> crate::text::text_lt(#[trigger] hv[j].0, s@),
                p < m ==> (hv[p as int].0 == s@ || crate::text::text_lt(s@, hv[p as int].0)),
            decreases m - p,
        {
            assert(hv[p as int].0 == h@[p as int].0@);
            match crate::text::compare_text(h[p].0.as_str(), s.as_str()) {
                crate::text::TextOrder::Less => {},
                _ => {
                    break;
                },
            }
            p = p + 1;
        }
        proof {
            lemma_count_le_len(seen, s@);
            assert forall|t: Seq<char>| t != s@ implies status_count(next, t) == status_count(seen, t) by {}
            assert(status_count(next, s@) == status_count(seen, s@) + 1);
        }
        if p < m && crate::text::same_text(h[p].0.as_str(), s.as_str()) {
            let c = h[p].1;
            assert(hv[p as int].1 == status_count(seen, s@));
            let key = h[p].0.clone();
            h.set(p, (key, c + 1));
            proof {
                let nv = histogram_view(h@);
                assert(nv =~= hv.update(p as int, (s@, (c + 1) as nat)));
                assert forall|a: int, b: int| 0 <= a < b < nv.len() implies crate::text::text_lt(
                    #[trigger] nv[a].0,
                    #[trigger] nv[b].0,
                ) by {
                    assert(nv[a].0 == hv[a].0);
                    assert(nv[b].0 == hv[b].0);
                }
                assert forall|j: int| 0 <= j < nv.len() implies #[trigger] nv[j].1 == status_count(
                    next,
                    nv[j].0,
                ) by {
                    if j != p {
                        assert(nv[j] == hv[j]);
                        assert(hv[j].0 != s@) by {
                            if hv[j].0 == s@ {
                                crate::text::lemma_text_lt_irreflexive(s@);
                            }
                        }
                    }
                }
                assert forall|x: Seq<char>|
                    next.contains(x) <==> exists|j: int| 0 <= j < nv.len() && #[trigger] nv[j].0 == x by {
                    if x == s@ {
                        assert(nv[p as int].0 == x);
                        assert(next[i as int] == x);
                    }
                    if next.contains(x) && x != s@ {
                        let k = choose|k: int| 0 <= k < next.len() && next[k] == x;
                        assert(seen[k] == x);
                        assert(seen.contains(x));
                        let j = choose|j: int| 0 <= j < hv.len() && #[trigger] hv[j].0 == x;
                        assert(nv[j].0 == x);
                    }
                    if exists|j: int| 0 <= j < nv.len() && #[trigger] nv[j].0 == x {
                        let j = choose|j: int| 0 <= j < nv.len() && #[trigger] nv[j].0 == x;
                        if x == s@ {
                            assert(next[i as int] == x);
                        } else {
                            assert(hv[j].0 == x);
                            assert(seen.contains(x));
                            let k = choose|k: int| 0 <= k < seen.len() && seen[k] == x;
                            assert(next[k] == x);
                        }
                    }
                }
            }
        } else {
            let ghost hv_old = hv;
            h.insert(p, (s.clone(), 1));
            proof {
                let nv = histogram_view(h@);
                assert(nv =~= hv.insert(p as int, (s@, 1nat)));
                assert(!seen.contains(s@)) by {
                    if seen.contains(s@) {
                        let j = choose|j: int| 0 <= j < hv.len() && #[trigger] hv[j].0 == s@;
                        if j < p {
                            crate::text::lemma_text_lt_irreflexive(s@);
                        } else if j > p {
                            crate::text::lemma_text_lt_transitive(s@, hv[p as int].0, hv[j].0);
                            crate::text::lemma_text_lt_irreflexive(s@);
                        }
                    }
                }
                assert(status_count(seen, s@) == 0) by {
                    lemma_count_zero_when_absent(seen, s@);
                }
                assert forall|c: int| p <= c < m implies crate::text::text_lt(s@, #[trigger] hv[c].0) by {
                    if c > p {
                        crate::text::lemma_text_lt_transitive(s@, hv[p as int].0, hv[c].0);
                    }
                }
                assert forall|a: int, b: int| 0 <= a < b < nv.len() implies crate::text::text_lt(
                    #[trigger] nv[a].0,
                    #[trigger] nv[b].0,
                ) by {
                    if b < p {
                    } else if a < p && b == p {
                    } else if a < p {
                        assert(nv[b].0 == hv[b - 1].0);
                        crate::text::lemma_text_lt_transitive(nv[a].0, s@, nv[b].0);
                    } else if a == p {
                        assert(nv[b].0 == hv[b - 1].0);
                    } else {
                        assert(nv[a].0 == hv[a - 1].0);
                        assert(nv[b].0 == hv[b - 1].0);
                    }
                }
                assert forall|j: int| 0 <= j < nv.len() implies #[trigger] nv[j].1 == status_count(
                    next,
                    nv[j].0,
                ) by {
                    if j < p {
                        assert(nv[j] == hv[j]);
                        assert(hv[j].0 != s@) by {
                            crate::text::lemma_text_lt_irreflexive(s@);
                        }
                    } else if j > p {
                        assert(nv[j] == hv[j - 1]);
                        assert(hv[j - 1].0 != s@) by {
                            crate::text::lemma_text_lt_irreflexive(s@);
                        }
                    }
                }
                assert forall|x: Seq<char>|
                    next.contains(x) <==> exists|j: int| 0 <= j < nv.len() && #[trigger] nv[j].0 == x by {
                    if next.contains(x) {
                        if x == s@ {
                            assert(nv[p as int].0 == x);
                        } else {
                            let k = choose|k: int| 0 <= k < next.len() && next[k] == x;
                            assert(seen[k] == x);
                            assert(seen.contains(x));
                            let j = choose|j: int| 0 <= j < hv.len() && #[trigger] hv[j].0 == x;
                            if j < p {
                                assert(nv[j].0 == x);
                            } else {
                                assert(nv[j + 1].0 == x);
                            }
                        }
                    }
                    if exists|j: int| 0 <= j < nv.len() && #[trigger] nv[j].0 == x {
                        let j = choose|j: int| 0 <= j < nv.len() && #[trigger] nv[j].0 == x;
                        if j == p {
                            assert(next[i as int] == x);
                        } else {
                            let jj = if j < p { j } else { j - 1 };
                            assert(hv[jj].0 == x);
                            assert(seen.contains(x));
                            let k = choose|k: int| 0 <= k < seen.len() && seen[k] == x;
                            assert(next[k] == x);
                        }
                    }
                }
            }
        }
        i = i + 1;
    }
    assert(all.take(n as int) =~= all);
    h
}

proof fn lemma_count_zero_when_absent(statuses: Seq<Seq<char>>, s: Seq<char>)
    requires
        !statuses.contains(s),
    ensures
        status_count(statuses, s) == 0,
    decreases statuses.len(),
{
    if statuses.len() > 0 {
        assert(!statuses.drop_last().contains(s)) by {
            if statuses.drop_last().contains(s) {
                let k = choose|k: int| 0 <= k < statuses.drop_last().len() && statuses.drop_last()[k] == s;
                assert(statuses[k] == s);
            }
        }
        lemma_count_zero_when_absent(statuses.drop_last(), s);
        assert(statuses[statuses.len() - 1] != s);
    }
}

} // verus!
