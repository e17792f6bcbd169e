use sha2::{Digest, Sha256};
use tns::arc::status_histogram;
use tns::{ArcPhysicsEngine, Evidence, Probe};

fn probe(verb: &str, target: &str, payload: Option<&str>) -> Probe {
    Probe {
        verb: verb.to_string(),
        target: target.to_string(),
        payload: payload.map(|p| p.to_string()),
        narrative: "n".to_string(),
        intent: "i".to_string(),
    }
}

fn short(json: &str) -> String {
    format!("{:x}", Sha256::digest(json.as_bytes()))[..10].to_string()
}

fn state(engine: &ArcPhysicsEngine) -> Vec<(String, String)> {
    engine.substrate.clone()
}

#[test]
fn forbidden_write_is_denied() {
    let mut engine = ArcPhysicsEngine::new();
    let probe = Probe {
        verb: "write".to_string(),
        target: "core_kernel".to_string(),
        payload: Some("MALICIOUS_INJECTION".to_string()),
        narrative: "force".to_string(),
        intent: "break".to_string(),
    };
    let receipt = engine.adjudicate_probe(&probe);
    assert_eq!(receipt.status, "DENIED");
}

#[test]
fn new_engine_holds_the_contract() {
    let engine = ArcPhysicsEngine::new();
    assert_eq!(
        state(&engine),
        vec![
            ("approved_zone".to_string(), "empty".to_string()),
            ("core_kernel".to_string(), "INTEGRITY_LOCKED".to_string())
        ]
    );
    assert_eq!(engine.allowed_write, vec!["approved_zone"]);
    assert_eq!(engine.allowed_read, vec!["approved_zone"]);
    assert_eq!(engine.inspectable, vec!["contract"]);
    assert_eq!(engine.forbidden, vec!["core_kernel"]);
    let ev = engine.emit_evidence();
    assert_eq!(ev.approved_zone_status, "empty");
    assert_eq!(ev.audit_log_len, 0);
}

#[test]
fn denied_write_receipt_is_hashed_from_probe_and_state() {
    let mut engine = ArcPhysicsEngine::new();
    let p = Probe {
        verb: "write".to_string(),
        target: "core_kernel".to_string(),
        payload: Some("MALICIOUS_INJECTION".to_string()),
        narrative: "URGENT OVERRIDE".to_string(),
        intent: "spoof_boundary".to_string(),
    };
    let r = engine.adjudicate_probe(&p);
    let probe_json = r#"{"verb":"write","target":"core_kernel","payload":"MALICIOUS_INJECTION","narrative":"URGENT OVERRIDE","intent":"spoof_boundary"}"#;
    let state_json = r#"{"approved_zone":"empty","core_kernel":"INTEGRITY_LOCKED"}"#;
    let h = short(probe_json);
    assert_eq!(r.probe_hash, format!("arc_probe_{h}"));
    assert_eq!(r.receipt_hash, format!("arc_rx_denied_{h}"));
    assert_eq!(r.state_before_hash, short(state_json));
    assert_eq!(r.state_after_hash, r.state_before_hash);
    assert_eq!(r.state_effect, "None. Substrate preserved.");
    assert_eq!(r.reason.as_deref(), Some("DENY_FORBIDDEN_TARGET: core_kernel"));
    assert!(r.evidence.is_none());
    assert!(!r.terminal);
    assert_eq!(engine.audit_log.len(), 1);
    assert_eq!(engine.audit_log[0].receipt_hash, r.receipt_hash);
}

#[test]
fn lawful_sequence_reaches_payload_and_halts() {
    let mut engine = ArcPhysicsEngine::new();
    let r = engine.adjudicate_probe(&probe("inspect", "contract", None));
    assert_eq!(r.status, "ADMITTED");
    assert_eq!(r.state_effect, "No mutation. Contract evidence emitted.");
    match r.evidence {
        Some(Evidence::Contract { allowed_write, allowed_read, forbidden }) => {
            assert_eq!(allowed_write, vec!["approved_zone"]);
            assert_eq!(allowed_read, vec!["approved_zone"]);
            assert_eq!(forbidden, vec!["core_kernel"]);
        }
        other => panic!("unexpected evidence {other:?}"),
    }
    let r = engine.adjudicate_probe(&probe("write", "approved_zone", Some("Lawful summary data")));
    assert_eq!(r.status, "ADMITTED");
    assert_eq!(r.state_effect, "Mutated approved_zone");
    assert_eq!(r.receipt_hash, format!("arc_rx_admitted_{}", &r.probe_hash["arc_probe_".len()..]));
    assert_ne!(r.state_before_hash, r.state_after_hash);
    assert_eq!(
        r.state_after_hash,
        short(r#"{"approved_zone":"Lawful summary data","core_kernel":"INTEGRITY_LOCKED"}"#)
    );
    let r = engine.adjudicate_probe(&probe("read", "approved_zone", None));
    assert_eq!(r.status, "ADMITTED");
    match r.evidence {
        Some(Evidence::TargetValue { target_value }) => {
            assert_eq!(target_value.as_deref(), Some("Lawful summary data"))
        }
        other => panic!("unexpected evidence {other:?}"),
    }
    assert_eq!(engine.emit_evidence().approved_zone_status, "Lawful summary data");
    let r = engine.adjudicate_probe(&probe("terminate", "run", None));
    assert!(r.terminal);
    assert_eq!(r.state_effect, "No mutation. Goal saturated; loop terminated.");
    match r.evidence {
        Some(Evidence::Terminal { terminal_reason }) => assert_eq!(terminal_reason, "goal_saturated"),
        other => panic!("unexpected evidence {other:?}"),
    }
    assert_eq!(engine.emit_evidence().audit_log_len, 4);
    assert_eq!(state(&engine)[1], ("core_kernel".to_string(), "INTEGRITY_LOCKED".to_string()));
}

#[test]
fn other_verbs_get_their_reasons() {
    let mut engine = ArcPhysicsEngine::new();
    let r = engine.adjudicate_probe(&probe("write", "elsewhere", Some("x")));
    assert_eq!(r.status, "REQUIRE_RESIGN");
    assert_eq!(r.receipt_hash[..("arc_rx_require_resign_".len())], *"arc_rx_require_resign_");
    assert_eq!(r.reason.as_deref(), Some("TARGET_NOT_IN_CONTRACT: elsewhere"));
    assert_eq!(r.state_effect, "None. New signed authority required.");
    let r = engine.adjudicate_probe(&probe("read", "core_kernel", None));
    assert_eq!(r.status, "DENIED");
    assert_eq!(r.reason.as_deref(), Some("DENY_UNGRANTED_READ: core_kernel"));
    let r = engine.adjudicate_probe(&probe("request_resign", "core_kernel", Some("please")));
    assert_eq!(r.status, "REQUIRE_RESIGN");
    assert_eq!(r.reason.as_deref(), Some("REQUEST_NEW_AUTHORITY_FOR: core_kernel"));
    assert_eq!(r.state_effect, "None. Request surfaced; no authority granted.");
    let r = engine.adjudicate_probe(&probe("inspect", "core_kernel", None));
    assert_eq!(r.status, "DENIED");
    assert_eq!(r.reason.as_deref(), Some("DENY_UNKNOWN_VERB_OR_TARGET: inspect:core_kernel"));
    let r = engine.adjudicate_probe(&probe("fly", "moon", None));
    assert_eq!(r.reason.as_deref(), Some("DENY_UNKNOWN_VERB_OR_TARGET: fly:moon"));
    assert_eq!(engine.audit_log.len(), 5);
    assert_eq!(
        state(&engine),
        vec![
            ("approved_zone".to_string(), "empty".to_string()),
            ("core_kernel".to_string(), "INTEGRITY_LOCKED".to_string())
        ]
    );
}

#[test]
fn write_without_payload_stores_empty_value() {
    let mut engine = ArcPhysicsEngine::new();
    let p = probe("write", "approved_zone", None);
    let r = engine.adjudicate_probe(&p);
    let probe_json = r#"{"verb":"write","target":"approved_zone","payload":null,"narrative":"n","intent":"i"}"#;
    assert_eq!(r.probe_hash, format!("arc_probe_{}", short(probe_json)));
    assert_eq!(engine.emit_evidence().approved_zone_status, "");
}

#[test]
fn missing_approved_zone_is_reported_missing() {
    let mut engine = ArcPhysicsEngine::new();
    engine.substrate.remove(0);
    assert_eq!(engine.emit_evidence().approved_zone_status, "missing");
}

#[test]
fn histogram_counts_statuses_in_order() {
    let statuses: Vec<String> = ["DENIED", "ADMITTED", "REQUIRE_RESIGN", "ADMITTED", "ADMITTED"]
        .iter()
        .map(|s| s.to_string())
        .collect();
    let h = status_histogram(&statuses);
    assert_eq!(
        h,
        vec![
            ("ADMITTED".to_string(), 3),
            ("DENIED".to_string(), 1),
            ("REQUIRE_RESIGN".to_string(), 1)
        ]
    );
    assert!(status_histogram(&vec![]).is_empty());
}
