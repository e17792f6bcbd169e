use sha2::{Digest, Sha256};
use tns::{
    AdapterAbi, BrainPackage, CoordinateLaw, DemoTraversal, Manifest, PackageDisk, PackageParts,
    ReadMode, ReadOnlyProjectionAdapter, RegionDecl, RegionMap, SubstrateRegion, TraversalResult,
    WorkingBody,
};

const SUBSTRATE: &str = r#"{"encoder.layer_0.activation":[0.1,0.2],"encoder.layer_1.activation":[0.3,0.4],"output.logits":[0.2,0.8]}"#;
const COORDINATE_LAW: &str = r#"{"schema":"coordinate_law_v0","axes":["layer","unit"]}"#;
const REGION_MAP: &str = r#"{"schema":"region_map_v0","brain_id":"example.pattern_brain.v0"}"#;
const READ_MODES: &str = r#"[{"schema":"read_mode_v0","read_mode_id":"readonly_activation_projection_v0"}]"#;
const ADAPTER_ABI: &str = r#"{"schema":"adapter_abi_v0","adapter_abi_id":"torch_readonly_projection_adapter_v0"}"#;

fn hex_hash(bytes: &[u8]) -> String {
    format!("sha256:{:x}", Sha256::digest(bytes))
}

fn s(x: &str) -> String {
    x.to_string()
}

fn floats(values: &[f32]) -> Vec<u32> {
    values.iter().map(|v| v.to_bits()).collect()
}

fn manifest() -> Manifest {
    Manifest {
        schema: s("brain_manifest_v0"),
        brain_id: s("example.pattern_brain.v0"),
        version: s("0.1.0"),
        substrate_file: s("substrate.json"),
        substrate_hash: hex_hash(SUBSTRATE.as_bytes()),
        coordinate_law: s("coordinate_law.json"),
        coordinate_law_hash: hex_hash(COORDINATE_LAW.as_bytes()),
        region_map: s("region_map.json"),
        region_map_hash: hex_hash(REGION_MAP.as_bytes()),
        read_modes: s("read_modes.json"),
        read_modes_hash: hex_hash(READ_MODES.as_bytes()),
        adapter_abi: s("adapter_abi.json"),
        adapter_abi_hash: hex_hash(ADAPTER_ABI.as_bytes()),
        mutation_default: s("forbidden"),
        supported_read_modes: vec![s("readonly_activation_projection_v0")],
        supported_adapter_abis: vec![s("torch_readonly_projection_adapter_v0")],
        probe_receipts: vec![s("probes/probe_0001.json")],
    }
}

fn region(id: &str, readable: bool, writable: bool) -> RegionDecl {
    RegionDecl { region_id: s(id), readable, writable }
}

fn parts() -> PackageParts {
    PackageParts {
        substrate: Ok(vec![
            SubstrateRegion { region_id: s("encoder.layer_0.activation"), values: floats(&[0.1, 0.2]) },
            SubstrateRegion { region_id: s("encoder.layer_1.activation"), values: floats(&[0.3, 0.4]) },
            SubstrateRegion { region_id: s("output.logits"), values: floats(&[0.2, 0.8]) },
        ]),
        coordinate_law: Ok(CoordinateLaw { object_keys: Some(vec![s("schema"), s("axes")]) }),
        region_map: Ok(RegionMap {
            schema: s("region_map_v0"),
            brain_id: s("example.pattern_brain.v0"),
            regions: vec![
                region("output.logits", true, false),
                region("encoder.layer_1.activation", true, false),
                region("encoder.layer_0.activation", true, false),
                region("working.scratch", true, true),
            ],
        }),
        read_modes: Ok(vec![
            ReadMode {
                schema: s("read_mode_v0"),
                read_mode_id: s("readonly_activation_projection_v0"),
                allowed_regions: vec![
                    s("encoder.layer_0.activation"),
                    s("encoder.layer_1.activation"),
                    s("output.logits"),
                ],
                write_back_allowed: false,
                gradient_flow_allowed: false,
                mutation_allowed: false,
            },
            ReadMode {
                schema: s("read_mode_v0"),
                read_mode_id: s("training_mode_v0"),
                allowed_regions: vec![s("encoder.layer_0.activation")],
                write_back_allowed: true,
                gradient_flow_allowed: false,
                mutation_allowed: false,
            },
            ReadMode {
                schema: s("read_mode_v0"),
                read_mode_id: s("scratch_mode_v0"),
                allowed_regions: vec![s("working.scratch")],
                write_back_allowed: false,
                gradient_flow_allowed: false,
                mutation_allowed: false,
            },
        ]),
        adapter_abi: Ok(AdapterAbi {
            schema: s("adapter_abi_v0"),
            adapter_abi_id: s("torch_readonly_projection_adapter_v0"),
        }),
    }
}

fn disk() -> PackageDisk {
    PackageDisk {
        substrate: Ok(SUBSTRATE.as_bytes().to_vec()),
        coordinate_law: Ok(COORDINATE_LAW.as_bytes().to_vec()),
        region_map: Ok(REGION_MAP.as_bytes().to_vec()),
        read_modes: Ok(READ_MODES.as_bytes().to_vec()),
        adapter_abi: Ok(ADAPTER_ABI.as_bytes().to_vec()),
        probe_receipts_present: vec![true],
    }
}

fn pkg() -> BrainPackage {
    BrainPackage::load_from_dir(s("brain_packages/example.pattern_brain.v0"), manifest(), parts(), &disk())
        .unwrap()
}

fn f32s(bits: &[u32]) -> Vec<f32> {
    bits.iter().map(|b| f32::from_bits(*b)).collect()
}

/// The demo traversal over the in-memory example package, with the float
/// decisions made here as the program makes them.
fn run_demo_traversal() -> Result<TraversalResult, String> {
    let brain = pkg();
    let (mut t, r0, r1) = DemoTraversal::start(&brain, &disk())?;
    let confidence = (f32s(&r0).iter().chain(f32s(&r1).iter()).copied().sum::<f32>() / 100.0).min(1.0);
    t.note_confidence(confidence < 0.5);
    let logits = f32s(&t.read_logits(&brain)?);
    let output = if logits[0] >= logits[1] { 0 } else { 1 };
    let logits_json = serde_json::to_string(&logits).unwrap();
    t.finish(&brain, output, &logits_json, &disk())
}

#[test]
fn brain_hash_stable_during_read() {
    let r = run_demo_traversal().unwrap();
    assert!(r.receipt.immutable_substrate_verified);
}

#[test]
fn adapter_cannot_write_back() {
    let a = ReadOnlyProjectionAdapter::new();
    assert_eq!(a.write_region("x", vec![]).unwrap_err(), "REJECT_ADAPTER_WRITE");
}

#[test]
fn illegal_region_access_rejected() {
    let brain = pkg();
    let a = ReadOnlyProjectionAdapter::new();
    let b = a.bind(&brain, "readonly_activation_projection_v0", &disk()).unwrap();
    assert_eq!(
        a.read_region(&b, &brain, "secret.undeclared.region").unwrap_err(),
        "REJECT_ROUTE"
    );
}

#[test]
fn unsupported_read_mode_rejected() {
    let brain = pkg();
    let a = ReadOnlyProjectionAdapter::new();
    assert_eq!(a.bind(&brain, "bad_mode", &disk()).unwrap_err(), "READ_REJECTED");
}

#[test]
fn adapter_abi_mismatch_rejected() {
    let brain = pkg();
    let mut a = ReadOnlyProjectionAdapter::new();
    a.abi_id = "bad_abi".into();
    assert_eq!(
        a.bind(&brain, "readonly_activation_projection_v0", &disk()).unwrap_err(),
        "ADAPTER_ABI_MISMATCH"
    );
}

#[test]
fn output_hash_bound_to_route_hash() {
    let r = run_demo_traversal().unwrap();
    assert!(r.receipt.route_hash.starts_with("sha256:"));
    assert!(r.receipt.output_hash.starts_with("sha256:"));
}

fn bind_default(brain: &BrainPackage) -> Result<tns::BindingSession, String> {
    ReadOnlyProjectionAdapter::new().bind(brain, "readonly_activation_projection_v0", &disk())
}

#[test]
fn example_package_verifies() {
    let brain = pkg();
    assert_eq!(brain.verify(&disk()), Ok(()));
    assert_eq!(brain.hash(&disk()).unwrap(), hex_hash(SUBSTRATE.as_bytes()));
}

#[test]
fn verify_requires_forbidden_mutation_default() {
    let mut brain = pkg();
    brain.manifest.mutation_default = s("allowed");
    assert_eq!(brain.verify(&disk()).unwrap_err(), "mutation_default must be forbidden");
}

#[test]
fn verify_reports_each_hash_mismatch_by_label() {
    let cases: Vec<(&str, fn(&mut Manifest))> = vec![
        ("substrate", |m| m.substrate_hash = s("sha256:00")),
        ("coordinate_law", |m| m.coordinate_law_hash = s("sha256:00")),
        ("region_map", |m| m.region_map_hash = s("sha256:00")),
        ("read_modes", |m| m.read_modes_hash = s("sha256:00")),
        ("adapter_abi", |m| m.adapter_abi_hash = s("sha256:00")),
    ];
    for (label, change) in cases {
        let mut brain = pkg();
        change(&mut brain.manifest);
        assert_eq!(brain.verify(&disk()).unwrap_err(), format!("{label} hash mismatch"));
    }
}

#[test]
fn verify_reports_read_errors_first_in_order() {
    let brain = pkg();
    let mut d = disk();
    d.region_map = Err(s("read region_map.json: not found"));
    d.adapter_abi = Err(s("read adapter_abi.json: not found"));
    assert_eq!(brain.verify(&d).unwrap_err(), "read region_map.json: not found");
    assert_eq!(brain.hash(&d).unwrap(), hex_hash(SUBSTRATE.as_bytes()));
    d.substrate = Err(s("read substrate.json: denied"));
    assert_eq!(brain.hash(&d).unwrap_err(), "read substrate.json: denied");
}

#[test]
fn verify_requires_probe_receipts() {
    let mut brain = pkg();
    brain.manifest.probe_receipts = vec![];
    assert_eq!(brain.verify(&disk()).unwrap_err(), "missing probe receipt");
    let mut brain = pkg();
    brain.manifest.probe_receipts = vec![s("p1.json"), s("p2.json"), s("p3.json")];
    let mut d = disk();
    d.probe_receipts_present = vec![true, false, false];
    assert_eq!(brain.verify(&d).unwrap_err(), "missing probe receipt file: p2.json");
    d.probe_receipts_present = vec![true, true];
    assert_eq!(brain.verify(&d).unwrap_err(), "missing probe receipt file: p3.json");
    d.probe_receipts_present = vec![true, true, true];
    assert_eq!(brain.verify(&d), Ok(()));
}

#[test]
fn verify_requires_coordinate_law_schema_and_regions() {
    let mut brain = pkg();
    brain.coordinate_law = CoordinateLaw { object_keys: Some(vec![s("axes")]) };
    assert_eq!(brain.verify(&disk()).unwrap_err(), "coordinate_law required");
    brain.coordinate_law = CoordinateLaw { object_keys: None };
    assert_eq!(brain.verify(&disk()).unwrap_err(), "coordinate_law required");
    let mut brain = pkg();
    brain.region_map.regions = vec![];
    assert_eq!(brain.verify(&disk()).unwrap_err(), "region_map required");
}

#[test]
fn load_refuses_manifest_without_schema_first() {
    let mut m = manifest();
    m.schema = s("");
    let mut p = parts();
    p.substrate = Err(s("substrate parse: bad"));
    let res = BrainPackage::load_from_dir(s("root"), m, p, &disk());
    assert_eq!(res.unwrap_err(), "bad manifest: missing schema");
}

#[test]
fn load_reports_first_part_error() {
    let mut p = parts();
    p.read_modes = Err(s("read_modes parse: expected value"));
    p.adapter_abi = Err(s("adapter_abi read: missing"));
    let res = BrainPackage::load_from_dir(s("root"), manifest(), p, &disk());
    assert_eq!(res.unwrap_err(), "read_modes parse: expected value");
}

#[test]
fn load_verifies_the_assembled_package() {
    let mut d = disk();
    d.probe_receipts_present = vec![false];
    let res = BrainPackage::load_from_dir(s("root"), manifest(), parts(), &d);
    assert_eq!(res.unwrap_err(), "missing probe receipt file: probes/probe_0001.json");
    let brain = pkg();
    assert_eq!(brain.root_dir, "brain_packages/example.pattern_brain.v0");
    assert_eq!(brain.substrate.len(), 3);
}

#[test]
fn bind_allows_sorted_readonly_regions() {
    let brain = pkg();
    let b = bind_default(&brain).unwrap();
    assert_eq!(b.binding_id, "bind_0001");
    assert_eq!(b.brain_id, "example.pattern_brain.v0");
    assert_eq!(b.brain_hash, hex_hash(SUBSTRATE.as_bytes()));
    assert_eq!(b.adapter_id, "readonly_projection_adapter.v0");
    assert_eq!(b.read_mode_id, "readonly_activation_projection_v0");
    assert_eq!(
        b.allowed_regions,
        vec![s("encoder.layer_0.activation"), s("encoder.layer_1.activation"), s("output.logits")]
    );
    assert!(!b.mutation_allowed);
}

#[test]
fn bind_refuses_unverified_package() {
    let mut brain = pkg();
    brain.manifest.mutation_default = s("permitted");
    assert_eq!(bind_default(&brain).unwrap_err(), "mutation_default must be forbidden");
}

#[test]
fn bind_refuses_abi_not_supported_by_manifest() {
    let mut brain = pkg();
    brain.manifest.supported_adapter_abis = vec![s("other_abi")];
    assert_eq!(bind_default(&brain).unwrap_err(), "ADAPTER_ABI_MISMATCH");
}

#[test]
fn bind_refuses_mode_that_is_not_readonly() {
    let brain = pkg();
    let a = ReadOnlyProjectionAdapter::new();
    assert_eq!(a.bind(&brain, "training_mode_v0", &disk()).unwrap_err(), "READ_MODE_NOT_READONLY");
}

#[test]
fn bind_refuses_mode_region_not_readonly_declared() {
    let brain = pkg();
    let a = ReadOnlyProjectionAdapter::new();
    assert_eq!(a.bind(&brain, "scratch_mode_v0", &disk()).unwrap_err(), "READ_MODE_REGION_UNDECLARED");
}

#[test]
fn bind_scope_narrows_allowed_regions() {
    let brain = pkg();
    let mut a = ReadOnlyProjectionAdapter::new();
    a.permitted_scope = Some(vec![s("output.logits"), s("elsewhere")]);
    let b = a.bind(&brain, "readonly_activation_projection_v0", &disk()).unwrap();
    assert_eq!(b.allowed_regions, vec![s("output.logits")]);
    a.permitted_scope = Some(vec![s("elsewhere")]);
    assert_eq!(
        a.bind(&brain, "readonly_activation_projection_v0", &disk()).unwrap_err(),
        "NO_ALLOWED_REGIONS"
    );
}

#[test]
fn bind_reports_substrate_read_error_after_checks() {
    let brain = pkg();
    let mut d = disk();
    d.substrate = Err(s("read substrate.json: gone"));
    let res = ReadOnlyProjectionAdapter::new().bind(&brain, "readonly_activation_projection_v0", &d);
    assert_eq!(res.unwrap_err(), "read substrate.json: gone");
}

#[test]
fn read_region_returns_values_of_allowed_region() {
    let brain = pkg();
    let a = ReadOnlyProjectionAdapter::new();
    let b = bind_default(&brain).unwrap();
    let values = a.read_region(&b, &brain, "output.logits").unwrap();
    assert_eq!(f32s(&values), vec![0.2f32, 0.8]);
    let mut narrow = b.clone();
    narrow.allowed_regions = vec![s("encoder.layer_0.activation")];
    assert_eq!(a.read_region(&narrow, &brain, "output.logits").unwrap_err(), "REJECT_ROUTE");
    let mut missing = brain.clone();
    missing.substrate.pop();
    assert_eq!(a.read_region(&b, &missing, "output.logits").unwrap_err(), "REJECT_ROUTE");
}

#[test]
fn demo_traversal_expands_on_low_confidence() {
    let r = run_demo_traversal().unwrap();
    assert_eq!(r.output, 1);
    let receipt = &r.receipt;
    assert_eq!(receipt.schema, "traversal_receipt_v0");
    assert_eq!(receipt.brain_id, "example.pattern_brain.v0");
    assert_eq!(receipt.brain_hash_before, hex_hash(SUBSTRATE.as_bytes()));
    assert_eq!(receipt.brain_hash_after, receipt.brain_hash_before);
    assert_eq!(receipt.adapter_id, "readonly_projection_adapter.v0");
    assert_eq!(receipt.read_mode_id, "readonly_activation_projection_v0");
    assert_eq!(receipt.output_claim_status, "proposal_only");
    assert_eq!(receipt.output_hash, hex_hash(b"[0.2,0.8]"));
    assert_eq!(receipt.working_body_before_hash, WorkingBody::new().hash());
    let mut grown = WorkingBody::new();
    let delta = grown.expand("capacity_rejection");
    assert_eq!(receipt.working_body_after_hash, grown.hash());
    assert_eq!(receipt.expansion_delta_hashes, vec![delta.hash()]);
}

#[test]
fn demo_traversal_without_expansion_keeps_working_body() {
    let brain = pkg();
    let (mut t, _, _) = DemoTraversal::start(&brain, &disk()).unwrap();
    t.note_confidence(false);
    let r = t.finish(&brain, 0, "[0.9,0.1]", &disk()).unwrap();
    assert!(r.receipt.expansion_delta_hashes.is_empty());
    assert_eq!(r.receipt.working_body_before_hash, r.receipt.working_body_after_hash);
    assert_eq!(r.output, 0);
}

#[test]
fn changed_substrate_is_not_certified_immutable() {
    let brain = pkg();
    let (t, _, _) = DemoTraversal::start(&brain, &disk()).unwrap();
    let mut after = disk();
    after.substrate = Ok(b"{}".to_vec());
    let r = t.finish(&brain, 0, "[]", &after).unwrap();
    assert!(!r.receipt.immutable_substrate_verified);
    assert_eq!(r.receipt.brain_hash_after, hex_hash(b"{}"));
}

#[test]
fn route_hash_is_hash_of_canonical_route_json() {
    let route = r#"{"steps":[{"event":"read_region","region_id":"encoder.layer_0.activation"},{"event":"read_region","region_id":"encoder.layer_1.activation"},{"event":"compose","target":"working_body.column_0.composer"},{"event":"emit_candidate_output","target":"output_head"}]}"#;
    let value: serde_json::Value = serde_json::from_str(route).unwrap();
    assert_eq!(serde_json::to_string(&value).unwrap(), route);
    let r = run_demo_traversal().unwrap();
    assert_eq!(r.receipt.route_hash, hex_hash(route.as_bytes()));
}

#[test]
fn demo_start_rejects_package_without_activation_region() {
    let mut brain = pkg();
    brain.substrate.remove(1);
    assert_eq!(DemoTraversal::start(&brain, &disk()).unwrap_err(), "REJECT_ROUTE");
}

#[test]
fn manifest_schema_check() {
    assert_eq!(manifest().check_schema(), Ok(()));
    let mut m = manifest();
    m.schema = s("");
    assert_eq!(m.check_schema().unwrap_err(), "bad manifest: missing schema");
}
