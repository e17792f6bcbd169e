use vstd::prelude::*;

use crate::digest::{sha256_bytes, sha256_text};
use crate::text::{contains_text, same_text, texts};

verus! {

/// The package manifest: identity, the relative paths of the package files
/// with their expected content hashes, and the package's policy fields.
#[derive(Debug, Clone)]
pub struct Manifest {
    pub schema: String,
    pub brain_id: String,
    pub version: String,
    pub substrate_file: String,
    pub substrate_hash: String,
    pub coordinate_law: String,
    pub coordinate_law_hash: String,
    pub region_map: String,
    pub region_map_hash: String,
    pub read_modes: String,
    pub read_modes_hash: String,
    pub adapter_abi: String,
    pub adapter_abi_hash: String,
    pub mutation_default: String,
    pub supported_read_modes: Vec<String>,
    pub supported_adapter_abis: Vec<String>,
    pub probe_receipts: Vec<String>,
}

/// One declared region of the substrate and its access flags.
#[derive(Debug, Clone)]
pub struct RegionDecl {
    pub region_id: String,
    pub readable: bool,
    pub writable: bool,
}

/// The declared regions of a package.
#[derive(Debug, Clone)]
pub struct RegionMap {
    pub schema: String,
    pub brain_id: String,
    pub regions: Vec<RegionDecl>,
}

/// A read mode: which regions it may read and which side effects it allows.
#[derive(Debug, Clone)]
pub struct ReadMode {
    pub schema: String,
    pub read_mode_id: String,
    pub allowed_regions: Vec<String>,
    pub write_back_allowed: bool,
    pub gradient_flow_allowed: bool,
    pub mutation_allowed: bool,
}

/// The adapter ABI a package declares.
#[derive(Debug, Clone)]
pub struct AdapterAbi {
    pub schema: String,
    pub adapter_abi_id: String,
}

/// What the package logic reads of the coordinate-law document: the keys of
/// its top-level JSON object, or `None` when the document is not an object.
#[derive(Debug, Clone)]
pub struct CoordinateLaw {
    pub object_keys: Option<Vec<String>>,
}

/// One substrate region and its values, each `f32` held as its IEEE-754 bit
/// pattern (`f32::to_bits`).
#[derive(Debug, Clone)]
pub struct SubstrateRegion {
    pub region_id: String,
    pub values: Vec<u32>,
}

/// A loaded brain package.
#[derive(Debug, Clone)]
pub struct BrainPackage {
    pub root_dir: String,
    pub manifest: Manifest,
    pub substrate: Vec<SubstrateRegion>,
    pub coordinate_law: CoordinateLaw,
    pub region_map: RegionMap,
    pub read_modes: Vec<ReadMode>,
    pub adapter_abi: AdapterAbi,
}

/// What the package files hold on disk at the time of a check: for each
/// hashed file the bytes read, or the read error's message, and for each
/// probe receipt of the manifest (by position) whether its file exists.
#[derive(Debug)]
pub struct PackageDisk {
    pub substrate: Result<Vec<u8>, String>,
    pub coordinate_law: Result<Vec<u8>, String>,
    pub region_map: Result<Vec<u8>, String>,
    pub read_modes: Result<Vec<u8>, String>,
    pub adapter_abi: Result<Vec<u8>, String>,
    pub probe_receipts_present: Vec<bool>,
}

/// The package documents other than the manifest, each parsed, or the
/// message of its read or parse error.
#[derive(Debug)]
pub struct PackageParts {
    pub substrate: Result<Vec<SubstrateRegion>, String>,
    pub coordinate_law: Result<CoordinateLaw, String>,
    pub region_map: Result<RegionMap, String>,
    pub read_modes: Result<Vec<ReadMode>, String>,
    pub adapter_abi: Result<AdapterAbi, String>,
}

/// A `Result<(), String>` with the error taken by its view.
pub open spec fn unit_outcome(res: Result<(), String>) -> Result<(), Seq<char>> {
    match res {
        Ok(_) => Ok(()),
        Err(e) => Err(e@),
    }
}

/// A `Result<String, String>` taken by its views.
pub open spec fn text_outcome(res: Result<String, String>) -> Result<Seq<char>, Seq<char>> {
    match res {
        Ok(t) => Ok(t@),
        Err(e) => Err(e@),
    }
}

/// The content hash of a file read: its `sha256:` text, or the read error.
pub open spec fn file_hash(read: Result<Vec<u8>, String>) -> Result<Seq<char>, Seq<char>> {
    match read {
        Ok(bytes) => Ok(sha256_text(bytes@)),
        Err(e) => Err(e@),
    }
}

/// Checks one file against its expected hash.
pub open spec fn hash_check(
    label: Seq<char>,
    expected: Seq<char>,
    read: Result<Vec<u8>, String>,
) -> Result<(), Seq<char>> {
    match file_hash(read) {
        Err(e) => Err(e),
        Ok(actual) => if actual == expected {
            Ok(())
        } else {
            Err(label + " hash mismatch"@)
        },
    }
}

/// Whether the probe receipt at position `i` is present.
pub open spec fn receipt_present(present: Seq<bool>, i: int) -> bool {
    0 <= i < present.len() && present[i]
}

/// The first position in `i..n` whose probe receipt is missing.
pub open spec fn first_missing_receipt(present: Seq<bool>, n: int, i: int) -> Option<int>
    decreases n - i,
{
    if i >= n {
        None
    } else if !receipt_present(present, i) {
        Some(i)
    } else {
        first_missing_receipt(present, n, i + 1)
    }
}

/// Whether the coordinate law is an object with a `schema` key.
pub open spec fn law_has_schema(law: CoordinateLaw) -> bool {
    match law.object_keys {
        Some(keys) => texts(keys@).contains("schema"@),
        None => false,
    }
}

impl BrainPackage {
    /// What `verify` answers: the first failed check, in this order, or `Ok`.
    pub open spec fn verify_outcome(self, disk: PackageDisk) -> Result<(), Seq<char>> {
        let m = self.manifest;
        if m.mutation_default@ != "forbidden"@ {
            Err("mutation_default must be forbidden"@)
        } else if hash_check("substrate"@, m.substrate_hash@, disk.substrate) is Err {
            hash_check("substrate"@, m.substrate_hash@, disk.substrate)
        } else if hash_check("coordinate_law"@, m.coordinate_law_hash@, disk.coordinate_law) is Err {
            hash_check("coordinate_law"@, m.coordinate_law_hash@, disk.coordinate_law)
        } else if hash_check("region_map"@, m.region_map_hash@, disk.region_map) is Err {
            hash_check("region_map"@, m.region_map_hash@, disk.region_map)
        } else if hash_check("read_modes"@, m.read_modes_hash@, disk.read_modes) is Err {
            hash_check("read_modes"@, m.read_modes_hash@, disk.read_modes)
        } else if hash_check("adapter_abi"@, m.adapter_abi_hash@, disk.adapter_abi) is Err {
            hash_check("adapter_abi"@, m.adapter_abi_hash@, disk.adapter_abi)
        } else if m.probe_receipts.len() == 0 {
            Err("missing probe receipt"@)
        } else if first_missing_receipt(
            disk.probe_receipts_present@,
            m.probe_receipts.len() as int,
            0,
        ) is Some {
            let i = first_missing_receipt(
                disk.probe_receipts_present@,
                m.probe_receipts.len() as int,
                0,
            )->0;
            Err("missing probe receipt file: "@ + m.probe_receipts@[i]@)
        } else if !law_has_schema(self.coordinate_law) {
            Err("coordinate_law required"@)
        } else if self.region_map.regions.len() == 0 {
            Err("region_map required"@)
        } else {
            Ok(())
        }
    }
}

/// The content hash of a file read (`sha256_file` once the file is read).
pub fn sha256_file(read: &Result<Vec<u8>, String>) -> (res: Result<String, String>)
    ensures
        text_outcome(res) == file_hash(*read),
{
    match read {
        Ok(bytes) => Ok(sha256_bytes(bytes.as_slice())),
        Err(e) => Err(e.clone()),
    }
}

impl BrainPackage {
    /// Checks one package file against the hash the manifest expects.
    fn verify_hash(&self, label: &str, expected: &str, read: &Result<Vec<u8>, String>) -> (res:
        Result<(), String>)
        ensures
            unit_outcome(res) == hash_check(label@, expected@, *read),
    {
        let actual = sha256_file(read)?;
        if !same_text(actual.as_str(), expected) {
            let mut msg = label.to_owned();
            msg.append(" hash mismatch");
            return Err(msg);
        }
        Ok(())
    }

    /// Verifies the package against what is on disk: mutation must default to
    /// forbidden, every hashed file must match the manifest, the probe
    /// receipts must be listed and present, the coordinate law must carry a
    /// schema and the region map must declare regions.
    #[verifier::loop_isolation(false)]
    pub fn verify(&self, disk: &PackageDisk) -> (res: Result<(), String>)
        ensures
            unit_outcome(res) == self.verify_outcome(*disk),
    {
        let m = &self.manifest;
        if !same_text(m.mutation_default.as_str(), "forbidden") {
            return Err("mutation_default must be forbidden".to_owned());
        }
        self.verify_hash("substrate", m.substrate_hash.as_str(), &disk.substrate)?;
        self.verify_hash("coordinate_law", m.coordinate_law_hash.as_str(), &disk.coordinate_law)?;
        self.verify_hash("region_map", m.region_map_hash.as_str(), &disk.region_map)?;
        self.verify_hash("read_modes", m.read_modes_hash.as_str(), &disk.read_modes)?;
        self.verify_hash("adapter_abi", m.adapter_abi_hash.as_str(), &disk.adapter_abi)?;
        let n = m.probe_receipts.len();
        if n == 0 {
            return Err("missing probe receipt".to_owned());
        }
        let ghost present = disk.probe_receipts_present@;
        let mut i: usize = 0;
        while i < n
            invariant
                n == m.probe_receipts.len(),
                present == disk.probe_receipts_present@,
                i <= n,
                first_missing_receipt(present, n as int, 0) == first_missing_receipt(
                    present,
                    n as int,
                    i as int,
                ),
            decreases n - i,
        {
            let here = i < disk.probe_receipts_present.len() && disk.probe_receipts_present[i];
            assert(here == receipt_present(present, i as int));
            if !here {
                assert(first_missing_receipt(present, n as int, i as int) == Some(i as int));
                let mut msg = "missing probe receipt file: ".to_owned();
                msg.append(m.probe_receipts[i].as_str());
                return Err(msg);
            }
            i = i + 1;
        }
        let has_schema = match &self.coordinate_law.object_keys {
            Some(keys) => contains_text(keys, "schema"),
            None => false,
        };
        if !has_schema {
            return Err("coordinate_law required".to_owned());
        }
        if self.region_map.regions.len() == 0 {
            return Err("region_map required".to_owned());
        }
        Ok(())
    }

    /// The content hash of the package's substrate file as read from disk.
    pub fn hash(&self, disk: &PackageDisk) -> (res: Result<String, String>)
        ensures
            text_outcome(res) == file_hash(disk.substrate),
    {
        sha256_file(&disk.substrate)
    }
}

} // verus!

verus! {

/// The first read or parse error among the package documents, in load order.
pub open spec fn part_error(parts: PackageParts) -> Option<Seq<char>> {
    if parts.substrate is Err {
        Some(parts.substrate->Err_0@)
    } else if parts.coordinate_law is Err {
        Some(parts.coordinate_law->Err_0@)
    } else if parts.region_map is Err {
        Some(parts.region_map->Err_0@)
    } else if parts.read_modes is Err {
        Some(parts.read_modes->Err_0@)
    } else if parts.adapter_abi is Err {
        Some(parts.adapter_abi->Err_0@)
    } else {
        None
    }
}

/// The package made of a manifest and documents that all loaded.
pub open spec fn assembled(root_dir: String, manifest: Manifest, parts: PackageParts) -> BrainPackage {
    BrainPackage {
        root_dir: root_dir,
        manifest: manifest,
        substrate: parts.substrate->Ok_0,
        coordinate_law: parts.coordinate_law->Ok_0,
        region_map: parts.region_map->Ok_0,
        read_modes: parts.read_modes->Ok_0,
        adapter_abi: parts.adapter_abi->Ok_0,
    }
}

impl Manifest {
    /// The first check on a loaded manifest: it must name its schema.
    pub fn check_schema(&self) -> (res: Result<(), String>)
        ensures
            res is Ok <==> self.schema@.len() != 0,
            res is Err ==> res->Err_0@ == "bad manifest: missing schema"@,
    {
        if self.schema.as_str().is_empty() {
            return Err("bad manifest: missing schema".to_owned());
        }
        Ok(())
    }
}

impl BrainPackage {
    /// Builds a package from its parsed manifest and documents and verifies
    /// it against the disk: a manifest without schema is refused first, then
    /// the first document that failed to load, then what `verify` refuses.
    pub fn load_from_dir(
        root_dir: String,
        manifest: Manifest,
        parts: PackageParts,
        disk: &PackageDisk,
    ) -> (res: Result<BrainPackage, String>)
        ensures
            manifest.schema@.len() == 0 ==> res is Err && res->Err_0@
                == "bad manifest: missing schema"@,
            manifest.schema@.len() != 0 && part_error(parts) is Some ==> res is Err
                && res->Err_0@ == part_error(parts)->0,
            manifest.schema@.len() != 0 && part_error(parts) is None ==> ({
                let pkg = assembled(root_dir, manifest, parts);
                match pkg.verify_outcome(*disk) {
                    Ok(_) => res == Ok::<BrainPackage, String>(pkg),
                    Err(e) => res is Err && res->Err_0@ == e,
                }
            }),
    {
        manifest.check_schema()?;
        let substrate = parts.substrate?;
        let coordinate_law = parts.coordinate_law?;
        let region_map = parts.region_map?;
        let read_modes = parts.read_modes?;
        let adapter_abi = parts.adapter_abi?;
        let pkg = BrainPackage {
            root_dir,
            manifest,
            substrate,
            coordinate_law,
            region_map,
            read_modes,
            adapter_abi,
        };
        pkg.verify(disk)?;
        Ok(pkg)
    }
}

} // verus!
