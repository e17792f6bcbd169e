//! Verified core of a read-only "brain package" binding demo: package
//! verification against content hashes, read-only adapter binding, region
//! reads, working-body expansion and the traversal receipt.

pub mod digest;
pub mod json;
pub mod text;
pub mod package;
pub mod adapter;
pub mod working;
pub mod traversal;
pub mod laws;

pub use adapter::{BindingSession, ReadOnlyProjectionAdapter};
pub use digest::{sha256_bytes, sha256_json};
pub use package::{
    AdapterAbi, BrainPackage, CoordinateLaw, Manifest, PackageDisk, PackageParts, ReadMode,
    RegionDecl, RegionMap, SubstrateRegion,
};
pub use traversal::{DemoTraversal, TraversalReceipt, TraversalResult};
pub use working::{ExpansionDelta, WorkingBody};
pub use arc::{ArcPhysicsEngine, EngineEvidence, Evidence, Probe, Receipt};
pub mod arc;
