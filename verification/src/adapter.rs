use vstd::prelude::*;

use crate::package::{file_hash, BrainPackage, PackageDisk, ReadMode, RegionDecl, SubstrateRegion};
use crate::text::{contains_text, insert_sorted, same_text, strictly_sorted, texts};

verus! {

/// A read-only binding of an adapter to a package under one read mode.
#[derive(Debug, Clone)]
pub struct BindingSession {
    pub binding_id: String,
    pub brain_id: String,
    pub brain_hash: String,
    pub adapter_id: String,
    pub read_mode_id: String,
    pub allowed_regions: Vec<String>,
    pub mutation_allowed: bool,
}

/// The adapter that projects package regions read-only; `permitted_scope`,
/// when present, narrows the regions any binding may allow.
#[derive(Debug, Clone)]
pub struct ReadOnlyProjectionAdapter {
    pub adapter_id: String,
    pub abi_id: String,
    pub permitted_scope: Option<Vec<String>>,
}

/// The ids of the regions declared readable and not writable.
pub open spec fn readable_regions(regions: Seq<RegionDecl>) -> Set<Seq<char>> {
    Set::new(
        |id: Seq<char>|
            exists|i: int|
                0 <= i < regions.len() && #[trigger] regions[i].region_id@ == id
                    && regions[i].readable && !regions[i].writable,
    )
}

/// The position of the first read mode with the given id, from position `i` on.
pub open spec fn find_mode_from(modes: Seq<ReadMode>, id: Seq<char>, i: int) -> Option<int>
    decreases modes.len() - i,
{
    if i < 0 || i >= modes.len() {
        None
    } else if modes[i].read_mode_id@ == id {
        Some(i)
    } else {
        find_mode_from(modes, id, i + 1)
    }
}

/// Whether a read mode lets nothing flow back into the package.
pub open spec fn mode_is_readonly(mode: ReadMode) -> bool {
    !mode.write_back_allowed && !mode.gradient_flow_allowed && !mode.mutation_allowed
}

/// An adapter scope by its views.
pub open spec fn scope_view(scope: Option<Vec<String>>) -> Option<Seq<Seq<char>>> {
    match scope {
        None => None,
        Some(s) => Some(texts(s@)),
    }
}

/// Whether a scope (none: no limit) includes a region.
pub open spec fn scope_allows(scope: Option<Seq<Seq<char>>>, id: Seq<char>) -> bool {
    match scope {
        None => true,
        Some(s) => s.contains(id),
    }
}

/// The regions a binding under `mode` allows: declared readable and not
/// writable, listed by the mode, and within the scope.
pub open spec fn allowed_regions_for(
    scope: Option<Seq<Seq<char>>>,
    brain: BrainPackage,
    mode: ReadMode,
) -> Set<Seq<char>> {
    readable_regions(brain.region_map.regions@).filter(
        |id: Seq<char>| texts(mode.allowed_regions@).contains(id) && scope_allows(scope, id),
    )
}

/// Why an adapter with ABI `abi` and scope `scope` refuses to bind, in the
/// order of the checks, or `None` when it binds.
pub open spec fn bind_refusal(
    abi: Seq<char>,
    scope: Option<Seq<Seq<char>>>,
    brain: BrainPackage,
    read_mode: Seq<char>,
    disk: PackageDisk,
) -> Option<Seq<char>> {
    let modes = brain.read_modes@;
    let found = find_mode_from(modes, read_mode, 0);
    if brain.verify_outcome(disk) is Err {
        Some(brain.verify_outcome(disk)->Err_0)
    } else if !texts(brain.manifest.supported_adapter_abis@).contains(abi)
        || brain.adapter_abi.adapter_abi_id@ != abi {
        Some("ADAPTER_ABI_MISMATCH"@)
    } else if found is None {
        Some("READ_REJECTED"@)
    } else if !mode_is_readonly(modes[found->0]) {
        Some("READ_MODE_NOT_READONLY"@)
    } else if !texts(modes[found->0].allowed_regions@).to_set().subset_of(
        readable_regions(brain.region_map.regions@),
    ) {
        Some("READ_MODE_REGION_UNDECLARED"@)
    } else if allowed_regions_for(scope, brain, modes[found->0]).is_empty() {
        Some("NO_ALLOWED_REGIONS"@)
    } else if file_hash(disk.substrate) is Err {
        Some(file_hash(disk.substrate)->Err_0)
    } else {
        None
    }
}

/// The session an adapter with id `adapter_id` and scope `scope` returns
/// when it binds.
pub open spec fn session_bound(
    s: BindingSession,
    adapter_id: Seq<char>,
    scope: Option<Seq<Seq<char>>>,
    brain: BrainPackage,
    read_mode: Seq<char>,
    disk: PackageDisk,
) -> bool {
    let mode = brain.read_modes@[find_mode_from(brain.read_modes@, read_mode, 0)->0];
    &&& s.binding_id@ == "bind_0001"@
    &&& s.brain_id@ == brain.manifest.brain_id@
    &&& s.brain_hash@ == file_hash(disk.substrate)->Ok_0
    &&& s.adapter_id@ == adapter_id
    &&& s.read_mode_id@ == read_mode
    &&& strictly_sorted(texts(s.allowed_regions@))
    &&& texts(s.allowed_regions@).to_set() == allowed_regions_for(scope, brain, mode)
    &&& !s.mutation_allowed
}

/// The regions of the first substrate entry with the given id.
pub open spec fn substrate_lookup(substrate: Seq<SubstrateRegion>, id: Seq<char>) -> Option<
    Seq<u32>,
>
    decreases substrate.len(),
{
    if substrate.len() == 0 {
        None
    } else if substrate[0].region_id@ == id {
        Some(substrate[0].values@)
    } else {
        substrate_lookup(substrate.drop_first(), id)
    }
}

impl ReadOnlyProjectionAdapter {
    /// The regions a binding of this adapter under `mode` allows.
    pub open spec fn allowed_set(self, brain: BrainPackage, mode: ReadMode) -> Set<Seq<char>> {
        allowed_regions_for(scope_view(self.permitted_scope), brain, mode)
    }

    /// Why `bind` refuses, or `None` when it binds.
    pub open spec fn bind_error(self, brain: BrainPackage, read_mode: Seq<char>, disk: PackageDisk) -> Option<
        Seq<char>,
    > {
        bind_refusal(self.abi_id@, scope_view(self.permitted_scope), brain, read_mode, disk)
    }

    /// The session `bind` returns when it binds.
    pub open spec fn bound_session(
        self,
        s: BindingSession,
        brain: BrainPackage,
        read_mode: Seq<char>,
        disk: PackageDisk,
    ) -> bool {
        session_bound(s, self.adapter_id@, scope_view(self.permitted_scope), brain, read_mode, disk)
    }

    /// The default adapter: its id, the torch read-only projection ABI, no scope limit.
    pub fn new() -> (a: Self)
        ensures
            a.adapter_id@ == "readonly_projection_adapter.v0"@,
            a.abi_id@ == "torch_readonly_projection_adapter_v0"@,
            a.permitted_scope is None,
    {
        ReadOnlyProjectionAdapter {
            adapter_id: "readonly_projection_adapter.v0".to_owned(),
            abi_id: "torch_readonly_projection_adapter_v0".to_owned(),
            permitted_scope: None,
        }
    }

    /// Binds the adapter to a verified package under the read mode named
    /// `read_mode`, allowing the readable, non-writable regions that the mode
    /// lists and the adapter's scope permits, in sorted order.
    pub fn bind(&self, brain: &BrainPackage, read_mode: &str, disk: &PackageDisk) -> (res: Result<
        BindingSession,
        String,
    >)
        ensures
            match res {
                Ok(s) => self.bind_error(*brain, read_mode@, *disk) is None && self.bound_session(
                    s,
                    *brain,
                    read_mode@,
                    *disk,
                ),
                Err(e) => self.bind_error(*brain, read_mode@, *disk) == Some(e@),
            },
    {
        brain.verify(disk)?;
        if !contains_text(&brain.manifest.supported_adapter_abis, self.abi_id.as_str()) || !same_text(
            brain.adapter_abi.adapter_abi_id.as_str(),
            self.abi_id.as_str(),
        ) {
            return Err("ADAPTER_ABI_MISMATCH".to_owned());
        }
        let mode_index = match find_mode(&brain.read_modes, read_mode) {
            Some(i) => i,
            None => {
                return Err("READ_REJECTED".to_owned());
            },
        };
        let mode = &brain.read_modes[mode_index];
        if mode.write_back_allowed || mode.gradient_flow_allowed || mode.mutation_allowed {
            return Err("READ_MODE_NOT_READONLY".to_owned());
        }
        let readable = collect_readable(&brain.region_map.regions);
        if !all_contained(&mode.allowed_regions, &readable) {
            return Err("READ_MODE_REGION_UNDECLARED".to_owned());
        }
        let allowed = self.select_allowed(&readable, mode);
        if allowed.len() == 0 {
            assert(texts(allowed@).to_set() =~= Set::empty());
            return Err("NO_ALLOWED_REGIONS".to_owned());
        }
        proof {
            let x = texts(allowed@)[0];
            assert(texts(allowed@).to_set().contains(x));
        }
        let brain_hash = brain.hash(disk)?;
        Ok(
            BindingSession {
                binding_id: "bind_0001".to_owned(),
                brain_id: brain.manifest.brain_id.clone(),
                brain_hash,
                adapter_id: self.adapter_id.clone(),
                read_mode_id: read_mode.to_owned(),
                allowed_regions: allowed,
                mutation_allowed: false,
            },
        )
    }

    /// Reads a region through a binding: only a region the binding allows,
    /// and only if the substrate holds it (values as `f32` bit patterns).
    pub fn read_region(&self, binding: &BindingSession, brain: &BrainPackage, region: &str) -> (res:
        Result<Vec<u32>, String>)
        ensures
            texts(binding.allowed_regions@).contains(region@) && substrate_lookup(
                brain.substrate@,
                region@,
            ) is Some ==> res is Ok && res->Ok_0@ == substrate_lookup(brain.substrate@, region@)->0,
            !(texts(binding.allowed_regions@).contains(region@) && substrate_lookup(
                brain.substrate@,
                region@,
            ) is Some) ==> res is Err && res->Err_0@ == "REJECT_ROUTE"@,
    {
        if !contains_text(&binding.allowed_regions, region) {
            return Err("REJECT_ROUTE".to_owned());
        }
        match lookup_region(&brain.substrate, region) {
            Some(values) => Ok(values),
            None => Err("REJECT_ROUTE".to_owned()),
        }
    }

    /// Writing through the adapter is always refused.
    pub fn write_region(&self, region: &str, value: Vec<u32>) -> (res: Result<(), String>)
        ensures
            res is Err && res->Err_0@ == "REJECT_ADAPTER_WRITE"@,
    {
        Err("REJECT_ADAPTER_WRITE".to_owned())
    }

    /// The regions of `readable` (sorted) that `mode` lists and the scope permits.
    fn select_allowed(&self, readable: &Vec<String>, mode: &ReadMode) -> (allowed: Vec<String>)
        requires
            strictly_sorted(texts(readable@)),
        ensures
            strictly_sorted(texts(allowed@)),
            texts(allowed@).to_set() == texts(readable@).to_set().filter(
                |id: Seq<char>|
                    texts(mode.allowed_regions@).contains(id) && scope_allows(
                        scope_view(self.permitted_scope),
                        id,
                    ),
            ),
    {
        let ghost pred = |id: Seq<char>|
            texts(mode.allowed_regions@).contains(id) && scope_allows(
                scope_view(self.permitted_scope),
                id,
            );
        let ghost r = texts(readable@);
        let mut allowed: Vec<String> = Vec::new();
        let n = readable.len();
        let mut i: usize = 0;
        while i < n
            invariant
                n == readable@.len(),
                r == texts(readable@),
                strictly_sorted(r),
                i <= n,
                pred == (|id: Seq<char>|
                    texts(mode.allowed_regions@).contains(id) && scope_allows(
                        scope_view(self.permitted_scope),
                        id,
                    )),
                strictly_sorted(texts(allowed@)),
                forall|a: int, j: int|
                    0 <= a < allowed@.len() && i <= j < n ==> crate::text::text_lt(
                        #[trigger] texts(allowed@)[a],
                        #[trigger] r[j],
                    ),
                texts(allowed@).to_set() == r.take(i as int).to_set().filter(pred),
            decreases n - i,
        {
            let item = &readable[i];
            let in_mode = contains_text(&mode.allowed_regions, item.as_str());
            let in_scope = match &self.permitted_scope {
                None => true,
                Some(scope) => contains_text(scope, item.as_str()),
            };
            let ghost old_allowed = texts(allowed@);
            assert(item@ == r[i as int]);
            assert(pred(r[i as int]) == (in_mode && in_scope));
            if in_mode && in_scope {
                allowed.push(item.clone());
                assert(texts(allowed@) =~= old_allowed.push(r[i as int]));
            } else {
                assert(texts(allowed@) =~= old_allowed);
            }
            proof {
                assert(r.take(i + 1) =~= r.take(i as int).push(r[i as int]));
                assert(texts(allowed@).to_set() =~= r.take(i + 1).to_set().filter(pred)) by {
                    assert forall|x: Seq<char>| #[trigger]
                        r.take(i + 1).to_set().filter(pred).contains(x) implies texts(
                        allowed@,
                    ).to_set().contains(x) by {
                        let k = choose|k: int| 0 <= k < i + 1 && #[trigger] r.take(i + 1)[k] == x;
                        if k < i {
                            assert(r.take(i as int)[k] == x);
                            assert(r.take(i as int).to_set().filter(pred).contains(x));
                            assert(old_allowed.to_set().contains(x));
                            let a = choose|a: int| 0 <= a < old_allowed.len() && #[trigger] old_allowed[a] == x;
                            assert(texts(allowed@)[a] == x);
                        } else {
                            assert(texts(allowed@)[texts(allowed@).len() - 1] == x);
                        }
                    }
                    assert forall|x: Seq<char>| #[trigger]
                        texts(allowed@).to_set().contains(x) implies r.take(i + 1).to_set().filter(
                        pred,
                    ).contains(x) by {
                        let a = choose|a: int| 0 <= a < texts(allowed@).len() && #[trigger] texts(allowed@)[a] == x;
                        if a < old_allowed.len() {
                            assert(old_allowed[a] == x);
                            assert(old_allowed.to_set().contains(x));
                            let k = choose|k: int| 0 <= k < i && #[trigger] r.take(i as int)[k] == x;
                            assert(r.take(i + 1)[k] == x);
                        } else {
                            assert(r.take(i + 1)[i as int] == x);
                        }
                    }
                }
                assert forall|a: int, j: int|
                    0 <= a < allowed@.len() && i + 1 <= j < n implies crate::text::text_lt(
                    #[trigger] texts(allowed@)[a],
                    #[trigger] r[j],
                ) by {
                    if a < old_allowed.len() {
                        assert(texts(allowed@)[a] == old_allowed[a]);
                        assert(crate::text::text_lt(old_allowed[a], r[j]));
                    } else {
                        assert(texts(allowed@)[a] == r[i as int]);
                    }
                }
            }
            i = i + 1;
        }
        assert(r.take(n as int) =~= r);
        allowed
    }
}

/// A copy of the values of the first substrate entry called `id`.
fn lookup_region(substrate: &Vec<SubstrateRegion>, id: &str) -> (found: Option<Vec<u32>>)
    ensures
        match found {
            Some(v) => substrate_lookup(substrate@, id@) == Some(v@),
            None => substrate_lookup(substrate@, id@) is None,
        },
{
    let n = substrate.len();
    let mut i: usize = 0;
    assert(substrate@.skip(0) =~= substrate@);
    while i < n
        invariant
            n == substrate@.len(),
            i <= n,
            substrate_lookup(substrate@, id@) == substrate_lookup(substrate@.skip(i as int), id@),
        decreases n - i,
    {
        assert(substrate@.skip(i as int)[0] == substrate@[i as int]);
        if same_text(substrate[i].region_id.as_str(), id) {
            return Some(copy_values(&substrate[i].values));
        }
        assert(substrate@.skip(i as int).drop_first() =~= substrate@.skip(i + 1));
        i = i + 1;
    }
    None
}

/// An element-wise copy of a vector of bit patterns.
fn copy_values(values: &Vec<u32>) -> (copy: Vec<u32>)
    ensures
        copy@ == values@,
{
    let mut copy: Vec<u32> = Vec::new();
    let n = values.len();
    let mut i: usize = 0;
    while i < n
        invariant
            n == values@.len(),
            i <= n,
            copy@ == values@.take(i as int),
        decreases n - i,
    {
        copy.push(values[i]);
        assert(values@.take(i + 1) =~= values@.take(i as int).push(values@[i as int]));
        i = i + 1;
    }
    assert(values@.take(n as int) =~= values@);
    copy
}

/// The position of the first read mode called `id`.
fn find_mode(modes: &Vec<ReadMode>, id: &str) -> (found: Option<usize>)
    ensures
        match found {
            Some(i) => i < modes@.len() && find_mode_from(modes@, id@, 0) == Some(i as int),
            None => find_mode_from(modes@, id@, 0) is None,
        },
{
    let n = modes.len();
    let mut i: usize = 0;
    while i < n
        invariant
            n == modes@.len(),
            i <= n,
            find_mode_from(modes@, id@, 0) == find_mode_from(modes@, id@, i as int),
        decreases n - i,
    {
        if same_text(modes[i].read_mode_id.as_str(), id) {
            return Some(i);
        }
        i = i + 1;
    }
    None
}

/// The ids of the readable, non-writable regions, sorted and without duplicates.
fn collect_readable(regions: &Vec<RegionDecl>) -> (readable: Vec<String>)
    ensures
        strictly_sorted(texts(readable@)),
        texts(readable@).to_set() == readable_regions(regions@),
{
    let mut readable: Vec<String> = Vec::new();
    let n = regions.len();
    let mut i: usize = 0;
    assert(texts(readable@).to_set() =~= readable_regions(regions@.take(0)));
    while i < n
        invariant
            n == regions@.len(),
            i <= n,
            strictly_sorted(texts(readable@)),
            texts(readable@).to_set() == readable_regions(regions@.take(i as int)),
        decreases n - i,
    {
        let region = &regions[i];
        let ghost before = texts(readable@).to_set();
        if region.readable && !region.writable {
            insert_sorted(&mut readable, region.region_id.clone());
        }
        proof {
            let t = regions@.take(i + 1);
            assert forall|x: Seq<char>| readable_regions(t).contains(x) == texts(
                readable@,
            ).to_set().contains(x) by {
                if readable_regions(t).contains(x) {
                    let k = choose|k: int|
                        0 <= k < t.len() && #[trigger] t[k].region_id@ == x && t[k].readable
                            && !t[k].writable;
                    if k < i {
                        assert(regions@.take(i as int)[k].region_id@ == x);
                        assert(readable_regions(regions@.take(i as int)).contains(x));
                    }
                }
                if before.contains(x) {
                    assert(readable_regions(regions@.take(i as int)).contains(x));
                    let k = choose|k: int|
                        0 <= k < i && #[trigger] regions@.take(i as int)[k].region_id@ == x
                            && regions@.take(i as int)[k].readable && !regions@.take(
                            i as int,
                        )[k].writable;
                    assert(t[k].region_id@ == x);
                }
                if region.readable && !region.writable && x == region.region_id@ {
                    assert(t[i as int].region_id@ == x);
                }
            }
            assert(texts(readable@).to_set() =~= readable_regions(t));
        }
        i = i + 1;
    }
    assert(regions@.take(n as int) =~= regions@);
    readable
}

/// Whether every item of `items` is in `set`.
fn all_contained(items: &Vec<String>, set: &Vec<String>) -> (all: bool)
    ensures
        all == texts(items@).to_set().subset_of(texts(set@).to_set()),
{
    let n = items.len();
    let mut i: usize = 0;
    while i < n
        invariant
            n == items@.len(),
            i <= n,
            forall|j: int| 0 <= j < i ==> texts(set@).contains(#[trigger] texts(items@)[j]),
        decreases n - i,
    {
        if !contains_text(set, items[i].as_str()) {
            assert(texts(items@).to_set().contains(texts(items@)[i as int]));
            return false;
        }
        i = i + 1;
    }
    assert forall|x: Seq<char>| texts(items@).to_set().contains(x) implies texts(
        set@,
    ).to_set().contains(x) by {
        let j = choose|j: int| 0 <= j < texts(items@).len() && #[trigger] texts(items@)[j] == x;
        assert(texts(set@).contains(texts(items@)[j]));
    }
    true
}

} // verus!
