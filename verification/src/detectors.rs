//! The scan of a package: one summary per module, then completion.

use vstd::prelude::*;
use num::ToPrimitive;
use std::time::{Duration, Instant};
use crate::bytecode::FunctionInfo;
use crate::locate::{find_module_path, locate_all, location_is, module_pattern_compiles, LocateError, SourceFile};
use crate::packages::{module_names, PackageModule, Packages, StructDef};
use crate::result::{
    has_module, names_distinct, FunctionCount, Location, ModuleEntry, ModuleInfo, ScanResult, Status, StructResult,
};

verus! {

/// Where the scanner reads from and writes to.
#[derive(Clone, Debug)]
pub struct Options {
    pub bytecode_path: String,
    pub output_path: String,
    pub sources_path: Option<String>,
}

/// Builds the knowledge graph of a package: a summary of each module.
pub struct GraphGenerator {
    pub options: Options,
    pub result: ScanResult,
}

/// How many of `functions` are native.
pub open spec fn native_count(functions: Seq<FunctionInfo>) -> nat
    decreases functions.len(),
{
    if functions.len() == 0 {
        0
    } else {
        native_count(functions.drop_last()) + if functions.last().is_native { 1nat } else { 0nat }
    }
}

/// `info` summarizes module `m`: its constants, its functions and how many of
/// them are native, and its structs with their abilities; the checks are pending.
pub open spec fn summarizes(info: ModuleInfo, m: PackageModule) -> bool {
    &&& info.constant_count == m.module.constant_count
    &&& info.function_count.all == m.stbgr.functions@.len()
    &&& info.function_count.native == native_count(m.stbgr.functions@)
    &&& info.structs@.len() == m.module.struct_defs@.len()
    &&& forall|k: int| 0 <= k < info.structs@.len() ==> {
        &&& #[trigger] info.structs@[k].name == m.module.struct_defs@[k].name
        &&& info.structs@[k].abilities@ == m.module.struct_defs@[k].abilities@
        &&& info.structs@[k].source_code@ == Seq::<char>::empty()
    }
    &&& info.status == Status::Pending
}

/// `loc` is where the `k`-th module of `modules` is declared in `sources`;
/// without sources no module has a location.
pub open spec fn located(loc: Option<Location>, modules: Seq<PackageModule>, sources: Option<Vec<SourceFile>>, k: int) -> bool {
    match sources {
        None => loc is None,
        Some(files) => location_is(loc, locate_all(module_names(modules), files@)[k], files@),
    }
}

/// A pattern can be built for every module name, where there are sources to search.
pub open spec fn patterns_compile(modules: Seq<PackageModule>, sources: Option<Vec<SourceFile>>) -> bool {
    sources is Some ==> forall|k: int| 0 <= k < modules.len() ==> #[trigger] module_pattern_compiles(modules[k].name@)
}

/// `entries` record the `k`-th module of `modules`, summarized and located.
pub open spec fn records_module(entries: Seq<ModuleEntry>, modules: Seq<PackageModule>, sources: Option<Vec<SourceFile>>, k: int) -> bool {
    exists|j: int| 0 <= j < entries.len() && #[trigger] entries[j].name@ == modules[k].name@
        && summarizes(entries[j].info, modules[k]) && located(entries[j].info.location, modules, sources, k)
}

/// Some of the first `n` modules of `modules` is named `name`.
pub open spec fn names_module(modules: Seq<PackageModule>, n: int, name: Seq<char>) -> bool {
    exists|k: int| 0 <= k < n && #[trigger] modules[k].name@ == name
}

/// `after` is `before` with the first `n` modules of `modules` recorded: each
/// recorded, the entries of other modules kept, and nothing else.
pub open spec fn records_prefix(
    before: Seq<ModuleEntry>,
    after: Seq<ModuleEntry>,
    modules: Seq<PackageModule>,
    sources: Option<Vec<SourceFile>>,
    n: int,
) -> bool {
    &&& forall|k: int| 0 <= k < n ==> #[trigger] records_module(after, modules, sources, k)
    &&& forall|o: int| 0 <= o < before.len() && !names_module(modules, n, before[o].name@)
        ==> exists|j: int| 0 <= j < after.len() && #[trigger] after[j] == before[o]
    &&& forall|j: int| 0 <= j < after.len() ==> has_module(before, #[trigger] after[j].name@)
        || names_module(modules, n, after[j].name@)
}

fn clone_location(loc: &Option<Location>) -> (r: Option<Location>)
    ensures
        r == *loc,
{
    match loc {
        Some(l) => Some(Location { path: l.path.clone(), line: l.line }),
        None => None,
    }
}

fn clone_strings(v: &Vec<String>) -> (r: Vec<String>)
    ensures
        r@ == v@,
{
    let mut r: Vec<String> = Vec::new();
    let mut i: usize = 0;
    while i < v.len()
        invariant
            i <= v.len(),
            r@ == v@.take(i as int),
        decreases v.len() - i,
    {
        r.push(v[i].clone());
        i = i + 1;
        assert(r@ =~= v@.take(i as int));
    }
    assert(r@ =~= v@);
    r
}

fn struct_results(defs: &Vec<StructDef>) -> (r: Vec<StructResult>)
    ensures
        r@.len() == defs@.len(),
        forall|k: int| 0 <= k < r@.len() ==> {
            &&& #[trigger] r@[k].name == defs@[k].name
            &&& r@[k].abilities@ == defs@[k].abilities@
            &&& r@[k].source_code@ == Seq::<char>::empty()
        },
{
    let mut r: Vec<StructResult> = Vec::new();
    let mut i: usize = 0;
    while i < defs.len()
        invariant
            i <= defs.len(),
            r@.len() == i,
            forall|k: int| 0 <= k < i ==> {
                &&& #[trigger] r@[k].name == defs@[k].name
                &&& r@[k].abilities@ == defs@[k].abilities@
                &&& r@[k].source_code@ == Seq::<char>::empty()
            },
        decreases defs.len() - i,
    {
        let def = &defs[i];
        r.push(StructResult { name: def.name.clone(), abilities: clone_strings(&def.abilities), source_code: String::new() });
        i = i + 1;
    }
    r
}

fn count_natives(functions: &Vec<FunctionInfo>) -> (n: usize)
    ensures
        n == native_count(functions@),
        n <= functions@.len(),
{
    let mut n: usize = 0;
    let mut i: usize = 0;
    while i < functions.len()
        invariant
            i <= functions.len(),
            n == native_count(functions@.take(i as int)),
            n <= i,
        decreases functions.len() - i,
    {
        assert(functions@.take(i + 1).drop_last() =~= functions@.take(i as int));
        if functions[i].is_native {
            n = n + 1;
        }
        i = i + 1;
    }
    assert(functions@.take(functions.len() as int) =~= functions@);
    n
}

/// The summary of module `m`, declared at `location`.
fn module_summary(m: &PackageModule, location: Option<Location>) -> (info: ModuleInfo)
    ensures
        summarizes(info, *m),
        info.location == location,
{
    let mut info = ModuleInfo::empty();
    info.constant_count = m.module.constant_count;
    info.function_count = FunctionCount { all: m.stbgr.functions.len(), native: count_natives(&m.stbgr.functions) };
    info.location = location;
    info.structs = struct_results(&m.module.struct_defs);
    info
}

#[verifier::external_type_specification]
#[verifier::external_body]
pub struct ExInstant(Instant);

/// `Instant::elapsed`: the time since `clock`; it depends on the clock, so
/// nothing is claimed of it.
#[verifier::external_body]
fn elapsed_since(clock: &Instant) -> Duration {
    clock.elapsed()
}

/// `Duration::as_micros`: nothing is claimed of the number, as nothing is
/// known of the duration it comes from.
#[verifier::external_body]
fn whole_micros(duration: &Duration) -> u128 {
    duration.as_micros()
}

/// `num::ToPrimitive::to_usize` on a `u128`: the same number where it fits
/// in a `usize`, else `None` (so the crate's source shows).
#[verifier::external_body]
fn micros_to_usize(micros: u128) -> (r: Option<usize>)
    ensures
        micros <= usize::MAX ==> r == Some(micros as usize),
        micros > usize::MAX ==> r is None,
{
    micros.to_usize()
}

/// The suffix that names the knowledge-graph file after the output file.
pub const GRAPH_FILE_SUFFIX: &'static str = "_graph.json";

/// The extension of the knowledge-graph file where the output path has no file stem.
pub const GRAPH_EXTENSION: &'static str = "graph.json";

/// The file name of the knowledge graph, for an output file with stem `stem`.
pub fn graph_file_name(stem: &str) -> (r: String)
    ensures
        r@ == stem@ + GRAPH_FILE_SUFFIX@,
{
    let mut name = stem.to_owned();
    name.append(GRAPH_FILE_SUFFIX);
    name
}

/// `after` is `before` with every module marked as passed and nothing else changed.
pub open spec fn all_passed(before: Seq<ModuleEntry>, after: Seq<ModuleEntry>) -> bool {
    &&& after.len() == before.len()
    &&& forall|i: int| 0 <= i < after.len() ==> {
        &&& #[trigger] after[i].name == before[i].name
        &&& after[i].info == (ModuleInfo { status: Status::Pass, ..before[i].info })
    }
}

impl GraphGenerator {
    /// A generator for `options`, with no modules yet.
    pub fn new(options: Options) -> (g: Self)
        ensures
            g.options == options,
            g.result.modules@.len() == 0,
            g.result.total_time == 0,
            g.result.well_formed(),
    {
        Self { options, result: ScanResult::empty() }
    }

    /// Records a summary of each module of `packages`: its constants, its
    /// functions and how many are native, its structs, and the line of
    /// `sources` that declares it (see `find_module_path`). A module already
    /// recorded is replaced. When no pattern can be built from a module name,
    /// nothing is recorded and the error says which name.
    pub fn init_result(&mut self, packages: &Packages, sources: &Option<Vec<SourceFile>>) -> (r: Result<(), LocateError>)
        requires
            old(self).result.well_formed(),
            packages.well_formed(),
        ensures
            r is Ok <==> patterns_compile(packages.modules@, *sources),
            r is Err ==> *final(self) == *old(self),
            r is Ok ==> {
                &&& final(self).result.well_formed()
                &&& final(self).options == old(self).options
                &&& final(self).result.total_time == old(self).result.total_time
                &&& records_prefix(old(self).result.modules@, final(self).result.modules@, packages.modules@, *sources,
                    packages.modules@.len() as int)
            },
    {
        let names = packages.get_module_names();
        let locations = match find_module_path(&names, sources) {
            Ok(locations) => locations,
            Err(e) => {
                assert(!patterns_compile(packages.modules@, *sources)) by {
                    let files = sources->0;
                    let i = choose|i: int| 0 <= i < names@.len() && names@[i]@ == (e->module_name)@
                        && !module_pattern_compiles(names@[i]@);
                    assert(names@[i] == packages.modules@[i].name);
                }
                return Err(e);
            },
        };
        assert(patterns_compile(packages.modules@, *sources)) by {
            if sources is Some {
                assert forall|k: int| 0 <= k < packages.modules@.len() implies
                    #[trigger] module_pattern_compiles(packages.modules@[k].name@) by {
                    assert(names@[k] == packages.modules@[k].name);
                }
            }
        }
        let ghost before = self.result.modules@;
        let ghost modules = packages.modules@;
        let mut i: usize = 0;
        while i < packages.modules.len()
            invariant
                modules == packages.modules@,
                packages.well_formed(),
                names@ == module_names(modules),
                locations@.len() == modules.len(),
                forall|k: int| 0 <= k < modules.len() ==> #[trigger] located(locations@[k], modules, *sources, k),
                i <= modules.len(),
                self.result.well_formed(),
                self.options == old(self).options,
                self.result.total_time == old(self).result.total_time,
                records_prefix(before, self.result.modules@, modules, *sources, i as int),
            decreases modules.len() - i,
        {
            let m = &packages.modules[i];
            let info = module_summary(m, clone_location(&locations[i]));
            assert(located(locations@[i as int], modules, *sources, i as int));
            let ghost mid = self.result.modules@;
            self.result.add_module(m.name.clone(), info);
            let ghost after = self.result.modules@;
            proof {
                let name = modules[i as int].name@;
                // The entry for module `i`.
                let j = if has_module(mid, name) {
                    choose|j: int| 0 <= j < mid.len() && mid[j].name@ == name
                        && after == mid.update(j, (ModuleEntry { name: mid[j].name, info }))
                } else {
                    mid.len() as int
                };
                assert(after[j].name@ == name && after[j].info == info);
                assert(records_module(after, modules, *sources, i as int));
                // Entries other than `j` are those of `mid`.
                assert forall|q: int| 0 <= q < after.len() && q != j implies q < mid.len() && #[trigger] after[q] == mid[q] by {}
                assert forall|k: int| 0 <= k < i + 1 implies #[trigger] records_module(after, modules, *sources, k) by {
                    if k < i {
                        assert(records_module(mid, modules, *sources, k));
                        let q = choose|q: int| 0 <= q < mid.len() && #[trigger] mid[q].name@ == modules[k].name@
                            && summarizes(mid[q].info, modules[k]) && located(mid[q].info.location, modules, *sources, k);
                        assert(modules[k].name@ != modules[i as int].name@);
                        assert(q != j);
                        assert(after[q] == mid[q]);
                    }
                }
                assert forall|o: int| 0 <= o < before.len() && !names_module(modules, i + 1, before[o].name@) implies
                    exists|q: int| 0 <= q < after.len() && #[trigger] after[q] == before[o] by {
                    assert(!names_module(modules, i as int, before[o].name@)) by {
                        if names_module(modules, i as int, before[o].name@) {
                            let k = choose|k: int| 0 <= k < i && #[trigger] modules[k].name@ == before[o].name@;
                            assert(names_module(modules, i + 1, before[o].name@));
                        }
                    }
                    let q = choose|q: int| 0 <= q < mid.len() && #[trigger] mid[q] == before[o];
                    assert(before[o].name@ != name) by {
                        if before[o].name@ == name {
                            assert(names_module(modules, i + 1, before[o].name@));
                        }
                    }
                    assert(q != j);
                    assert(after[q] == before[o]);
                }
                assert forall|q: int| 0 <= q < after.len() implies has_module(before, #[trigger] after[q].name@)
                    || names_module(modules, i + 1, after[q].name@) by {
                    if q == j {
                        assert(names_module(modules, i + 1, after[q].name@));
                    } else {
                        assert(after[q] == mid[q]);
                        if names_module(modules, i as int, mid[q].name@) {
                            let k = choose|k: int| 0 <= k < i && #[trigger] modules[k].name@ == mid[q].name@;
                            assert(names_module(modules, i + 1, after[q].name@));
                        }
                    }
                }
            }
            i = i + 1;
        }
        Ok(())
    }

    /// Completes the scan after `elapsed_micros` microseconds: records the
    /// time and marks every module as passed, as no check is run. Where the
    /// time does not fit in a `usize`, nothing changes and the result is `false`.
    pub fn complete_result_at(&mut self, elapsed_micros: u128) -> (done: bool)
        ensures
            done == (elapsed_micros <= usize::MAX),
            done ==> {
                &&& final(self).result.total_time == elapsed_micros
                &&& final(self).options == old(self).options
                &&& all_passed(old(self).result.modules@, final(self).result.modules@)
            },
            !done ==> *final(self) == *old(self),
    {
        let total_time = match micros_to_usize(elapsed_micros) {
            Some(t) => t,
            None => {
                return false;
            },
        };
        self.result.total_time = total_time;
        let ghost before = self.result.modules@;
        let mut i: usize = 0;
        while i < self.result.modules.len()
            invariant
                self.result.total_time == elapsed_micros,
                self.options == old(self).options,
                before == old(self).result.modules@,
                self.result.modules@.len() == before.len(),
                i <= before.len(),
                forall|k: int| 0 <= k < i ==> {
                    &&& #[trigger] self.result.modules@[k].name == before[k].name
                    &&& self.result.modules@[k].info == (ModuleInfo { status: Status::Pass, ..before[k].info })
                },
                forall|k: int| i <= k < before.len() ==> #[trigger] self.result.modules@[k] == before[k],
            decreases before.len() - i,
        {
            let ghost old_modules = self.result.modules@;
            self.result.modules[i].info.status = Status::Pass;
            assert(forall|k: int| 0 <= k < old_modules.len() && k != i ==> self.result.modules@[k] == old_modules[k]);
            assert(old_modules[i as int] == before[i as int]);
            assert(self.result.modules@[i as int].info == (ModuleInfo { status: Status::Pass, ..before[i as int].info }));
            assert forall|k: int| 0 <= k < i + 1 implies {
                &&& #[trigger] self.result.modules@[k].name == before[k].name
                &&& self.result.modules@[k].info == (ModuleInfo { status: Status::Pass, ..before[k].info })
            } by {
                if k < i {
                    assert(self.result.modules@[k] == old_modules[k]);
                    assert(old_modules[k].name == before[k].name);
                }
            }
            i = i + 1;
        }
        true
    }

    /// Completes the scan started at `clock`: records the time since then, in
    /// microseconds, and marks every module as passed (see
    /// `complete_result_at`). Where that time does not fit in a `usize`,
    /// nothing changes and the result is `false`.
    pub fn complete_result(&mut self, clock: Instant) -> (done: bool)
        ensures
            done ==> {
                &&& final(self).options == old(self).options
                &&& all_passed(old(self).result.modules@, final(self).result.modules@)
            },
            !done ==> *final(self) == *old(self),
    {
        let elapsed = elapsed_since(&clock);
        let micros = whole_micros(&elapsed);
        self.complete_result_at(micros)
    }
}

/// A module never has more native functions than functions.
pub proof fn lemma_native_count_bounded(functions: Seq<FunctionInfo>)
    ensures
        native_count(functions) <= functions.len(),
    decreases functions.len(),
{
    if functions.len() > 0 {
        lemma_native_count_bounded(functions.drop_last());
    }
}

/// Completing a scan twice marks the modules as completing it once does.
pub proof fn lemma_completion_idempotent(a: Seq<ModuleEntry>, b: Seq<ModuleEntry>, c: Seq<ModuleEntry>)
    requires
        all_passed(a, b),
        all_passed(b, c),
    ensures
        all_passed(a, c),
{
    assert forall|i: int| 0 <= i < c.len() implies {
        &&& #[trigger] c[i].name == a[i].name
        &&& c[i].info == (ModuleInfo { status: Status::Pass, ..a[i].info })
    } by {
        assert(b[i].name == a[i].name);
        assert(c[i].name == b[i].name);
        assert(b[i].info == (ModuleInfo { status: Status::Pass, ..a[i].info }));
        assert(c[i].info == (ModuleInfo { status: Status::Pass, ..b[i].info }));
    }
}

/// Recording the modules of a package into an empty result records each
/// module exactly once and nothing else: there are as many entries as modules.
pub proof fn lemma_fresh_result_has_one_entry_per_module(
    after: Seq<ModuleEntry>,
    packages: Packages,
    sources: Option<Vec<SourceFile>>,
)
    requires
        packages.well_formed(),
        names_distinct(after),
        records_prefix(Seq::empty(), after, packages.modules@, sources, packages.modules@.len() as int),
    ensures
        after.len() == packages.modules@.len(),
{
    let modules = packages.modules@;
    let a = after.map_values(|e: ModuleEntry| e.name@);
    let m = modules.map_values(|p: PackageModule| p.name@);
    assert(a.no_duplicates()) by {
        assert forall|i: int, j: int| 0 <= i < a.len() && 0 <= j < a.len() && i != j implies a[i] != a[j] by {
            if i < j {
                assert(after[i].name@ != after[j].name@);
            } else {
                assert(after[j].name@ != after[i].name@);
            }
        }
    }
    assert(m.no_duplicates()) by {
        assert forall|i: int, j: int| 0 <= i < m.len() && 0 <= j < m.len() && i != j implies m[i] != m[j] by {
            if i < j {
                assert(modules[i].name@ != modules[j].name@);
            } else {
                assert(modules[j].name@ != modules[i].name@);
            }
        }
    }
    assert(a.to_set() =~= m.to_set()) by {
        assert forall|x: Seq<char>| a.to_set().contains(x) implies m.to_set().contains(x) by {
            let j = choose|j: int| 0 <= j < a.len() && a[j] == x;
            assert(has_module(Seq::empty(), after[j].name@) || names_module(modules, modules.len() as int, after[j].name@));
            let k = choose|k: int| 0 <= k < modules.len() && #[trigger] modules[k].name@ == after[j].name@;
            assert(m[k] == x);
        }
        assert forall|x: Seq<char>| m.to_set().contains(x) implies a.to_set().contains(x) by {
            let k = choose|k: int| 0 <= k < m.len() && m[k] == x;
            assert(records_module(after, modules, sources, k));
            let j = choose|j: int| 0 <= j < after.len() && #[trigger] after[j].name@ == modules[k].name@
                && summarizes(after[j].info, modules[k]) && located(after[j].info.location, modules, sources, k);
            assert(a[j] == x);
        }
    }
    a.unique_seq_to_set();
    m.unique_seq_to_set();
}

} // verus!
