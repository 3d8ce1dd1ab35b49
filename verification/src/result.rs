//! What a scan finds for each module.

use vstd::prelude::*;

verus! {

pub type ModuleName = String;

/// A line of a source file, numbered from 1.
#[derive(Clone, Debug, PartialEq, Eq)]
pub struct Location {
    pub path: String,
    pub line: usize,
}

/// Whether the checks of a module have completed.
#[derive(Clone, Copy, Debug, PartialEq, Eq)]
pub enum Status {
    Pending,
    Pass,
}

/// How many functions a module defines, and how many of them are native.
#[derive(Clone, Copy, Debug, PartialEq, Eq)]
pub struct FunctionCount {
    pub all: usize,
    pub native: usize,
}

/// A struct that a module defines, with its abilities.
#[derive(Clone, Debug, PartialEq, Eq)]
pub struct StructResult {
    pub name: String,
    pub abilities: Vec<String>,
    pub source_code: String,
}

/// The summary of one module.
#[derive(Clone, Debug, PartialEq, Eq)]
pub struct ModuleInfo {
    pub constant_count: usize,
    pub function_count: FunctionCount,
    pub location: Option<Location>,
    pub structs: Vec<StructResult>,
    pub status: Status,
}

/// A module and its summary.
#[derive(Clone, Debug, PartialEq, Eq)]
pub struct ModuleEntry {
    pub name: ModuleName,
    pub info: ModuleInfo,
}

/// The modules of a scan, each once, and the time the scan took, in microseconds.
#[derive(Clone, Debug, PartialEq, Eq)]
pub struct ScanResult {
    pub modules: Vec<ModuleEntry>,
    pub total_time: usize,
}

impl ModuleInfo {
    pub open spec fn is_empty_info(self) -> bool {
        &&& self.constant_count == 0
        &&& self.function_count == FunctionCount { all: 0, native: 0 }
        &&& self.location is None
        &&& self.structs@.len() == 0
        &&& self.status == Status::Pending
    }

    /// The summary of a module about which nothing is known yet.
    pub fn empty() -> (r: Self)
        ensures
            r.is_empty_info(),
    {
        ModuleInfo {
            constant_count: 0,
            function_count: FunctionCount { all: 0, native: 0 },
            location: None,
            structs: Vec::new(),
            status: Status::Pending,
        }
    }
}

/// No module occurs twice.
pub open spec fn names_distinct(entries: Seq<ModuleEntry>) -> bool {
    forall|i: int, j: int| 0 <= i < j < entries.len() ==> entries[i].name@ != entries[j].name@
}

/// Some entry of `entries` is named `name`.
pub open spec fn has_module(entries: Seq<ModuleEntry>, name: Seq<char>) -> bool {
    exists|i: int| 0 <= i < entries.len() && #[trigger] entries[i].name@ == name
}

impl ScanResult {
    pub open spec fn well_formed(self) -> bool {
        names_distinct(self.modules@)
    }

    /// A result without modules.
    pub fn empty() -> (r: Self)
        ensures
            r.modules@.len() == 0,
            r.total_time == 0,
            r.well_formed(),
    {
        ScanResult { modules: Vec::new(), total_time: 0 }
    }

    /// Records `info` as the summary of module `name`: it replaces the summary
    /// of a module of that name, and is added at the end otherwise.
    pub fn add_module(&mut self, name: ModuleName, info: ModuleInfo)
        requires
            old(self).well_formed(),
        ensures
            final(self).well_formed(),
            final(self).total_time == old(self).total_time,
            has_module(old(self).modules@, name@) ==> exists|i: int|
                0 <= i < old(self).modules@.len() && old(self).modules@[i].name@ == name@
                && final(self).modules@ == old(self).modules@.update(i, (ModuleEntry { name: old(self).modules@[i].name, info })),
            !has_module(old(self).modules@, name@) ==> final(self).modules@ == old(self).modules@.push(
                (ModuleEntry { name, info }),
            ),
    {
        let mut i: usize = 0;
        while i < self.modules.len()
            invariant
                self.modules@ == old(self).modules@,
                self.total_time == old(self).total_time,
                old(self).well_formed(),
                i <= self.modules.len(),
                forall|k: int| 0 <= k < i ==> self.modules@[k].name@ != name@,
            decreases self.modules.len() - i,
        {
            if self.modules[i].name == name {
                let entry_name = self.modules[i].name.clone();
                let ghost before = self.modules@;
                self.modules.set(i, ModuleEntry { name: entry_name, info });
                assert(self.modules@ == before.update(i as int, (ModuleEntry { name: before[i as int].name, info })));
                assert forall|a: int, b: int| 0 <= a < b < self.modules@.len() implies
                    self.modules@[a].name@ != self.modules@[b].name@ by {
                    assert(before[a].name@ != before[b].name@);
                }
                return;
            }
            i = i + 1;
        }
        let ghost before = self.modules@;
        self.modules.push(ModuleEntry { name, info });
        assert forall|a: int, b: int| 0 <= a < b < self.modules@.len() implies
            self.modules@[a].name@ != self.modules@[b].name@ by {
            if b < before.len() {
                assert(before[a].name@ != before[b].name@);
            }
        }
    }
}

} // verus!
