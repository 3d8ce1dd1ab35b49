//! The compiled modules of a package, as the scanner reads them.

use vstd::prelude::*;
use crate::bytecode::StacklessBytecodeGenerator;

verus! {

/// A struct definition of a compiled module, with the names of its abilities.
#[derive(Clone, Debug)]
pub struct StructDef {
    pub name: String,
    pub abilities: Vec<String>,
}

/// What the scanner reads of a compiled module besides its functions.
#[derive(Clone, Debug)]
pub struct CompiledModuleInfo {
    pub constant_count: usize,
    pub struct_defs: Vec<StructDef>,
}

/// A compiled module with its functions in stackless bytecode.
#[derive(Clone, Debug)]
pub struct PackageModule {
    pub name: String,
    pub module: CompiledModuleInfo,
    pub stbgr: StacklessBytecodeGenerator,
}

/// The modules of the packages under scan.
#[derive(Clone, Debug)]
pub struct Packages {
    pub modules: Vec<PackageModule>,
}

/// The names of the modules of `modules`, in order.
pub open spec fn module_names(modules: Seq<PackageModule>) -> Seq<String> {
    modules.map_values(|m: PackageModule| m.name)
}

impl Packages {
    /// Each module occurs once, as in a map from module names.
    pub open spec fn well_formed(self) -> bool {
        forall|i: int, j: int| 0 <= i < j < self.modules@.len() ==> self.modules@[i].name@ != self.modules@[j].name@
    }

    /// The names of the modules, in order.
    pub fn get_module_names(&self) -> (names: Vec<String>)
        ensures
            names@ == module_names(self.modules@),
    {
        let mut names: Vec<String> = Vec::new();
        let mut i: usize = 0;
        while i < self.modules.len()
            invariant
                i <= self.modules.len(),
                names@ == module_names(self.modules@).take(i as int),
            decreases self.modules.len() - i,
        {
            names.push(self.modules[i].name.clone());
            i = i + 1;
            assert(names@ =~= module_names(self.modules@).take(i as int));
        }
        assert(names@ =~= module_names(self.modules@));
        names
    }
}

} // verus!
