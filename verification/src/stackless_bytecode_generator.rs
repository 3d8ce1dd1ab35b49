//! A function of a module with its signature and stackless bytecode.

use vstd::prelude::*;
use crate::bytecode::Bytecode;
use crate::text::str_starts_with;

verus! {

/// The visibility of a Move function.
#[derive(Clone, Copy, Debug, PartialEq, Eq)]
pub enum Visibility {
    Private,
    Public,
    Friend,
}

/// A function with its module, visibility, signature (the types written out)
/// and its stackless bytecode.
#[derive(Clone, Debug)]
pub struct Function {
    pub name: String,
    pub module_name: String,
    pub visibility: Visibility,
    pub is_entry: bool,
    pub params: Vec<String>,
    pub rets: Vec<String>,
    pub bytecodes: Vec<Bytecode>,
}

/// Whether the module with full name `full_name` belongs to the framework at
/// address `0x1`, whose functions are left out when targets are printed.
pub fn is_framework_module(full_name: &str) -> (r: bool)
    ensures
        r == (3 <= full_name@.len() && full_name@.subrange(0, 3) == "0x1"@),
{
    proof {
        reveal_strlit("0x1");
    }
    str_starts_with(full_name, "0x1")
}

} // verus!
