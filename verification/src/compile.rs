//! Which command builds a Move project, by what its manifest says.

use vstd::prelude::*;
use crate::text::{contains_seq, str_contains};

verus! {

/// The shell command that builds the project whose `Move.toml` reads
/// `manifest`: a Sui project (the manifest mentions `sui`) is built with
/// `sui move build`, else an Aptos project (it mentions `aptos`) with
/// `aptos move compile`; any other manifest is no Move project (`None`).
/// Without a manifest the command is empty.
pub open spec fn spec_build_command(manifest: Option<Seq<char>>) -> Option<Seq<char>> {
    match manifest {
        None => Some(""@),
        Some(m) => if contains_seq(m, "sui"@) {
            Some("sui move build"@)
        } else if contains_seq(m, "aptos"@) {
            Some("aptos move compile"@)
        } else {
            None
        },
    }
}

/// The shell command that builds the project with manifest `manifest`
/// (`None` where the project has no readable `Move.toml`); `None` when the
/// manifest is not that of a Sui or Aptos project.
pub fn build_command(manifest: Option<&str>) -> (r: Option<&'static str>)
    ensures
        spec_build_command(match manifest {
            Some(m) => Some(m@),
            None => None,
        }) == match r {
            Some(c) => Some(c@),
            None => None::<Seq<char>>,
        },
{
    match manifest {
        None => Some(""),
        Some(contents) => {
            if str_contains(contents, "sui") {
                Some("sui move build")
            } else if str_contains(contents, "aptos") {
                Some("aptos move compile")
            } else {
                None
            }
        },
    }
}


/// The Sui command comes exactly from a manifest that mentions `sui`; a
/// manifest that mentions `aptos` and not `sui` gets the Aptos command; one
/// that mentions neither is no Move project.
pub proof fn lemma_command_follows_mentions(manifest: Seq<char>)
    ensures
        spec_build_command(Some(manifest)) == Some("sui move build"@) <==> contains_seq(manifest, "sui"@),
        !contains_seq(manifest, "sui"@) && contains_seq(manifest, "aptos"@)
            ==> spec_build_command(Some(manifest)) == Some("aptos move compile"@),
        !contains_seq(manifest, "sui"@) && !contains_seq(manifest, "aptos"@) ==> spec_build_command(Some(manifest)) is None,
{
    reveal_strlit("sui move build");
    reveal_strlit("aptos move compile");
    assert("sui move build"@[0] != "aptos move compile"@[0]);
}

} // verus!
