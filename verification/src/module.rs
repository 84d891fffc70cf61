//! Building and loading the kernel module.
//!
//! The build starts from whatever an earlier build left in the sources: no
//! cleaning step stands before it. Every command names the directory it runs
//! in, so the process that runs them never has to change its own.

use vstd::prelude::*;
use crate::command::{inside, invocation, views, Invocation, InvocationView};

verus! {

/// The commands that bring the module up from the sources at `path`: build,
/// install what was built, refresh the index of module dependencies, load the
/// module. Each runs inside `path`, so that the caller's own directory is
/// never left.
pub open spec fn build_commands(path: Seq<char>) -> Seq<InvocationView> {
    seq![
        inside(path, seq!["make"@]),
        inside(path, seq!["sudo"@, "make"@, "install"@]),
        inside(path, seq!["sudo"@, "depmod"@]),
        inside(path, seq!["sudo"@, "modprobe"@, "acpi_call"@]),
    ]
}

/// The commands that build and load the module from the sources at
/// `tpacpi_repo_path`.
pub fn apply_kernel_mod(tpacpi_repo_path: &str) -> (v: Vec<Invocation>)
    ensures
        views(v@) == build_commands(tpacpi_repo_path@),
{
    let path = tpacpi_repo_path;
    let make = invocation(vec!["make"], Some(path));
    let install = invocation(vec!["sudo", "make", "install"], Some(path));
    let depmod = invocation(vec!["sudo", "depmod"], Some(path));
    let modprobe = invocation(vec!["sudo", "modprobe", "acpi_call"], Some(path));
    proof {
        let b = build_commands(path@);
        assert(make@.argv =~= b[0].argv);
        assert(install@.argv =~= b[1].argv);
        assert(depmod@.argv =~= b[2].argv);
        assert(modprobe@.argv =~= b[3].argv);
    }
    let mut v: Vec<Invocation> = Vec::new();
    v.push(make);
    v.push(install);
    v.push(depmod);
    v.push(modprobe);
    assert(views(v@) =~= build_commands(path@));
    v
}

} // verus!
