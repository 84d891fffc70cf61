//! The working copy of the module's sources.

use vstd::prelude::*;
use crate::command::{here, inside, invocation, views, Invocation, InvocationView};

verus! {

/// Where the module's sources are published.
pub open spec fn remote() -> Seq<char> {
    "git://github.com/nix-community/acpi_call.git"@
}

/// Where the working copy of `user` lies.
pub open spec fn repo_path_of(user: Seq<char>) -> Seq<char> {
    "/home/"@ + user + "/acpi_call"@
}

/// The command that makes a fresh working copy at `path`.
pub open spec fn clone_command(path: Seq<char>) -> InvocationView {
    here(seq!["git"@, "clone"@, remote(), path])
}

/// The commands that bring the working copy at `path` to the remote's state:
/// fetch, drop every local change, remove what is not tracked, and check out
/// the remote's main branch. Each runs inside the working copy.
pub open spec fn refresh_commands(path: Seq<char>) -> Seq<InvocationView> {
    seq![
        inside(path, seq!["git"@, "fetch"@]),
        inside(path, seq!["git"@, "reset"@, "HEAD"@, "--hard"@]),
        inside(path, seq!["git"@, "clean"@, "-fd"@]),
        inside(path, seq!["git"@, "checkout"@, "origin/master"@]),
    ]
}

/// The commands of a synchronisation: a clone first where nothing exists at
/// `path` yet, then the refresh in either case.
pub open spec fn sync_commands(path: Seq<char>, exists: bool) -> Seq<InvocationView> {
    if exists {
        refresh_commands(path)
    } else {
        seq![clone_command(path)] + refresh_commands(path)
    }
}

/// The path of the working copy of `user`.
pub fn repo_path(user: &str) -> (path: String)
    ensures
        path@ == repo_path_of(user@),
{
    "/home/".to_owned().concat(user).concat("/acpi_call")
}

/// The commands that synchronise the working copy at `local_repo_path`, where
/// `exists` tells whether anything lies at that path already.
pub fn create_dependent_repo(local_repo_path: &str, exists: bool) -> (v: Vec<Invocation>)
    ensures
        views(v@) == sync_commands(local_repo_path@, exists),
{
    let path = local_repo_path;
    let mut v: Vec<Invocation> = Vec::new();
    if !exists {
        let c = invocation(
            vec!["git", "clone", "git://github.com/nix-community/acpi_call.git", path],
            None,
        );
        assert(c@.argv =~= clone_command(path@).argv);
        v.push(c);
    }
    let fetch = invocation(vec!["git", "fetch"], Some(path));
    let reset = invocation(vec!["git", "reset", "HEAD", "--hard"], Some(path));
    let clean = invocation(vec!["git", "clean", "-fd"], Some(path));
    let checkout = invocation(vec!["git", "checkout", "origin/master"], Some(path));
    proof {
        let r = refresh_commands(path@);
        assert(fetch@.argv =~= r[0].argv);
        assert(reset@.argv =~= r[1].argv);
        assert(clean@.argv =~= r[2].argv);
        assert(checkout@.argv =~= r[3].argv);
    }
    v.push(fetch);
    v.push(reset);
    v.push(clean);
    v.push(checkout);
    assert(views(v@) =~= sync_commands(path@, exists));
    v
}

/// Whatever lay at the path before, a synchronisation ends with the same
/// commands: where nothing existed, it is the clone followed by exactly what
/// is run on an existing working copy.
pub proof fn lemma_sync_ends_alike(path: Seq<char>)
    ensures
        sync_commands(path, false) == seq![clone_command(path)] + sync_commands(path, true),
        forall|exists: bool| #[trigger]
            sync_commands(path, exists).subrange(
                sync_commands(path, exists).len() - 4,
                sync_commands(path, exists).len() as int,
            ) == refresh_commands(path),
{
    assert forall|exists: bool| #[trigger]
        sync_commands(path, exists).subrange(
            sync_commands(path, exists).len() - 4,
            sync_commands(path, exists).len() as int,
        ) == refresh_commands(path) by {
        let s = sync_commands(path, exists);
        assert(s.subrange(s.len() - 4, s.len() as int) =~= refresh_commands(path));
    }
}

} // verus!
