//! The first run's installation: two copies into the system's binary
//! directory, and the task that brings the installer back after a reboot.
//!
//! The task's line carries the fixed argument `--apply`, so that the run after
//! a reboot is a later run: it brings the module up and installs nothing.

use vstd::prelude::*;
use crate::command::{here, invocation, Invocation, InvocationView};

verus! {

/// The command that copies the battery helper into the binary directory.
pub open spec fn helper_copy() -> InvocationView {
    here(seq!["sudo"@, "cp"@, "tpacpi-bat"@, "/usr/bin"@])
}

/// The command that copies the program called `name` into the binary
/// directory.
pub open spec fn self_copy(name: Seq<char>) -> InvocationView {
    here(seq!["sudo"@, "cp"@, name, "/usr/bin"@])
}

/// The command that prints the superuser's table of scheduled tasks.
pub open spec fn table_listing() -> InvocationView {
    here(seq!["sudo"@, "crontab"@, "-l"@])
}

/// The command that replaces the superuser's table of scheduled tasks by what
/// it reads from its input.
pub open spec fn table_replacement() -> InvocationView {
    here(seq!["sudo"@, "crontab"@, "-"@])
}

/// The line of the table that runs the installed program called `name` after
/// each reboot, to bring the module up again.
pub open spec fn reboot_line(name: Seq<char>) -> Seq<char> {
    "@reboot /usr/bin/"@ + name + " --apply"@
}

/// How the program installs itself: the copy to make, the command that lists
/// the table of scheduled tasks, the line to register in what it prints, and
/// the command that takes the new table.
#[derive(Debug)]
pub struct SelfInstall {
    pub copy: Invocation,
    /// A user without a table has this command fail, and it then prints
    /// nothing: its exit code says nothing of the run, and the table is what
    /// it printed.
    pub list: Invocation,
    pub line: String,
    pub replace: Invocation,
}

/// The command that installs the battery helper.
pub fn install_tpacpi_bat() -> (c: Invocation)
    ensures
        c@ == helper_copy(),
{
    let c = invocation(vec!["sudo", "cp", "tpacpi-bat", "/usr/bin"], None);
    assert(c@.argv =~= helper_copy().argv);
    c
}

/// The line of the table for the program called `name`.
pub fn reboot_job(name: &str) -> (line: String)
    ensures
        line@ == reboot_line(name@),
{
    "@reboot /usr/bin/".to_owned().concat(name).concat(" --apply")
}

/// The self-installation of the program called `name`.
pub fn install_self(name: &str) -> (s: SelfInstall)
    ensures
        s.copy@ == self_copy(name@),
        s.list@ == table_listing(),
        s.line@ == reboot_line(name@),
        s.replace@ == table_replacement(),
{
    let copy = invocation(vec!["sudo", "cp", name, "/usr/bin"], None);
    let list = invocation(vec!["sudo", "crontab", "-l"], None);
    let replace = invocation(vec!["sudo", "crontab", "-"], None);
    assert(copy@.argv =~= self_copy(name@).argv);
    assert(list@.argv =~= table_listing().argv);
    assert(replace@.argv =~= table_replacement().argv);
    SelfInstall { copy, list, line: reboot_job(name), replace }
}

/// The line for a program whose name holds no line feed can stand as one line
/// of the table.
pub proof fn lemma_reboot_line_is_single(name: Seq<char>)
    requires
        forall|i: int| 0 <= i < name.len() ==> name[i] != '\n',
    ensures
        crate::schedule::single_line(reboot_line(name)),
{
    reveal_strlit("@reboot /usr/bin/");
    reveal_strlit(" --apply");
    let line = reboot_line(name);
    let a = "@reboot /usr/bin/"@;
    let b = " --apply"@;
    assert(line.len() == a.len() + name.len() + b.len());
    assert forall|i: int| 0 <= i < line.len() implies line[i] != '\n' by {
        if i < a.len() {
            assert(line[i] == a[i]);
        } else if i < a.len() + name.len() {
            assert(line[i] == name[i - a.len()]);
        } else {
            assert(line[i] == b[i - a.len() - name.len()]);
        }
    }
    assert(line.last() == b[7]);
}

} // verus!
