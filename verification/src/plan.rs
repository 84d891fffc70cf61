//! What a run of the installer consists of.
//!
//! A run without an argument is the first run: it installs the helper and the
//! program itself, registers the task, synchronises the sources, and only
//! then brings the module up. A run with an argument brings the module up and
//! does nothing else; the argument names the user whose working copy is used.
//! On a system other than Linux a run does nothing at all.

use vstd::prelude::*;
use crate::repo::{repo_path, repo_path_of};

verus! {

/// One step of a run.
#[derive(Clone, Copy, Debug, PartialEq, Eq, Structural)]
pub enum Step {
    /// Copy the battery helper into the binary directory.
    InstallHelper,
    /// Copy the program into the binary directory and register its task.
    InstallSelf,
    /// Clone or refresh the working copy of the module's sources.
    SyncRepository,
    /// Build, install and load the module.
    ApplyKernelModule,
}

/// The steps of a run, with the user it works for and that user's working
/// copy.
#[derive(Debug)]
pub struct Plan {
    pub user: String,
    pub repo_path: String,
    pub steps: Vec<Step>,
}

/// What is said where the system is not Linux.
pub open spec fn idle_notice() -> Seq<char> {
    "If you run this program on an OS other than linux, it will not do anything."@
}

/// The steps that only a first run takes.
pub open spec fn is_bootstrap_step(step: Step) -> bool {
    step != Step::ApplyKernelModule
}

/// The steps of a first run, or of a later one.
pub open spec fn steps_of(first_run: bool) -> Seq<Step> {
    if first_run {
        seq![
            Step::InstallHelper,
            Step::InstallSelf,
            Step::SyncRepository,
            Step::ApplyKernelModule,
        ]
    } else {
        seq![Step::ApplyKernelModule]
    }
}

/// The user a run works for: the one its argument names, or else the one who
/// is logged in.
pub open spec fn user_of(arg: Option<Seq<char>>, login: Seq<char>) -> Seq<char> {
    match arg {
        Some(name) => name,
        None => login,
    }
}

/// The view of an optional string.
pub open spec fn text_of(arg: Option<String>) -> Option<Seq<char>> {
    match arg {
        Some(name) => Some(name@),
        None => None,
    }
}

/// The user a run works for.
pub fn user_or(arg: Option<String>, login: String) -> (user: String)
    ensures
        user@ == user_of(text_of(arg), login@),
{
    match arg {
        Some(name) => name,
        None => login,
    }
}

/// The run to make on a system that is Linux or not, with the argument the
/// program was given, if any, and the name of the user who is logged in.
/// There is no run on a system other than Linux.
pub fn plan(linux: bool, arg: Option<String>, login: String) -> (p: Option<Plan>)
    ensures
        p is Some <==> linux,
        p is Some ==> {
            let p = p->Some_0;
            &&& p.user@ == user_of(text_of(arg), login@)
            &&& p.repo_path@ == repo_path_of(p.user@)
            &&& p.steps@ == steps_of(arg is None)
        },
{
    if !linux {
        return None;
    }
    let mut steps: Vec<Step> = Vec::new();
    if arg.is_none() {
        steps.push(Step::InstallHelper);
        steps.push(Step::InstallSelf);
        steps.push(Step::SyncRepository);
    }
    steps.push(Step::ApplyKernelModule);
    assert(steps@ =~= steps_of(arg is None));
    let user = user_or(arg, login);
    let path = repo_path(user.as_str());
    Some(Plan { user, repo_path: path, steps })
}

/// What the program says in place of a run on a system other than Linux.
pub fn notice() -> (s: String)
    ensures
        s@ == idle_notice(),
{
    "If you run this program on an OS other than linux, it will not do anything.".to_owned()
}

/// A first run takes every bootstrap step before it brings the module up,
/// and brings it up last; a later run takes no bootstrap step at all. Either
/// run brings the module up exactly once.
pub proof fn lemma_bootstrap_comes_first()
    ensures
        forall|i: int, j: int|
            0 <= i < steps_of(true).len() && 0 <= j < steps_of(true).len() && is_bootstrap_step(
                #[trigger] steps_of(true)[i],
            ) && !is_bootstrap_step(#[trigger] steps_of(true)[j]) ==> i < j,
        steps_of(true).contains(Step::InstallHelper),
        steps_of(true).contains(Step::InstallSelf),
        steps_of(true).contains(Step::SyncRepository),
        forall|i: int|
            0 <= i < steps_of(false).len() ==> !is_bootstrap_step(#[trigger] steps_of(false)[i]),
        forall|first_run: bool| #[trigger]
            steps_of(first_run).last() == Step::ApplyKernelModule,
        forall|first_run: bool, i: int|
            0 <= i < steps_of(first_run).len() - 1 ==> #[trigger] steps_of(first_run)[i]
                != Step::ApplyKernelModule,
{
    assert(steps_of(true)[0] == Step::InstallHelper);
    assert(steps_of(true)[1] == Step::InstallSelf);
    assert(steps_of(true)[2] == Step::SyncRepository);
}

} // verus!
