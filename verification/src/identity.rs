//! Who the installer works for when it is not told.

use vstd::prelude::*;
use crate::plan::{plan, steps_of, text_of, Plan};
use crate::repo::repo_path_of;

verus! {

/// The name of the user who runs the program, as `whoami::username` reports
/// it. The name comes from the system's user database, so nothing is claimed
/// of it.
#[verifier::external_body]
fn login_name() -> (name: String) {
    whoami::username()
}

/// The run to make for the argument the program was given, if any, on a system
/// that is Linux or not. Without an argument the run works for the user who is
/// logged in, whoever that is; with one, for the user it names.
pub fn plan_for_host(linux: bool, arg: Option<String>) -> (p: Option<Plan>)
    ensures
        p is Some <==> linux,
        p is Some ==> {
            let p = p->Some_0;
            &&& text_of(arg) is Some ==> p.user@ == text_of(arg)->Some_0
            &&& p.repo_path@ == repo_path_of(p.user@)
            &&& p.steps@ == steps_of(arg is None)
        },
{
    if !linux {
        return None;
    }
    let login: String = login_name();
    plan(linux, arg, login)
}

} // verus!
