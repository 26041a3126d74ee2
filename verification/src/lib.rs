//! Orchestration core of a desktop dictation utility's locally hosted
//! speech-recognition runtime: the logic that provisions, starts, supervises
//! and tears down a containerized model server, plus the line-delimited JSON
//! event protocol of its out-of-process provisioning worker, the trigger-card
//! text rules, and the validation of persisted settings.
//!
//! Everything here is pure decision logic and data: the surrounding process
//! spawning, HTTP polling and file I/O live in the driver binary, which feeds
//! observations in and carries the returned actions out.
use vstd::prelude::*;

pub mod actions;
pub mod client;
pub mod codec;
pub mod events;
pub mod facade;
pub mod gateway;
pub mod model;
pub mod monitor;
pub mod outcome;
pub mod overlay;
pub mod settings;
pub mod startup;
pub mod tail;
pub mod text;
pub mod triggers;
pub mod urlinfo;
pub mod volcengine;
pub mod worker;

verus! {

/// The two-way variant split the application shell uses when deciding whether
/// a runtime restart is needed after settings change: anything that is not
/// `voxtral` counts as the default backend.
pub fn normalize_local_model(value: &str) -> (r: &str)
    ensures
        crate::model::eq_ignore_ascii_case_spec(value@, "voxtral"@) ==> r@ == "voxtral"@,
        !crate::model::eq_ignore_ascii_case_spec(value@, "voxtral"@) ==> r@ == "sensevoice"@,
{
    if crate::model::eq_ignore_ascii_case(value, "voxtral") {
        "voxtral"
    } else {
        "sensevoice"
    }
}


/// The worker flag's companion argument: the path of the serialized job.
pub fn parse_sensevoice_worker_job_file_arg(args: &[String]) -> (r: Option<String>)
    ensures
        r is Some ==> (exists|i: int|
            0 <= i && i + 1 < args@.len() && #[trigger] args@[i]@ == "--job-file"@ && r->Some_0@
                == args@[i + 1]@),
        r is None ==> (forall|i: int| 0 <= i < args@.len() ==> #[trigger] args@[i]@
            != "--job-file"@) || (args@.len() >= 1 && args@[args@.len() - 1]@ == "--job-file"@),
{
    crate::events::parse_job_file_arg(args)
}

/// Whether switching the configured variant must restart a live runtime:
/// only when the normalized names differ and a runtime is running.
pub fn should_restart_runtime(
    previous_local_model: &str,
    next_local_model: &str,
    has_running_runtime: bool,
) -> (r: bool)
    ensures
        r == (crate::model::eq_ignore_ascii_case_spec(previous_local_model@, "voxtral"@)
            != crate::model::eq_ignore_ascii_case_spec(next_local_model@, "voxtral"@)
            && has_running_runtime),
{
    proof {
        reveal_strlit("voxtral");
        reveal_strlit("sensevoice");
        assert("voxtral"@.len() == 7);
        assert("sensevoice"@.len() == 10);
    }
    let previous = normalize_local_model(previous_local_model);
    let next = normalize_local_model(next_local_model);
    if crate::model::str_eq(previous, next) {
        return false;
    }
    has_running_runtime
}

} // verus!
