//! What a run is asked to do: its mode, its number of worker threads and
//! where its output goes.

use crate::error::RunError;
use vstd::prelude::*;
use vstd::string::StringExecFns;

verus! {

/// The three ways to run over the records of an input.
#[derive(Debug, Clone, Copy, PartialEq, Eq, Structural)]
pub enum Mode {
    /// Count every record and write those that pass the membership test.
    FilterAndWrite,
    /// Count the records and the bases; nothing is written.
    CountOnly,
    /// Collect every record, in input order.
    OrderedCollect,
}

/// Chooses between counting and filtering. Counting needs nothing more.
/// Filtering needs a header source and an output destination, and is refused
/// before any record is read where one of them is missing; where both are
/// missing, the header source is reported.
pub fn select_mode(count: bool, has_headers: bool, has_output: bool) -> (r: Result<Mode, RunError>)
    ensures
        r == Ok::<Mode, RunError>(Mode::CountOnly) <==> count,
        r == Ok::<Mode, RunError>(Mode::FilterAndWrite) <==> !count && has_headers && has_output,
        r == Err::<Mode, RunError>(RunError::MissingHeaders) <==> !count && !has_headers,
        r == Err::<Mode, RunError>(RunError::MissingOutput) <==> !count && has_headers
            && !has_output,
{
    if count {
        Ok(Mode::CountOnly)
    } else if !has_headers {
        Err(RunError::MissingHeaders)
    } else if !has_output {
        Err(RunError::MissingOutput)
    } else {
        Ok(Mode::FilterAndWrite)
    }
}

/// The number of worker threads of a run. Ordered-Collect runs on one thread,
/// whatever is asked for and whatever the machine has: only then do the
/// records arrive in input order. The other modes run on the number asked
/// for, or on `available` threads when none is asked for.
pub open spec fn threads_for(mode: Mode, requested: Option<usize>, available: usize) -> usize {
    if mode == Mode::OrderedCollect {
        1
    } else {
        match requested {
            Some(threads) => threads,
            None => available,
        }
    }
}

/// The number of worker threads of a run on a machine with `available` CPUs.
pub fn resolve_threads(mode: Mode, requested: Option<usize>, available: usize) -> (threads: usize)
    ensures
        threads == threads_for(mode, requested, available),
{
    match mode {
        Mode::OrderedCollect => 1,
        _ => match requested {
            Some(threads) => threads,
            None => available,
        },
    }
}

/// `num_cpus::get`: the number of logical CPUs available to this process,
/// which is documented to be at least 1.
#[verifier::external_body]
fn available_cpus() -> (n: usize)
    ensures
        n >= 1,
{
    num_cpus::get()
}

/// The number of worker threads of a run on this machine: one for
/// Ordered-Collect; otherwise the number asked for or, when none is asked
/// for, the number of available CPUs.
pub fn worker_threads(mode: Mode, requested: Option<usize>) -> (threads: usize)
    ensures
        mode == Mode::OrderedCollect ==> threads == 1,
        mode != Mode::OrderedCollect ==> match requested {
            Some(asked) => threads == asked,
            None => threads >= 1,
        },
{
    let available = available_cpus();
    resolve_threads(mode, requested, available)
}

/// Whether `path` names the standard output: `-` or `/dev/stdout`.
pub open spec fn names_stdout(path: Seq<char>) -> bool {
    path == "-"@ || path == "/dev/stdout"@
}

/// Whether the output goes to the standard output rather than to a file.
pub fn is_stdout(path: &str) -> (stdout: bool)
    ensures
        stdout == names_stdout(path@),
{
    let path = path.to_owned();
    path == String::from_str("-") || path == String::from_str("/dev/stdout")
}

} // verus!
