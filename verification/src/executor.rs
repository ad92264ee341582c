//! Process-executor decisions: which redirection wins per stream, how a
//! child's termination maps to an exit status, and the exact report
//! lines for the failures the loop recovers from. The spawning and
//! waiting themselves are the caller's; this module fixes what the shell
//! stores and prints for every outcome.

use crate::parser::{Redirect, RedirectView, RedirStream};
use vstd::prelude::*;
use vstd::string::*;

verus! {

/// Status stored when a command name resolves to nothing.
pub const STATUS_NOT_FOUND: i32 = 127;

/// Status stored when the child process could not be created.
pub const STATUS_SPAWN_FAILED: i32 = 126;

/// The redirection that takes effect for a stream: the last one naming
/// that stream, or `None` when none does.
pub open spec fn spec_last_redirect(redirs: Seq<RedirectView>, stream: RedirStream) -> Option<
    RedirectView,
>
    decreases redirs.len(),
{
    if redirs.len() == 0 {
        None
    } else if redirs.last().stream == stream {
        Some(redirs.last())
    } else {
        spec_last_redirect(redirs.drop_last(), stream)
    }
}

/// Picks, for one stream, the redirection that takes effect: with
/// several redirections of the same stream the last one wins. Returns
/// its index.
pub fn last_redirect_index(redirs: &Vec<Redirect>, stream: RedirStream) -> (r: Option<usize>)
    ensures
        match r {
            Some(ix) => ix < redirs.len() && spec_last_redirect(redirs.deep_view(), stream)
                == Some(redirs.deep_view()[ix as int]),
            None => spec_last_redirect(redirs.deep_view(), stream) is None,
        },
{
    let ghost dv = redirs.deep_view();
    let mut i: usize = redirs.len();
    proof {
        assert(dv.take(redirs.len() as int) =~= dv);
    }
    while i > 0
        invariant
            dv == redirs.deep_view(),
            dv.len() == redirs.len(),
            i <= redirs.len(),
            spec_last_redirect(dv, stream) == spec_last_redirect(dv.take(i as int), stream),
        decreases i,
    {
        i = i - 1;
        proof {
            assert(dv.take(i as int + 1).drop_last() =~= dv.take(i as int));
            assert(dv.take(i as int + 1).last() == dv[i as int]);
            assert(dv[i as int] == redirs@[i as int]@);
        }
        if redirs[i].stream == stream {
            return Some(i);
        }
    }
    None
}

/// The exit status a finished child gives the shell: its own exit code
/// when it exited, and the POSIX convention of 128 plus the signal
/// number when a signal terminated it.
pub fn status_after_wait(exit_code: Option<i32>, signal: Option<i32>) -> (status: i32)
    requires
        exit_code is Some || signal is Some,
        exit_code is None ==> match signal {
            Some(s) => 0 <= s < 128,
            None => false,
        },
    ensures
        match exit_code {
            Some(c) => status == c,
            None => match signal {
                Some(s) => status == 128 + s,
                None => false,
            },
        },
{
    match exit_code {
        Some(c) => c,
        None => match signal {
            Some(s) => 128 + s,
            None => 0,
        },
    }
}

/// The report for a name no directory of the search path satisfies.
pub fn not_found_message(name: &str) -> (out: String)
    ensures
        out@ == name@ + ": not found"@,
{
    let mut out = String::from_str(name);
    out.append(": not found");
    out
}

/// The report for a child the operating system refused to create: the
/// command name and the error text the system gave.
pub fn spawn_error_message(name: &str, error_text: &str) -> (out: String)
    ensures
        out@ == name@ + ": "@ + error_text@,
{
    let mut out = String::from_str(name);
    out.append(": ");
    out.append(error_text);
    out
}

} // verus!
