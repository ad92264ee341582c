//! Process-wide shell state: the current working directory and the last
//! exit status. Initialized once at startup, mutated in place by
//! builtins and by status reporting, and owned exclusively by the
//! read-eval loop.

use crate::strutil::push_char;
use vstd::prelude::*;
use vstd::string::*;

verus! {

/// The only mutable shared state in the shell core.
pub struct ShellState {
    pub cwd: String,
    pub last_status: i32,
}

impl ShellState {
    /// Fresh state at startup: the working directory the process was
    /// started in, and a clean status.
    pub fn new(cwd: String) -> (s: ShellState)
        ensures
            s.cwd@ == cwd@,
            s.last_status == 0,
    {
        ShellState { cwd, last_status: 0 }
    }

    /// Records the exit status of the command just run; the working
    /// directory is untouched.
    pub fn set_status(&mut self, code: i32)
        ensures
            final(self).last_status == code,
            final(self).cwd@ == old(self).cwd@,
    {
        self.last_status = code;
    }

    /// Applies the outcome of `cd`. `target` is the expanded directory
    /// and `changed` whether the caller could actually move there. On
    /// success the working directory becomes `target` with status 0 and
    /// no message; on failure the state keeps its directory, the status
    /// is 1, and the message reports the directory as requested.
    pub fn cd_apply(&mut self, requested: &str, target: String, changed: bool) -> (msg: Option<
        String,
    >)
        ensures
            changed ==> final(self).cwd@ == target@ && final(self).last_status == 0 && msg
                is None,
            !changed ==> final(self).cwd@ == old(self).cwd@ && final(self).last_status == 1
                && match msg {
                Some(m) => m@ == "cd: "@ + requested@ + ": No such file or directory"@,
                None => false,
            },
    {
        if changed {
            self.cwd = target;
            self.last_status = 0;
            None
        } else {
            self.last_status = 1;
            let mut m = String::from_str("cd: ");
            m.append(requested);
            m.append(": No such file or directory");
            Some(m)
        }
    }

    /// The line `pwd` prints: the working directory and a newline. The
    /// status of `pwd` is 0.
    pub fn pwd_output(&self) -> (out: String)
        ensures
            out@ == self.cwd@.push('\n'),
    {
        let mut out = self.cwd.clone();
        push_char(&mut out, '\n');
        out
    }
}

} // verus!
