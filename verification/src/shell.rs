//! The shell a tree is opened in.
use vstd::prelude::*;

verus! {

/// The shell to start: `$SHELL` when it is set, else `/bin/sh`.
pub fn resolve_shell(shell_var: Option<String>) -> (s: String)
    ensures
        s@ == match shell_var {
            Some(v) => v@,
            None => "/bin/sh"@,
        },
{
    match shell_var {
        Some(v) => v,
        None => "/bin/sh".to_string(),
    }
}

} // verus!
