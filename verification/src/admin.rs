//! Checking and requesting Windows Administrator privileges.

use vstd::prelude::*;

use crate::text;
use crate::text::encode_wide;

verus! {

/// Checks if the current process is running with Administrator privileges (Elevated), from what
/// its token says: `elevation` is absent where the token could not be opened or asked.
pub fn is_running_as_admin(elevation: Option<u32>) -> (admin: bool)
    ensures
        admin == (elevation matches Some(value) && value != 0),
{
    match elevation {
        Some(value) => value != 0,
        None => false,
    }
}

/// The parameters with which the application is started again, in UTF-16 with a zero at the end;
/// none unless the settings window is to be opened again.
pub fn restart_parameters(reopen_ui: bool) -> (parameters: Option<Vec<u16>>)
    ensures
        parameters is Some <==> reopen_ui,
        parameters matches Some(units) ==> units@ == text::units_of("--reopen-ui"@).push(0),
{
    if reopen_ui {
        let mut units = encode_wide("--reopen-ui");
        units.push(0);
        Some(units)
    } else {
        None
    }
}

/// The shell did not start the application.
#[derive(Debug, Clone, Copy, PartialEq, Eq, Structural)]
pub struct RestartError {
    pub code: isize,
}

/// What the value that the shell returned says: on success the current process is to exit.
///
/// # Errors
///
/// Returns an error if the shell failed or if the user declines the prompt.
pub fn restart_as_admin(code: isize) -> (started: Result<(), RestartError>)
    ensures
        started == if code > 32 {
            Ok::<(), RestartError>(())
        } else {
            Err::<(), RestartError>(RestartError { code })
        },
{
    if code > 32 {
        Ok(())
    } else {
        Err(RestartError { code })
    }
}

} // verus!
