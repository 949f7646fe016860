//! The application's auto-start behavior: the value under the registry's `Run` key.

use vstd::prelude::*;

verus! {

/// Checks if the application is currently configured to start automatically on login: the key could
/// be opened, and holds a value for it.
pub fn is_autostart_enabled(key_opened: bool, value_found: bool) -> (enabled: bool)
    ensures
        enabled == (key_opened && value_found),
{
    if !key_opened {
        return false;
    }
    value_found
}

/// What to do under the `Run` key.
#[derive(Debug)]
pub enum RunKeyChange {
    /// Write these bytes as the value of the application.
    Write(Vec<u8>),
    /// Delete the value of the application.
    Delete,
}

/// The path of the executable in quotes, in case there are spaces, with a zero at the end.
pub open spec fn quoted(path: Seq<u16>) -> Seq<u16> {
    seq![34u16] + path + seq![34u16, 0u16]
}

/// The bytes of some UTF-16 units, low byte first.
pub open spec fn bytes_of(units: Seq<u16>) -> Seq<u8>
    decreases units.len(),
{
    if units.len() == 0 {
        Seq::empty()
    } else {
        bytes_of(units.drop_last()).push((units.last() % 256) as u8).push(
            (units.last() / 256) as u8,
        )
    }
}

/// The path of the executable in quotes, with a zero at the end.
pub fn quote_path(path: &[u16]) -> (value: Vec<u16>)
    ensures
        value@ == quoted(path@),
{
    let mut value: Vec<u16> = Vec::new();
    value.push(34);
    for i in 0..path.len()
        invariant
            value@ == seq![34u16] + path@.take(i as int),
    {
        value.push(path[i]);
        assert(value@ =~= seq![34u16] + path@.take(i + 1));
    }
    value.push(34);
    value.push(0);
    assert(value@ =~= quoted(path@));
    value
}

/// The bytes of some UTF-16 units, low byte first.
pub fn unit_bytes(units: &[u16]) -> (bytes: Vec<u8>)
    ensures
        bytes@ == bytes_of(units@),
{
    let mut bytes: Vec<u8> = Vec::new();
    for i in 0..units.len()
        invariant
            bytes@ == bytes_of(units@.take(i as int)),
    {
        assert(units@.take(i + 1).drop_last() =~= units@.take(i as int));
        bytes.push((units[i] % 256) as u8);
        bytes.push((units[i] / 256) as u8);
    }
    assert(units@.take(units@.len() as int) =~= units@);
    bytes
}

/// Enables or disables the auto-start functionality: adds the path of the executable to the
/// registry run key, or removes the application from it.
pub fn set_autostart(enabled: bool, path: &[u16]) -> (change: RunKeyChange)
    ensures
        enabled ==> (change matches RunKeyChange::Write(bytes) && bytes@ == bytes_of(quoted(path@))),
        !enabled ==> change is Delete,
{
    if enabled {
        RunKeyChange::Write(unit_bytes(&quote_path(path)))
    } else {
        RunKeyChange::Delete
    }
}

/// The status of a registry call that succeeded.
pub const ERROR_SUCCESS: u32 = 0;

/// The status of a registry call on a value that is not there.
pub const ERROR_FILE_NOT_FOUND: u32 = 2;

/// Why the auto-start functionality could not be changed, with the status of the call that failed.
#[derive(Debug, Clone, Copy, PartialEq, Eq, Structural)]
pub enum AutostartError {
    /// The key could not be opened.
    NotOpened(u32),
    /// The key could not be modified.
    NotModified(u32),
}

/// The application is configured as asked for after a change with this status: it succeeded, or
/// there was no value to delete.
pub open spec fn took_effect(enabled: bool, status: u32) -> bool {
    status == ERROR_SUCCESS || (!enabled && status == ERROR_FILE_NOT_FOUND)
}

/// What became of a change, from the status of opening the key and that of writing or deleting the
/// value.
///
/// # Errors
///
/// Returns an error if the registry key cannot be opened or modified.
pub fn autostart_outcome(enabled: bool, opened: u32, changed: u32) -> (outcome: Result<
    (),
    AutostartError,
>)
    ensures
        opened != ERROR_SUCCESS ==> outcome == Err::<(), AutostartError>(
            AutostartError::NotOpened(opened),
        ),
        opened == ERROR_SUCCESS && !took_effect(enabled, changed) ==> outcome == Err::<
            (),
            AutostartError,
        >(AutostartError::NotModified(changed)),
        opened == ERROR_SUCCESS && took_effect(enabled, changed) ==> outcome is Ok,
{
    if opened != ERROR_SUCCESS {
        return Err(AutostartError::NotOpened(opened));
    }
    if changed == ERROR_SUCCESS || (!enabled && changed == ERROR_FILE_NOT_FOUND) {
        Ok(())
    } else {
        Err(AutostartError::NotModified(changed))
    }
}

/// The value has two bytes for each unit: the path, two quotes and the zero.
pub proof fn law_value_size(path: Seq<u16>)
    ensures
        bytes_of(quoted(path)).len() == 2 * (path.len() + 3),
{
    lemma_bytes_len(quoted(path));
}

proof fn lemma_bytes_len(units: Seq<u16>)
    ensures
        bytes_of(units).len() == 2 * units.len(),
    decreases units.len(),
{
    if units.len() > 0 {
        lemma_bytes_len(units.drop_last());
    }
}

/// The value is the path between two quotes, with a zero behind.
pub proof fn law_path_stands_in_quotes(path: Seq<u16>, i: int)
    ensures
        quoted(path).len() == path.len() + 3,
        quoted(path)[0] == '"' as u16,
        0 <= i < path.len() ==> quoted(path)[i + 1] == path[i],
        quoted(path)[path.len() as int + 1] == '"' as u16,
        quoted(path).last() == 0,
{
}

/// The units are read back from the bytes, two for each, the low one first.
pub proof fn law_units_are_read_back(units: Seq<u16>, i: int)
    requires
        0 <= i < units.len(),
    ensures
        bytes_of(units).len() == 2 * units.len(),
        bytes_of(units)[2 * i] + 256 * bytes_of(units)[2 * i + 1] == units[i],
    decreases units.len(),
{
    lemma_bytes_len(units);
    lemma_bytes_len(units.drop_last());
    if i < units.len() - 1 {
        law_units_are_read_back(units.drop_last(), i);
    }
}

/// A change takes effect exactly if its call succeeded; deleting a value that is not there counts too,
/// writing does not.
pub proof fn law_missing_value_is_as_good_as_deleted(enabled: bool, status: u32)
    ensures
        took_effect(enabled, 0),
        took_effect(false, 2),
        !took_effect(true, 2),
        status != 0 && status != 2 ==> !took_effect(enabled, status),
{
}

} // verus!
