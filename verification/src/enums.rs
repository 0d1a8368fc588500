//! The crate's enums and the two traits its row types share.
use vstd::prelude::*;
use vstd::string::StrSliceExecFns;
use crate::structs::{Task, LogEntry};
use crate::bytes::{le_value, readable_le, text_of, le_bytes_to_i32, bytes_to_text};
use crate::tables::{upsert_task, upsert_task_defined, upsert_log, upsert_task_row, upsert_log_row};

verus! {

/// The kinds of failure the service reports.
#[derive(Clone, Copy, Debug, PartialEq, Eq, Structural)]
pub enum ErrorType {
    ConnectionError,
    RusqliteError,
    EncryptionError,
    DecryptionError,
    KeyringError,
    EmptyTable,
    ShellNotFound,
    CommandError,
}

/// The outcome of opening the task database: a connection or an error.
pub enum Conn<C, E> {
    Conn(C),
    Error(E),
}

/// The platform the service runs on.
#[derive(Clone, Copy, Debug, PartialEq, Eq, Structural)]
pub enum OS {
    Linux,
    Mac,
    Windows,
    Unknown,
}

/// A new row for one of the two tables.
pub enum RowType {
    TaskRow(Task),
    LogRow(LogEntry),
}

/// One of the two tables, read back.
#[derive(Debug)]
pub enum TableType {
    TaskTable(Vec<Task>),
    LogTable(Vec<LogEntry>),
}

/// Whether to turn the user service on or off.
#[derive(Clone, Copy, Debug, PartialEq, Eq, Structural)]
pub enum Configure {
    EnableTaskerService,
    DisableTaskerService,
}

impl ErrorType {
    /// The message written to standard error for this error; none for an
    /// empty table, which is reported by printing nothing.
    pub fn report(&self) -> (r: Option<&'static str>)
        ensures
            r is None <==> *self == ErrorType::EmptyTable,
            *self == ErrorType::ConnectionError ==> r == Some(
                "error connectiong to the database, please ensure read/write permissions.",
            ),
            *self == ErrorType::RusqliteError ==> r == Some(
                "error, writing or reading in the database, please ensure read/write permissions",
            ),
            *self == ErrorType::EncryptionError ==> r == Some("error encrypting task/log!"),
            *self == ErrorType::DecryptionError ==> r == Some("error decrypting task/log"),
            *self == ErrorType::KeyringError ==> r == Some(
                "error getting keyring, please check keyring installation",
            ),
            *self == ErrorType::ShellNotFound ==> r == Some(
                "error executing command please check shell configuration",
            ),
            *self == ErrorType::CommandError ==> r == Some(
                "error executing command please check command configuration",
            ),
    {
        match self {
            ErrorType::ConnectionError => Some(
                "error connectiong to the database, please ensure read/write permissions.",
            ),
            ErrorType::RusqliteError => Some(
                "error, writing or reading in the database, please ensure read/write permissions",
            ),
            ErrorType::EncryptionError => Some("error encrypting task/log!"),
            ErrorType::EmptyTable => None,
            ErrorType::DecryptionError => Some("error decrypting task/log"),
            ErrorType::KeyringError => Some("error getting keyring, please check keyring installation"),
            ErrorType::ShellNotFound => Some("error executing command please check shell configuration"),
            ErrorType::CommandError => Some("error executing command please check command configuration"),
        }
    }
}

/// Whether two strings are equal, character by character.
pub fn str_equal(a: &str, b: &str) -> (r: bool)
    ensures
        r == (a@ == b@),
{
    let n = a.unicode_len();
    if n != b.unicode_len() {
        return false;
    }
    let mut i: usize = 0;
    while i < n
        invariant
            n == a@.len(),
            n == b@.len(),
            i <= n,
            forall|j: int| 0 <= j < i ==> a@[j] == b@[j],
        decreases n - i,
    {
        if a.get_char(i) != b.get_char(i) {
            return false;
        }
        i = i + 1;
    }
    assert(a@ =~= b@);
    true
}

impl OS {
    /// The platform named by a target name (as `std::env::consts::OS` gives it).
    pub fn get_os(target_os: &str) -> (os: OS)
        ensures
            target_os@ == "windows"@ ==> os == OS::Windows,
            target_os@ == "linux"@ ==> os == OS::Linux,
            target_os@ == "macos"@ ==> os == OS::Mac,
            target_os@ != "windows"@ && target_os@ != "linux"@ && target_os@ != "macos"@ ==> os
                == OS::Unknown,
    {
        proof {
            reveal_strlit("windows");
            reveal_strlit("linux");
            reveal_strlit("macos");
            assert("windows"@.len() != "linux"@.len());
            assert("windows"@.len() != "macos"@.len());
            assert("linux"@[0] != "macos"@[0]);
        }
        if str_equal(target_os, "windows") {
            return OS::Windows;
        }
        if str_equal(target_os, "linux") {
            return OS::Linux;
        }
        if str_equal(target_os, "macos") {
            OS::Mac
        } else {
            OS::Unknown
        }
    }
}

/// Reading the byte form of stored fields.
pub trait ConvertBytesToHumanReadable {
    /// The `i32` the first four little-endian bytes stand for, in two's
    /// complement: the bytes `i32::to_le_bytes` gives for any number read back
    /// as that number.
    fn convert_le_bytes_i32(four_bytes: &[u8]) -> (r: i32)
        requires
            readable_le(four_bytes@),
        ensures
            r == le_value(four_bytes@),
    {
        le_bytes_to_i32(four_bytes)
    }

    /// The text the bytes stand for; bytes that are not UTF-8 read as
    /// "Error Encypting/Decrypting..".
    fn convert_bytes_to_string(bytes: Vec<u8>) -> (s: String)
        ensures
            s@ == text_of(bytes@),
    {
        bytes_to_text(bytes)
    }
}

/// The row that `new_row` is a row for, and the table kind it goes to, agree.
pub open spec fn same_kind(new_row: RowType, table: TableType) -> bool {
    match (new_row, table) {
        (RowType::TaskRow(_), TableType::TaskTable(_)) => true,
        (RowType::LogRow(_), TableType::LogTable(_)) => true,
        _ => false,
    }
}

/// Adding a row to a table so that no two rows share a name.
pub trait NewRowTableBuilder {
    /// The table with `new_row` added: it replaces the first row of its name,
    /// or is added at the end. `current` is the table as read from storage
    /// (for the log table, empty when it could not be read).
    fn is_duplicate(new_row: RowType, current: TableType) -> (r: TableType)
        requires
            same_kind(new_row, current),
            new_row matches RowType::TaskRow(t) ==> (current matches TableType::TaskTable(s)
                && upsert_task_defined(s@, t)),
        ensures
            match (new_row, current, r) {
                (RowType::TaskRow(t), TableType::TaskTable(s), TableType::TaskTable(u)) => u@
                    == upsert_task(s@, t),
                (RowType::LogRow(l), TableType::LogTable(s), TableType::LogTable(u)) => u@
                    == upsert_log(s@, l),
                _ => false,
            },
    {
        match (new_row, current) {
            (RowType::TaskRow(t), TableType::TaskTable(s)) => TableType::TaskTable(
                upsert_task_row(s, t),
            ),
            (RowType::LogRow(l), TableType::LogTable(s)) => TableType::LogTable(upsert_log_row(s, l)),
            (RowType::TaskRow(t), TableType::LogTable(s)) => TableType::LogTable(s),
            (RowType::LogRow(l), TableType::TaskTable(s)) => TableType::TaskTable(s),
        }
    }
}

impl ConvertBytesToHumanReadable for Task {

}

impl ConvertBytesToHumanReadable for LogEntry {

}

impl NewRowTableBuilder for crate::structs::LogEntryEncrypted {

}

impl NewRowTableBuilder for crate::structs::TaskEncrypted {

}

} // verus!
