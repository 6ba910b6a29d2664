//! The command surface: a closed grammar over the command text.
//!
//! Three shapes are recognized, byte for byte: `.dbinfo`, `.tables`, and
//! `SELECT COUNT(*) FROM <table>` with a non-empty table name.  Anything
//! else is `UnsupportedCommand`.

use vstd::prelude::*;

use crate::bytes::{bytes_eq, copy_range};
use crate::error::DbError;

verus! {

/// A recognized command.
#[derive(Debug, Clone, PartialEq, Eq)]
pub enum Command {
    /// `.dbinfo`: report the page size and the catalog counts.
    Info,
    /// `.tables`: list the user-facing table names.
    ListTables,
    /// `SELECT COUNT(*) FROM <table>`: count the rows of the named table.
    CountRows(Vec<u8>),
}

/// The mathematical shape of a [`Command`].
pub enum CommandModel {
    Info,
    ListTables,
    CountRows(Seq<u8>),
}

impl View for Command {
    type V = CommandModel;

    open spec fn view(&self) -> CommandModel {
        match self {
            Command::Info => CommandModel::Info,
            Command::ListTables => CommandModel::ListTables,
            Command::CountRows(name) => CommandModel::CountRows(name@),
        }
    }
}

/// The bytes of `.dbinfo`.
pub open spec fn spec_info_cmd() -> Seq<u8> {
    seq![46u8, 100u8, 98u8, 105u8, 110u8, 102u8, 111u8]
}

/// The bytes of `.tables`.
pub open spec fn spec_tables_cmd() -> Seq<u8> {
    seq![46u8, 116u8, 97u8, 98u8, 108u8, 101u8, 115u8]
}

/// The 21 bytes of `SELECT COUNT(*) FROM `, the prefix of a count query.
pub open spec fn spec_count_prefix() -> Seq<u8> {
    seq![
        83u8,
        69u8,
        76u8,
        69u8,
        67u8,
        84u8,
        32u8,
        67u8,
        79u8,
        85u8,
        78u8,
        84u8,
        40u8,
        42u8,
        41u8,
        32u8,
        70u8,
        82u8,
        79u8,
        77u8,
        32u8,
    ]
}

/// The command named by `cmd`: one of the two dot commands byte for byte, or
/// a count query carrying everything after its fixed prefix as the table
/// name; every other text is `UnsupportedCommand`.
pub open spec fn spec_resolve_command(cmd: Seq<u8>) -> Result<CommandModel, DbError> {
    if cmd == spec_info_cmd() {
        Ok(CommandModel::Info)
    } else if cmd == spec_tables_cmd() {
        Ok(CommandModel::ListTables)
    } else if cmd.len() > 21 && cmd.subrange(0, 21) == spec_count_prefix() {
        Ok(CommandModel::CountRows(cmd.skip(21)))
    } else {
        Err(DbError::UnsupportedCommand)
    }
}

/// True exactly when `cmd` starts with the bytes of `prefix`.
fn starts_with(cmd: &Vec<u8>, prefix: &Vec<u8>) -> (r: bool)
    ensures
        r == (cmd@.len() >= prefix@.len() && cmd@.subrange(0, prefix@.len() as int) == prefix@),
{
    if cmd.len() < prefix.len() {
        return false;
    }
    let mut i: usize = 0;
    while i < prefix.len()
        invariant
            i <= prefix@.len(),
            prefix@.len() <= cmd@.len(),
            forall|j: int| 0 <= j < i ==> cmd@[j] == prefix@[j],
        decreases prefix@.len() - i,
    {
        if cmd[i] != prefix[i] {
            proof {
                assert(cmd@.subrange(0, prefix@.len() as int)[i as int] == cmd@[i as int]);
            }
            return false;
        }
        i = i + 1;
    }
    proof {
        assert(cmd@.subrange(0, prefix@.len() as int) =~= prefix@);
    }
    true
}

/// Resolves the command text to its command, or `UnsupportedCommand`.
pub fn resolve_command(cmd: &Vec<u8>) -> (r: Result<Command, DbError>)
    ensures
        match r {
            Ok(c) => spec_resolve_command(cmd@) == Ok::<CommandModel, DbError>(c@),
            Err(e) => spec_resolve_command(cmd@) == Err::<CommandModel, DbError>(e),
        },
{
    let info_cmd: Vec<u8> = vec![46, 100, 98, 105, 110, 102, 111];
    let tables_cmd: Vec<u8> = vec![46, 116, 97, 98, 108, 101, 115];
    let count_prefix: Vec<u8> = vec![
        83,
        69,
        76,
        69,
        67,
        84,
        32,
        67,
        79,
        85,
        78,
        84,
        40,
        42,
        41,
        32,
        70,
        82,
        79,
        77,
        32,
    ];
    proof {
        assert(info_cmd@ =~= spec_info_cmd());
        assert(tables_cmd@ =~= spec_tables_cmd());
        assert(count_prefix@ =~= spec_count_prefix());
    }
    if bytes_eq(cmd, &info_cmd) {
        return Ok(Command::Info);
    }
    if bytes_eq(cmd, &tables_cmd) {
        return Ok(Command::ListTables);
    }
    if cmd.len() > 21 && starts_with(cmd, &count_prefix) {
        let name = copy_range(cmd, 21, cmd.len() - 21);
        proof {
            assert(cmd@.subrange(21, cmd@.len() as int) =~= cmd@.skip(21));
        }
        return Ok(Command::CountRows(name));
    }
    Err(DbError::UnsupportedCommand)
}

} // verus!
