//! Faults that several operations report.

use vstd::prelude::*;

use crate::text::decimal;
use crate::types::{Fault, Message, Text, VotingError};

verus! {

/// What a lookup says that finds no row.
pub open spec fn no_row() -> Text {
    "no rows returned by a query that expected to return at least one row"@
}

/// The text of [`no_row`].
pub fn no_row_text() -> (text: &'static str)
    ensures
        text@ == no_row(),
{
    "no rows returned by a query that expected to return at least one row"
}

/// What storing a row says whose parent is missing.
pub open spec fn no_parent() -> Text {
    "error returned from database: (code: 787) FOREIGN KEY constraint failed"@
}

/// The text of [`no_parent`].
pub fn no_parent_text() -> (text: &'static str)
    ensures
        text@ == no_parent(),
{
    "error returned from database: (code: 787) FOREIGN KEY constraint failed"
}

/// What inserting a row says whose key is taken; `columns` are those of the key.
pub open spec fn key_taken(columns: Text) -> Text {
    "error returned from database: (code: 1555) UNIQUE constraint failed: "@ + columns
}

/// The text of [`key_taken`].
pub fn key_taken_text(columns: &str) -> (text: String)
    ensures
        text@ == key_taken(columns@),
{
    "error returned from database: (code: 1555) UNIQUE constraint failed: ".to_owned().concat(
        columns,
    )
}

/// What a request says that names an unknown column.
pub open spec fn no_such_column(column: Text) -> Text {
    "error returned from database: (code: 1) no such column: "@ + column
}

/// The text of [`no_such_column`].
pub fn no_such_column_text(column: &str) -> (text: String)
    ensures
        text@ == no_such_column(column@),
{
    "error returned from database: (code: 1) no such column: ".to_owned().concat(column)
}

/// What reading a number says that does not fit its type.
pub open spec fn out_of_range(column: int) -> Text {
    "error occurred while decoding column "@ + decimal(column)
        + ": out of range integral type conversion attempted"@
}

/// The text of [`out_of_range`].
pub fn out_of_range_text(column: u8) -> (text: String)
    ensures
        text@ == out_of_range(column as int),
{
    Message::new("error occurred while decoding column ").number(column as i128).text(
        ": out of range integral type conversion attempted",
    ).into_text()
}

/// A round cannot be read, for a reason.
pub open spec fn round_unreadable(round_id: Text, reason: Text) -> Fault {
    Fault::InvalidInput("round not found: "@ + round_id + " ("@ + reason + ")"@)
}

/// The error of [`round_unreadable`].
pub fn round_unreadable_error(round_id: &str, reason: &str) -> (error: VotingError)
    ensures
        error@ == round_unreadable(round_id@, reason@),
{
    Message::new("round not found: ").text(round_id).text(" (").text(reason).text(")").invalid()
}

/// A bundle to change is missing.
pub open spec fn bundle_missing(round_id: Text, bundle_index: u32) -> Fault {
    Fault::InvalidInput(
        "bundle not found: round="@ + round_id + ", bundle="@ + decimal(bundle_index as int),
    )
}

/// The error of [`bundle_missing`].
pub fn bundle_missing_error(round_id: &str, bundle_index: u32) -> (error: VotingError)
    ensures
        error@ == bundle_missing(round_id@, bundle_index),
{
    Message::new("bundle not found: round=").text(round_id).text(", bundle=").number(
        bundle_index as i128,
    ).invalid()
}

/// A bundle to read is missing; `what` says what was to be read of it.
pub open spec fn bundle_unread(what: Text, round_id: Text, bundle_index: u32) -> Fault {
    Fault::InvalidInput(
        what + " round="@ + round_id + ", bundle="@ + decimal(bundle_index as int) + " ("@
            + no_row() + ")"@,
    )
}

/// The error of [`bundle_unread`].
pub fn bundle_unread_error(what: &str, round_id: &str, bundle_index: u32) -> (error: VotingError)
    ensures
        error@ == bundle_unread(what@, round_id@, bundle_index),
{
    Message::new(what).text(" round=").text(round_id).text(", bundle=").number(
        bundle_index as i128,
    ).text(" (").text(no_row_text()).text(")").invalid()
}

} // verus!
