//! The decisions behind the application's commands: parsing identifiers
//! from the user interface, choosing what to save, preview estimates, rule
//! edits and export names. The commands themselves (database, files,
//! network) run in the application around this library.

use vstd::prelude::*;
use crate::ids::{parse_id, parsed_id};
use crate::text::push_str;

pub mod analysis;
pub mod exports;
pub mod projects;
pub mod providers;
pub mod rules;
pub mod screenshots;

verus! {

/// The error text of an identifier that is not a UUID.
pub open spec fn invalid_uuid_message(label: Seq<char>) -> Seq<char> {
    label + " is not a valid UUID"@
}

/// Parses an identifier sent by the user interface; `label` names the field
/// in the error.
pub fn parse_uuid(value: &str, label: &str) -> (r: Result<u128, String>)
    ensures
        match parsed_id(value@) {
            Some(id) => r == Ok::<u128, String>(id),
            None => r matches Err(m) && m@ == invalid_uuid_message(label@),
        },
{
    match parse_id(value) {
        Some(id) => Ok(id),
        None => {
            let mut m = label.to_owned();
            push_str(&mut m, " is not a valid UUID");
            Err(m)
        },
    }
}

/// The text a command reports for an error: its `Display` form.
pub fn command_error<E: std::fmt::Display>(error: E) -> (s: String)
    ensures
        vstd::string::to_string_from_display_ensures::<E>(&error, s),
{
    error.to_string()
}

} // verus!
