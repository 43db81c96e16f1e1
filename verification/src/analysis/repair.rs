//! The repair prompt sent after an invalid first response.

use vstd::prelude::*;
use vstd::string::StringSliceAdditionalSpecFns;
use crate::analysis::prompt::{push_schema_section, schema_section, FIXED_ANALYSIS_INSTRUCTIONS};
use crate::text::{decimal, push_decimal, push_str};

verus! {

/// The repair prompt. It restates the fixed instructions and the validation
/// error, and of the invalid output it carries only the byte length, never
/// its text.
pub open spec fn repair_prompt_text(
    invalid_output_len: nat,
    error: Seq<char>,
    schema: Option<Seq<char>>,
) -> Seq<char> {
    FIXED_ANALYSIS_INSTRUCTIONS@ + "\n\nRepair the previous design analysis response so it returns only JSON matching the supplied schema.\nRe-analyze the attached screenshots; do not copy invalid previous output into the repaired JSON.\nRemove unsupported, sensitive, or invalid fields.\nValidation error: "@
        + error + "\nPrevious response byte length: "@ + decimal(invalid_output_len)
        + schema_section(schema)
}

/// Builds the repair prompt for an invalid output.
pub fn repair_prompt(invalid_output: &str, error: &str, schema: Option<&str>) -> (prompt: String)
    ensures
        prompt@ == repair_prompt_text(
            (invalid_output.spec_bytes().len() as usize) as nat,
            error@,
            match schema {
                Some(s) => Some(s@),
                None => None,
            },
        ),
{
    let len = invalid_output.len();
    let mut prompt = String::new();
    push_str(&mut prompt, FIXED_ANALYSIS_INSTRUCTIONS);
    push_str(
        &mut prompt,
        "\n\nRepair the previous design analysis response so it returns only JSON matching the supplied schema.\nRe-analyze the attached screenshots; do not copy invalid previous output into the repaired JSON.\nRemove unsupported, sensitive, or invalid fields.\nValidation error: ",
    );
    push_str(&mut prompt, error);
    push_str(&mut prompt, "\nPrevious response byte length: ");
    push_decimal(&mut prompt, len as u64);
    push_schema_section(&mut prompt, schema);
    assert(prompt@ =~= repair_prompt_text(
        (invalid_output.spec_bytes().len() as usize) as nat,
        error@,
        match schema {
            Some(s) => Some(s@),
            None => None,
        },
    ));
    prompt
}

} // verus!
