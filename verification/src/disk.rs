//! The shares of processor time that the host spends waiting for I/O,
//! stolen by a hypervisor, and idle.

use vstd::prelude::*;
use vstd::string::*;
use crate::text::{split_whitespace, tokens};

verus! {

/// A share as a percentage: the field with a percent sign after it.
pub open spec fn percent(field: Seq<char>) -> Seq<char> {
    field + "%"@
}

/// The three shares that the output of the I/O statistics query gives: its
/// last three fields, as percentages.
pub open spec fn parse_io_stats(output: Seq<char>) -> Option<(Seq<char>, Seq<char>, Seq<char>)> {
    let fields = tokens(output);
    if fields.len() >= 3 {
        Some(
            (
                percent(fields[fields.len() - 3]),
                percent(fields[fields.len() - 2]),
                percent(fields[fields.len() - 1]),
            ),
        )
    } else {
        None
    }
}

/// The field with a percent sign after it.
fn percent_string(field: &String) -> (out: String)
    ensures
        out@ == percent(field@),
{
    let mut out = field.clone();
    out.append("%");
    out
}

/// Reads the shares of I/O wait, steal and idle time from the output of
/// the I/O statistics query.
pub fn get_io_stats(iostat_output: &str) -> (out: Option<(String, String, String)>)
    ensures
        match out {
            Some(t) => parse_io_stats(iostat_output@) == Some((t.0@, t.1@, t.2@)),
            None => parse_io_stats(iostat_output@).is_none(),
        },
{
    let fields = split_whitespace(iostat_output);
    let n = fields.len();
    if n < 3 {
        return None;
    }
    Some(
        (
            percent_string(&fields[n - 3]),
            percent_string(&fields[n - 2]),
            percent_string(&fields[n - 1]),
        ),
    )
}

} // verus!
