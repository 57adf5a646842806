//! Classification of the radio node's status report, checked once at
//! startup.
//!
//! The transport tool is asked for its node information before the pipeline
//! starts; its text output decides whether the process may run. Output that
//! reports an error anywhere, is empty, or whose first line is not the
//! expected connection banner is fatal. Running the tool is the caller's
//! business; this module only reads the captured output.

use vstd::prelude::*;

use crate::bytes::{
    bytes_eq, contains_bytes, contains_seq, find_byte_from, lemma_find_byte_none,
    lemma_find_byte_some, spec_find_byte, strip_cr, subvec,
};
use crate::text::{connected_line, connected_line_bytes, error_marker, error_marker_bytes};

verus! {

/// What the node status output says.
#[derive(Clone, Copy, PartialEq, Eq, Structural, Debug)]
pub enum NodeStatus {
    /// The first line is the connection banner: the node is reachable.
    Connected,
    /// The output reports an error somewhere.
    ErrorReported,
    /// The output is empty: the tool said nothing.
    EmptyOutput,
    /// The first line is something other than the connection banner.
    UnexpectedFirstLine,
}

/// The first line of `out`: everything before the first line feed, with a
/// trailing carriage return removed; all of `out` when it has no line feed.
pub open spec fn spec_first_line(out: Seq<u8>) -> Seq<u8> {
    match spec_find_byte(out, 10) {
        Some(i) => if 0 <= i <= out.len() {
            strip_cr(out.take(i))
        } else {
            strip_cr(out)
        },
        None => strip_cr(out),
    }
}

/// The status that a captured output stands for. An error report anywhere
/// takes precedence; then empty output; then the first line decides.
pub open spec fn spec_node_status(out: Seq<u8>) -> NodeStatus {
    if contains_seq(out, error_marker()) {
        NodeStatus::ErrorReported
    } else if out.len() == 0 {
        NodeStatus::EmptyOutput
    } else if spec_first_line(out) == connected_line() {
        NodeStatus::Connected
    } else {
        NodeStatus::UnexpectedFirstLine
    }
}

/// Classify the captured node status output.
pub fn classify_node_info(output: &Vec<u8>) -> (s: NodeStatus)
    ensures
        s == spec_node_status(output@),
{
    let marker = error_marker_bytes();
    if contains_bytes(output, &marker) {
        return NodeStatus::ErrorReported;
    }
    if output.len() == 0 {
        return NodeStatus::EmptyOutput;
    }
    let line_end: usize = match find_byte_from(output, 0, 10) {
        Some(i) => {
            proof {
                lemma_find_byte_some(output@, 10, i as int);
            }
            i
        },
        None => {
            proof {
                lemma_find_byte_none(output@, 10);
            }
            output.len()
        },
    };
    let mut line = subvec(output, 0, line_end);
    proof {
        assert(output@.take(output@.len() as int) =~= output@);
    }
    if line.len() > 0 && line[line.len() - 1] == 13 {
        let last = line.len() - 1;
        line.truncate(last);
    }
    proof {
        assert(line@ =~= spec_first_line(output@));
    }
    let banner = connected_line_bytes();
    if bytes_eq(&line, &banner) {
        NodeStatus::Connected
    } else {
        NodeStatus::UnexpectedFirstLine
    }
}

} // verus!
