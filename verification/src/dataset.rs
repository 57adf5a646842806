//! Parser for the location dataset: one record per line, in the form
//! `geographic_code,county_name,state_name`, with no header row.
//!
//! Lines end in a line feed, optionally preceded by a carriage return; blank
//! lines (and a trailing newline) are skipped. A record must hold exactly
//! three comma-separated fields. Any malformed record is a fatal error: the
//! parser reports the first bad line and no table is built from the data.

use vstd::prelude::*;

use crate::bytes::{
    find_byte_from, lemma_find_byte_none, lemma_find_byte_some, spec_find_byte, strip_cr, subvec,
};
use crate::location::{LocationEntry, LocationTable};

verus! {

/// The fields of one record line: exactly three, split at the two commas.
/// `None` when the line does not have exactly two commas.
pub open spec fn spec_parse_line(l: Seq<u8>) -> Option<(Seq<u8>, Seq<u8>, Seq<u8>)> {
    match spec_find_byte(l, 44) {
        None => None,
        Some(i) => {
            let code = l.take(i);
            let rest = l.skip(i + 1);
            match spec_find_byte(rest, 44) {
                None => None,
                Some(j) => {
                    let county = rest.take(j);
                    let state = rest.skip(j + 1);
                    if spec_find_byte(state, 44) is Some {
                        None
                    } else {
                        Some((code, county, state))
                    }
                },
            }
        },
    }
}

/// The first line of `data` (up to a line feed, exclusive) and the rest
/// (after that line feed); without a line feed, all of `data` and nothing.
pub open spec fn spec_next_line(data: Seq<u8>) -> (Seq<u8>, Seq<u8>) {
    match spec_find_byte(data, 10) {
        Some(i) => if 0 <= i < data.len() {
            (data.take(i), data.skip(i + 1))
        } else {
            (data, Seq::empty())
        },
        None => (data, Seq::empty()),
    }
}

/// The records of the whole dataset, in order of their lines; `None` when
/// any non-blank line is malformed.
pub open spec fn spec_load(data: Seq<u8>) -> Option<Seq<(Seq<u8>, Seq<u8>, Seq<u8>)>>
    decreases data.len(),
{
    if data.len() == 0 {
        Some(Seq::empty())
    } else {
        let line = strip_cr(spec_next_line(data).0);
        let tail = spec_load(spec_next_line(data).1);
        if line.len() == 0 {
            tail
        } else {
            match (spec_parse_line(line), tail) {
                (Some(r), Some(rs)) => Some(seq![r] + rs),
                _ => None,
            }
        }
    }
}

/// The code/county/state views of a table's entries, in order.
pub open spec fn table_view(entries: Seq<LocationEntry>) -> Seq<(Seq<u8>, Seq<u8>, Seq<u8>)> {
    entries.map_values(|e: LocationEntry| (e.code@, e.county@, e.state@))
}

/// A malformed record: `line_start` is the byte offset in the data at which
/// the first bad line begins.
#[derive(Debug)]
pub struct DatasetError {
    pub line_start: usize,
}

/// Parse one record line into an entry.
fn parse_line(line: &Vec<u8>) -> (r: Option<LocationEntry>)
    ensures
        match r {
            Some(e) => spec_parse_line(line@) == Some((e.code@, e.county@, e.state@)),
            None => spec_parse_line(line@) is None,
        },
{
    let llen = line.len();
    let c1 = match find_byte_from(line, 0, 44) {
        Some(i) => i,
        None => {
            proof {
                lemma_find_byte_none(line@, 44);
            }
            return None;
        },
    };
    proof {
        lemma_find_byte_some(line@, 44, c1 as int);
    }
    let ghost rest = line@.skip(c1 + 1);
    let c2 = match find_byte_from(line, c1 + 1, 44) {
        Some(i) => i,
        None => {
            proof {
                assert forall|k: int| 0 <= k < rest.len() implies rest[k] != 44 by {
                    assert(rest[k] == line@[c1 + 1 + k]);
                }
                lemma_find_byte_none(rest, 44);
            }
            return None;
        },
    };
    proof {
        assert(rest[c2 - (c1 + 1)] == line@[c2 as int]);
        assert forall|k: int| 0 <= k < c2 - (c1 + 1) implies rest[k] != 44 by {
            assert(rest[k] == line@[c1 + 1 + k]);
        }
        lemma_find_byte_some(rest, 44, c2 - (c1 + 1));
    }
    let ghost state_v = rest.skip(c2 - (c1 + 1) + 1);
    match find_byte_from(line, c2 + 1, 44) {
        Some(i) => {
            proof {
                assert(state_v =~= line@.skip(c2 + 1));
                assert(state_v[i - (c2 + 1)] == line@[i as int]);
                assert forall|k: int| 0 <= k < i - (c2 + 1) implies state_v[k] != 44 by {
                    assert(state_v[k] == line@[c2 + 1 + k]);
                }
                lemma_find_byte_some(state_v, 44, i - (c2 + 1));
            }
            None
        },
        None => {
            let code = subvec(line, 0, c1);
            let county = subvec(line, c1 + 1, c2);
            let state = subvec(line, c2 + 1, line.len());
            proof {
                assert(state_v =~= line@.skip(c2 + 1));
                assert forall|k: int| 0 <= k < state_v.len() implies state_v[k] != 44 by {
                    assert(state_v[k] == line@[c2 + 1 + k]);
                }
                lemma_find_byte_none(state_v, 44);
                assert(code@ =~= line@.take(c1 as int));
                assert(county@ =~= rest.take(c2 - (c1 + 1)));
                assert(state@ =~= state_v);
            }
            Some(LocationEntry { code, county, state })
        },
    }
}

/// Build the location table from the raw dataset bytes. Returns the table
/// whose entries are the dataset's records in order, or the offset of the
/// first malformed line.
pub fn load_locations(data: &Vec<u8>) -> (r: Result<LocationTable, DatasetError>)
    ensures
        match r {
            Ok(t) => spec_load(data@) == Some(table_view(t.entries@)),
            Err(e) => spec_load(data@) is None && e.line_start < data@.len() && {
                let bad = strip_cr(spec_next_line(data@.skip(e.line_start as int)).0);
                bad.len() > 0 && spec_parse_line(bad) is None
            },
        },
{
    let mut entries: Vec<LocationEntry> = Vec::new();
    let mut pos: usize = 0;
    let n = data.len();
    proof {
        assert(data@.skip(0) =~= data@);
    }
    while pos < n
        invariant
            pos <= n,
            n == data@.len(),
            match spec_load(data@.skip(pos as int)) {
                Some(rs) => spec_load(data@) == Some(table_view(entries@) + rs),
                None => spec_load(data@) is None,
            },
        decreases n - pos,
    {
        let ghost remain = data@.skip(pos as int);
        let (line_end, next_pos): (usize, usize) = match find_byte_from(data, pos, 10) {
            Some(i) => {
                proof {
                    assert(remain[i - pos] == data@[i as int]);
                    assert forall|k: int| 0 <= k < i - pos implies remain[k] != 10 by {
                        assert(remain[k] == data@[pos + k]);
                    }
                    lemma_find_byte_some(remain, 10, i - pos);
                }
                (i, i + 1)
            },
            None => {
                proof {
                    assert forall|k: int| 0 <= k < remain.len() implies remain[k] != 10 by {
                        assert(remain[k] == data@[pos + k]);
                    }
                    lemma_find_byte_none(remain, 10);
                }
                (n, n)
            },
        };
        proof {
            assert(spec_next_line(remain).0 =~= data@.subrange(pos as int, line_end as int));
            assert(spec_next_line(remain).1 =~= data@.skip(next_pos as int));
        }
        let mut line = subvec(data, pos, line_end);
        if line.len() > 0 && line[line.len() - 1] == 13 {
            let last = line.len() - 1;
            line.truncate(last);
            proof {
                assert(line@ =~= strip_cr(spec_next_line(remain).0));
            }
        }
        proof {
            assert(line@ =~= strip_cr(spec_next_line(remain).0));
        }
        if line.len() > 0 {
            match parse_line(&line) {
                Some(e) => {
                    let ghost prev = entries@;
                    entries.push(e);
                    proof {
                        assert(table_view(entries@) =~= table_view(prev) + seq![
                            (e.code@, e.county@, e.state@),
                        ]);
                        if spec_load(data@.skip(next_pos as int)) is Some {
                            assert(table_view(prev) + (seq![(e.code@, e.county@, e.state@)]
                                + spec_load(data@.skip(next_pos as int)).unwrap()) =~= table_view(
                                entries@,
                            ) + spec_load(data@.skip(next_pos as int)).unwrap());
                        }
                    }
                },
                None => {
                    return Err(DatasetError { line_start: pos });
                },
            }
        }
        pos = next_pos;
    }
    proof {
        assert(data@.skip(n as int) =~= Seq::<u8>::empty());
        assert(table_view(entries@) + Seq::<(Seq<u8>, Seq<u8>, Seq<u8>)>::empty() =~= table_view(
            entries@,
        ));
    }
    Ok(LocationTable { entries })
}

} // verus!
