//! Location resolver: maps a SAME geographic code to a county/state pair and
//! a directional sub-area label.
//!
//! A geographic code is a digit string whose leading digit names a
//! directional subdivision of the county; the lookup table is keyed by the
//! code with that digit normalized to `0`, since the table stores one record
//! per county. A code absent from the table resolves to nothing — that is an
//! expected outcome for out-of-region codes, not an error.

use vstd::prelude::*;

use crate::bytes::{bytes_eq, copy_bytes};
use crate::text::{
    dir_central, dir_central_bytes, dir_east, dir_east_bytes, dir_north, dir_north_bytes,
    dir_northeast, dir_northeast_bytes, dir_northwest, dir_northwest_bytes, dir_south,
    dir_south_bytes, dir_southeast, dir_southeast_bytes, dir_southwest, dir_southwest_bytes,
    dir_west, dir_west_bytes,
};

verus! {

/// One record of the location dataset: a normalized geographic code and the
/// county and state it names.
#[derive(Debug)]
pub struct LocationEntry {
    pub code: Vec<u8>,
    pub county: Vec<u8>,
    pub state: Vec<u8>,
}

/// The location lookup table, built once at startup and read-only afterwards.
#[derive(Debug)]
pub struct LocationTable {
    pub entries: Vec<LocationEntry>,
}

/// County and state of the first entry whose code equals `code`, if any.
pub open spec fn spec_lookup(entries: Seq<LocationEntry>, code: Seq<u8>) -> Option<
    (Seq<u8>, Seq<u8>),
>
    decreases entries.len(),
{
    if entries.len() == 0 {
        None
    } else if entries[0].code@ == code {
        Some((entries[0].county@, entries[0].state@))
    } else {
        spec_lookup(entries.drop_first(), code)
    }
}

/// Find the first table entry whose code equals `code`.
pub fn search_by_code<'a>(table: &'a LocationTable, code: &Vec<u8>) -> (r: Option<
    &'a LocationEntry,
>)
    ensures
        match r {
            Some(e) => e.code@ == code@ && spec_lookup(table.entries@, code@) == Some(
                (e.county@, e.state@),
            ),
            None => spec_lookup(table.entries@, code@) is None,
        },
{
    let n = table.entries.len();
    let mut i: usize = 0;
    proof {
        assert(table.entries@.skip(0) =~= table.entries@);
    }
    while i < n
        invariant
            i <= n,
            n == table.entries@.len(),
            spec_lookup(table.entries@, code@) == spec_lookup(table.entries@.skip(i as int), code@),
        decreases n - i,
    {
        let e = &table.entries[i];
        proof {
            assert(table.entries@.skip(i as int)[0] == table.entries@[i as int]);
        }
        if bytes_eq(&e.code, code) {
            return Some(e);
        }
        proof {
            assert(table.entries@.skip(i as int).drop_first() =~= table.entries@.skip(i + 1));
        }
        i = i + 1;
    }
    None
}

/// The compass label that a leading subdivision digit stands for, with a
/// trailing space; digit `0` and every non-digit byte give the empty label.
pub open spec fn direction_label(d: u8) -> Seq<u8> {
    if d == 49 {
        dir_northwest()
    } else if d == 50 {
        dir_north()
    } else if d == 51 {
        dir_northeast()
    } else if d == 52 {
        dir_west()
    } else if d == 53 {
        dir_central()
    } else if d == 54 {
        dir_east()
    } else if d == 55 {
        dir_southwest()
    } else if d == 56 {
        dir_south()
    } else if d == 57 {
        dir_southeast()
    } else {
        Seq::empty()
    }
}

/// Build the compass label for a subdivision digit.
pub fn direction_label_bytes(d: u8) -> (r: Vec<u8>)
    ensures
        r@ == direction_label(d),
{
    if d == 49 {
        dir_northwest_bytes()
    } else if d == 50 {
        dir_north_bytes()
    } else if d == 51 {
        dir_northeast_bytes()
    } else if d == 52 {
        dir_west_bytes()
    } else if d == 53 {
        dir_central_bytes()
    } else if d == 54 {
        dir_east_bytes()
    } else if d == 55 {
        dir_southwest_bytes()
    } else if d == 56 {
        dir_south_bytes()
    } else if d == 57 {
        dir_southeast_bytes()
    } else {
        let r: Vec<u8> = Vec::new();
        proof {
            assert(r@ =~= Seq::<u8>::empty());
        }
        r
    }
}

/// A code normalized for table lookup: the leading subdivision digit replaced
/// by `0`.
pub open spec fn normalized_code(code: Seq<u8>) -> Seq<u8> {
    if code.len() == 0 {
        code
    } else {
        seq![48u8] + code.skip(1)
    }
}

/// Replace the leading subdivision digit of `code` with `0`.
pub fn normalize_code(code: &Vec<u8>) -> (r: Vec<u8>)
    ensures
        r@ == normalized_code(code@),
{
    if code.len() == 0 {
        return copy_bytes(code);
    }
    let mut r: Vec<u8> = Vec::new();
    r.push(48);
    let n = code.len();
    let mut i: usize = 1;
    while i < n
        invariant
            1 <= i <= n,
            n == code@.len(),
            r@ == seq![48u8] + code@.subrange(1, i as int),
        decreases n - i,
    {
        r.push(code[i]);
        proof {
            assert(r@ =~= seq![48u8] + code@.subrange(1, i + 1));
        }
        i = i + 1;
    }
    proof {
        assert(code@.subrange(1, n as int) =~= code@.skip(1));
    }
    r
}

/// What a geographic code resolves to: the county and state of its
/// normalized code, plus the compass label of its subdivision digit.
#[derive(Debug)]
pub struct ResolvedLocation {
    pub county: Vec<u8>,
    pub state: Vec<u8>,
    pub direction: Vec<u8>,
}

/// Resolution of a raw geographic code against a table: `None` for the empty
/// code or a code absent from the table.
pub open spec fn spec_resolve(entries: Seq<LocationEntry>, code: Seq<u8>) -> Option<
    (Seq<u8>, Seq<u8>, Seq<u8>),
> {
    if code.len() == 0 {
        None
    } else {
        match spec_lookup(entries, normalized_code(code)) {
            Some(cs) => Some((cs.0, cs.1, direction_label(code[0]))),
            None => None,
        }
    }
}

/// Resolve a raw geographic code: normalize it, look it up, and attach the
/// directional label of its leading digit. Absent codes yield `None`.
pub fn resolve_location(table: &LocationTable, code: &Vec<u8>) -> (r: Option<ResolvedLocation>)
    ensures
        match r {
            Some(loc) => spec_resolve(table.entries@, code@) == Some(
                (loc.county@, loc.state@, loc.direction@),
            ),
            None => spec_resolve(table.entries@, code@) is None,
        },
{
    if code.len() == 0 {
        return None;
    }
    let key = normalize_code(code);
    match search_by_code(table, &key) {
        Some(e) => {
            let county = copy_bytes(&e.county);
            let state = copy_bytes(&e.state);
            let direction = direction_label_bytes(code[0]);
            Some(ResolvedLocation { county, state, direction })
        },
        None => None,
    }
}

/// Law: the subdivision digit never changes what a code resolves to. A code
/// with its leading digit replaced resolves to the same county and state —
/// or is equally absent — and its directional label is the replaced digit's
/// entry in the fixed digit-to-direction table.
pub proof fn lemma_resolve_subdivision(entries: Seq<LocationEntry>, code: Seq<u8>, d: u8)
    requires
        code.len() >= 1,
    ensures
        match (spec_resolve(entries, code), spec_resolve(entries, code.update(0, d))) {
            (Some(r1), Some(r2)) => r1.0 == r2.0 && r1.1 == r2.1 && r2.2 == direction_label(d),
            (None, None) => true,
            _ => false,
        },
{
    let changed = code.update(0, d);
    assert(normalized_code(changed) =~= normalized_code(code));
}

/// Law: a code whose normalized form is absent from the table resolves to
/// nothing — an expected outcome, not an error.
pub proof fn lemma_absent_code_not_found(entries: Seq<LocationEntry>, code: Seq<u8>)
    requires
        spec_lookup(entries, normalized_code(code)) is None,
    ensures
        spec_resolve(entries, code) is None,
{
}

/// The display label of a resolved location: the compass label followed by
/// the county name.
pub fn location_label(loc: &ResolvedLocation) -> (r: Vec<u8>)
    ensures
        r@ == loc.direction@ + loc.county@,
{
    let mut r = copy_bytes(&loc.direction);
    r.extend_from_slice(loc.county.as_slice());
    r
}

} // verus!
