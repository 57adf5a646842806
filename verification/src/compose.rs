//! Message composer: assembles the outbound alert text from the classified
//! prefix, the event description, the originator detail, and the resolved
//! location labels — or the nationwide marker when the national flag is set.
//!
//! A caller-supplied set of geographic codes of interest acts as a filter:
//! when it is non-empty and the alert carries codes, an alert with no code in
//! the set is dropped before composition. National alerts bypass the filter.

use vstd::prelude::*;

use crate::bytes::{bytes_eq, copy_bytes, join_sep, lemma_join_sep_push, views_of};
use crate::location::{location_label, resolve_location, spec_resolve, LocationEntry, LocationTable};
use crate::text::{
    from_sep, from_sep_bytes, issued_by, issued_by_bytes, list_sep, list_sep_bytes,
    location_multi, location_multi_bytes, location_single, location_single_bytes, nationwide,
    nationwide_bytes,
};

verus! {

/// The location part of a message: nothing without resolved labels, one
/// label after the singular marker, several after the plural marker with
/// commas between.
pub open spec fn spec_locations_part(labels: Seq<Seq<u8>>) -> Seq<u8> {
    if labels.len() == 0 {
        Seq::empty()
    } else if labels.len() == 1 {
        location_single() + labels[0]
    } else {
        location_multi() + join_sep(labels, list_sep())
    }
}

/// The full composed alert text. Test alerts carry the reporting station's
/// callsign after the prefix and event; national alerts end in the
/// nationwide marker in place of any locations.
pub open spec fn spec_compose(
    prefix: Seq<u8>,
    event: Seq<u8>,
    callsign: Seq<u8>,
    originator: Seq<u8>,
    is_test: bool,
    national: bool,
    labels: Seq<Seq<u8>>,
) -> Seq<u8> {
    prefix + event + (if is_test {
        from_sep() + callsign
    } else {
        Seq::empty()
    }) + issued_by() + originator + (if national {
        nationwide()
    } else {
        spec_locations_part(labels)
    })
}

/// Join byte vectors with `sep` between neighbours.
pub fn join_bytes(items: &Vec<Vec<u8>>, sep: &Vec<u8>) -> (r: Vec<u8>)
    ensures
        r@ == join_sep(views_of(items@), sep@),
{
    let mut r: Vec<u8> = Vec::new();
    let n = items.len();
    let mut i: usize = 0;
    proof {
        assert(views_of(items@).take(0) =~= Seq::<Seq<u8>>::empty());
    }
    while i < n
        invariant
            i <= n,
            n == items@.len(),
            r@ == join_sep(views_of(items@).take(i as int), sep@),
        decreases n - i,
    {
        if i > 0 {
            r.extend_from_slice(sep.as_slice());
        }
        r.extend_from_slice(items[i].as_slice());
        proof {
            let vs = views_of(items@);
            assert(vs.take(i as int).push(vs[i as int]) =~= vs.take(i + 1));
            lemma_join_sep_push(vs.take(i as int), sep@, vs[i as int]);
        }
        i = i + 1;
    }
    proof {
        assert(views_of(items@).take(n as int) =~= views_of(items@));
    }
    r
}

/// The display labels of the codes that resolve against the table, in the
/// order the codes appear; codes absent from the table are omitted.
pub open spec fn spec_resolved_labels(entries: Seq<LocationEntry>, codes: Seq<Seq<u8>>) -> Seq<
    Seq<u8>,
>
    decreases codes.len(),
{
    if codes.len() == 0 {
        Seq::empty()
    } else {
        let rest = spec_resolved_labels(entries, codes.drop_first());
        match spec_resolve(entries, codes[0]) {
            Some(r) => seq![r.2 + r.0] + rest,
            None => rest,
        }
    }
}

/// Resolve each code against the table and collect the labels of the codes
/// that are found, in order.
pub fn resolve_labels(table: &LocationTable, codes: &Vec<Vec<u8>>) -> (r: Vec<Vec<u8>>)
    ensures
        views_of(r@) == spec_resolved_labels(table.entries@, views_of(codes@)),
{
    let mut labels: Vec<Vec<u8>> = Vec::new();
    let n = codes.len();
    let mut i: usize = n;
    proof {
        assert(views_of(codes@).skip(n as int) =~= Seq::<Seq<u8>>::empty());
        assert(views_of(labels@) =~= Seq::<Seq<u8>>::empty());
    }
    while i > 0
        invariant
            i <= n,
            n == codes@.len(),
            views_of(labels@) == spec_resolved_labels(
                table.entries@,
                views_of(codes@).skip(i as int),
            ),
        decreases i,
    {
        i = i - 1;
        let ghost prev = labels@;
        let label = match resolve_location(table, &codes[i]) {
            Some(loc) => Some(location_label(&loc)),
            None => None,
        };
        match label {
            Some(l) => {
                labels.insert(0, l);
                proof {
                    assert(views_of(labels@) =~= seq![l@] + views_of(prev));
                }
            },
            None => {},
        }
        proof {
            let vs = views_of(codes@);
            assert(vs.skip(i as int).drop_first() =~= vs.skip(i + 1));
            assert(vs.skip(i as int)[0] == codes@[i as int]@);
        }
    }
    proof {
        assert(views_of(codes@).skip(0) =~= views_of(codes@));
    }
    labels
}

/// At least one alert code appears verbatim in the filter set.
pub open spec fn spec_code_match(filter: Seq<Seq<u8>>, codes: Seq<Seq<u8>>) -> bool {
    exists|i: int, j: int|
        0 <= i < codes.len() && 0 <= j < filter.len() && codes[i] == filter[j]
}

/// An alert passes the filter when no filter is set, when it carries no
/// codes, or when one of its codes is in the filter set.
pub open spec fn spec_passes_filter(filter: Seq<Seq<u8>>, codes: Seq<Seq<u8>>) -> bool {
    filter.len() == 0 || codes.len() == 0 || spec_code_match(filter, codes)
}

/// Decide whether an alert with these codes passes the locations-of-interest
/// filter.
pub fn passes_location_filter(filter: &Vec<Vec<u8>>, codes: &Vec<Vec<u8>>) -> (r: bool)
    ensures
        r == spec_passes_filter(views_of(filter@), views_of(codes@)),
{
    if filter.len() == 0 || codes.len() == 0 {
        return true;
    }
    let nc = codes.len();
    let nf = filter.len();
    let mut i: usize = 0;
    while i < nc
        invariant
            i <= nc,
            nc == codes@.len(),
            nf == filter@.len(),
            forall|a: int, b: int|
                0 <= a < i && 0 <= b < nf ==> views_of(codes@)[a] != views_of(filter@)[b],
        decreases nc - i,
    {
        let mut j: usize = 0;
        while j < nf
            invariant
                i < nc,
                j <= nf,
                nc == codes@.len(),
                nf == filter@.len(),
                forall|b: int| 0 <= b < j ==> views_of(codes@)[i as int] != views_of(filter@)[b],
            decreases nf - j,
        {
            if bytes_eq(&codes[i], &filter[j]) {
                proof {
                    assert(views_of(codes@)[i as int] == views_of(filter@)[j as int]);
                }
                return true;
            }
            j = j + 1;
        }
        i = i + 1;
    }
    false
}

/// Build the composed alert text from its parts.
pub fn compose_text(
    prefix: &Vec<u8>,
    event: &Vec<u8>,
    callsign: &Vec<u8>,
    originator: &Vec<u8>,
    is_test: bool,
    national: bool,
    labels: &Vec<Vec<u8>>,
) -> (r: Vec<u8>)
    ensures
        r@ == spec_compose(
            prefix@,
            event@,
            callsign@,
            originator@,
            is_test,
            national,
            views_of(labels@),
        ),
{
    let mut r = copy_bytes(prefix);
    r.extend_from_slice(event.as_slice());
    if is_test {
        let sep = from_sep_bytes();
        r.extend_from_slice(sep.as_slice());
        r.extend_from_slice(callsign.as_slice());
    }
    let issued = issued_by_bytes();
    r.extend_from_slice(issued.as_slice());
    r.extend_from_slice(originator.as_slice());
    if national {
        let marker = nationwide_bytes();
        r.extend_from_slice(marker.as_slice());
    } else {
        if labels.len() == 1 {
            let marker = location_single_bytes();
            r.extend_from_slice(marker.as_slice());
            r.extend_from_slice(labels[0].as_slice());
            proof {
                assert(spec_locations_part(views_of(labels@)) =~= location_single() + labels@[0]@);
            }
        } else if labels.len() > 1 {
            let marker = location_multi_bytes();
            r.extend_from_slice(marker.as_slice());
            let sep = list_sep_bytes();
            let joined = join_bytes(labels, &sep);
            r.extend_from_slice(joined.as_slice());
        }
    }
    proof {
        assert(r@ =~= spec_compose(
            prefix@,
            event@,
            callsign@,
            originator@,
            is_test,
            national,
            views_of(labels@),
        ));
    }
    r
}

} // verus!
