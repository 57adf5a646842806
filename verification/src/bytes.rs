//! Small verified helpers on byte vectors: copying a range, equality, and
//! substring search. The rest of the crate states its contracts over
//! `Seq<u8>` views, and these helpers bridge the executable operations to
//! those views.

use vstd::prelude::*;

verus! {

/// True when `needle` occurs as a contiguous run inside `haystack`.
pub open spec fn contains_seq(haystack: Seq<u8>, needle: Seq<u8>) -> bool {
    exists|i: int|
        0 <= i && i + needle.len() <= haystack.len() && #[trigger] haystack.subrange(
            i,
            i + needle.len(),
        ) == needle
}

/// Copy of `v[i..j]` as a fresh vector.
pub fn subvec(v: &Vec<u8>, i: usize, j: usize) -> (r: Vec<u8>)
    requires
        i <= j <= v@.len(),
    ensures
        r@ == v@.subrange(i as int, j as int),
{
    let mut r: Vec<u8> = Vec::new();
    let mut k: usize = i;
    while k < j
        invariant
            i <= k <= j <= v@.len(),
            r@ == v@.subrange(i as int, k as int),
        decreases j - k,
    {
        r.push(v[k]);
        proof {
            assert(r@ =~= v@.subrange(i as int, k + 1 as int));
        }
        k = k + 1;
    }
    r
}

/// Copy of the whole vector.
pub fn copy_bytes(v: &Vec<u8>) -> (r: Vec<u8>)
    ensures
        r@ == v@,
{
    let r = subvec(v, 0, v.len());
    proof {
        assert(v@.subrange(0, v@.len() as int) =~= v@);
    }
    r
}

/// Byte-for-byte equality of two vectors.
pub fn bytes_eq(a: &Vec<u8>, b: &Vec<u8>) -> (r: bool)
    ensures
        r == (a@ == b@),
{
    if a.len() != b.len() {
        return false;
    }
    let mut i: usize = 0;
    while i < a.len()
        invariant
            i <= a@.len(),
            a@.len() == b@.len(),
            forall|k: int| 0 <= k < i ==> a@[k] == b@[k],
        decreases a@.len() - i,
    {
        if a[i] != b[i] {
            return false;
        }
        i = i + 1;
    }
    proof {
        assert(a@ =~= b@);
    }
    true
}

/// True when `haystack[at .. at + needle.len()]` equals `needle`.
fn matches_at(haystack: &Vec<u8>, needle: &Vec<u8>, at: usize) -> (r: bool)
    requires
        at + needle@.len() <= haystack@.len(),
    ensures
        r == (haystack@.subrange(at as int, at + needle@.len()) == needle@),
{
    let n = needle.len();
    let h = haystack.len();
    let mut j: usize = 0;
    while j < n
        invariant
            j <= n,
            n == needle@.len(),
            h == haystack@.len(),
            at + needle@.len() <= haystack@.len(),
            forall|k: int| 0 <= k < j ==> haystack@[at + k] == needle@[k],
        decreases n - j,
    {
        if haystack[at + j] != needle[j] {
            proof {
                let sub = haystack@.subrange(at as int, at + needle@.len());
                assert(sub[j as int] == haystack@[at + j]);
            }
            return false;
        }
        j = j + 1;
    }
    proof {
        assert(haystack@.subrange(at as int, at + needle@.len()) =~= needle@);
    }
    true
}

/// A line with a trailing carriage return removed.
pub open spec fn strip_cr(line: Seq<u8>) -> Seq<u8> {
    if line.len() > 0 && line[line.len() - 1] == 13 {
        line.drop_last()
    } else {
        line
    }
}

/// The views of a sequence of byte vectors.
pub open spec fn views_of(s: Seq<Vec<u8>>) -> Seq<Seq<u8>> {
    s.map_values(|v: Vec<u8>| v@)
}

/// The items joined in order with `sep` between neighbours.
pub open spec fn join_sep(items: Seq<Seq<u8>>, sep: Seq<u8>) -> Seq<u8>
    decreases items.len(),
{
    if items.len() == 0 {
        Seq::empty()
    } else if items.len() == 1 {
        items[0]
    } else {
        items[0] + sep + join_sep(items.drop_first(), sep)
    }
}

/// Joining one more item appends a separator and the item.
pub proof fn lemma_join_sep_push(items: Seq<Seq<u8>>, sep: Seq<u8>, last: Seq<u8>)
    ensures
        join_sep(items.push(last), sep) == if items.len() == 0 {
            last
        } else {
            join_sep(items, sep) + sep + last
        },
    decreases items.len(),
{
    if items.len() == 0 {
        assert(items.push(last)[0] == last);
    } else if items.len() == 1 {
        assert(items.push(last)[0] == items[0]);
        assert(items.push(last).drop_first() =~= seq![last]);
        assert(join_sep(seq![last], sep) == last);
        assert(join_sep(items.push(last), sep) == items[0] + sep + last);
    } else {
        lemma_join_sep_push(items.drop_first(), sep, last);
        assert(items.push(last).drop_first() =~= items.drop_first().push(last));
        assert(items.push(last)[0] == items[0]);
        assert((items[0] + sep + (join_sep(items.drop_first(), sep) + sep + last)) =~= (items[0]
            + sep + join_sep(items.drop_first(), sep) + sep + last));
    }
}

/// Index of the first occurrence of `b` in `s`, if any.
pub open spec fn spec_find_byte(s: Seq<u8>, b: u8) -> Option<int>
    decreases s.len(),
{
    if s.len() == 0 {
        None
    } else if s[0] == b {
        Some(0)
    } else {
        match spec_find_byte(s.drop_first(), b) {
            Some(i) => Some(i + 1),
            None => None,
        }
    }
}

/// `spec_find_byte` returns the least index holding `b`, and `None` only
/// when `b` does not occur.
pub proof fn lemma_find_byte(s: Seq<u8>, b: u8)
    ensures
        match spec_find_byte(s, b) {
            Some(i) => 0 <= i < s.len() && s[i] == b && forall|k: int| 0 <= k < i ==> s[k] != b,
            None => forall|k: int| 0 <= k < s.len() ==> s[k] != b,
        },
    decreases s.len(),
{
    if s.len() > 0 && s[0] != b {
        lemma_find_byte(s.drop_first(), b);
        match spec_find_byte(s.drop_first(), b) {
            Some(i) => {
                assert(s[i + 1] == s.drop_first()[i]);
                assert forall|k: int| 0 <= k < i + 1 implies s[k] != b by {
                    if k >= 1 {
                        assert(s[k] == s.drop_first()[k - 1]);
                    }
                }
            },
            None => {
                assert forall|k: int| 0 <= k < s.len() implies s[k] != b by {
                    if k >= 1 {
                        assert(s[k] == s.drop_first()[k - 1]);
                    }
                }
            },
        }
    }
}

/// A least index holding `b` pins `spec_find_byte` down to it.
pub proof fn lemma_find_byte_some(s: Seq<u8>, b: u8, i: int)
    requires
        0 <= i < s.len(),
        s[i] == b,
        forall|k: int| 0 <= k < i ==> s[k] != b,
    ensures
        spec_find_byte(s, b) == Some(i),
{
    lemma_find_byte(s, b);
    match spec_find_byte(s, b) {
        Some(j) => {
            if j < i {
                assert(s[j] != b);
            }
            if i < j {
                assert(s[i] != b);
            }
        },
        None => {
            assert(s[i] != b);
        },
    }
}

/// If `b` occurs nowhere in `s`, `spec_find_byte` finds nothing.
pub proof fn lemma_find_byte_none(s: Seq<u8>, b: u8)
    requires
        forall|k: int| 0 <= k < s.len() ==> s[k] != b,
    ensures
        spec_find_byte(s, b) is None,
{
    lemma_find_byte(s, b);
    match spec_find_byte(s, b) {
        Some(j) => {
            assert(s[j] != b);
        },
        None => {},
    }
}

/// Scan `v` from `from` for the first occurrence of `b`.
pub fn find_byte_from(v: &Vec<u8>, from: usize, b: u8) -> (r: Option<usize>)
    requires
        from <= v@.len(),
    ensures
        match r {
            Some(i) => from <= i < v@.len() && v@[i as int] == b && forall|k: int|
                from <= k < i ==> v@[k] != b,
            None => forall|k: int| from <= k < v@.len() ==> v@[k] != b,
        },
{
    let n = v.len();
    let mut i: usize = from;
    while i < n
        invariant
            from <= i <= n,
            n == v@.len(),
            forall|k: int| from <= k < i ==> v@[k] != b,
        decreases n - i,
    {
        if v[i] == b {
            return Some(i);
        }
        i = i + 1;
    }
    None
}

/// Substring search: does `needle` occur anywhere in `haystack`?
pub fn contains_bytes(haystack: &Vec<u8>, needle: &Vec<u8>) -> (r: bool)
    ensures
        r == contains_seq(haystack@, needle@),
{
    if needle.len() > haystack.len() {
        return false;
    }
    if needle.len() == 0 {
        proof {
            assert(haystack@.subrange(0, 0 + needle@.len() as int) =~= needle@);
        }
        return true;
    }
    let stop = haystack.len() - needle.len() + 1;
    let mut i: usize = 0;
    while i < stop
        invariant
            i <= stop,
            1 <= needle@.len(),
            stop == haystack@.len() - needle@.len() + 1,
            forall|k: int|
                0 <= k < i ==> #[trigger] haystack@.subrange(k, k + needle@.len()) != needle@,
        decreases stop - i,
    {
        if matches_at(haystack, needle, i) {
            proof {
                assert(haystack@.subrange(i as int, i + needle@.len()) == needle@);
            }
            return true;
        }
        i = i + 1;
    }
    false
}

} // verus!
