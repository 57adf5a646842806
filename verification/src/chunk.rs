//! Chunking: splits a composed message into transport-sized fragments on
//! word boundaries.
//!
//! The scanner accumulates words greedily: a fragment is closed at the last
//! space that keeps it within the per-fragment byte budget, and the space at
//! the split point is dropped — rejoining the fragments with single spaces
//! reproduces the message exactly. A single word longer than the budget is
//! never split: it travels as one oversized fragment with no space in it.

use vstd::prelude::*;

use crate::bytes::{
    find_byte_from, join_sep, lemma_find_byte, lemma_find_byte_none, lemma_find_byte_some,
    lemma_join_sep_push, spec_find_byte, subvec, views_of,
};

verus! {

/// The transport's per-fragment payload budget, in bytes.
pub const FRAGMENT_LIMIT: usize = 75;

/// The single space byte that separates words and marks split points.
pub open spec fn space() -> Seq<u8> {
    seq![32u8]
}

/// `s` holds at least one space byte.
pub open spec fn has_space(s: Seq<u8>) -> bool {
    exists|k: int| 0 <= k < s.len() && s[k] == 32
}

/// Length of the first word of `s`: everything before its first space, or
/// all of it when it has none.
pub open spec fn first_word_len(s: Seq<u8>) -> int {
    match spec_find_byte(s, 32) {
        Some(j) => j,
        None => s.len() as int,
    }
}

/// Index of the first space of `s` at or after `from`; `s.len()` when there
/// is none.
spec fn first_space_from(s: Seq<u8>, from: int) -> int {
    match spec_find_byte(s.skip(from), 32) {
        Some(j) => from + j,
        None => s.len() as int,
    }
}

/// A space at `q` preceded (from `from` on) by no other pins the first
/// space down.
proof fn lemma_first_space_at(s: Seq<u8>, from: int, q: int)
    requires
        0 <= from <= q < s.len(),
        s[q] == 32,
        forall|k: int| from <= k < q ==> s[k] != 32,
    ensures
        first_space_from(s, from) == q,
{
    let t = s.skip(from);
    assert(t[q - from] == s[q]);
    assert forall|k: int| 0 <= k < q - from implies t[k] != 32 by {
        assert(t[k] == s[from + k]);
    }
    lemma_find_byte_some(t, 32, q - from);
}

/// With no space from `from` on, the first space defaults to the end.
proof fn lemma_first_space_none(s: Seq<u8>, from: int)
    requires
        0 <= from <= s.len(),
        forall|k: int| from <= k < s.len() ==> s[k] != 32,
    ensures
        first_space_from(s, from) == s.len(),
{
    let t = s.skip(from);
    assert forall|k: int| 0 <= k < t.len() implies t[k] != 32 by {
        assert(t[k] == s[from + k]);
    }
    lemma_find_byte_none(t, 32);
}

/// A stretch without spaces pushes the first space past it.
proof fn lemma_first_space_lower_bound(s: Seq<u8>, from: int, bound: int)
    requires
        0 <= from <= bound <= s.len(),
        forall|k: int| from <= k < bound ==> s[k] != 32,
    ensures
        first_space_from(s, from) >= bound,
{
    let t = s.skip(from);
    lemma_find_byte(t, 32);
    match spec_find_byte(t, 32) {
        Some(j) => {
            assert(t[j] == s[from + j]);
            if from + j < bound {
                assert(s[from + j] != 32);
            }
        },
        None => {},
    }
}

/// The first word of a fragment cut from `s` ends at the first space of `s`
/// after the fragment's start, or at the cut when that comes sooner.
proof fn lemma_first_word_of_cut(s: Seq<u8>, from: int, to: int)
    requires
        0 <= from <= to <= s.len(),
        first_space_from(s, from) >= to || s[first_space_from(s, from)] == 32,
        first_space_from(s, from) >= from,
        forall|k: int| from <= k < first_space_from(s, from) ==> s[k] != 32,
    ensures
        first_word_len(s.subrange(from, to)) == if first_space_from(s, from) < to {
            first_space_from(s, from) - from
        } else {
            to - from
        },
{
    let f = s.subrange(from, to);
    let fs = first_space_from(s, from);
    if fs < to {
        assert(f[fs - from] == s[fs]);
        assert forall|k: int| 0 <= k < fs - from implies f[k] != 32 by {
            assert(f[k] == s[from + k]);
        }
        lemma_find_byte_some(f, 32, fs - from);
    } else {
        assert forall|k: int| 0 <= k < f.len() implies f[k] != 32 by {
            assert(f[k] == s[from + k]);
        }
        lemma_find_byte_none(f, 32);
    }
}

/// Splitting an item at an interior space moves the piece after the space
/// into a fragment of its own, without changing the joined whole.
proof fn lemma_join_split(items: Seq<Seq<u8>>, a: Seq<u8>, b: Seq<u8>)
    ensures
        join_sep(items.push(a + space() + b), space()) == join_sep(
            items.push(a).push(b),
            space(),
        ),
{
    lemma_join_sep_push(items, space(), a + space() + b);
    lemma_join_sep_push(items, space(), a);
    lemma_join_sep_push(items.push(a), space(), b);
    if items.len() == 0 {
        assert(join_sep(items.push(a), space()) == a);
        assert(join_sep(items.push(a).push(b), space()) == a + space() + b);
    } else {
        assert(join_sep(items, space()) + space() + (a + space() + b) =~= (join_sep(
            items,
            space(),
        ) + space() + a) + space() + b);
    }
}

/// Split a message into ordered fragments at space boundaries. Joining the
/// fragments back with single spaces reproduces the message; a fragment
/// only exceeds the budget when it is a single word with no space in it;
/// and the split is greedy — no fragment could have absorbed the first
/// word of the next one without breaking the budget.
#[verifier::rlimit(100)]
#[verifier::spinoff_prover]
pub fn chunk_message(msg: &Vec<u8>) -> (frags: Vec<Vec<u8>>)
    ensures
        join_sep(views_of(frags@), space()) == msg@,
        forall|i: int|
            0 <= i < frags@.len() ==> frags@[i]@.len() <= FRAGMENT_LIMIT as int || !has_space(
                #[trigger] frags@[i]@,
            ),
        forall|i: int|
            0 <= i < frags@.len() - 1 ==> #[trigger] frags@[i]@.len() + 1 + first_word_len(
                frags@[i + 1]@,
            ) > FRAGMENT_LIMIT as int,
        frags@.len() == 0 <==> msg@.len() == 0,
{
    let mut frags: Vec<Vec<u8>> = Vec::new();
    let n = msg.len();
    if n == 0 {
        return frags;
    }
    let mut start: usize = 0;
    proof {
        assert(msg@.skip(0) =~= msg@);
        assert(join_sep(views_of(frags@).push(msg@.skip(0)), space()) == msg@);
    }
    while n - start > FRAGMENT_LIMIT
        invariant
            start <= n,
            n == msg@.len(),
            join_sep(views_of(frags@).push(msg@.skip(start as int)), space()) == msg@,
            forall|i: int|
                0 <= i < frags@.len() ==> frags@[i]@.len() <= FRAGMENT_LIMIT as int || !has_space(
                    #[trigger] frags@[i]@,
                ),
            forall|i: int|
                0 <= i < frags@.len() - 1 ==> #[trigger] frags@[i]@.len() + 1 + first_word_len(
                    frags@[i + 1]@,
                ) > FRAGMENT_LIMIT as int,
            frags@.len() > 0 ==> frags@[frags@.len() - 1]@.len() + 1 + (first_space_from(
                msg@,
                start as int,
            ) - start) > FRAGMENT_LIMIT as int,
        decreases n - start,
    {
        let ghost fs0 = first_space_from(msg@, start as int);
        // Where the next space lies decides everything; pin it down first.
        let q0_opt = find_byte_from(msg, start, 32);
        proof {
            match q0_opt {
                Some(q) => {
                    lemma_first_space_at(msg@, start as int, q as int);
                },
                None => {
                    lemma_first_space_none(msg@, start as int);
                },
            }
        }
        let limit_end = start + FRAGMENT_LIMIT;
        let mut p_opt: Option<usize> = None;
        let mut k: usize = start;
        while k <= limit_end
            invariant
                start <= k <= limit_end + 1,
                limit_end < n,
                n == msg@.len(),
                match p_opt {
                    Some(p) => start <= p < k && msg@[p as int] == 32 && forall|j: int|
                        p < j < k ==> msg@[j] != 32,
                    None => forall|j: int| start <= j < k ==> msg@[j] != 32,
                },
            decreases limit_end + 1 - k,
        {
            if msg[k] == 32 {
                p_opt = Some(k);
            }
            k = k + 1;
        }
        let split_at: usize = match p_opt {
            Some(p) => p,
            None => {
                match q0_opt {
                    Some(q) => {
                        proof {
                            assert(q > limit_end);
                        }
                        q
                    },
                    None => {
                        // The whole remainder is one oversized word: flush it.
                        let frag = subvec(msg, start, n);
                        let ghost prev = frags@;
                        frags.push(frag);
                        proof {
                            assert(frag@ =~= msg@.skip(start as int));
                            assert(views_of(frags@) =~= views_of(prev).push(msg@.skip(
                                start as int,
                            )));
                            assert forall|kk: int|
                                0 <= kk < frag@.len() implies frag@[kk] != 32 by {
                                assert(frag@[kk] == msg@[start + kk]);
                            }
                            lemma_first_word_of_cut(msg@, start as int, n as int);
                        }
                        return frags;
                    },
                }
            },
        };
        let frag = subvec(msg, start, split_at);
        let ghost prev = frags@;
        frags.push(frag);
        proof {
            assert(msg@[split_at as int] == 32);
            assert(msg@.skip(start as int) =~= frag@ + space() + msg@.skip(split_at + 1));
            lemma_join_split(views_of(prev), frag@, msg@.skip(split_at + 1));
            assert(views_of(prev).push(frag@) =~= views_of(frags@));
            // The budget clause: a window split fits; a beyond-window split
            // is a single word with no space.
            if split_at > limit_end {
                assert forall|kk: int| 0 <= kk < frag@.len() implies frag@[kk] != 32 by {
                    assert(frag@[kk] == msg@[start + kk]);
                }
            }
            // The greedy clause for the pair just completed.
            assert(fs0 <= split_at as int);
            lemma_first_word_of_cut(msg@, start as int, split_at as int);
            assert(first_word_len(frag@) == fs0 - start);
            // The pending greedy bound for the fragment just pushed: the
            // next space after the split lies beyond the window's end.
            if split_at <= limit_end {
                assert(forall|j: int| split_at < j < limit_end + 1 ==> msg@[j] != 32);
                lemma_first_space_lower_bound(msg@, split_at + 1, limit_end + 1);
            } else {
                lemma_first_space_lower_bound(msg@, split_at + 1, split_at + 1);
            }
        }
        start = split_at + 1;
    }
    let ghost fs0 = first_space_from(msg@, start as int);
    let q0_opt = find_byte_from(msg, start, 32);
    proof {
        match q0_opt {
            Some(q) => {
                lemma_first_space_at(msg@, start as int, q as int);
            },
            None => {
                lemma_first_space_none(msg@, start as int);
            },
        }
    }
    let frag = subvec(msg, start, n);
    let ghost prev = frags@;
    frags.push(frag);
    proof {
        assert(frag@ =~= msg@.skip(start as int));
        assert(views_of(frags@) =~= views_of(prev).push(msg@.skip(start as int)));
        lemma_first_word_of_cut(msg@, start as int, n as int);
        assert(first_word_len(frag@) == if fs0 < n as int {
            fs0 - start
        } else {
            n - start
        });
    }
    frags
}

} // verus!
