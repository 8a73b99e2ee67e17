//! Ordering of the dashboard listing: the current worktree first, dirty
//! worktrees before clean ones, names ascending within each group.

use vstd::prelude::*;
use vstd::multiset::Multiset;
use vstd::seq_lib::group_to_multiset_ensures;
use crate::status::{StatusView, WorktreeStatus};
use crate::text::{lemma_lex_total, lemma_lex_trans, lex_le, str_eq, str_le};
use crate::worktree::{spec_name, Worktree, WorktreeView};

verus! {

/// The mathematical value of one listing entry.
pub open spec fn pair_view(p: (Worktree, WorktreeStatus)) -> (WorktreeView, StatusView) {
    (p.0@, p.1@)
}

/// Whether the entry is the worktree of the current working directory.
pub open spec fn entry_current(e: (WorktreeView, StatusView), current: Seq<char>) -> bool {
    e.0.path == current
}

/// Whether the entry's worktree carries uncommitted changes.
pub open spec fn entry_dirty(e: (WorktreeView, StatusView)) -> bool {
    e.1.dirty_count > 0
}

/// The dashboard order: the current worktree sorts first, then dirty
/// before clean, then by display name.
pub open spec fn wt_le(
    a: (WorktreeView, StatusView),
    b: (WorktreeView, StatusView),
    current: Seq<char>,
) -> bool {
    let a_cur = entry_current(a, current);
    let b_cur = entry_current(b, current);
    let a_dirty = entry_dirty(a);
    let b_dirty = entry_dirty(b);
    if a_cur != b_cur {
        a_cur
    } else if a_dirty != b_dirty {
        a_dirty
    } else {
        lex_le(spec_name(a.0), spec_name(b.0))
    }
}

/// The dashboard order relates every pair of entries one way or the other.
pub proof fn lemma_wt_le_total(
    a: (WorktreeView, StatusView),
    b: (WorktreeView, StatusView),
    current: Seq<char>,
)
    ensures
        wt_le(a, b, current) || wt_le(b, a, current),
{
    lemma_lex_total(spec_name(a.0), spec_name(b.0));
}

/// The dashboard order is transitive.
pub proof fn lemma_wt_le_trans(
    a: (WorktreeView, StatusView),
    b: (WorktreeView, StatusView),
    c: (WorktreeView, StatusView),
    current: Seq<char>,
)
    requires
        wt_le(a, b, current),
        wt_le(b, c, current),
    ensures
        wt_le(a, c, current),
{
    if entry_current(a, current) == entry_current(b, current) && entry_current(b, current)
        == entry_current(c, current) && entry_dirty(a) == entry_dirty(b) && entry_dirty(b)
        == entry_dirty(c) {
        lemma_lex_trans(spec_name(a.0), spec_name(b.0), spec_name(c.0));
    }
}

/// Whether the entries stand in dashboard order.
pub open spec fn sorted_pairs(s: Seq<(Worktree, WorktreeStatus)>, current: Seq<char>) -> bool {
    forall|i: int, j: int|
        0 <= i < j < s.len() ==> wt_le(pair_view(#[trigger] s[i]), pair_view(#[trigger] s[j]), current)
}

/// Compares two entries in the dashboard order.
fn pair_le(a: &(Worktree, WorktreeStatus), b: &(Worktree, WorktreeStatus), current: &str) -> (r:
    bool)
    ensures
        r == wt_le(pair_view(*a), pair_view(*b), current@),
{
    let a_cur = str_eq(a.0.path.as_str(), current);
    let b_cur = str_eq(b.0.path.as_str(), current);
    if a_cur != b_cur {
        a_cur
    } else {
        let a_dirty = a.1.dirty_count > 0;
        let b_dirty = b.1.dirty_count > 0;
        if a_dirty != b_dirty {
            a_dirty
        } else {
            let an = a.0.name();
            let bn = b.0.name();
            str_le(an.as_str(), bn.as_str())
        }
    }
}

/// Sorts the listing into dashboard order. The result is a permutation of
/// the input, sorted as [`wt_le`] says.
pub fn sort_worktrees(worktrees: Vec<(Worktree, WorktreeStatus)>, current_path: &str) -> (r: Vec<
    (Worktree, WorktreeStatus),
>)
    ensures
        sorted_pairs(r@, current_path@),
        r@.to_multiset() == worktrees@.to_multiset(),
        r@.len() == worktrees@.len(),
{
    broadcast use group_to_multiset_ensures;

    let ghost orig = worktrees@;
    let mut input = worktrees;
    let mut out: Vec<(Worktree, WorktreeStatus)> = Vec::new();
    proof {
        assert(out@.to_multiset().add(input@.to_multiset()) =~= orig.to_multiset());
    }
    while input.len() > 0
        invariant
            out@.to_multiset().add(input@.to_multiset()) == orig.to_multiset(),
            out@.len() + input@.len() == orig.len(),
            sorted_pairs(out@, current_path@),
            forall|i: int, j: int|
                0 <= i < out@.len() && 0 <= j < input@.len() ==> wt_le(
                    pair_view(#[trigger] out@[i]),
                    pair_view(#[trigger] input@[j]),
                    current_path@,
                ),
        decreases input@.len(),
    {
        let n = input.len();
        let mut min: usize = 0;
        let mut k: usize = 1;
        proof {
            lemma_wt_le_total(pair_view(input@[0]), pair_view(input@[0]), current_path@);
        }
        while k < n
            invariant
                0 < n == input@.len(),
                0 <= min < k <= n,
                forall|j: int|
                    0 <= j < k ==> wt_le(
                        pair_view(input@[min as int]),
                        pair_view(#[trigger] input@[j]),
                        current_path@,
                    ),
            decreases n - k,
        {
            if !pair_le(&input[min], &input[k], current_path) {
                proof {
                    lemma_wt_le_total(
                        pair_view(input@[min as int]),
                        pair_view(input@[k as int]),
                        current_path@,
                    );
                    assert forall|j: int| 0 <= j < k + 1 implies wt_le(
                        pair_view(input@[k as int]),
                        pair_view(#[trigger] input@[j]),
                        current_path@,
                    ) by {
                        if j < k {
                            lemma_wt_le_trans(
                                pair_view(input@[k as int]),
                                pair_view(input@[min as int]),
                                pair_view(input@[j]),
                                current_path@,
                            );
                        } else {
                            lemma_wt_le_total(
                                pair_view(input@[k as int]),
                                pair_view(input@[k as int]),
                                current_path@,
                            );
                        }
                    }
                }
                min = k;
            }
            k = k + 1;
        }
        let ghost iv = input@;
        let x = input.remove(min);
        proof {
            broadcast use group_to_multiset_ensures;

            assert(x == iv[min as int]);
            assert(iv.contains(x)) by {
                assert(iv[min as int] == x);
            }
            assert(iv.to_multiset().count(x) > 0);
            assert(input@ == iv.remove(min as int));
            assert(iv.remove(min as int).to_multiset() =~= iv.to_multiset().remove(x));
            assert(out@.push(x).to_multiset() =~= out@.to_multiset().insert(x));
            assert(out@.push(x).to_multiset().add(input@.to_multiset()) =~= orig.to_multiset());
            assert(input@ =~= iv.subrange(0, min as int) + iv.subrange(min as int + 1, n as int));
            assert forall|j: int| 0 <= j < input@.len() implies wt_le(
                pair_view(x),
                pair_view(#[trigger] input@[j]),
                current_path@,
            ) by {
                if j < min {
                    assert(input@[j] == iv[j]);
                } else {
                    assert(input@[j] == iv[j + 1]);
                }
            }
            assert forall|i: int, j: int|
                0 <= i < out@.push(x).len() && 0 <= j < input@.len() implies wt_le(
                    pair_view(#[trigger] out@.push(x)[i]),
                    pair_view(#[trigger] input@[j]),
                    current_path@,
                ) by {
                if i < out@.len() {
                    if j < min {
                        assert(input@[j] == iv[j]);
                        assert(wt_le(pair_view(out@[i]), pair_view(iv[j]), current_path@));
                    } else {
                        assert(input@[j] == iv[j + 1]);
                        assert(wt_le(pair_view(out@[i]), pair_view(iv[j + 1]), current_path@));
                    }
                } else {
                    assert(out@.push(x)[i] == x);
                }
            }
            assert forall|i: int, j: int| 0 <= i < j < out@.push(x).len() implies wt_le(
                pair_view(#[trigger] out@.push(x)[i]),
                pair_view(#[trigger] out@.push(x)[j]),
                current_path@,
            ) by {
                if j < out@.len() {
                    assert(wt_le(pair_view(out@[i]), pair_view(out@[j]), current_path@));
                } else {
                    assert(out@.push(x)[j] == x);
                    assert(wt_le(pair_view(out@[i]), pair_view(iv[min as int]), current_path@));
                }
            }
        }
        out.push(x);
    }
    proof {
        broadcast use group_to_multiset_ensures;

        assert(input@.to_multiset() =~= Multiset::<(Worktree, WorktreeStatus)>::empty());
        assert(out@.to_multiset().add(Multiset::empty()) =~= out@.to_multiset());
        assert(out@.to_multiset().len() == out@.len());
        assert(orig.to_multiset().len() == orig.len());
    }
    out
}

/// In a sorted listing that contains the current worktree at all, the
/// first entry is the current worktree.
pub proof fn lemma_current_first(s: Seq<(Worktree, WorktreeStatus)>, current: Seq<char>)
    requires
        sorted_pairs(s, current),
        exists|i: int| 0 <= i < s.len() && entry_current(pair_view(#[trigger] s[i]), current),
    ensures
        entry_current(pair_view(s[0]), current),
{
    let i = choose|i: int| 0 <= i < s.len() && entry_current(pair_view(#[trigger] s[i]), current);
    if i > 0 {
        assert(wt_le(pair_view(s[0]), pair_view(s[i]), current));
    }
}

/// What the dashboard order guarantees of a sorted listing: every entry
/// after a non-current one is non-current, dirty entries precede clean
/// ones among entries of equal currency, and names ascend among entries of
/// equal currency and dirtiness.
pub proof fn lemma_list_ordering(s: Seq<(Worktree, WorktreeStatus)>, current: Seq<char>)
    requires
        sorted_pairs(s, current),
    ensures
        forall|i: int, j: int|
            0 <= i < j < s.len() && entry_current(pair_view(#[trigger] s[j]), current)
                ==> entry_current(pair_view(#[trigger] s[i]), current),
        forall|i: int, j: int|
            0 <= i < j < s.len() && entry_current(pair_view(#[trigger] s[i]), current)
                == entry_current(pair_view(#[trigger] s[j]), current) && entry_dirty(pair_view(s[j]))
                ==> entry_dirty(pair_view(s[i])),
        forall|i: int, j: int|
            0 <= i < j < s.len() && entry_current(pair_view(#[trigger] s[i]), current)
                == entry_current(pair_view(#[trigger] s[j]), current) && entry_dirty(pair_view(s[i]))
                == entry_dirty(pair_view(s[j])) ==> lex_le(
                spec_name(pair_view(s[i]).0),
                spec_name(pair_view(s[j]).0),
            ),
{
}

} // verus!
