//! The watermark policy: which posts are new relative to the
//! persisted cursor, and in what order they must be processed.
//!
//! `select_new` discards every post whose timestamp is at or below the
//! watermark and orders the remainder ascending by timestamp (oldest
//! new post first), stably for equal timestamps, so that a delivery
//! interrupted partway leaves the watermark on a contiguous prefix of
//! delivered posts.

use vstd::prelude::*;
use crate::post::Post;

verus! {

/// The posts of `posts` with timestamp strictly above `watermark`, in
/// source order.
pub open spec fn spec_filter_new(posts: Seq<Post>, watermark: i64) -> Seq<Post>
    decreases posts.len(),
{
    if posts.len() == 0 {
        Seq::<Post>::empty()
    } else {
        let rest = spec_filter_new(posts.drop_last(), watermark);
        if posts.last().timestamp > watermark {
            rest.push(posts.last())
        } else {
            rest
        }
    }
}

/// The first index of `s` holding a timestamp strictly above `t`: the
/// position at which a post with timestamp `t` is inserted so that the
/// sort stays ascending and stable.
pub open spec fn insertion_point(s: Seq<Post>, t: i64) -> int
    decreases s.len(),
{
    if s.len() == 0 {
        0
    } else if s[0].timestamp > t {
        0
    } else {
        1 + insertion_point(s.drop_first(), t)
    }
}

/// `s` with `p` inserted at its insertion point.
pub open spec fn spec_sorted_insert(s: Seq<Post>, p: Post) -> Seq<Post> {
    s.insert(insertion_point(s, p.timestamp), p)
}

/// Stable ascending sort by timestamp: each post, left to right, is
/// inserted before the first strictly-later post of those already
/// placed.
pub open spec fn spec_stable_sort(s: Seq<Post>) -> Seq<Post>
    decreases s.len(),
{
    if s.len() == 0 {
        Seq::<Post>::empty()
    } else {
        spec_sorted_insert(spec_stable_sort(s.drop_last()), s.last())
    }
}

/// What `select_new` returns: the new posts, sorted as above.
pub open spec fn spec_select_new(posts: Seq<Post>, watermark: i64) -> Seq<Post> {
    spec_stable_sort(spec_filter_new(posts, watermark))
}

/// Ascending by timestamp.
pub open spec fn sorted_by_timestamp(s: Seq<Post>) -> bool {
    forall|i: int, j: int|
        0 <= i <= j < s.len() ==> #[trigger] s[i].timestamp <= #[trigger] s[j].timestamp
}

/// Every timestamp strictly above `watermark`.
pub open spec fn all_above(s: Seq<Post>, watermark: i64) -> bool {
    forall|i: int| 0 <= i < s.len() ==> #[trigger] s[i].timestamp > watermark
}

proof fn lemma_insertion_point_bounds(s: Seq<Post>, t: i64)
    ensures
        0 <= insertion_point(s, t) <= s.len(),
        forall|i: int| 0 <= i < insertion_point(s, t) ==> #[trigger] s[i].timestamp <= t,
        insertion_point(s, t) < s.len() ==> s[insertion_point(s, t)].timestamp > t,
    decreases s.len(),
{
    if s.len() == 0 {
    } else if s[0].timestamp > t {
    } else {
        lemma_insertion_point_bounds(s.drop_first(), t);
        assert forall|i: int| 0 <= i < insertion_point(s, t) implies #[trigger] s[i].timestamp
            <= t by {
            if i > 0 {
                assert(s.drop_first()[i - 1] == s[i]);
            }
        }
    }
}

/// The insertion point is the unique index bounded below by
/// timestamps at most `t` and above by one exceeding `t`.
proof fn lemma_insertion_point_char(s: Seq<Post>, t: i64, j: int)
    requires
        0 <= j <= s.len(),
        forall|i: int| 0 <= i < j ==> #[trigger] s[i].timestamp <= t,
        j < s.len() ==> s[j].timestamp > t,
    ensures
        insertion_point(s, t) == j,
    decreases j,
{
    if j == 0 {
    } else {
        assert(s[0].timestamp <= t);
        assert forall|i: int| 0 <= i < j - 1 implies #[trigger] s.drop_first()[i].timestamp
            <= t by {
            assert(s.drop_first()[i] == s[i + 1]);
        }
        if j - 1 < s.drop_first().len() {
            assert(s.drop_first()[j - 1] == s[j]);
        }
        lemma_insertion_point_char(s.drop_first(), t, j - 1);
    }
}

proof fn lemma_sorted_insert_sorted(s: Seq<Post>, p: Post)
    requires
        sorted_by_timestamp(s),
    ensures
        sorted_by_timestamp(spec_sorted_insert(s, p)),
{
    lemma_insertion_point_bounds(s, p.timestamp);
    let k = insertion_point(s, p.timestamp);
    let r = s.insert(k, p);
    assert forall|i: int, j: int| 0 <= i <= j < r.len() implies #[trigger] r[i].timestamp
        <= #[trigger] r[j].timestamp by {
        if i < k && j < k {
        } else if i == k || j == k {
            if i < k {
                assert(r[i] == s[i]);
            }
            if j > k {
                assert(r[j] == s[j - 1]);
                assert(s[j - 1].timestamp > p.timestamp);
            }
        } else if i > k && j > k {
            assert(r[i] == s[i - 1]);
            assert(r[j] == s[j - 1]);
        } else {
            // i < k < j
            assert(r[i] == s[i]);
            assert(r[j] == s[j - 1]);
            assert(s[i].timestamp <= p.timestamp);
            assert(s[j - 1].timestamp > p.timestamp);
        }
    }
}

proof fn lemma_sorted_insert_above(s: Seq<Post>, p: Post, watermark: i64)
    requires
        all_above(s, watermark),
        p.timestamp > watermark,
    ensures
        all_above(spec_sorted_insert(s, p), watermark),
{
    lemma_insertion_point_bounds(s, p.timestamp);
    let k = insertion_point(s, p.timestamp);
    let r = s.insert(k, p);
    assert forall|i: int| 0 <= i < r.len() implies #[trigger] r[i].timestamp > watermark by {
        if i < k {
            assert(r[i] == s[i]);
        } else if i == k {
        } else {
            assert(r[i] == s[i - 1]);
        }
    }
}

proof fn lemma_stable_sort_sorted_above(s: Seq<Post>, watermark: i64)
    requires
        all_above(s, watermark),
    ensures
        sorted_by_timestamp(spec_stable_sort(s)),
        all_above(spec_stable_sort(s), watermark),
    decreases s.len(),
{
    if s.len() == 0 {
    } else {
        assert(all_above(s.drop_last(), watermark)) by {
            assert forall|i: int| 0 <= i < s.drop_last().len()
                implies #[trigger] s.drop_last()[i].timestamp > watermark by {
                assert(s.drop_last()[i] == s[i]);
            }
        }
        lemma_stable_sort_sorted_above(s.drop_last(), watermark);
        lemma_sorted_insert_sorted(spec_stable_sort(s.drop_last()), s.last());
        lemma_sorted_insert_above(spec_stable_sort(s.drop_last()), s.last(), watermark);
    }
}

proof fn lemma_filter_above(s: Seq<Post>, watermark: i64)
    ensures
        all_above(spec_filter_new(s, watermark), watermark),
    decreases s.len(),
{
    if s.len() == 0 {
    } else {
        lemma_filter_above(s.drop_last(), watermark);
        let rest = spec_filter_new(s.drop_last(), watermark);
        if s.last().timestamp > watermark {
            assert forall|i: int| 0 <= i < rest.push(s.last()).len()
                implies #[trigger] rest.push(s.last())[i].timestamp > watermark by {
                if i < rest.len() {
                    assert(rest.push(s.last())[i] == rest[i]);
                }
            }
        }
    }
}

/// The selection is ordered ascending by timestamp, and every selected
/// post lies strictly above the watermark: nothing at or below the
/// cycle-start cursor is ever handed on for delivery.
pub proof fn lemma_select_new_sorted_above(posts: Seq<Post>, watermark: i64)
    ensures
        sorted_by_timestamp(spec_select_new(posts, watermark)),
        all_above(spec_select_new(posts, watermark), watermark),
{
    lemma_filter_above(posts, watermark);
    lemma_stable_sort_sorted_above(spec_filter_new(posts, watermark), watermark);
}

proof fn lemma_filter_contains(s: Seq<Post>, watermark: i64, p: Post)
    ensures
        spec_filter_new(s, watermark).contains(p) <==> (s.contains(p) && p.timestamp
            > watermark),
    decreases s.len(),
{
    if s.len() == 0 {
        assert(!s.contains(p));
    } else {
        lemma_filter_contains(s.drop_last(), watermark, p);
        let rest = spec_filter_new(s.drop_last(), watermark);
        assert(s.contains(p) <==> (s.drop_last().contains(p) || s.last() == p)) by {
            if s.contains(p) {
                let i = choose|i: int| 0 <= i < s.len() && s[i] == p;
                if i < s.len() - 1 {
                    assert(s.drop_last()[i] == p);
                }
            }
            if s.drop_last().contains(p) {
                let i = choose|i: int| 0 <= i < s.drop_last().len() && s.drop_last()[i] == p;
                assert(s[i] == p);
            }
            if s.last() == p {
                assert(s[s.len() - 1] == p);
            }
        }
        if s.last().timestamp > watermark {
            let r = rest.push(s.last());
            assert(r.contains(p) <==> (rest.contains(p) || s.last() == p)) by {
                if r.contains(p) {
                    let i = choose|i: int| 0 <= i < r.len() && r[i] == p;
                    if i < rest.len() {
                        assert(rest[i] == p);
                    }
                }
                if rest.contains(p) {
                    let i = choose|i: int| 0 <= i < rest.len() && rest[i] == p;
                    assert(r[i] == p);
                }
                assert(r[r.len() - 1] == s.last());
            }
        }
    }
}

proof fn lemma_insert_contains(s: Seq<Post>, k: int, q: Post, p: Post)
    requires
        0 <= k <= s.len(),
    ensures
        s.insert(k, q).contains(p) <==> (s.contains(p) || q == p),
{
    let r = s.insert(k, q);
    if r.contains(p) {
        let i = choose|i: int| 0 <= i < r.len() && r[i] == p;
        if i < k {
            assert(s[i] == p);
        } else if i > k {
            assert(s[i - 1] == p);
        }
    }
    if s.contains(p) {
        let i = choose|i: int| 0 <= i < s.len() && s[i] == p;
        if i < k {
            assert(r[i] == p);
        } else {
            assert(r[i + 1] == p);
        }
    }
    assert(r[k] == q);
}

proof fn lemma_stable_sort_contains(s: Seq<Post>, p: Post)
    ensures
        spec_stable_sort(s).contains(p) <==> s.contains(p),
    decreases s.len(),
{
    if s.len() == 0 {
        assert(!s.contains(p));
    } else {
        lemma_stable_sort_contains(s.drop_last(), p);
        let sorted_rest = spec_stable_sort(s.drop_last());
        lemma_insertion_point_bounds(sorted_rest, s.last().timestamp);
        lemma_insert_contains(
            sorted_rest,
            insertion_point(sorted_rest, s.last().timestamp),
            s.last(),
            p,
        );
        assert(s.contains(p) <==> (s.drop_last().contains(p) || s.last() == p)) by {
            if s.contains(p) {
                let i = choose|i: int| 0 <= i < s.len() && s[i] == p;
                if i < s.len() - 1 {
                    assert(s.drop_last()[i] == p);
                }
            }
            if s.drop_last().contains(p) {
                let i = choose|i: int| 0 <= i < s.drop_last().len() && s.drop_last()[i] == p;
                assert(s[i] == p);
            }
            if s.last() == p {
                assert(s[s.len() - 1] == p);
            }
        }
    }
}

/// A post is selected exactly when the feed carried it and its
/// timestamp lies strictly above the watermark. In particular, a post
/// whose delivery failed this cycle (so the watermark stayed below its
/// timestamp) is selected again on the next run, and a delivered post
/// (watermark at or above it) is not.
pub proof fn lemma_select_new_contains(posts: Seq<Post>, watermark: i64, p: Post)
    ensures
        spec_select_new(posts, watermark).contains(p) <==> (posts.contains(p) && p.timestamp
            > watermark),
{
    lemma_filter_contains(posts, watermark, p);
    lemma_stable_sort_contains(spec_filter_new(posts, watermark), p);
}

/// The new posts of `posts` relative to `watermark`, ascending by
/// timestamp, stably for equal timestamps.
pub fn select_new(posts: Vec<Post>, watermark: i64) -> (r: Vec<Post>)
    ensures
        r@ == spec_select_new(posts@, watermark),
        sorted_by_timestamp(r@),
        all_above(r@, watermark),
{
    let ghost orig = posts@;
    let mut rest = posts;
    let mut out: Vec<Post> = Vec::new();
    while rest.len() > 0
        invariant
            rest@.len() <= orig.len(),
            rest@ == orig.skip(orig.len() - rest@.len()),
            out@ == spec_select_new(orig.take(orig.len() - rest@.len()), watermark),
        decreases rest@.len(),
    {
        let ghost k = orig.len() - rest@.len();
        let p = rest.remove(0);
        proof {
            assert(p == orig[k]);
            assert(rest@ =~= orig.skip(k + 1));
            assert(orig.take(k + 1).drop_last() =~= orig.take(k));
            assert(orig.take(k + 1).last() == orig[k]);
        }
        let ghost fk = spec_filter_new(orig.take(k), watermark);
        let ghost fk1 = spec_filter_new(orig.take(k + 1), watermark);
        if p.timestamp > watermark {
            proof {
                assert(fk1 == fk.push(p));
                assert(fk1.drop_last() =~= fk);
                assert(fk1.last() == p);
                assert(spec_stable_sort(fk1) == spec_sorted_insert(spec_stable_sort(fk), p));
            }
            let mut j: usize = 0;
            while j < out.len() && out[j].timestamp <= p.timestamp
                invariant
                    j <= out@.len(),
                    forall|i: int| 0 <= i < j ==> #[trigger] out@[i].timestamp <= p.timestamp,
                decreases out@.len() - j,
            {
                j = j + 1;
            }
            proof {
                lemma_insertion_point_char(out@, p.timestamp, j as int);
            }
            out.insert(j, p);
        } else {
            proof {
                assert(fk1 == fk);
            }
        }
    }
    proof {
        assert(orig.take(orig.len() as int) =~= orig);
        lemma_select_new_sorted_above(orig, watermark);
    }
    out
}

} // verus!
