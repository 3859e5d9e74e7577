//! Latest first: the order in which listings come, by a column of text.

use vstd::prelude::*;

use crate::text;

verus! {

/// The positions in `order` with `i` put before the first one whose text comes
/// before that of `i`.
pub open spec fn place(order: Seq<int>, at: Seq<Seq<char>>, i: int) -> Seq<int>
    decreases order.len(),
{
    if order.len() == 0 {
        seq![i]
    } else if text::text_lt(at[order[0]], at[i]) {
        seq![i] + order
    } else {
        seq![order[0]] + place(order.drop_first(), at, i)
    }
}

/// The positions of a sequence of texts, the last text in their order first
/// and equal texts in the order of their positions.
pub open spec fn newest_order(at: Seq<Seq<char>>) -> Seq<int>
    decreases at.len(),
{
    if at.len() == 0 {
        Seq::empty()
    } else {
        place(newest_order(at.drop_last()), at, at.len() - 1)
    }
}

/// The items with the last text first, at most `limit` of them.
pub open spec fn newest<T>(items: Seq<T>, at: Seq<Seq<char>>, limit: nat) -> Seq<T> {
    let order = newest_order(at);
    Seq::new(
        if limit < order.len() {
            limit
        } else {
            order.len()
        },
        |k: int| items[order[k]],
    )
}

/// Position `i` comes before position `j`: its text comes after the other in
/// the order of texts, or is equal and `i` is the smaller one.
pub open spec fn precedes(at: Seq<Seq<char>>, i: int, j: int) -> bool {
    text::text_lt(at[j], at[i]) || (at[i] == at[j] && i < j)
}

/// `order` lists positions of `at`, each before those that it precedes.
pub open spec fn is_ordered(order: Seq<int>, at: Seq<Seq<char>>) -> bool {
    &&& forall|a: int| 0 <= a < order.len() ==> 0 <= #[trigger] order[a] < at.len()
    &&& forall|a: int, b: int|
        0 <= a < b < order.len() ==> precedes(at, #[trigger] order[a], #[trigger] order[b])
}

proof fn lemma_place_ordered(order: Seq<int>, at: Seq<Seq<char>>, i: int)
    requires
        is_ordered(order, at),
        0 <= i < at.len(),
        forall|a: int| 0 <= a < order.len() ==> #[trigger] order[a] < i,
    ensures
        is_ordered(place(order, at, i), at),
        place(order, at, i).len() == order.len() + 1,
        forall|k: int|
            #![trigger order.contains(k)]
            #![trigger place(order, at, i).contains(k)]
            place(order, at, i).contains(k) <==> (order.contains(k) || k == i),
    decreases order.len(),
{
    let out = place(order, at, i);
    if order.len() == 0 {
        assert(out =~= seq![i]);
        assert forall|k: int|
            #![trigger order.contains(k)]
            #![trigger out.contains(k)]
            out.contains(k) <==> (order.contains(k) || k == i) by {
            assert(out[0] == i);
        }
    } else if text::text_lt(at[order[0]], at[i]) {
        assert forall|a: int, b: int| 0 <= a < b < out.len() implies precedes(
            at,
            #[trigger] out[a],
            #[trigger] out[b],
        ) by {
            assert(out[b] == order[b - 1]);
            if a > 0 {
                assert(out[a] == order[a - 1]);
            } else if b > 1 {
                assert(precedes(at, order[0], order[b - 1]));
                if text::text_lt(at[order[b - 1]], at[order[0]]) {
                    text::lemma_text_order_transitive(at[order[b - 1]], at[order[0]], at[i]);
                }
            }
        }
        assert forall|k: int|
            #![trigger order.contains(k)]
            #![trigger out.contains(k)]
            out.contains(k) <==> (order.contains(k) || k == i) by {
            if order.contains(k) {
                let a = choose|a: int| 0 <= a < order.len() && order[a] == k;
                assert(out[a + 1] == k);
            }
            if k == i {
                assert(out[0] == k);
            }
            if out.contains(k) {
                let a = choose|a: int| 0 <= a < out.len() && out[a] == k;
                if a > 0 {
                    assert(order[a - 1] == k);
                }
            }
        }
    } else {
        let rest = order.drop_first();
        assert forall|a: int| 0 <= a < rest.len() implies #[trigger] rest[a] < i by {
            assert(rest[a] == order[a + 1]);
        }
        assert(is_ordered(rest, at)) by {
            assert forall|a: int| 0 <= a < rest.len() implies 0 <= #[trigger] rest[a]
                < at.len() by {
                assert(rest[a] == order[a + 1]);
            }
            assert forall|a: int, b: int| 0 <= a < b < rest.len() implies precedes(
                at,
                #[trigger] rest[a],
                #[trigger] rest[b],
            ) by {
                assert(rest[a] == order[a + 1] && rest[b] == order[b + 1]);
            }
        }
        lemma_place_ordered(rest, at, i);
        let tail = place(rest, at, i);
        assert forall|a: int| 0 <= a < out.len() implies 0 <= #[trigger] out[a] < at.len() by {
            if a > 0 {
                assert(out[a] == tail[a - 1]);
            }
        }
        assert forall|a: int, b: int| 0 <= a < b < out.len() implies precedes(
            at,
            #[trigger] out[a],
            #[trigger] out[b],
        ) by {
            assert(out[b] == tail[b - 1]);
            if a > 0 {
                assert(out[a] == tail[a - 1]);
            } else {
                assert(tail.contains(out[b]));
                if out[b] == i {
                    text::lemma_text_order_total(at[order[0]], at[i]);
                } else {
                    assert(rest.contains(out[b]));
                    let c = choose|c: int| 0 <= c < rest.len() && rest[c] == out[b];
                    assert(order[c + 1] == rest[c]);
                    assert(precedes(at, order[0], order[c + 1]));
                }
            }
        }
        assert forall|k: int|
            #![trigger order.contains(k)]
            #![trigger out.contains(k)]
            out.contains(k) <==> (order.contains(k) || k == i) by {
            if order.contains(k) {
                let a = choose|a: int| 0 <= a < order.len() && order[a] == k;
                if a > 0 {
                    assert(rest[a - 1] == k);
                    assert(rest.contains(k));
                    assert(tail.contains(k));
                    let c = choose|c: int| 0 <= c < tail.len() && tail[c] == k;
                    assert(out[c + 1] == k);
                } else {
                    assert(out[0] == k);
                }
            }
            if k == i {
                assert(tail.contains(i));
                let c = choose|c: int| 0 <= c < tail.len() && tail[c] == k;
                assert(out[c + 1] == k);
            }
            if out.contains(k) {
                let a = choose|a: int| 0 <= a < out.len() && out[a] == k;
                if a > 0 {
                    assert(tail[a - 1] == k);
                    assert(tail.contains(k));
                    if k != i {
                        assert(rest.contains(k));
                        let c = choose|c: int| 0 <= c < rest.len() && rest[c] == k;
                        assert(order[c + 1] == k);
                    }
                } else {
                    assert(order[0] == k);
                }
            }
        }
    }
}

/// The latest-first order lists every position once, later texts before
/// earlier ones and equal ones by position.
pub proof fn lemma_newest_order(at: Seq<Seq<char>>)
    ensures
        newest_order(at).len() == at.len(),
        is_ordered(newest_order(at), at),
        forall|k: int| 0 <= k < at.len() <==> #[trigger] newest_order(at).contains(k),
    decreases at.len(),
{
    if at.len() > 0 {
        let shorter = at.drop_last();
        lemma_newest_order(shorter);
        let order = newest_order(shorter);
        assert(is_ordered(order, at)) by {
            assert forall|a: int, b: int| 0 <= a < b < order.len() implies precedes(
                at,
                #[trigger] order[a],
                #[trigger] order[b],
            ) by {
                assert(precedes(shorter, order[a], order[b]));
                assert(at[order[a]] == shorter[order[a]] && at[order[b]] == shorter[order[b]]);
            }
        }
        lemma_place_ordered(order, at, at.len() - 1);
        assert forall|k: int| 0 <= k < at.len() <==> #[trigger] newest_order(at).contains(k) by {
            assert(order.contains(k) <==> 0 <= k < shorter.len());
        }
    } else {
        assert forall|k: int| 0 <= k < at.len() <==> #[trigger] newest_order(at).contains(k) by {}
    }
}

/// The positions of a vector as integers.
pub open spec fn positions(order: Seq<usize>) -> Seq<int> {
    Seq::new(order.len(), |k: int| order[k] as int)
}

proof fn lemma_place_at(order: Seq<int>, at: Seq<Seq<char>>, i: int, p: int)
    requires
        0 <= p <= order.len(),
        forall|a: int| 0 <= a < p ==> !text::text_lt(at[#[trigger] order[a]], at[i]),
        p < order.len() ==> text::text_lt(at[order[p]], at[i]),
    ensures
        place(order, at, i) == order.insert(p, i),
    decreases order.len(),
{
    if order.len() == 0 {
        assert(seq![i] =~= order.insert(p, i));
    } else if p == 0 {
        assert(seq![i] + order =~= order.insert(0, i));
    } else {
        let rest = order.drop_first();
        assert forall|a: int| 0 <= a < p - 1 implies !text::text_lt(at[#[trigger] rest[a]], at[i]) by {
            assert(rest[a] == order[a + 1]);
        }
        lemma_place_at(rest, at, i, p - 1);
        assert(seq![order[0]] + rest.insert(p - 1, i) =~= order.insert(p, i));
    }
}

/// The positions of `at`, the last text first.
pub fn newest_positions(texts: &Vec<String>) -> (r: Vec<usize>)
    ensures
        positions(r@) == newest_order(text::texts(texts@)),
        forall|k: int| 0 <= k < r@.len() ==> #[trigger] r@[k] < texts@.len(),
        r@.len() == texts@.len(),
{
    let ghost at = text::texts(texts@);
    let mut order: Vec<usize> = Vec::new();
    let mut i: usize = 0;
    assert(positions(order@) =~= newest_order(at.take(0)));
    while i < texts.len()
        invariant
            i <= texts.len(),
            at == text::texts(texts@),
            order@.len() == i,
            positions(order@) == newest_order(at.take(i as int)),
            forall|k: int| 0 <= k < order@.len() ==> #[trigger] order@[k] < i,
        decreases texts.len() - i,
    {
        let mut p: usize = 0;
        while p < order.len() && !text::comes_before(texts[order[p]].as_str(), texts[i].as_str())
            invariant
                p <= order.len(),
                i < texts.len(),
                at == text::texts(texts@),
                forall|k: int| 0 <= k < order@.len() ==> #[trigger] order@[k] < i,
                forall|a: int|
                    0 <= a < p ==> !text::text_lt(
                        at[(#[trigger] positions(order@)[a])],
                        at[i as int],
                    ),
            decreases order.len() - p,
        {
            p = p + 1;
        }
        let ghost before = order@;
        proof {
            let now = at.take(i + 1);
            assert(now.drop_last() =~= at.take(i as int));
            let o = positions(before);
            assert forall|a: int| 0 <= a < p implies !text::text_lt(
                now[#[trigger] o[a]],
                now[i as int],
            ) by {
                assert(now[o[a]] == at[o[a]]);
            }
            lemma_place_at(o, now, i as int, p as int);
        }
        order.insert(p, i);
        assert(positions(order@) =~= positions(before).insert(p as int, i as int));
        i = i + 1;
    }
    assert(at.take(texts@.len() as int) =~= at);
    order
}

} // verus!
