//! What holds of runs of posts and subscriptions.
use std::hash::Hash;
use vstd::prelude::*;
use crate::rc_or_normal_ref::RcOrNormalRef;
use crate::{notify_chain, BlackBoard, Subscriptor};

verus! {

/// The values of `values` whose matching entry of `sections` is `s`, in order.
pub open spec fn values_posted_to<Section, Type>(
    sections: Seq<Section>,
    values: Seq<Type>,
    s: Section,
) -> Seq<Type>
    decreases sections.len(),
{
    if sections.len() == 0 || values.len() == 0 {
        Seq::empty()
    } else {
        let prev = values_posted_to(sections.drop_last(), values.drop_last(), s);
        if sections.last() == s {
            prev.push(values.last())
        } else {
            prev
        }
    }
}

/// The value that each post of a run stored: the newest entry of the history
/// of the section it went to, right after it.
pub open spec fn stored_values<Section: Hash + Eq, Type, S: Subscriptor<Type>>(
    boards: Seq<BlackBoard<Section, Type, S>>,
    sections: Seq<Section>,
) -> Seq<Type> {
    Seq::new(sections.len(), |i: int| boards[i + 1].history(sections[i]).last())
}

/// Handing `what` through `subs` in order can end with `out`.
pub open spec fn delivered<Type, S: Subscriptor<Type>>(
    subs: Seq<RcOrNormalRef<S>>,
    what: Type,
    out: Type,
) -> bool {
    exists|subs2: Seq<RcOrNormalRef<S>>, vals: Seq<Type>|
        {
            &&& vals[0] == what
            &&& notify_chain(subs, subs2, vals)
            &&& vals.last() == out
        }
}

/// After a run of posts, each section's history is what it held before,
/// followed by what each post to it stored, in the order of the posts. Each
/// stored value is the posted one as the section's subscribers left it, and
/// the posted one itself where the section had no subscribers. A section
/// that neither existed nor was posted to still does not exist.
pub proof fn lemma_history_keeps_posts_in_order<Section: Hash + Eq, Type, S: Subscriptor<Type>>(
    boards: Seq<BlackBoard<Section, Type, S>>,
    sections: Seq<Section>,
    whats: Seq<Type>,
)
    requires
        boards.len() == sections.len() + 1,
        whats.len() == sections.len(),
        forall|i: int|
            0 <= i < sections.len() ==> #[trigger] boards[i].posted(
                sections[i],
                whats[i],
                boards[i + 1],
            ),
    ensures
        forall|s: Section|
            #[trigger] boards.last().history(s) == boards[0].history(s) + values_posted_to(
                sections,
                stored_values(boards, sections),
                s,
            ),
        forall|i: int|
            0 <= i < sections.len() ==> delivered(
                boards[i].subscribers(sections[i]),
                whats[i],
                #[trigger] stored_values(boards, sections)[i],
            ),
        forall|i: int|
            0 <= i < sections.len() && boards[i].subscribers(sections[i]).len() == 0
                ==> #[trigger] stored_values(boards, sections)[i] == whats[i],
        forall|s: Section|
            !boards[0].sections().contains(s) && !sections.contains(s)
                ==> !#[trigger] boards.last().sections().contains(s),
    decreases sections.len(),
{
    let n = sections.len() as int;
    if n == 0 {
        assert forall|s: Section| #[trigger] boards.last().history(s) == boards[0].history(s) + values_posted_to(
                sections,
                stored_values(boards, sections),
                s,
            ) by {
            assert(boards[0].history(s) + Seq::<Type>::empty() =~= boards[0].history(s));
        }
    } else {
        let bs = boards.drop_last();
        let ss = sections.drop_last();
        let ws = whats.drop_last();
        assert forall|i: int| 0 <= i < ss.len() implies #[trigger] bs[i].posted(ss[i], ws[i], bs[i + 1]) by {
            assert(boards[i].posted(sections[i], whats[i], boards[i + 1]));
        }
        lemma_history_keeps_posts_in_order(bs, ss, ws);
        let last = n - 1;
        assert(boards[last].posted(sections[last], whats[last], boards[n]));
        assert(stored_values(bs, ss) =~= stored_values(boards, sections).drop_last());
        assert forall|s: Section| #[trigger] boards.last().history(s) == boards[0].history(s) + values_posted_to(
                sections,
                stored_values(boards, sections),
                s,
            ) by {
            assert(bs.last() == boards[last]);
            if sections[last] == s {
                assert((boards[0].history(s) + values_posted_to(ss, stored_values(bs, ss), s)).push(
                    stored_values(boards, sections)[last],
                ) =~= boards[0].history(s) + values_posted_to(
                    sections,
                    stored_values(boards, sections),
                    s,
                ));
            } else {
                assert(boards[n].history(s) == boards[last].history(s));
            }
        }
        assert forall|i: int|
            0 <= i < sections.len() implies delivered(
                boards[i].subscribers(sections[i]),
                whats[i],
                #[trigger] stored_values(boards, sections)[i],
            ) by {
            if i < last {
                assert(stored_values(bs, ss)[i] == stored_values(boards, sections)[i]);
            } else {
                assert(boards[last].posted(sections[last], whats[last], boards[n]));
            }
        }
        assert forall|i: int|
            0 <= i < sections.len() && boards[i].subscribers(sections[i]).len() == 0
                implies #[trigger] stored_values(boards, sections)[i] == whats[i] by {
            if i < last {
                assert(stored_values(bs, ss)[i] == stored_values(boards, sections)[i]);
            } else {
                assert(boards[last].posted(sections[last], whats[last], boards[n]));
            }
        }
        assert forall|s: Section|
            !boards[0].sections().contains(s) && !sections.contains(s)
                implies !#[trigger] boards.last().sections().contains(s) by {
            assert(!ss.contains(s)) by {
                if ss.contains(s) {
                    let j = choose|j: int| 0 <= j < ss.len() && ss[j] == s;
                    assert(sections[j] == s);
                }
            }
            assert(sections[last] != s);
            assert(!bs.last().sections().contains(s));
        }
    }
}

/// After a run of posts and subscriptions, the sections that exist are those
/// that existed before together with every section named in the run, whatever
/// the order of the calls.
pub proof fn lemma_sections_are_those_named<Section: Hash + Eq, Type, S: Subscriptor<Type>>(
    boards: Seq<BlackBoard<Section, Type, S>>,
    sections: Seq<Section>,
    whats: Seq<Type>,
    handles: Seq<RcOrNormalRef<S>>,
)
    requires
        boards.len() == sections.len() + 1,
        whats.len() == sections.len(),
        handles.len() == sections.len(),
        forall|i: int|
            0 <= i < sections.len() ==> #[trigger] boards[i].posted(
                sections[i],
                whats[i],
                boards[i + 1],
            ) || boards[i].subscribed(sections[i], handles[i], boards[i + 1]),
    ensures
        boards.last().sections() == boards[0].sections() + sections.to_set(),
    decreases sections.len(),
{
    let n = sections.len() as int;
    if n == 0 {
        assert(boards.last().sections() =~= boards[0].sections() + sections.to_set());
    } else {
        let bs = boards.drop_last();
        let ss = sections.drop_last();
        let ws = whats.drop_last();
        let hs = handles.drop_last();
        assert forall|i: int| 0 <= i < ss.len() implies #[trigger] bs[i].posted(ss[i], ws[i], bs[i + 1])
            || bs[i].subscribed(ss[i], hs[i], bs[i + 1]) by {
            assert(boards[i].posted(sections[i], whats[i], boards[i + 1]) || boards[i].subscribed(
                sections[i],
                handles[i],
                boards[i + 1],
            ));
        }
        lemma_sections_are_those_named(bs, ss, ws, hs);
        let last = n - 1;
        assert(boards[last].posted(sections[last], whats[last], boards[n]) || boards[last].subscribed(
            sections[last],
            handles[last],
            boards[n],
        ));
        assert(bs.last() == boards[last]);
        assert(sections =~= ss.push(sections[last]));
        ss.lemma_push_to_set_commute(sections[last]);
        assert(boards.last().sections() =~= boards[0].sections() + sections.to_set());
    }
}

/// Notifying `before` turned it into `after` and left the value `stored`;
/// where it stands first among its section's subscribers (`position` 0), the
/// value it was handed is `posted`.
pub open spec fn heard_post<Type, S: Subscriptor<Type>>(
    before: S,
    after: S,
    posted: Type,
    stored: Type,
    position: int,
) -> bool {
    exists|heard: Type| before.notified(heard, after, stored) && (position == 0 ==> heard == posted)
}

/// Once `handle`, owned by the board, is subscribed to `section`, a run of
/// posts notifies it once for each post to that section and leaves it as it
/// was on each post elsewhere. On a post to its section it hears the value
/// posted when it is the section's first subscriber, and the value it passes
/// on is the one the post stores, as it is the section's last subscriber.
pub proof fn lemma_subscriber_hears_every_post<Section: Hash + Eq, Type, S: Subscriptor<Type>>(
    boards: Seq<BlackBoard<Section, Type, S>>,
    section: Section,
    handle: RcOrNormalRef<S>,
    sections: Seq<Section>,
    whats: Seq<Type>,
)
    requires
        boards.len() == whats.len() + 2,
        sections.len() == whats.len(),
        handle.is_owned(),
        boards[0].subscribed(section, handle, boards[1]),
        forall|i: int|
            0 <= i < whats.len() ==> #[trigger] boards[i + 1].posted(
                sections[i],
                whats[i],
                boards[i + 2],
            ),
    ensures
        ({
            let n = boards[0].subscribers(section).len() as int;
            &&& boards[1].subscribers(section)[n].inner() == handle.inner()
            &&& forall|i: int|
                0 <= i < boards.len() - 1 ==> #[trigger] boards[i + 1].subscribers(section).len() == n
                    + 1 && boards[i + 1].subscribers(section)[n].is_owned()
            &&& forall|i: int|
                0 <= i < whats.len() && sections[i] == section ==> #[trigger] heard_post(
                    boards[i + 1].subscribers(section)[n].inner(),
                    boards[i + 2].subscribers(section)[n].inner(),
                    whats[i],
                    boards[i + 2].history(section).last(),
                    n,
                )
            &&& forall|i: int|
                0 <= i < whats.len() && sections[i] != section ==> #[trigger] boards[i
                    + 2].subscribers(section) == boards[i + 1].subscribers(section)
        }),
    decreases whats.len(),
{
    let n = boards[0].subscribers(section).len() as int;
    let k = whats.len() as int;
    if k > 0 {
        let bs = boards.drop_last();
        let ss = sections.drop_last();
        let ws = whats.drop_last();
        assert forall|i: int| 0 <= i < ws.len() implies #[trigger] bs[i + 1].posted(
            ss[i],
            ws[i],
            bs[i + 2],
        ) by {
            assert(boards[i + 1].posted(sections[i], whats[i], boards[i + 2]));
        }
        lemma_subscriber_hears_every_post(bs, section, handle, ss, ws);
        let j = k - 1;
        assert(boards[j + 1].posted(sections[j], whats[j], boards[j + 2]));
        let b = boards[k];
        let b2 = boards[k + 1];
        assert(bs[j + 1].subscribers(section).len() == n + 1);
        assert(bs[j + 1] == b);
        assert(b.subscribers(section)[n].is_owned());
        if sections[j] == section {
            let vals = choose|vals: Seq<Type>|
                {
                    &&& vals[0] == whats[j]
                    &&& notify_chain(b.subscribers(section), b2.subscribers(section), vals)
                    &&& b2.history(section) == b.history(section).push(vals.last())
                };
            assert(crate::notify_step(
                b.subscribers(section)[n],
                vals[n],
                b2.subscribers(section)[n],
                vals[n + 1],
            ));
            assert(b.subscribers(section)[n].inner().notified(
                vals[n],
                b2.subscribers(section)[n].inner(),
                vals[n + 1],
            ));
        } else {
            assert(b2.subscribers(section) == b.subscribers(section));
        }
        assert forall|i: int|
            0 <= i < whats.len() && sections[i] == section implies #[trigger] heard_post(
                boards[i + 1].subscribers(section)[n].inner(),
                boards[i + 2].subscribers(section)[n].inner(),
                whats[i],
                boards[i + 2].history(section).last(),
                n,
            ) by {
            if i < j {
                assert(bs[i + 1] == boards[i + 1]);
                assert(bs[i + 2] == boards[i + 2]);
                assert(ss[i] == sections[i]);
                assert(ws[i] == whats[i]);
            }
        }
        assert forall|i: int|
            0 <= i < whats.len() && sections[i] != section implies #[trigger] boards[i
                + 2].subscribers(section) == boards[i + 1].subscribers(section) by {
            if i < j {
                assert(bs[i + 1] == boards[i + 1]);
                assert(bs[i + 2] == boards[i + 2]);
                assert(ss[i] == sections[i]);
            }
        }
        assert forall|i: int| 0 <= i < boards.len() - 1 implies #[trigger] boards[i + 1].subscribers(
            section,
        ).len() == n + 1 && boards[i + 1].subscribers(section)[n].is_owned() by {
            if i < k {
                assert(bs[i + 1] == boards[i + 1]);
            }
        }
    }
}

/// A post leaves every other section as it was: its history, and its
/// subscribers, none of whom is notified.
pub proof fn lemma_post_leaves_other_sections<Section: Hash + Eq, Type, S: Subscriptor<Type>>(
    board: BlackBoard<Section, Type, S>,
    section: Section,
    what: Type,
    next: BlackBoard<Section, Type, S>,
    other: Section,
)
    requires
        board.posted(section, what, next),
        other != section,
    ensures
        next.history(other) == board.history(other),
        next.subscribers(other) == board.subscribers(other),
{
}

/// Subscribers that never change the value they are handed pass it on as
/// it came.
pub proof fn lemma_delivered_unchanged<Type, S: Subscriptor<Type>>(
    subs: Seq<RcOrNormalRef<S>>,
    what: Type,
    out: Type,
)
    requires
        forall|s: S, w: Type, next: S, o: Type| #[trigger] s.notified(w, next, o) ==> o == w,
        delivered(subs, what, out),
    ensures
        out == what,
{
    let (subs2, vals) = choose|subs2: Seq<RcOrNormalRef<S>>, vals: Seq<Type>|
        {
            &&& vals[0] == what
            &&& notify_chain(subs, subs2, vals)
            &&& vals.last() == out
        };
    assert forall|i: int| 0 <= i <= subs.len() implies #[trigger] vals[i] == what by {
        lemma_chain_prefix_unchanged(subs, subs2, vals, what, i);
    }
}

proof fn lemma_chain_prefix_unchanged<Type, S: Subscriptor<Type>>(
    subs: Seq<RcOrNormalRef<S>>,
    subs2: Seq<RcOrNormalRef<S>>,
    vals: Seq<Type>,
    what: Type,
    i: int,
)
    requires
        forall|s: S, w: Type, next: S, o: Type| #[trigger] s.notified(w, next, o) ==> o == w,
        notify_chain(subs, subs2, vals),
        vals[0] == what,
        0 <= i <= subs.len(),
    ensures
        vals[i] == what,
    decreases i,
{
    if i > 0 {
        let j = i - 1;
        lemma_chain_prefix_unchanged(subs, subs2, vals, what, j);
        assert(crate::notify_step(subs[j], vals[j], subs2[j], vals[j + 1]));
    }
}

/// Where no subscriber ever changes the value it is handed, a run of posts
/// leaves each section's history as it was, followed by exactly the values
/// posted to it, in the order they were posted.
pub proof fn lemma_history_is_values_posted<Section: Hash + Eq, Type, S: Subscriptor<Type>>(
    boards: Seq<BlackBoard<Section, Type, S>>,
    sections: Seq<Section>,
    whats: Seq<Type>,
)
    requires
        boards.len() == sections.len() + 1,
        whats.len() == sections.len(),
        forall|i: int|
            0 <= i < sections.len() ==> #[trigger] boards[i].posted(
                sections[i],
                whats[i],
                boards[i + 1],
            ),
        forall|s: S, w: Type, next: S, o: Type| #[trigger] s.notified(w, next, o) ==> o == w,
    ensures
        forall|s: Section|
            #[trigger] boards.last().history(s) == boards[0].history(s) + values_posted_to(
                sections,
                whats,
                s,
            ),
{
    lemma_history_keeps_posts_in_order(boards, sections, whats);
    let stored = stored_values(boards, sections);
    assert forall|i: int| 0 <= i < sections.len() implies stored[i] == whats[i] by {
        assert(delivered(boards[i].subscribers(sections[i]), whats[i], stored[i]));
        lemma_delivered_unchanged(boards[i].subscribers(sections[i]), whats[i], stored[i]);
    }
    assert(stored =~= whats);
}

} // verus!
