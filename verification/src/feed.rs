//! Change detection for the event feed: the bar is told about a snapshot
//! only when it differs from the one told before.
use vstd::prelude::*;

use crate::sketchybar::opt_track_view;
use crate::track::{Track, TrackView};

verus! {

/// The view of an optional owned track.
pub open spec fn opt_owned_view(track: Option<Track>) -> Option<TrackView> {
    match track {
        Some(t) => Some(t@),
        None => None,
    }
}

/// Whether two optional snapshots differ: idle against playing, or two
/// tracks that differ in any field.
pub fn snapshot_changed(last: Option<&Track>, next: Option<&Track>) -> (res: bool)
    ensures
        res == (opt_track_view(last) != opt_track_view(next)),
{
    match (last, next) {
        (None, None) => false,
        (None, Some(_)) | (Some(_), None) => true,
        (Some(a), Some(b)) => a.changed(b),
    }
}

/// One step of the feed: the snapshot kept afterwards, and whether the new
/// one is told.
pub open spec fn observe_spec(last: Option<TrackView>, next: Option<TrackView>) -> (
    Option<TrackView>,
    bool,
) {
    (next, last != next)
}

/// The snapshots told while feeding `events`, in order, starting from `last`.
pub open spec fn emitted(last: Option<TrackView>, events: Seq<Option<TrackView>>) -> Seq<
    Option<TrackView>,
>
    decreases events.len(),
{
    if events.len() == 0 {
        Seq::empty()
    } else {
        let (kept, emit) = observe_spec(last, events[0]);
        let rest = emitted(kept, events.drop_first());
        if emit {
            seq![events[0]].add(rest)
        } else {
            rest
        }
    }
}

/// The snapshot the feed holds after `seen`, having started from `start`.
pub open spec fn latest(start: Option<TrackView>, seen: Seq<Option<TrackView>>) -> Option<
    TrackView,
> {
    if seen.len() == 0 {
        start
    } else {
        seen.last()
    }
}

/// Feeding one more snapshot tells it exactly when it differs from the
/// latest one, and tells nothing else.
pub proof fn emitted_push(
    start: Option<TrackView>,
    seen: Seq<Option<TrackView>>,
    next: Option<TrackView>,
)
    ensures
        emitted(start, seen.push(next)) == if latest(start, seen) != next {
            emitted(start, seen).push(next)
        } else {
            emitted(start, seen)
        },
    decreases seen.len(),
{
    let all = seen.push(next);
    if seen.len() == 0 {
        assert(all.drop_first() =~= Seq::<Option<TrackView>>::empty());
        assert(emitted(next, Seq::<Option<TrackView>>::empty()) =~= Seq::empty());
        if start != next {
            assert(seq![next].add(Seq::<Option<TrackView>>::empty()) =~= Seq::<
                Option<TrackView>,
            >::empty().push(next));
        }
    } else {
        let first = seen[0];
        let rest = seen.drop_first();
        assert(all[0] == first);
        assert(all.drop_first() =~= rest.push(next));
        emitted_push(first, rest, next);
        assert(latest(first, rest) == latest(start, seen));
        if start != first {
            assert(emitted(start, seen) == seq![first].add(emitted(first, rest)));
            assert(seq![first].add(emitted(first, rest).push(next)) =~= seq![first].add(
                emitted(first, rest),
            ).push(next));
        }
    }
}

/// The last snapshot told and the feed of later ones. Alongside the
/// snapshot it keeps, it records (as ghost state) where it started, every
/// snapshot fed to it, and every one it told.
pub struct ChangeFeed {
    last: Option<Track>,
    start: Ghost<Option<TrackView>>,
    seen: Ghost<Seq<Option<TrackView>>>,
    told: Ghost<Seq<Option<TrackView>>>,
}

impl View for ChangeFeed {
    type V = Option<TrackView>;

    closed spec fn view(&self) -> Option<TrackView> {
        opt_owned_view(self.last)
    }
}

impl ChangeFeed {
    #[verifier::type_invariant]
    closed spec fn inv(self) -> bool {
        &&& self.told@ == emitted(self.start@, self.seen@)
        &&& opt_owned_view(self.last) == latest(self.start@, self.seen@)
    }

    /// The snapshot the feed started from.
    pub closed spec fn start(&self) -> Option<TrackView> {
        self.start@
    }

    /// Every snapshot fed so far, in order.
    pub closed spec fn seen(&self) -> Seq<Option<TrackView>> {
        self.seen@
    }

    /// Every snapshot told so far, in order.
    pub closed spec fn told(&self) -> Seq<Option<TrackView>> {
        self.told@
    }

    /// A feed whose last told snapshot is `initial`.
    pub fn new(initial: Option<Track>) -> (feed: Self)
        ensures
            feed@ == opt_owned_view(initial),
            feed.start() == opt_owned_view(initial),
            feed.seen() == Seq::<Option<TrackView>>::empty(),
            feed.told() == Seq::<Option<TrackView>>::empty(),
    {
        let ghost v = opt_owned_view(initial);
        ChangeFeed {
            last: initial,
            start: Ghost(v),
            seen: Ghost(Seq::empty()),
            told: Ghost(Seq::empty()),
        }
    }

    /// The last snapshot kept.
    pub fn last(&self) -> (res: Option<&Track>)
        ensures
            opt_track_view(res) == self@,
    {
        match &self.last {
            Some(t) => Some(t),
            None => None,
        }
    }

    /// Takes the next snapshot; true when it differs from the kept one and
    /// must be told. What the feed has told over its whole run is always
    /// `emitted` of what it was fed.
    pub fn observe(&mut self, next: Option<Track>) -> (emit: bool)
        ensures
            (final(self)@, emit) == observe_spec(old(self)@, opt_owned_view(next)),
            final(self).start() == old(self).start(),
            final(self).seen() == old(self).seen().push(opt_owned_view(next)),
            final(self).told() == if emit {
                old(self).told().push(opt_owned_view(next))
            } else {
                old(self).told()
            },
            final(self).told() == emitted(final(self).start(), final(self).seen()),
    {
        proof {
            use_type_invariant(&*self);
        }
        let emit = match (&self.last, &next) {
            (None, None) => false,
            (None, Some(_)) | (Some(_), None) => true,
            (Some(a), Some(b)) => a.changed(b),
        };
        let ghost nv = opt_owned_view(next);
        let ghost start = self.start@;
        let ghost seen = self.seen@.push(nv);
        let ghost told = if emit {
            self.told@.push(nv)
        } else {
            self.told@
        };
        proof {
            emitted_push(start, self.seen@, nv);
            assert(latest(start, seen) == nv);
        }
        *self = ChangeFeed { last: next, start: Ghost(start), seen: Ghost(seen), told: Ghost(told) };
        emit
    }
}

/// A snapshot fed twice in a row is told at most once: the second time
/// nothing is emitted.
pub proof fn observe_twice_emits_once(last: Option<TrackView>, next: Option<TrackView>)
    ensures
        !observe_spec(observe_spec(last, next).0, next).1,
{
}

/// Over any run of snapshots, the told ones never repeat back to back, the
/// first told one differs from the snapshot the feed started with, nothing
/// is told only when every snapshot equals that one, and otherwise the last
/// one told is the latest snapshot.
pub proof fn emitted_has_no_repeats(last: Option<TrackView>, events: Seq<Option<TrackView>>)
    ensures
        forall|i: int|
            0 <= i < emitted(last, events).len() - 1 ==> #[trigger] emitted(last, events)[i]
                != emitted(last, events)[i + 1],
        emitted(last, events).len() > 0 ==> emitted(last, events)[0] != last,
        emitted(last, events).len() == 0 ==> forall|i: int|
            0 <= i < events.len() ==> #[trigger] events[i] == last,
        emitted(last, events).len() > 0 ==> emitted(last, events).last() == events.last(),
    decreases events.len(),
{
    if events.len() > 0 {
        let next = events[0];
        let tail = events.drop_first();
        let rest = emitted(next, tail);
        emitted_has_no_repeats(next, tail);
        if last != next {
            let all = seq![next].add(rest);
            assert(emitted(last, events) == all);
            assert forall|i: int| 0 <= i < all.len() - 1 implies #[trigger] all[i] != all[i + 1] by {
                if i > 0 {
                    assert(all[i] == rest[i - 1]);
                    assert(all[i + 1] == rest[i]);
                }
            }
            if rest.len() == 0 && tail.len() > 0 {
                assert(tail[tail.len() - 1] == next);
                assert(events.last() == tail.last());
            }
            if rest.len() > 0 {
                assert(all.last() == rest.last());
                assert(events.last() == tail.last());
            }
        } else {
            assert(emitted(last, events) == rest);
            if rest.len() == 0 {
                assert forall|i: int| 0 <= i < events.len() implies #[trigger] events[i] == last by {
                    if i > 0 {
                        assert(events[i] == tail[i - 1]);
                    }
                }
            } else {
                assert(events.last() == tail.last());
            }
        }
    }
}

} // verus!
