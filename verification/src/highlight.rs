//! The highlight tracker: which paths changed a short while ago.

use crate::clock::{elapsed, seconds, Duration, Instant};
use crate::text::holds_path;
use vstd::prelude::*;

verus! {

/// How many seconds a highlight lasts unless told otherwise.
pub const HIGHLIGHT_SECS: u64 = 3;

/// One tracked path and when it was last touched.
struct Touch {
    path: String,
    at: Instant,
}

/// Tracks recently changed paths. Each path is highlighted from its last
/// touch until the highlight duration has passed.
///
/// The paths are kept in a list in which none stands twice, which is what
/// lets every method say exactly what the tracker holds afterwards.
pub struct HighlightTracker {
    entries: Vec<Touch>,
    duration: Duration,
}

/// What a tracker holds: the last touch of each tracked path, and how long
/// a highlight lasts.
pub ghost struct TrackerModel {
    pub touched: Map<Seq<char>, Instant>,
    pub duration: Duration,
}

impl TrackerModel {
    /// The tracker after `path` was touched at `now`: the path's earlier
    /// touch, if it had one, is forgotten.
    pub open spec fn touch(self, path: Seq<char>, now: Instant) -> TrackerModel {
        TrackerModel { touched: self.touched.insert(path, now), ..self }
    }

    /// Whether `path` is highlighted at `now`: it is tracked, and less than
    /// the highlight duration has passed since its last touch.
    pub open spec fn is_live(self, path: Seq<char>, now: Instant) -> bool {
        self.touched.contains_key(path) && elapsed(now, self.touched[path]) < self.duration.nanos
    }

    /// The paths that are highlighted at `now`.
    pub open spec fn active(self, now: Instant) -> Set<Seq<char>> {
        Set::new(|path: Seq<char>| self.is_live(path, now))
    }

    /// The tracker without the paths whose highlight has run out at `now`.
    pub open spec fn prune(self, now: Instant) -> TrackerModel {
        TrackerModel { touched: self.touched.restrict(self.active(now)), ..self }
    }

    /// The tracker with another highlight duration.
    pub open spec fn with_duration(self, duration: Duration) -> TrackerModel {
        TrackerModel { duration, ..self }
    }

    /// The tracker with no path tracked.
    pub open spec fn cleared(self) -> TrackerModel {
        TrackerModel { touched: Map::empty(), ..self }
    }
}

spec fn distinct(s: Seq<Touch>) -> bool {
    forall|i: int, j: int| 0 <= i < j < s.len() ==> s[i].path@ != s[j].path@
}

spec fn has(s: Seq<Touch>, path: Seq<char>) -> bool {
    exists|i: int| 0 <= i < s.len() && (#[trigger] s[i]).path@ == path
}

spec fn index_of(s: Seq<Touch>, path: Seq<char>) -> int {
    choose|i: int| 0 <= i < s.len() && (#[trigger] s[i]).path@ == path
}

spec fn map_of(s: Seq<Touch>) -> Map<Seq<char>, Instant> {
    Map::new(|path: Seq<char>| has(s, path), |path: Seq<char>| s[index_of(s, path)].at)
}

/// `t` is one of the first `upto` entries of `s`, with a highlight that
/// still lasts at `now`.
spec fn taken_from(s: Seq<Touch>, upto: int, now: Instant, duration: Duration, t: Touch) -> bool {
    exists|m: int|
        0 <= m < upto && m < s.len() && (#[trigger] s[m]).path@ == t.path@ && s[m].at == t.at
            && elapsed(now, s[m].at) < duration.nanos
}

proof fn lemma_map_of(s: Seq<Touch>, i: int)
    requires
        distinct(s),
        0 <= i < s.len(),
    ensures
        map_of(s).contains_key(s[i].path@),
        map_of(s)[s[i].path@] == s[i].at,
{
    let path = s[i].path@;
    assert(has(s, path));
    let k = index_of(s, path);
    assert(k == i) by {
        if k < i {
            assert(s[k].path@ != s[i].path@);
        } else if i < k {
            assert(s[i].path@ != s[k].path@);
        }
    }
}

impl View for HighlightTracker {
    type V = TrackerModel;

    closed spec fn view(&self) -> TrackerModel {
        TrackerModel { touched: map_of(self.entries@), duration: self.duration }
    }
}

impl HighlightTracker {
    #[verifier::type_invariant]
    spec fn no_path_twice(self) -> bool {
        distinct(self.entries@)
    }

    /// A tracker that holds no path and highlights for three seconds.
    pub fn new() -> (r: HighlightTracker)
        ensures
            r@.touched == Map::<Seq<char>, Instant>::empty(),
            r@.duration == seconds(HIGHLIGHT_SECS),
    {
        let r = HighlightTracker { entries: Vec::new(), duration: Duration::from_secs(HIGHLIGHT_SECS) };
        assert(r@.touched =~= Map::<Seq<char>, Instant>::empty());
        r
    }

    /// A tracker that holds no path and highlights for `duration`.
    pub fn with_duration(duration: Duration) -> (r: HighlightTracker)
        ensures
            r@.touched == Map::<Seq<char>, Instant>::empty(),
            r@.duration == duration,
    {
        let r = HighlightTracker { entries: Vec::new(), duration };
        assert(r@.touched =~= Map::<Seq<char>, Instant>::empty());
        r
    }

    /// Records that `path` changed at `now`. A path that is tracked already
    /// starts its highlight anew: the latest touch counts, not the first.
    pub fn insert(&mut self, path: String, now: Instant)
        ensures
            final(self)@ == old(self)@.touch(path@, now),
    {
        proof {
            use_type_invariant(&*self);
        }
        let ghost before = self.entries@;
        let mut i: usize = 0;
        let mut found = false;
        while i < self.entries.len() && !found
            invariant
                i <= self.entries.len(),
                self.entries@ == before,
                forall|k: int| 0 <= k < i ==> (#[trigger] before[k]).path@ != path@,
                found ==> i < before.len() && before[i as int].path@ == path@,
            decreases self.entries.len() - i + (if found { 0int } else { 1int }),
        {
            if self.entries[i].path == path {
                found = true;
            } else {
                i += 1;
            }
        }
        let mut entries = Vec::new();
        std::mem::swap(&mut entries, &mut self.entries);
        if found {
            entries.set(i, Touch { path, at: now });
        } else {
            entries.push(Touch { path, at: now });
        }
        proof {
            assert forall|a: int, b: int| 0 <= a < b < entries@.len() implies entries@[a].path@
                != entries@[b].path@ by {
                if found {
                    assert(entries@[a].path@ == before[a].path@);
                    assert(entries@[b].path@ == before[b].path@);
                } else if b == before.len() {
                    assert(entries@[a].path@ == before[a].path@);
                }
            }
        }
        self.entries = entries;
        proof {
            let after = self.entries@;
            assert(distinct(after));
            assert forall|p: Seq<char>| has(after, p) <==> (has(before, p) || p == path@) by {
                if has(after, p) {
                    let k = index_of(after, p);
                    if k < before.len() && after[k].path@ != path@ {
                        assert(before[k].path@ == p);
                    }
                }
                if has(before, p) && p != path@ {
                    let k = index_of(before, p);
                    assert(after[k].path@ == before[k].path@);
                }
                if p == path@ {
                    assert(after[i as int].path@ == p);
                }
            }
            assert forall|p: Seq<char>| has(after, p) implies map_of(after)[p] == old(
                self,
            )@.touch(path@, now).touched[p] by {
                let k = index_of(after, p);
                lemma_map_of(after, k);
                if p != path@ {
                    assert(before[k].path@ == p);
                    lemma_map_of(before, k);
                } else {
                    lemma_map_of(after, i as int);
                }
            }
            assert(self@.touched =~= old(self)@.touch(path@, now).touched);
        }
    }

    /// Whether no path is tracked, highlighted or not.
    pub fn is_empty(&self) -> (r: bool)
        ensures
            r == (self@.touched == Map::<Seq<char>, Instant>::empty()),
    {
        proof {
            use_type_invariant(self);
            if self.entries@.len() > 0 {
                lemma_map_of(self.entries@, 0);
            } else {
                assert(self@.touched =~= Map::<Seq<char>, Instant>::empty());
            }
        }
        self.entries.len() == 0
    }

    /// How long a highlight lasts.
    pub fn duration(&self) -> (d: Duration)
        ensures
            d == self@.duration,
    {
        self.duration
    }

    /// Changes how long a highlight lasts, for the paths already tracked
    /// too. With a duration of zero nothing is highlighted.
    pub fn set_duration(&mut self, duration: Duration)
        ensures
            final(self)@ == old(self)@.with_duration(duration),
    {
        proof {
            use_type_invariant(&*self);
        }
        self.duration = duration;
    }

    /// Forgets every path.
    pub fn clear(&mut self)
        ensures
            final(self)@ == old(self)@.cleared(),
    {
        self.entries = Vec::new();
        assert(self@.touched =~= Map::<Seq<char>, Instant>::empty());
    }

    /// The paths that are highlighted at `now`, each once. The paths whose
    /// highlight has run out are forgotten on the way.
    pub fn active_set(&mut self, now: Instant) -> (active: Vec<String>)
        ensures
            final(self)@ == old(self)@.prune(now),
            forall|path: Seq<char>| holds_path(active@, path) <==> old(self)@.is_live(path, now),
            forall|i: int, j: int| 0 <= i < j < active.len() ==> active[i]@ != active[j]@,
    {
        proof {
            use_type_invariant(&*self);
        }
        let ghost before = self.entries@;
        let ghost model = self@;
        let duration = self.duration;
        let mut kept: Vec<Touch> = Vec::new();
        let mut active: Vec<String> = Vec::new();
        let mut i: usize = 0;
        while i < self.entries.len()
            invariant
                i <= self.entries.len(),
                self.entries@ == before,
                distinct(before),
                active.len() == kept.len(),
                forall|k: int| 0 <= k < kept.len() ==> (#[trigger] active[k])@ == kept[k].path@,
                forall|k: int|
                    0 <= k < kept.len() ==> taken_from(before, i as int, now, duration, #[trigger] kept[k]),
                forall|m: int|
                    0 <= m < i && elapsed(now, (#[trigger] before[m]).at) < duration.nanos ==> has(
                        kept@,
                        before[m].path@,
                    ),
                distinct(kept@),
            decreases self.entries.len() - i,
        {
            let ghost kept_before = kept@;
            let e = &self.entries[i];
            if now.duration_since(e.at).nanos < duration.nanos {
                kept.push(Touch { path: e.path.clone(), at: e.at });
                active.push(e.path.clone());
                proof {
                    assert(kept@[kept_before.len() as int].path@ == before[i as int].path@);
                    assert forall|k: int| 0 <= k < kept.len() implies taken_from(
                        before,
                        i + 1,
                        now,
                        duration,
                        #[trigger] kept[k],
                    ) by {
                        if k < kept_before.len() {
                            assert(taken_from(before, i as int, now, duration, kept_before[k]));
                        } else {
                            assert(before[i as int].at == kept[k].at);
                        }
                    }
                    assert forall|m: int|
                        0 <= m < i + 1 && elapsed(now, (#[trigger] before[m]).at)
                            < duration.nanos implies has(kept@, before[m].path@) by {
                        if m < i {
                            let k = index_of(kept_before, before[m].path@);
                            assert(kept@[k].path@ == before[m].path@);
                        }
                    }
                    assert forall|a: int, b: int| 0 <= a < b < kept@.len() implies kept@[a].path@
                        != kept@[b].path@ by {
                        if b == kept_before.len() {
                            assert(taken_from(before, i as int, now, duration, kept_before[a]));
                            let m = choose|m: int|
                                0 <= m < i && (#[trigger] before[m]).path@ == kept_before[a].path@;
                            assert(before[m].path@ != before[i as int].path@);
                        }
                    }
                }
            } else {
                proof {
                    assert forall|k: int| 0 <= k < kept.len() implies taken_from(
                        before,
                        i + 1,
                        now,
                        duration,
                        #[trigger] kept[k],
                    ) by {
                        assert(taken_from(before, i as int, now, duration, kept[k]));
                    }
                }
            }
            i += 1;
        }
        self.entries = kept;
        proof {
            let after = self.entries@;
            let pruned = model.prune(now);
            assert forall|p: Seq<char>| has(after, p) <==> model.is_live(p, now) by {
                if has(after, p) {
                    let k = index_of(after, p);
                    assert(taken_from(before, before.len() as int, now, duration, after[k]));
                    let m = choose|m: int|
                        0 <= m < before.len() && (#[trigger] before[m]).path@ == after[k].path@
                            && before[m].at == after[k].at && elapsed(now, before[m].at)
                            < duration.nanos;
                    lemma_map_of(before, m);
                }
                if model.is_live(p, now) {
                    let m = index_of(before, p);
                    lemma_map_of(before, m);
                }
            }
            assert forall|p: Seq<char>| has(after, p) implies map_of(after)[p] == pruned.touched[p] by {
                let k = index_of(after, p);
                lemma_map_of(after, k);
                assert(taken_from(before, before.len() as int, now, duration, after[k]));
                let m = choose|m: int|
                    0 <= m < before.len() && (#[trigger] before[m]).path@ == after[k].path@
                        && before[m].at == after[k].at && elapsed(now, before[m].at)
                        < duration.nanos;
                lemma_map_of(before, m);
            }
            assert(self@.touched =~= pruned.touched);
            assert forall|p: Seq<char>| holds_path(active@, p) <==> model.is_live(p, now) by {
                if holds_path(active@, p) {
                    let k = choose|k: int| 0 <= k < active@.len() && (#[trigger] active@[k])@ == p;
                    assert(after[k].path@ == p);
                }
                if has(after, p) {
                    let k = index_of(after, p);
                    assert(active@[k]@ == p);
                }
            }
        }
        active
    }
}

/// A path touched at `t0` is highlighted at a later time `now` exactly as
/// long as less than the highlight duration has passed since `t0`, whatever
/// the tracker held before.
pub proof fn lemma_touched_path_lives_for_duration(
    tracker: TrackerModel,
    path: Seq<char>,
    t0: Instant,
    now: Instant,
)
    requires
        t0.nanos <= now.nanos,
    ensures
        tracker.touch(path, t0).is_live(path, now) <==> now.nanos - t0.nanos
            < tracker.duration.nanos,
        tracker.touch(path, t0).active(now).contains(path) <==> now.nanos - t0.nanos
            < tracker.duration.nanos,
{
}

/// Touching a path again at `t1` makes its highlight last until the
/// duration has passed since `t1`: the time of the first touch no longer
/// counts, and whether the tracker was queried in between does not matter.
pub proof fn lemma_retouch_restarts_highlight(
    tracker: TrackerModel,
    path: Seq<char>,
    t0: Instant,
    queried: Instant,
    t1: Instant,
    now: Instant,
)
    requires
        t0.nanos < t1.nanos <= now.nanos,
    ensures
        tracker.touch(path, t0).touch(path, t1).is_live(path, now) <==> now.nanos - t1.nanos
            < tracker.duration.nanos,
        tracker.touch(path, t0).prune(queried).touch(path, t1).is_live(path, now) <==> now.nanos
            - t1.nanos < tracker.duration.nanos,
{
}

/// Forgetting the paths whose highlight has run out does not change which
/// paths are highlighted from then on.
pub proof fn lemma_prune_keeps_live_paths(
    tracker: TrackerModel,
    path: Seq<char>,
    queried: Instant,
    now: Instant,
)
    requires
        queried.nanos <= now.nanos,
    ensures
        tracker.prune(queried).is_live(path, now) <==> tracker.is_live(path, now),
{
}

/// With a highlight duration of zero nothing is highlighted.
pub proof fn lemma_zero_duration_highlights_nothing(tracker: TrackerModel, now: Instant)
    requires
        tracker.duration.nanos == 0,
    ensures
        tracker.active(now) == Set::<Seq<char>>::empty(),
{
    assert(tracker.active(now) =~= Set::<Seq<char>>::empty());
}

} // verus!
