//! What the file system watcher tells the event loop, and how one batch of
//! raw notifications becomes one event.

use crate::text::{contains_path, holds_path, texts};
use vstd::prelude::*;

verus! {

/// What the watcher reports.
#[derive(Debug, Clone, PartialEq)]
pub enum WatchEvent {
    /// Something changed at these paths, each named once.
    Changed(Vec<String>),
    /// The watched directory itself is gone.
    RootDeleted,
    /// The watcher ran into an error.
    Error(String),
}

/// What a look at the watched directory showed after a batch of
/// notifications.
#[derive(Debug, Clone, PartialEq)]
pub enum RootStatus {
    /// The directory is there.
    Present,
    /// The directory was not found.
    Missing,
    /// The directory could not be examined, for the reason given.
    Unreadable(String),
}

/// A watch event as plain values.
pub ghost enum EventModel {
    Changed(Seq<Seq<char>>),
    RootDeleted,
    Error(Seq<char>),
}

impl View for WatchEvent {
    type V = EventModel;

    open spec fn view(&self) -> EventModel {
        match *self {
            WatchEvent::Changed(paths) => EventModel::Changed(texts(paths@)),
            WatchEvent::RootDeleted => EventModel::RootDeleted,
            WatchEvent::Error(message) => EventModel::Error(message@),
        }
    }
}

/// A root status as plain values.
pub ghost enum RootModel {
    Present,
    Missing,
    Unreadable(Seq<char>),
}

impl View for RootStatus {
    type V = RootModel;

    open spec fn view(&self) -> RootModel {
        match *self {
            RootStatus::Present => RootModel::Present,
            RootStatus::Missing => RootModel::Missing,
            RootStatus::Unreadable(reason) => RootModel::Unreadable(reason@),
        }
    }
}

/// The paths in the order in which each first occurs, each once.
pub open spec fn deduped(paths: Seq<Seq<char>>) -> Seq<Seq<char>>
    decreases paths.len(),
{
    if paths.len() == 0 {
        Seq::empty()
    } else if deduped(paths.drop_last()).contains(paths.last()) {
        deduped(paths.drop_last())
    } else {
        deduped(paths.drop_last()).push(paths.last())
    }
}

/// The event that a batch of notifications amounts to. While the root is
/// there, the batch is a change at its paths; a root that was not found has
/// been deleted; any other trouble with the root is an error.
pub open spec fn batch_outcome(paths: Seq<Seq<char>>, root: RootModel) -> EventModel {
    match root {
        RootModel::Present => EventModel::Changed(deduped(paths)),
        RootModel::Missing => EventModel::RootDeleted,
        RootModel::Unreadable(reason) => EventModel::Error(reason),
    }
}

/// A deduplicated list names each path once and names the paths of the
/// list it was made from, no more and no fewer.
pub proof fn lemma_deduped(paths: Seq<Seq<char>>)
    ensures
        deduped(paths).no_duplicates(),
        forall|p: Seq<char>| deduped(paths).contains(p) <==> paths.contains(p),
        deduped(paths).len() <= paths.len(),
    decreases paths.len(),
{
    if paths.len() > 0 {
        let init = paths.drop_last();
        lemma_deduped(init);
        assert forall|p: Seq<char>| deduped(paths).contains(p) <==> paths.contains(p) by {
            if paths.contains(p) {
                let i = choose|i: int| 0 <= i < paths.len() && paths[i] == p;
                if i < init.len() {
                    assert(init[i] == p);
                    assert(init.contains(p));
                    assert(deduped(init).contains(p));
                    let k = choose|k: int| 0 <= k < deduped(init).len() && deduped(init)[k] == p;
                    assert(deduped(paths)[k] == p);
                } else if !deduped(init).contains(paths.last()) {
                    assert(deduped(paths)[deduped(init).len() as int] == p);
                } else {
                    assert(deduped(paths) == deduped(init));
                }
            }
            if deduped(paths).contains(p) {
                let k = choose|k: int| 0 <= k < deduped(paths).len() && deduped(paths)[k] == p;
                if k < deduped(init).len() {
                    assert(deduped(init)[k] == p);
                    assert(deduped(init).contains(p));
                    assert(init.contains(p));
                    let i = choose|i: int| 0 <= i < init.len() && init[i] == p;
                    assert(paths[i] == p);
                } else {
                    assert(paths[paths.len() - 1] == p);
                }
            }
        }
    }
}

/// Removes the repeated paths, keeping the first of each.
pub fn dedup_paths(paths: &[String]) -> (out: Vec<String>)
    ensures
        texts(out@) == deduped(texts(paths@)),
{
    let ghost all = texts(paths@);
    let mut out: Vec<String> = Vec::new();
    let mut i: usize = 0;
    assert(texts(out@) =~= deduped(all.take(0)));
    while i < paths.len()
        invariant
            i <= paths.len(),
            all == texts(paths@),
            texts(out@) == deduped(all.take(i as int)),
        decreases paths.len() - i,
    {
        let ghost before = texts(out@);
        proof {
            let done = all.take(i + 1);
            assert(done.drop_last() =~= all.take(i as int));
            assert(done.last() == paths@[i as int]@);
            if holds_path(out@, paths@[i as int]@) {
                let k = choose|k: int| 0 <= k < out@.len() && (#[trigger] out@[k])@ == paths@[i as int]@;
                assert(before[k] == paths@[i as int]@);
            }
            if before.contains(paths@[i as int]@) {
                let k = choose|k: int| 0 <= k < before.len() && before[k] == paths@[i as int]@;
                assert(out@[k]@ == paths@[i as int]@);
            }
        }
        if !contains_path(out.as_slice(), &paths[i]) {
            out.push(paths[i].clone());
            assert(texts(out@) =~= before.push(paths@[i as int]@));
        }
        i += 1;
    }
    assert(all.take(paths@.len() as int) =~= all);
    out
}

/// Turns one batch of notifications into the event for the loop, given
/// what a look at the watched directory showed after the batch.
pub fn batch_event(paths: &[String], root: RootStatus) -> (event: WatchEvent)
    ensures
        event@ == batch_outcome(texts(paths@), root@),
{
    match root {
        RootStatus::Present => WatchEvent::Changed(dedup_paths(paths)),
        RootStatus::Missing => WatchEvent::RootDeleted,
        RootStatus::Unreadable(reason) => WatchEvent::Error(reason),
    }
}

/// Turns the errors that the watcher reported in place of a batch into
/// events, one for each and in their order.
pub fn error_events(errors: Vec<String>) -> (events: Vec<WatchEvent>)
    ensures
        events.len() == errors.len(),
        forall|i: int|
            0 <= i < errors.len() ==> (#[trigger] events[i])@ == EventModel::Error(errors[i]@),
{
    let mut events: Vec<WatchEvent> = Vec::new();
    let mut i: usize = 0;
    while i < errors.len()
        invariant
            i <= errors.len(),
            events.len() == i,
            forall|k: int| 0 <= k < i ==> (#[trigger] events[k])@ == EventModel::Error(errors[k]@),
        decreases errors.len() - i,
    {
        events.push(WatchEvent::Error(errors[i].clone()));
        i += 1;
    }
    events
}

} // verus!
