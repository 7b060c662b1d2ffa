//! From the raw events of one debounce cycle to the change notification
//! that goes out on the bus.

use crate::logger::Logger;
use crate::text::same_text;
use vstd::prelude::*;

verus! {

/// How long the raw events must stay quiet before a batch goes out, in
/// milliseconds.
pub const DEBOUNCE_MILLIS: u64 = 1000;

/// What the watcher is started with.
pub struct WatcherOptions {
    /// The directory to watch, with everything below it.
    pub target_dir: String,
    /// Where the watcher reports a batch.
    pub logger: Logger,
}

/// What kind of thing happened to a file.
#[derive(Debug, Clone, Copy, PartialEq, Eq, Structural)]
pub enum EventKind {
    Any,
    Access,
    Create,
    Modify,
    Remove,
    Other,
}

/// One raw event: what happened, and to which paths.
pub struct RawEvent {
    pub kind: EventKind,
    pub paths: Vec<String>,
}

/// The texts of a sequence of strings.
pub open spec fn texts(strings: Seq<String>) -> Seq<Seq<char>> {
    Seq::new(strings.len(), |i: int| strings[i]@)
}

/// Whether events of this kind count as a change.
pub open spec fn counts(kind: EventKind) -> bool {
    kind == EventKind::Create || kind == EventKind::Modify || kind == EventKind::Remove
}

/// The paths of an event, if it counts as a change.
pub open spec fn contribution(event: RawEvent) -> Seq<Seq<char>> {
    if counts(event.kind) {
        texts(event.paths@)
    } else {
        Seq::empty()
    }
}

/// The paths of the events from place `from` on that count, latest event
/// first.
pub open spec fn gathered_from(events: Seq<RawEvent>, from: int) -> Seq<Seq<char>>
    decreases events.len() - from,
{
    if from < 0 || from >= events.len() {
        Seq::empty()
    } else {
        gathered_from(events, from + 1) + contribution(events[from])
    }
}

/// `paths` with every path kept where it stands first.
pub open spec fn distinct(paths: Seq<Seq<char>>) -> Seq<Seq<char>>
    decreases paths.len(),
{
    if paths.len() == 0 {
        Seq::empty()
    } else if distinct(paths.drop_last()).contains(paths.last()) {
        distinct(paths.drop_last())
    } else {
        distinct(paths.drop_last()).push(paths.last())
    }
}

/// The batch of one debounce cycle: the distinct paths of the events that
/// count, latest event first.
pub open spec fn batch(events: Seq<RawEvent>) -> Seq<Seq<char>> {
    distinct(gathered_from(events, 0))
}

/// A batch holds every path of its input, and each only once.
pub proof fn lemma_distinct(paths: Seq<Seq<char>>)
    ensures
        distinct(paths).no_duplicates(),
        forall|p: Seq<char>| #[trigger] distinct(paths).contains(p) <==> paths.contains(p),
    decreases paths.len(),
{
    let out = distinct(paths);
    if paths.len() > 0 {
        let init = paths.drop_last();
        let last = paths.last();
        let kept = distinct(init);
        lemma_distinct(init);
        assert forall|p: Seq<char>| #[trigger] out.contains(p) <==> paths.contains(p) by {
            assert(kept.contains(p) <==> init.contains(p));
            if out.contains(p) {
                let k = choose|k: int| 0 <= k < out.len() && out[k] == p;
                if k < kept.len() {
                    assert(kept[k] == p);
                    assert(kept.contains(p));
                    let j = choose|j: int| 0 <= j < init.len() && init[j] == p;
                    assert(paths[j] == p);
                } else {
                    assert(paths[paths.len() - 1] == p);
                }
            }
            if paths.contains(p) {
                let j = choose|j: int| 0 <= j < paths.len() && paths[j] == p;
                if j < init.len() {
                    assert(init[j] == p);
                    assert(init.contains(p));
                    let k = choose|k: int| 0 <= k < kept.len() && kept[k] == p;
                    assert(out[k] == p);
                } else if !kept.contains(last) {
                    assert(out[kept.len() as int] == p);
                } else {
                    let k = choose|k: int| 0 <= k < kept.len() && kept[k] == last;
                    assert(out[k] == p);
                }
            }
        }
        assert forall|i: int, j: int| 0 <= i < out.len() && 0 <= j < out.len() && i != j implies out[i]
            != out[j] by {
            if !kept.contains(last) {
                if i < kept.len() && j < kept.len() {
                    assert(kept[i] != kept[j]);
                } else if i < kept.len() {
                    assert(kept[i] == out[i]);
                    assert(kept.contains(out[i]));
                } else {
                    assert(kept[j] == out[j]);
                    assert(kept.contains(out[j]));
                }
            }
        }
    } else {
        assert forall|p: Seq<char>| #[trigger] out.contains(p) <==> paths.contains(p) by {}
    }
}

/// The changed paths of one debounce cycle, each once.
pub struct ChangeEvent {
    paths: Vec<String>,
}

impl View for ChangeEvent {
    type V = Seq<Seq<char>>;

    closed spec fn view(&self) -> Seq<Seq<char>> {
        texts(self.paths@)
    }
}

impl Clone for ChangeEvent {
    fn clone(&self) -> (copy: Self)
        ensures
            copy@ == self@,
    {
        let mut paths: Vec<String> = Vec::new();
        let mut i: usize = 0;
        while i < self.paths.len()
            invariant
                i <= self.paths@.len(),
                texts(paths@) == texts(self.paths@).take(i as int),
            decreases self.paths@.len() - i,
        {
            let ghost kept = texts(paths@);
            paths.push(self.paths[i].clone());
            assert(texts(paths@) =~= kept.push(self.paths@[i as int]@));
            assert(texts(self.paths@).take(i + 1) =~= texts(self.paths@).take(i as int).push(
                self.paths@[i as int]@,
            ));
            i = i + 1;
        }
        assert(texts(self.paths@).take(self.paths@.len() as int) =~= texts(self.paths@));
        ChangeEvent { paths }
    }
}

impl ChangeEvent {
    /// No path stands twice in a change event.
    pub open spec fn wf(&self) -> bool {
        self@.no_duplicates()
    }

    /// The changed paths.
    pub fn paths(&self) -> (paths: &Vec<String>)
        ensures
            texts(paths@) == self@,
    {
        &self.paths
    }

    /// How many paths changed.
    pub fn len(&self) -> (n: usize)
        ensures
            n == self@.len(),
    {
        self.paths.len()
    }
}

/// Whether `path` stands among `paths`.
fn holds(paths: &Vec<String>, path: &str) -> (yes: bool)
    ensures
        yes == texts(paths@).contains(path@),
{
    let mut i: usize = 0;
    while i < paths.len()
        invariant
            i <= paths@.len(),
            forall|j: int| 0 <= j < i ==> texts(paths@)[j] != path@,
        decreases paths@.len() - i,
    {
        if same_text(paths[i].as_str(), path) {
            assert(texts(paths@)[i as int] == path@);
            return true;
        }
        i = i + 1;
    }
    false
}

/// Coalesces the raw events of one debounce cycle into one change event.
/// Only creations, modifications and removals count; their paths are
/// gathered from the latest event back to the first, each path once.
/// Events that leave no path make no change event.
pub fn coalesce(events: &Vec<RawEvent>) -> (change: Option<ChangeEvent>)
    ensures
        match change {
            Some(event) => event@ == batch(events@) && event@.len() > 0 && event.wf(),
            None => batch(events@).len() == 0,
        },
{
    let mut paths: Vec<String> = Vec::new();
    let mut i: usize = events.len();
    assert(texts(paths@) =~= distinct(gathered_from(events@, i as int)));
    while i > 0
        invariant
            i <= events@.len(),
            texts(paths@) == distinct(gathered_from(events@, i as int)),
        decreases i,
    {
        i = i - 1;
        let event = &events[i];
        let ghost earlier = gathered_from(events@, i + 1);
        match event.kind {
            EventKind::Create | EventKind::Modify | EventKind::Remove => {
                let mut k: usize = 0;
                assert(earlier + texts(event.paths@).take(0) =~= earlier);
                while k < event.paths.len()
                    invariant
                        k <= event.paths@.len(),
                        texts(paths@) == distinct(earlier + texts(event.paths@).take(k as int)),
                    decreases event.paths@.len() - k,
                {
                    let ghost raw = earlier + texts(event.paths@).take(k as int);
                    let ghost next = earlier + texts(event.paths@).take(k + 1);
                    let ghost kept = texts(paths@);
                    proof {
                        assert(next.drop_last() =~= raw);
                        assert(next.last() == event.paths@[k as int]@);
                    }
                    if !holds(&paths, event.paths[k].as_str()) {
                        paths.push(event.paths[k].clone());
                        assert(texts(paths@) =~= kept.push(event.paths@[k as int]@));
                    }
                    k = k + 1;
                }
                assert(texts(event.paths@).take(event.paths@.len() as int) =~= texts(
                    event.paths@,
                ));
            },
            _ => {
                assert(earlier + contribution(*event) =~= earlier);
            },
        }
    }
    if paths.len() == 0 {
        None
    } else {
        proof {
            lemma_distinct(gathered_from(events@, 0));
        }
        Some(ChangeEvent { paths })
    }
}

} // verus!
