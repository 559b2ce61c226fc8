//! The record of installations within one process.
//!
//! Requests for one tool in one version are served by one installation:
//! the first request performs it, requests that arrive while it runs wait
//! for its outcome, and requests after its success find it done. A failed
//! installation leaves no trace, so that the next request tries again.
//! Requests for different tools or versions do not touch one another.
//!
//! The cache decides, the caller acts: `begin_install` says what a request
//! has to do, and `finish_install` takes the outcome of an installation.

use vstd::prelude::*;
use vstd::string::*;
use crate::application::Application;

verus! {

/// What installations are told apart by: the tool and its version.
pub type InstallKey = (Application, Seq<char>);

/// How far the installation for one key has come.
#[derive(Clone, Copy, Debug, PartialEq, Eq, Structural, Hash)]
pub enum Slot {
    /// No installation runs or has succeeded: none was asked for yet, or
    /// the last one failed.
    Idle,
    /// An installation runs.
    Running,
    /// An installation has succeeded.
    Done,
}

/// What a request for an installation has to do.
#[derive(Clone, Copy, Debug, PartialEq, Eq, Structural, Hash)]
pub enum Admission {
    /// Perform the installation and report its outcome.
    Run,
    /// Wait for the outcome of the installation that runs.
    Wait,
    /// Nothing: the installation has succeeded before.
    Skip,
}

/// Something that happens to a cache.
pub enum CacheEvent {
    /// An installation for the key is asked for.
    Request(InstallKey),
    /// The installation that ran for the key has ended, with success or not.
    Finished(InstallKey, bool),
}

/// The slot of `key`. A key that was never seen is idle.
pub open spec fn slot_at(slots: Map<InstallKey, Slot>, key: InstallKey) -> Slot {
    if slots.dom().contains(key) {
        slots[key]
    } else {
        Slot::Idle
    }
}

/// What a request for `key` has to do.
pub open spec fn admission(slots: Map<InstallKey, Slot>, key: InstallKey) -> Admission {
    match slot_at(slots, key) {
        Slot::Idle => Admission::Run,
        Slot::Running => Admission::Wait,
        Slot::Done => Admission::Skip,
    }
}

/// The slots after a request for `key`: the request that is told to run
/// marks the key as running, any other request changes nothing.
pub open spec fn request(slots: Map<InstallKey, Slot>, key: InstallKey) -> Map<InstallKey, Slot> {
    match slot_at(slots, key) {
        Slot::Idle => slots.insert(key, Slot::Running),
        _ => slots,
    }
}

/// The slots after the installation that ran for `key` has ended: done
/// after success, idle again after failure. Where none ran, nothing changes.
pub open spec fn settle(slots: Map<InstallKey, Slot>, key: InstallKey, success: bool) -> Map<
    InstallKey,
    Slot,
> {
    match slot_at(slots, key) {
        Slot::Running => slots.insert(
            key,
            if success {
                Slot::Done
            } else {
                Slot::Idle
            },
        ),
        _ => slots,
    }
}

/// The slots after one event.
pub open spec fn step(slots: Map<InstallKey, Slot>, event: CacheEvent) -> Map<InstallKey, Slot> {
    match event {
        CacheEvent::Request(key) => request(slots, key),
        CacheEvent::Finished(key, success) => settle(slots, key, success),
    }
}

/// The slots after a series of events.
pub open spec fn run(slots: Map<InstallKey, Slot>, events: Seq<CacheEvent>) -> Map<InstallKey, Slot>
    decreases events.len(),
{
    if events.len() == 0 {
        slots
    } else {
        step(run(slots, events.drop_last()), events.last())
    }
}

/// Whether the event is a request for `key` that is told to run.
pub open spec fn starts(slots: Map<InstallKey, Slot>, event: CacheEvent, key: InstallKey) -> bool {
    event == CacheEvent::Request(key) && admission(slots, key) == Admission::Run
}

/// How many installations for `key` a series of events sets off.
pub open spec fn started(slots: Map<InstallKey, Slot>, events: Seq<CacheEvent>, key: InstallKey) -> nat
    decreases events.len(),
{
    if events.len() == 0 {
        0
    } else {
        let before = started(slots, events.drop_last(), key);
        if starts(run(slots, events.drop_last()), events.last(), key) {
            before + 1
        } else {
            before
        }
    }
}

/// Whether some event of the series is a request for `key`.
pub open spec fn some_request(events: Seq<CacheEvent>, key: InstallKey) -> bool {
    exists|i: int| 0 <= i < events.len() && #[trigger] events[i] == CacheEvent::Request(key)
}

/// Whether the event concerns `key`.
pub open spec fn concerns(event: CacheEvent, key: InstallKey) -> bool {
    match event {
        CacheEvent::Request(k) => k == key,
        CacheEvent::Finished(k, _) => k == key,
    }
}

/// One entry of the cache.
struct CacheEntry {
    app: Application,
    version: String,
    slot: Slot,
}

/// The key of an entry.
spec fn key_of(entry: CacheEntry) -> InstallKey {
    (entry.app, entry.version@)
}

/// The slots that a list of entries stands for.
spec fn slots_of(entries: Seq<CacheEntry>) -> Map<InstallKey, Slot>
    decreases entries.len(),
{
    if entries.len() == 0 {
        Map::empty()
    } else {
        slots_of(entries.drop_last()).insert(key_of(entries.last()), entries.last().slot)
    }
}

/// Whether no two entries have the same key.
spec fn distinct(entries: Seq<CacheEntry>) -> bool {
    forall|i: int, j: int|
        0 <= i < j < entries.len() ==> key_of(#[trigger] entries[i]) != key_of(
            #[trigger] entries[j],
        )
}

/// A key that no entry has is in no slot.
proof fn lemma_absent(entries: Seq<CacheEntry>, key: InstallKey)
    requires
        forall|i: int| 0 <= i < entries.len() ==> key_of(#[trigger] entries[i]) != key,
    ensures
        !slots_of(entries).dom().contains(key),
    decreases entries.len(),
{
    if entries.len() > 0 {
        let rest = entries.drop_last();
        assert forall|i: int| 0 <= i < rest.len() implies key_of(#[trigger] rest[i]) != key by {
            assert(rest[i] == entries[i]);
        }
        lemma_absent(rest, key);
        assert(key_of(entries.last()) != key);
    }
}

/// The slot of an entry's key is the entry's slot.
proof fn lemma_present(entries: Seq<CacheEntry>, i: int)
    requires
        distinct(entries),
        0 <= i < entries.len(),
    ensures
        slots_of(entries).dom().contains(key_of(entries[i])),
        slots_of(entries)[key_of(entries[i])] == entries[i].slot,
    decreases entries.len(),
{
    let rest = entries.drop_last();
    if i < entries.len() - 1 {
        assert forall|a: int, b: int| 0 <= a < b < rest.len() implies key_of(#[trigger] rest[a])
            != key_of(#[trigger] rest[b]) by {
            assert(rest[a] == entries[a] && rest[b] == entries[b]);
        }
        lemma_present(rest, i);
        assert(rest[i] == entries[i]);
        assert(key_of(entries[i]) != key_of(entries[entries.len() - 1]));
    }
}

/// Replacing an entry by one with the same key replaces the key's slot.
proof fn lemma_replace(entries: Seq<CacheEntry>, i: int, entry: CacheEntry)
    requires
        distinct(entries),
        0 <= i < entries.len(),
        key_of(entry) == key_of(entries[i]),
    ensures
        distinct(entries.update(i, entry)),
        slots_of(entries.update(i, entry)) == slots_of(entries).insert(key_of(entry), entry.slot),
    decreases entries.len(),
{
    let changed = entries.update(i, entry);
    assert forall|a: int, b: int| 0 <= a < b < changed.len() implies key_of(
        #[trigger] changed[a],
    ) != key_of(#[trigger] changed[b]) by {
        assert(key_of(changed[a]) == key_of(entries[a]));
        assert(key_of(changed[b]) == key_of(entries[b]));
    }
    let rest = entries.drop_last();
    if i == entries.len() - 1 {
        assert(changed.drop_last() =~= rest);
        assert(slots_of(changed) =~= slots_of(entries).insert(key_of(entry), entry.slot));
    } else {
        assert forall|a: int, b: int| 0 <= a < b < rest.len() implies key_of(#[trigger] rest[a])
            != key_of(#[trigger] rest[b]) by {
            assert(rest[a] == entries[a] && rest[b] == entries[b]);
        }
        assert(rest[i] == entries[i]);
        lemma_replace(rest, i, entry);
        assert(changed.drop_last() =~= rest.update(i, entry));
        assert(changed.last() == entries.last());
        assert(key_of(entries[i]) != key_of(entries[entries.len() - 1]));
        assert(slots_of(changed) =~= slots_of(entries).insert(key_of(entry), entry.slot));
    }
}

/// The record of the installations that this process has begun.
pub struct AppCache {
    /// One entry for each key that was ever asked for. The entries are
    /// walked in order: a key holds text, and vstd gives no model of
    /// hashing for such keys, so nothing could be proved of a hash map.
    entries: Vec<CacheEntry>,
}

impl View for AppCache {
    type V = Map<InstallKey, Slot>;

    /// The slot of every key that was ever asked for.
    closed spec fn view(&self) -> Map<InstallKey, Slot> {
        slots_of(self.entries@)
    }
}

impl AppCache {
    #[verifier::type_invariant]
    spec fn well_formed(self) -> bool {
        distinct(self.entries@)
    }

    /// A cache that has seen no request.
    pub fn new() -> (r: AppCache)
        ensures
            r@ == Map::<InstallKey, Slot>::empty(),
    {
        AppCache { entries: Vec::new() }
    }

    /// Puts `entries` in the place of the cache's entries and hands the
    /// former ones back.
    fn exchange(&mut self, entries: Vec<CacheEntry>) -> (r: Vec<CacheEntry>)
        requires
            distinct(entries@),
        ensures
            r == old(self).entries,
            final(self).entries == entries,
    {
        let mut held = entries;
        std::mem::swap(&mut self.entries, &mut held);
        held
    }

    /// The place of the entry for the key, if there is one.
    fn position(&self, app: Application, version: &String) -> (r: Option<usize>)
        ensures
            match r {
                Some(i) => i < self.entries@.len() && key_of(self.entries@[i as int]) == (
                    app,
                    version@,
                ),
                None => forall|i: int|
                    0 <= i < self.entries@.len() ==> key_of(#[trigger] self.entries@[i]) != (
                        app,
                        version@,
                    ),
            },
    {
        let mut i: usize = 0;
        while i < self.entries.len()
            invariant
                i <= self.entries@.len(),
                forall|j: int|
                    0 <= j < i ==> key_of(#[trigger] self.entries@[j]) != (app, version@),
            decreases self.entries.len() - i,
        {
            if self.entries[i].app == app && self.entries[i].version == *version {
                return Some(i);
            }
            i += 1;
        }
        None
    }

    /// How far the installation of `app` in `version` has come.
    pub fn slot(&self, app: Application, version: &str) -> (r: Slot)
        ensures
            r == slot_at(self@, (app, version@)),
    {
        let wanted = String::from_str(version);
        proof {
            use_type_invariant(self);
        }
        match self.position(app, &wanted) {
            Some(i) => {
                proof {
                    lemma_present(self.entries@, i as int);
                }
                self.entries[i].slot
            },
            None => {
                proof {
                    lemma_absent(self.entries@, (app, version@));
                }
                Slot::Idle
            },
        }
    }

    /// Takes a request for the installation of `app` in `version` and says
    /// what the request has to do. A request that is told to run must
    /// report the outcome with `finish_install`.
    pub fn begin_install(&mut self, app: Application, version: &str) -> (r: Admission)
        ensures
            r == admission(old(self)@, (app, version@)),
            final(self)@ == request(old(self)@, (app, version@)),
    {
        let wanted = String::from_str(version);
        proof {
            use_type_invariant(&*self);
        }
        match self.position(app, &wanted) {
            Some(i) => {
                proof {
                    lemma_present(self.entries@, i as int);
                }
                match self.entries[i].slot {
                    Slot::Idle => {
                        let entry = CacheEntry { app, version: wanted, slot: Slot::Running };
                        proof {
                            lemma_replace(self.entries@, i as int, entry);
                        }
                        let mut entries = self.exchange(Vec::new());
                        entries.set(i, entry);
                        let _ = self.exchange(entries);
                        Admission::Run
                    },
                    Slot::Running => Admission::Wait,
                    Slot::Done => Admission::Skip,
                }
            },
            None => {
                proof {
                    lemma_absent(self.entries@, (app, version@));
                }
                let entry = CacheEntry { app, version: wanted, slot: Slot::Running };
                let mut entries = self.exchange(Vec::new());
                let ghost before = entries@;
                entries.push(entry);
                proof {
                    assert(entries@.drop_last() =~= before);
                }
                let _ = self.exchange(entries);
                Admission::Run
            },
        }
    }

    /// Takes the outcome of the installation of `app` in `version` that a
    /// request was told to run.
    pub fn finish_install(&mut self, app: Application, version: &str, success: bool)
        ensures
            final(self)@ == settle(old(self)@, (app, version@), success),
    {
        let wanted = String::from_str(version);
        proof {
            use_type_invariant(&*self);
        }
        match self.position(app, &wanted) {
            Some(i) => {
                proof {
                    lemma_present(self.entries@, i as int);
                }
                match self.entries[i].slot {
                    Slot::Running => {
                        let slot = if success {
                            Slot::Done
                        } else {
                            Slot::Idle
                        };
                        let entry = CacheEntry { app, version: wanted, slot };
                        proof {
                            lemma_replace(self.entries@, i as int, entry);
                        }
                        let mut entries = self.exchange(Vec::new());
                        entries.set(i, entry);
                        let _ = self.exchange(entries);
                    },
                    _ => {},
                }
            },
            None => {
                proof {
                    lemma_absent(self.entries@, (app, version@));
                }
            },
        }
    }
}

/// A request finds a key idle, running or done, and is told to run, to
/// wait or to skip accordingly; only the request that runs changes the
/// key's slot, and it marks the key as running.
pub proof fn lemma_request(slots: Map<InstallKey, Slot>, key: InstallKey)
    ensures
        admission(slots, key) == Admission::Run <==> slot_at(slots, key) == Slot::Idle,
        admission(slots, key) == Admission::Run ==> slot_at(request(slots, key), key)
            == Slot::Running,
        admission(slots, key) != Admission::Run ==> request(slots, key) == slots,
{
}

/// Once an installation has succeeded, every later request for its key
/// skips: a second request in a row performs no second installation.
pub proof fn lemma_success_is_remembered(slots: Map<InstallKey, Slot>, key: InstallKey)
    requires
        slot_at(slots, key) == Slot::Running,
    ensures
        admission(settle(slots, key, true), key) == Admission::Skip,
{
}

/// Once an installation has failed, the next request for its key runs the
/// whole installation again.
pub proof fn lemma_failure_is_forgotten(slots: Map<InstallKey, Slot>, key: InstallKey)
    requires
        slot_at(slots, key) == Slot::Running,
    ensures
        admission(settle(slots, key, false), key) == Admission::Run,
{
}

/// An event changes the slot of no key but its own.
pub proof fn lemma_step_keeps_other_keys(
    slots: Map<InstallKey, Slot>,
    event: CacheEvent,
    key: InstallKey,
)
    requires
        !concerns(event, key),
    ensures
        slot_at(step(slots, event), key) == slot_at(slots, key),
{
}

/// Requests for different keys do not wait for one another: whatever
/// happens to other keys, a request for `key` is told what it would have
/// been told at once, and no installation for `key` is set off meanwhile.
pub proof fn lemma_keys_are_independent(
    slots: Map<InstallKey, Slot>,
    events: Seq<CacheEvent>,
    key: InstallKey,
)
    requires
        forall|i: int| 0 <= i < events.len() ==> !concerns(#[trigger] events[i], key),
    ensures
        slot_at(run(slots, events), key) == slot_at(slots, key),
        admission(run(slots, events), key) == admission(slots, key),
        started(slots, events, key) == 0,
    decreases events.len(),
{
    if events.len() > 0 {
        let before = events.drop_last();
        assert forall|i: int| 0 <= i < before.len() implies !concerns(#[trigger] before[i], key) by {
            assert(before[i] == events[i]);
        }
        lemma_keys_are_independent(slots, before, key);
        assert(!concerns(events[events.len() - 1], key));
        lemma_step_keeps_other_keys(run(slots, before), events.last(), key);
    }
}

/// A success is remembered for good: whatever happens afterwards, the key
/// stays done and no further installation for it is set off.
pub proof fn lemma_done_is_final(
    slots: Map<InstallKey, Slot>,
    events: Seq<CacheEvent>,
    key: InstallKey,
)
    requires
        slot_at(slots, key) == Slot::Done,
    ensures
        slot_at(run(slots, events), key) == Slot::Done,
        started(slots, events, key) == 0,
    decreases events.len(),
{
    if events.len() > 0 {
        lemma_done_is_final(slots, events.drop_last(), key);
        let before = run(slots, events.drop_last());
        if !concerns(events.last(), key) {
            lemma_step_keeps_other_keys(before, events.last(), key);
        }
    }
}

/// Whether no event of the series is the failure of an installation for `key`.
pub open spec fn none_failed(events: Seq<CacheEvent>, key: InstallKey) -> bool {
    forall|i: int| 0 <= i < events.len() ==> #[trigger] events[i] != CacheEvent::Finished(key, false)
}

/// As long as no installation for a key fails, at most one is set off,
/// however many requests for the key arrive and however they are
/// interleaved with other events; in particular, requests that arrive
/// while the installation runs set off no second one. If the key was idle
/// at first, exactly one installation is set off as soon as there is a
/// request for it, and if it was not, none is.
pub proof fn lemma_one_installation_per_key(
    slots: Map<InstallKey, Slot>,
    events: Seq<CacheEvent>,
    key: InstallKey,
)
    requires
        none_failed(events, key),
    ensures
        started(slots, events, key) <= 1,
        slot_at(slots, key) != Slot::Idle ==> started(slots, events, key) == 0 && slot_at(
            run(slots, events),
            key,
        ) != Slot::Idle,
        slot_at(slots, key) == Slot::Idle ==> (started(slots, events, key) == 1 <==> some_request(
            events,
            key,
        )),
        slot_at(slots, key) == Slot::Idle ==> (slot_at(run(slots, events), key) == Slot::Idle
            <==> !some_request(events, key)),
    decreases events.len(),
{
    if events.len() > 0 {
        let before = events.drop_last();
        let last = events.last();
        assert forall|i: int| 0 <= i < before.len() implies #[trigger] before[i]
            != CacheEvent::Finished(key, false) by {
            assert(before[i] == events[i]);
        }
        lemma_one_installation_per_key(slots, before, key);
        assert(last == events[events.len() - 1]);
        assert(last != CacheEvent::Finished(key, false));
        let mid = run(slots, before);
        if !concerns(last, key) {
            lemma_step_keeps_other_keys(mid, last, key);
        }
        if some_request(before, key) {
            let i = choose|i: int| 0 <= i < before.len() && #[trigger] before[i]
                == CacheEvent::Request(key);
            assert(events[i] == CacheEvent::Request(key));
        }
        if some_request(events, key) && last != CacheEvent::Request(key) {
            let i = choose|i: int| 0 <= i < events.len() && #[trigger] events[i]
                == CacheEvent::Request(key);
            assert(before[i] == CacheEvent::Request(key));
        }
    } else {
        assert(!some_request(events, key));
    }
}

} // verus!
