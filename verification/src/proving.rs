//! Proof runs: the live state of a stream of events against the state rebuilt from the log,
//! from the last snapshot on.

use vstd::prelude::*;
use crate::event::Event;
use crate::journal::DeliveryJournal;
use crate::reducer::{event_ids, idempotent_reduce, idempotent_replay, law_idempotent_replay, marks_reached};
use crate::state::{AppState, AppStateView, initial_state};

verus! {

/// Folds `events` idempotently into `state` with `journal`, in order.
fn fold_events(state: AppState, journal: &mut DeliveryJournal, events: &Vec<Event>, start: usize) -> (r: AppState)
    requires
        start <= events@.len(),
        state.counter + (events@.len() - start) <= u64::MAX,
    ensures
        (r@, final(journal)@) == idempotent_replay(state@, old(journal)@, events@.skip(start as int)),
{
    let ghost s0 = state@;
    let ghost j0 = journal@;
    let mut state = state;
    let mut i = start;
    while i < events.len()
        invariant
            start <= i <= events@.len(),
            (state@, journal@) == idempotent_replay(s0, j0, events@.subrange(start as int, i as int)),
            state.counter <= s0.counter + (i - start),
            s0.counter + (events@.len() - start) <= u64::MAX,
        decreases events.len() - i,
    {
        let ghost done = events@.subrange(start as int, i as int);
        assert(events@.subrange(start as int, i + 1).drop_last() =~= done);
        state = idempotent_reduce(state, &events[i], journal);
        i = i + 1;
    }
    assert(events@.subrange(start as int, i as int) =~= events@.skip(start as int));
    state
}

/// The live state of a run: every event reduced once, in order, from the empty state.
pub fn live_state(events: &Vec<Event>) -> (r: AppState)
    requires
        events@.len() <= u64::MAX,
    ensures
        r@ == idempotent_replay(initial_state(), Map::empty(), events@).0,
{
    let mut journal = DeliveryJournal::new();
    let r = fold_events(AppState::default(), &mut journal, events, 0);
    assert(events@.skip(0) =~= events@);
    r
}

/// The state rebuilt after a restart: from the snapshot (state and how many events of the log
/// it covers) when there is one, else from the empty state, reducing the rest of the log with
/// a fresh journal.
pub open spec fn rebuilt(snapshot: Option<(AppStateView, nat)>, log: Seq<Event>) -> AppStateView {
    match snapshot {
        Some((s, n)) => idempotent_replay(s, Map::empty(), if n <= log.len() { log.skip(n as int) } else { Seq::empty() }).0,
        None => idempotent_replay(initial_state(), Map::empty(), log).0,
    }
}

/// How many events of a log of `len` events come after a snapshot that covers `n` of them.
pub open spec fn unreplayed(len: nat, n: nat) -> nat {
    if n <= len { (len - n) as nat } else { 0 }
}

pub open spec fn snapshot_view(snapshot: Option<(AppState, usize)>) -> Option<(AppStateView, nat)> {
    match snapshot {
        Some((s, n)) => Some((s@, n as nat)),
        None => None,
    }
}

/// Rebuilds the state from the log after a restart.
pub fn replay_from(snapshot: Option<(AppState, usize)>, log: &Vec<Event>) -> (r: AppState)
    requires
        match snapshot {
            Some((s, n)) => s.counter + unreplayed(log@.len(), n as nat) <= u64::MAX,
            None => log@.len() <= u64::MAX,
        },
    ensures
        r@ == rebuilt(snapshot_view(snapshot), log@),
{
    let mut journal = DeliveryJournal::new();
    match snapshot {
        Some((state, start)) => {
            let start = if start <= log.len() { start } else { log.len() };
            let r = fold_events(state, &mut journal, log, start);
            proof {
                if log@.len() <= start {
                    assert(log@.skip(start as int) =~= Seq::<Event>::empty());
                }
            }
            r
        },
        None => {
            let r = fold_events(AppState::default(), &mut journal, log, 0);
            assert(log@.skip(0) =~= log@);
            r
        },
    }
}

/// Runs a proof: whether the state rebuilt from the log (and the snapshot, when there is one)
/// is the live state of the events.
pub fn replay_agrees(events: &Vec<Event>, log: &Vec<Event>, snapshot: Option<(AppState, usize)>) -> (r: bool)
    requires
        events@.len() <= u64::MAX,
        match snapshot {
            Some((s, n)) => s.counter + unreplayed(log@.len(), n as nat) <= u64::MAX,
            None => log@.len() <= u64::MAX,
        },
    ensures
        r == (idempotent_replay(initial_state(), Map::empty(), events@).0 == rebuilt(snapshot_view(snapshot), log@)),
{
    let live = live_state(events);
    let replayed = replay_from(snapshot, log);
    live.same_as(&replayed)
}

/// The outcome of a proof run: the hashes of the live and the rebuilt state, and whether they
/// agree.
#[derive(Debug)]
pub struct ProofResult {
    pub scenario: String,
    pub live_hash: String,
    pub replay_hash: String,
    pub passed: bool,
}

/// `h` is a hash that `hash_state` gives for `s`.
pub open spec fn hashes_to<H: Fn(&AppState) -> String>(hash_state: H, s: AppState, h: String) -> bool {
    hash_state.ensures((&s,), h)
}

/// `hash_state` is a function of the state: states with the same contents hash alike.
pub open spec fn hash_of_view<H: Fn(&AppState) -> String>(hash_state: H) -> bool {
    forall|a: AppState, b: AppState, ha: String, hb: String|
        #![trigger hashes_to(hash_state, a, ha), hashes_to(hash_state, b, hb)]
        a@ == b@ && hashes_to(hash_state, a, ha) && hashes_to(hash_state, b, hb) ==> ha@ == hb@
}

/// Runs a proof of scenario `scenario`: the live state of `events` against the state rebuilt
/// from the log (and the snapshot, when there is one), compared by their hashes.
pub fn run_proof<H: Fn(&AppState) -> String>(
    scenario: &str,
    events: &Vec<Event>,
    log: &Vec<Event>,
    snapshot: Option<(AppState, usize)>,
    hash_state: H,
) -> (r: ProofResult)
    requires
        events@.len() <= u64::MAX,
        match snapshot {
            Some((s, n)) => s.counter + unreplayed(log@.len(), n as nat) <= u64::MAX,
            None => log@.len() <= u64::MAX,
        },
        forall|s: &AppState| #[trigger] hash_state.requires((s,)),
    ensures
        r.scenario@ == scenario@,
        exists|live: AppState, replayed: AppState, again: String|
            #![trigger hashes_to(hash_state, live, r.live_hash), hashes_to(hash_state, replayed, again)]
            {
                &&& live@ == idempotent_replay(initial_state(), Map::empty(), events@).0
                &&& replayed@ == rebuilt(snapshot_view(snapshot), log@)
                &&& hashes_to(hash_state, live, r.live_hash)
                &&& hashes_to(hash_state, replayed, r.replay_hash)
                &&& hashes_to(hash_state, replayed, again)
                &&& r.passed == (r.live_hash@ == again@)
            },
        hash_of_view(hash_state) && rebuilt(snapshot_view(snapshot), log@) == idempotent_replay(
            initial_state(),
            Map::empty(),
            events@,
        ).0 ==> r.passed && r.replay_hash@ == r.live_hash@,
{
    let live = live_state(events);
    let live_hash = hash_state(&live);
    let replayed = replay_from(snapshot, log);
    let replay_hash = hash_state(&replayed);
    let again = hash_state(&replayed);
    let passed = crate::text::str_eq(live_hash.as_str(), again.as_str());
    let mut name = String::new();
    crate::text::push_str(&mut name, scenario);
    assert(name@ =~= scenario@);
    assert(hashes_to(hash_state, live, live_hash));
    assert(hashes_to(hash_state, replayed, replay_hash));
    assert(hashes_to(hash_state, replayed, again));
    let r = ProofResult { scenario: name, live_hash, replay_hash, passed };
    assert(live@ == idempotent_replay(initial_state(), Map::empty(), events@).0);
    assert(replayed@ == rebuilt(snapshot_view(snapshot), log@));
    assert(r.passed == (r.live_hash@ == again@));
    proof {
        if hash_of_view(hash_state) && rebuilt(snapshot_view(snapshot), log@) == idempotent_replay(
            initial_state(),
            Map::empty(),
            events@,
        ).0 {
            assert(live@ == replayed@);
            assert(hashes_to(hash_state, live, r.live_hash) && hashes_to(hash_state, replayed, again));
            assert(hashes_to(hash_state, replayed, r.replay_hash));
        }
    }
    r
}

/// A proof run over the log of its own events, with or without a snapshot of the live state at
/// the end of the log, rebuilds the live state.
pub proof fn law_own_log_rebuilds_live(events: Seq<Event>)
    ensures
        rebuilt(Some((idempotent_replay(initial_state(), Map::empty(), events).0, events.len())), events)
            == idempotent_replay(initial_state(), Map::empty(), events).0,
        rebuilt(None, events) == idempotent_replay(initial_state(), Map::empty(), events).0,
{
    assert(events.skip(events.len() as int) =~= Seq::<Event>::empty());
}

/// Folding two streams one after the other is folding their concatenation.
pub proof fn law_fold_concat(s: AppStateView, seen: Map<u64, int>, a: Seq<Event>, b: Seq<Event>)
    ensures
        idempotent_replay(s, seen, a + b) == ({
            let mid = idempotent_replay(s, seen, a);
            idempotent_replay(mid.0, mid.1, b)
        }),
    decreases b.len(),
{
    if b.len() == 0 {
        assert(a + b =~= a);
    } else {
        law_fold_concat(s, seen, a, b.drop_last());
        assert((a + b).drop_last() =~= a + b.drop_last());
        assert((a + b).last() == b.last());
    }
}

/// What the journal holds matters only for the ids that come: two journals whose marks the
/// state has reached, and that agree on the ids of the stream, fold it into the same state.
pub proof fn lemma_fold_journal_agnostic(s: AppStateView, j1: Map<u64, int>, j2: Map<u64, int>, b: Seq<Event>)
    requires
        marks_reached(j1, s),
        marks_reached(j2, s),
        forall|i: int| 0 <= i < b.len() ==> (j1.contains_key(#[trigger] b[i].id) <==> j2.contains_key(b[i].id)),
    ensures
        idempotent_replay(s, j1, b).0 == idempotent_replay(s, j2, b).0,
        forall|i: int| 0 <= i < b.len() ==> (idempotent_replay(s, j1, b).1.contains_key(#[trigger] b[i].id)
            <==> idempotent_replay(s, j2, b).1.contains_key(b[i].id)),
    decreases b.len(),
{
    if b.len() > 0 {
        let init = b.drop_last();
        assert forall|i: int| 0 <= i < init.len() implies (j1.contains_key(#[trigger] init[i].id) <==> j2.contains_key(init[i].id)) by {
            assert(init[i] == b[i]);
        }
        lemma_fold_journal_agnostic(s, j1, j2, init);
        law_idempotent_replay(s, j1, init);
        law_idempotent_replay(s, j2, init);
        law_idempotent_replay(s, j1, b);
        law_idempotent_replay(s, j2, b);
        let e = b.last();
        assert(j1.contains_key(e.id) <==> j2.contains_key(b[b.len() - 1].id));
        let p1 = idempotent_replay(s, j1, init);
        let p2 = idempotent_replay(s, j2, init);
        assert(p1.1.contains_key(e.id) <==> p2.1.contains_key(e.id)) by {
            if event_ids(init).contains(e.id) {
                let i = choose|i: int| 0 <= i < init.len() && init[i].id == e.id;
                assert(p1.1.contains_key(init[i].id) <==> p2.1.contains_key(init[i].id));
            }
        }
        assert forall|i: int| 0 <= i < b.len() implies (idempotent_replay(s, j1, b).1.contains_key(#[trigger] b[i].id)
            <==> idempotent_replay(s, j2, b).1.contains_key(b[i].id)) by {
            assert(event_ids(b).contains(b[i].id));
        }
    }
}

/// Replay equals live: rebuilding from a snapshot taken after the first `k` events, then
/// reducing the rest of the log with a fresh journal, gives the live state, for every stream in
/// which no event after the snapshot repeats the id of an event before it.
pub proof fn law_snapshot_replay(events: Seq<Event>, k: nat)
    requires
        k <= events.len(),
        forall|i: int, j: int| 0 <= i < k <= j < events.len() ==> events[i].id != events[j].id,
    ensures
        rebuilt(Some((idempotent_replay(initial_state(), Map::empty(), events.take(k as int)).0, k)), events)
            == idempotent_replay(initial_state(), Map::empty(), events).0,
{
    let a = events.take(k as int);
    let b = events.skip(k as int);
    assert(a + b =~= events);
    law_fold_concat(initial_state(), Map::empty(), a, b);
    let mid = idempotent_replay(initial_state(), Map::<u64, int>::empty(), a);
    law_idempotent_replay(initial_state(), Map::empty(), a);
    assert forall|i: int| 0 <= i < b.len() implies (Map::<u64, int>::empty().contains_key(#[trigger] b[i].id) <==> mid.1.contains_key(b[i].id)) by {
        if mid.1.contains_key(b[i].id) {
            assert(Map::<u64, int>::empty().dom().union(event_ids(a)).contains(b[i].id));
            let j = choose|j: int| 0 <= j < a.len() && a[j].id == b[i].id;
            assert(events[j].id == events[k + i].id);
        }
    }
    lemma_fold_journal_agnostic(mid.0, Map::empty(), mid.1, b);
}

/// Without a snapshot, the log rebuilt from the empty state is the live state of the same
/// events.
pub proof fn law_replay_without_snapshot(events: Seq<Event>)
    ensures
        rebuilt(None, events) == idempotent_replay(initial_state(), Map::empty(), events).0,
{
}

} // verus!
