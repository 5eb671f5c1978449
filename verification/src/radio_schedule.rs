//! Transmission scheduling on the shared virtual radio bus: which radio may
//! start sending when, when a send is complete, which packets are ready to
//! deliver at a given moment, and which finished packets must be kept to
//! judge collisions with packets still on air. Signal strength, propagation
//! and capture are float computations and stay with the host.

use vstd::prelude::*;

use crate::keyed::{find_key, key_map, keys_distinct, lemma_key_map_at, lemma_key_map_push, lemma_key_map_remove,
    lemma_key_map_update};
use crate::radio::{intervals_overlap, overlap, sat_end, TxWindow};

verus! {

/// One transmission handed to the bus.
pub struct ScheduledTx {
    pub node_id: String,
    pub window: TxWindow,
    pub finalized: bool,
}

pub struct TxRecord {
    pub node: Seq<char>,
    pub window: TxWindow,
    pub finalized: bool,
}

impl View for ScheduledTx {
    type V = TxRecord;

    open spec fn view(&self) -> TxRecord {
        TxRecord { node: self.node_id@, window: self.window, finalized: self.finalized }
    }
}

/// The records of a run of transmissions.
pub open spec fn views(s: Seq<ScheduledTx>) -> Seq<TxRecord> {
    s.map_values(|t: ScheduledTx| t@)
}

pub open spec fn tx_end(w: TxWindow) -> int {
    sat_end(w.timestamp_ms, w.airtime_ms)
}

/// A transmission that has not been delivered yet and whose airtime is over.
pub open spec fn completes_at(r: TxRecord, now_ms: u64) -> bool {
    !r.finalized && tx_end(r.window) <= now_ms
}

pub open spec fn completing(now_ms: u64) -> spec_fn(TxRecord) -> bool {
    |r: TxRecord| completes_at(r, now_ms)
}

/// The records after delivering everything that completes at `now_ms`.
pub open spec fn mark_completed(p: Seq<TxRecord>, now_ms: u64) -> Seq<TxRecord> {
    p.map_values(|r: TxRecord| TxRecord { finalized: r.finalized || tx_end(r.window) <= now_ms, ..r })
}

/// Whether a window overlaps a transmission of `p` that is still unfinished.
pub open spec fn overlaps_unfinished(p: Seq<TxRecord>, w: TxWindow) -> bool {
    exists|i: int| 0 <= i < p.len() && !p[i].finalized
        && overlap(w.timestamp_ms, w.airtime_ms, #[trigger] p[i].window.timestamp_ms, p[i].window.airtime_ms)
}

/// A record is kept while it is unfinished, or while some unfinished record
/// of `p` overlaps it and so still needs it for collision judgement.
pub open spec fn retained(p: Seq<TxRecord>) -> Seq<TxRecord> {
    p.filter(still_needed(p))
}

pub open spec fn still_needed(p: Seq<TxRecord>) -> spec_fn(TxRecord) -> bool {
    |r: TxRecord| !r.finalized || overlaps_unfinished(p, r.window)
}

proof fn lemma_filter_step(s: Seq<TxRecord>, j: int, pred: spec_fn(TxRecord) -> bool)
    requires
        0 <= j < s.len(),
    ensures
        s.take(j + 1).filter(pred) == if pred(s[j]) {
            s.take(j).filter(pred).push(s[j])
        } else {
            s.take(j).filter(pred)
        },
{
    reveal(Seq::filter);
    assert(s.take(j + 1).drop_last() =~= s.take(j));
}

fn copy_tx(t: &ScheduledTx, finalized: bool) -> (r: ScheduledTx)
    ensures
        r@ == (TxRecord { finalized, ..t@ }),
{
    ScheduledTx { node_id: t.node_id.clone(), window: t.window, finalized }
}

proof fn lemma_filter_from_source(s: Seq<TxRecord>, pred: spec_fn(TxRecord) -> bool)
    ensures
        forall|i: int| 0 <= i < s.filter(pred).len() ==> s.contains(#[trigger] s.filter(pred)[i]),
    decreases s.len(),
{
    reveal(Seq::filter);
    if s.len() > 0 {
        let rest = s.drop_last();
        lemma_filter_from_source(rest, pred);
        let out = s.filter(pred);
        assert forall|i: int| 0 <= i < out.len() implies s.contains(#[trigger] out[i]) by {
            if i < rest.filter(pred).len() {
                assert(out[i] == rest.filter(pred)[i]);
                let k = choose|k: int| 0 <= k < rest.len() && rest[k] == out[i];
                assert(s[k] == out[i]);
            } else {
                assert(out[i] == s[s.len() - 1]);
            }
        }
    }
}

/// The records the bus holds after a tick at `now_ms`.
pub open spec fn after_tick(p: Seq<TxRecord>, now_ms: u64) -> Seq<TxRecord> {
    retained(mark_completed(p, now_ms))
}

/// `x` is one of the records `p` held, and it was still on air at `now_ms`.
pub open spec fn held_on_air(p: Seq<TxRecord>, x: TxRecord, now_ms: u64) -> bool {
    &&& tx_end(x.window) > now_ms
    &&& exists|k: int| 0 <= k < p.len() && #[trigger] p[k] == x && !completes_at(p[k], now_ms)
}

/// A transmission is delivered at most once: everything a later tick hands
/// back was held and still on air at the earlier tick, so the earlier tick
/// did not hand it back.
pub proof fn law_delivered_once(p: Seq<TxRecord>, first_ms: u64, later_ms: u64)
    ensures
        forall|i: int| 0 <= i < after_tick(p, first_ms).filter(completing(later_ms)).len()
            ==> held_on_air(p, #[trigger] after_tick(p, first_ms).filter(completing(later_ms))[i], first_ms),
{
    let m = mark_completed(p, first_ms);
    let kept = after_tick(p, first_ms);
    let later = kept.filter(completing(later_ms));
    lemma_filter_from_source(m, still_needed(m));
    lemma_filter_from_source(kept, completing(later_ms));
    kept.filter_lemma(completing(later_ms));
    assert forall|i: int| 0 <= i < later.len() implies held_on_air(p, #[trigger] later[i], first_ms) by {
        let x = later[i];
        assert(completing(later_ms)(x));
        let a = choose|a: int| 0 <= a < kept.len() && kept[a] == x;
        assert(kept.contains(kept[a]));
        let k = choose|k: int| 0 <= k < m.len() && m[k] == kept[a];
        assert(m[k] == x);
        assert(p[k] == x);
    }
}

/// The scheduling state of the radio bus.
pub struct TxScheduler {
    nodes: Vec<(String, u64)>,
    transmissions: Vec<ScheduledTx>,
}

impl TxScheduler {
    /// Node ids are distinct.
    pub closed spec fn wf(&self) -> bool {
        keys_distinct(self.nodes@)
    }

    /// For each registered radio, the instant until which it is transmitting.
    pub closed spec fn busy_until(&self) -> Map<Seq<char>, u64> {
        key_map(self.nodes@)
    }

    /// The transmissions the bus still holds, oldest first.
    pub closed spec fn records(&self) -> Seq<TxRecord> {
        views(self.transmissions@)
    }

    pub fn new() -> (r: Self)
        ensures
            r.wf(),
            r.busy_until() == Map::<Seq<char>, u64>::empty(),
            r.records() == Seq::<TxRecord>::empty(),
    {
        let r = TxScheduler { nodes: Vec::new(), transmissions: Vec::new() };
        assert(r.busy_until() =~= Map::<Seq<char>, u64>::empty());
        assert(r.records() =~= Seq::<TxRecord>::empty());
        r
    }

    /// Registers a radio, or re-registers it idle.
    pub fn register_node(&mut self, node_id: &str)
        requires
            old(self).wf(),
        ensures
            final(self).wf(),
            final(self).busy_until() == old(self).busy_until().insert(node_id@, 0),
            final(self).records() == old(self).records(),
    {
        let ghost old_nodes = self.nodes@;
        match find_key(&self.nodes, node_id) {
            Some(i) => {
                proof { lemma_key_map_update(old_nodes, i as int, 0u64); }
                self.nodes.set(i, (self.nodes[i].0.clone(), 0));
                assert(self.nodes@ =~= old_nodes.update(i as int, (old_nodes[i as int].0, 0u64)));
            },
            None => {
                let id = node_id.to_owned();
                proof { lemma_key_map_push(old_nodes, id, 0u64); }
                self.nodes.push((id, 0));
            },
        }
    }

    /// Removes a radio; its transmissions already on the bus stay.
    pub fn unregister_node(&mut self, node_id: &str)
        requires
            old(self).wf(),
        ensures
            final(self).wf(),
            final(self).busy_until() == old(self).busy_until().remove(node_id@),
            final(self).records() == old(self).records(),
    {
        let ghost old_nodes = self.nodes@;
        match find_key(&self.nodes, node_id) {
            Some(i) => {
                proof {
                    lemma_key_map_remove(old_nodes, i as int);
                    lemma_key_map_at(old_nodes, i as int);
                }
                self.nodes.remove(i);
            },
            None => {
                assert(old(self).busy_until().remove(node_id@) =~= old(self).busy_until());
            },
        }
    }

    /// Schedules a packet on air over `[timestamp_ms, timestamp_ms +
    /// airtime_ms)`. Refused for an unknown radio or one still transmitting
    /// at `timestamp_ms`; otherwise the radio is busy until the packet ends.
    pub fn broadcast(&mut self, node_id: &str, timestamp_ms: u64, airtime_ms: u32) -> (r: bool)
        requires
            old(self).wf(),
        ensures
            final(self).wf(),
            r == (old(self).busy_until().contains_key(node_id@) && timestamp_ms >= old(self).busy_until()[node_id@]),
            r ==> final(self).busy_until() == old(self).busy_until().insert(node_id@, tx_end(TxWindow { timestamp_ms, airtime_ms }) as u64),
            r ==> final(self).records() == old(self).records().push(
                TxRecord { node: node_id@, window: TxWindow { timestamp_ms, airtime_ms }, finalized: false }),
            !r ==> *final(self) == *old(self),
    {
        let ghost old_nodes = self.nodes@;
        match find_key(&self.nodes, node_id) {
            None => false,
            Some(i) => {
                proof { lemma_key_map_at(old_nodes, i as int); }
                if timestamp_ms < self.nodes[i].1 {
                    return false;
                }
                let end = timestamp_ms.saturating_add(airtime_ms as u64);
                proof { lemma_key_map_update(old_nodes, i as int, end); }
                self.nodes.set(i, (self.nodes[i].0.clone(), end));
                assert(self.nodes@ =~= old_nodes.update(i as int, (old_nodes[i as int].0, end)));
                let ghost old_tx = self.transmissions@;
                self.transmissions.push(ScheduledTx {
                    node_id: node_id.to_owned(),
                    window: TxWindow { timestamp_ms, airtime_ms },
                    finalized: false,
                });
                assert(self.records() =~= old(self).records().push(
                    TxRecord { node: node_id@, window: TxWindow { timestamp_ms, airtime_ms }, finalized: false }));
                true
            },
        }
    }

    /// A radio's send is complete once its last packet is off the air; an
    /// unknown radio has none.
    pub fn is_send_complete(&self, node_id: &str, now_ms: u64) -> (r: bool)
        requires
            self.wf(),
        ensures
            r == (self.busy_until().contains_key(node_id@) && now_ms >= self.busy_until()[node_id@]),
    {
        match find_key(&self.nodes, node_id) {
            None => false,
            Some(i) => {
                proof { lemma_key_map_at(self.nodes@, i as int); }
                now_ms >= self.nodes[i].1
            },
        }
    }

    /// The transmissions the bus holds, oldest first: every packet that a
    /// delivery at this moment must weigh for collisions.
    pub fn transmissions(&self) -> (r: &Vec<ScheduledTx>)
        ensures
            views(r@) == self.records(),
    {
        &self.transmissions
    }

    /// Advances radio time to `now_ms`: hands back, oldest first, every
    /// transmission whose airtime is over and that was not delivered yet,
    /// marks those delivered, then drops each delivered transmission that no
    /// undelivered one overlaps.
    pub fn tick(&mut self, now_ms: u64) -> (completed: Vec<ScheduledTx>)
        requires
            old(self).wf(),
        ensures
            final(self).wf(),
            views(completed@) == old(self).records().filter(completing(now_ms)),
            final(self).records() == after_tick(old(self).records(), now_ms),
            final(self).busy_until() == old(self).busy_until(),
    {
        let ghost p = self.records();
        let ghost m = mark_completed(p, now_ms);
        assert(p.len() == self.transmissions@.len());
        assert(m.len() == p.len());
        let mut completed: Vec<ScheduledTx> = Vec::new();
        let mut marked: Vec<ScheduledTx> = Vec::new();
        let n = self.transmissions.len();
        let mut i: usize = 0;
        while i < n
            invariant
                n == self.transmissions@.len(),
                p == views(self.transmissions@),
                m == mark_completed(p, now_ms),
                i <= n,
                p.len() == n,
                m.len() == n,
                marked@.len() == i,
                views(completed@) == p.take(i as int).filter(completing(now_ms)),
                views(marked@) == m.take(i as int),
            decreases n - i,
        {
            let t = &self.transmissions[i];
            let end = t.window.timestamp_ms.saturating_add(t.window.airtime_ms as u64);
            let done = end <= now_ms;
            proof { lemma_filter_step(p, i as int, completing(now_ms)); }
            if !t.finalized && done {
                let c = copy_tx(t, false);
                completed.push(c);
            }
            let k = copy_tx(t, t.finalized || done);
            proof {
                assert(p[i as int] == t@);
                assert(m[i as int] == (TxRecord { finalized: t.finalized || done, ..t@ }));
            }
            let ghost before = marked@;
            marked.push(k);
            assert forall|x: int| 0 <= x < i + 1 implies #[trigger] views(marked@)[x] == m.take(i + 1)[x] by {
                if x < i {
                    assert(marked@[x] == before[x]);
                    assert(views(before)[x] == m.take(i as int)[x]);
                }
            }
            assert(views(completed@) =~= p.take(i + 1).filter(completing(now_ms)));
            assert(views(marked@) =~= m.take(i + 1));
            i = i + 1;
        }
        assert(p.take(n as int) =~= p);
        assert(m.take(n as int) =~= m);
        let mut kept: Vec<ScheduledTx> = Vec::new();
        let mut j: usize = 0;
        while j < n
            invariant
                n == marked@.len(),
                m == views(marked@),
                m.len() == n,
                j <= n,
                views(kept@) == m.take(j as int).filter(still_needed(m)),
            decreases n - j,
        {
            let w = marked[j].window;
            let mut needed = !marked[j].finalized;
            let mut k: usize = 0;
            while k < n && !needed
                invariant
                    n == marked@.len(),
                    m == views(marked@),
                    m.len() == n,
                    j < n,
                    w == m[j as int].window,
                    k <= n,
                    needed == (!m[j as int].finalized || exists|q: int| 0 <= q < k && !m[q].finalized
                        && overlap(w.timestamp_ms, w.airtime_ms, #[trigger] m[q].window.timestamp_ms, m[q].window.airtime_ms)),
                decreases n - k,
            {
                let fin = marked[k].finalized;
                let ov = intervals_overlap(w.timestamp_ms, w.airtime_ms, marked[k].window.timestamp_ms, marked[k].window.airtime_ms);
                assert(m[k as int] == marked@[k as int]@);
                if !fin && ov {
                    needed = true;
                }
                proof {
                    if needed {
                        assert(!m[k as int].finalized && overlap(w.timestamp_ms, w.airtime_ms,
                            m[k as int].window.timestamp_ms, m[k as int].window.airtime_ms));
                    } else {
                        assert forall|q: int| 0 <= q < k + 1 implies !(!m[q].finalized && overlap(w.timestamp_ms,
                            w.airtime_ms, #[trigger] m[q].window.timestamp_ms, m[q].window.airtime_ms)) by {
                        }
                    }
                }
                k = k + 1;
            }
            proof {
                lemma_filter_step(m, j as int, still_needed(m));
                assert(m[j as int] == marked@[j as int]@);
                assert(w == m[j as int].window);
                if needed && m[j as int].finalized {
                    let q = choose|q: int| 0 <= q < k && !m[q].finalized
                        && overlap(w.timestamp_ms, w.airtime_ms, #[trigger] m[q].window.timestamp_ms, m[q].window.airtime_ms);
                    assert(overlaps_unfinished(m, w));
                }
                if !needed {
                    assert(k == n);
                    assert(!overlaps_unfinished(m, w));
                }
                assert(needed == still_needed(m)(m[j as int]));
            }
            if needed {
                kept.push(copy_tx(&marked[j], marked[j].finalized));
            }
            assert(views(kept@) =~= m.take(j + 1).filter(still_needed(m)));
            j = j + 1;
        }
        assert(m.take(n as int) =~= m);
        self.transmissions = kept;
        completed
    }
}

} // verus!
