//! The emulator's instance bookkeeping: the simulation clock, instance ids,
//! and the order in which an instance's resources are torn down.

use vstd::prelude::*;

use crate::keyed::has_key;
use crate::nvs::{LAUNCHER_NVS_SIZE, STANDALONE_NVS_SIZE};
use crate::sorted::{lemma_sorted_insert, lemma_sorted_remove, locate, sorted_by_key};
use crate::text::{decimal, push_decimal};

verus! {

/// Default battery voltage of a new instance, in millivolts.
pub fn default_battery_mv() -> (mv: u16)
    ensures
        mv == 3_700,
{
    3_700
}

/// Board settings of a new instance.
#[derive(Clone, Copy, Debug, PartialEq, Eq)]
pub struct InstanceBoardConfig {
    pub battery_mv: u16,
    /// Whether the instance runs under bmorcelli/Launcher.
    pub launcher_mode: bool,
}

impl Default for InstanceBoardConfig {
    fn default() -> (c: Self)
        ensures
            c == (InstanceBoardConfig { battery_mv: 3_700, launcher_mode: false }),
    {
        InstanceBoardConfig { battery_mv: default_battery_mv(), launcher_mode: false }
    }
}

impl InstanceBoardConfig {
    /// The NVS geometry that matches the instance's partition layout.
    pub fn nvs_partition_size(&self) -> (size: u32)
        ensures
            size == (if self.launcher_mode { LAUNCHER_NVS_SIZE } else { STANDALONE_NVS_SIZE }),
    {
        if self.launcher_mode {
            LAUNCHER_NVS_SIZE
        } else {
            STANDALONE_NVS_SIZE
        }
    }
}

/// What a listing reports of one instance.
#[derive(Clone, Debug, PartialEq, Eq)]
pub struct InstanceInfo {
    pub id: String,
    pub running: bool,
    pub has_display: bool,
}

/// The one monotonic clock used by the core runtime: an absolute simulation
/// timestamp in milliseconds.
#[derive(Clone, Copy, Debug, PartialEq, Eq)]
pub struct SimulationClock {
    now_ms: u64,
}

impl View for SimulationClock {
    type V = u64;

    closed spec fn view(&self) -> u64 {
        self.now_ms
    }
}

impl Default for SimulationClock {
    fn default() -> (c: Self)
        ensures
            c@ == 0,
    {
        SimulationClock { now_ms: 0 }
    }
}

impl SimulationClock {
    pub fn now_ms(self) -> (t: u64)
        ensures
            t == self@,
    {
        self.now_ms
    }

    /// Moves the clock forward by `delta_ms`, saturating at `u64::MAX`.
    pub fn advance_by(&mut self, delta_ms: u64) -> (t: u64)
        ensures
            t == final(self)@,
            final(self)@ == (if old(self)@ + delta_ms > u64::MAX { u64::MAX as int } else { old(self)@ + delta_ms }),
    {
        self.now_ms = self.now_ms.saturating_add(delta_ms);
        self.now_ms
    }

    /// Moves the clock to `now_ms`; earlier timestamps are ignored.
    pub fn advance_to(&mut self, now_ms: u64) -> (t: u64)
        ensures
            t == final(self)@,
            final(self)@ == (if now_ms > old(self)@ { now_ms } else { old(self)@ }),
    {
        if now_ms > self.now_ms {
            self.now_ms = now_ms;
        }
        self.now_ms
    }
}

/// The simulation clock never runs backwards, whichever way it is advanced.
pub proof fn law_clock_is_monotonic(before: u64, delta_ms: u64, target_ms: u64)
    ensures
        before <= (if before + delta_ms > u64::MAX { u64::MAX as int } else { before + delta_ms }),
        before <= (if target_ms > before { target_ms } else { before }),
{
}

/// What one teardown step must do, in this order: stop the firmware, then
/// release the host-side registrations.
#[derive(Clone, Copy, Debug, PartialEq, Eq)]
pub struct TeardownPlan {
    pub stop_firmware: bool,
    pub release_host_resources: bool,
}

/// Tracks the registrations created for one instance so that teardown stops
/// firmware before the host-side registries are removed, each exactly once.
pub struct InstanceResourceRegistry {
    id: String,
    host_resources_registered: bool,
    firmware_stopped: bool,
}

pub struct ResourceView {
    pub id: Seq<char>,
    pub host_resources_registered: bool,
    pub firmware_stopped: bool,
}

impl View for InstanceResourceRegistry {
    type V = ResourceView;

    closed spec fn view(&self) -> ResourceView {
        ResourceView {
            id: self.id@,
            host_resources_registered: self.host_resources_registered,
            firmware_stopped: self.firmware_stopped,
        }
    }
}

/// The steps a teardown of `r` still owes.
pub open spec fn teardown_plan(r: ResourceView) -> TeardownPlan {
    TeardownPlan { stop_firmware: !r.firmware_stopped, release_host_resources: r.host_resources_registered }
}

/// The registrations after a teardown.
pub open spec fn after_teardown(r: ResourceView) -> ResourceView {
    ResourceView { host_resources_registered: false, firmware_stopped: true, ..r }
}

impl InstanceResourceRegistry {
    /// A running instance whose host resources are registered.
    pub fn new(id: &str) -> (r: Self)
        ensures
            r@ == (ResourceView { id: id@, host_resources_registered: true, firmware_stopped: false }),
    {
        InstanceResourceRegistry { id: id.to_owned(), host_resources_registered: true, firmware_stopped: false }
    }

    pub fn id(&self) -> (r: &str)
        ensures
            r@ == self@.id,
    {
        self.id.as_str()
    }

    /// The steps still owed; afterwards everything counts as done.
    pub fn teardown(&mut self) -> (plan: TeardownPlan)
        ensures
            plan == teardown_plan(old(self)@),
            final(self)@ == after_teardown(old(self)@),
    {
        let plan = TeardownPlan {
            stop_firmware: !self.firmware_stopped,
            release_host_resources: self.host_resources_registered,
        };
        self.firmware_stopped = true;
        self.host_resources_registered = false;
        plan
    }
}

/// Why an instance could not be spawned or killed.
#[derive(Clone, Copy, Debug, PartialEq, Eq)]
pub enum InstanceError {
    /// An explicit instance id must not be empty.
    EmptyId,
    /// The id is already in use.
    AlreadyExists,
    /// No instance has that id.
    Unknown,
}

/// The generated id `node<k>`.
pub open spec fn node_id(k: nat) -> Seq<char> {
    "node"@ + decimal(k)
}

/// Mathematical state of the instance directory.
pub struct DirectoryView {
    /// Ids of live instances, in byte order.
    pub ids: Seq<Seq<char>>,
    pub next_id: u64,
    pub clock: u64,
}

/// The ids of the live instances, the counter for generated ids and the
/// central simulation clock.
pub struct InstanceDirectory {
    ids: Vec<(String, ())>,
    next_id: u64,
    clock: SimulationClock,
}

impl View for InstanceDirectory {
    type V = DirectoryView;

    closed spec fn view(&self) -> DirectoryView {
        DirectoryView {
            ids: Seq::new(self.ids@.len(), |i: int| self.ids@[i].0@),
            next_id: self.next_id,
            clock: self.clock@,
        }
    }
}

impl InstanceDirectory {
    pub closed spec fn wf(&self) -> bool {
        sorted_by_key(self.ids@)
    }

    /// No instances; generated ids start at `node1`.
    pub fn new() -> (d: Self)
        ensures
            d.wf(),
            d@ == (DirectoryView { ids: Seq::empty(), next_id: 1, clock: 0 }),
    {
        let d = InstanceDirectory { ids: Vec::new(), next_id: 1, clock: SimulationClock::default() };
        assert(d@.ids =~= Seq::<Seq<char>>::empty());
        d
    }

    /// Sets the counter from which generated ids are tried.
    pub fn set_next_id(&mut self, next_id: u64)
        requires
            old(self).wf(),
        ensures
            final(self).wf(),
            final(self)@ == (DirectoryView { next_id, ..old(self)@ }),
    {
        self.next_id = next_id;
    }

    pub fn contains(&self, id: &str) -> (r: bool)
        requires
            self.wf(),
        ensures
            r == self@.ids.contains(id@),
    {
        match locate(&self.ids, id) {
            Ok(i) => {
                assert(self@.ids[i as int] == id@);
                true
            },
            Err(_) => {
                assert forall|j: int| 0 <= j < self@.ids.len() implies self@.ids[j] != id@ by {
                    assert(self@.ids[j] == self.ids@[j].0@);
                }
                false
            },
        }
    }

    /// The live ids in byte order.
    pub fn list(&self) -> (r: Vec<String>)
        ensures
            r@.len() == self@.ids.len(),
            forall|i: int| 0 <= i < r@.len() ==> #[trigger] r@[i]@ == self@.ids[i],
    {
        let mut r: Vec<String> = Vec::new();
        let mut i: usize = 0;
        while i < self.ids.len()
            invariant
                i <= self.ids@.len(),
                r@.len() == i,
                forall|j: int| 0 <= j < i ==> #[trigger] r@[j]@ == self@.ids[j],
            decreases self.ids@.len() - i,
        {
            r.push(self.ids[i].0.clone());
            i = i + 1;
        }
        r
    }

    /// The next generated id `node<k>` not in use, for the least such
    /// `k` from the counter on; the counter moves past it.
    pub fn next_available_id(&mut self) -> (id: String)
        requires
            old(self).wf(),
            exists|k: nat| old(self)@.next_id <= k < u64::MAX && !old(self)@.ids.contains(#[trigger] node_id(k)),
        ensures
            final(self).wf(),
            exists|k: nat|
                #![trigger node_id(k)]
                old(self)@.next_id <= k < u64::MAX && id@ == node_id(k) && !old(self)@.ids.contains(node_id(k))
                    && (forall|j: nat| old(self)@.next_id <= j < k ==> old(self)@.ids.contains(#[trigger] node_id(j)))
                    && final(self)@ == (DirectoryView { next_id: (k + 1) as u64, ..old(self)@ }),
    {
        loop
            invariant
                self.wf(),
                self@.ids == old(self)@.ids,
                self@.clock == old(self)@.clock,
                old(self)@.next_id <= self@.next_id,
                forall|j: nat| old(self)@.next_id <= j < self@.next_id ==> old(self)@.ids.contains(#[trigger] node_id(j)),
                exists|k: nat| self@.next_id <= k < u64::MAX && !old(self)@.ids.contains(#[trigger] node_id(k)),
            decreases u64::MAX - self.next_id,
        {
            let mut id = String::new();
            id.append("node");
            push_decimal(&mut id, self.next_id, 0);
            proof {
                reveal_strlit("node");
            }
            assert(id@ == node_id(self.next_id as nat));
            let ghost k = self.next_id as nat;
            let taken = self.contains(id.as_str());
            if !taken {
                self.next_id = self.next_id + 1;
                return id;
            }
            proof {
                let w = choose|w: nat| self@.next_id <= w < u64::MAX && !old(self)@.ids.contains(#[trigger] node_id(w));
                assert(w != k);
            }
            self.next_id = self.next_id + 1;
        }
    }

    /// The id for a new instance: the requested one, which must be
    /// non-empty and unused, or the next generated one.
    pub fn choose_id(&mut self, requested: Option<&str>) -> (r: Result<String, InstanceError>)
        requires
            old(self).wf(),
            requested is None ==> exists|k: nat| old(self)@.next_id <= k < u64::MAX && !old(self)@.ids.contains(
                #[trigger] node_id(k),
            ),
        ensures
            final(self).wf(),
            match requested {
                Some(want) => {
                    &&& final(self)@ == old(self)@
                    &&& want@.len() == 0 ==> r == Err::<String, InstanceError>(InstanceError::EmptyId)
                    &&& want@.len() > 0 && old(self)@.ids.contains(want@) ==> r == Err::<String, InstanceError>(
                        InstanceError::AlreadyExists,
                    )
                    &&& want@.len() > 0 && !old(self)@.ids.contains(want@) ==> r is Ok && r->Ok_0@ == want@
                },
                None => r is Ok && !old(self)@.ids.contains(r->Ok_0@) && final(self)@.ids == old(self)@.ids,
            },
    {
        match requested {
            Some(want) => {
                if want.unicode_len() == 0 {
                    return Err(InstanceError::EmptyId);
                }
                if self.contains(want) {
                    return Err(InstanceError::AlreadyExists);
                }
                Ok(want.to_owned())
            },
            None => Ok(self.next_available_id()),
        }
    }

    /// Records a started instance.
    pub fn register(&mut self, id: &str) -> (r: bool)
        requires
            old(self).wf(),
        ensures
            final(self).wf(),
            r == !old(self)@.ids.contains(id@),
            final(self)@.next_id == old(self)@.next_id,
            final(self)@.clock == old(self)@.clock,
            r ==> final(self)@.ids.to_set() == old(self)@.ids.to_set().insert(id@),
            !r ==> final(self)@ == old(self)@,
    {
        match locate(&self.ids, id) {
            Ok(i) => {
                assert(self@.ids[i as int] == id@);
                false
            },
            Err(p) => {
                let ghost before = self.ids@;
                let entry = (id.to_owned(), ());
                proof { lemma_sorted_insert(before, p as int, entry.0, entry.1); }
                self.ids.insert(p, entry);
                proof {
                    assert forall|j: int| 0 <= j < before.len() implies before[j].0@ != id@ by {
                        assert(!(before[j].0@ == id@) || has_key(before, id@));
                    }
                    assert(self@.ids =~= old(self)@.ids.insert(p as int, id@));
                    assert(!old(self)@.ids.contains(id@)) by {
                        if old(self)@.ids.contains(id@) {
                            let j = choose|j: int| 0 <= j < old(self)@.ids.len() && old(self)@.ids[j] == id@;
                            assert(before[j].0@ == id@);
                        }
                    }
                    assert(self@.ids.to_set() =~= old(self)@.ids.to_set().insert(id@)) by {
                        assert forall|x: Seq<char>| self@.ids.contains(x) <==> (old(self)@.ids.contains(x) || x == id@) by {
                            if self@.ids.contains(x) {
                                let j = choose|j: int| 0 <= j < self@.ids.len() && self@.ids[j] == x;
                                if j < p {
                                    assert(old(self)@.ids[j] == x);
                                } else if j > p {
                                    assert(old(self)@.ids[j - 1] == x);
                                }
                            }
                            if old(self)@.ids.contains(x) {
                                let j = choose|j: int| 0 <= j < old(self)@.ids.len() && old(self)@.ids[j] == x;
                                if j < p {
                                    assert(self@.ids[j] == x);
                                } else {
                                    assert(self@.ids[j + 1] == x);
                                }
                            }
                            if x == id@ {
                                assert(self@.ids[p as int] == x);
                            }
                        }
                    }
                }
                true
            },
        }
    }

    /// Forgets a killed instance; unknown ids are an error.
    pub fn kill(&mut self, id: &str) -> (r: Result<(), InstanceError>)
        requires
            old(self).wf(),
        ensures
            final(self).wf(),
            final(self)@.next_id == old(self)@.next_id,
            final(self)@.clock == old(self)@.clock,
            r is Ok == old(self)@.ids.contains(id@),
            r is Err ==> r == Err::<(), InstanceError>(InstanceError::Unknown) && final(self)@ == old(self)@,
            r is Ok ==> !final(self)@.ids.contains(id@) && final(self)@.ids.to_set() == old(self)@.ids.to_set().remove(id@),
    {
        match locate(&self.ids, id) {
            Ok(i) => {
                let ghost before = self.ids@;
                proof { lemma_sorted_remove(before, i as int); }
                self.ids.remove(i);
                proof {
                    assert(old(self)@.ids[i as int] == id@);
                    assert(self@.ids =~= old(self)@.ids.remove(i as int));
                    crate::sorted::lemma_sorted_distinct(before);
                    assert forall|x: Seq<char>| self@.ids.contains(x) <==> (old(self)@.ids.contains(x) && x != id@) by {
                        if self@.ids.contains(x) {
                            let j = choose|j: int| 0 <= j < self@.ids.len() && self@.ids[j] == x;
                            let oj = if j < i { j } else { j + 1 };
                            assert(old(self)@.ids[oj] == x);
                            assert(before[oj].0@ == x && before[i as int].0@ == id@);
                        }
                        if old(self)@.ids.contains(x) && x != id@ {
                            let j = choose|j: int| 0 <= j < old(self)@.ids.len() && old(self)@.ids[j] == x;
                            assert(j != i);
                            if j < i {
                                assert(self@.ids[j] == x);
                            } else {
                                assert(self@.ids[j - 1] == x);
                            }
                        }
                    }
                    assert(self@.ids.to_set() =~= old(self)@.ids.to_set().remove(id@));
                }
                Ok(())
            },
            Err(_) => {
                assert(!old(self)@.ids.contains(id@)) by {
                    if old(self)@.ids.contains(id@) {
                        let j = choose|j: int| 0 <= j < old(self)@.ids.len() && old(self)@.ids[j] == id@;
                        assert(self.ids@[j].0@ == id@);
                    }
                }
                Err(InstanceError::Unknown)
            },
        }
    }

    pub fn simulation_now_ms(&self) -> (t: u64)
        ensures
            t == self@.clock,
    {
        self.clock.now_ms()
    }

    /// Advances the clock by one frame; returns the new timestamp and the
    /// delta that every instance is ticked by.
    pub fn tick_all_with_delta(&mut self, delta_ms: u64) -> (r: (u64, u64))
        requires
            old(self).wf(),
        ensures
            final(self).wf(),
            r.1 == delta_ms,
            r.0 == final(self)@.clock,
            final(self)@ == (DirectoryView {
                clock: (if old(self)@.clock + delta_ms > u64::MAX { u64::MAX as int } else { old(self)@.clock + delta_ms }) as u64,
                ..old(self)@
            }),
    {
        let now = self.clock.advance_by(delta_ms);
        (now, delta_ms)
    }

    /// Advances the clock to an absolute timestamp (earlier ones are
    /// ignored); returns the delta that every instance is ticked by.
    pub fn tick_all_at(&mut self, now_ms: u64) -> (delta: u64)
        requires
            old(self).wf(),
        ensures
            final(self).wf(),
            final(self)@ == (DirectoryView { clock: if now_ms > old(self)@.clock { now_ms } else { old(self)@.clock }, ..old(self)@ }),
            delta == final(self)@.clock - old(self)@.clock,
    {
        let previous = self.clock.now_ms();
        let now = self.clock.advance_to(now_ms);
        now - previous
    }
}

/// Teardown happens once: a second teardown asks for nothing.
pub proof fn law_teardown_is_idempotent(r: ResourceView)
    ensures
        teardown_plan(after_teardown(r)) == (TeardownPlan { stop_firmware: false, release_host_resources: false }),
        after_teardown(after_teardown(r)) == after_teardown(r),
{
}

} // verus!
