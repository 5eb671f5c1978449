//! Chip-select arbitration for the SPI host that the T-Deck's display,
//! SX1262 radio and SD card share.

use vstd::prelude::*;

use crate::keyed::{find_key, key_map, keys_distinct, lemma_key_map_at, lemma_key_map_push,
    lemma_key_map_remove, lemma_key_map_update};

verus! {

/// Devices which share the T-Deck SPI host.
#[derive(Clone, Copy, Debug, PartialEq, Eq)]
pub enum SpiDevice {
    Display,
    Sx1262,
    SdCard,
}

/// Why a device could not take the bus.
#[derive(Clone, Copy, Debug, PartialEq, Eq)]
pub enum SpiBusError {
    /// Another device holds chip select.
    Busy { active: SpiDevice },
}

/// Arbitration state of one shared SPI host: which device, if any, drives
/// SCLK/MISO/MOSI. Only one device may own the lines at a time; a
/// transaction takes the bus and gives it back when it ends. There is one
/// arbiter per host and no copies of it: every device of a board transacts
/// on the same one, which the registry holds.
#[derive(Debug)]
pub struct SharedSpiBus {
    owner: Option<SpiDevice>,
}

impl View for SharedSpiBus {
    type V = Option<SpiDevice>;

    closed spec fn view(&self) -> Option<SpiDevice> {
        self.owner
    }
}

impl Default for SharedSpiBus {
    fn default() -> (bus: Self)
        ensures
            bus@ is None,
    {
        SharedSpiBus { owner: None }
    }
}

impl SharedSpiBus {
    /// Takes chip select for `device` when the bus is free.
    pub fn acquire(&mut self, device: SpiDevice) -> (r: Result<(), SpiBusError>)
        ensures
            match old(self)@ {
                Some(active) => r == Err::<(), SpiBusError>(SpiBusError::Busy { active }) && final(self)@ == old(self)@,
                None => r is Ok && final(self)@ == Some(device),
            },
        no_unwind
    {
        match self.owner {
            Some(active) => Err(SpiBusError::Busy { active }),
            None => {
                self.owner = Some(device);
                Ok(())
            },
        }
    }

    /// Releases chip select, whoever held it.
    pub fn release(&mut self)
        ensures
            final(self)@ is None,
        no_unwind
    {
        self.owner = None;
    }

    /// Runs `transfer` with the bus owned by `device`, then frees the bus.
    /// Refused, without running `transfer`, while another device owns it.
    /// The transfer sees the bus, owned by `device`; while it runs the bus is
    /// borrowed, so no other transaction can start on it.
    pub fn transaction<T, F: FnOnce(&SharedSpiBus) -> T>(&mut self, device: SpiDevice, transfer: F) -> (r: Result<T, SpiBusError>)
        requires
            old(self)@ is None ==> forall|b: &SharedSpiBus| b@ == Some(device) ==> #[trigger] call_requires(transfer, (b,)),
        ensures
            final(self)@ == old(self)@,
            match old(self)@ {
                Some(active) => r == Err::<T, SpiBusError>(SpiBusError::Busy { active }),
                None => r is Ok && exists|b: SharedSpiBus| b@ == Some(device) && #[trigger] call_ensures(transfer, (&b,), r->Ok_0),
            },
    {
        match self.acquire(device) {
            Err(e) => Err(e),
            Ok(()) => {
                let ghost held = *self;
                let value = transfer(&*self);
                self.release();
                let r: Result<T, SpiBusError> = Ok(value);
                assert(call_ensures(transfer, (&held,), r->Ok_0));
                r
            },
        }
    }

    pub fn owner(&self) -> (r: Option<SpiDevice>)
        ensures
            r == self@,
    {
        self.owner
    }
}

/// Mathematical state of the per-instance SPI arbiters.
pub struct SpiBusRegistryView {
    pub buses: Map<Seq<char>, Option<SpiDevice>>,
    pub current: Option<Seq<char>>,
    pub legacy: Option<SpiDevice>,
}

/// One independent SPI arbiter per virtual board, the instance that
/// compatibility display constructors are bound to, and the arbiter they use
/// when no instance is selected.
pub struct SpiBusRegistry {
    buses: Vec<(String, SharedSpiBus)>,
    current: Option<String>,
    legacy: SharedSpiBus,
}

impl View for SpiBusRegistry {
    type V = SpiBusRegistryView;

    closed spec fn view(&self) -> SpiBusRegistryView {
        SpiBusRegistryView {
            buses: key_map(self.buses@).map_values(|b: SharedSpiBus| b@),
            current: match self.current {
                Some(id) => Some(id@),
                None => None,
            },
            legacy: self.legacy@,
        }
    }
}

/// The owner that a fresh or registered arbiter of `id` has.
pub open spec fn bus_state(reg: SpiBusRegistryView, id: Seq<char>) -> Option<SpiDevice> {
    if reg.buses.contains_key(id) {
        reg.buses[id]
    } else {
        None
    }
}

impl SpiBusRegistry {
    /// No instance entry repeats an id.
    pub closed spec fn wf(&self) -> bool {
        keys_distinct(self.buses@)
    }

    pub fn new() -> (r: Self)
        ensures
            r.wf(),
            r@.buses == Map::<Seq<char>, Option<SpiDevice>>::empty(),
            r@.current is None,
            r@.legacy is None,
    {
        let r = SpiBusRegistry { buses: Vec::new(), current: None, legacy: SharedSpiBus::default() };
        assert(r@.buses =~= Map::<Seq<char>, Option<SpiDevice>>::empty());
        r
    }

    /// Selects the arbiter used by compatibility display constructors.
    pub fn set_current_instance(&mut self, instance_id: &str)
        ensures
            final(self).wf() == old(self).wf(),
            final(self)@.current == Some(instance_id@),
            final(self)@.buses == old(self)@.buses,
            final(self)@.legacy == old(self)@.legacy,
    {
        self.current = Some(instance_id.to_owned());
    }

    /// The arbiter of one virtual board, created free on first use.
    pub fn spi_bus_for_instance(&mut self, instance_id: &str) -> (bus: &mut SharedSpiBus)
        requires
            old(self).wf(),
        ensures
            final(self).wf(),
            bus@ == bus_state(old(self)@, instance_id@),
            final(self)@.buses == old(self)@.buses.insert(instance_id@, final(bus)@),
            final(self)@.current == old(self)@.current,
            final(self)@.legacy == old(self)@.legacy,
    {
        let ghost old_buses = self.buses@;
        let i = match find_key(&self.buses, instance_id) {
            Some(i) => {
                proof { lemma_key_map_at(old_buses, i as int); }
                i
            },
            None => {
                self.buses.push((instance_id.to_owned(), SharedSpiBus::default()));
                proof {
                    lemma_key_map_push(old_buses, self.buses@.last().0, self.buses@.last().1);
                    assert(self.buses@ == old_buses.push((self.buses@.last().0, self.buses@.last().1)));
                }
                self.buses.len() - 1
            },
        };
        let ghost mid = self.buses@;
        assert(mid[i as int].0@ == instance_id@);
        assert(key_map(mid).map_values(|b: SharedSpiBus| b@) =~= old(self)@.buses.insert(instance_id@, mid[i as int].1@));
        let entry = &mut self.buses[i];
        proof {
            lemma_key_map_update(mid, i as int, final(entry).1);
        }
        &mut entry.1
    }

    /// Drops an instance's arbiter; a later lookup starts a free one.
    pub fn remove_instance(&mut self, instance_id: &str)
        requires
            old(self).wf(),
        ensures
            final(self).wf(),
            final(self)@.buses == old(self)@.buses.remove(instance_id@),
            final(self)@.current == old(self)@.current,
            final(self)@.legacy == old(self)@.legacy,
    {
        match find_key(&self.buses, instance_id) {
            Some(i) => {
                let ghost old_buses = self.buses@;
                proof { lemma_key_map_remove(old_buses, i as int); }
                self.buses.remove(i);
                assert(self@.buses =~= old(self)@.buses.remove(instance_id@));
            },
            None => {
                assert(old(self)@.buses.remove(instance_id@) =~= old(self)@.buses);
            },
        }
    }

    /// The arbiter of the current instance, or the compatibility arbiter
    /// when no instance was selected.
    pub fn global_spi_bus(&mut self) -> (bus: &mut SharedSpiBus)
        requires
            old(self).wf(),
        ensures
            final(self).wf(),
            final(self)@.current == old(self)@.current,
            match old(self)@.current {
                Some(id) => {
                    &&& bus@ == bus_state(old(self)@, id)
                    &&& final(self)@.buses == old(self)@.buses.insert(id, final(bus)@)
                    &&& final(self)@.legacy == old(self)@.legacy
                },
                None => {
                    &&& bus@ == old(self)@.legacy
                    &&& final(self)@.buses == old(self)@.buses
                    &&& final(self)@.legacy == final(bus)@
                },
            },
    {
        match &self.current {
            Some(id) => {
                let id = id.clone();
                self.spi_bus_for_instance(id.as_str())
            },
            None => &mut self.legacy,
        }
    }
}

/// The arbiters of different instances are independent: whatever one of
/// them does leaves every other instance's bus as it was.
pub proof fn law_instance_buses_are_independent(
    reg: SpiBusRegistryView,
    changed: Seq<char>,
    owner: Option<SpiDevice>,
    other: Seq<char>,
)
    requires
        changed != other,
    ensures
        bus_state(SpiBusRegistryView { buses: reg.buses.insert(changed, owner), ..reg }, other) == bus_state(reg, other),
{
}

/// The code firmware reads for the device holding a bus: 0 for none, then
/// 1, 2 and 3 for the display, the SX1262 radio and the SD card.
pub fn owner_code(owner: Option<SpiDevice>) -> (c: u8)
    ensures
        c == match owner {
            None => 0u8,
            Some(SpiDevice::Display) => 1u8,
            Some(SpiDevice::Sx1262) => 2u8,
            Some(SpiDevice::SdCard) => 3u8,
        },
{
    match owner {
        None => 0,
        Some(SpiDevice::Display) => 1,
        Some(SpiDevice::Sx1262) => 2,
        Some(SpiDevice::SdCard) => 3,
    }
}


} // verus!
