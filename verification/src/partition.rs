//! ESP32 flash partition tables seen by a virtual T-Deck firmware instance.

use vstd::prelude::*;

pub use crate::nvs::{LAUNCHER_NVS_SIZE, STANDALONE_NVS_SIZE};

use crate::keyed::{find_key, key_map, keys_distinct, lemma_key_map_at, lemma_key_map_push, lemma_key_map_remove, lemma_key_map_update};

verus! {

pub const ESP_PARTITION_TYPE_APP: u8 = 0x00;
pub const ESP_PARTITION_TYPE_DATA: u8 = 0x01;

pub const ESP_PARTITION_SUBTYPE_DATA_OTA: u8 = 0x00;
pub const ESP_PARTITION_SUBTYPE_DATA_PHY: u8 = 0x01;
pub const ESP_PARTITION_SUBTYPE_DATA_NVS: u8 = 0x02;
pub const ESP_PARTITION_SUBTYPE_DATA_COREDUMP: u8 = 0x03;
pub const ESP_PARTITION_SUBTYPE_DATA_SPIFFS: u8 = 0x82;

pub const ESP_PARTITION_SUBTYPE_APP_OTA_0: u8 = 0x10;
pub const ESP_PARTITION_SUBTYPE_APP_OTA_1: u8 = 0x11;
pub const ESP_PARTITION_SUBTYPE_APP_TEST: u8 = 0x20;

pub const STANDALONE_OTADATA_ADDRESS: u32 = 0xE000;
pub const LAUNCHER_OTADATA_ADDRESS: u32 = 0xD000;

/// Mathematical content of one partition entry.
pub struct PartitionEntry {
    pub name: Seq<char>,
    pub partition_type: u8,
    pub subtype: u8,
    pub address: u32,
    pub size: u32,
}

pub open spec fn entry(name: Seq<char>, partition_type: u8, subtype: u8, address: u32, size: u32) -> PartitionEntry {
    PartitionEntry { name, partition_type, subtype, address, size }
}

#[derive(Clone, Debug, Eq, PartialEq)]
pub struct VirtualPartition {
    pub name: String,
    pub partition_type: u8,
    pub subtype: u8,
    pub address: u32,
    pub size: u32,
}

impl View for VirtualPartition {
    type V = PartitionEntry;

    open spec fn view(&self) -> PartitionEntry {
        entry(self.name@, self.partition_type, self.subtype, self.address, self.size)
    }
}

impl VirtualPartition {
    pub fn new(name: &str, partition_type: u8, subtype: u8, address: u32, size: u32) -> (p: Self)
        ensures
            p@ == entry(name@, partition_type, subtype, address, size),
    {
        VirtualPartition { name: name.to_owned(), partition_type, subtype, address, size }
    }

    fn duplicate(&self) -> (p: Self)
        ensures
            p@ == self@,
    {
        VirtualPartition {
            name: self.name.clone(),
            partition_type: self.partition_type,
            subtype: self.subtype,
            address: self.address,
            size: self.size,
        }
    }
}


pub open spec fn matches_kind(e: PartitionEntry, partition_type: u8, subtype: u8) -> bool {
    e.partition_type == partition_type && e.subtype == subtype
}

/// The first entry of `entries` with the given type and subtype.
pub open spec fn find_first_spec(entries: Seq<PartitionEntry>, partition_type: u8, subtype: u8) -> Option<PartitionEntry>
    decreases entries.len(),
{
    if entries.len() == 0 {
        None
    } else if matches_kind(entries[0], partition_type, subtype) {
        Some(entries[0])
    } else {
        find_first_spec(entries.drop_first(), partition_type, subtype)
    }
}

pub open spec fn otadata_address_spec(entries: Seq<PartitionEntry>) -> Option<u32> {
    match find_first_spec(entries, ESP_PARTITION_TYPE_DATA, ESP_PARTITION_SUBTYPE_DATA_OTA) {
        Some(e) => Some(e.address),
        None => None,
    }
}

/// SigurdOS/Wadamesh's dual-signal Launcher check: a `test` app partition and
/// the Launcher's otadata address.
pub open spec fn under_launcher_spec(entries: Seq<PartitionEntry>) -> bool {
    find_first_spec(entries, ESP_PARTITION_TYPE_APP, ESP_PARTITION_SUBTYPE_APP_TEST) is Some
        && otadata_address_spec(entries) == Some(LAUNCHER_OTADATA_ADDRESS)
}

/// Arduino `default_16MB.csv`, including the trailing coredump partition.
pub open spec fn standalone_layout() -> Seq<PartitionEntry> {
    seq![
        entry("nvs"@, ESP_PARTITION_TYPE_DATA, ESP_PARTITION_SUBTYPE_DATA_NVS, 0x9000, STANDALONE_NVS_SIZE),
        entry("otadata"@, ESP_PARTITION_TYPE_DATA, ESP_PARTITION_SUBTYPE_DATA_OTA, STANDALONE_OTADATA_ADDRESS, 0x2000),
        entry("app0"@, ESP_PARTITION_TYPE_APP, ESP_PARTITION_SUBTYPE_APP_OTA_0, 0x10000, 0x640000),
        entry("app1"@, ESP_PARTITION_TYPE_APP, ESP_PARTITION_SUBTYPE_APP_OTA_1, 0x650000, 0x640000),
        entry("spiffs"@, ESP_PARTITION_TYPE_DATA, ESP_PARTITION_SUBTYPE_DATA_SPIFFS, 0xC90000, 0x360000),
        entry("coredump"@, ESP_PARTITION_TYPE_DATA, ESP_PARTITION_SUBTYPE_DATA_COREDUMP, 0xFF0000, 0x10000),
    ]
}

/// Launcher's resident `custom_16Mb.csv` layout.
pub open spec fn launcher_layout() -> Seq<PartitionEntry> {
    seq![
        entry("nvs"@, ESP_PARTITION_TYPE_DATA, ESP_PARTITION_SUBTYPE_DATA_NVS, 0x9000, LAUNCHER_NVS_SIZE),
        entry("otadata"@, ESP_PARTITION_TYPE_DATA, ESP_PARTITION_SUBTYPE_DATA_OTA, LAUNCHER_OTADATA_ADDRESS, 0x2000),
        entry("phy_init"@, ESP_PARTITION_TYPE_DATA, ESP_PARTITION_SUBTYPE_DATA_PHY, 0xF000, 0x1000),
        entry("app0"@, ESP_PARTITION_TYPE_APP, ESP_PARTITION_SUBTYPE_APP_TEST, 0x10000, 0x180000),
        entry("coredump"@, ESP_PARTITION_TYPE_DATA, ESP_PARTITION_SUBTYPE_DATA_COREDUMP, 0x190000, 0x10000),
    ]
}

pub open spec fn layout_for(launcher_mode: bool) -> Seq<PartitionEntry> {
    if launcher_mode { launcher_layout() } else { standalone_layout() }
}

/// The flash partition table visible to one virtual T-Deck firmware instance.
#[derive(Clone, Debug, Eq, PartialEq)]
pub struct VirtualPartitionTable {
    partitions: Vec<VirtualPartition>,
}

impl View for VirtualPartitionTable {
    type V = Seq<PartitionEntry>;

    closed spec fn view(&self) -> Seq<PartitionEntry> {
        self.partitions@.map_values(|p: VirtualPartition| p@)
    }
}

impl VirtualPartitionTable {
    /// Arduino `default_16MB.csv`, including the trailing coredump partition.
    pub fn standalone() -> (t: Self)
        ensures
            t@ == standalone_layout(),
    {
        let partitions = vec![
            VirtualPartition::new("nvs", ESP_PARTITION_TYPE_DATA, ESP_PARTITION_SUBTYPE_DATA_NVS, 0x9000, STANDALONE_NVS_SIZE),
            VirtualPartition::new("otadata", ESP_PARTITION_TYPE_DATA, ESP_PARTITION_SUBTYPE_DATA_OTA, STANDALONE_OTADATA_ADDRESS, 0x2000),
            VirtualPartition::new("app0", ESP_PARTITION_TYPE_APP, ESP_PARTITION_SUBTYPE_APP_OTA_0, 0x10000, 0x640000),
            VirtualPartition::new("app1", ESP_PARTITION_TYPE_APP, ESP_PARTITION_SUBTYPE_APP_OTA_1, 0x650000, 0x640000),
            VirtualPartition::new("spiffs", ESP_PARTITION_TYPE_DATA, ESP_PARTITION_SUBTYPE_DATA_SPIFFS, 0xC90000, 0x360000),
            VirtualPartition::new("coredump", ESP_PARTITION_TYPE_DATA, ESP_PARTITION_SUBTYPE_DATA_COREDUMP, 0xFF0000, 0x10000),
        ];
        let t = VirtualPartitionTable { partitions };
        assert(t@ =~= standalone_layout());
        t
    }

    /// Launcher's resident `custom_16Mb.csv` layout.
    ///
    /// Installed applications and their SPIFFS partitions are placed
    /// dynamically after this resident region; the invariant entries used for
    /// runtime detection are represented exactly here.
    pub fn launcher() -> (t: Self)
        ensures
            t@ == launcher_layout(),
    {
        let partitions = vec![
            VirtualPartition::new("nvs", ESP_PARTITION_TYPE_DATA, ESP_PARTITION_SUBTYPE_DATA_NVS, 0x9000, LAUNCHER_NVS_SIZE),
            VirtualPartition::new("otadata", ESP_PARTITION_TYPE_DATA, ESP_PARTITION_SUBTYPE_DATA_OTA, LAUNCHER_OTADATA_ADDRESS, 0x2000),
            VirtualPartition::new("phy_init", ESP_PARTITION_TYPE_DATA, ESP_PARTITION_SUBTYPE_DATA_PHY, 0xF000, 0x1000),
            VirtualPartition::new("app0", ESP_PARTITION_TYPE_APP, ESP_PARTITION_SUBTYPE_APP_TEST, 0x10000, 0x180000),
            VirtualPartition::new("coredump", ESP_PARTITION_TYPE_DATA, ESP_PARTITION_SUBTYPE_DATA_COREDUMP, 0x190000, 0x10000),
        ];
        let t = VirtualPartitionTable { partitions };
        assert(t@ =~= launcher_layout());
        t
    }

    fn for_mode(launcher_mode: bool) -> (t: Self)
        ensures
            t@ == layout_for(launcher_mode),
    {
        if launcher_mode {
            Self::launcher()
        } else {
            Self::standalone()
        }
    }

    pub fn entries(&self) -> (r: &[VirtualPartition])
        ensures
            r@.map_values(|p: VirtualPartition| p@) == self@,
    {
        self.partitions.as_slice()
    }

    pub fn find_first(&self, partition_type: u8, subtype: u8) -> (r: Option<&VirtualPartition>)
        ensures
            match r {
                Some(p) => find_first_spec(self@, partition_type, subtype) == Some(p@),
                None => find_first_spec(self@, partition_type, subtype) is None,
            },
    {
        let mut i: usize = 0;
        assert(self@.skip(0) =~= self@);
        while i < self.partitions.len()
            invariant
                i <= self.partitions@.len(),
                self@ == self.partitions@.map_values(|p: VirtualPartition| p@),
                find_first_spec(self@, partition_type, subtype) == find_first_spec(
                    self@.skip(i as int),
                    partition_type,
                    subtype,
                ),
            decreases self.partitions@.len() - i,
        {
            let p = &self.partitions[i];
            assert(self@.skip(i as int)[0] == p@);
            if p.partition_type == partition_type && p.subtype == subtype {
                return Some(p);
            }
            assert(self@.skip(i as int).drop_first() =~= self@.skip(i + 1));
            i = i + 1;
        }
        None
    }

    pub fn otadata_address(&self) -> (r: Option<u32>)
        ensures
            r == otadata_address_spec(self@),
    {
        match self.find_first(ESP_PARTITION_TYPE_DATA, ESP_PARTITION_SUBTYPE_DATA_OTA) {
            Some(p) => Some(p.address),
            None => None,
        }
    }

    /// Matches SigurdOS/Wadamesh's dual-signal Launcher check.
    pub fn is_under_launcher(&self) -> (r: bool)
        ensures
            r == under_launcher_spec(self@),
    {
        self.find_first(ESP_PARTITION_TYPE_APP, ESP_PARTITION_SUBTYPE_APP_TEST).is_some()
            && self.otadata_address() == Some(LAUNCHER_OTADATA_ADDRESS)
    }

    pub fn set_launcher_mode(&mut self, enabled: bool)
        ensures
            final(self)@ == layout_for(enabled),
    {
        *self = Self::for_mode(enabled);
    }

    fn duplicate(&self) -> (t: Self)
        ensures
            t@ == self@,
    {
        let mut partitions: Vec<VirtualPartition> = Vec::new();
        let mut i: usize = 0;
        while i < self.partitions.len()
            invariant
                i <= self.partitions@.len(),
                partitions@.len() == i,
                forall|j: int| 0 <= j < i ==> #[trigger] partitions@[j]@ == self.partitions@[j]@,
            decreases self.partitions@.len() - i,
        {
            partitions.push(self.partitions[i].duplicate());
            i = i + 1;
        }
        let t = VirtualPartitionTable { partitions };
        assert(t@ =~= self@);
        t
    }
}

impl Default for VirtualPartitionTable {
    fn default() -> (t: Self)
        ensures
            t@ == standalone_layout(),
    {
        Self::standalone()
    }
}


/// Both detection signals hold for the Launcher layout and neither for the
/// stock layout, and each layout's NVS partition carries its own geometry.
pub proof fn lemma_layout_detection()
    ensures
        under_launcher_spec(launcher_layout()),
        !under_launcher_spec(standalone_layout()),
        otadata_address_spec(standalone_layout()) == Some(STANDALONE_OTADATA_ADDRESS),
        otadata_address_spec(launcher_layout()) == Some(LAUNCHER_OTADATA_ADDRESS),
        find_first_spec(standalone_layout(), ESP_PARTITION_TYPE_DATA, ESP_PARTITION_SUBTYPE_DATA_NVS)
            == Some(standalone_layout()[0]),
        find_first_spec(launcher_layout(), ESP_PARTITION_TYPE_DATA, ESP_PARTITION_SUBTYPE_DATA_NVS)
            == Some(launcher_layout()[0]),
        standalone_layout()[0].size == STANDALONE_NVS_SIZE,
        launcher_layout()[0].size == LAUNCHER_NVS_SIZE,
        LAUNCHER_NVS_SIZE < STANDALONE_NVS_SIZE,
{
    reveal_with_fuel(find_first_spec, 7);
    let s = standalone_layout();
    let l = launcher_layout();
    assert(s.drop_first() =~= seq![s[1], s[2], s[3], s[4], s[5]]);
    assert(s.drop_first().drop_first() =~= seq![s[2], s[3], s[4], s[5]]);
    assert(s.drop_first().drop_first().drop_first() =~= seq![s[3], s[4], s[5]]);
    assert(s.drop_first().drop_first().drop_first().drop_first() =~= seq![s[4], s[5]]);
    assert(s.drop_first().drop_first().drop_first().drop_first().drop_first() =~= seq![s[5]]);
    assert(s.drop_first().drop_first().drop_first().drop_first().drop_first().drop_first() =~= Seq::<PartitionEntry>::empty());
    assert(l.drop_first() =~= seq![l[1], l[2], l[3], l[4]]);
    assert(l.drop_first().drop_first() =~= seq![l[2], l[3], l[4]]);
    assert(l.drop_first().drop_first().drop_first() =~= seq![l[3], l[4]]);
}

/// Mathematical state of all instance partition tables.
pub struct PartitionRegistryView {
    pub tables: Map<Seq<char>, Seq<PartitionEntry>>,
    pub active: Seq<PartitionEntry>,
}

/// Per-instance partition tables plus the table currently selected for
/// ESP-IDF-compatible calls that carry no instance id.
pub struct PartitionRegistry {
    tables: Vec<(String, VirtualPartitionTable)>,
    active: VirtualPartitionTable,
}

impl View for PartitionRegistry {
    type V = PartitionRegistryView;

    closed spec fn view(&self) -> PartitionRegistryView {
        PartitionRegistryView {
            tables: key_map(self.tables@).map_values(|t: VirtualPartitionTable| t@),
            active: self.active@,
        }
    }
}

impl PartitionRegistry {
    #[verifier::type_invariant]
    closed spec fn inv(self) -> bool {
        keys_distinct(self.tables@)
    }

    /// No instance is registered and the stock layout is active.
    pub fn new() -> (r: Self)
        ensures
            r@.tables == Map::<Seq<char>, Seq<PartitionEntry>>::empty(),
            r@.active == standalone_layout(),
    {
        let r = PartitionRegistry { tables: Vec::new(), active: VirtualPartitionTable::standalone() };
        assert(r@.tables =~= Map::<Seq<char>, Seq<PartitionEntry>>::empty());
        r
    }

    /// Registers (or re-lays-out) an instance's table and makes it active.
    pub fn register_partition_table(&mut self, instance_id: &str, launcher_mode: bool) -> (t: VirtualPartitionTable)
        ensures
            final(self)@.tables == old(self)@.tables.insert(instance_id@, layout_for(launcher_mode)),
            final(self)@.active == layout_for(launcher_mode),
            t@ == layout_for(launcher_mode),
    {
        proof { use_type_invariant(&*self); }
        let table = VirtualPartitionTable::for_mode(launcher_mode);
        let ghost old_tables = self.tables@;
        match find_key(&self.tables, instance_id) {
            Some(i) => {
                let mut entries: Vec<(String, VirtualPartitionTable)> = Vec::new();
                std::mem::swap(&mut entries, &mut self.tables);
                let id = entries[i].0.clone();
                entries.set(i, (id, table.duplicate()));
                proof {
                    lemma_key_map_update(old_tables, i as int, entries@[i as int].1);
                    assert(entries@ == old_tables.update(i as int, (old_tables[i as int].0, entries@[i as int].1)));
                }
                self.tables = entries;
            }
            None => {
                let mut entries: Vec<(String, VirtualPartitionTable)> = Vec::new();
                std::mem::swap(&mut entries, &mut self.tables);
                let copy = table.duplicate();
                entries.push((instance_id.to_owned(), copy));
                proof {
                    lemma_key_map_push(old_tables, entries@.last().0, entries@.last().1);
                    assert(entries@ == old_tables.push((entries@.last().0, entries@.last().1)));
                }
                self.tables = entries;
            }
        }
        self.active = table.duplicate();
        assert(self@.tables =~= old(self)@.tables.insert(instance_id@, layout_for(launcher_mode)));
        table
    }

    pub fn get_partition_table(&self, instance_id: &str) -> (r: Option<&VirtualPartitionTable>)
        ensures
            match r {
                Some(t) => self@.tables.contains_key(instance_id@) && self@.tables[instance_id@] == t@,
                None => !self@.tables.contains_key(instance_id@),
            },
    {
        proof { use_type_invariant(self); }
        match find_key(&self.tables, instance_id) {
            Some(i) => {
                proof { lemma_key_map_at(self.tables@, i as int); }
                Some(&self.tables[i].1)
            }
            None => None,
        }
    }

    /// Selects the table seen by ESP-IDF-compatible APIs without an instance
    /// id; the core calls this immediately before entering each instance.
    pub fn activate_partition_table(&mut self, instance_id: &str) -> (r: bool)
        ensures
            r == old(self)@.tables.contains_key(instance_id@),
            final(self)@.tables == old(self)@.tables,
            final(self)@.active == (if r { old(self)@.tables[instance_id@] } else { old(self)@.active }),
    {
        proof { use_type_invariant(&*self); }
        match find_key(&self.tables, instance_id) {
            Some(i) => {
                proof { lemma_key_map_at(self.tables@, i as int); }
                let copy = self.tables[i].1.duplicate();
                self.active = copy;
                true
            }
            None => false,
        }
    }

    pub fn active_partition_table(&self) -> (t: VirtualPartitionTable)
        ensures
            t@ == self@.active,
    {
        self.active.duplicate()
    }

    pub fn remove_partition_table(&mut self, instance_id: &str) -> (r: Option<VirtualPartitionTable>)
        ensures
            final(self)@.tables == old(self)@.tables.remove(instance_id@),
            final(self)@.active == old(self)@.active,
            match r {
                Some(t) => old(self)@.tables.contains_key(instance_id@) && old(self)@.tables[instance_id@] == t@,
                None => !old(self)@.tables.contains_key(instance_id@),
            },
    {
        proof { use_type_invariant(&*self); }
        match find_key(&self.tables, instance_id) {
            Some(i) => {
                let ghost old_tables = self.tables@;
                proof {
                    lemma_key_map_at(old_tables, i as int);
                    lemma_key_map_remove(old_tables, i as int);
                }
                let mut entries: Vec<(String, VirtualPartitionTable)> = Vec::new();
                std::mem::swap(&mut entries, &mut self.tables);
                let (_, table) = entries.remove(i);
                self.tables = entries;
                assert(self@.tables =~= old(self)@.tables.remove(instance_id@));
                Some(table)
            }
            None => {
                assert(old(self)@.tables.remove(instance_id@) =~= old(self)@.tables);
                None
            }
        }
    }
}

/// A table registered for an instance is exactly what that instance sees
/// once it is made active, whatever was active before.
pub proof fn law_activation_selects_registered_layout(
    reg: PartitionRegistryView,
    id: Seq<char>,
    launcher_mode: bool,
)
    requires
        reg.tables.contains_key(id),
        reg.tables[id] == layout_for(launcher_mode),
    ensures
        under_launcher_spec(reg.tables[id]) == launcher_mode,
{
    lemma_layout_detection();
}

} // verus!
