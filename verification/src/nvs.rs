//! A bounded, namespace-aware model of the ESP32 Preferences/NVS store.
//!
//! `begin` selects the namespace used by later calls until `end`. Every
//! accepted change leaves a JSON image (see `nvs_image`) that must fit the
//! partition; a change whose image would not fit is refused and leaves the
//! store as it was. The application writes the image to the backing file.

use vstd::prelude::*;
use vstd::string::StringSliceAdditionalSpecFns;

use crate::nvs_image::{encode_nvs_image, entries_view, nvs_image, store_view, NvsValue, NvsValueView};
use crate::sorted::{
    assoc_remove, lemma_assoc_remove_lookup, key_bytes, lemma_assoc_remove_found, lemma_lookup_absent,
    lemma_lookup_at, lemma_sorted_insert, lemma_sorted_put_absent, lemma_sorted_put_found,
    lemma_sorted_put_lookup, lemma_sorted_remove, lemma_sorted_update, locate, lookup, sorted_by_key,
    sorted_keys, sorted_put,
};
use crate::keyed::{find_key, key_map, keys_distinct, lemma_key_map_at, lemma_key_map_push, lemma_key_map_remove};
use crate::storage::{
    instance_directory, instance_directory_name, join_onto, lemma_directory_name_is_one_component,
    parent_component_at, path_join,
};

verus! {

/// NVS geometry used by the stock 16 MB T-Deck partition table.
pub const STANDALONE_NVS_SIZE: u32 = 0x5000;
/// NVS geometry used by bmorcelli/Launcher on the T-Deck.
pub const LAUNCHER_NVS_SIZE: u32 = 0x4000;
/// ESP-IDF limits NVS namespace and key names to 15 bytes plus a terminator.
pub const NVS_NAME_MAX_BYTES: usize = 15;

/// Why an NVS image could not be opened.
#[derive(Clone, Copy, Debug, PartialEq, Eq)]
pub enum NvsError {
    /// The instance id is empty or the partition size is zero.
    InvalidArgument,
}

/// A namespace or key name that ESP-IDF accepts: 1 to 15 bytes, no NUL.
pub open spec fn valid_name_bytes(bytes: Seq<u8>) -> bool {
    &&& 0 < bytes.len() <= NVS_NAME_MAX_BYTES
    &&& forall|i: int| 0 <= i < bytes.len() ==> #[trigger] bytes[i] != 0
}

pub open spec fn name_ok(name: Seq<char>) -> bool {
    valid_name_bytes(key_bytes(name))
}

/// Whether `value` is an acceptable namespace or key name.
pub fn valid_name(value: &str) -> (r: bool)
    ensures
        r == name_ok(value@),
{
    let bytes = value.as_bytes();
    if bytes.len() == 0 || bytes.len() > NVS_NAME_MAX_BYTES {
        return false;
    }
    let mut i: usize = 0;
    while i < bytes.len()
        invariant
            i <= bytes@.len(),
            bytes@ == key_bytes(value@),
            forall|j: int| 0 <= j < i ==> #[trigger] bytes@[j] != 0,
        decreases bytes@.len() - i,
    {
        if bytes[i] == 0 {
            assert(bytes@[i as int] == 0);
            return false;
        }
        i = i + 1;
    }
    true
}

/// Mathematical state of a virtual NVS partition.
pub struct NvsView {
    pub instance_id: Seq<char>,
    pub partition_size: u32,
    pub backing_path: Seq<char>,
    /// Namespaces and their keys, each in byte order of the names.
    pub store: Seq<(Seq<char>, Seq<(Seq<char>, NvsValueView)>)>,
    /// The namespace selected by `begin`, and whether it is read-only.
    pub open: Option<(Seq<char>, bool)>,
}

/// The invariant of every NVS state.
pub open spec fn nvs_inv(v: NvsView) -> bool {
    &&& sorted_keys(v.store)
    &&& forall|i: int| 0 <= i < v.store.len() ==> sorted_keys(#[trigger] v.store[i].1)
    &&& v.partition_size > 0
    &&& match v.open {
        Some((name, _)) => lookup(v.store, name) is Some,
        None => true,
    }
}

/// The entries of the selected namespace.
pub open spec fn open_entries(v: NvsView) -> Option<Seq<(Seq<char>, NvsValueView)>> {
    match v.open {
        Some((name, _)) => lookup(v.store, name),
        None => None,
    }
}

pub open spec fn writable(v: NvsView) -> bool {
    v.open matches Some((_, read_only)) && !read_only
}

/// The value a Preferences read of `key` sees.
pub open spec fn value_of(v: NvsView, key: Seq<char>) -> Option<NvsValueView> {
    if name_ok(key) {
        match open_entries(v) {
            Some(entries) => lookup(entries, key),
            None => None,
        }
    } else {
        None
    }
}

/// Whether a store's image fits a partition of `size` bytes.
pub open spec fn fits(store: Seq<(Seq<char>, Seq<(Seq<char>, NvsValueView)>)>, size: u32) -> bool {
    nvs_image(store).len() <= size
}

/// The outcome of `begin(namespace, read_only)`.
pub open spec fn begin_effect(v: NvsView, namespace: Seq<char>, read_only: bool) -> (NvsView, bool) {
    if !name_ok(namespace) {
        (NvsView { open: None, ..v }, false)
    } else if lookup(v.store, namespace) is Some {
        (NvsView { open: Some((namespace, read_only)), ..v }, true)
    } else if read_only {
        (NvsView { open: None, ..v }, false)
    } else {
        let grown = sorted_put(v.store, namespace, Seq::empty());
        if fits(grown, v.partition_size) {
            (NvsView { store: grown, open: Some((namespace, false)), ..v }, true)
        } else {
            (NvsView { open: None, ..v }, false)
        }
    }
}

/// The store after binding `key` to `value` in the open namespace.
pub open spec fn put_store(v: NvsView, key: Seq<char>, value: NvsValueView) -> Seq<(Seq<char>, Seq<(Seq<char>, NvsValueView)>)> {
    let name = v.open.unwrap().0;
    sorted_put(v.store, name, sorted_put(lookup(v.store, name).unwrap(), key, value))
}

/// The outcome of a Preferences write.
pub open spec fn put_effect(v: NvsView, key: Seq<char>, value: NvsValueView) -> (NvsView, bool) {
    if name_ok(key) && writable(v) && fits(put_store(v, key, value), v.partition_size) {
        (NvsView { store: put_store(v, key, value), ..v }, true)
    } else {
        (v, false)
    }
}

/// The outcome of a Preferences remove.
pub open spec fn remove_effect(v: NvsView, key: Seq<char>) -> (NvsView, bool) {
    if name_ok(key) && writable(v) && value_of(v, key) is Some {
        let name = v.open.unwrap().0;
        (NvsView { store: sorted_put(v.store, name, assoc_remove(lookup(v.store, name).unwrap(), key)), ..v }, true)
    } else {
        (v, false)
    }
}

/// `<temp>/mycelium/instances/<instance directory>/nvs.json`.
pub open spec fn default_nvs_path(temp_dir: Seq<char>, id_bytes: Seq<u8>) -> Seq<char> {
    path_join(
        path_join(path_join(path_join(temp_dir, "mycelium"@), "instances"@), instance_directory_name(id_bytes)),
        "nvs.json"@,
    )
}

/// Where an instance's NVS image lives under the host temp directory.
pub fn default_path(temp_dir: &str, instance_id: &str) -> (p: String)
    ensures
        p@ == default_nvs_path(temp_dir@, instance_id.spec_bytes()),
{
    let app = "mycelium";
    let instances = "instances";
    let file = "nvs.json";
    proof {
        reveal_strlit("mycelium");
        reveal_strlit("instances");
        reveal_strlit("nvs.json");
        assert forall|i: int| !#[trigger] parent_component_at(app@, i) by {}
        assert forall|i: int| !#[trigger] parent_component_at(instances@, i) by {}
        assert forall|i: int| !#[trigger] parent_component_at(file@, i) by {
            if parent_component_at(file@, i) {
                assert(file@[i + 1] == '.');
            }
        }
        lemma_directory_name_is_one_component(instance_id.spec_bytes());
    }
    let root = temp_dir.to_owned();
    let a = join_onto(&root, app);
    let b = join_onto(&a, instances);
    let dir = instance_directory(instance_id);
    let c = join_onto(&b, dir.as_str());
    join_onto(&c, file)
}

fn copy_value(v: &NvsValue) -> (r: NvsValue)
    ensures
        r@ == v@,
{
    match v {
        NvsValue::Bool(b) => NvsValue::Bool(*b),
        NvsValue::String(s) => NvsValue::String(s.clone()),
    }
}

fn copy_entries(kvs: &Vec<(String, NvsValue)>) -> (r: Vec<(String, NvsValue)>)
    ensures
        entries_view(r@) == entries_view(kvs@),
        sorted_by_key(kvs@) ==> sorted_by_key(r@),
{
    let mut r: Vec<(String, NvsValue)> = Vec::new();
    let mut i: usize = 0;
    while i < kvs.len()
        invariant
            i <= kvs@.len(),
            r@.len() == i,
            forall|j: int| 0 <= j < i ==> (#[trigger] r@[j]).0@ == kvs@[j].0@ && r@[j].1@ == kvs@[j].1@,
        decreases kvs@.len() - i,
    {
        r.push((kvs[i].0.clone(), copy_value(&kvs[i].1)));
        i = i + 1;
    }
    assert(entries_view(r@) =~= entries_view(kvs@));
    proof {
        if sorted_by_key(kvs@) {
            assert forall|a: int, b: int| 0 <= a < b < r@.len() implies crate::sorted::lex_less(
                key_bytes(#[trigger] r@[a].0@),
                key_bytes(#[trigger] r@[b].0@),
            ) by {
                assert(r@[a].0@ == kvs@[a].0@ && r@[b].0@ == kvs@[b].0@);
            }
        }
    }
    r
}

proof fn lemma_entries_sorted(kvs: Seq<(String, NvsValue)>)
    ensures
        sorted_by_key(kvs) <==> sorted_keys(entries_view(kvs)),
{
    let v = entries_view(kvs);
    if sorted_by_key(kvs) {
        assert forall|i: int, j: int| 0 <= i < j < v.len() implies crate::sorted::lex_less(
            key_bytes(#[trigger] v[i].0),
            key_bytes(#[trigger] v[j].0),
        ) by {
            assert(v[i].0 == kvs[i].0@ && v[j].0 == kvs[j].0@);
        }
    }
    if sorted_keys(v) {
        assert forall|i: int, j: int| 0 <= i < j < kvs.len() implies crate::sorted::lex_less(
            key_bytes(#[trigger] kvs[i].0@),
            key_bytes(#[trigger] kvs[j].0@),
        ) by {
            assert(v[i].0 == kvs[i].0@ && v[j].0 == kvs[j].0@);
        }
    }
}

proof fn lemma_store_sorted(nss: Seq<(String, Vec<(String, NvsValue)>)>)
    ensures
        sorted_by_key(nss) <==> sorted_keys(store_view(nss)),
{
    let v = store_view(nss);
    if sorted_by_key(nss) {
        assert forall|i: int, j: int| 0 <= i < j < v.len() implies crate::sorted::lex_less(
            key_bytes(#[trigger] v[i].0),
            key_bytes(#[trigger] v[j].0),
        ) by {
            assert(v[i].0 == nss[i].0@ && v[j].0 == nss[j].0@);
        }
    }
    if sorted_keys(v) {
        assert forall|i: int, j: int| 0 <= i < j < nss.len() implies crate::sorted::lex_less(
            key_bytes(#[trigger] nss[i].0@),
            key_bytes(#[trigger] nss[j].0@),
        ) by {
            assert(v[i].0 == nss[i].0@ && v[j].0 == nss[j].0@);
        }
    }
}

/// A bounded, namespace-aware ESP32 Preferences/NVS model.
///
/// A copy is what a caller keeps to undo a change whose persistence failed.
#[derive(Clone)]
pub struct VirtualNvs {
    instance_id: String,
    partition_size: u32,
    backing_path: String,
    namespaces: Vec<(String, Vec<(String, NvsValue)>)>,
    open_namespace: Option<(String, bool)>,
}

impl View for VirtualNvs {
    type V = NvsView;

    closed spec fn view(&self) -> NvsView {
        NvsView {
            instance_id: self.instance_id@,
            partition_size: self.partition_size,
            backing_path: self.backing_path@,
            store: store_view(self.namespaces@),
            open: match self.open_namespace {
                Some((name, read_only)) => Some((name@, read_only)),
                None => None,
            },
        }
    }
}

impl VirtualNvs {
    /// The representation is sorted as its view says.
    pub closed spec fn wf(&self) -> bool {
        &&& nvs_inv(self@)
        &&& sorted_by_key(self.namespaces@)
        &&& forall|i: int| 0 <= i < self.namespaces@.len() ==> sorted_by_key(#[trigger] self.namespaces@[i].1@)
    }

    /// A well-formed store satisfies the invariant that the laws below
    /// assume of its view.
    pub proof fn lemma_wf_gives_inv(&self)
        requires
            self.wf(),
        ensures
            nvs_inv(self@),
    {
    }

    /// An empty store for an instance, kept at `backing_path`.
    pub fn at_path(instance_id: &str, partition_size: u32, backing_path: String) -> (r: Result<Self, NvsError>)
        ensures
            match r {
                Ok(nvs) => {
                    &&& instance_id@.len() > 0 && partition_size > 0
                    &&& nvs.wf()
                    &&& nvs@ == (NvsView {
                        instance_id: instance_id@,
                        partition_size,
                        backing_path: backing_path@,
                        store: Seq::empty(),
                        open: None,
                    })
                },
                Err(e) => e == NvsError::InvalidArgument && (instance_id@.len() == 0 || partition_size == 0),
            },
    {
        if instance_id.unicode_len() == 0 || partition_size == 0 {
            return Err(NvsError::InvalidArgument);
        }
        let nvs = VirtualNvs {
            instance_id: instance_id.to_owned(),
            partition_size,
            backing_path,
            namespaces: Vec::new(),
            open_namespace: None,
        };
        assert(nvs@.store =~= Seq::empty());
        Ok(nvs)
    }

    /// An empty store of the given geometry at the instance's default path
    /// under `temp_dir`.
    pub fn with_size(instance_id: &str, partition_size: u32, temp_dir: &str) -> (r: Result<Self, NvsError>)
        ensures
            match r {
                Ok(nvs) => {
                    &&& instance_id@.len() > 0 && partition_size > 0
                    &&& nvs.wf()
                    &&& nvs@ == (NvsView {
                        instance_id: instance_id@,
                        partition_size,
                        backing_path: default_nvs_path(temp_dir@, instance_id.spec_bytes()),
                        store: Seq::empty(),
                        open: None,
                    })
                },
                Err(e) => e == NvsError::InvalidArgument && (instance_id@.len() == 0 || partition_size == 0),
            },
    {
        Self::at_path(instance_id, partition_size, default_path(temp_dir, instance_id))
    }

    /// An empty standalone-sized store at the instance's default path.
    pub fn new(instance_id: &str, temp_dir: &str) -> (r: Result<Self, NvsError>)
        ensures
            match r {
                Ok(nvs) => {
                    &&& instance_id@.len() > 0
                    &&& nvs.wf()
                    &&& nvs@ == (NvsView {
                        instance_id: instance_id@,
                        partition_size: STANDALONE_NVS_SIZE,
                        backing_path: default_nvs_path(temp_dir@, instance_id.spec_bytes()),
                        store: Seq::empty(),
                        open: None,
                    })
                },
                Err(e) => e == NvsError::InvalidArgument && instance_id@.len() == 0,
            },
    {
        Self::with_size(instance_id, STANDALONE_NVS_SIZE, temp_dir)
    }

    pub fn instance_id(&self) -> (r: &str)
        ensures
            r@ == self@.instance_id,
    {
        self.instance_id.as_str()
    }

    pub fn partition_size(&self) -> (r: u32)
        ensures
            r == self@.partition_size,
    {
        self.partition_size
    }

    pub fn backing_path(&self) -> (r: &str)
        ensures
            r@ == self@.backing_path,
    {
        self.backing_path.as_str()
    }

    /// The JSON image that persists the current contents.
    pub fn image(&self) -> (r: Vec<u8>)
        ensures
            r@ == nvs_image(self@.store),
    {
        encode_nvs_image(&self.namespaces)
    }

    /// Changes the visible partition geometry without erasing stored values;
    /// later writes must fit the new geometry. Zero is refused.
    pub fn set_partition_size(&mut self, partition_size: u32) -> (r: bool)
        requires
            old(self).wf(),
        ensures
            final(self).wf(),
            r == (partition_size != 0),
            final(self)@ == (if r { NvsView { partition_size, ..old(self)@ } } else { old(self)@ }),
    {
        if partition_size == 0 {
            return false;
        }
        self.partition_size = partition_size;
        true
    }

    /// Closes the selected namespace.
    pub fn end(&mut self)
        requires
            old(self).wf(),
        ensures
            final(self).wf(),
            final(self)@ == (NvsView { open: None, ..old(self)@ }),
    {
        self.open_namespace = None;
    }

    fn open_index(&self) -> (r: Option<usize>)
        requires
            self.wf(),
        ensures
            match r {
                Some(i) => {
                    &&& i < self@.store.len()
                    &&& self@.open is Some
                    &&& self@.store[i as int].0 == self@.open.unwrap().0
                    &&& open_entries(self@) == Some(self@.store[i as int].1)
                },
                None => self@.open is None && open_entries(self@) is None,
            },
    {
        match &self.open_namespace {
            None => None,
            Some((name, _)) => {
                proof { lemma_store_sorted(self.namespaces@); }
                match locate(&self.namespaces, name.as_str()) {
                    Ok(i) => {
                        proof { lemma_lookup_at(self@.store, i as int); }
                        Some(i)
                    },
                    Err(_) => {
                        proof {
                            assert forall|j: int| 0 <= j < self@.store.len() implies #[trigger] self@.store[j].0
                                != name@ by {
                                assert(self@.store[j].0 == self.namespaces@[j].0@);
                            }
                            lemma_lookup_absent(self@.store, name@);
                        }
                        None
                    },
                }
            },
        }
    }

    /// The value under `key` in the open namespace, if any.
    fn open_value(&self, key: &str) -> (r: Option<&NvsValue>)
        requires
            self.wf(),
        ensures
            match r {
                Some(v) => value_of(self@, key@) == Some(v@),
                None => value_of(self@, key@) is None,
            },
    {
        if !valid_name(key) {
            return None;
        }
        match self.open_index() {
            None => None,
            Some(i) => {
                let entries = &self.namespaces[i].1;
                proof {
                    lemma_entries_sorted(entries@);
                    assert(self@.store[i as int].1 == entries_view(entries@));
                }
                match locate(entries, key) {
                    Ok(j) => {
                        proof { lemma_lookup_at(entries_view(entries@), j as int); }
                        Some(&entries[j].1)
                    },
                    Err(_) => {
                        proof {
                            let ev = entries_view(entries@);
                            assert forall|x: int| 0 <= x < ev.len() implies #[trigger] ev[x].0 != key@ by {
                                assert(ev[x].0 == entries@[x].0@);
                            }
                            lemma_lookup_absent(ev, key@);
                        }
                        None
                    },
                }
            },
        }
    }

    /// Whether `key` holds a value in the open namespace.
    pub fn is_key(&self, key: &str) -> (r: bool)
        requires
            self.wf(),
        ensures
            r == (value_of(self@, key@) is Some),
    {
        self.open_value(key).is_some()
    }

    /// The bool under `key`, or `default` when there is none of that type.
    pub fn get_bool(&self, key: &str, default: bool) -> (r: bool)
        requires
            self.wf(),
        ensures
            r == (match value_of(self@, key@) {
                Some(NvsValueView::Bool(b)) => b,
                _ => default,
            }),
    {
        match self.open_value(key) {
            Some(NvsValue::Bool(b)) => *b,
            _ => default,
        }
    }

    /// The string under `key`, or `default` when there is none of that type.
    pub fn get_string(&self, key: &str, default: &str) -> (r: String)
        requires
            self.wf(),
        ensures
            r@ == (match value_of(self@, key@) {
                Some(NvsValueView::Text(s)) => s,
                _ => default@,
            }),
    {
        match self.open_value(key) {
            Some(NvsValue::String(s)) => s.clone(),
            _ => default.to_owned(),
        }
    }

    proof fn lemma_wf_parts(&self)
        requires
            sorted_by_key(self.namespaces@),
            forall|i: int| 0 <= i < self.namespaces@.len() ==> sorted_by_key(#[trigger] self.namespaces@[i].1@),
        ensures
            sorted_keys(self@.store),
            forall|i: int| 0 <= i < self@.store.len() ==> sorted_keys(#[trigger] self@.store[i].1),
    {
        lemma_store_sorted(self.namespaces@);
        assert forall|i: int| 0 <= i < self@.store.len() implies sorted_keys(#[trigger] self@.store[i].1) by {
            lemma_entries_sorted(self.namespaces@[i].1@);
        }
    }

    /// The index of `namespace`, creating it empty (in order) when absent.
    fn ensure_namespace(&mut self, namespace: &str) -> (r: (usize, bool))
        requires
            sorted_by_key(old(self).namespaces@),
            forall|i: int| 0 <= i < old(self).namespaces@.len() ==> sorted_by_key(#[trigger] old(self).namespaces@[i].1@),
        ensures
            sorted_by_key(final(self).namespaces@),
            forall|i: int| 0 <= i < final(self).namespaces@.len() ==> sorted_by_key(#[trigger] final(self).namespaces@[i].1@),
            r.0 < final(self)@.store.len(),
            final(self)@.store[r.0 as int].0 == namespace@,
            r.1 == (lookup(old(self)@.store, namespace@) is None),
            final(self)@.store == (if r.1 {
                sorted_put(old(self)@.store, namespace@, Seq::empty())
            } else {
                old(self)@.store
            }),
            r.1 ==> r.0 <= old(self).namespaces@.len(),
            r.1 ==> final(self).namespaces@ == old(self).namespaces@.insert(r.0 as int, final(self).namespaces@[r.0 as int]),
            final(self)@ == (NvsView { store: final(self)@.store, ..old(self)@ }),
    {
        proof { lemma_store_sorted(self.namespaces@); }
        let ghost old_store = self@.store;
        match locate(&self.namespaces, namespace) {
            Ok(i) => {
                proof { lemma_lookup_at(old_store, i as int); }
                (i, false)
            },
            Err(p) => {
                proof {
                    assert forall|j: int| 0 <= j < old_store.len() implies #[trigger] old_store[j].0 != namespace@ by {
                        assert(old_store[j].0 == self.namespaces@[j].0@);
                    }
                    lemma_lookup_absent(old_store, namespace@);
                    assert forall|j: int| 0 <= j < p implies crate::sorted::lex_less(
                        key_bytes(#[trigger] old_store[j].0),
                        key_bytes(namespace@),
                    ) by {
                        assert(old_store[j].0 == self.namespaces@[j].0@);
                    }
                    assert forall|j: int| p <= j < old_store.len() implies crate::sorted::lex_less(
                        key_bytes(namespace@),
                        key_bytes(#[trigger] old_store[j].0),
                    ) by {
                        assert(old_store[j].0 == self.namespaces@[j].0@);
                    }
                    lemma_sorted_put_absent(old_store, p as int, namespace@, Seq::empty());
                }
                let ghost old_ns = self.namespaces@;
                let entry: (String, Vec<(String, NvsValue)>) = (namespace.to_owned(), Vec::new());
                proof {
                    lemma_sorted_insert(old_ns, p as int, entry.0, entry.1);
                }
                self.namespaces.insert(p, entry);
                proof {
                    assert(entries_view(self.namespaces@[p as int].1@) =~= Seq::empty());
                    assert(self@.store =~= old_store.insert(p as int, (namespace@, Seq::empty())));
                    assert forall|i: int| 0 <= i < self.namespaces@.len() implies sorted_by_key(#[trigger] self.namespaces@[i].1@) by {
                        if i < p {
                            assert(self.namespaces@[i] == old_ns[i]);
                        } else if i > p {
                            assert(self.namespaces@[i] == old_ns[i - 1]);
                        }
                    }
                }
                (p, true)
            },
        }
    }

    /// Binds `key` to `value` in the namespace at index `i`; returns the
    /// namespace's previous entries.
    fn bind_in(&mut self, i: usize, key: &str, value: NvsValue) -> (previous: Vec<(String, NvsValue)>)
        requires
            i < old(self).namespaces@.len(),
            sorted_by_key(old(self).namespaces@),
            forall|j: int| 0 <= j < old(self).namespaces@.len() ==> sorted_by_key(#[trigger] old(self).namespaces@[j].1@),
        ensures
            sorted_by_key(final(self).namespaces@),
            forall|j: int| 0 <= j < final(self).namespaces@.len() ==> sorted_by_key(#[trigger] final(self).namespaces@[j].1@),
            previous == old(self).namespaces@[i as int].1,
            final(self).namespaces@ == old(self).namespaces@.update(i as int, (old(self).namespaces@[i as int].0, final(self).namespaces@[i as int].1)),
            final(self)@.store == sorted_put(
                old(self)@.store,
                old(self)@.store[i as int].0,
                sorted_put(old(self)@.store[i as int].1, key@, value@),
            ),
            final(self)@ == (NvsView { store: final(self)@.store, ..old(self)@ }),
    {
        let ghost old_ns = self.namespaces@;
        let ghost old_store = self@.store;
        proof {
            self.lemma_wf_parts();
        }
        let (name, previous) = self.namespaces.remove(i);
        let mut kvs = copy_entries(&previous);
        let ghost ev = entries_view(previous@);
        proof { lemma_entries_sorted(previous@); }
        match locate(&kvs, key) {
            Ok(j) => {
                let k = kvs[j].0.clone();
                proof {
                    lemma_sorted_update(kvs@, j as int, value);
                    lemma_sorted_put_found(ev, j as int, key@, value@);
                }
                kvs.set(j, (k, value));
                assert(entries_view(kvs@) =~= ev.update(j as int, (key@, value@)));
            },
            Err(q) => {
                let entry = (key.to_owned(), value);
                proof {
                    lemma_sorted_insert(kvs@, q as int, entry.0, entry.1);
                    assert forall|x: int| 0 <= x < q implies crate::sorted::lex_less(key_bytes(#[trigger] ev[x].0), key_bytes(key@)) by {
                        assert(ev[x].0 == kvs@[x].0@);
                    }
                    assert forall|x: int| q <= x < ev.len() implies crate::sorted::lex_less(key_bytes(key@), key_bytes(#[trigger] ev[x].0)) by {
                        assert(ev[x].0 == kvs@[x].0@);
                    }
                    lemma_sorted_put_absent(ev, q as int, key@, value@);
                }
                kvs.insert(q, entry);
                assert(entries_view(kvs@) =~= ev.insert(q as int, (key@, value@)));
            },
        }
        proof {
            lemma_sorted_put_found(old_store, i as int, old_store[i as int].0, sorted_put(ev, key@, value@));
            lemma_sorted_update(old_ns, i as int, kvs);
        }
        self.namespaces.insert(i, (name, kvs));
        proof {
            assert(self.namespaces@ =~= old_ns.update(i as int, (old_ns[i as int].0, kvs)));
            assert(self@.store =~= old_store.update(i as int, (old_store[i as int].0, sorted_put(ev, key@, value@))));
            assert forall|j: int| 0 <= j < self.namespaces@.len() implies sorted_by_key(#[trigger] self.namespaces@[j].1@) by {
                if j != i {
                    assert(self.namespaces@[j] == old_ns[j]);
                }
            }
        }
        previous
    }

    /// Opens one namespace. A read-only open fails when it does not exist; a
    /// writable open creates it, unless its image would not fit.
    pub fn begin(&mut self, namespace: &str, read_only: bool) -> (r: bool)
        requires
            old(self).wf(),
        ensures
            final(self).wf(),
            (final(self)@, r) == begin_effect(old(self)@, namespace@, read_only),
    {
        if !valid_name(namespace) {
            self.open_namespace = None;
            return false;
        }
        let ghost old_store = self@.store;
        proof { lemma_store_sorted(self.namespaces@); }
        let present = match locate(&self.namespaces, namespace) {
            Ok(i) => {
                proof { lemma_lookup_at(old_store, i as int); }
                true
            },
            Err(_) => {
                proof {
                    assert forall|j: int| 0 <= j < old_store.len() implies #[trigger] old_store[j].0 != namespace@ by {
                        assert(old_store[j].0 == self.namespaces@[j].0@);
                    }
                    lemma_lookup_absent(old_store, namespace@);
                }
                false
            },
        };
        if !present && read_only {
            self.open_namespace = None;
            return false;
        }
        if !present {
            let (p, created) = self.ensure_namespace(namespace);
            assert(created);
            let image = encode_nvs_image(&self.namespaces);
            if image.len() > self.partition_size as usize {
                let ghost grown = self.namespaces@;
                assert(grown == old(self).namespaces@.insert(p as int, grown[p as int]));
                self.namespaces.remove(p);
                assert(self.namespaces@ =~= old(self).namespaces@);
                self.open_namespace = None;
                return false;
            }
            proof { lemma_sorted_put_lookup(old_store, namespace@, Seq::empty(), namespace@); }
        }
        self.open_namespace = Some((namespace.to_owned(), read_only));
        proof { self.lemma_wf_parts(); }
        true
    }

    /// Stores `value` under `key` in the open, writable namespace when the
    /// resulting image fits the partition.
    fn put(&mut self, key: &str, value: NvsValue) -> (r: bool)
        requires
            old(self).wf(),
        ensures
            final(self).wf(),
            (final(self)@, r) == put_effect(old(self)@, key@, value@),
    {
        if !valid_name(key) {
            return false;
        }
        let writable = match &self.open_namespace {
            Some((_, read_only)) => !*read_only,
            None => false,
        };
        if !writable {
            return false;
        }
        let i = match self.open_index() {
            Some(i) => i,
            None => return false,
        };
        let ghost old_ns = self.namespaces@;
        let previous = self.bind_in(i, key, value);
        let image = encode_nvs_image(&self.namespaces);
        if image.len() > self.partition_size as usize {
            let (name, _) = self.namespaces.remove(i);
            self.namespaces.insert(i, (name, previous));
            assert(self.namespaces@ =~= old_ns);
            return false;
        }
        proof {
            self.lemma_wf_parts();
            lemma_sorted_put_lookup(old(self)@.store, old(self)@.store[i as int].0, sorted_put(old(self)@.store[i as int].1, key@, value@), old(self)@.store[i as int].0);
        }
        true
    }

    pub fn try_put_bool(&mut self, key: &str, value: bool) -> (r: bool)
        requires
            old(self).wf(),
        ensures
            final(self).wf(),
            (final(self)@, r) == put_effect(old(self)@, key@, NvsValueView::Bool(value)),
    {
        self.put(key, NvsValue::Bool(value))
    }

    /// Stores a bool and returns its Arduino Preferences payload size (1),
    /// or 0 when refused.
    pub fn put_bool(&mut self, key: &str, value: bool) -> (n: usize)
        requires
            old(self).wf(),
        ensures
            final(self).wf(),
            final(self)@ == put_effect(old(self)@, key@, NvsValueView::Bool(value)).0,
            n == (if put_effect(old(self)@, key@, NvsValueView::Bool(value)).1 { 1usize } else { 0usize }),
    {
        if self.try_put_bool(key, value) {
            1
        } else {
            0
        }
    }

    pub fn try_put_string(&mut self, key: &str, value: &str) -> (r: bool)
        requires
            old(self).wf(),
        ensures
            final(self).wf(),
            (final(self)@, r) == put_effect(old(self)@, key@, NvsValueView::Text(value@)),
    {
        self.put(key, NvsValue::String(value.to_owned()))
    }

    /// Stores a UTF-8 string and returns its byte length, or 0 when refused.
    pub fn put_string(&mut self, key: &str, value: &str) -> (n: usize)
        requires
            old(self).wf(),
        ensures
            final(self).wf(),
            final(self)@ == put_effect(old(self)@, key@, NvsValueView::Text(value@)).0,
            n == (if put_effect(old(self)@, key@, NvsValueView::Text(value@)).1 {
                key_bytes(value@).len() as usize
            } else {
                0usize
            }),
    {
        if self.try_put_string(key, value) {
            value.len()
        } else {
            0
        }
    }

    /// Deletes `key` from the open, writable namespace; false when it is not
    /// there.
    pub fn remove(&mut self, key: &str) -> (r: bool)
        requires
            old(self).wf(),
        ensures
            final(self).wf(),
            (final(self)@, r) == remove_effect(old(self)@, key@),
    {
        if !valid_name(key) {
            return false;
        }
        let writable = match &self.open_namespace {
            Some((_, read_only)) => !*read_only,
            None => false,
        };
        if !writable {
            return false;
        }
        let i = match self.open_index() {
            Some(i) => i,
            None => return false,
        };
        let ghost old_ns = self.namespaces@;
        let ghost old_store = self@.store;
        let ghost ev = old_store[i as int].1;
        proof {
            self.lemma_wf_parts();
            lemma_entries_sorted(old_ns[i as int].1@);
        }
        let j = match locate(&self.namespaces[i].1, key) {
            Ok(j) => j,
            Err(_) => {
                proof {
                    assert forall|x: int| 0 <= x < ev.len() implies #[trigger] ev[x].0 != key@ by {
                        assert(ev[x].0 == old_ns[i as int].1@[x].0@);
                    }
                    lemma_lookup_absent(ev, key@);
                }
                return false;
            },
        };
        proof {
            lemma_lookup_at(ev, j as int);
            lemma_assoc_remove_found(ev, j as int, key@);
            lemma_sorted_put_found(old_store, i as int, old_store[i as int].0, assoc_remove(ev, key@));
        }
        let (name, mut kvs) = self.namespaces.remove(i);
        proof { lemma_sorted_remove(kvs@, j as int); }
        kvs.remove(j);
        assert(entries_view(kvs@) =~= ev.remove(j as int));
        proof { lemma_sorted_update(old_ns, i as int, kvs); }
        self.namespaces.insert(i, (name, kvs));
        proof {
            assert(self.namespaces@ =~= old_ns.update(i as int, (old_ns[i as int].0, kvs)));
            assert(self@.store =~= old_store.update(i as int, (old_store[i as int].0, assoc_remove(ev, key@))));
            assert forall|x: int| 0 <= x < self.namespaces@.len() implies sorted_by_key(#[trigger] self.namespaces@[x].1@) by {
                if x != i {
                    assert(self.namespaces@[x] == old_ns[x]);
                }
            }
            self.lemma_wf_parts();
            lemma_sorted_put_lookup(old_store, old_store[i as int].0, assoc_remove(ev, key@), old_store[i as int].0);
        }
        true
    }

    /// Adds a stored value read back from the backing image, as it was
    /// persisted (no name or capacity checks).
    pub fn restore_value(&mut self, namespace: &str, key: &str, value: NvsValue)
        requires
            old(self).wf(),
        ensures
            final(self).wf(),
            final(self)@ == (NvsView {
                store: sorted_put(
                    sorted_put(old(self)@.store, namespace@, match lookup(old(self)@.store, namespace@) {
                        Some(entries) => entries,
                        None => Seq::empty(),
                    }),
                    namespace@,
                    sorted_put(
                        match lookup(old(self)@.store, namespace@) {
                            Some(entries) => entries,
                            None => Seq::empty(),
                        },
                        key@,
                        value@,
                    ),
                ),
                ..old(self)@
            }),
    {
        let ghost old_store = self@.store;
        let (i, created) = self.ensure_namespace(namespace);
        let ghost mid = self@.store;
        proof {
            self.lemma_wf_parts();
            lemma_sorted_put_lookup(old_store, namespace@, Seq::empty(), namespace@);
            lemma_lookup_at(mid, i as int);
            if !created {
                let e = lookup(old_store, namespace@).unwrap();
                lemma_sorted_put_found(old_store, i as int, namespace@, e);
                assert(old_store.update(i as int, (namespace@, e)) =~= old_store);
            }
        }
        self.bind_in(i, key, value);
        proof {
            self.lemma_wf_parts();
            match self@.open {
                Some((name, _)) => {
                    lemma_sorted_put_lookup(mid, namespace@, sorted_put(mid[i as int].1, key@, value@), name);
                    lemma_sorted_put_lookup(old_store, namespace@, Seq::empty(), name);
                },
                None => {},
            }
        }
    }

    /// Adds an empty namespace read back from the backing image.
    pub fn restore_namespace(&mut self, namespace: &str)
        requires
            old(self).wf(),
        ensures
            final(self).wf(),
            final(self)@ == (NvsView {
                store: if lookup(old(self)@.store, namespace@) is Some {
                    old(self)@.store
                } else {
                    sorted_put(old(self)@.store, namespace@, Seq::empty())
                },
                ..old(self)@
            }),
    {
        let ghost old_store = self@.store;
        self.ensure_namespace(namespace);
        proof {
            self.lemma_wf_parts();
            match self@.open {
                Some((name, _)) => {
                    lemma_sorted_put_lookup(old_store, namespace@, Seq::empty(), name);
                },
                None => {},
            }
        }
    }
}


/// The live NVS store of every running instance. Removing an entry drops
/// only the live store; its persisted image survives for the next start.
pub struct NvsRegistry {
    stores: Vec<(String, VirtualNvs)>,
}

impl NvsRegistry {
    /// Ids are distinct and non-empty, and every store is well formed.
    pub closed spec fn wf(&self) -> bool {
        &&& keys_distinct(self.stores@)
        &&& forall|i: int| 0 <= i < self.stores@.len() ==> (#[trigger] self.stores@[i]).1.wf()
        &&& forall|i: int| 0 <= i < self.stores@.len() ==> (#[trigger] self.stores@[i]).0@.len() > 0
    }

    /// The live stores by instance id.
    pub closed spec fn stores(&self) -> Map<Seq<char>, NvsView> {
        key_map(self.stores@).map_values(|n: VirtualNvs| n@)
    }

    /// Every registered instance id is non-empty.
    pub proof fn lemma_ids_non_empty(&self)
        requires
            self.wf(),
        ensures
            forall|k: Seq<char>| #[trigger] self.stores().contains_key(k) ==> k.len() > 0,
    {
        assert forall|k: Seq<char>| #[trigger] self.stores().contains_key(k) implies k.len() > 0 by {
            let i = choose|i: int| 0 <= i < self.stores@.len() && #[trigger] self.stores@[i].0@ == k;
            assert(self.stores@[i].0@.len() > 0);
        }
    }

    pub fn new() -> (r: Self)
        ensures
            r.wf(),
            r.stores() == Map::<Seq<char>, NvsView>::empty(),
    {
        let r = NvsRegistry { stores: Vec::new() };
        assert(r.stores() =~= Map::<Seq<char>, NvsView>::empty());
        r
    }

    /// Opens or reconfigures the live store of an instance: an existing
    /// store takes the new geometry and keeps its contents; a new one is
    /// empty at the instance's default path under `temp_dir`.
    pub fn register_nvs(&mut self, instance_id: &str, partition_size: u32, temp_dir: &str) -> (r: Result<(), NvsError>)
        requires
            old(self).wf(),
        ensures
            final(self).wf(),
            match r {
                Ok(()) => {
                    &&& final(self).stores().contains_key(instance_id@)
                    &&& final(self).stores() == old(self).stores().insert(instance_id@, final(self).stores()[instance_id@])
                    &&& if old(self).stores().contains_key(instance_id@) {
                        final(self).stores()[instance_id@] == (NvsView { partition_size, ..old(self).stores()[instance_id@] })
                    } else {
                        final(self).stores()[instance_id@] == (NvsView {
                            instance_id: instance_id@,
                            partition_size,
                            backing_path: default_nvs_path(temp_dir@, instance_id.spec_bytes()),
                            store: Seq::empty(),
                            open: None,
                        })
                    }
                },
                Err(e) => {
                    &&& e == NvsError::InvalidArgument
                    &&& final(self).stores() == old(self).stores()
                },
            },
            r is Err <==> (partition_size == 0 || instance_id@.len() == 0),
            forall|k: Seq<char>| #[trigger] final(self).stores().contains_key(k) ==> k.len() > 0,
    {
        let ghost old_stores = self.stores@;
        match find_key(&self.stores, instance_id) {
            Some(i) => {
                proof { assert(old_stores[i as int].0@.len() > 0); }
                if partition_size == 0 {
                    proof { self.lemma_ids_non_empty(); }
                    return Err(NvsError::InvalidArgument);
                }
                proof { lemma_key_map_at(old_stores, i as int); }
                let (id, mut nvs) = self.stores.remove(i);
                nvs.set_partition_size(partition_size);
                self.stores.insert(i, (id, nvs));
                proof {
                    let t = self.stores@;
                    assert(t == old_stores.update(i as int, (old_stores[i as int].0, t[i as int].1)));
                    crate::keyed::lemma_key_map_update(old_stores, i as int, t[i as int].1);
                    assert forall|j: int| 0 <= j < t.len() implies (#[trigger] t[j]).1.wf() && t[j].0@.len() > 0 by {
                        if j != i {
                            assert(t[j] == old_stores[j]);
                        }
                    }
                    lemma_key_map_at(t, i as int);
                }
                assert(self.stores() =~= old(self).stores().insert(instance_id@, self.stores()[instance_id@]));
                proof { self.lemma_ids_non_empty(); }
                Ok(())
            },
            None => {
                match VirtualNvs::with_size(instance_id, partition_size, temp_dir) {
                    Err(e) => {
                        proof { self.lemma_ids_non_empty(); }
                        Err(e)
                    },
                    Ok(nvs) => {
                        self.stores.push((instance_id.to_owned(), nvs));
                        proof {
                            let t = self.stores@;
                            lemma_key_map_push(old_stores, t.last().0, t.last().1);
                            assert(t == old_stores.push((t.last().0, t.last().1)));
                            assert forall|j: int| 0 <= j < t.len() implies (#[trigger] t[j]).1.wf() && t[j].0@.len() > 0 by {
                                if j < old_stores.len() {
                                    assert(t[j] == old_stores[j]);
                                }
                            }
                        }
                        assert(self.stores() =~= old(self).stores().insert(instance_id@, self.stores()[instance_id@]));
                        proof { self.lemma_ids_non_empty(); }
                        Ok(())
                    },
                }
            },
        }
    }

    /// The live store of an instance.
    pub fn get_nvs(&self, instance_id: &str) -> (r: Option<&VirtualNvs>)
        requires
            self.wf(),
        ensures
            match r {
                Some(n) => n.wf() && self.stores().contains_key(instance_id@) && self.stores()[instance_id@] == n@,
                None => !self.stores().contains_key(instance_id@),
            },
    {
        match find_key(&self.stores, instance_id) {
            Some(i) => {
                proof { lemma_key_map_at(self.stores@, i as int); }
                Some(&self.stores[i].1)
            },
            None => None,
        }
    }

    /// The live store of an instance, for reading and writing.
    pub fn get_nvs_mut(&mut self, instance_id: &str) -> (r: Option<&mut VirtualNvs>)
        requires
            old(self).wf(),
        ensures
            match r {
                Some(n) => {
                    &&& n.wf()
                    &&& old(self).stores().contains_key(instance_id@)
                    &&& old(self).stores()[instance_id@] == n@
                    &&& final(self).stores() == old(self).stores().insert(instance_id@, final(n)@)
                    &&& (final(n).wf() ==> final(self).wf())
                },
                None => !old(self).stores().contains_key(instance_id@) && *final(self) == *old(self),
            },
    {
        match find_key(&self.stores, instance_id) {
            Some(i) => {
                let ghost old_stores = self.stores@;
                proof { lemma_key_map_at(old_stores, i as int); }
                let entry = &mut self.stores[i];
                proof {
                    crate::keyed::lemma_key_map_update(old_stores, i as int, final(entry).1);
                }
                Some(&mut entry.1)
            },
            None => None,
        }
    }

    /// Drops the live store of an instance and hands it back.
    pub fn remove_nvs(&mut self, instance_id: &str) -> (r: Option<VirtualNvs>)
        requires
            old(self).wf(),
        ensures
            final(self).wf(),
            final(self).stores() == old(self).stores().remove(instance_id@),
            match r {
                Some(n) => n.wf() && old(self).stores().contains_key(instance_id@) && old(self).stores()[instance_id@] == n@,
                None => !old(self).stores().contains_key(instance_id@),
            },
    {
        match find_key(&self.stores, instance_id) {
            Some(i) => {
                let ghost old_stores = self.stores@;
                proof {
                    lemma_key_map_at(old_stores, i as int);
                    lemma_key_map_remove(old_stores, i as int);
                }
                let (_, nvs) = self.stores.remove(i);
                proof {
                    let t = self.stores@;
                    assert forall|j: int| 0 <= j < t.len() implies (#[trigger] t[j]).1.wf() by {
                        if j < i {
                            assert(t[j] == old_stores[j]);
                        } else {
                            assert(t[j] == old_stores[j + 1]);
                        }
                    }
                }
                assert(self.stores() =~= old(self).stores().remove(instance_id@));
                Some(nvs)
            },
            None => {
                assert(old(self).stores().remove(instance_id@) =~= old(self).stores());
                None
            },
        }
    }
}


/// A Preferences read after an accepted write gives the written value, and
/// reads of every other key are unchanged.
pub proof fn law_read_after_write(v: NvsView, key: Seq<char>, value: NvsValueView, other: Seq<char>)
    requires
        nvs_inv(v),
        put_effect(v, key, value).1,
    ensures
        value_of(put_effect(v, key, value).0, key) == Some(value),
        other != key ==> value_of(put_effect(v, key, value).0, other) == value_of(v, other),
        nvs_inv(put_effect(v, key, value).0),
{
    let name = v.open.unwrap().0;
    let entries = lookup(v.store, name).unwrap();
    lemma_lookup_sorted_entries(v, name);
    lemma_sorted_put_lookup(entries, key, value, other);
    lemma_sorted_put_lookup(v.store, name, sorted_put(entries, key, value), name);
    lemma_put_keeps_inv(v, name, sorted_put(entries, key, value));
}

/// The entries stored under a namespace are sorted.
proof fn lemma_lookup_sorted_entries(v: NvsView, name: Seq<char>)
    requires
        nvs_inv(v),
    ensures
        lookup(v.store, name) matches Some(entries) ==> sorted_keys(entries),
    decreases v.store.len(),
{
    lemma_lookup_member(v.store, name);
}

proof fn lemma_lookup_member<T>(s: Seq<(Seq<char>, T)>, k: Seq<char>)
    ensures
        lookup(s, k) matches Some(x) ==> exists|i: int| 0 <= i < s.len() && #[trigger] s[i].1 == x,
    decreases s.len(),
{
    if s.len() > 0 {
        if s[0].0 == k {
            assert(s[0].1 == lookup(s, k).unwrap());
        } else {
            lemma_lookup_member(s.skip(1), k);
            if let Some(x) = lookup(s, k) {
                let i = choose|i: int| 0 <= i < s.skip(1).len() && #[trigger] s.skip(1)[i].1 == x;
                assert(s[i + 1].1 == x);
            }
        }
    }
}

/// Rebinding the open namespace to sorted entries keeps the invariant.
proof fn lemma_put_keeps_inv(v: NvsView, name: Seq<char>, entries: Seq<(Seq<char>, NvsValueView)>)
    requires
        nvs_inv(v),
        sorted_keys(entries),
        v.open matches Some((n, _)) && n == name,
    ensures
        nvs_inv(NvsView { store: sorted_put(v.store, name, entries), ..v }),
{
    let t = sorted_put(v.store, name, entries);
    lemma_sorted_put_lookup(v.store, name, entries, name);
    assert forall|i: int| 0 <= i < t.len() implies sorted_keys(#[trigger] t[i].1) by {
        lemma_sorted_put_member_values(v.store, name, entries, i);
        if t[i].1 != entries {
            let a = choose|a: int| 0 <= a < v.store.len() && v.store[a].1 == t[i].1;
            assert(sorted_keys(v.store[a].1));
        }
    }
}

proof fn lemma_sorted_put_member_values<T>(s: Seq<(Seq<char>, T)>, k: Seq<char>, x: T, j: int)
    requires
        0 <= j < sorted_put(s, k, x).len(),
    ensures
        sorted_put(s, k, x)[j].1 == x || exists|a: int| 0 <= a < s.len() && s[a].1 == sorted_put(s, k, x)[j].1,
    decreases s.len(),
{
    let t = sorted_put(s, k, x);
    if s.len() == 0 {
    } else if s[0].0 == k {
        if j != 0 {
            assert(s[j].1 == t[j].1);
        }
    } else if crate::sorted::lex_less(key_bytes(k), key_bytes(s[0].0)) {
        if j != 0 {
            assert(s[j - 1].1 == t[j].1);
        }
    } else if j == 0 {
        assert(s[0].1 == t[0].1);
    } else {
        let u = s.skip(1);
        lemma_sorted_put_member_values(u, k, x, j - 1);
        if sorted_put(u, k, x)[j - 1].1 != x {
            let a = choose|a: int| 0 <= a < u.len() && u[a].1 == sorted_put(u, k, x)[j - 1].1;
            assert(s[a + 1].1 == t[j].1);
        }
    }
}

/// A refused write leaves the store exactly as it was, so the previous value
/// stays readable.
pub proof fn law_refused_write_keeps_previous_value(v: NvsView, key: Seq<char>, value: NvsValueView)
    requires
        !put_effect(v, key, value).1,
    ensures
        put_effect(v, key, value).0 == v,
        value_of(put_effect(v, key, value).0, key) == value_of(v, key),
{
}

/// After an accepted remove the key has no value; other keys keep theirs.
pub proof fn law_remove_deletes_only_the_key(v: NvsView, key: Seq<char>, other: Seq<char>)
    requires
        nvs_inv(v),
        remove_effect(v, key).1,
    ensures
        value_of(remove_effect(v, key).0, key) is None,
        other != key ==> value_of(remove_effect(v, key).0, other) == value_of(v, other),
{
    let name = v.open.unwrap().0;
    let entries = lookup(v.store, name).unwrap();
    lemma_lookup_sorted_entries(v, name);
    lemma_assoc_remove_lookup(entries, key, other);
    lemma_sorted_put_lookup(v.store, name, assoc_remove(entries, key), name);
}

/// A namespace opened read-only refuses every write and remove.
pub proof fn law_read_only_refuses_changes(v: NvsView, key: Seq<char>, value: NvsValueView)
    requires
        v.open matches Some((_, read_only)) && read_only,
    ensures
        put_effect(v, key, value) == (v, false),
        remove_effect(v, key) == (v, false),
{
}

/// Once the namespace is closed no key is visible.
pub proof fn law_end_hides_values(v: NvsView, key: Seq<char>)
    ensures
        value_of(NvsView { open: None, ..v }, key) is None,
{
}

/// Switching partition geometry keeps every stored value readable.
pub proof fn law_geometry_switch_keeps_values(v: NvsView, size: u32, key: Seq<char>)
    ensures
        value_of(NvsView { partition_size: size, ..v }, key) == value_of(v, key),
{
}

} // verus!
