//! Per-instance SPIFFS and SD-card storage: directory naming, path
//! confinement and mount state. The host directories themselves are created,
//! read and written by the application around this logic.

use vstd::prelude::*;

use vstd::string::StringSliceAdditionalSpecFns;

use crate::text::{chars_of, hex_digit, hex_digit_char, push_char};

verus! {

/// Why a storage path could not be resolved.
#[derive(Clone, Copy, Debug, PartialEq, Eq)]
pub enum StorageError {
    /// The filesystem is not mounted.
    NotMounted,
    /// The path would leave the instance directory.
    InvalidPath,
}

// ----- instance directory names -------------------------------------------

pub open spec fn is_ascii_alnum(b: u8) -> bool {
    (48 <= b <= 57) || (65 <= b <= 90) || (97 <= b <= 122)
}

/// Bytes copied verbatim into an encoded directory name.
pub open spec fn plain_id_byte(b: u8) -> bool {
    is_ascii_alnum(b) || b == 45 || b == 95
}

/// Bytes allowed in an id that is used as its own directory name.
pub open spec fn kept_id_byte(b: u8) -> bool {
    plain_id_byte(b) || b == 46
}

/// Percent-encoding of one byte: itself when plain, else `%XX` (uppercase).
pub open spec fn encode_id_byte(b: u8) -> Seq<char> {
    if plain_id_byte(b) {
        seq![b as char]
    } else {
        seq!['%', hex_digit(b / 16), hex_digit(b % 16)]
    }
}

pub open spec fn percent_encoded(bytes: Seq<u8>) -> Seq<char>
    decreases bytes.len(),
{
    if bytes.len() == 0 {
        Seq::empty()
    } else {
        percent_encoded(bytes.drop_last()) + encode_id_byte(bytes.last())
    }
}

/// Whether an id can name its directory as it is: nonempty, not `.` or
/// `..`, and only ASCII letters, digits, `-`, `_` and `.`.
pub open spec fn id_is_directory_safe(bytes: Seq<u8>) -> bool {
    &&& bytes.len() > 0
    &&& bytes != seq![46u8]
    &&& bytes != seq![46u8, 46u8]
    &&& forall|i: int| 0 <= i < bytes.len() ==> kept_id_byte(#[trigger] bytes[i])
}

/// Each byte read as a character.
pub open spec fn ascii_chars(bytes: Seq<u8>) -> Seq<char> {
    Seq::new(bytes.len(), |i: int| bytes[i] as char)
}

/// The directory name of an instance with the given UTF-8 bytes.
pub open spec fn instance_directory_name(bytes: Seq<u8>) -> Seq<char> {
    if id_is_directory_safe(bytes) {
        ascii_chars(bytes)
    } else if bytes.len() == 0 {
        seq!['%', '0', '0']
    } else {
        percent_encoded(bytes)
    }
}

/// A directory name for an instance id that cannot leave its parent
/// directory: the id itself when it is safe, else its percent-encoding.
pub fn instance_directory(instance_id: &str) -> (r: String)
    ensures
        r@ == instance_directory_name(instance_id.spec_bytes()),
{
    let bytes = instance_id.as_bytes();
    let len = bytes.len();
    let mut safe = len > 0 && !(len == 1 && bytes[0] == 46) && !(len == 2 && bytes[0] == 46 && bytes[1] == 46);
    proof {
        if len == 1 && bytes@[0] == 46 {
            assert(bytes@ =~= seq![46u8]);
        }
        if len == 2 && bytes@[0] == 46 && bytes@[1] == 46 {
            assert(bytes@ =~= seq![46u8, 46u8]);
        }
    }
    let mut i: usize = 0;
    while i < len
        invariant
            len == bytes@.len(),
            i <= len,
            safe ==> forall|j: int| 0 <= j < i ==> kept_id_byte(#[trigger] bytes@[j]),
            safe ==> (bytes@.len() > 0 && bytes@ != seq![46u8] && bytes@ != seq![46u8, 46u8]),
            !safe ==> !id_is_directory_safe(bytes@),
        decreases len - i,
    {
        let b = bytes[i];
        let kept = (48 <= b && b <= 57) || (65 <= b && b <= 90) || (97 <= b && b <= 122) || b == 45 || b == 95 || b == 46;
        if !kept {
            safe = false;
        }
        i = i + 1;
    }
    let mut encoded = String::new();
    if safe {
        let mut k: usize = 0;
        while k < len
            invariant
                len == bytes@.len(),
                k <= len,
                encoded@ == ascii_chars(bytes@.subrange(0, k as int)),
            decreases len - k,
        {
            push_char(&mut encoded, bytes[k] as char);
            assert(encoded@ =~= ascii_chars(bytes@.subrange(0, k + 1)));
            k = k + 1;
        }
        assert(bytes@.subrange(0, len as int) =~= bytes@);
        return encoded;
    }
    if len == 0 {
        push_char(&mut encoded, '%');
        push_char(&mut encoded, '0');
        push_char(&mut encoded, '0');
        assert(encoded@ =~= seq!['%', '0', '0']);
        return encoded;
    }
    let mut k: usize = 0;
    while k < len
        invariant
            len == bytes@.len(),
            k <= len,
            encoded@ == percent_encoded(bytes@.subrange(0, k as int)),
        decreases len - k,
    {
        let b = bytes[k];
        let ghost before = encoded@;
        if (48 <= b && b <= 57) || (65 <= b && b <= 90) || (97 <= b && b <= 122) || b == 45 || b == 95 {
            push_char(&mut encoded, b as char);
        } else {
            push_char(&mut encoded, '%');
            let hi = hex_digit_char(b / 16);
            push_char(&mut encoded, hi);
            let lo = hex_digit_char(b % 16);
            push_char(&mut encoded, lo);
        }
        proof {
            let prefix = bytes@.subrange(0, k + 1);
            assert(prefix.drop_last() =~= bytes@.subrange(0, k as int));
            assert(prefix.last() == b);
            assert(encoded@ =~= before + encode_id_byte(b));
        }
        k = k + 1;
    }
    assert(bytes@.subrange(0, len as int) =~= bytes@);
    encoded
}

/// A character that can neither separate nor build a `.`/`..` component.
pub open spec fn inert_char(c: char) -> bool {
    c != '/' && c != '\\' && c != '.'
}

proof fn lemma_percent_encoded_inert(bytes: Seq<u8>)
    ensures
        forall|i: int| 0 <= i < percent_encoded(bytes).len() ==> inert_char(#[trigger] percent_encoded(bytes)[i]),
    decreases bytes.len(),
{
    if bytes.len() > 0 {
        lemma_percent_encoded_inert(bytes.drop_last());
        let b = bytes.last();
        assert(b / 16 < 16 && b % 16 < 16);
        let head = percent_encoded(bytes.drop_last());
        let tail = encode_id_byte(b);
        assert forall|i: int| 0 <= i < percent_encoded(bytes).len() implies inert_char(#[trigger] percent_encoded(bytes)[i]) by {
            if i >= head.len() {
                assert(percent_encoded(bytes)[i] == tail[i - head.len()]);
            } else {
                assert(percent_encoded(bytes)[i] == head[i]);
            }
        }
    }
}

/// An instance directory name is one path component: it does not start
/// with a separator and no `..` component occurs in it.
pub proof fn lemma_directory_name_is_one_component(bytes: Seq<u8>)
    ensures
        instance_directory_name(bytes).len() > 0,
        !is_separator(instance_directory_name(bytes)[0]),
        !has_parent_component(instance_directory_name(bytes)),
{
    let name = instance_directory_name(bytes);
    if id_is_directory_safe(bytes) {
        assert(forall|i: int| 0 <= i < name.len() ==> name[i] == bytes[i] as char);
        assert forall|i: int| !#[trigger] parent_component_at(name, i) by {
            if parent_component_at(name, i) {
                assert(bytes[i] == 46 && bytes[i + 1] == 46);
                if i > 0 {
                    assert(bytes[i - 1] == 47);
                    assert(kept_id_byte(bytes[i - 1]));
                } else if i + 2 < name.len() {
                    assert(bytes[i + 2] == 47);
                    assert(kept_id_byte(bytes[i + 2]));
                } else {
                    assert(bytes =~= seq![46u8, 46u8]);
                }
            }
        }
        assert(kept_id_byte(bytes[0]));
    } else if bytes.len() == 0 {
        assert forall|i: int| !#[trigger] parent_component_at(name, i) by {}
    } else {
        lemma_percent_encoded_inert(bytes);
        assert(percent_encoded(bytes) =~= percent_encoded(bytes.drop_last()) + encode_id_byte(bytes.last()));
        assert(name.len() > 0);
        assert(inert_char(name[0]));
        assert forall|i: int| !#[trigger] parent_component_at(name, i) by {
            if parent_component_at(name, i) {
                assert(inert_char(name[i]));
            }
        }
    }
}

// ----- path confinement ---------------------------------------------------

pub open spec fn is_separator(c: char) -> bool {
    c == '/' || c == '\\'
}

/// The path with its leading `/` and `\` removed.
pub open spec fn trim_leading_separators(p: Seq<char>) -> Seq<char>
    decreases p.len(),
{
    if p.len() > 0 && is_separator(p[0]) {
        trim_leading_separators(p.skip(1))
    } else {
        p
    }
}

/// A `..` component starts at position `i` of a relative path.
pub open spec fn parent_component_at(rel: Seq<char>, i: int) -> bool {
    &&& 0 <= i
    &&& i + 1 < rel.len()
    &&& rel[i] == '.'
    &&& rel[i + 1] == '.'
    &&& (i == 0 || rel[i - 1] == '/')
    &&& (i + 2 == rel.len() || rel[i + 2] == '/')
}

pub open spec fn has_parent_component(rel: Seq<char>) -> bool {
    exists|i: int| #[trigger] parent_component_at(rel, i)
}

/// `base` joined with a relative path: a `/` is inserted unless `base` is
/// empty or already ends with one.
pub open spec fn path_join(base: Seq<char>, rel: Seq<char>) -> Seq<char> {
    if base.len() == 0 {
        rel
    } else if base.last() == '/' {
        base + rel
    } else {
        base.push('/') + rel
    }
}

/// Where `path` lands inside `base`, or why it may not be used.
pub open spec fn safe_join_result(base: Seq<char>, path: Seq<char>) -> Result<Seq<char>, StorageError> {
    let rel = trim_leading_separators(path);
    if has_parent_component(rel) {
        Err(StorageError::InvalidPath)
    } else {
        Ok(path_join(base, rel))
    }
}

proof fn lemma_trim_prefix(p: Seq<char>, j: int, k: int)
    requires
        0 <= j <= k <= p.len(),
        forall|i: int| j <= i < k ==> is_separator(#[trigger] p[i]),
        k == p.len() || !is_separator(p[k]),
    ensures
        trim_leading_separators(p.skip(j)) == p.skip(k),
    decreases k - j,
{
    if j < k {
        assert(p.skip(j).skip(1) =~= p.skip(j + 1));
        lemma_trim_prefix(p, j + 1, k);
    } else {
        assert(p.skip(j) =~= p.skip(k));
    }
}

fn append_chars(out: &mut String, chars: &Vec<char>, from: usize)
    requires
        from <= chars@.len(),
    ensures
        final(out)@ == old(out)@ + chars@.skip(from as int),
{
    let mut j = from;
    while j < chars.len()
        invariant
            from <= j <= chars@.len(),
            out@ == old(out)@ + chars@.subrange(from as int, j as int),
        decreases chars@.len() - j,
    {
        push_char(out, chars[j]);
        assert(chars@.subrange(from as int, j + 1) =~= chars@.subrange(from as int, j as int).push(chars@[j as int]));
        j = j + 1;
    }
    assert(chars@.subrange(from as int, j as int) =~= chars@.skip(from as int));
}

/// Joins a firmware-supplied path onto an instance directory. Leading `/`
/// and `\` are dropped so absolute firmware paths stay inside `base`; any
/// `..` component is refused.
pub fn safe_join(base: &str, path: &str) -> (r: Result<String, StorageError>)
    ensures
        match r {
            Ok(s) => safe_join_result(base@, path@) == Ok::<Seq<char>, StorageError>(s@),
            Err(e) => safe_join_result(base@, path@) == Err::<Seq<char>, StorageError>(e),
        },
{
    let chars = chars_of(path);
    let n = chars.len();
    let mut k: usize = 0;
    while k < n && (chars[k] == '/' || chars[k] == '\\')
        invariant
            n == chars@.len(),
            chars@ == path@,
            k <= n,
            forall|i: int| 0 <= i < k ==> is_separator(#[trigger] chars@[i]),
        decreases n - k,
    {
        k = k + 1;
    }
    proof {
        lemma_trim_prefix(path@, 0, k as int);
        assert(path@.skip(0) =~= path@);
    }
    let ghost rel = path@.skip(k as int);
    let mut j = k;
    while j < n
        invariant
            n == chars@.len(),
            chars@ == path@,
            k <= j <= n,
            rel == path@.skip(k as int),
            trim_leading_separators(path@) == rel,
            forall|i: int| 0 <= i < j - k ==> !#[trigger] parent_component_at(rel, i),
        decreases n - j,
    {
        if j + 1 < n && chars[j] == '.' && chars[j + 1] == '.' && (j == k || chars[j - 1] == '/') && (j + 2 == n
            || chars[j + 2] == '/') {
            assert(parent_component_at(rel, j - k));
            return Err(StorageError::InvalidPath);
        }
        assert(!parent_component_at(rel, j - k));
        j = j + 1;
    }
    assert forall|i: int| !#[trigger] parent_component_at(rel, i) by {
        if 0 <= i && i >= j - k {
            assert(!(i + 1 < rel.len()));
        }
    }
    let mut out = String::new();
    out.append(base);
    let base_chars = chars_of(base);
    let m = base_chars.len();
    if m > 0 && base_chars[m - 1] != '/' {
        push_char(&mut out, '/');
    }
    append_chars(&mut out, &chars, k);
    proof {
        assert(base@.len() > 0 ==> base@.last() == base_chars@[m - 1]);
        if m == 0 {
            assert(out@ =~= rel);
        } else if base@.last() == '/' {
            assert(out@ =~= base@ + rel);
        } else {
            assert(out@ =~= base@.push('/') + rel);
        }
    }
    Ok(out)
}

// ----- mounted filesystems ------------------------------------------------

/// The directory of one kind of storage under a home directory:
/// `<home>/.mycelium/instances/<instance directory>/<leaf>`.
pub open spec fn storage_path(home: Seq<char>, id_bytes: Seq<u8>, leaf: Seq<char>) -> Seq<char> {
    path_join(path_join(path_join(path_join(home, dot_mycelium()), instances_dir()), instance_directory_name(id_bytes)), leaf)
}

pub open spec fn dot_mycelium() -> Seq<char> {
    seq!['.', 'm', 'y', 'c', 'e', 'l', 'i', 'u', 'm']
}

pub open spec fn spiffs_leaf() -> Seq<char> {
    seq!['s', 'p', 'i', 'f', 'f', 's']
}

pub open spec fn sdcard_leaf() -> Seq<char> {
    seq!['s', 'd', 'c', 'a', 'r', 'd']
}

pub open spec fn instances_dir() -> Seq<char> {
    seq!['i', 'n', 's', 't', 'a', 'n', 'c', 'e', 's']
}

/// `base` joined with a relative path that is already known to be safe.
pub fn join_onto(base: &String, rel: &str) -> (r: String)
    requires
        rel@.len() == 0 || !is_separator(rel@[0]),
        !has_parent_component(rel@),
    ensures
        r@ == path_join(base@, rel@),
{
    let r = safe_join(base.as_str(), rel);
    proof {
        lemma_trim_prefix(rel@, 0, 0);
        assert(rel@.skip(0) =~= rel@);
    }
    match r {
        Ok(s) => s,
        Err(_) => String::new(),
    }
}

/// Capacity of the host filesystem that backs a virtual SPIFFS.
#[derive(Clone, Copy, Debug, Default, PartialEq, Eq)]
pub struct SpiffsInfo {
    pub total_bytes: u64,
    pub used_bytes: u64,
    pub free_bytes: u64,
}

/// Capacity of the host filesystem that backs a virtual SD card.
#[derive(Clone, Copy, Debug, Default, PartialEq, Eq)]
pub struct SdCardInfo {
    pub total_bytes: u64,
    pub used_bytes: u64,
    pub free_bytes: u64,
}

pub open spec fn used_bytes(total: u64, free: u64) -> u64 {
    if total >= free { (total - free) as u64 } else { 0 }
}

impl SpiffsInfo {
    /// Capacity from the host's total and available space.
    pub fn from_space(total_bytes: u64, free_bytes: u64) -> (i: Self)
        ensures
            i == (SpiffsInfo { total_bytes, used_bytes: used_bytes(total_bytes, free_bytes), free_bytes }),
    {
        SpiffsInfo { total_bytes, used_bytes: total_bytes.saturating_sub(free_bytes), free_bytes }
    }
}

impl SdCardInfo {
    /// Capacity from the host's total and available space.
    pub fn from_space(total_bytes: u64, free_bytes: u64) -> (i: Self)
        ensures
            i == (SdCardInfo { total_bytes, used_bytes: used_bytes(total_bytes, free_bytes), free_bytes }),
    {
        SdCardInfo { total_bytes, used_bytes: total_bytes.saturating_sub(free_bytes), free_bytes }
    }
}

/// The home directory as text, if the platform reports one that is UTF-8.
#[verifier::external_body]
fn home_directory() -> (r: Option<String>) {
    match dirs::home_dir() {
        Some(path) => path.into_os_string().into_string().ok(),
        None => None,
    }
}

/// Mount state of a directory-backed filesystem.
pub struct MountView {
    pub instance_id: Seq<char>,
    pub base_path: Seq<char>,
    pub mounted: bool,
}

/// Emulates an ESP32 SPIFFS partition in a host directory.
pub struct VirtualSpiffs {
    instance_id: String,
    base_path: String,
    mounted: bool,
}

/// Emulates an SD card in a host directory.
pub struct VirtualSdCard {
    instance_id: String,
    base_path: String,
    mounted: bool,
}

impl View for VirtualSpiffs {
    type V = MountView;

    closed spec fn view(&self) -> MountView {
        MountView { instance_id: self.instance_id@, base_path: self.base_path@, mounted: self.mounted }
    }
}

impl View for VirtualSdCard {
    type V = MountView;

    closed spec fn view(&self) -> MountView {
        MountView { instance_id: self.instance_id@, base_path: self.base_path@, mounted: self.mounted }
    }
}

/// `<home or .>/.mycelium/instances/<instance directory>/<leaf>`.
fn instance_storage_path(home: Option<String>, instance_id: &str, leaf: &str) -> (p: String)
    requires
        leaf@.len() > 0,
        !is_separator(leaf@[0]),
        !has_parent_component(leaf@),
    ensures
        p@ == storage_path(
            match home {
                Some(h) => h@,
                None => seq!['.'],
            },
            instance_id.spec_bytes(),
            leaf@,
        ),
{
    let root = match home {
        Some(h) => h,
        None => {
            let mut dot = String::new();
            push_char(&mut dot, '.');
            dot
        },
    };
    let dot_dir = ".mycelium";
    let instances = "instances";
    proof {
        reveal_strlit(".mycelium");
        reveal_strlit("instances");
        assert(dot_dir@ =~= dot_mycelium());
        assert(instances@ =~= instances_dir());
        assert forall|i: int| !#[trigger] parent_component_at(dot_dir@, i) by {
            if parent_component_at(dot_dir@, i) {
                assert(dot_dir@[i + 1] == '.');
            }
        }
        assert forall|i: int| !#[trigger] parent_component_at(instances@, i) by {}
    }
    let a = join_onto(&root, dot_dir);
    let b = join_onto(&a, instances);
    let dir = instance_directory(instance_id);
    proof { lemma_directory_name_is_one_component(instance_id.spec_bytes()); }
    let c = join_onto(&b, dir.as_str());
    join_onto(&c, leaf)
}


impl VirtualSpiffs {
    /// The SPIFFS partition of an instance under a home directory (`.` when there is
    /// none), not yet mounted.
    pub fn in_home(home: Option<String>, instance_id: &str) -> (s: Self)
        ensures
            s@.instance_id == instance_id@,
            s@.base_path == storage_path(
                match home {
                    Some(h) => h@,
                    None => seq!['.'],
                },
                instance_id.spec_bytes(),
                spiffs_leaf(),
            ),
            !s@.mounted,
    {
        let leaf = "spiffs";
        proof {
            reveal_strlit("spiffs");
            assert(leaf@ =~= spiffs_leaf());
            assert forall|i: int| !#[trigger] parent_component_at(leaf@, i) by {}
        }
        VirtualSpiffs { instance_id: instance_id.to_owned(), base_path: instance_storage_path(home, instance_id, leaf), mounted: false }
    }

    /// The SPIFFS partition of an instance under the user's home directory.
    pub fn new(instance_id: &str) -> (s: Self)
        ensures
            s@.instance_id == instance_id@,
            exists|home: Seq<char>| s@.base_path == #[trigger] storage_path(home, instance_id.spec_bytes(), spiffs_leaf()),
            !s@.mounted,
    {
        let home = home_directory();
        let ghost h = match &home {
            Some(h) => h@,
            None => seq!['.'],
        };
        let s = Self::in_home(home, instance_id);
        assert(s@.base_path == storage_path(h, instance_id.spec_bytes(), spiffs_leaf()));
        s
    }

    /// The SPIFFS partition of an instance kept in the given directory, not yet mounted.
    pub fn at_path(instance_id: &str, base_path: String) -> (s: Self)
        ensures
            s@ == (MountView { instance_id: instance_id@, base_path: base_path@, mounted: false }),
    {
        VirtualSpiffs { instance_id: instance_id.to_owned(), base_path, mounted: false }
    }

    pub fn instance_id(&self) -> (r: &str)
        ensures
            r@ == self@.instance_id,
    {
        self.instance_id.as_str()
    }

    /// The host directory that holds the contents.
    pub fn base_path(&self) -> (r: &str)
        ensures
            r@ == self@.base_path,
    {
        self.base_path.as_str()
    }

    pub fn is_mounted(&self) -> (r: bool)
        ensures
            r == self@.mounted,
    {
        self.mounted
    }

    /// Records that the backing directory exists and the SPIFFS partition is mounted.
    pub fn mark_mounted(&mut self)
        ensures
            final(self)@ == (MountView { mounted: true, ..old(self)@ }),
    {
        self.mounted = true;
    }

    pub fn unmount(&mut self)
        ensures
            final(self)@ == (MountView { mounted: false, ..old(self)@ }),
    {
        self.mounted = false;
    }

    /// The host path of a firmware path, once mounted.
    pub fn resolve(&self, path: &str) -> (r: Result<String, StorageError>)
        ensures
            match r {
                Ok(p) => self@.mounted && safe_join_result(self@.base_path, path@) == Ok::<Seq<char>, StorageError>(p@),
                Err(e) => if self@.mounted {
                    safe_join_result(self@.base_path, path@) == Err::<Seq<char>, StorageError>(e)
                } else {
                    e == StorageError::NotMounted
                },
            },
    {
        if !self.mounted {
            return Err(StorageError::NotMounted);
        }
        safe_join(self.base_path.as_str(), path)
    }
}

impl VirtualSdCard {
    /// The SD card of an instance under a home directory (`.` when there is
    /// none), not yet mounted.
    pub fn in_home(home: Option<String>, instance_id: &str) -> (s: Self)
        ensures
            s@.instance_id == instance_id@,
            s@.base_path == storage_path(
                match home {
                    Some(h) => h@,
                    None => seq!['.'],
                },
                instance_id.spec_bytes(),
                sdcard_leaf(),
            ),
            !s@.mounted,
    {
        let leaf = "sdcard";
        proof {
            reveal_strlit("sdcard");
            assert(leaf@ =~= sdcard_leaf());
            assert forall|i: int| !#[trigger] parent_component_at(leaf@, i) by {}
        }
        VirtualSdCard { instance_id: instance_id.to_owned(), base_path: instance_storage_path(home, instance_id, leaf), mounted: false }
    }

    /// The SD card of an instance under the user's home directory.
    pub fn new(instance_id: &str) -> (s: Self)
        ensures
            s@.instance_id == instance_id@,
            exists|home: Seq<char>| s@.base_path == #[trigger] storage_path(home, instance_id.spec_bytes(), sdcard_leaf()),
            !s@.mounted,
    {
        let home = home_directory();
        let ghost h = match &home {
            Some(h) => h@,
            None => seq!['.'],
        };
        let s = Self::in_home(home, instance_id);
        assert(s@.base_path == storage_path(h, instance_id.spec_bytes(), sdcard_leaf()));
        s
    }

    /// The SD card of an instance kept in the given directory, not yet mounted.
    pub fn at_path(instance_id: &str, base_path: String) -> (s: Self)
        ensures
            s@ == (MountView { instance_id: instance_id@, base_path: base_path@, mounted: false }),
    {
        VirtualSdCard { instance_id: instance_id.to_owned(), base_path, mounted: false }
    }

    pub fn instance_id(&self) -> (r: &str)
        ensures
            r@ == self@.instance_id,
    {
        self.instance_id.as_str()
    }

    /// The host directory that holds the contents.
    pub fn base_path(&self) -> (r: &str)
        ensures
            r@ == self@.base_path,
    {
        self.base_path.as_str()
    }

    pub fn is_mounted(&self) -> (r: bool)
        ensures
            r == self@.mounted,
    {
        self.mounted
    }

    /// Records that the backing directory exists and the SD card is mounted.
    pub fn mark_mounted(&mut self)
        ensures
            final(self)@ == (MountView { mounted: true, ..old(self)@ }),
    {
        self.mounted = true;
    }

    pub fn unmount(&mut self)
        ensures
            final(self)@ == (MountView { mounted: false, ..old(self)@ }),
    {
        self.mounted = false;
    }

    /// The host path of a firmware path, once mounted.
    pub fn resolve(&self, path: &str) -> (r: Result<String, StorageError>)
        ensures
            match r {
                Ok(p) => self@.mounted && safe_join_result(self@.base_path, path@) == Ok::<Seq<char>, StorageError>(p@),
                Err(e) => if self@.mounted {
                    safe_join_result(self@.base_path, path@) == Err::<Seq<char>, StorageError>(e)
                } else {
                    e == StorageError::NotMounted
                },
            },
    {
        if !self.mounted {
            return Err(StorageError::NotMounted);
        }
        safe_join(self.base_path.as_str(), path)
    }
}

/// All virtual storage attached to one emulator instance.
pub struct StorageManager {
    pub spiffs: VirtualSpiffs,
    pub sdcard: VirtualSdCard,
}

impl StorageManager {
    pub fn new(instance_id: &str) -> (m: Self)
        ensures
            m.spiffs@.instance_id == instance_id@,
            m.sdcard@.instance_id == instance_id@,
            exists|home: Seq<char>| m.spiffs@.base_path == #[trigger] storage_path(home, instance_id.spec_bytes(), spiffs_leaf()),
            exists|home: Seq<char>| m.sdcard@.base_path == #[trigger] storage_path(home, instance_id.spec_bytes(), sdcard_leaf()),
            !m.spiffs@.mounted,
            !m.sdcard@.mounted,
    {
        StorageManager { spiffs: VirtualSpiffs::new(instance_id), sdcard: VirtualSdCard::new(instance_id) }
    }

    /// Mounts SPIFFS, then the SD card, given whether each backing directory
    /// could be created; stops at the first one that could not. Returns
    /// whether both are mounted.
    pub fn init_all(&mut self, spiffs_dir_ready: bool, sdcard_dir_ready: bool) -> (r: bool)
        ensures
            r == (spiffs_dir_ready && sdcard_dir_ready),
            final(self).spiffs@ == (MountView { mounted: old(self).spiffs@.mounted || spiffs_dir_ready, ..old(self).spiffs@ }),
            final(self).sdcard@ == (MountView {
                mounted: old(self).sdcard@.mounted || (spiffs_dir_ready && sdcard_dir_ready),
                ..old(self).sdcard@
            }),
    {
        if !spiffs_dir_ready {
            return false;
        }
        self.spiffs.mark_mounted();
        if !sdcard_dir_ready {
            return false;
        }
        self.sdcard.mark_mounted();
        true
    }

    pub fn unmount_all(&mut self)
        ensures
            final(self).spiffs@ == (MountView { mounted: false, ..old(self).spiffs@ }),
            final(self).sdcard@ == (MountView { mounted: false, ..old(self).sdcard@ }),
    {
        self.spiffs.unmount();
        self.sdcard.unmount();
    }
}

/// A resolved firmware path stays inside the instance directory: it starts
/// with the base directory, and what follows contains no `..` component.
pub proof fn law_resolved_paths_stay_inside(base: Seq<char>, path: Seq<char>)
    ensures
        safe_join_result(base, path) matches Ok(p) ==> {
            &&& p.len() >= base.len()
            &&& p.subrange(0, base.len() as int) == base
            &&& exists|rel: Seq<char>| p == #[trigger] path_join(base, rel) && !has_parent_component(rel)
        },
{
    let rel = trim_leading_separators(path);
    if !has_parent_component(rel) {
        let p = path_join(base, rel);
        if base.len() == 0 {
        } else if base.last() == '/' {
            assert(p.subrange(0, base.len() as int) =~= base);
        } else {
            assert(p.subrange(0, base.len() as int) =~= base);
        }
    }
}

} // verus!
