//! Open SD-card files addressed by small integer handles, as firmware sees
//! them: a file is opened for reading, truncated for writing, or opened for
//! appending, and each handle remembers its own byte position.

use vstd::prelude::*;

verus! {

/// Highest handle number; handles run from 1 to this value and 0 means
/// "no handle".
pub const SD_MAX_HANDLE: u32 = 255;

/// How a file is opened.
#[derive(Clone, Copy, Debug, PartialEq, Eq, Structural)]
pub enum SdOpenMode {
    /// Existing file, read-only, from its start.
    Read,
    /// File emptied (or created) and written from its start.
    Truncate,
    /// File kept (or created empty) and written at its end.
    Append,
}

pub open spec fn open_mode_spec(code: u8) -> Option<SdOpenMode> {
    if code == 0 {
        Some(SdOpenMode::Read)
    } else if code == 1 {
        Some(SdOpenMode::Truncate)
    } else if code == 2 {
        Some(SdOpenMode::Append)
    } else {
        None
    }
}

/// The mode behind a firmware mode code; unknown codes are refused.
pub fn open_mode(code: u8) -> (m: Option<SdOpenMode>)
    ensures
        m == open_mode_spec(code),
{
    if code == 0 {
        Some(SdOpenMode::Read)
    } else if code == 1 {
        Some(SdOpenMode::Truncate)
    } else if code == 2 {
        Some(SdOpenMode::Append)
    } else {
        None
    }
}

/// What the card reported about a file just before it is opened.
#[derive(Clone, Copy, Debug, PartialEq, Eq, Structural)]
pub enum FileProbe {
    /// The file could be read and holds this many bytes.
    Readable(usize),
    /// The file does not exist.
    Missing,
    /// The file exists but could not be read.
    Unreadable,
}

/// How an accepted open proceeds.
#[derive(Clone, Copy, Debug, PartialEq, Eq, Structural)]
pub struct OpenPlan {
    /// Byte position the handle starts at.
    pub position: usize,
    /// Whether the handle writes (otherwise it reads).
    pub writable: bool,
    /// Whether every write goes to the current end of the file.
    pub append: bool,
    /// Whether an empty file must be written before the handle exists.
    pub create_empty: bool,
}

pub open spec fn open_plan_spec(mode: SdOpenMode, probe: FileProbe) -> Option<OpenPlan> {
    match mode {
        SdOpenMode::Read => match probe {
            FileProbe::Readable(_) => Some(
                OpenPlan { position: 0, writable: false, append: false, create_empty: false },
            ),
            _ => None,
        },
        SdOpenMode::Truncate => Some(
            OpenPlan { position: 0, writable: true, append: false, create_empty: true },
        ),
        SdOpenMode::Append => match probe {
            FileProbe::Readable(len) => Some(
                OpenPlan { position: len, writable: true, append: true, create_empty: false },
            ),
            FileProbe::Missing => Some(
                OpenPlan { position: 0, writable: true, append: true, create_empty: true },
            ),
            FileProbe::Unreadable => None,
        },
    }
}

/// Decides whether a file can be opened in `mode`, given what the card said
/// of it, and where the new handle starts.
pub fn plan_open(mode: SdOpenMode, probe: FileProbe) -> (p: Option<OpenPlan>)
    ensures
        p == open_plan_spec(mode, probe),
{
    match mode {
        SdOpenMode::Read => match probe {
            FileProbe::Readable(_) => Some(
                OpenPlan { position: 0, writable: false, append: false, create_empty: false },
            ),
            _ => None,
        },
        SdOpenMode::Truncate => Some(
            OpenPlan { position: 0, writable: true, append: false, create_empty: true },
        ),
        SdOpenMode::Append => match probe {
            FileProbe::Readable(len) => Some(
                OpenPlan { position: len, writable: true, append: true, create_empty: false },
            ),
            FileProbe::Missing => Some(
                OpenPlan { position: 0, writable: true, append: true, create_empty: true },
            ),
            FileProbe::Unreadable => None,
        },
    }
}

/// One open file.
pub struct SdFileHandle {
    pub instance_id: String,
    pub path: String,
    pub position: usize,
    pub writable: bool,
    pub append: bool,
}

pub struct SdFileView {
    pub instance_id: Seq<char>,
    pub path: Seq<char>,
    pub position: usize,
    pub writable: bool,
    pub append: bool,
}

impl View for SdFileHandle {
    type V = SdFileView;

    open spec fn view(&self) -> SdFileView {
        SdFileView {
            instance_id: self.instance_id@,
            path: self.path@,
            position: self.position,
            writable: self.writable,
            append: self.append,
        }
    }
}

impl SdFileView {
    pub open spec fn at(self, position: usize) -> SdFileView {
        SdFileView { position, ..self }
    }
}

/// The contents after writing `bytes` at `pos` (with `pos` at most the old
/// length): the bytes before `pos`, then `bytes`, then whatever followed the
/// overwritten range.
pub open spec fn spliced(contents: Seq<u8>, pos: int, bytes: Seq<u8>) -> Seq<u8> {
    let end = pos + bytes.len();
    contents.subrange(0, pos) + bytes + if end < contents.len() {
        contents.subrange(end, contents.len() as int)
    } else {
        Seq::<u8>::empty()
    }
}

/// How many bytes a read of at most `max_len` bytes at `pos` returns.
pub open spec fn read_len(len: int, pos: int, max_len: int) -> int {
    let left = if len > pos { len - pos } else { 0 };
    if left < max_len { left } else { max_len }
}

/// The bytes a read of at most `max_len` bytes at `pos` returns.
pub open spec fn read_window(contents: Seq<u8>, pos: int, max_len: int) -> Seq<u8> {
    if pos < contents.len() {
        contents.subrange(pos, pos + read_len(contents.len() as int, pos, max_len))
    } else {
        Seq::empty()
    }
}

/// Handles that are in use, each mapped to its open file.
pub struct SdFileTable {
    slots: Vec<Option<SdFileHandle>>,
}

pub open spec fn handle_in_range(h: u32) -> bool {
    1 <= h <= SD_MAX_HANDLE
}

impl View for SdFileTable {
    type V = Map<u32, SdFileView>;

    closed spec fn view(&self) -> Map<u32, SdFileView> {
        Map::new(
            |h: u32| handle_in_range(h) && self.slots@[h - 1] is Some,
            |h: u32| self.slots@[h - 1]->Some_0@,
        )
    }
}

/// The table without the files of one instance.
pub open spec fn without_instance(m: Map<u32, SdFileView>, instance_id: Seq<char>) -> Map<u32, SdFileView> {
    Map::new(|h: u32| m.contains_key(h) && m[h].instance_id != instance_id, |h: u32| m[h])
}

impl SdFileTable {
    pub closed spec fn wf(&self) -> bool {
        self.slots@.len() == SD_MAX_HANDLE
    }

    fn swap_slot(&mut self, i: usize, slot: Option<SdFileHandle>) -> (prev: Option<SdFileHandle>)
        requires
            old(self).wf(),
            i < old(self).slots@.len(),
        ensures
            final(self).wf(),
            final(self).slots@ == old(self).slots@.update(i as int, slot),
            prev == old(self).slots@[i as int],
    {
        let prev = self.slots.remove(i);
        self.slots.insert(i, slot);
        assert(self.slots@ =~= old(self).slots@.update(i as int, slot));
        prev
    }

    /// No file is open.
    pub fn new() -> (t: Self)
        ensures
            t.wf(),
            t@ == Map::<u32, SdFileView>::empty(),
    {
        let mut slots: Vec<Option<SdFileHandle>> = Vec::new();
        let mut i: u32 = 0;
        while i < SD_MAX_HANDLE
            invariant
                i <= SD_MAX_HANDLE,
                slots@.len() == i,
                forall|j: int| 0 <= j < i ==> slots@[j] is None,
            decreases SD_MAX_HANDLE - i,
        {
            slots.push(None);
            i = i + 1;
        }
        let t = SdFileTable { slots };
        assert(t@ =~= Map::<u32, SdFileView>::empty());
        t
    }

    /// Whether `handle` names an open file.
    pub fn contains(&self, handle: u32) -> (r: bool)
        requires
            self.wf(),
        ensures
            r == self@.contains_key(handle),
    {
        if handle == 0 || handle > SD_MAX_HANDLE {
            false
        } else {
            self.slots[(handle - 1) as usize].is_some()
        }
    }

    /// The lowest handle that is not in use, if any is left.
    pub fn free_handle(&self) -> (r: Option<u32>)
        requires
            self.wf(),
        ensures
            match r {
                Some(h) => {
                    &&& handle_in_range(h)
                    &&& !self@.contains_key(h)
                    &&& forall|k: u32| 1 <= k < h ==> #[trigger] self@.contains_key(k)
                },
                None => forall|k: u32| handle_in_range(k) ==> #[trigger] self@.contains_key(k),
            },
    {
        let mut h: u32 = 1;
        while h <= SD_MAX_HANDLE
            invariant
                self.wf(),
                1 <= h <= SD_MAX_HANDLE + 1,
                forall|k: u32| 1 <= k < h ==> #[trigger] self@.contains_key(k),
            decreases SD_MAX_HANDLE + 1 - h,
        {
            if !self.contains(h) {
                return Some(h);
            }
            h = h + 1;
        }
        None
    }

    /// The open file behind `handle`.
    pub fn get(&self, handle: u32) -> (r: Option<&SdFileHandle>)
        requires
            self.wf(),
        ensures
            match r {
                Some(f) => self@.contains_key(handle) && f@ == self@[handle],
                None => !self@.contains_key(handle),
            },
    {
        if handle == 0 || handle > SD_MAX_HANDLE {
            None
        } else {
            match &self.slots[(handle - 1) as usize] {
                Some(f) => Some(f),
                None => None,
            }
        }
    }

    /// Registers a file opened by `instance_id` under the lowest free
    /// handle and returns that handle, or 0 when every handle is in use.
    pub fn open(&mut self, instance_id: &str, path: &str, plan: OpenPlan) -> (h: u32)
        requires
            old(self).wf(),
        ensures
            final(self).wf(),
            h == 0 <==> forall|k: u32| handle_in_range(k) ==> #[trigger] old(self)@.contains_key(k),
            h == 0 ==> final(self)@ == old(self)@,
            h != 0 ==> {
                &&& handle_in_range(h)
                &&& !old(self)@.contains_key(h)
                &&& forall|k: u32| 1 <= k < h ==> #[trigger] old(self)@.contains_key(k)
                &&& final(self)@ == old(self)@.insert(
                    h,
                    SdFileView {
                        instance_id: instance_id@,
                        path: path@,
                        position: plan.position,
                        writable: plan.writable,
                        append: plan.append,
                    },
                )
            },
    {
        match self.free_handle() {
            None => 0,
            Some(h) => {
                let file = SdFileHandle {
                    instance_id: instance_id.to_owned(),
                    path: path.to_owned(),
                    position: plan.position,
                    writable: plan.writable,
                    append: plan.append,
                };
                let ghost old_view = self@;
                let ghost fv = file@;
                self.slots.set((h - 1) as usize, Some(file));
                assert(self@ =~= old_view.insert(h, fv));
                h
            },
        }
    }

    /// Forgets `handle`; whether it was open.
    pub fn close(&mut self, handle: u32) -> (r: bool)
        requires
            old(self).wf(),
        ensures
            final(self).wf(),
            r == old(self)@.contains_key(handle),
            final(self)@ == old(self)@.remove(handle),
    {
        if handle == 0 || handle > SD_MAX_HANDLE {
            assert(self@ =~= old(self)@.remove(handle));
            false
        } else {
            let i = (handle - 1) as usize;
            let was_open = self.slots[i].is_some();
            let ghost old_view = self@;
            self.slots.set(i, None);
            assert(self@ =~= old_view.remove(handle));
            was_open
        }
    }

    /// Forgets every handle that `instance_id` opened.
    pub fn close_instance(&mut self, instance_id: &str)
        requires
            old(self).wf(),
        ensures
            final(self).wf(),
            final(self)@ == without_instance(old(self)@, instance_id@),
    {
        let ghost old_view = self@;
        let ghost old_slots = self.slots@;
        let key = instance_id.to_owned();
        let mut i: usize = 0;
        while i < self.slots.len()
            invariant
                self.wf(),
                key@ == instance_id@,
                old_slots.len() == SD_MAX_HANDLE,
                old_view == Map::new(
                    |h: u32| handle_in_range(h) && old_slots[h - 1] is Some,
                    |h: u32| old_slots[h - 1]->Some_0@,
                ),
                i <= self.slots@.len(),
                forall|j: int| i <= j < self.slots@.len() ==> self.slots@[j] == old_slots[j],
                forall|j: int|
                    0 <= j < i ==> #[trigger] self.slots@[j] == (match old_slots[j] {
                        Some(f) => if f.instance_id@ == instance_id@ {
                            None
                        } else {
                            Some(f)
                        },
                        None => None,
                    }),
            decreases self.slots@.len() - i,
        {
            let drop_it = match &self.slots[i] {
                Some(f) => f.instance_id == key,
                None => false,
            };
            if drop_it {
                self.slots.set(i, None);
            }
            i = i + 1;
        }
        assert forall|h: u32| #[trigger] self@.contains_key(h) == without_instance(old_view, instance_id@).contains_key(h) by {
            if handle_in_range(h) {
                assert(self.slots@[h - 1] == (match old_slots[h - 1] {
                    Some(f) => if f.instance_id@ == instance_id@ {
                        None
                    } else {
                        Some(f)
                    },
                    None => None,
                }));
            }
        }
        assert forall|h: u32| #[trigger] self@.contains_key(h) implies self@[h] == without_instance(old_view, instance_id@)[h] by {
            assert(self.slots@[h - 1] == (match old_slots[h - 1] {
                Some(f) => if f.instance_id@ == instance_id@ {
                    None
                } else {
                    Some(f)
                },
                None => None,
            }));
        }
        assert(self@ =~= without_instance(old_view, instance_id@));
    }

    /// Prepares a write of `bytes` through `handle` into a file that now
    /// holds `contents`. An appending handle first moves to the end of the
    /// file. Returns the new contents and the position after the written
    /// bytes; nothing when the handle is not open for writing, sits past the
    /// end of the file, or the end position does not fit.
    pub fn begin_write(&mut self, handle: u32, contents: &[u8], bytes: &[u8]) -> (r: Option<(Vec<u8>, usize)>)
        requires
            old(self).wf(),
        ensures
            final(self).wf(),
            !(old(self)@.contains_key(handle) && old(self)@[handle].writable) ==> {
                &&& r is None
                &&& final(self)@ == old(self)@
            },
            old(self)@.contains_key(handle) && old(self)@[handle].writable ==> {
                let f = old(self)@[handle];
                let pos: usize = if f.append { contents@.len() as usize } else { f.position };
                let fits = pos <= contents@.len() && pos + bytes@.len() <= usize::MAX;
                &&& final(self)@ == old(self)@.insert(handle, f.at(pos))
                &&& !fits ==> r is None
                &&& fits ==> {
                    &&& r is Some
                    &&& r->Some_0.0@ == spliced(contents@, pos as int, bytes@)
                    &&& r->Some_0.1 == pos + bytes@.len()
                }
            },
    {
        if handle == 0 || handle > SD_MAX_HANDLE {
            return None;
        }
        let i = (handle - 1) as usize;
        let ghost old_view = self@;
        let mut file = match self.swap_slot(i, None) {
            Some(f) => f,
            None => {
                assert(self@ =~= old_view);
                return None;
            },
        };
        if !file.writable {
            self.swap_slot(i, Some(file));
            assert(self@ =~= old_view);
            return None;
        }
        if file.append {
            file.position = contents.len();
        }
        let pos = file.position;
        let ghost fv = file@;
        self.swap_slot(i, Some(file));
        assert(self@ =~= old_view.insert(handle, fv));
        if pos > contents.len() || bytes.len() > usize::MAX - pos {
            return None;
        }
        let end = pos + bytes.len();
        let mut out: Vec<u8> = Vec::new();
        let mut j: usize = 0;
        while j < pos
            invariant
                pos <= contents@.len(),
                j <= pos,
                out@ == contents@.subrange(0, j as int),
            decreases pos - j,
        {
            out.push(contents[j]);
            j = j + 1;
        }
        let mut k: usize = 0;
        while k < bytes.len()
            invariant
                pos <= contents@.len(),
                k <= bytes@.len(),
                out@ == contents@.subrange(0, pos as int) + bytes@.subrange(0, k as int),
            decreases bytes@.len() - k,
        {
            out.push(bytes[k]);
            k = k + 1;
        }
        assert(bytes@.subrange(0, bytes@.len() as int) =~= bytes@);
        if end < contents.len() {
            let mut m: usize = end;
            assert(out@ =~= contents@.subrange(0, pos as int) + bytes@ + contents@.subrange(end as int, m as int));
            while m < contents.len()
                invariant
                    end == pos + bytes@.len(),
                    end <= m <= contents@.len(),
                    out@ == contents@.subrange(0, pos as int) + bytes@ + contents@.subrange(end as int, m as int),
                decreases contents@.len() - m,
            {
                out.push(contents[m]);
                m = m + 1;
            }
        }
        assert(out@ =~= spliced(contents@, pos as int, bytes@));
        Some((out, end))
    }

    /// Records that a prepared write reached the card: the handle moves to
    /// `end`.
    pub fn finish_write(&mut self, handle: u32, end: usize)
        requires
            old(self).wf(),
        ensures
            final(self).wf(),
            old(self)@.contains_key(handle) ==> final(self)@ == old(self)@.insert(handle, old(self)@[handle].at(end)),
            !old(self)@.contains_key(handle) ==> final(self)@ == old(self)@,
    {
        if handle == 0 || handle > SD_MAX_HANDLE {
            return;
        }
        let i = (handle - 1) as usize;
        let ghost old_view = self@;
        match self.swap_slot(i, None) {
            Some(mut file) => {
                file.position = end;
                let ghost fv = file@;
                self.swap_slot(i, Some(file));
                assert(self@ =~= old_view.insert(handle, fv));
            },
            None => {
                assert(self@ =~= old_view);
            },
        }
    }

    /// Reads at most `max_len` bytes through a read-only `handle` from a file
    /// that now holds `contents`, and moves the handle past them; nothing
    /// when the handle is not open for reading.
    pub fn read(&mut self, handle: u32, contents: &[u8], max_len: usize) -> (r: Option<Vec<u8>>)
        requires
            old(self).wf(),
        ensures
            final(self).wf(),
            !(old(self)@.contains_key(handle) && !old(self)@[handle].writable) ==> {
                &&& r is None
                &&& final(self)@ == old(self)@
            },
            old(self)@.contains_key(handle) && !old(self)@[handle].writable ==> {
                let f = old(self)@[handle];
                let n = read_len(contents@.len() as int, f.position as int, max_len as int);
                &&& r is Some
                &&& r->Some_0@ == read_window(contents@, f.position as int, max_len as int)
                &&& final(self)@ == old(self)@.insert(handle, f.at((f.position + n) as usize))
            },
    {
        if handle == 0 || handle > SD_MAX_HANDLE {
            return None;
        }
        let i = (handle - 1) as usize;
        let ghost old_view = self@;
        let mut file = match self.swap_slot(i, None) {
            Some(f) => f,
            None => {
                assert(self@ =~= old_view);
                return None;
            },
        };
        if file.writable {
            self.swap_slot(i, Some(file));
            assert(self@ =~= old_view);
            return None;
        }
        let pos = file.position;
        let left: usize = if contents.len() > pos { contents.len() - pos } else { 0 };
        let n: usize = if left < max_len { left } else { max_len };
        let mut out: Vec<u8> = Vec::new();
        if n > 0 {
            let len = contents.len();
            let mut j: usize = 0;
            while j < n
                invariant
                    len == contents@.len(),
                    pos + n <= contents@.len(),
                    j <= n,
                    out@ == contents@.subrange(pos as int, pos + j),
                decreases n - j,
            {
                out.push(contents[pos + j]);
                j = j + 1;
            }
        }
        assert(out@ =~= read_window(contents@, pos as int, max_len as int));
        file.position = pos + n;
        let ghost fv = file@;
        self.swap_slot(i, Some(file));
        assert(self@ =~= old_view.insert(handle, fv));
        Some(out)
    }
}

/// Reading back, at the position of a write and for the length of the
/// written bytes, gives exactly the written bytes; what lay before the write
/// is unchanged, and the file grows only as far as the write reached.
pub proof fn law_read_returns_written_bytes(contents: Seq<u8>, pos: int, bytes: Seq<u8>)
    requires
        0 <= pos <= contents.len(),
    ensures
        read_window(spliced(contents, pos, bytes), pos, bytes.len() as int) == bytes,
        spliced(contents, pos, bytes).subrange(0, pos) == contents.subrange(0, pos),
        spliced(contents, pos, bytes).len() == if pos + bytes.len() > contents.len() {
            pos + bytes.len()
        } else {
            contents.len() as int
        },
{
    let s = spliced(contents, pos, bytes);
    assert(s.subrange(pos, pos + bytes.len()) =~= bytes);
    if bytes.len() == 0 {
        assert(read_window(s, pos, 0) =~= bytes);
    }
    assert(s.subrange(0, pos) =~= contents.subrange(0, pos));
}

/// What the card reported is true of `existing`: a readable file holds
/// exactly the reported number of bytes.
pub open spec fn probe_describes(probe: FileProbe, existing: Seq<u8>) -> bool {
    match probe {
        FileProbe::Readable(len) => existing.len() == len,
        FileProbe::Missing => existing.len() == 0,
        FileProbe::Unreadable => true,
    }
}

/// The file a new handle sees: emptied when the plan creates it empty,
/// otherwise as it was.
pub open spec fn contents_at_open(plan: OpenPlan, existing: Seq<u8>) -> Seq<u8> {
    if plan.create_empty { Seq::empty() } else { existing }
}

/// Opening for writing replaces the file: whatever the file held, and
/// whatever the card reported of it, a write of `bytes` through a fresh
/// write handle leaves the file holding exactly `bytes`. Opening for
/// appending keeps it: the same write leaves the old contents followed by
/// `bytes`. Opening for reading never changes the file and starts at its
/// first byte.
pub proof fn law_write_mode_replaces_and_append_extends(probe: FileProbe, existing: Seq<u8>, bytes: Seq<u8>)
    requires
        probe_describes(probe, existing),
    ensures
        open_plan_spec(SdOpenMode::Truncate, probe) matches Some(plan) && plan.writable && !plan.append
            && spliced(contents_at_open(plan, existing), plan.position as int, bytes) == bytes,
        open_plan_spec(SdOpenMode::Append, probe) matches Some(plan) ==> plan.writable && plan.append
            && spliced(contents_at_open(plan, existing), plan.position as int, bytes) == existing + bytes,
        open_plan_spec(SdOpenMode::Append, probe) is None <==> probe == FileProbe::Unreadable,
        open_plan_spec(SdOpenMode::Read, probe) matches Some(plan) ==> !plan.writable && !plan.create_empty
            && plan.position == 0 && read_window(contents_at_open(plan, existing), 0, existing.len() as int) == existing,
        open_plan_spec(SdOpenMode::Read, probe) is Some <==> probe is Readable,
{
    let t = open_plan_spec(SdOpenMode::Truncate, probe).unwrap();
    assert(spliced(contents_at_open(t, existing), t.position as int, bytes) =~= bytes);
    if let Some(a) = open_plan_spec(SdOpenMode::Append, probe) {
        let start = contents_at_open(a, existing);
        assert(start =~= existing);
        assert(spliced(start, a.position as int, bytes) =~= existing + bytes);
    }
    if let Some(r) = open_plan_spec(SdOpenMode::Read, probe) {
        assert(read_window(existing, 0, existing.len() as int) =~= existing);
    }
}

} // verus!
