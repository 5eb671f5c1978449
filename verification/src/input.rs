//! Host input mapped onto the T-Deck's keyboard matrix, trackball and
//! GT911 touch panel, with per-instance event queues.

use vstd::prelude::*;

use std::collections::VecDeque;

use crate::gt911::DEFAULT_GT911_CONTACT_SIZE;
use crate::keyed::{find_key, key_map, keys_distinct, lemma_key_map_at, lemma_key_map_push, lemma_key_map_remove, lemma_key_map_update};

verus! {

/// The host keys the emulator maps; every other key is `Other`.
#[derive(Clone, Copy, Debug, PartialEq, Eq, Structural)]
pub enum HostKey {
    Q, W, E, R, T, Y, U, I, O, P,
    A, S, D, F, G, H, J, K, L,
    Z, X, C, V, B, N, M, Comma, Period,
    LShift, RShift, Space, Return, Backspace,
    Up, Down, Left, Right,
    Other,
}

/// Position and labels of one key in the T-Deck keyboard matrix.
#[derive(Clone, Copy, Debug, PartialEq, Eq)]
pub struct TDeckKeyMapping {
    pub row: u8,
    pub col: u8,
    pub label: char,
    pub shifted: char,
}

/// A matrix key transition as the ESP32-C3 reports it.
#[derive(Clone, Copy, Debug, PartialEq, Eq)]
pub struct KeyEvent {
    pub row: u8,
    pub col: u8,
    pub pressed: bool,
    /// Exact byte returned by the T-Deck ESP32-C3 for this key; shift keys
    /// have no byte of their own and use `0x00`.
    pub key_byte: u8,
}

pub open spec fn km(row: u8, col: u8, label: char, shifted: char) -> Option<TDeckKeyMapping> {
    Some(TDeckKeyMapping { row, col, label, shifted })
}

/// Where each host key sits in the T-Deck matrix.
pub open spec fn key_mapping_spec(key: HostKey) -> Option<TDeckKeyMapping> {
    match key {
        HostKey::Q => km(0, 0, 'q', 'Q'),
        HostKey::W => km(0, 1, 'w', 'W'),
        HostKey::E => km(0, 2, 'e', 'E'),
        HostKey::R => km(0, 3, 'r', 'R'),
        HostKey::T => km(0, 4, 't', 'T'),
        HostKey::Y => km(0, 5, 'y', 'Y'),
        HostKey::U => km(0, 6, 'u', 'U'),
        HostKey::I => km(0, 7, 'i', 'I'),
        HostKey::O => km(0, 8, 'o', 'O'),
        HostKey::P => km(0, 9, 'p', 'P'),
        HostKey::A => km(1, 0, 'a', 'A'),
        HostKey::S => km(1, 1, 's', 'S'),
        HostKey::D => km(1, 2, 'd', 'D'),
        HostKey::F => km(1, 3, 'f', 'F'),
        HostKey::G => km(1, 4, 'g', 'G'),
        HostKey::H => km(1, 5, 'h', 'H'),
        HostKey::J => km(1, 6, 'j', 'J'),
        HostKey::K => km(1, 7, 'k', 'K'),
        HostKey::L => km(1, 8, 'l', 'L'),
        HostKey::Z => km(2, 0, 'z', 'Z'),
        HostKey::X => km(2, 1, 'x', 'X'),
        HostKey::C => km(2, 2, 'c', 'C'),
        HostKey::V => km(2, 3, 'v', 'V'),
        HostKey::B => km(2, 4, 'b', 'B'),
        HostKey::N => km(2, 5, 'n', 'N'),
        HostKey::M => km(2, 6, 'm', 'M'),
        HostKey::Comma => km(2, 7, ',', '<'),
        HostKey::Period => km(2, 8, '.', '>'),
        HostKey::LShift => km(3, 0, '\0', '\0'),
        HostKey::RShift => km(3, 0, '\0', '\0'),
        HostKey::Space => km(3, 1, ' ', ' '),
        HostKey::Return => km(3, 2, '\r', '\r'),
        HostKey::Backspace => km(3, 3, '\u{8}', '\u{8}'),
        _ => None,
    }
}

/// The letter printed on a host letter key.
pub open spec fn host_key_letter(key: HostKey) -> Option<char> {
    match key {
        HostKey::A => Some('a'), HostKey::B => Some('b'), HostKey::C => Some('c'), HostKey::D => Some('d'),
        HostKey::E => Some('e'), HostKey::F => Some('f'), HostKey::G => Some('g'), HostKey::H => Some('h'),
        HostKey::I => Some('i'), HostKey::J => Some('j'), HostKey::K => Some('k'), HostKey::L => Some('l'),
        HostKey::M => Some('m'), HostKey::N => Some('n'), HostKey::O => Some('o'), HostKey::P => Some('p'),
        HostKey::Q => Some('q'), HostKey::R => Some('r'), HostKey::S => Some('s'), HostKey::T => Some('t'),
        HostKey::U => Some('u'), HostKey::V => Some('v'), HostKey::W => Some('w'), HostKey::X => Some('x'),
        HostKey::Y => Some('y'), HostKey::Z => Some('z'),
        _ => None,
    }
}

/// The T-Deck keyboard matrix row by row, left to right, by unshifted
/// character: three QWERTY rows, then shift (no character), space, return
/// and backspace.
pub open spec fn tdeck_key_rows() -> Seq<Seq<char>> {
    seq![
        seq!['q', 'w', 'e', 'r', 't', 'y', 'u', 'i', 'o', 'p'],
        seq!['a', 's', 'd', 'f', 'g', 'h', 'j', 'k', 'l'],
        seq!['z', 'x', 'c', 'v', 'b', 'n', 'm', ',', '.'],
        seq!['\0', ' ', '\r', '\u{8}'],
    ]
}

/// The characters a host key that is not a letter types, unshifted and
/// shifted; shift keys type none.
pub open spec fn host_key_symbols(key: HostKey) -> Option<(char, char)> {
    match key {
        HostKey::Comma => Some((',', '<')),
        HostKey::Period => Some(('.', '>')),
        HostKey::Space => Some((' ', ' ')),
        HostKey::Return => Some(('\r', '\r')),
        HostKey::Backspace => Some(('\u{8}', '\u{8}')),
        HostKey::LShift | HostKey::RShift => Some(('\0', '\0')),
        _ => None,
    }
}

/// Both shift keys are one matrix key; every other key stands for itself.
pub open spec fn matrix_key(key: HostKey) -> HostKey {
    if key == HostKey::RShift { HostKey::LShift } else { key }
}

/// The key that sits at a matrix position.
spec fn key_at(row: u8, col: u8) -> HostKey {
    if row == 0 {
        if col == 0 { HostKey::Q } else if col == 1 { HostKey::W } else if col == 2 { HostKey::E }
        else if col == 3 { HostKey::R } else if col == 4 { HostKey::T } else if col == 5 { HostKey::Y }
        else if col == 6 { HostKey::U } else if col == 7 { HostKey::I } else if col == 8 { HostKey::O }
        else { HostKey::P }
    } else if row == 1 {
        if col == 0 { HostKey::A } else if col == 1 { HostKey::S } else if col == 2 { HostKey::D }
        else if col == 3 { HostKey::F } else if col == 4 { HostKey::G } else if col == 5 { HostKey::H }
        else if col == 6 { HostKey::J } else if col == 7 { HostKey::K } else { HostKey::L }
    } else if row == 2 {
        if col == 0 { HostKey::Z } else if col == 1 { HostKey::X } else if col == 2 { HostKey::C }
        else if col == 3 { HostKey::V } else if col == 4 { HostKey::B } else if col == 5 { HostKey::N }
        else if col == 6 { HostKey::M } else if col == 7 { HostKey::Comma } else { HostKey::Period }
    } else {
        if col == 0 { HostKey::LShift } else if col == 1 { HostKey::Space } else if col == 2 { HostKey::Return }
        else { HostKey::Backspace }
    }
}

/// The key that types a character unshifted.
spec fn key_typing(c: char) -> HostKey {
    if c == 'q' { HostKey::Q } else if c == 'w' { HostKey::W } else if c == 'e' { HostKey::E }
    else if c == 'r' { HostKey::R } else if c == 't' { HostKey::T } else if c == 'y' { HostKey::Y }
    else if c == 'u' { HostKey::U } else if c == 'i' { HostKey::I } else if c == 'o' { HostKey::O }
    else if c == 'p' { HostKey::P } else if c == 'a' { HostKey::A } else if c == 's' { HostKey::S }
    else if c == 'd' { HostKey::D } else if c == 'f' { HostKey::F } else if c == 'g' { HostKey::G }
    else if c == 'h' { HostKey::H } else if c == 'j' { HostKey::J } else if c == 'k' { HostKey::K }
    else if c == 'l' { HostKey::L } else if c == 'z' { HostKey::Z } else if c == 'x' { HostKey::X }
    else if c == 'c' { HostKey::C } else if c == 'v' { HostKey::V } else if c == 'b' { HostKey::B }
    else if c == 'n' { HostKey::N } else if c == 'm' { HostKey::M } else if c == ',' { HostKey::Comma }
    else if c == '.' { HostKey::Period } else if c == ' ' { HostKey::Space } else if c == '\r' { HostKey::Return }
    else if c == '\u{8}' { HostKey::Backspace } else { HostKey::LShift }
}

proof fn lemma_mapping_decodes(key: HostKey)
    ensures
        key_mapping_spec(key) matches Some(m) ==> key_at(m.row, m.col) == matrix_key(key)
            && key_typing(m.label) == matrix_key(key),
{
}

/// Every letter key types its own letter: unshifted the lowercase letter
/// printed on the host key, shifted the matching capital.
pub proof fn law_letter_keys_type_their_letter(key: HostKey)
    ensures
        host_key_letter(key) matches Some(c) ==> key_mapping_spec(key) matches Some(m)
            && m.label == c && m.shifted as int == c as int - 32,
{
}

/// Every mapped key sits in the matrix where the T-Deck keyboard has its
/// character; the keys that are neither letters nor arrows type the
/// characters printed on them, and the arrow keys and unknown keys have no
/// matrix position.
pub proof fn law_matrix_follows_layout(key: HostKey)
    ensures
        key_mapping_spec(key) matches Some(m) ==> (m.row < 4 && m.col < tdeck_key_rows()[m.row as int].len()
            && tdeck_key_rows()[m.row as int][m.col as int] == m.label),
        host_key_symbols(key) matches Some((label, shifted)) ==> (key_mapping_spec(key) matches Some(m)
            && m.label == label && m.shifted == shifted),
        key_mapping_spec(key) is Some <==> (host_key_letter(key) is Some || host_key_symbols(key) is Some),
{
}

/// Distinct keys are told apart: apart from the two shift keys, which are
/// one matrix key, no two mapped host keys share a matrix position or a
/// character.
pub proof fn law_key_mapping_is_injective(a: HostKey, b: HostKey)
    ensures
        matrix_key(a) != matrix_key(b) ==> (key_mapping_spec(a) matches Some(ma) ==> (key_mapping_spec(b) matches Some(mb)
            ==> (ma.row, ma.col) != (mb.row, mb.col) && ma.label != mb.label)),
{
    lemma_mapping_decodes(a);
    lemma_mapping_decodes(b);
}

/// Pressing a letter key that is not already down reports a press of that
/// key and types its letter: the capital while either shift key is held,
/// the lowercase letter otherwise; releasing it reports a release.
pub proof fn law_letter_press_types_letter(pressed_before: Set<HostKey>, key: HostKey)
    ensures
        host_key_letter(key) matches Some(c) ==> (!pressed_before.contains(key) ==> (
            key_transition(pressed_before, key, true) matches Some((after, e))
            && after == pressed_before.insert(key)
            && e.pressed
            && e.key_byte as int == if pressed_before.contains(HostKey::LShift) || pressed_before.contains(HostKey::RShift) {
                c as int - 32
            } else {
                c as int
            })),
        host_key_letter(key) is Some ==> (pressed_before.contains(key) ==> (
            key_transition(pressed_before, key, false) matches Some((after, e))
            && after == pressed_before.remove(key) && !e.pressed)),
{
    if host_key_letter(key) is Some {
        let after = pressed_before.insert(key);
        assert(after.contains(HostKey::LShift) == pressed_before.contains(HostKey::LShift));
        assert(after.contains(HostKey::RShift) == pressed_before.contains(HostKey::RShift));
    }
}

pub fn key_mapping(key: HostKey) -> (m: Option<TDeckKeyMapping>)
    ensures
        m == key_mapping_spec(key),
{
    let (row, col, label, shifted): (u8, u8, char, char) = match key {
        HostKey::Q => (0, 0, 'q', 'Q'),
        HostKey::W => (0, 1, 'w', 'W'),
        HostKey::E => (0, 2, 'e', 'E'),
        HostKey::R => (0, 3, 'r', 'R'),
        HostKey::T => (0, 4, 't', 'T'),
        HostKey::Y => (0, 5, 'y', 'Y'),
        HostKey::U => (0, 6, 'u', 'U'),
        HostKey::I => (0, 7, 'i', 'I'),
        HostKey::O => (0, 8, 'o', 'O'),
        HostKey::P => (0, 9, 'p', 'P'),
        HostKey::A => (1, 0, 'a', 'A'),
        HostKey::S => (1, 1, 's', 'S'),
        HostKey::D => (1, 2, 'd', 'D'),
        HostKey::F => (1, 3, 'f', 'F'),
        HostKey::G => (1, 4, 'g', 'G'),
        HostKey::H => (1, 5, 'h', 'H'),
        HostKey::J => (1, 6, 'j', 'J'),
        HostKey::K => (1, 7, 'k', 'K'),
        HostKey::L => (1, 8, 'l', 'L'),
        HostKey::Z => (2, 0, 'z', 'Z'),
        HostKey::X => (2, 1, 'x', 'X'),
        HostKey::C => (2, 2, 'c', 'C'),
        HostKey::V => (2, 3, 'v', 'V'),
        HostKey::B => (2, 4, 'b', 'B'),
        HostKey::N => (2, 5, 'n', 'N'),
        HostKey::M => (2, 6, 'm', 'M'),
        HostKey::Comma => (2, 7, ',', '<'),
        HostKey::Period => (2, 8, '.', '>'),
        HostKey::LShift => (3, 0, '\0', '\0'),
        HostKey::RShift => (3, 0, '\0', '\0'),
        HostKey::Space => (3, 1, ' ', ' '),
        HostKey::Return => (3, 2, '\r', '\r'),
        HostKey::Backspace => (3, 3, '\u{8}', '\u{8}'),
        _ => return None,
    };
    Some(TDeckKeyMapping { row, col, label, shifted })
}

/// Mathematical state of the keyboard emulator.
pub struct KeyboardView {
    pub pressed: Set<HostKey>,
    pub last_event: Option<KeyEvent>,
}

/// Host keyboard mapped onto the T-Deck matrix, with repeat suppression
/// and independent left/right shift tracking.
pub struct KeyboardEmulator {
    pressed_keys: Vec<HostKey>,
    last_event: Option<KeyEvent>,
}

impl View for KeyboardEmulator {
    type V = KeyboardView;

    closed spec fn view(&self) -> KeyboardView {
        KeyboardView { pressed: self.pressed_keys@.to_set(), last_event: self.last_event }
    }
}

/// The event a key transition produces, given the keys held before it.
pub open spec fn key_transition(pressed_before: Set<HostKey>, key: HostKey, pressed: bool) -> Option<(Set<HostKey>, KeyEvent)> {
    match key_mapping_spec(key) {
        None => None,
        Some(m) => {
            if pressed == pressed_before.contains(key) {
                None
            } else {
                let after = if pressed { pressed_before.insert(key) } else { pressed_before.remove(key) };
                let shift = after.contains(HostKey::LShift) || after.contains(HostKey::RShift);
                Some((
                    after,
                    KeyEvent { row: m.row, col: m.col, pressed, key_byte: if shift { m.shifted as u8 } else { m.label as u8 } },
                ))
            }
        },
    }
}

impl KeyboardEmulator {
    pub closed spec fn wf(&self) -> bool {
        self.pressed_keys@.no_duplicates()
    }

    pub fn new() -> (k: Self)
        ensures
            k.wf(),
            k@.pressed == Set::<HostKey>::empty(),
            k@.last_event is None,
    {
        let k = KeyboardEmulator { pressed_keys: Vec::new(), last_event: None };
        assert(k@.pressed =~= Set::<HostKey>::empty());
        k
    }

    fn position(&self, key: HostKey) -> (r: Option<usize>)
        ensures
            match r {
                Some(i) => i < self.pressed_keys@.len() && self.pressed_keys@[i as int] == key,
                None => !self.pressed_keys@.contains(key),
            },
    {
        let mut i: usize = 0;
        while i < self.pressed_keys.len()
            invariant
                i <= self.pressed_keys@.len(),
                forall|j: int| 0 <= j < i ==> self.pressed_keys@[j] != key,
            decreases self.pressed_keys@.len() - i,
        {
            if self.pressed_keys[i] == key {
                return Some(i);
            }
            i = i + 1;
        }
        None
    }

    /// Applies a host key transition; `None` for unmapped keys, repeats and
    /// releases of keys that are not held.
    pub fn handle_key(&mut self, key: HostKey, pressed: bool) -> (r: Option<KeyEvent>)
        requires
            old(self).wf(),
        ensures
            final(self).wf(),
            match key_transition(old(self)@.pressed, key, pressed) {
                None => r is None && final(self)@ == old(self)@,
                Some((after, event)) => r == Some(event) && final(self)@ == (KeyboardView {
                    pressed: after,
                    last_event: Some(event),
                }),
            },
    {
        let mapping = match key_mapping(key) {
            Some(m) => m,
            None => return None,
        };
        let ghost before = self.pressed_keys@;
        match self.position(key) {
            Some(i) => {
                if pressed {
                    return None;
                }
                self.pressed_keys.remove(i);
                proof {
                    assert(self.pressed_keys@.to_set() =~= before.to_set().remove(key)) by {
                        assert forall|x: HostKey| self.pressed_keys@.contains(x) <==> (before.contains(x) && x != key) by {
                            if self.pressed_keys@.contains(x) {
                                let j = choose|j: int| 0 <= j < self.pressed_keys@.len() && self.pressed_keys@[j] == x;
                                let oj = if j < i { j } else { j + 1 };
                                assert(before[oj] == x);
                                assert(oj != i);
                            }
                            if before.contains(x) && x != key {
                                let j = choose|j: int| 0 <= j < before.len() && before[j] == x;
                                if j < i {
                                    assert(self.pressed_keys@[j] == x);
                                } else {
                                    assert(j != i);
                                    assert(self.pressed_keys@[j - 1] == x);
                                }
                            }
                        }
                    }
                    assert(self.pressed_keys@.no_duplicates()) by {
                        assert forall|a: int, b: int| 0 <= a < self.pressed_keys@.len() && 0 <= b < self.pressed_keys@.len() && a != b
                            implies self.pressed_keys@[a] != self.pressed_keys@[b] by {
                            let oa = if a < i { a } else { a + 1 };
                            let ob = if b < i { b } else { b + 1 };
                            assert(self.pressed_keys@[a] == before[oa] && self.pressed_keys@[b] == before[ob]);
                        }
                    }
                }
            },
            None => {
                if !pressed {
                    return None;
                }
                self.pressed_keys.push(key);
                proof {
                    assert(self.pressed_keys@.to_set() =~= before.to_set().insert(key)) by {
                        assert forall|x: HostKey| self.pressed_keys@.contains(x) <==> (before.contains(x) || x == key) by {
                            if self.pressed_keys@.contains(x) {
                                let j = choose|j: int| 0 <= j < self.pressed_keys@.len() && self.pressed_keys@[j] == x;
                                if j < before.len() {
                                    assert(before[j] == x);
                                }
                            }
                            if before.contains(x) {
                                let j = choose|j: int| 0 <= j < before.len() && before[j] == x;
                                assert(self.pressed_keys@[j] == x);
                            }
                            if x == key {
                                assert(self.pressed_keys@[before.len() as int] == x);
                            }
                        }
                    }
                    assert(self.pressed_keys@.no_duplicates()) by {
                        assert forall|a: int, b: int| 0 <= a < self.pressed_keys@.len() && 0 <= b < self.pressed_keys@.len() && a != b
                            implies self.pressed_keys@[a] != self.pressed_keys@[b] by {
                            if a < before.len() && b < before.len() {
                                assert(self.pressed_keys@[a] == before[a] && self.pressed_keys@[b] == before[b]);
                            } else if a < before.len() {
                                assert(self.pressed_keys@[a] == before[a]);
                            } else {
                                assert(self.pressed_keys@[b] == before[b]);
                            }
                        }
                    }
                }
            },
        }
        let shift_active = self.position(HostKey::LShift).is_some() || self.position(HostKey::RShift).is_some();
        let event = KeyEvent {
            row: mapping.row,
            col: mapping.col,
            pressed,
            key_byte: if shift_active { mapping.shifted as u8 } else { mapping.label as u8 },
        };
        self.last_event = Some(event);
        Some(event)
    }

    pub fn get_last(&self) -> (r: Option<KeyEvent>)
        ensures
            r == self@.last_event,
    {
        self.last_event
    }
}

impl Default for KeyboardEmulator {
    fn default() -> (k: Self)
        ensures
            k@.pressed == Set::<HostKey>::empty(),
            k@.last_event is None,
    {
        KeyboardEmulator::new()
    }
}

// ----- trackball ------------------------------------------------------------

/// T-Deck five-direction trackball.
#[derive(Clone, Copy, Debug, PartialEq, Eq)]
pub enum TrackballDirection {
    Up,
    Down,
    Left,
    Right,
    Center,
}

#[derive(Clone, Copy, Debug, PartialEq, Eq)]
pub struct TrackballEvent {
    pub direction: TrackballDirection,
    pub pressed: bool,
    pub timestamp_ms: u64,
}

/// The trackball direction a host key stands for: the arrows, and Return
/// for a centre click.
pub open spec fn trackball_direction(key: HostKey) -> Option<TrackballDirection> {
    match key {
        HostKey::Up => Some(TrackballDirection::Up),
        HostKey::Down => Some(TrackballDirection::Down),
        HostKey::Left => Some(TrackballDirection::Left),
        HostKey::Right => Some(TrackballDirection::Right),
        HostKey::Return => Some(TrackballDirection::Center),
        _ => None,
    }
}

pub struct TrackballEmulator {
    last_event: Option<TrackballEvent>,
}

impl TrackballEmulator {
    pub fn new() -> (t: Self)
        ensures
            t.get_last_spec() is None,
    {
        TrackballEmulator { last_event: None }
    }

    pub closed spec fn get_last_spec(&self) -> Option<TrackballEvent> {
        self.last_event
    }

    /// The trackball event for a host key, stamped at time zero.
    pub fn handle_key(&mut self, key: HostKey, pressed: bool) -> (r: Option<TrackballEvent>)
        ensures
            match trackball_direction(key) {
                None => r is None && final(self).get_last_spec() == old(self).get_last_spec(),
                Some(direction) => r == Some(TrackballEvent { direction, pressed, timestamp_ms: 0 })
                    && final(self).get_last_spec() == r,
            },
    {
        let direction = match key {
            HostKey::Up => TrackballDirection::Up,
            HostKey::Down => TrackballDirection::Down,
            HostKey::Left => TrackballDirection::Left,
            HostKey::Right => TrackballDirection::Right,
            HostKey::Return => TrackballDirection::Center,
            _ => return None,
        };
        let event = TrackballEvent { direction, pressed, timestamp_ms: 0 };
        self.last_event = Some(event);
        Some(event)
    }

    pub fn get_last(&self) -> (r: Option<TrackballEvent>)
        ensures
            r == self.get_last_spec(),
    {
        self.last_event
    }
}

impl Default for TrackballEmulator {
    fn default() -> (t: Self)
        ensures
            t.get_last_spec() is None,
    {
        TrackballEmulator::new()
    }
}

// ----- touch ----------------------------------------------------------------

/// GT911 touch event in the panel's portrait coordinates.
#[derive(Clone, Copy, Debug, PartialEq, Eq)]
pub struct Gt911TouchEvent {
    pub x: u16,
    pub y: u16,
    pub pressure: u8,
    pub touch_id: u8,
}

pub open spec fn clamp(v: int, lo: int, hi: int) -> int {
    if v < lo { lo } else if v > hi { hi } else { v }
}

/// The portrait-panel event for a landscape host position.
pub open spec fn portrait_spec(host_x: i32, host_y: i32, pressed: bool, contact_size: u16) -> Gt911TouchEvent {
    Gt911TouchEvent {
        x: clamp(host_y as int, 0, 239) as u16,
        y: clamp(319 - host_x, 0, 319) as u16,
        pressure: if pressed { if contact_size > 255 { 255 } else { contact_size as u8 } } else { 0 },
        touch_id: 0,
    }
}

/// Rotates a landscape host position into the portrait panel: `x` from the
/// host row, `y` mirrored from the host column, both clamped to the panel;
/// pressure is the contact size (at most 255) while pressed.
pub fn portrait_event(host_x: i32, host_y: i32, pressed: bool, contact_size: u16) -> (e: Gt911TouchEvent)
    requires
        319 - host_x <= i32::MAX,
    ensures
        e == portrait_spec(host_x, host_y, pressed, contact_size),
{
    let x: i32 = if host_y < 0 { 0 } else if host_y > 239 { 239 } else { host_y };
    let flipped: i32 = 319 - host_x;
    let y: i32 = if flipped < 0 { 0 } else if flipped > 319 { 319 } else { flipped };
    let pressure: u8 = if pressed {
        if contact_size > 255 { 255 } else { contact_size as u8 }
    } else {
        0
    };
    Gt911TouchEvent { x: x as u16, y: y as u16, pressure, touch_id: 0 }
}

/// Mathematical state of the touch emulator.
pub struct TouchView {
    pub display_width: u32,
    pub display_height: u32,
    pub last_host_position: Option<(i32, i32)>,
    pub last_touch: Option<Gt911TouchEvent>,
    pub contact_size: u16,
    pub pressing: bool,
}

/// Host mouse contact mapped onto the GT911 panel. Positions are host
/// display coordinates (the window scale is removed before they arrive).
pub struct TouchEmulator {
    display_width: u32,
    display_height: u32,
    last_host_position: Option<(i32, i32)>,
    last_touch: Option<Gt911TouchEvent>,
    contact_size: u16,
    pressing: bool,
}

impl View for TouchEmulator {
    type V = TouchView;

    closed spec fn view(&self) -> TouchView {
        TouchView {
            display_width: self.display_width,
            display_height: self.display_height,
            last_host_position: self.last_host_position,
            last_touch: self.last_touch,
            contact_size: self.contact_size,
            pressing: self.pressing,
        }
    }
}

/// Host positions inside the display are non-negative and inside its size.
pub open spec fn on_display(v: TouchView, x: i32, y: i32) -> bool {
    0 <= x && 0 <= y && x < v.display_width as i32 && y < v.display_height as i32
}

/// Positions this emulator records lie on a display no wider than
/// `i32::MAX` columns, so they rotate without overflow.
pub open spec fn touch_inv(v: TouchView) -> bool {
    match v.last_host_position {
        Some((x, _)) => 0 <= x,
        None => true,
    }
}

/// The effect of host pointer motion to (x, y).
pub open spec fn motion_effect(v: TouchView, x: i32, y: i32) -> (TouchView, Option<Gt911TouchEvent>) {
    if !on_display(v, x, y) {
        (v, None)
    } else if !v.pressing {
        (TouchView { last_host_position: Some((x, y)), ..v }, None)
    } else {
        let e = portrait_spec(x, y, true, v.contact_size);
        (TouchView { last_host_position: Some((x, y)), last_touch: Some(e), ..v }, Some(e))
    }
}

/// The effect of a mouse button transition at the last known position.
pub open spec fn button_effect(v: TouchView, left: bool, pressed: bool) -> (TouchView, Option<Gt911TouchEvent>) {
    if !left || v.pressing == pressed {
        (v, None)
    } else {
        match v.last_host_position {
            None => (TouchView { pressing: pressed, ..v }, None),
            Some((hx, hy)) => {
                let e = portrait_spec(hx, hy, pressed, v.contact_size);
                (TouchView { pressing: pressed, last_touch: Some(e), ..v }, Some(e))
            },
        }
    }
}

impl TouchEmulator {
    /// No contact, no known position, default contact size.
    pub fn new(display_width: u32, display_height: u32) -> (t: Self)
        ensures
            touch_inv(t@),
            t@ == (TouchView {
                display_width,
                display_height,
                last_host_position: None,
                last_touch: None,
                contact_size: DEFAULT_GT911_CONTACT_SIZE,
                pressing: false,
            }),
    {
        TouchEmulator {
            display_width,
            display_height,
            last_host_position: None,
            last_touch: None,
            contact_size: DEFAULT_GT911_CONTACT_SIZE,
            pressing: false,
        }
    }

    /// A host position if it lies on the display.
    pub fn host_position(&self, x: i32, y: i32) -> (r: Option<(i32, i32)>)
        ensures
            r == (if on_display(self@, x, y) { Some((x, y)) } else { None::<(i32, i32)> }),
    {
        if x < 0 || y < 0 {
            return None;
        }
        if x < self.display_width as i32 && y < self.display_height as i32 {
            Some((x, y))
        } else {
            None
        }
    }

    /// Tracks the host pointer; emits an event only while a contact is active.
    pub fn handle_motion(&mut self, x: i32, y: i32) -> (r: Option<Gt911TouchEvent>)
        requires
            touch_inv(old(self)@),
        ensures
            touch_inv(final(self)@),
            (final(self)@, r) == motion_effect(old(self)@, x, y),
    {
        let position = match self.host_position(x, y) {
            Some(p) => p,
            None => return None,
        };
        self.last_host_position = Some(position);
        if !self.pressing {
            return None;
        }
        let event = portrait_event(position.0, position.1, true, self.contact_size);
        self.last_touch = Some(event);
        Some(event)
    }

    /// A button transition at the last known position: only the left button
    /// counts, and only when it changes the contact state.
    pub fn handle_button(&mut self, left: bool, pressed: bool) -> (r: Option<Gt911TouchEvent>)
        requires
            touch_inv(old(self)@),
        ensures
            touch_inv(final(self)@),
            (final(self)@, r) == button_effect(old(self)@, left, pressed),
    {
        if !left {
            return None;
        }
        if self.pressing == pressed {
            return None;
        }
        self.pressing = pressed;
        let (hx, hy) = match self.last_host_position {
            Some(p) => p,
            None => return None,
        };
        let event = portrait_event(hx, hy, pressed, self.contact_size);
        self.last_touch = Some(event);
        Some(event)
    }

    /// A button transition at a host position: an off-display press is
    /// ignored, while an off-display release still ends an active contact
    /// at its last position.
    pub fn handle_button_at(&mut self, left: bool, pressed: bool, x: i32, y: i32) -> (r: Option<Gt911TouchEvent>)
        requires
            touch_inv(old(self)@),
        ensures
            touch_inv(final(self)@),
            (final(self)@, r) == (if on_display(old(self)@, x, y) {
                button_effect(TouchView { last_host_position: Some((x, y)), ..old(self)@ }, left, pressed)
            } else if pressed {
                (old(self)@, None)
            } else {
                button_effect(old(self)@, left, pressed)
            }),
    {
        match self.host_position(x, y) {
            Some(p) => {
                self.last_host_position = Some(p);
            },
            None => {
                if pressed {
                    return None;
                }
            },
        }
        self.handle_button(left, pressed)
    }

    /// Injects a landscape host position directly; off-display positions are
    /// refused.
    pub fn inject(&mut self, x: u16, y: u16, pressed: bool) -> (r: Option<Gt911TouchEvent>)
        requires
            touch_inv(old(self)@),
        ensures
            touch_inv(final(self)@),
            x >= old(self)@.display_width as u16 || y >= old(self)@.display_height as u16 ==> r is None && final(self)@
                == old(self)@,
            x < old(self)@.display_width as u16 && y < old(self)@.display_height as u16 ==> r == Some(
                portrait_spec(x as i32, y as i32, pressed, old(self)@.contact_size),
            ) && final(self)@ == (TouchView {
                pressing: pressed,
                last_host_position: Some((x as i32, y as i32)),
                last_touch: r,
                ..old(self)@
            }),
    {
        if x >= self.display_width as u16 || y >= self.display_height as u16 {
            return None;
        }
        self.pressing = pressed;
        self.last_host_position = Some((x as i32, y as i32));
        let event = portrait_event(x as i32, y as i32, pressed, self.contact_size);
        self.last_touch = Some(event);
        Some(event)
    }

    pub fn get_last(&self) -> (r: Option<Gt911TouchEvent>)
        ensures
            r == self@.last_touch,
    {
        self.last_touch
    }

    pub fn set_contact_size(&mut self, contact_size: u16)
        ensures
            final(self)@ == (TouchView { contact_size, ..old(self)@ }),
    {
        self.contact_size = contact_size;
    }

    pub fn contact_size(&self) -> (r: u16)
        ensures
            r == self@.contact_size,
    {
        self.contact_size
    }

    pub fn last_host_position(&self) -> (r: Option<(i32, i32)>)
        ensures
            r == self@.last_host_position,
    {
        self.last_host_position
    }
}


// ----- per-instance input manager --------------------------------------------

#[derive(Clone, Copy, Debug, PartialEq, Eq)]
pub enum InputEvent {
    Touch(Gt911TouchEvent),
    Keyboard(KeyEvent),
    Trackball(TrackballEvent),
}

/// A host window event, with mouse positions already in display
/// coordinates.
#[derive(Clone, Copy, Debug, PartialEq, Eq)]
pub enum HostInput {
    MouseMotion { x: i32, y: i32 },
    MouseButton { left: bool, pressed: bool, x: i32, y: i32 },
    Key { key: HostKey, pressed: bool },
    Other,
}

/// Mathematical state of an input manager's queues.
pub struct QueuesView {
    pub touch_events: Seq<Gt911TouchEvent>,
    pub keyboard_events: Seq<KeyEvent>,
    pub trackball_events: Seq<TrackballEvent>,
    pub last_activity_ms: u64,
}

/// The emulated peripherals of one instance and the events they produced
/// that the firmware has not yet polled.
pub struct InputManager {
    touch: TouchEmulator,
    keyboard: KeyboardEmulator,
    trackball: TrackballEmulator,
    instance_id: String,
    last_activity_ms: u64,
    touch_events: VecDeque<Gt911TouchEvent>,
    keyboard_events: VecDeque<KeyEvent>,
    trackball_events: VecDeque<TrackballEvent>,
}

/// The trackball emulator's last event after a host key transition: the
/// new event, stamped at time zero, when the key is a trackball key.
pub open spec fn trackball_after(last: Option<TrackballEvent>, key: HostKey, pressed: bool) -> Option<TrackballEvent> {
    match trackball_direction(key) {
        Some(direction) => Some(TrackballEvent { direction, pressed, timestamp_ms: 0 }),
        None => last,
    }
}

/// The keyboard and trackball events for one host key transition.
pub open spec fn key_events(kb: KeyboardView, key: HostKey, pressed: bool, now_ms: u64) -> (Seq<KeyEvent>, Seq<TrackballEvent>) {
    (
        match key_transition(kb.pressed, key, pressed) {
            Some((_, e)) => seq![e],
            None => Seq::empty(),
        },
        match trackball_direction(key) {
            Some(direction) => seq![TrackballEvent { direction, pressed, timestamp_ms: now_ms }],
            None => Seq::empty(),
        },
    )
}

impl InputManager {
    pub closed spec fn wf(&self) -> bool {
        touch_inv(self.touch@) && self.keyboard.wf()
    }

    pub closed spec fn touch_view(&self) -> TouchView {
        self.touch@
    }

    pub closed spec fn keyboard_view(&self) -> KeyboardView {
        self.keyboard@
    }

    /// The last event the trackball emulator produced.
    pub closed spec fn trackball_last(&self) -> Option<TrackballEvent> {
        self.trackball.get_last_spec()
    }

    /// The touch panel emulator.
    pub fn touch(&self) -> (t: &TouchEmulator)
        ensures
            t@ == self.touch_view(),
    {
        &self.touch
    }

    /// The keyboard emulator.
    pub fn keyboard(&self) -> (k: &KeyboardEmulator)
        ensures
            k@ == self.keyboard_view(),
    {
        &self.keyboard
    }

    /// The trackball emulator.
    pub fn trackball(&self) -> (t: &TrackballEmulator)
        ensures
            t.get_last_spec() == self.trackball_last(),
    {
        &self.trackball
    }

    /// Sets the contact size that drives touch pressure.
    pub fn set_contact_size(&mut self, contact_size: u16)
        requires
            old(self).wf(),
        ensures
            final(self).wf(),
            final(self).touch_view() == (TouchView { contact_size, ..old(self).touch_view() }),
            final(self).keyboard_view() == old(self).keyboard_view(),
            final(self).trackball_last() == old(self).trackball_last(),
            final(self).queues() == old(self).queues(),
            final(self).id_view() == old(self).id_view(),
    {
        self.touch.set_contact_size(contact_size);
    }

    pub closed spec fn queues(&self) -> QueuesView {
        QueuesView {
            touch_events: self.touch_events@,
            keyboard_events: self.keyboard_events@,
            trackball_events: self.trackball_events@,
            last_activity_ms: self.last_activity_ms,
        }
    }

    pub closed spec fn id_view(&self) -> Seq<char> {
        self.instance_id@
    }

    /// Fresh peripherals for a 320x240 display, active at `now_ms`.
    pub fn new(instance_id: &str, now_ms: u64) -> (m: Self)
        ensures
            m.wf(),
            m.id_view() == instance_id@,
            m.touch_view() == (TouchView {
                display_width: 320,
                display_height: 240,
                last_host_position: None,
                last_touch: None,
                contact_size: DEFAULT_GT911_CONTACT_SIZE,
                pressing: false,
            }),
            m.keyboard_view().pressed == Set::<HostKey>::empty(),
            m.keyboard_view().last_event is None,
            m.trackball_last() is None,
            m.queues() == (QueuesView {
                touch_events: Seq::empty(),
                keyboard_events: Seq::empty(),
                trackball_events: Seq::empty(),
                last_activity_ms: now_ms,
            }),
    {
        let m = InputManager {
            touch: TouchEmulator::new(320, 240),
            keyboard: KeyboardEmulator::new(),
            trackball: TrackballEmulator::new(),
            instance_id: instance_id.to_owned(),
            last_activity_ms: now_ms,
            touch_events: VecDeque::new(),
            keyboard_events: VecDeque::new(),
            trackball_events: VecDeque::new(),
        };
        assert(m.queues().touch_events =~= Seq::<Gt911TouchEvent>::empty());
        assert(m.queues().keyboard_events =~= Seq::<KeyEvent>::empty());
        assert(m.queues().trackball_events =~= Seq::<TrackballEvent>::empty());
        m
    }

    pub fn instance_id(&self) -> (r: &str)
        ensures
            r@ == self.id_view(),
    {
        self.instance_id.as_str()
    }

    fn handle_key_input(&mut self, key: HostKey, pressed: bool, now_ms: u64, events: &mut Vec<InputEvent>)
        requires
            old(self).wf(),
        ensures
            final(self).wf(),
            final(self).touch_view() == old(self).touch_view(),
            final(self).id_view() == old(self).id_view(),
            final(self).queues().touch_events == old(self).queues().touch_events,
            final(self).queues().last_activity_ms == old(self).queues().last_activity_ms,
            final(self).trackball_last() == trackball_after(old(self).trackball_last(), key, pressed),
            ({
                let (k, t) = key_events(old(self).keyboard_view(), key, pressed, now_ms);
                &&& final(self).queues().keyboard_events == old(self).queues().keyboard_events + k
                &&& final(self).queues().trackball_events == old(self).queues().trackball_events + t
                &&& final(events)@ == old(events)@ + k.map_values(|e: KeyEvent| InputEvent::Keyboard(e)) + t.map_values(
                    |e: TrackballEvent| InputEvent::Trackball(e),
                )
            }),
            match key_transition(old(self).keyboard_view().pressed, key, pressed) {
                None => final(self).keyboard_view() == old(self).keyboard_view(),
                Some((after, e)) => final(self).keyboard_view() == (KeyboardView { pressed: after, last_event: Some(e) }),
            },
    {
        let ghost kq = self.keyboard_events@;
        let ghost tq = self.trackball_events@;
        let ghost ev = events@;
        let ghost kb = self.keyboard_view();
        if let Some(event) = self.keyboard.handle_key(key, pressed) {
            self.keyboard_events.push_back(event);
            events.push(InputEvent::Keyboard(event));
        }
        let ghost mid = events@;
        if let Some(event) = self.trackball.handle_key(key, pressed) {
            let stamped = TrackballEvent { direction: event.direction, pressed: event.pressed, timestamp_ms: now_ms };
            self.trackball_events.push_back(stamped);
            events.push(InputEvent::Trackball(stamped));
        }
        proof {
            let (k, t) = key_events(kb, key, pressed, now_ms);
            assert(self.keyboard_events@ =~= kq + k);
            assert(self.trackball_events@ =~= tq + t);
            assert(mid =~= ev + k.map_values(|e: KeyEvent| InputEvent::Keyboard(e)));
            assert(events@ =~= ev + k.map_values(|e: KeyEvent| InputEvent::Keyboard(e)) + t.map_values(
                |e: TrackballEvent| InputEvent::Trackball(e),
            ));
        }
    }

    /// Processes one host event at `now_ms`, queues the peripheral events it
    /// produces and returns them. Every input counts as user activity.
    pub fn handle_host_input(&mut self, input: HostInput, now_ms: u64) -> (events: Vec<InputEvent>)
        requires
            old(self).wf(),
        ensures
            final(self).wf(),
            final(self).id_view() == old(self).id_view(),
            final(self).queues().last_activity_ms == (if input is Other { old(self).queues().last_activity_ms } else { now_ms }),
            final(self).trackball_last() == match input {
                HostInput::Key { key, pressed } => trackball_after(old(self).trackball_last(), key, pressed),
                _ => old(self).trackball_last(),
            },
            match input {
                HostInput::Key { key, pressed } => {
                    let (k, t) = key_events(old(self).keyboard_view(), key, pressed, now_ms);
                    &&& final(self).queues().keyboard_events == old(self).queues().keyboard_events + k
                    &&& final(self).queues().trackball_events == old(self).queues().trackball_events + t
                    &&& final(self).queues().touch_events == old(self).queues().touch_events
                    &&& events@ == k.map_values(|e: KeyEvent| InputEvent::Keyboard(e)) + t.map_values(
                        |e: TrackballEvent| InputEvent::Trackball(e),
                    )
                    &&& final(self).touch_view() == old(self).touch_view()
                },
                HostInput::MouseMotion { x, y } => {
                    let (v, e) = motion_effect(old(self).touch_view(), x, y);
                    &&& final(self).touch_view() == v
                    &&& final(self).keyboard_view() == old(self).keyboard_view()
                    &&& final(self).queues().keyboard_events == old(self).queues().keyboard_events
                    &&& final(self).queues().trackball_events == old(self).queues().trackball_events
                    &&& match e {
                        Some(t) => final(self).queues().touch_events == old(self).queues().touch_events.push(t)
                            && events@ == seq![InputEvent::Touch(t)],
                        None => final(self).queues().touch_events == old(self).queues().touch_events && events@.len() == 0,
                    }
                },
                HostInput::MouseButton { left, pressed, x, y } => {
                    let (v, e) = button_effect(motion_effect(old(self).touch_view(), x, y).0, left, pressed);
                    &&& final(self).touch_view() == v
                    &&& final(self).keyboard_view() == old(self).keyboard_view()
                    &&& final(self).queues().keyboard_events == old(self).queues().keyboard_events
                    &&& final(self).queues().trackball_events == old(self).queues().trackball_events
                    &&& match e {
                        Some(t) => final(self).queues().touch_events == old(self).queues().touch_events.push(t)
                            && events@ == seq![InputEvent::Touch(t)],
                        None => final(self).queues().touch_events == old(self).queues().touch_events && events@.len() == 0,
                    }
                },
                HostInput::Other => {
                    &&& final(self).touch_view() == old(self).touch_view()
                    &&& final(self).keyboard_view() == old(self).keyboard_view()
                    &&& final(self).queues() == old(self).queues()
                    &&& events@.len() == 0
                },
            },
    {
        let mut events: Vec<InputEvent> = Vec::new();
        match input {
            HostInput::MouseMotion { x, y } => {
                self.last_activity_ms = now_ms;
                if let Some(event) = self.touch.handle_motion(x, y) {
                    self.touch_events.push_back(event);
                    events.push(InputEvent::Touch(event));
                }
                assert(events@ =~= seq![InputEvent::Touch(events@[0]->Touch_0)] || events@.len() == 0);
            },
            HostInput::MouseButton { left, pressed, x, y } => {
                self.last_activity_ms = now_ms;
                let _ = self.touch.handle_motion(x, y);
                if let Some(event) = self.touch.handle_button(left, pressed) {
                    self.touch_events.push_back(event);
                    events.push(InputEvent::Touch(event));
                }
            },
            HostInput::Key { key, pressed } => {
                self.last_activity_ms = now_ms;
                self.handle_key_input(key, pressed, now_ms, &mut events);
                assert(events@ =~= Seq::<InputEvent>::empty() + events@);
            },
            HostInput::Other => {},
        }
        proof {
            match input {
                HostInput::Key { key, pressed } => {
                    let (k, t) = key_events(old(self).keyboard_view(), key, pressed, now_ms);
                    assert(events@ =~= k.map_values(|e: KeyEvent| InputEvent::Keyboard(e)) + t.map_values(
                        |e: TrackballEvent| InputEvent::Trackball(e),
                    ));
                },
                _ => {},
            }
        }
        events
    }

    /// Injects a touch at landscape host coordinates; false when off-display.
    pub fn inject_touch(&mut self, x: u16, y: u16, pressed: bool, now_ms: u64) -> (r: bool)
        requires
            old(self).wf(),
        ensures
            final(self).wf(),
            final(self).id_view() == old(self).id_view(),
            final(self).keyboard_view() == old(self).keyboard_view(),
            final(self).trackball_last() == old(self).trackball_last(),
            final(self).queues().last_activity_ms == now_ms,
            r == (x < old(self).touch_view().display_width as u16 && y < old(self).touch_view().display_height as u16),
            r ==> final(self).queues().touch_events == old(self).queues().touch_events.push(
                portrait_spec(x as i32, y as i32, pressed, old(self).touch_view().contact_size),
            ),
            !r ==> final(self).queues().touch_events == old(self).queues().touch_events,
            final(self).queues().keyboard_events == old(self).queues().keyboard_events,
            final(self).queues().trackball_events == old(self).queues().trackball_events,
    {
        self.last_activity_ms = now_ms;
        match self.touch.inject(x, y, pressed) {
            Some(event) => {
                self.touch_events.push_back(event);
                true
            },
            None => false,
        }
    }

    /// Injects a host key transition at `now_ms`.
    pub fn inject_key(&mut self, key: HostKey, pressed: bool, now_ms: u64) -> (events: Vec<InputEvent>)
        requires
            old(self).wf(),
        ensures
            final(self).wf(),
            final(self).id_view() == old(self).id_view(),
            final(self).queues().last_activity_ms == now_ms,
            final(self).trackball_last() == trackball_after(old(self).trackball_last(), key, pressed),
            ({
                let (k, t) = key_events(old(self).keyboard_view(), key, pressed, now_ms);
                &&& final(self).queues().keyboard_events == old(self).queues().keyboard_events + k
                &&& final(self).queues().trackball_events == old(self).queues().trackball_events + t
                &&& final(self).queues().touch_events == old(self).queues().touch_events
                &&& events@ == k.map_values(|e: KeyEvent| InputEvent::Keyboard(e)) + t.map_values(
                    |e: TrackballEvent| InputEvent::Trackball(e),
                )
            }),
    {
        self.last_activity_ms = now_ms;
        let mut events: Vec<InputEvent> = Vec::new();
        self.handle_key_input(key, pressed, now_ms, &mut events);
        assert(events@ =~= Seq::<InputEvent>::empty() + events@);
        proof {
            let (k, t) = key_events(old(self).keyboard_view(), key, pressed, now_ms);
            assert(events@ =~= k.map_values(|e: KeyEvent| InputEvent::Keyboard(e)) + t.map_values(
                |e: TrackballEvent| InputEvent::Trackball(e),
            ));
        }
        events
    }

    pub fn poll_touch(&mut self) -> (r: Option<Gt911TouchEvent>)
        requires
            old(self).wf(),
        ensures
            final(self).wf(),
            final(self).touch_view() == old(self).touch_view(),
            final(self).keyboard_view() == old(self).keyboard_view(),
            final(self).trackball_last() == old(self).trackball_last(),
            final(self).id_view() == old(self).id_view(),
            old(self).queues().touch_events.len() == 0 ==> r is None && final(self).queues() == old(self).queues(),
            old(self).queues().touch_events.len() > 0 ==> r == Some(old(self).queues().touch_events[0])
                && final(self).queues() == (QueuesView { touch_events: old(self).queues().touch_events.drop_first(), ..old(self).queues() }),
    {
        self.touch_events.pop_front()
    }

    pub fn poll_keyboard(&mut self) -> (r: Option<KeyEvent>)
        requires
            old(self).wf(),
        ensures
            final(self).wf(),
            final(self).touch_view() == old(self).touch_view(),
            final(self).keyboard_view() == old(self).keyboard_view(),
            final(self).trackball_last() == old(self).trackball_last(),
            final(self).id_view() == old(self).id_view(),
            old(self).queues().keyboard_events.len() == 0 ==> r is None && final(self).queues() == old(self).queues(),
            old(self).queues().keyboard_events.len() > 0 ==> r == Some(old(self).queues().keyboard_events[0])
                && final(self).queues() == (QueuesView { keyboard_events: old(self).queues().keyboard_events.drop_first(), ..old(self).queues() }),
    {
        self.keyboard_events.pop_front()
    }

    pub fn poll_trackball(&mut self) -> (r: Option<TrackballEvent>)
        requires
            old(self).wf(),
        ensures
            final(self).wf(),
            final(self).touch_view() == old(self).touch_view(),
            final(self).keyboard_view() == old(self).keyboard_view(),
            final(self).trackball_last() == old(self).trackball_last(),
            final(self).id_view() == old(self).id_view(),
            old(self).queues().trackball_events.len() == 0 ==> r is None && final(self).queues() == old(self).queues(),
            old(self).queues().trackball_events.len() > 0 ==> r == Some(old(self).queues().trackball_events[0])
                && final(self).queues() == (QueuesView { trackball_events: old(self).queues().trackball_events.drop_first(), ..old(self).queues() }),
    {
        self.trackball_events.pop_front()
    }

    /// Resets the display auto-off timer.
    pub fn wake(&mut self, now_ms: u64)
        requires
            old(self).wf(),
        ensures
            final(self).wf(),
            final(self).touch_view() == old(self).touch_view(),
            final(self).keyboard_view() == old(self).keyboard_view(),
            final(self).trackball_last() == old(self).trackball_last(),
            final(self).id_view() == old(self).id_view(),
            final(self).queues() == (QueuesView { last_activity_ms: now_ms, ..old(self).queues() }),
    {
        self.last_activity_ms = now_ms;
    }

    /// Whether `timeout_ms` has passed since the last user activity.
    pub fn should_auto_off(&self, now_ms: u64, timeout_ms: u64) -> (r: bool)
        ensures
            r == ((if now_ms >= self.queues().last_activity_ms { now_ms - self.queues().last_activity_ms } else { 0 })
                >= timeout_ms),
    {
        now_ms.saturating_sub(self.last_activity_ms) >= timeout_ms
    }

    pub fn last_activity_ms(&self) -> (r: u64)
        ensures
            r == self.queues().last_activity_ms,
    {
        self.last_activity_ms
    }
}

/// The input manager of every running instance.
pub struct InputRegistry {
    managers: Vec<(String, InputManager)>,
}

impl InputRegistry {
    pub closed spec fn wf(&self) -> bool {
        &&& keys_distinct(self.managers@)
        &&& forall|i: int| 0 <= i < self.managers@.len() ==> (#[trigger] self.managers@[i]).1.wf()
    }

    /// The registered instance ids.
    pub closed spec fn ids(&self) -> Set<Seq<char>> {
        key_map(self.managers@).dom()
    }

    pub fn new() -> (r: Self)
        ensures
            r.wf(),
            r.ids() == Set::<Seq<char>>::empty(),
    {
        let r = InputRegistry { managers: Vec::new() };
        assert(r.ids() =~= Set::<Seq<char>>::empty());
        r
    }

    /// Registers a fresh manager for an instance, replacing any previous one.
    pub fn register_input_manager(&mut self, instance_id: &str, now_ms: u64)
        requires
            old(self).wf(),
        ensures
            final(self).wf(),
            final(self).ids() == old(self).ids().insert(instance_id@),
    {
        let manager = InputManager::new(instance_id, now_ms);
        let ghost old_m = self.managers@;
        match find_key(&self.managers, instance_id) {
            Some(i) => {
                let (id, _) = self.managers.remove(i);
                self.managers.insert(i, (id, manager));
                proof {
                    let t = self.managers@;
                    assert(t == old_m.update(i as int, (old_m[i as int].0, t[i as int].1)));
                    lemma_key_map_update(old_m, i as int, t[i as int].1);
                    assert forall|j: int| 0 <= j < t.len() implies (#[trigger] t[j]).1.wf() by {
                        if j != i {
                            assert(t[j] == old_m[j]);
                        }
                    }
                    lemma_key_map_at(old_m, i as int);
                }
            },
            None => {
                self.managers.push((instance_id.to_owned(), manager));
                proof {
                    let t = self.managers@;
                    lemma_key_map_push(old_m, t.last().0, t.last().1);
                    assert(t == old_m.push((t.last().0, t.last().1)));
                    assert forall|j: int| 0 <= j < t.len() implies (#[trigger] t[j]).1.wf() by {
                        if j < old_m.len() {
                            assert(t[j] == old_m[j]);
                        }
                    }
                }
            },
        }
        assert(self.ids() =~= old(self).ids().insert(instance_id@));
    }

    pub fn get_input_manager(&self, instance_id: &str) -> (r: Option<&InputManager>)
        requires
            self.wf(),
        ensures
            match r {
                Some(m) => m.wf() && self.ids().contains(instance_id@),
                None => !self.ids().contains(instance_id@),
            },
    {
        match find_key(&self.managers, instance_id) {
            Some(i) => {
                proof { lemma_key_map_at(self.managers@, i as int); }
                Some(&self.managers[i].1)
            },
            None => None,
        }
    }

    pub fn get_input_manager_mut(&mut self, instance_id: &str) -> (r: Option<&mut InputManager>)
        requires
            old(self).wf(),
        ensures
            match r {
                Some(m) => {
                    &&& m.wf()
                    &&& old(self).ids().contains(instance_id@)
                    &&& final(self).ids() == old(self).ids()
                    &&& (final(m).wf() ==> final(self).wf())
                },
                None => !old(self).ids().contains(instance_id@) && *final(self) == *old(self),
            },
    {
        match find_key(&self.managers, instance_id) {
            Some(i) => {
                let ghost old_m = self.managers@;
                proof { lemma_key_map_at(old_m, i as int); }
                let entry = &mut self.managers[i];
                proof {
                    lemma_key_map_update(old_m, i as int, final(entry).1);
                    assert(key_map(old_m.update(i as int, (old_m[i as int].0, final(entry).1))).dom() =~= key_map(old_m).dom());
                }
                Some(&mut entry.1)
            },
            None => None,
        }
    }

    /// Drops an instance's manager.
    pub fn remove_input_manager(&mut self, instance_id: &str)
        requires
            old(self).wf(),
        ensures
            final(self).wf(),
            final(self).ids() == old(self).ids().remove(instance_id@),
    {
        match find_key(&self.managers, instance_id) {
            Some(i) => {
                let ghost old_m = self.managers@;
                proof {
                    lemma_key_map_at(old_m, i as int);
                    lemma_key_map_remove(old_m, i as int);
                }
                self.managers.remove(i);
                proof {
                    let t = self.managers@;
                    assert forall|j: int| 0 <= j < t.len() implies (#[trigger] t[j]).1.wf() by {
                        if j < i {
                            assert(t[j] == old_m[j]);
                        } else {
                            assert(t[j] == old_m[j + 1]);
                        }
                    }
                }
                assert(self.ids() =~= old(self).ids().remove(instance_id@));
            },
            None => {
                assert(old(self).ids().remove(instance_id@) =~= old(self).ids());
            },
        }
    }
}

/// Holding a key down produces one event: a repeated press is suppressed,
/// and so is a release of a key that is not held.
pub proof fn law_key_repeats_are_suppressed(pressed: Set<HostKey>, key: HostKey)
    ensures
        key_transition(pressed, key, true) matches Some((after, _)) ==> key_transition(after, key, true) is None,
        key_transition(pressed, key, false) matches Some((after, _)) ==> key_transition(after, key, false) is None,
{
}

/// Shift changes only the byte of the key, never its matrix position.
pub proof fn law_shift_only_changes_the_byte(pressed: Set<HostKey>, key: HostKey)
    ensures
        key_transition(pressed, key, true) matches Some((_, e)) ==> key_mapping_spec(key) matches Some(m)
            && e.row == m.row && e.col == m.col,
{
}

/// The word firmware polls for the next key event: the row in the low
/// byte, the column in the next byte and the pressed flag above them; zero
/// when no event is queued.
pub fn packed_key_event(event: Option<KeyEvent>) -> (w: u64)
    ensures
        w == match event {
            None => 0,
            Some(e) => e.row + e.col * 256 + if e.pressed { 65536int } else { 0int },
        },
{
    match event {
        None => 0,
        Some(e) => {
            let pressed: u64 = if e.pressed { 65536 } else { 0 };
            e.row as u64 + e.col as u64 * 256 + pressed
        },
    }
}

} // verus!
