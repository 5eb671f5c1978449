//! Register-level model of the T-Deck GT911 capacitive touch controller,
//! including its three failure modes and their sticky watchdog bits.

use vstd::prelude::*;

verus! {

pub const GT911_I2C_ADDRESS: u8 = 0x5d;
pub const GT911_CONFIG_X_REGISTER: u16 = 0x8048;
pub const GT911_CONFIG_Y_REGISTER: u16 = 0x804a;
pub const GT911_PRODUCT_ID_REGISTER: u16 = 0x8140;
pub const GT911_STATUS_REGISTER: u16 = 0x814e;
pub const GT911_INT_GPIO: u8 = 16;
pub const GT911_MAX_TOUCHES: usize = 5;
pub const DEFAULT_GT911_CONTACT_SIZE: u16 = 50;
pub const DEFAULT_GT911_MAX_X: u16 = 320;
pub const DEFAULT_GT911_MAX_Y: u16 = 240;

pub const GT911_FAILURE_MODE_BUS: u8 = 1;
pub const GT911_FAILURE_MODE_FRAME_STALL: u8 = 2;
pub const GT911_FAILURE_MODE_PHANTOM_LATCH: u8 = 3;

pub const GT911_STATUS_BUS_WATCHDOG_FIRED: u64 = 1;
pub const GT911_STATUS_FRAME_WATCHDOG_FIRED: u64 = 2;
pub const GT911_STATUS_PHANTOM_WATCHDOG_FIRED: u64 = 4;

pub const GT911_SCAN_INTERVAL_MS: u64 = 10;
pub const GT911_BUS_WATCHDOG_FAILURES: u8 = 8;
pub const GT911_FRAME_WATCHDOG_MS: u64 = 250;
pub const GT911_PHANTOM_WATCHDOG_MS: u64 = 10_000;

/// One contact reported by the GT911 controller.
#[derive(Clone, Copy, Debug, PartialEq, Eq)]
pub struct Gt911Point {
    pub track_id: u8,
    pub x: u16,
    pub y: u16,
    pub size: u16,
}

/// Complete controller state: contact slots, configuration registers,
/// interrupt line, virtual clock and failure-injection bookkeeping.
pub struct Gt911State {
    pub points: Seq<Option<Gt911Point>>,
    pub contact_size: u16,
    pub max_x: u16,
    pub max_y: u16,
    pub int_asserted: bool,
    pub frame_ready: bool,
    pub now_ms: u64,
    pub last_frame_ms: Option<u64>,
    pub last_raw: Option<(u16, u16)>,
    pub last_mapped: Option<(u16, u16)>,
    pub physical_primary: Option<((u16, u16), Gt911Point)>,
    pub i2c_failure_rate: u8,
    pub failure_accumulator: u16,
    pub consecutive_status_failures: u8,
    pub frame_stall_ms: u32,
    pub stall_started_ms: Option<u64>,
    pub stall_until_ms: Option<u64>,
    pub phantom_latch: bool,
    pub phantom_point: Option<Gt911Point>,
    pub phantom_started_ms: Option<u64>,
    pub watchdog_status: u64,
}

/// The occupied contact slots, in slot order.
pub open spec fn present_points(s: Seq<Option<Gt911Point>>) -> Seq<Gt911Point>
    decreases s.len(),
{
    if s.len() == 0 {
        Seq::empty()
    } else {
        let init = present_points(s.drop_last());
        match s.last() {
            Some(p) => init.push(p),
            None => init,
        }
    }
}

pub open spec fn is_pressed_spec(s: Gt911State) -> bool {
    present_points(s.points).len() > 0
}

pub open spec fn primary_point_spec(s: Gt911State) -> Option<Gt911Point> {
    if present_points(s.points).len() > 0 {
        Some(present_points(s.points)[0])
    } else {
        None
    }
}

pub open spec fn frame_is_stalled_spec(s: Gt911State) -> bool {
    match s.stall_until_ms {
        Some(until) => s.now_ms < until,
        None => false,
    }
}

/// A new frame is available: the interrupt line is asserted (driven low).
pub open spec fn mark_ready(s: Gt911State) -> Gt911State {
    Gt911State { frame_ready: true, int_asserted: true, last_frame_ms: Some(s.now_ms), ..s }
}

/// Starts a frame stall at the current time, when one is configured and a
/// contact is down.
pub open spec fn arm_stall(s: Gt911State) -> Gt911State {
    if s.frame_stall_ms == 0 || !is_pressed_spec(s) {
        Gt911State { stall_started_ms: None, stall_until_ms: None, ..s }
    } else {
        Gt911State {
            stall_started_ms: Some(s.now_ms),
            stall_until_ms: Some(sat_add(s.now_ms, s.frame_stall_ms as u64)),
            ..s
        }
    }
}

pub open spec fn sat_add(a: u64, b: u64) -> u64 {
    if a + b > u64::MAX { u64::MAX } else { (a + b) as u64 }
}

pub open spec fn sat_sub(a: u64, b: u64) -> u64 {
    if a < b { 0 } else { (a - b) as u64 }
}

pub open spec fn clamp_i32(v: i32, lo: int, hi: int) -> int {
    if v < lo { lo } else if v > hi { hi } else { v as int }
}

/// Landscape host coordinates before the portrait mapping.
pub open spec fn raw_position_of(mouse_x: i32, mouse_y: i32) -> (u16, u16) {
    (clamp_i32(mouse_x, 0, 65535) as u16, clamp_i32(mouse_y, 0, 65535) as u16)
}

/// The historical portrait swap/reversal of a landscape host coordinate.
pub open spec fn portrait_point(mouse_x: i32, mouse_y: i32, size: u16) -> Gt911Point {
    Gt911Point {
        track_id: 0,
        x: clamp_i32(mouse_y, 0, 239) as u16,
        y: (if 319 - mouse_x < 0 { 0 } else if 319 - mouse_x > 319 { 319 } else { 319 - mouse_x }) as u16,
        size,
    }
}

pub open spec fn set_slot(s: Gt911State, slot: int, p: Option<Gt911Point>) -> Gt911State {
    Gt911State { points: s.points.update(slot, p), ..s }
}

/// Effect of a pressed primary-contact injection before frame signalling.
pub open spec fn press_primary(s: Gt911State, raw: (u16, u16), point: Gt911Point) -> Gt911State {
    if s.phantom_latch {
        let latched = match s.phantom_point {
            Some(p) => p,
            None => point,
        };
        let t = Gt911State { phantom_point: Some(latched), ..set_slot(s, 0, Some(latched)) };
        if s.phantom_started_ms is None {
            Gt911State {
                phantom_started_ms: Some(s.now_ms),
                last_raw: Some(raw),
                last_mapped: Some((latched.x, latched.y)),
                ..t
            }
        } else {
            t
        }
    } else {
        Gt911State {
            last_raw: Some(raw),
            last_mapped: Some((point.x, point.y)),
            ..set_slot(s, 0, Some(point))
        }
    }
}

/// Transition of [`Gt911Controller::inject_touch`].
pub open spec fn inject_touch_spec(s: Gt911State, mouse_x: i32, mouse_y: i32, pressed: bool) -> Gt911State {
    let raw = raw_position_of(mouse_x, mouse_y);
    let point = portrait_point(mouse_x, mouse_y, s.contact_size);
    let was_pressed = is_pressed_spec(s);
    let s1 = Gt911State { physical_primary: if pressed { Some((raw, point)) } else { None }, ..s };
    if pressed {
        let s2 = press_primary(s1, raw, point);
        if !was_pressed {
            mark_ready(arm_stall(s2))
        } else if !frame_is_stalled_spec(s2) {
            mark_ready(s2)
        } else {
            s2
        }
    } else if s1.phantom_latch && s1.phantom_point is Some {
        let s2 = set_slot(s1, 0, s1.phantom_point);
        if !frame_is_stalled_spec(s2) {
            mark_ready(s2)
        } else {
            s2
        }
    } else {
        mark_ready(
            Gt911State {
                stall_started_ms: None,
                stall_until_ms: None,
                phantom_point: None,
                phantom_started_ms: None,
                ..set_slot(s1, 0, None)
            },
        )
    }
}

/// Transition of [`Gt911Controller::tick`].
pub open spec fn tick_spec(s0: Gt911State, now_ms: u64) -> Gt911State {
    let s = Gt911State { now_ms, ..s0 };
    if !is_pressed_spec(s) {
        s
    } else {
        let frame_fires = match (s.stall_started_ms, s.stall_until_ms) {
            (Some(started), Some(until)) => {
                let watchdog_at = sat_add(started, GT911_FRAME_WATCHDOG_MS);
                until > watchdog_at && now_ms > watchdog_at && !s.frame_ready
            },
            _ => false,
        };
        let s1 = if frame_fires {
            Gt911State { watchdog_status: s.watchdog_status | GT911_STATUS_FRAME_WATCHDOG_FIRED, ..s }
        } else {
            s
        };
        let phantom_fires = s1.phantom_latch && match s1.phantom_started_ms {
            Some(started) => sat_sub(now_ms, started) > GT911_PHANTOM_WATCHDOG_MS,
            None => false,
        };
        let s2 = if phantom_fires {
            Gt911State { watchdog_status: s1.watchdog_status | GT911_STATUS_PHANTOM_WATCHDOG_FIRED, ..s1 }
        } else {
            s1
        };
        if s2.frame_ready || frame_is_stalled_spec(s2) {
            s2
        } else {
            let due = match s2.last_frame_ms {
                None => true,
                Some(last) => sat_sub(now_ms, last) >= GT911_SCAN_INTERVAL_MS,
            };
            if due { mark_ready(s2) } else { s2 }
        }
    }
}

/// Effect of one status-register read on the deterministic failure
/// accumulator; the boolean says whether the read fails.
pub open spec fn fail_status_spec(s: Gt911State) -> (Gt911State, bool) {
    let acc = s.failure_accumulator + s.i2c_failure_rate;
    if acc < 100 {
        (Gt911State { failure_accumulator: acc as u16, consecutive_status_failures: 0, ..s }, false)
    } else if is_pressed_spec(s) {
        let failures = if s.consecutive_status_failures == 255 { 255u8 } else {
            (s.consecutive_status_failures + 1) as u8
        };
        let status = if failures >= GT911_BUS_WATCHDOG_FAILURES {
            s.watchdog_status | GT911_STATUS_BUS_WATCHDOG_FIRED
        } else {
            s.watchdog_status
        };
        (
            Gt911State {
                failure_accumulator: (acc - 100) as u16,
                consecutive_status_failures: failures,
                watchdog_status: status,
                ..s
            },
            true,
        )
    } else {
        (Gt911State { failure_accumulator: (acc - 100) as u16, consecutive_status_failures: 0, ..s }, true)
    }
}

pub open spec fn product_id_byte(i: int) -> u8 {
    if i == 0 { 0x39 } else if i == 1 { 0x31 } else if i == 2 { 0x31 } else { 0 }
}

pub open spec fn point_byte(p: Gt911Point, b: int) -> u8 {
    if b == 0 {
        p.track_id
    } else if b == 1 {
        (p.x % 256) as u8
    } else if b == 2 {
        (p.x / 256) as u8
    } else if b == 3 {
        (p.y % 256) as u8
    } else if b == 4 {
        (p.y / 256) as u8
    } else if b == 5 {
        (p.size % 256) as u8
    } else if b == 6 {
        (p.size / 256) as u8
    } else {
        0
    }
}

/// The byte the controller returns for one register address.
pub open spec fn register_byte_spec(s: Gt911State, address: u16) -> u8 {
    let present = present_points(s.points);
    if GT911_PRODUCT_ID_REGISTER <= address < GT911_PRODUCT_ID_REGISTER + 4 {
        product_id_byte(address - GT911_PRODUCT_ID_REGISTER)
    } else if address == GT911_CONFIG_X_REGISTER {
        (s.max_x % 256) as u8
    } else if address == GT911_CONFIG_X_REGISTER + 1 {
        (s.max_x / 256) as u8
    } else if address == GT911_CONFIG_Y_REGISTER {
        (s.max_y % 256) as u8
    } else if address == GT911_CONFIG_Y_REGISTER + 1 {
        (s.max_y / 256) as u8
    } else if address == GT911_STATUS_REGISTER {
        if !s.frame_ready { 0 } else { (0x80 + present.len()) as u8 }
    } else if address <= GT911_STATUS_REGISTER {
        0
    } else {
        let offset = address - (GT911_STATUS_REGISTER + 1);
        let index = offset / 8;
        if index < present.len() { point_byte(present[index], offset % 8) } else { 0 }
    }
}

/// Number of bytes a register-window read of `len` bytes delivers before
/// the 16-bit register address would overflow.
pub open spec fn readable_len(register: u16, len: nat) -> nat {
    if register == 0 || len <= 65536 - register { len } else { (65536 - register) as nat }
}

pub open spec fn window_address(register: u16, i: int) -> u16 {
    (register + (i % 65536)) as u16
}

pub open spec fn state_invariant(s: Gt911State) -> bool {
    &&& s.points.len() == GT911_MAX_TOUCHES
    &&& s.int_asserted == s.frame_ready
    &&& s.watchdog_status < 8
    &&& s.i2c_failure_rate <= 100
    &&& s.failure_accumulator < 100
}

/// Register-level model of the T-Deck GT911 touch controller.
pub struct Gt911Controller {
    touch_points: [Option<Gt911Point>; 5],
    contact_size: u16,
    max_x: u16,
    max_y: u16,
    int_asserted: bool,
    frame_ready: bool,
    now_ms: u64,
    last_frame_ms: Option<u64>,
    last_raw_position: Option<(u16, u16)>,
    last_mapped_position: Option<(u16, u16)>,
    physical_primary: Option<((u16, u16), Gt911Point)>,
    i2c_failure_rate: u8,
    failure_accumulator: u16,
    consecutive_status_failures: u8,
    frame_stall_ms: u32,
    stall_started_ms: Option<u64>,
    stall_until_ms: Option<u64>,
    phantom_latch: bool,
    phantom_point: Option<Gt911Point>,
    phantom_started_ms: Option<u64>,
    watchdog_status: u64,
}

impl View for Gt911Controller {
    type V = Gt911State;

    closed spec fn view(&self) -> Gt911State {
        Gt911State {
            points: self.touch_points@,
            contact_size: self.contact_size,
            max_x: self.max_x,
            max_y: self.max_y,
            int_asserted: self.int_asserted,
            frame_ready: self.frame_ready,
            now_ms: self.now_ms,
            last_frame_ms: self.last_frame_ms,
            last_raw: self.last_raw_position,
            last_mapped: self.last_mapped_position,
            physical_primary: self.physical_primary,
            i2c_failure_rate: self.i2c_failure_rate,
            failure_accumulator: self.failure_accumulator,
            consecutive_status_failures: self.consecutive_status_failures,
            frame_stall_ms: self.frame_stall_ms,
            stall_started_ms: self.stall_started_ms,
            stall_until_ms: self.stall_until_ms,
            phantom_latch: self.phantom_latch,
            phantom_point: self.phantom_point,
            phantom_started_ms: self.phantom_started_ms,
            watchdog_status: self.watchdog_status,
        }
    }
}


/// Transition of [`Gt911Controller::set_i2c_failure_rate`].
pub open spec fn set_failure_rate_spec(s: Gt911State, pct: u8) -> Gt911State {
    Gt911State {
        i2c_failure_rate: if pct > 100 { 100 } else { pct },
        failure_accumulator: 0,
        consecutive_status_failures: 0,
        watchdog_status: s.watchdog_status & !GT911_STATUS_BUS_WATCHDOG_FIRED,
        ..s
    }
}

/// Transition of [`Gt911Controller::set_frame_stall_ms`].
pub open spec fn set_frame_stall_spec(s: Gt911State, ms: u32) -> Gt911State {
    arm_stall(Gt911State {
        frame_stall_ms: ms,
        watchdog_status: s.watchdog_status & !GT911_STATUS_FRAME_WATCHDOG_FIRED,
        ..s
    })
}

/// Transition of [`Gt911Controller::set_phantom_latch`].
pub open spec fn set_phantom_latch_spec(s0: Gt911State, enabled: bool) -> Gt911State {
                let s = Gt911State {
                    phantom_latch: enabled,
                    watchdog_status: s0.watchdog_status & !GT911_STATUS_PHANTOM_WATCHDOG_FIRED,
                    ..s0
                };
                if enabled {
                    Gt911State {
                        phantom_point: primary_point_spec(s),
                        phantom_started_ms: if primary_point_spec(s) is Some { Some(s.now_ms) } else { None },
                        ..s
                    }
                } else {
                    let t = Gt911State { phantom_point: None, phantom_started_ms: None, ..s };
                    if s0.phantom_latch {
                        mark_ready(match t.physical_primary {
                            Some((raw, point)) => Gt911State {
                                last_raw: Some(raw),
                                last_mapped: Some((point.x, point.y)),
                                ..set_slot(t, 0, Some(point))
                            },
                            None => set_slot(t, 0, None),
                        })
                    } else {
                        t
                    }
                }
            }

/// Transition of one failure-mode command; unknown modes change nothing.
pub open spec fn apply_failure_mode_spec(s: Gt911State, mode: u8, value: u32) -> Gt911State {
    if mode == GT911_FAILURE_MODE_BUS {
        set_failure_rate_spec(s, if value > 100 { 100u8 } else { value as u8 })
    } else if mode == GT911_FAILURE_MODE_FRAME_STALL {
        set_frame_stall_spec(s, value)
    } else if mode == GT911_FAILURE_MODE_PHANTOM_LATCH {
        set_phantom_latch_spec(s, value != 0)
    } else {
        s
    }
}

pub open spec fn initial_state() -> Gt911State {
    Gt911State {
        points: seq![None, None, None, None, None],
        contact_size: DEFAULT_GT911_CONTACT_SIZE,
        max_x: DEFAULT_GT911_MAX_X,
        max_y: DEFAULT_GT911_MAX_Y,
        int_asserted: false,
        frame_ready: false,
        now_ms: 0,
        last_frame_ms: None,
        last_raw: None,
        last_mapped: None,
        physical_primary: None,
        i2c_failure_rate: 0,
        failure_accumulator: 0,
        consecutive_status_failures: 0,
        frame_stall_ms: 0,
        stall_started_ms: None,
        stall_until_ms: None,
        phantom_latch: false,
        phantom_point: None,
        phantom_started_ms: None,
        watchdog_status: 0,
    }
}

impl Gt911Controller {
    /// The controller's state stays within its invariant.
    pub open spec fn wf(&self) -> bool {
        state_invariant(self@)
    }

    pub fn new() -> (c: Self)
        ensures
            c@ == initial_state(),
            c.wf(),
    {
        let c = Gt911Controller {
            touch_points: [None, None, None, None, None],
            contact_size: DEFAULT_GT911_CONTACT_SIZE,
            max_x: DEFAULT_GT911_MAX_X,
            max_y: DEFAULT_GT911_MAX_Y,
            int_asserted: false,
            frame_ready: false,
            now_ms: 0,
            last_frame_ms: None,
            last_raw_position: None,
            last_mapped_position: None,
            physical_primary: None,
            i2c_failure_rate: 0,
            failure_accumulator: 0,
            consecutive_status_failures: 0,
            frame_stall_ms: 0,
            stall_started_ms: None,
            stall_until_ms: None,
            phantom_latch: false,
            phantom_point: None,
            phantom_started_ms: None,
            watchdog_status: 0,
        };
        assert(c@.points =~= seq![None, None, None, None, None]);
        c
    }

    /// Configure the contact size/weight used for primary touch injection.
    pub fn set_contact_size(&mut self, contact_size: u16)
        requires
            old(self).wf(),
        ensures
            final(self).wf(),
            final(self)@ == (Gt911State { contact_size, ..old(self)@ }),
    {
        self.contact_size = contact_size;
    }

    pub fn contact_size(&self) -> (r: u16)
        ensures
            r == self@.contact_size,
    {
        self.contact_size
    }

    pub fn set_resolution(&mut self, max_x: u16, max_y: u16)
        requires
            old(self).wf(),
        ensures
            final(self).wf(),
            final(self)@ == (Gt911State { max_x, max_y, ..old(self)@ }),
    {
        self.max_x = max_x;
        self.max_y = max_y;
    }

    pub fn resolution(&self) -> (r: (u16, u16))
        ensures
            r == (self@.max_x, self@.max_y),
    {
        (self.max_x, self.max_y)
    }

    /// Calibration state for NVS persistence: `(max_x, max_y, contact_size)`,
    /// everything needed to restore the controller after a virtual restart.
    pub fn calibration(&self) -> (r: (u16, u16, u16))
        ensures
            r == (self@.max_x, self@.max_y, self@.contact_size),
    {
        (self.max_x, self.max_y, self.contact_size)
    }

    /// Restore calibration from previously saved NVS data.
    pub fn apply_calibration(&mut self, max_x: u16, max_y: u16, contact_size: u16)
        requires
            old(self).wf(),
        ensures
            final(self).wf(),
            final(self)@ == (Gt911State { max_x, max_y, contact_size, ..old(self)@ }),
    {
        self.max_x = max_x;
        self.max_y = max_y;
        self.contact_size = contact_size;
    }

    /// Make an exact percentage of status reads fail using a deterministic
    /// accumulator. Reconfiguring the mode clears its sticky fired bit.
    pub fn set_i2c_failure_rate(&mut self, pct: u8)
        requires
            old(self).wf(),
        ensures
            final(self).wf(),
            final(self)@ == set_failure_rate_spec(old(self)@, pct),
    {
        self.i2c_failure_rate = if pct > 100 { 100 } else { pct };
        self.failure_accumulator = 0;
        self.consecutive_status_failures = 0;
        let w = self.watchdog_status;
        assert(w < 8 ==> (w & !1u64) < 8) by (bit_vector);
        self.watchdog_status = w & !GT911_STATUS_BUS_WATCHDOG_FIRED;
    }

    /// Suppress periodic held-touch frames for `ms` after a press.
    ///
    /// The initial press frame is still produced so firmware can enter its
    /// pressed state before observing the stall. Reconfiguring clears the
    /// corresponding sticky fired bit.
    pub fn set_frame_stall_ms(&mut self, ms: u32)
        requires
            old(self).wf(),
        ensures
            final(self).wf(),
            final(self)@ == set_frame_stall_spec(old(self)@, ms),
    {
        self.frame_stall_ms = ms;
        let w = self.watchdog_status;
        assert(w < 8 ==> (w & !2u64) < 8) by (bit_vector);
        self.watchdog_status = w & !GT911_STATUS_FRAME_WATCHDOG_FIRED;
        self.arm_frame_stall();
    }

    /// Freeze the first pressed point and keep reporting it until disabled.
    ///
    /// Movements and releases are ignored while latched, matching a controller
    /// wedged on one stale frame. Reconfiguring clears the sticky fired bit.
    pub fn set_phantom_latch(&mut self, enabled: bool)
        requires
            old(self).wf(),
        ensures
            final(self).wf(),
            final(self)@ == set_phantom_latch_spec(old(self)@, enabled),
    {
        let was_enabled = self.phantom_latch;
        self.phantom_latch = enabled;
        let w = self.watchdog_status;
        assert(w < 8 ==> (w & !4u64) < 8) by (bit_vector);
        self.watchdog_status = w & !GT911_STATUS_PHANTOM_WATCHDOG_FIRED;
        if enabled {
            let primary = self.primary_point();
            self.phantom_point = primary;
            self.phantom_started_ms = match primary {
                Some(_) => Some(self.now_ms),
                None => None,
            };
        } else {
            self.phantom_point = None;
            self.phantom_started_ms = None;
            if was_enabled {
                match self.physical_primary {
                    Some((raw, point)) => {
                        self.touch_points[0] = Some(point);
                        self.last_raw_position = Some(raw);
                        self.last_mapped_position = Some((point.x, point.y));
                    },
                    None => {
                        self.touch_points[0] = None;
                    },
                }
                self.mark_frame_ready();
            }
        }
    }

    pub fn watchdog_status(&self) -> (r: u64)
        ensures
            r == self@.watchdog_status,
    {
        self.watchdog_status
    }

    fn present(&self) -> (v: Vec<Gt911Point>)
        requires
            self.wf(),
        ensures
            v@ == present_points(self@.points),
    {
        let mut v: Vec<Gt911Point> = Vec::new();
        let mut i: usize = 0;
        while i < GT911_MAX_TOUCHES
            invariant
                i <= GT911_MAX_TOUCHES,
                self.touch_points@.len() == GT911_MAX_TOUCHES,
                v@ == present_points(self.touch_points@.take(i as int)),
            decreases GT911_MAX_TOUCHES - i,
        {
            assert(self.touch_points@.take(i + 1).drop_last() =~= self.touch_points@.take(i as int));
            match self.touch_points[i] {
                Some(p) => v.push(p),
                None => {},
            }
            i = i + 1;
        }
        assert(self.touch_points@.take(5) =~= self.touch_points@);
        v
    }

    fn primary_point(&self) -> (r: Option<Gt911Point>)
        requires
            self.wf(),
        ensures
            r == primary_point_spec(self@),
    {
        let present = self.present();
        if present.len() > 0 {
            Some(present[0])
        } else {
            None
        }
    }

    fn is_pressed(&self) -> (r: bool)
        requires
            self.wf(),
        ensures
            r == is_pressed_spec(self@),
    {
        let present = self.present();
        present.len() > 0
    }

    fn arm_frame_stall(&mut self)
        requires
            old(self).wf(),
        ensures
            final(self).wf(),
            final(self)@ == arm_stall(old(self)@),
    {
        if self.frame_stall_ms == 0 || !self.is_pressed() {
            self.stall_started_ms = None;
            self.stall_until_ms = None;
            return;
        }
        self.stall_started_ms = Some(self.now_ms);
        self.stall_until_ms = Some(self.now_ms.saturating_add(self.frame_stall_ms as u64));
    }

    fn frame_is_stalled(&self) -> (r: bool)
        ensures
            r == frame_is_stalled_spec(self@),
    {
        match self.stall_until_ms {
            Some(until) => self.now_ms < until,
            None => false,
        }
    }

    fn mark_frame_ready(&mut self)
        requires
            old(self).wf(),
        ensures
            final(self).wf(),
            final(self)@ == mark_ready(old(self)@),
    {
        self.frame_ready = true;
        self.int_asserted = true;
        self.last_frame_ms = Some(self.now_ms);
    }

    /// Inject a primary contact from the landscape host-coordinate API.
    ///
    /// The mapped coordinate keeps the portrait swap/reversal used by the
    /// touch poll API; the raw position preserves the value before mapping for
    /// calibration diagnostics.
    pub fn inject_touch(&mut self, mouse_x: i32, mouse_y: i32, pressed: bool)
        requires
            old(self).wf(),
            319 - mouse_x <= i32::MAX,
        ensures
            final(self).wf(),
            final(self)@ == inject_touch_spec(old(self)@, mouse_x, mouse_y, pressed),
    {
        let raw_x: u16 = if mouse_x < 0 { 0 } else if mouse_x > 65535 { 65535 } else { mouse_x as u16 };
        let raw_y: u16 = if mouse_y < 0 { 0 } else if mouse_y > 65535 { 65535 } else { mouse_y as u16 };
        let raw = (raw_x, raw_y);
        let flipped: i32 = 319 - mouse_x;
        let point = Gt911Point {
            track_id: 0,
            x: if mouse_y < 0 { 0 } else if mouse_y > 239 { 239 } else { mouse_y as u16 },
            y: if flipped < 0 { 0 } else if flipped > 319 { 319 } else { flipped as u16 },
            size: self.contact_size,
        };
        let was_pressed = self.is_pressed();
        self.physical_primary = if pressed { Some((raw, point)) } else { None };

        if pressed {
            if self.phantom_latch {
                let latched = match self.phantom_point {
                    Some(p) => p,
                    None => point,
                };
                self.phantom_point = Some(latched);
                self.touch_points[0] = Some(latched);
                if self.phantom_started_ms.is_none() {
                    self.phantom_started_ms = Some(self.now_ms);
                    self.last_raw_position = Some(raw);
                    self.last_mapped_position = Some((latched.x, latched.y));
                }
            } else {
                self.touch_points[0] = Some(point);
                self.last_raw_position = Some(raw);
                self.last_mapped_position = Some((point.x, point.y));
            }

            if !was_pressed {
                self.arm_frame_stall();
                self.mark_frame_ready();
            } else if !self.frame_is_stalled() {
                self.mark_frame_ready();
            }
        } else if self.phantom_latch && self.phantom_point.is_some() {
            self.touch_points[0] = self.phantom_point;
            if !self.frame_is_stalled() {
                self.mark_frame_ready();
            }
        } else {
            self.touch_points[0] = None;
            self.stall_started_ms = None;
            self.stall_until_ms = None;
            self.phantom_point = None;
            self.phantom_started_ms = None;
            // A zero-contact frame is the real GT911 lift notification.
            self.mark_frame_ready();
        }
        assert(self@ =~= inject_touch_spec(old(self)@, mouse_x, mouse_y, pressed));
    }

    /// Inject or release one of the five hardware contact slots.
    pub fn inject_point(&mut self, point: Gt911Point, pressed: bool) -> (r: bool)
        requires
            old(self).wf(),
        ensures
            final(self).wf(),
            r == ((point.track_id as int) < GT911_MAX_TOUCHES),
            !r ==> final(self)@ == old(self)@,
            r ==> final(self)@ == ({
                let s = Gt911State {
                    last_raw: Some((point.x, point.y)),
                    last_mapped: Some((point.x, point.y)),
                    ..set_slot(old(self)@, point.track_id as int, if pressed { Some(point) } else { None })
                };
                mark_ready(if pressed && !is_pressed_spec(old(self)@) { arm_stall(s) } else { s })
            }),
    {
        let slot = point.track_id as usize;
        if slot >= GT911_MAX_TOUCHES {
            return false;
        }
        let was_pressed = self.is_pressed();
        self.touch_points[slot] = if pressed { Some(point) } else { None };
        self.last_raw_position = Some((point.x, point.y));
        self.last_mapped_position = Some((point.x, point.y));
        if pressed && !was_pressed {
            self.arm_frame_stall();
        }
        self.mark_frame_ready();
        true
    }

    pub fn raw_position(&self) -> (r: Option<(u16, u16)>)
        ensures
            r == self@.last_raw,
    {
        self.last_raw_position
    }

    pub fn mapped_position(&self) -> (r: Option<(u16, u16)>)
        ensures
            r == self@.last_mapped,
    {
        self.last_mapped_position
    }

    /// Advance the controller's deterministic clock and generate scan frames.
    pub fn tick(&mut self, now_ms: u64)
        requires
            old(self).wf(),
        ensures
            final(self).wf(),
            final(self)@ == tick_spec(old(self)@, now_ms),
    {
        self.now_ms = now_ms;

        if !self.is_pressed() {
            return;
        }

        match (self.stall_started_ms, self.stall_until_ms) {
            (Some(started), Some(until)) => {
                let watchdog_at = started.saturating_add(GT911_FRAME_WATCHDOG_MS);
                if until > watchdog_at && now_ms > watchdog_at && !self.frame_ready {
                    let w = self.watchdog_status;
                    assert(w < 8 ==> (w | 2u64) < 8) by (bit_vector);
                    self.watchdog_status = w | GT911_STATUS_FRAME_WATCHDOG_FIRED;
                }
            },
            _ => {},
        }

        let phantom_fires = self.phantom_latch && match self.phantom_started_ms {
            Some(started) => now_ms.saturating_sub(started) > GT911_PHANTOM_WATCHDOG_MS,
            None => false,
        };
        if phantom_fires {
            let w = self.watchdog_status;
            assert(w < 8 ==> (w | 4u64) < 8) by (bit_vector);
            self.watchdog_status = w | GT911_STATUS_PHANTOM_WATCHDOG_FIRED;
        }

        if self.frame_ready || self.frame_is_stalled() {
            return;
        }

        let due = match self.last_frame_ms {
            None => true,
            Some(last) => now_ms.saturating_sub(last) >= GT911_SCAN_INTERVAL_MS,
        };
        if due {
            self.mark_frame_ready();
        }
    }

    /// Read GPIO16. The GT911 interrupt output is active LOW.
    pub fn gpio16_level(&self) -> (r: bool)
        ensures
            r == !self@.int_asserted,
    {
        !self.int_asserted
    }

    pub fn frame_ready(&self) -> (r: bool)
        ensures
            r == self@.frame_ready,
    {
        self.frame_ready
    }

    pub fn touch_points(&self) -> (r: &[Option<Gt911Point>; 5])
        ensures
            r@ == self@.points,
    {
        &self.touch_points
    }

    fn fail_status_read(&mut self) -> (r: bool)
        requires
            old(self).wf(),
        ensures
            final(self).wf(),
            (final(self)@, r) == fail_status_spec(old(self)@),
    {
        let acc: u16 = self.failure_accumulator + self.i2c_failure_rate as u16;
        if acc < 100 {
            self.failure_accumulator = acc;
            self.consecutive_status_failures = 0;
            return false;
        }
        self.failure_accumulator = acc - 100;
        if self.is_pressed() {
            self.consecutive_status_failures = self.consecutive_status_failures.saturating_add(1);
            if self.consecutive_status_failures >= GT911_BUS_WATCHDOG_FAILURES {
                let w = self.watchdog_status;
                assert(w < 8 ==> (w | 1u64) < 8) by (bit_vector);
                self.watchdog_status = w | GT911_STATUS_BUS_WATCHDOG_FIRED;
            }
        } else {
            self.consecutive_status_failures = 0;
        }
        true
    }

    fn register_byte(&self, address: u16, present: &Vec<Gt911Point>) -> (b: u8)
        requires
            present@ == present_points(self@.points),
        ensures
            b == register_byte_spec(self@, address),
    {
        if GT911_PRODUCT_ID_REGISTER <= address && address < GT911_PRODUCT_ID_REGISTER + 4 {
            let i = address - GT911_PRODUCT_ID_REGISTER;
            return if i == 0 { 0x39 } else if i == 1 { 0x31 } else if i == 2 { 0x31 } else { 0 };
        }
        if address == GT911_CONFIG_X_REGISTER {
            return (self.max_x % 256) as u8;
        }
        if address == GT911_CONFIG_X_REGISTER + 1 {
            return (self.max_x / 256) as u8;
        }
        if address == GT911_CONFIG_Y_REGISTER {
            return (self.max_y % 256) as u8;
        }
        if address == GT911_CONFIG_Y_REGISTER + 1 {
            return (self.max_y / 256) as u8;
        }
        if address == GT911_STATUS_REGISTER {
            if !self.frame_ready {
                return 0;
            }
            proof { lemma_present_len(self@.points); }
            return (0x80 + present.len()) as u8;
        }
        if address <= GT911_STATUS_REGISTER {
            return 0;
        }
        let offset = address - (GT911_STATUS_REGISTER + 1);
        let index = (offset / 8) as usize;
        if index >= present.len() {
            return 0;
        }
        let p = present[index];
        let b = offset % 8;
        if b == 0 {
            p.track_id
        } else if b == 1 {
            (p.x % 256) as u8
        } else if b == 2 {
            (p.x / 256) as u8
        } else if b == 3 {
            (p.y % 256) as u8
        } else if b == 4 {
            (p.y / 256) as u8
        } else if b == 5 {
            (p.size % 256) as u8
        } else if b == 6 {
            (p.size / 256) as u8
        } else {
            0
        }
    }

    /// Read a register window. Zero means the I2C read failed.
    pub fn i2c_read(&mut self, register: u16, buf: &mut [u8]) -> (n: usize)
        requires
            old(self).wf(),
        ensures
            final(self).wf(),
            final(buf)@.len() == old(buf)@.len(),
            ({
                let (failed_state, fails) = fail_status_spec(old(self)@);
                if register == GT911_STATUS_REGISTER && fails {
                    &&& n == 0
                    &&& final(self)@ == failed_state
                    &&& final(buf)@ == old(buf)@
                } else {
                    let s = if register == GT911_STATUS_REGISTER { failed_state } else { old(self)@ };
                    &&& final(self)@ == s
                    &&& n == readable_len(register, old(buf)@.len())
                    &&& forall|i: int| 0 <= i < n ==> #[trigger] final(buf)@[i] == register_byte_spec(
                        s,
                        window_address(register, i),
                    )
                    &&& forall|i: int| n <= i < old(buf)@.len() ==> #[trigger] final(buf)@[i] == old(buf)@[i]
                }
            }),
    {
        if register == GT911_STATUS_REGISTER && self.fail_status_read() {
            return 0;
        }
        let present = self.present();
        let len = buf.len();
        // The window stops where the 16-bit register address would overflow.
        let n: usize = if register == 0 || len <= 65536 - register as usize {
            len
        } else {
            65536 - register as usize
        };
        let mut offset: usize = 0;
        while offset < n
            invariant
                self.wf(),
                present@ == present_points(self@.points),
                len == buf@.len(),
                buf@.len() == old(buf)@.len(),
                n == readable_len(register, len as nat),
                n <= len,
                offset <= n,
                forall|i: int| 0 <= i < offset ==> #[trigger] buf@[i] == register_byte_spec(
                    self@,
                    window_address(register, i),
                ),
                forall|i: int| offset <= i < len ==> #[trigger] buf@[i] == old(buf)@[i],
            decreases n - offset,
        {
            let address: u16 = if register == 0 { (offset % 65536) as u16 } else { register + offset as u16 };
            assert(address == window_address(register, offset as int));
            buf[offset] = self.register_byte(address, &present);
            offset = offset + 1;
        }
        n
    }

    /// Controller writes. Writing zero to the status register acknowledges
    /// the frame and releases the interrupt line.
    pub fn i2c_write(&mut self, register: u16, data: &[u8])
        requires
            old(self).wf(),
        ensures
            final(self).wf(),
            final(self)@ == if register == GT911_STATUS_REGISTER && data@.len() > 0 && data@[0] == 0 {
                Gt911State { frame_ready: false, int_asserted: false, ..old(self)@ }
            } else {
                old(self)@
            },
    {
        if register == GT911_STATUS_REGISTER && data.len() > 0 && data[0] == 0 {
            self.frame_ready = false;
            self.int_asserted = false;
        }
    }

    fn apply_failure_mode(&mut self, mode: u8, value: u32)
        requires
            old(self).wf(),
        ensures
            final(self).wf(),
            final(self)@ == apply_failure_mode_spec(old(self)@, mode, value),
    {
        if mode == GT911_FAILURE_MODE_BUS {
            let pct: u8 = if value > 100 { 100 } else { value as u8 };
            self.set_i2c_failure_rate(pct);
        } else if mode == GT911_FAILURE_MODE_FRAME_STALL {
            self.set_frame_stall_ms(value);
        } else if mode == GT911_FAILURE_MODE_PHANTOM_LATCH {
            self.set_phantom_latch(value != 0);
        }
    }
}

impl Default for Gt911Controller {
    fn default() -> (c: Self)
        ensures
            c@ == initial_state(),
            c.wf(),
    {
        Self::new()
    }
}

pub proof fn lemma_present_len(s: Seq<Option<Gt911Point>>)
    ensures
        present_points(s).len() <= s.len(),
    decreases s.len(),
{
    if s.len() > 0 {
        lemma_present_len(s.drop_last());
    }
}

/// Failure modes applied to every live controller and to future ones.
#[derive(Clone, Copy, Debug, Default, PartialEq, Eq)]
pub struct FailureConfiguration {
    pub i2c_failure_rate: u8,
    pub frame_stall_ms: u32,
    pub phantom_latch: bool,
}

/// Configuration after one global failure-mode command; `None` for an
/// unknown mode, which changes nothing.
pub open spec fn configure_spec(c: FailureConfiguration, mode: u8, value: u32) -> Option<FailureConfiguration> {
    if mode == GT911_FAILURE_MODE_BUS {
        Some(FailureConfiguration { i2c_failure_rate: if value > 100 { 100u8 } else { value as u8 }, ..c })
    } else if mode == GT911_FAILURE_MODE_FRAME_STALL {
        Some(FailureConfiguration { frame_stall_ms: value, ..c })
    } else if mode == GT911_FAILURE_MODE_PHANTOM_LATCH {
        Some(FailureConfiguration { phantom_latch: value != 0, ..c })
    } else {
        None
    }
}

/// A fresh controller with a configuration applied, in the order the
/// registry applies it.
pub open spec fn configured_state(c: FailureConfiguration) -> Gt911State {
    set_phantom_latch_spec(
        set_frame_stall_spec(set_failure_rate_spec(initial_state(), c.i2c_failure_rate), c.frame_stall_ms),
        c.phantom_latch,
    )
}

/// Union of the sticky watchdog bits of the live controllers.
pub open spec fn union_status(s: Seq<Option<Gt911State>>) -> u64
    decreases s.len(),
{
    if s.len() == 0 {
        0
    } else {
        match s.last() {
            Some(c) => union_status(s.drop_last()) | c.watchdog_status,
            None => union_status(s.drop_last()),
        }
    }
}

pub open spec fn controller_states(s: Seq<Option<Gt911Controller>>) -> Seq<Option<Gt911State>> {
    s.map_values(|c: Option<Gt911Controller>| match c {
        Some(c) => Some(c@),
        None => None,
    })
}

pub struct Gt911FleetView {
    pub configuration: FailureConfiguration,
    pub controllers: Seq<Option<Gt911State>>,
}

/// The registry behind the global GT911 failure controls: every controller it
/// creates starts with the current configuration, and a global command
/// reaches all live controllers as well as future ones.
pub struct Gt911Fleet {
    configuration: FailureConfiguration,
    controllers: Vec<Option<Gt911Controller>>,
}

impl View for Gt911Fleet {
    type V = Gt911FleetView;

    closed spec fn view(&self) -> Gt911FleetView {
        Gt911FleetView { configuration: self.configuration, controllers: controller_states(self.controllers@) }
    }
}

impl Gt911Fleet {
    pub closed spec fn wf(&self) -> bool {
        forall|i: int| 0 <= i < self.controllers@.len() && #[trigger] self.controllers@[i] is Some ==>
            self.controllers@[i]->0.wf()
    }

    pub fn new() -> (f: Self)
        ensures
            f.wf(),
            f@.configuration == (FailureConfiguration { i2c_failure_rate: 0, frame_stall_ms: 0, phantom_latch: false }),
            f@.controllers == Seq::<Option<Gt911State>>::empty(),
    {
        let f = Gt911Fleet {
            configuration: FailureConfiguration { i2c_failure_rate: 0, frame_stall_ms: 0, phantom_latch: false },
            controllers: Vec::new(),
        };
        assert(f@.controllers =~= Seq::<Option<Gt911State>>::empty());
        f
    }

    /// Construct and register a controller configured with the current
    /// global failure modes; the result is its handle.
    pub fn new_shared_gt911(&mut self) -> (handle: usize)
        requires
            old(self).wf(),
        ensures
            final(self).wf(),
            handle == old(self)@.controllers.len(),
            final(self)@.configuration == old(self)@.configuration,
            final(self)@.controllers == old(self)@.controllers.push(
                Some(configured_state(old(self)@.configuration)),
            ),
    {
        let configuration = self.configuration;
        let mut controller = Gt911Controller::new();
        controller.set_i2c_failure_rate(configuration.i2c_failure_rate);
        controller.set_frame_stall_ms(configuration.frame_stall_ms);
        controller.set_phantom_latch(configuration.phantom_latch);
        let handle = self.controllers.len();
        self.controllers.push(Some(controller));
        assert(self@.controllers =~= old(self)@.controllers.push(Some(configured_state(configuration))));
        handle
    }

    pub fn controller(&self, handle: usize) -> (r: Option<&Gt911Controller>)
        ensures
            match r {
                Some(c) => handle < self@.controllers.len() && self@.controllers[handle as int] == Some(c@),
                None => handle >= self@.controllers.len() || self@.controllers[handle as int] is None,
            },
    {
        if handle < self.controllers.len() {
            match &self.controllers[handle] {
                Some(c) => Some(c),
                None => None,
            }
        } else {
            None
        }
    }

    /// Drops a controller; it no longer receives global commands.
    pub fn release_gt911(&mut self, handle: usize)
        requires
            old(self).wf(),
        ensures
            final(self).wf(),
            final(self)@.configuration == old(self)@.configuration,
            final(self)@.controllers == if handle < old(self)@.controllers.len() {
                old(self)@.controllers.update(handle as int, None)
            } else {
                old(self)@.controllers
            },
    {
        if handle < self.controllers.len() {
            self.controllers.set(handle, None);
            assert(self@.controllers =~= old(self)@.controllers.update(handle as int, None));
        }
    }

    /// Apply one failure mode to all live controllers and to future ones.
    pub fn set_global_failure_mode(&mut self, mode: u8, value: u32)
        requires
            old(self).wf(),
        ensures
            final(self).wf(),
            match configure_spec(old(self)@.configuration, mode, value) {
                Some(c) => {
                    &&& final(self)@.configuration == c
                    &&& final(self)@.controllers.len() == old(self)@.controllers.len()
                    &&& forall|i: int| 0 <= i < old(self)@.controllers.len() ==> #[trigger] final(self)@.controllers[i]
                        == match old(self)@.controllers[i] {
                        Some(s) => Some(apply_failure_mode_spec(s, mode, value)),
                        None => None,
                    }
                },
                None => final(self)@ == old(self)@,
            },
    {
        if mode == GT911_FAILURE_MODE_BUS {
            self.configuration.i2c_failure_rate = if value > 100 { 100 } else { value as u8 };
        } else if mode == GT911_FAILURE_MODE_FRAME_STALL {
            self.configuration.frame_stall_ms = value;
        } else if mode == GT911_FAILURE_MODE_PHANTOM_LATCH {
            self.configuration.phantom_latch = value != 0;
        } else {
            return;
        }
        let mut i: usize = 0;
        while i < self.controllers.len()
            invariant
                i <= self.controllers@.len(),
                self.controllers@.len() == old(self).controllers@.len(),
                self.configuration == configure_spec(old(self)@.configuration, mode, value)->0,
                forall|j: int| 0 <= j < self.controllers@.len() && #[trigger] self.controllers@[j] is Some ==>
                    self.controllers@[j]->0.wf(),
                forall|j: int| 0 <= j < i ==> match #[trigger] self.controllers@[j] {
                    Some(c) => old(self).controllers@[j] is Some && c@ == apply_failure_mode_spec(old(self).controllers@[j]->0@, mode, value),
                    None => old(self).controllers@[j] is None,
                },
                forall|j: int| i <= j < self.controllers@.len() ==> #[trigger] self.controllers@[j]
                    == old(self).controllers@[j],
            decreases self.controllers@.len() - i,
        {
            let ghost before = self.controllers@;
            let slot = self.controllers.remove(i);
            let updated = match slot {
                Some(mut c) => {
                    c.apply_failure_mode(mode, value);
                    Some(c)
                },
                None => None,
            };
            self.controllers.insert(i, updated);
            assert(self.controllers@ =~= before.update(i as int, updated));
            i = i + 1;
        }
    }

    /// The union of the sticky watchdog bits across live controllers.
    pub fn global_watchdog_status(&self) -> (r: u64)
        ensures
            r == union_status(self@.controllers),
    {
        let mut status: u64 = 0;
        let mut i: usize = 0;
        while i < self.controllers.len()
            invariant
                i <= self.controllers@.len(),
                status == union_status(controller_states(self.controllers@).take(i as int)),
            decreases self.controllers@.len() - i,
        {
            let ghost states = controller_states(self.controllers@);
            assert(states.take(i + 1).drop_last() =~= states.take(i as int));
            match &self.controllers[i] {
                Some(c) => {
                    status = status | c.watchdog_status();
                },
                None => {},
            }
            i = i + 1;
        }
        assert(controller_states(self.controllers@).take(self.controllers@.len() as int)
            =~= controller_states(self.controllers@));
        status
    }

    /// Advance all live controllers using the emulator's virtual time.
    pub fn tick_all_gt911(&mut self, now_ms: u64)
        requires
            old(self).wf(),
        ensures
            final(self).wf(),
            final(self)@.configuration == old(self)@.configuration,
            final(self)@.controllers.len() == old(self)@.controllers.len(),
            forall|i: int| 0 <= i < old(self)@.controllers.len() ==> #[trigger] final(self)@.controllers[i]
                == match old(self)@.controllers[i] {
                Some(s) => Some(tick_spec(s, now_ms)),
                None => None,
            },
    {
        let mut i: usize = 0;
        while i < self.controllers.len()
            invariant
                i <= self.controllers@.len(),
                self.controllers@.len() == old(self).controllers@.len(),
                self.configuration == old(self).configuration,
                forall|j: int| 0 <= j < self.controllers@.len() && #[trigger] self.controllers@[j] is Some ==>
                    self.controllers@[j]->0.wf(),
                forall|j: int| 0 <= j < i ==> match #[trigger] self.controllers@[j] {
                    Some(c) => old(self).controllers@[j] is Some && c@ == tick_spec(old(self).controllers@[j]->0@, now_ms),
                    None => old(self).controllers@[j] is None,
                },
                forall|j: int| i <= j < self.controllers@.len() ==> #[trigger] self.controllers@[j]
                    == old(self).controllers@[j],
            decreases self.controllers@.len() - i,
        {
            let ghost before = self.controllers@;
            let slot = self.controllers.remove(i);
            let updated = match slot {
                Some(mut c) => {
                    c.tick(now_ms);
                    Some(c)
                },
                None => None,
            };
            self.controllers.insert(i, updated);
            assert(self.controllers@ =~= before.update(i as int, updated));
            i = i + 1;
        }
    }
}

proof fn lemma_record_address(k: int, j: int)
    requires
        0 <= k < 5,
        0 <= j < 8,
    ensures
        (8 * k + j) / 8 == k,
        (8 * k + j) % 8 == j,
{
    assert((8 * k + j) / 8 == k && (8 * k + j) % 8 == j) by (nonlinear_arith)
        requires
            0 <= k < 5,
            0 <= j < 8,
    ;
}

/// The byte at the register that is `j` bytes into the record of contact
/// slot `k` (records follow the status register, eight bytes each).
pub open spec fn record_byte(s: Gt911State, k: int, j: int) -> int {
    register_byte_spec(s, (GT911_STATUS_REGISTER + 1 + 8 * k + j) as u16) as int
}

/// Each reported contact is served as an eight-byte record right after the
/// status register: its track id, then x, y and size as little-endian
/// 16-bit words, then a reserved zero byte. Records past the last contact,
/// up to the fifth, read as zero.
pub proof fn law_point_records_are_little_endian(s: Gt911State, k: int)
    requires
        state_invariant(s),
        0 <= k < GT911_MAX_TOUCHES,
    ensures
        k < present_points(s.points).len() ==> {
            let p = present_points(s.points)[k];
            &&& record_byte(s, k, 0) == p.track_id
            &&& record_byte(s, k, 1) + 256 * record_byte(s, k, 2) == p.x
            &&& record_byte(s, k, 3) + 256 * record_byte(s, k, 4) == p.y
            &&& record_byte(s, k, 5) + 256 * record_byte(s, k, 6) == p.size
            &&& record_byte(s, k, 7) == 0
        },
        k >= present_points(s.points).len() ==> forall|j: int| 0 <= j < 8 ==> #[trigger] record_byte(s, k, j) == 0,
{
    lemma_present_len(s.points);
    assert forall|j: int| 0 <= j < 8 implies #[trigger] record_byte(s, k, j) == if k < present_points(s.points).len() {
        point_byte(present_points(s.points)[k], j) as int
    } else {
        0
    } by {
        lemma_record_address(k, j);
    }
    if k < present_points(s.points).len() {
        let p = present_points(s.points)[k];
        assert(record_byte(s, k, 1) == p.x % 256);
        assert(record_byte(s, k, 2) == p.x / 256);
        assert(record_byte(s, k, 3) == p.y % 256);
        assert(record_byte(s, k, 4) == p.y / 256);
        assert(record_byte(s, k, 5) == p.size % 256);
        assert(record_byte(s, k, 6) == p.size / 256);
        assert(record_byte(s, k, 0) == p.track_id);
        assert(record_byte(s, k, 7) == 0);
    }
}

proof fn lemma_present_first(s: Seq<Option<Gt911Point>>)
    requires
        s.len() > 0,
        s[0] is Some,
    ensures
        present_points(s).len() > 0,
        present_points(s)[0] == s[0].unwrap(),
    decreases s.len(),
{
    if s.len() > 1 {
        assert(s.drop_last()[0] == s[0]);
        lemma_present_first(s.drop_last());
    } else {
        assert(s.drop_last().len() == 0);
        assert(present_points(s.drop_last()) == Seq::<Gt911Point>::empty());
        assert(s.last() == s[0]);
    }
}

/// A touch inside the 320 x 240 landscape host window becomes a portrait
/// contact of the 240 x 320 panel, turned a quarter: the host row is the
/// panel column and the host column, counted from the right edge, is the
/// panel row. Without a phantom latch it is reported as the first contact
/// and as the mapped position, with the configured contact size.
pub proof fn law_touch_is_turned_to_portrait(s: Gt911State, mouse_x: i32, mouse_y: i32)
    requires
        state_invariant(s),
        !s.phantom_latch,
        0 <= mouse_x < 320,
        0 <= mouse_y < 240,
    ensures
        ({
            let t = inject_touch_spec(s, mouse_x, mouse_y, true);
            let p = present_points(t.points)[0];
            &&& present_points(t.points).len() > 0
            &&& p.x == mouse_y
            &&& p.y + mouse_x == 319
            &&& p.size == s.contact_size
            &&& t.last_mapped == Some((p.x, p.y))
            &&& t.last_raw == Some((mouse_x as u16, mouse_y as u16))
        }),
{
    let t = inject_touch_spec(s, mouse_x, mouse_y, true);
    assert(t.points == s.points.update(0, Some(portrait_point(mouse_x, mouse_y, s.contact_size))));
    lemma_present_first(t.points);
}

/// The identity and resolution registers: the product id reads as the ASCII
/// text "911" followed by a zero byte, and the configured X and Y output
/// resolutions read back as little-endian 16-bit words.
pub proof fn law_identity_and_resolution_registers(s: Gt911State)
    ensures
        register_byte_spec(s, GT911_PRODUCT_ID_REGISTER) == '9' as u8,
        register_byte_spec(s, (GT911_PRODUCT_ID_REGISTER + 1) as u16) == '1' as u8,
        register_byte_spec(s, (GT911_PRODUCT_ID_REGISTER + 2) as u16) == '1' as u8,
        register_byte_spec(s, (GT911_PRODUCT_ID_REGISTER + 3) as u16) == 0,
        register_byte_spec(s, GT911_CONFIG_X_REGISTER) + 256 * register_byte_spec(s, (GT911_CONFIG_X_REGISTER + 1) as u16)
            == s.max_x,
        register_byte_spec(s, GT911_CONFIG_Y_REGISTER) + 256 * register_byte_spec(s, (GT911_CONFIG_Y_REGISTER + 1) as u16)
            == s.max_y,
{
}

/// The interrupt output is asserted exactly while a frame awaits
/// acknowledgement, so GPIO16 reads low exactly then.
pub proof fn law_interrupt_tracks_frame(s: Gt911State)
    requires
        state_invariant(s),
    ensures
        s.int_asserted == s.frame_ready,
{
}

/// A ready status register reports `0x80` plus the number of contacts, at
/// most five; acknowledging the frame makes it read zero.
pub proof fn law_status_register(s: Gt911State)
    requires
        state_invariant(s),
    ensures
        s.frame_ready ==> register_byte_spec(s, GT911_STATUS_REGISTER) == 0x80 + present_points(s.points).len(),
        present_points(s.points).len() <= GT911_MAX_TOUCHES,
        register_byte_spec(Gt911State { frame_ready: false, int_asserted: false, ..s }, GT911_STATUS_REGISTER) == 0,
{
    lemma_present_len(s.points);
}

/// While the phantom latch holds a frozen point, no injected movement or
/// release changes the reported primary contact.
pub proof fn law_phantom_latch_freezes(s: Gt911State, x: i32, y: i32, pressed: bool)
    requires
        state_invariant(s),
        s.phantom_latch,
        s.phantom_point is Some,
    ensures
        inject_touch_spec(s, x, y, pressed).points[0] == s.phantom_point,
{
}

/// Watchdog bits are sticky: advancing time never clears one.
pub proof fn law_watchdog_bits_are_sticky(s: Gt911State, now_ms: u64)
    requires
        state_invariant(s),
    ensures
        tick_spec(s, now_ms).watchdog_status & s.watchdog_status == s.watchdog_status,
{
    let w = s.watchdog_status;
    assert(w & w == w) by (bit_vector);
    assert((w | 2u64) & w == w) by (bit_vector);
    assert((w | 4u64) & w == w) by (bit_vector);
    assert(((w | 2u64) | 4u64) & w == w) by (bit_vector);
}

/// With every status read failing while a contact is down, each read counts
/// one more consecutive failure, and the eighth one fires the bus watchdog.
pub proof fn law_bus_watchdog_fires_after_eight_failures(s: Gt911State)
    requires
        state_invariant(s),
        s.i2c_failure_rate == 100,
        is_pressed_spec(s),
        s.consecutive_status_failures < 255,
    ensures
        fail_status_spec(s).1,
        fail_status_spec(s).0.consecutive_status_failures == s.consecutive_status_failures + 1,
        s.consecutive_status_failures + 1 >= GT911_BUS_WATCHDOG_FAILURES ==> fail_status_spec(s).0.watchdog_status
            & GT911_STATUS_BUS_WATCHDOG_FIRED == GT911_STATUS_BUS_WATCHDOG_FIRED,
{
    let w = s.watchdog_status;
    assert((w | 1u64) & 1u64 == 1u64) by (bit_vector);
}

/// How many of the next `n` status reads fail, starting from `s` with no
/// reconfiguration in between.
pub open spec fn status_failures(s: Gt911State, n: nat) -> nat
    decreases n,
{
    if n == 0 {
        0
    } else {
        let (t, fails) = fail_status_spec(s);
        (if fails { 1nat } else { 0nat }) + status_failures(t, (n - 1) as nat)
    }
}

proof fn lemma_status_failures_count(s: Gt911State, n: nat)
    requires
        s.i2c_failure_rate <= 100,
        s.failure_accumulator < 100,
    ensures
        status_failures(s, n) == (s.failure_accumulator + n * s.i2c_failure_rate) / 100,
    decreases n,
{
    if n == 0 {
        assert(s.failure_accumulator + n * s.i2c_failure_rate == s.failure_accumulator) by (nonlinear_arith)
            requires
                n == 0,
        ;
    } else {
        let a = s.failure_accumulator as int;
        let r = s.i2c_failure_rate as int;
        let (t, fails) = fail_status_spec(s);
        let f: int = if fails { 1 } else { 0 };
        assert(t.i2c_failure_rate == s.i2c_failure_rate);
        assert(t.failure_accumulator == a + r - 100 * f);
        lemma_status_failures_count(t, (n - 1) as nat);
        let m = (n - 1) as int;
        assert((a + n * r) == 100 * f + ((a + r - 100 * f) + m * r)) by (nonlinear_arith)
            requires
                m == n - 1,
        ;
        assert((100 * f + ((a + r - 100 * f) + m * r)) / 100 == f + ((a + r - 100 * f) + m * r) / 100) by (nonlinear_arith)
            requires
                0 <= a + r - 100 * f,
                0 <= m * r,
        ;
        assert(status_failures(s, n) == f + status_failures(t, (n - 1) as nat));
        assert(t.failure_accumulator + m * t.i2c_failure_rate == (a + r - 100 * f) + m * r);
    }
}

/// A failure rate of `pct` percent fails exactly `min(pct, 100)` of the next
/// hundred status reads, whatever the controller did before.
pub proof fn law_failure_rate_is_exact(s: Gt911State, pct: u8)
    ensures
        status_failures(set_failure_rate_spec(s, pct), 100) == if pct > 100 { 100 } else { pct as int },
{
    let t = set_failure_rate_spec(s, pct);
    lemma_status_failures_count(t, 100);
    let r = t.i2c_failure_rate as int;
    assert((0 + 100 * r) / 100 == r) by (nonlinear_arith);
}

} // verus!
