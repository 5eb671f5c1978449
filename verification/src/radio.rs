//! LoRa channel bookkeeping for the virtual radio bus: transmission
//! intervals, collisions, expiry, packet airtime and the SX1262 limits that
//! are plain integers.

use vstd::prelude::*;
use vstd::arithmetic::div_mod::{lemma_div_denominator, lemma_fundamental_div_mod};
use vstd::arithmetic::power2::{lemma2_to64, lemma2_to64_rest, lemma_pow2_pos, lemma_pow2_strictly_increases, lemma_pow2_unfold, pow2};

verus! {

pub const SX1262_DEFAULT_BANDWIDTH_KHZ: u16 = 125;
pub const SX1262_DEFAULT_SPREADING_FACTOR: u8 = 9;
pub const SX1262_DEFAULT_CODING_RATE: u8 = 5;

/// Whether bandwidth, spreading factor and coding-rate denominator are
/// settings an SX1262 supports (125/250/500 kHz, SF7 to SF12, 4/5 to 4/8).
pub open spec fn lora_settings_supported(bandwidth_khz: u16, spreading_factor: u8, coding_rate: u8) -> bool {
    &&& (bandwidth_khz == 125 || bandwidth_khz == 250 || bandwidth_khz == 500)
    &&& 7 <= spreading_factor <= 12
    &&& 5 <= coding_rate <= 8
}

/// The integer part of the SX1262 channel check.
pub fn supported_lora_settings(bandwidth_khz: u16, spreading_factor: u8, coding_rate: u8) -> (r: bool)
    ensures
        r == lora_settings_supported(bandwidth_khz, spreading_factor, coding_rate),
{
    (bandwidth_khz == 125 || bandwidth_khz == 250 || bandwidth_khz == 500) && 7 <= spreading_factor
        && spreading_factor <= 12 && 5 <= coding_rate && coding_rate <= 8
}

/// Receiver sensitivity at 125 kHz, in tenths of a dBm, for each supported
/// spreading factor, in increasing order of spreading factor.
pub open spec fn sensitivity_entries() -> Seq<(u8, i32)> {
    seq![(7u8, -1230i32), (8u8, -1260i32), (9u8, -1290i32), (10u8, -1320i32), (11u8, -1345i32), (12u8, -1370i32)]
}

pub fn sensitivity_table() -> (t: Vec<(u8, i32)>)
    ensures
        t@ == sensitivity_entries(),
{
    let mut t: Vec<(u8, i32)> = Vec::new();
    t.push((7, -1230));
    t.push((8, -1260));
    t.push((9, -1290));
    t.push((10, -1320));
    t.push((11, -1345));
    t.push((12, -1370));
    assert(t@ =~= sensitivity_entries());
    t
}

/// The on-air interval of one transmission.
#[derive(Clone, Copy, Debug, PartialEq, Eq)]
pub struct TxWindow {
    pub timestamp_ms: u64,
    pub airtime_ms: u32,
}

pub open spec fn sat_end(start: u64, duration: u32) -> int {
    if start + duration > u64::MAX {
        u64::MAX as int
    } else {
        start + duration
    }
}

/// Two half-open intervals `[start, start + duration)` (ends saturate at
/// `u64::MAX`) share a moment; an empty interval overlaps nothing.
pub open spec fn overlap(first_start: u64, first_duration: u32, second_start: u64, second_duration: u32) -> bool {
    &&& first_duration != 0
    &&& second_duration != 0
    &&& first_start < sat_end(second_start, second_duration)
    &&& second_start < sat_end(first_start, first_duration)
}

pub fn intervals_overlap(first_start_ms: u64, first_duration_ms: u32, second_start_ms: u64, second_duration_ms: u32) -> (r: bool)
    ensures
        r == overlap(first_start_ms, first_duration_ms, second_start_ms, second_duration_ms),
{
    if first_duration_ms == 0 || second_duration_ms == 0 {
        return false;
    }
    let first_end_ms = first_start_ms.saturating_add(first_duration_ms as u64);
    let second_end_ms = second_start_ms.saturating_add(second_duration_ms as u64);
    first_start_ms < second_end_ms && second_start_ms < first_end_ms
}

/// Overlap does not depend on which interval is named first.
pub proof fn law_overlap_is_symmetric(a_start: u64, a_duration: u32, b_start: u64, b_duration: u32)
    ensures
        overlap(a_start, a_duration, b_start, b_duration) == overlap(b_start, b_duration, a_start, a_duration),
{
}

/// Transmissions currently on air on one set of modulation parameters.
pub struct ChannelState {
    active_transmissions: Vec<TxWindow>,
}

impl View for ChannelState {
    type V = Seq<TxWindow>;

    closed spec fn view(&self) -> Seq<TxWindow> {
        self.active_transmissions@
    }
}

/// Whether a receive interval overlaps some active transmission.
pub open spec fn collides(active: Seq<TxWindow>, start: u64, duration: u32) -> bool {
    exists|i: int| 0 <= i < active.len() && overlap(start, duration, #[trigger] active[i].timestamp_ms, active[i].airtime_ms)
}

/// A transmission is still on air at `now` when its saturated end is later.
pub open spec fn still_on_air(tx: TxWindow, now_ms: u64) -> bool {
    sat_end(tx.timestamp_ms, tx.airtime_ms) > now_ms
}

impl ChannelState {
    pub fn new() -> (c: Self)
        ensures
            c@ == Seq::<TxWindow>::empty(),
    {
        ChannelState { active_transmissions: Vec::new() }
    }

    pub fn is_busy(&self) -> (r: bool)
        ensures
            r == (self@.len() > 0),
    {
        self.active_transmissions.len() > 0
    }

    pub fn add_transmission(&mut self, tx: TxWindow)
        ensures
            final(self)@ == old(self)@.push(tx),
    {
        self.active_transmissions.push(tx);
    }

    /// Whether the receive interval overlaps an active transmission.
    pub fn check_collision(&self, rx_time_ms: u64, rx_duration_ms: u32) -> (r: bool)
        ensures
            r == collides(self@, rx_time_ms, rx_duration_ms),
    {
        let mut i: usize = 0;
        while i < self.active_transmissions.len()
            invariant
                i <= self@.len(),
                forall|j: int| 0 <= j < i ==> !overlap(rx_time_ms, rx_duration_ms, #[trigger] self@[j].timestamp_ms, self@[j].airtime_ms),
            decreases self@.len() - i,
        {
            let tx = self.active_transmissions[i];
            if intervals_overlap(rx_time_ms, rx_duration_ms, tx.timestamp_ms, tx.airtime_ms) {
                return true;
            }
            i = i + 1;
        }
        false
    }

    /// The active transmissions that overlap an interval, in order.
    pub fn overlapping_transmissions(&self, start_ms: u64, duration_ms: u32) -> (r: Vec<TxWindow>)
        ensures
            r@ == self@.filter(|tx: TxWindow| overlap(start_ms, duration_ms, tx.timestamp_ms, tx.airtime_ms)),
    {
        let ghost keep = |tx: TxWindow| overlap(start_ms, duration_ms, tx.timestamp_ms, tx.airtime_ms);
        let mut r: Vec<TxWindow> = Vec::new();
        let mut i: usize = 0;
        while i < self.active_transmissions.len()
            invariant
                i <= self@.len(),
                keep == (|tx: TxWindow| overlap(start_ms, duration_ms, tx.timestamp_ms, tx.airtime_ms)),
                r@ == self@.subrange(0, i as int).filter(keep),
            decreases self@.len() - i,
        {
            let tx = self.active_transmissions[i];
            proof {
                assert(self@.subrange(0, i + 1).drop_last() =~= self@.subrange(0, i as int));
                self@.subrange(0, i as int).lemma_filter_push(tx, keep);
                assert(self@.subrange(0, i + 1) =~= self@.subrange(0, i as int).push(tx));
            }
            if intervals_overlap(start_ms, duration_ms, tx.timestamp_ms, tx.airtime_ms) {
                r.push(tx);
            }
            i = i + 1;
        }
        assert(self@.subrange(0, i as int) =~= self@);
        r
    }

    /// Drops transmissions whose airtime has elapsed by `now_ms`.
    pub fn remove_expired(&mut self, now_ms: u64)
        ensures
            final(self)@ == old(self)@.filter(|tx: TxWindow| still_on_air(tx, now_ms)),
    {
        let ghost keep = |tx: TxWindow| still_on_air(tx, now_ms);
        let ghost before = self@;
        let mut kept: Vec<TxWindow> = Vec::new();
        let mut i: usize = 0;
        while i < self.active_transmissions.len()
            invariant
                i <= self@.len(),
                self@ == before,
                keep == (|tx: TxWindow| still_on_air(tx, now_ms)),
                kept@ == before.subrange(0, i as int).filter(keep),
            decreases self@.len() - i,
        {
            let tx = self.active_transmissions[i];
            proof {
                before.subrange(0, i as int).lemma_filter_push(tx, keep);
                assert(before.subrange(0, i + 1) =~= before.subrange(0, i as int).push(tx));
            }
            if tx.timestamp_ms.saturating_add(tx.airtime_ms as u64) > now_ms {
                kept.push(tx);
            }
            i = i + 1;
        }
        assert(before.subrange(0, i as int) =~= before);
        self.active_transmissions = kept;
    }
}

// ----- airtime ----------------------------------------------------------------

/// Payload symbol numerator `8·PL − 4·SF + 28 (+ 16 − 20 with an explicit
/// header)`, floored at zero.
pub open spec fn payload_numerator(packet_bytes: int, sf: int, explicit_header: bool) -> int {
    let n = 8 * packet_bytes - 4 * sf + 28 + if explicit_header { -4int } else { 0int };
    if n < 0 { 0 } else { n }
}

/// Four times the number of symbols on air: preamble + 4.25 + 8 payload
/// symbols, plus `ceil(numerator / 4(SF − 2))` coding blocks of `CR` symbols.
pub open spec fn quarter_symbols(packet_bytes: int, sf: int, coding_rate: int, preamble_len: int, explicit_header: bool) -> int {
    let denominator = 4 * (sf - 2);
    let blocks = (payload_numerator(packet_bytes, sf, explicit_header) + denominator - 1) / denominator;
    let cr = if coding_rate < 1 { 1 } else { coding_rate };
    4 * preamble_len + 17 + 32 + 4 * blocks * cr
}

/// Below SF 3 the coding-block divisor `4(SF − 2)` is negative, so the
/// rounded-up quotient counts blocks backwards.
pub open spec fn low_sf_blocks(packet_bytes: int, sf: int, explicit_header: bool) -> int {
    -(payload_numerator(packet_bytes, sf, explicit_header) / (4 * (2 - sf)))
}

/// Payload symbols below SF 3: eight, plus the (non-positive) block count
/// times the coding rate.
pub open spec fn low_sf_payload(packet_bytes: int, sf: int, coding_rate: int, explicit_header: bool) -> int {
    let cr = if coding_rate < 1 { 1 } else { coding_rate };
    8 + low_sf_blocks(packet_bytes, sf, explicit_header) * cr
}

/// LoRa packet airtime in whole milliseconds: symbols × 2^SF / bandwidth,
/// rounded down, saturating at `u32::MAX`; a zero bandwidth saturates.
/// At SF 2 the block divisor is zero and the time is unbounded, so it
/// saturates; below it a payload that counts negative makes the time zero
/// or negative, which reads as zero, and with a zero bandwidth only a
/// positive payload saturates.
pub open spec fn airtime_spec(packet_bytes: int, sf: u8, bw_khz: u16, coding_rate: u8, preamble_len: u16, explicit_header: bool) -> u32 {
    if sf == 2 {
        u32::MAX
    } else if sf < 2 {
        let payload = low_sf_payload(packet_bytes, sf as int, coding_rate as int, explicit_header);
        let quarters = 4 * preamble_len + 17 + 4 * payload;
        if bw_khz == 0 {
            if payload > 0 { u32::MAX } else { 0 }
        } else if quarters <= 0 {
            0
        } else {
            let ms = quarters * pow2(sf as nat) / (4 * bw_khz);
            if ms > u32::MAX { u32::MAX } else { ms as u32 }
        }
    } else if bw_khz == 0 {
        u32::MAX
    } else {
        let ms = quarter_symbols(packet_bytes, sf as int, coding_rate as int, preamble_len as int, explicit_header) * pow2(
            sf as nat,
        ) / (4 * bw_khz);
        if ms > u32::MAX { u32::MAX } else { ms as u32 }
    }
}

proof fn lemma_quarter_symbols_nonneg(packet_bytes: int, sf: int, coding_rate: int, preamble_len: int, explicit_header: bool)
    requires
        sf >= 3,
        preamble_len >= 0,
    ensures
        quarter_symbols(packet_bytes, sf, coding_rate, preamble_len, explicit_header) >= 49,
{
    let d = 4 * (sf - 2);
    let num = payload_numerator(packet_bytes, sf, explicit_header);
    let blocks = (num + d - 1) / d;
    assert(blocks >= 0) by (nonlinear_arith)
        requires
            d >= 4,
            num >= 0,
            blocks == (num + d - 1) / d,
    ;
    let cr = if coding_rate < 1 { 1 } else { coding_rate };
    assert(4 * blocks * cr >= 0) by (nonlinear_arith)
        requires
            blocks >= 0,
            cr >= 1,
    ;
}

/// Airtime is the on-air symbol count times the symbol time `2^SF / BW`
/// (milliseconds for a bandwidth in kHz), rounded down: for SF 3 and above,
/// a nonzero bandwidth and no saturation, the airtime `t` is the largest
/// whole number of milliseconds with `t · BW · 4 <= 4·symbols · 2^SF`.
pub proof fn law_airtime_is_symbols_times_symbol_time(packet_bytes: int, sf: u8, bw_khz: u16, coding_rate: u8,
    preamble_len: u16, explicit_header: bool)
    requires
        3 <= sf,
        bw_khz >= 1,
        airtime_spec(packet_bytes, sf, bw_khz, coding_rate, preamble_len, explicit_header) < u32::MAX,
    ensures
        ({
            let t = airtime_spec(packet_bytes, sf, bw_khz, coding_rate, preamble_len, explicit_header) as int;
            let q = quarter_symbols(packet_bytes, sf as int, coding_rate as int, preamble_len as int, explicit_header)
                * pow2(sf as nat);
            &&& t * (4 * bw_khz) <= q
            &&& q < (t + 1) * (4 * bw_khz)
        }),
{
    let q = quarter_symbols(packet_bytes, sf as int, coding_rate as int, preamble_len as int, explicit_header)
        * pow2(sf as nat);
    let d = 4 * bw_khz as int;
    let t = airtime_spec(packet_bytes, sf, bw_khz, coding_rate, preamble_len, explicit_header) as int;
    lemma_fundamental_div_mod(q, d);
    assert(t == q / d);
    assert(t * d <= q && q < (t + 1) * d) by (nonlinear_arith)
        requires
            q == d * (q / d) + q % d,
            0 <= q % d < d,
            t == q / d,
    ;
}

/// Doubling the bandwidth halves the airtime: for SF 3 and above, a nonzero
/// bandwidth whose double is still a valid bandwidth, and no saturation,
/// the airtime at twice the bandwidth is half the airtime, rounded down.
pub proof fn law_double_bandwidth_halves_airtime(packet_bytes: int, sf: u8, bw_khz: u16, coding_rate: u8,
    preamble_len: u16, explicit_header: bool)
    requires
        3 <= sf,
        1 <= bw_khz,
        2 * bw_khz <= u16::MAX,
        airtime_spec(packet_bytes, sf, bw_khz, coding_rate, preamble_len, explicit_header) < u32::MAX,
    ensures
        airtime_spec(packet_bytes, sf, (2 * bw_khz) as u16, coding_rate, preamble_len, explicit_header)
            == airtime_spec(packet_bytes, sf, bw_khz, coding_rate, preamble_len, explicit_header) / 2,
{
    lemma_quarter_symbols_nonneg(packet_bytes, sf as int, coding_rate as int, preamble_len as int, explicit_header);
    lemma_pow2_pos(sf as nat);
    let q = quarter_symbols(packet_bytes, sf as int, coding_rate as int, preamble_len as int, explicit_header)
        * pow2(sf as nat);
    assert(q >= 0) by (nonlinear_arith)
        requires
            quarter_symbols(packet_bytes, sf as int, coding_rate as int, preamble_len as int, explicit_header) >= 0,
            pow2(sf as nat) > 0,
            q == quarter_symbols(packet_bytes, sf as int, coding_rate as int, preamble_len as int, explicit_header)
                * pow2(sf as nat),
    ;
    let d = 4 * bw_khz as int;
    lemma_div_denominator(q, d, 2);
    assert(d * 2 == 4 * ((2 * bw_khz) as u16) as int);
}

/// Estimates LoRa packet airtime in milliseconds, in exact integer
/// arithmetic.
pub fn airtime_ms(packet_bytes: usize, sf: u8, bw_khz: u16, coding_rate: u8, preamble_len: u16, explicit_header: bool) -> (t: u32)
    requires
        sf < 64,
    ensures
        t == airtime_spec(packet_bytes as int, sf, bw_khz, coding_rate, preamble_len, explicit_header),
{
    if sf == 2 {
        return u32::MAX;
    }
    if sf < 2 {
        return low_sf_airtime(packet_bytes, sf, bw_khz, coding_rate, preamble_len, explicit_header);
    }
    if bw_khz == 0 {
        return u32::MAX;
    }
    let raw: u128 = 8 * packet_bytes as u128 + 28;
    let minus: u128 = 4 * sf as u128 + if explicit_header { 4 } else { 0 };
    let numerator: u128 = if raw > minus { raw - minus } else { 0 };
    assert(numerator == payload_numerator(packet_bytes as int, sf as int, explicit_header));
    let denominator: u128 = 4 * (sf as u128 - 2);
    let blocks: u128 = (numerator + denominator - 1) / denominator;
    let cr: u128 = if coding_rate < 1 { 1 } else { coding_rate as u128 };
    assert(blocks <= numerator + 1) by (nonlinear_arith)
        requires
            denominator >= 4,
            blocks == (numerator + denominator - 1) as int / denominator as int,
    ;
    assert(4 * blocks * cr <= 4 * (numerator + 1) * 255) by (nonlinear_arith)
        requires
            blocks <= numerator + 1,
            cr <= 255,
    ;
    let quarters: u128 = 4 * preamble_len as u128 + 49 + 4 * blocks * cr;
    assert(quarters == quarter_symbols(packet_bytes as int, sf as int, coding_rate as int, preamble_len as int, explicit_header));
    if quarters >= 0x1_0000_0000_0000_0000u128 {
        proof { lemma_airtime_saturates(quarters as int, sf as nat, bw_khz as int); }
        return u32::MAX;
    }
    let mut p: u128 = 1;
    let mut i: u8 = 0;
    proof { lemma2_to64(); }
    while i < sf
        invariant
            i <= sf,
            sf < 64,
            p == pow2(i as nat),
            p <= 0x8000_0000_0000_0000u128,
        decreases sf - i,
    {
        proof {
            lemma_pow2_bound(i as nat);
            lemma_pow2_unfold((i + 1) as nat);
            if i + 1 <= 63 {
                lemma_pow2_bound((i + 1) as nat);
            }
        }
        p = p * 2;
        i = i + 1;
    }
    proof { lemma_pow2_bound(sf as nat); }
    assert(quarters * p <= 0xFFFF_FFFF_FFFF_FFFFu128 * 0x8000_0000_0000_0000u128) by (nonlinear_arith)
        requires
            quarters < 0x1_0000_0000_0000_0000u128,
            p <= 0x8000_0000_0000_0000u128,
    ;
    let ms: u128 = quarters * p / (4 * bw_khz as u128);
    if ms > u32::MAX as u128 {
        u32::MAX
    } else {
        ms as u32
    }
}

fn low_sf_airtime(packet_bytes: usize, sf: u8, bw_khz: u16, coding_rate: u8, preamble_len: u16, explicit_header: bool) -> (t: u32)
    requires
        sf < 2,
    ensures
        t == airtime_spec(packet_bytes as int, sf, bw_khz, coding_rate, preamble_len, explicit_header),
{
    let raw: u128 = 8 * packet_bytes as u128 + 28;
    let minus: u128 = 4 * sf as u128 + if explicit_header { 4 } else { 0 };
    let numerator: u128 = if raw > minus { raw - minus } else { 0 };
    assert(numerator == payload_numerator(packet_bytes as int, sf as int, explicit_header));
    let divisor: u128 = 4 * (2 - sf as u128);
    let back: u128 = numerator / divisor;
    let cr: u128 = if coding_rate < 1 { 1 } else { coding_rate as u128 };
    assert(back <= numerator) by (nonlinear_arith)
        requires
            divisor >= 4,
            back == numerator as int / divisor as int,
    ;
    assert(back * cr <= numerator * 255) by (nonlinear_arith)
        requires
            back <= numerator,
            cr <= 255,
    ;
    let ghost payload = low_sf_payload(packet_bytes as int, sf as int, coding_rate as int, explicit_header);
    assert(low_sf_blocks(packet_bytes as int, sf as int, explicit_header) == -(back as int));
    assert((-(back as int)) * (cr as int) == -(back * cr)) by (nonlinear_arith);
    assert(payload == 8 - back * cr);
    assert(numerator <= 8 * 0xFFFF_FFFF_FFFF_FFFFu128 + 28);
    assert(4 * (back * cr) <= 4 * (numerator * 255)) by (nonlinear_arith)
        requires
            back * cr <= numerator * 255,
    ;
    assert(4 * back * cr == 4 * (back * cr)) by (nonlinear_arith);
    let positive: u128 = 4 * preamble_len as u128 + 49;
    let negative: u128 = 4 * back * cr;
    if bw_khz == 0 {
        if back * cr < 8 {
            return u32::MAX;
        }
        return 0;
    }
    if negative >= positive {
        return 0;
    }
    let quarters: u128 = positive - negative;
    assert(quarters <= 4 * 65535 + 49);
    let p: u128 = if sf == 0 { 1 } else { 2 };
    proof {
        lemma2_to64();
    }
    let ms: u128 = quarters * p / (4 * bw_khz as u128);
    assert(ms <= quarters * 2);
    if ms > u32::MAX as u128 {
        u32::MAX
    } else {
        ms as u32
    }
}

proof fn lemma_pow2_bound(n: nat)
    requires
        n <= 63,
    ensures
        pow2(n) <= 0x8000_0000_0000_0000,
        1 <= pow2(n),
{
    lemma2_to64_rest();
    lemma_pow2_pos(n);
    if n < 63 {
        lemma_pow2_strictly_increases(n, 63);
    }
}

proof fn lemma_airtime_saturates(quarters: int, sf: nat, bw: int)
    requires
        quarters >= 0x1_0000_0000_0000_0000,
        3 <= sf,
        1 <= bw <= 65535,
    ensures
        quarters * pow2(sf) / (4 * bw) > u32::MAX,
{
    lemma2_to64();
    if sf > 3 {
        lemma_pow2_strictly_increases(3, sf);
    }
    assert(quarters * pow2(sf) >= 0x1_0000_0000_0000_0000 * 8) by (nonlinear_arith)
        requires
            quarters >= 0x1_0000_0000_0000_0000,
            pow2(sf) >= 8,
    ;
    assert(quarters * pow2(sf) / (4 * bw) > u32::MAX) by (nonlinear_arith)
        requires
            quarters * pow2(sf) >= 0x1_0000_0000_0000_0000 * 8,
            1 <= bw <= 65535,
    ;
}

/// The node ids registered on the radio bus; each names one radio.
pub struct RadioNodeIds {
    ids: Vec<String>,
}

impl View for RadioNodeIds {
    type V = Set<Seq<char>>;

    closed spec fn view(&self) -> Set<Seq<char>> {
        Set::new(|k: Seq<char>| exists|i: int| 0 <= i < self.ids@.len() && #[trigger] self.ids@[i]@ == k)
    }
}

impl RadioNodeIds {
    /// No node id is listed twice.
    pub closed spec fn wf(&self) -> bool {
        forall|a: int, b: int| 0 <= a < b < self.ids@.len() ==> #[trigger] self.ids@[a]@ != #[trigger] self.ids@[b]@
    }

    pub fn new() -> (r: Self)
        ensures
            r.wf(),
            r@ == Set::<Seq<char>>::empty(),
    {
        let r = RadioNodeIds { ids: Vec::new() };
        assert(r@ =~= Set::<Seq<char>>::empty());
        r
    }

    fn position(&self, node_id: &str) -> (r: Option<usize>)
        ensures
            match r {
                Some(i) => i < self.ids@.len() && self.ids@[i as int]@ == node_id@,
                None => !self@.contains(node_id@),
            },
    {
        let key = node_id.to_owned();
        let mut i: usize = 0;
        while i < self.ids.len()
            invariant
                i <= self.ids@.len(),
                key@ == node_id@,
                forall|j: int| 0 <= j < i ==> #[trigger] self.ids@[j]@ != node_id@,
            decreases self.ids@.len() - i,
        {
            if self.ids[i] == key {
                return Some(i);
            }
            i = i + 1;
        }
        None
    }

    /// Whether a radio named `node_id` is registered.
    pub fn contains(&self, node_id: &str) -> (r: bool)
        ensures
            r == self@.contains(node_id@),
    {
        match self.position(node_id) {
            Some(i) => {
                assert(self@.contains(self.ids@[i as int]@));
                true
            },
            None => false,
        }
    }

    /// Registers a new radio's node id; refused for an empty id or one that
    /// is already in use.
    pub fn claim_node_id(&mut self, node_id: &str) -> (r: bool)
        requires
            old(self).wf(),
        ensures
            final(self).wf(),
            r == (node_id@.len() > 0 && !old(self)@.contains(node_id@)),
            final(self)@ == if r { old(self)@.insert(node_id@) } else { old(self)@ },
    {
        if node_id.unicode_len() == 0 {
            return false;
        }
        if self.contains(node_id) {
            return false;
        }
        let ghost before = self.ids@;
        self.ids.push(node_id.to_owned());
        assert forall|a: int, b: int| 0 <= a < b < self.ids@.len() implies #[trigger] self.ids@[a]@ != #[trigger] self.ids@[b]@ by {
            if b == before.len() {
                assert(self.ids@[a] == before[a]);
                assert(old(self)@.contains(before[a]@));
            } else {
                assert(self.ids@[a] == before[a] && self.ids@[b] == before[b]);
            }
        }
        assert forall|k: Seq<char>| #[trigger] self@.contains(k) == old(self)@.insert(node_id@).contains(k) by {
            if old(self)@.contains(k) {
                let j = choose|j: int| 0 <= j < before.len() && #[trigger] before[j]@ == k;
                assert(self.ids@[j] == before[j]);
            }
            if self@.contains(k) {
                let j = choose|j: int| 0 <= j < self.ids@.len() && #[trigger] self.ids@[j]@ == k;
                if j < before.len() {
                    assert(before[j] == self.ids@[j]);
                }
            }
            if k == node_id@ {
                assert(self.ids@[before.len() as int]@ == k);
            }
        }
        assert(self@ =~= old(self)@.insert(node_id@));
        true
    }

    /// Frees a destroyed radio's node id; whether it was registered.
    pub fn release_node_id(&mut self, node_id: &str) -> (r: bool)
        requires
            old(self).wf(),
        ensures
            final(self).wf(),
            r == old(self)@.contains(node_id@),
            final(self)@ == old(self)@.remove(node_id@),
    {
        match self.position(node_id) {
            None => {
                assert(self@ =~= old(self)@.remove(node_id@));
                false
            },
            Some(i) => {
                let ghost before = self.ids@;
                self.ids.remove(i);
                assert forall|k: Seq<char>| #[trigger] self@.contains(k) == old(self)@.remove(node_id@).contains(k) by {
                    if self@.contains(k) {
                        let j = choose|j: int| 0 <= j < self.ids@.len() && #[trigger] self.ids@[j]@ == k;
                        let j2 = if j < i { j } else { j + 1 };
                        assert(self.ids@[j] == before[j2]);
                        assert(j2 != i);
                    }
                    if old(self)@.contains(k) && k != node_id@ {
                        let j = choose|j: int| 0 <= j < before.len() && #[trigger] before[j]@ == k;
                        assert(j != i);
                        if j < i {
                            assert(self.ids@[j] == before[j]);
                        } else {
                            assert(self.ids@[j - 1] == before[j]);
                        }
                    }
                }
                assert(self@ =~= old(self)@.remove(node_id@));
                assert(old(self)@.contains(before[i as int]@));
                true
            },
        }
    }
}

} // verus!
