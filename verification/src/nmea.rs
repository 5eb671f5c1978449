//! NMEA 0183 framing for the virtual L76K receiver: checksums, sentence
//! framing, the satellites-in-view sentences, and the UART output gate that
//! releases one batch of sentences per second at the configured baud rate.

use vstd::prelude::*;
use vstd::string::StringSliceAdditionalSpecFns;

use crate::sorted::key_bytes;
use crate::text::{hex_digit, hex_digit_char, padded_decimal, push_char, push_decimal};

verus! {

/// L76K UART baud rate used by default.
pub const GPS_BAUD_RATE: u32 = 9_600;
/// Alternate L76K baud rate used by the real receiver's baud cycling.
pub const GPS_BAUD_RATE_FAST: u32 = 38_400;
/// Lowest baud rate the receiver accepts.
pub const MIN_GPS_BAUD_RATE: u32 = 4_800;
/// Highest baud rate the receiver accepts.
pub const MAX_GPS_BAUD_RATE: u32 = 115_200;
/// L76K UART TX pin on the emulated board.
pub const GPS_TX_PIN: u8 = 43;
/// L76K UART RX pin on the emulated board.
pub const GPS_RX_PIN: u8 = 44;
/// 9600 baud with 8N1 framing transfers 960 bytes per second.
pub const UART_BYTES_PER_SECOND: usize = 960;
/// Length of one NMEA output epoch.
pub const EPOCH_MS: u64 = 1_000;

/// XOR of all bytes, the NMEA checksum of a sentence body.
pub open spec fn xor_checksum(bytes: Seq<u8>) -> u8
    decreases bytes.len(),
{
    if bytes.len() == 0 {
        0
    } else {
        xor_checksum(bytes.drop_last()) ^ bytes.last()
    }
}

/// The checksum of the characters between `$` and `*`.
pub fn calculate_checksum(sentence: &str) -> (c: u8)
    ensures
        c == xor_checksum(key_bytes(sentence@)),
{
    let bytes = sentence.as_bytes();
    let mut acc: u8 = 0;
    let mut i: usize = 0;
    while i < bytes.len()
        invariant
            i <= bytes@.len(),
            acc == xor_checksum(bytes@.subrange(0, i as int)),
        decreases bytes@.len() - i,
    {
        assert(bytes@.subrange(0, i + 1).drop_last() =~= bytes@.subrange(0, i as int));
        acc = acc ^ bytes[i];
        i = i + 1;
    }
    assert(bytes@.subrange(0, i as int) =~= bytes@);
    acc
}

/// `$<body>*<checksum as two uppercase hex digits>\r\n`.
pub open spec fn nmea_sentence(body: Seq<char>) -> Seq<char> {
    let c = xor_checksum(key_bytes(body));
    seq!['$'] + body + seq!['*', hex_digit(c / 16), hex_digit(c % 16), '\r', '\n']
}

/// Frames a sentence body with its start marker, checksum and line end.
pub fn finish_sentence(body: &str) -> (s: String)
    ensures
        s@ == nmea_sentence(body@),
{
    let checksum = calculate_checksum(body);
    let mut s = String::new();
    push_char(&mut s, '$');
    s.append(body);
    push_char(&mut s, '*');
    let hi = hex_digit_char(checksum / 16);
    push_char(&mut s, hi);
    let lo = hex_digit_char(checksum % 16);
    push_char(&mut s, lo);
    push_char(&mut s, '\r');
    push_char(&mut s, '\n');
    assert(s@ =~= nmea_sentence(body@));
    s
}

/// Bytes transferred per second at `baud_rate` with 8N1 framing.
pub fn uart_bytes_per_second(baud_rate: u32) -> (n: usize)
    ensures
        n == baud_rate / 10,
{
    (baud_rate / 10) as usize
}

// ----- satellites in view ---------------------------------------------------

/// Number of GSV sentences for `satellites` (four per sentence, at least one).
pub open spec fn gsv_message_count(satellites: u8) -> int {
    (if satellites == 0 { 1 } else { satellites as int } + 3) / 4
}

/// `,PRN,elevation,azimuth,SNR` for one synthetic satellite.
pub open spec fn gsv_satellite(prn: int) -> Seq<char> {
    seq![','] + padded_decimal(prn as nat, 2) + seq![','] + padded_decimal((30 + prn * 5) as nat, 2) + seq![','] + padded_decimal(
        ((prn * 67) % 360) as nat,
        3,
    ) + seq![','] + padded_decimal((35 + prn) as nat, 2)
}

/// The satellite fields for PRNs `first..=last`.
pub open spec fn gsv_satellites(first: int, last: int) -> Seq<char>
    decreases last - first + 1,
{
    if last < first {
        Seq::empty()
    } else {
        gsv_satellites(first, last - 1) + gsv_satellite(last)
    }
}

/// The body of GSV fragment `fragment` (0-based).
pub open spec fn gsv_body(satellites: u8, fragment: int) -> Seq<char> {
    let first = fragment * 4 + 1;
    let last = if first + 3 < satellites { first + 3 } else { satellites as int };
    "GPGSV,"@ + decimal_of(gsv_message_count(satellites)) + seq![','] + decimal_of(fragment + 1) + seq![','] + padded_decimal(
        satellites as nat,
        2,
    ) + gsv_satellites(first, last)
}

pub open spec fn decimal_of(n: int) -> Seq<char> {
    padded_decimal(n as nat, 0)
}

proof fn lemma_gsv_satellites_step(first: int, last: int)
    requires
        first <= last + 1,
    ensures
        gsv_satellites(first, last + 1) == gsv_satellites(first, last) + gsv_satellite(last + 1),
{
}

/// The complete set of `$GPGSV` sentences for the receiver's synthetic
/// constellation: PRN `p` at elevation `30 + 5p`, azimuth `67p mod 360` and
/// SNR `35 + p`, four satellites per sentence.
pub fn generate_gsv(satellites: u8) -> (sentences: Vec<String>)
    ensures
        sentences@.len() == gsv_message_count(satellites),
        forall|f: int| 0 <= f < sentences@.len() ==> #[trigger] sentences@[f]@ == nmea_sentence(gsv_body(satellites, f)),
{
    let visible: u8 = if satellites == 0 { 1 } else { satellites };
    let message_count: u8 = ((visible as u16 + 3) / 4) as u8;
    let mut sentences: Vec<String> = Vec::new();
    let mut fragment: u8 = 0;
    while fragment < message_count
        invariant
            message_count == gsv_message_count(satellites),
            message_count <= 64,
            fragment <= message_count,
            sentences@.len() == fragment,
            forall|f: int| 0 <= f < fragment ==> #[trigger] sentences@[f]@ == nmea_sentence(gsv_body(satellites, f)),
        decreases message_count - fragment,
    {
        let first: u16 = fragment as u16 * 4 + 1;
        let last: u16 = if first + 3 < satellites as u16 { first + 3 } else { satellites as u16 };
        let mut body = String::new();
        body.append("GPGSV,");
        push_decimal(&mut body, message_count as u64, 0);
        push_char(&mut body, ',');
        push_decimal(&mut body, fragment as u64 + 1, 0);
        push_char(&mut body, ',');
        push_decimal(&mut body, satellites as u64, 2);
        let ghost head = body@;
        let mut prn: u16 = first;
        while prn <= last
            invariant
                first <= prn <= last + 1,
                last <= 255,
                body@ == head + gsv_satellites(first as int, prn - 1),
            decreases last + 1 - prn,
        {
            proof { lemma_gsv_satellites_step(first as int, prn - 1); }
            push_char(&mut body, ',');
            push_decimal(&mut body, prn as u64, 2);
            push_char(&mut body, ',');
            push_decimal(&mut body, (30 + prn * 5) as u64, 2);
            push_char(&mut body, ',');
            push_decimal(&mut body, ((prn * 67) % 360) as u64, 3);
            push_char(&mut body, ',');
            push_decimal(&mut body, (35 + prn) as u64, 2);
            assert(body@ =~= head + gsv_satellites(first as int, prn as int));
            prn = prn + 1;
        }
        assert(body@ =~= gsv_body(satellites, fragment as int));
        let sentence = finish_sentence(body.as_str());
        sentences.push(sentence);
        fragment = fragment + 1;
    }
    sentences
}

// ----- active satellites ----------------------------------------------------

/// GSA fix type: a 3D fix while output is enabled with a fix, else none.
pub open spec fn gsa_fix_type(enabled: bool, fix_quality: u8) -> int {
    if enabled && fix_quality > 0 {
        3
    } else {
        1
    }
}

/// The PRN field for channel `prn`: the two-digit PRN when that many
/// satellites are in use, otherwise empty.
pub open spec fn gsa_prn_field(prn: int, satellites: u8) -> Seq<char> {
    if prn <= satellites {
        padded_decimal(prn as nat, 2)
    } else {
        Seq::empty()
    }
}

/// `,field` for channels `1..=n`.
pub open spec fn gsa_prn_fields(satellites: u8, n: int) -> Seq<char>
    decreases n,
{
    if n <= 0 {
        Seq::empty()
    } else {
        gsa_prn_fields(satellites, n - 1) + seq![','] + gsa_prn_field(n, satellites)
    }
}

/// `GPGSA,A,<fix type>` followed by the twelve PRN channels.
pub open spec fn gsa_head_spec(enabled: bool, fix_quality: u8, satellites: u8) -> Seq<char> {
    "GPGSA,A,"@ + decimal_of(gsa_fix_type(enabled, fix_quality)) + gsa_prn_fields(satellites, 12)
}

/// The start of a `$GPGSA` body: automatic mode, the fix type and the
/// twelve satellite channels; the dilution-of-precision fields follow it.
pub fn gsa_head(enabled: bool, fix_quality: u8, satellites: u8) -> (head: String)
    ensures
        head@ == gsa_head_spec(enabled, fix_quality, satellites),
{
    let mut head = String::new();
    head.append("GPGSA,A,");
    let fix_type: u64 = if enabled && fix_quality > 0 { 3 } else { 1 };
    push_decimal(&mut head, fix_type, 0);
    let ghost start = head@;
    let mut prn: u8 = 1;
    while prn <= 12
        invariant
            1 <= prn <= 13,
            head@ == start + gsa_prn_fields(satellites, prn - 1),
        decreases 13 - prn,
    {
        push_char(&mut head, ',');
        if prn <= satellites {
            push_decimal(&mut head, prn as u64, 2);
        }
        assert(head@ =~= start + gsa_prn_fields(satellites, prn as int));
        prn = prn + 1;
    }
    proof {
        reveal_strlit("GPGSA,A,");
    }
    assert(head@ =~= gsa_head_spec(enabled, fix_quality, satellites));
    head
}

// ----- UART output gate -----------------------------------------------------

/// Mathematical state of the receiver's UART output.
pub struct NmeaOutputView {
    /// Bytes of emitted sentences not yet read.
    pub pending: Seq<u8>,
    /// Time into the current one-second epoch.
    pub epoch_elapsed_ms: u64,
    /// Bytes the UART may still deliver in the current epoch.
    pub allowance: int,
    pub baud_rate: u32,
    pub enabled: bool,
}

/// The receiver's UART: one batch of sentences per elapsed second, read out
/// no faster than the baud rate allows.
pub struct NmeaOutput {
    pending: Vec<u8>,
    read_position: usize,
    epoch_elapsed_ms: u64,
    allowance: usize,
    baud_rate: u32,
    enabled: bool,
}

impl View for NmeaOutput {
    type V = NmeaOutputView;

    closed spec fn view(&self) -> NmeaOutputView {
        NmeaOutputView {
            pending: self.pending@.skip(self.read_position as int),
            epoch_elapsed_ms: self.epoch_elapsed_ms,
            allowance: self.allowance as int,
            baud_rate: self.baud_rate,
            enabled: self.enabled,
        }
    }
}

/// Output restarted at a sentence boundary: nothing pending, a fresh epoch.
pub open spec fn restarted(v: NmeaOutputView) -> NmeaOutputView {
    NmeaOutputView { pending: Seq::empty(), epoch_elapsed_ms: 0, allowance: 0, ..v }
}

impl NmeaOutput {
    pub closed spec fn wf(&self) -> bool {
        &&& self.read_position <= self.pending@.len()
        &&& self.epoch_elapsed_ms < EPOCH_MS
    }

    /// Enabled output at 9600 baud with nothing emitted yet.
    pub fn new() -> (o: Self)
        ensures
            o.wf(),
            o@ == (NmeaOutputView {
                pending: Seq::empty(),
                epoch_elapsed_ms: 0,
                allowance: 0,
                baud_rate: GPS_BAUD_RATE,
                enabled: true,
            }),
    {
        let o = NmeaOutput {
            pending: Vec::new(),
            read_position: 0,
            epoch_elapsed_ms: 0,
            allowance: 0,
            baud_rate: GPS_BAUD_RATE,
            enabled: true,
        };
        assert(o@.pending =~= Seq::empty());
        o
    }

    fn reset_output(&mut self)
        requires
            old(self).wf(),
        ensures
            final(self).wf(),
            final(self)@ == restarted(old(self)@),
    {
        self.pending = Vec::new();
        self.read_position = 0;
        self.epoch_elapsed_ms = 0;
        self.allowance = 0;
        assert(self@.pending =~= Seq::empty());
    }

    pub fn baud_rate(&self) -> (r: u32)
        ensures
            r == self@.baud_rate,
    {
        self.baud_rate
    }

    pub fn is_enabled(&self) -> (r: bool)
        ensures
            r == self@.enabled,
    {
        self.enabled
    }

    /// Configures the UART rate. Rates outside 4800..=115200 are refused and
    /// leave the rate as it was; a new rate restarts output.
    pub fn set_baud_rate(&mut self, baud_rate: u32) -> (r: bool)
        requires
            old(self).wf(),
        ensures
            final(self).wf(),
            r == (MIN_GPS_BAUD_RATE <= baud_rate <= MAX_GPS_BAUD_RATE),
            final(self)@ == (if !r || old(self)@.baud_rate == baud_rate {
                old(self)@
            } else {
                NmeaOutputView { baud_rate, ..restarted(old(self)@) }
            }),
    {
        if baud_rate < MIN_GPS_BAUD_RATE || baud_rate > MAX_GPS_BAUD_RATE {
            return false;
        }
        if self.baud_rate != baud_rate {
            self.baud_rate = baud_rate;
            self.reset_output();
        }
        true
    }

    /// Follows the receiver's enable state; a change discards partial output
    /// and starts a fresh epoch.
    pub fn set_enabled(&mut self, enabled: bool)
        requires
            old(self).wf(),
        ensures
            final(self).wf(),
            final(self)@ == (if old(self)@.enabled == enabled {
                old(self)@
            } else {
                NmeaOutputView { enabled, ..restarted(old(self)@) }
            }),
    {
        if self.enabled != enabled {
            self.enabled = enabled;
            self.reset_output();
        }
    }

    /// Advances the epoch clock by `dt_ms` and returns how many whole epochs
    /// elapsed; the caller appends one sentence batch per epoch. Each tick
    /// that completes an epoch grants `epochs * bytes-per-second` of UART
    /// allowance. Disabled output does not advance.
    pub fn tick(&mut self, dt_ms: u64) -> (epochs: u64)
        requires
            old(self).wf(),
        ensures
            final(self).wf(),
            !old(self)@.enabled ==> epochs == 0 && final(self)@ == old(self)@,
            old(self)@.enabled ==> {
                let total = old(self)@.epoch_elapsed_ms + dt_ms;
                let capped = if total > u64::MAX { u64::MAX as int } else { total };
                &&& epochs == capped / 1000
                &&& final(self)@.epoch_elapsed_ms == capped % 1000
                &&& final(self)@.pending == old(self)@.pending
                &&& final(self)@.baud_rate == old(self)@.baud_rate
                &&& final(self)@.enabled
                &&& final(self)@.allowance == (if epochs == 0 {
                    old(self)@.allowance
                } else {
                    let grant = epochs * (old(self)@.baud_rate / 10);
                    if grant > usize::MAX { usize::MAX as int } else { grant }
                })
            },
    {
        if !self.enabled {
            return 0;
        }
        let total = self.epoch_elapsed_ms.saturating_add(dt_ms);
        let epochs = total / EPOCH_MS;
        self.epoch_elapsed_ms = total % EPOCH_MS;
        if epochs == 0 {
            return 0;
        }
        let per_second = uart_bytes_per_second(self.baud_rate);
        let count: usize = if epochs > usize::MAX as u64 { usize::MAX } else { epochs as usize };
        self.allowance = match count.checked_mul(per_second) {
            Some(v) => v,
            None => usize::MAX,
        };
        proof {
            if epochs <= usize::MAX {
                assert(count == epochs);
                assert(per_second == old(self).baud_rate / 10);
                assert(count * per_second == epochs * (old(self).baud_rate / 10));
            } else if per_second == 0 {
                let ghost b: int = (old(self).baud_rate / 10) as int;
                assert(epochs * b == 0) by (nonlinear_arith)
                    requires
                        b == 0,
                ;
                assert(count * per_second == 0) by (nonlinear_arith)
                    requires
                        per_second == 0,
                ;
            }
            if epochs > usize::MAX as u64 && per_second > 0 {
                assert(epochs * per_second > usize::MAX) by (nonlinear_arith)
                    requires
                        epochs > usize::MAX,
                        per_second >= 1,
                ;
                assert(count * per_second >= usize::MAX) by (nonlinear_arith)
                    requires
                        count == usize::MAX,
                        per_second >= 1,
                ;
            }
        }
        epochs
    }

    /// Appends the bytes of emitted sentences.
    pub fn enqueue(&mut self, bytes: &[u8])
        requires
            old(self).wf(),
        ensures
            final(self).wf(),
            final(self)@ == (NmeaOutputView { pending: old(self)@.pending + bytes@, ..old(self)@ }),
    {
        let mut i: usize = 0;
        let ghost start = self.pending@;
        while i < bytes.len()
            invariant
                i <= bytes@.len(),
                self.pending@ == start + bytes@.subrange(0, i as int),
                start == old(self).pending@,
                self.read_position == old(self).read_position,
                self.read_position <= start.len(),
                self.epoch_elapsed_ms == old(self).epoch_elapsed_ms,
                self.epoch_elapsed_ms < EPOCH_MS,
                self.allowance == old(self).allowance,
                self.baud_rate == old(self).baud_rate,
                self.enabled == old(self).enabled,
            decreases bytes@.len() - i,
        {
            self.pending.push(bytes[i]);
            assert(bytes@.subrange(0, i + 1) =~= bytes@.subrange(0, i as int).push(bytes@[i as int]));
            i = i + 1;
        }
        assert(bytes@.subrange(0, i as int) =~= bytes@);
        assert(self@.pending =~= old(self)@.pending + bytes@);
    }

    /// Copies out as many pending bytes as `buf`, the pending data and the
    /// UART allowance permit; zero while output is disabled.
    pub fn read(&mut self, buf: &mut [u8]) -> (n: usize)
        requires
            old(self).wf(),
        ensures
            final(self).wf(),
            final(buf)@.len() == old(buf)@.len(),
            !old(self)@.enabled ==> n == 0 && final(self)@ == old(self)@ && final(buf)@ == old(buf)@,
            old(self)@.enabled ==> {
                let limit = if old(self)@.pending.len() < old(buf)@.len() { old(self)@.pending.len() as int } else { old(buf)@.len() as int };
                &&& n == (if limit < old(self)@.allowance { limit } else { old(self)@.allowance })
                &&& final(buf)@ == old(self)@.pending.subrange(0, n as int) + old(buf)@.skip(n as int)
                &&& final(self)@ == (NmeaOutputView {
                    pending: old(self)@.pending.skip(n as int),
                    allowance: old(self)@.allowance - n,
                    ..old(self)@
                })
            },
    {
        if !self.enabled || buf.len() == 0 {
            proof {
                if self.enabled {
                    assert(old(buf)@.skip(0) =~= old(buf)@);
                    assert(self@.pending.skip(0) =~= self@.pending);
                }
            }
            return 0;
        }
        let available = self.pending.len() - self.read_position;
        let mut n = if available < buf.len() { available } else { buf.len() };
        if self.allowance < n {
            n = self.allowance;
        }
        let ghost pend = self@.pending;
        let mut i: usize = 0;
        while i < n
            invariant
                n <= buf@.len(),
                self.read_position + n <= self.pending.len(),
                i <= n,
                self.read_position + i <= self.pending@.len(),
                pend == self.pending@.skip(self.read_position as int),
                buf@.len() == old(buf)@.len(),
                forall|j: int| 0 <= j < i ==> buf@[j] == pend[j],
                forall|j: int| i <= j < buf@.len() ==> buf@[j] == old(buf)@[j],
            decreases n - i,
        {
            buf[i] = self.pending[self.read_position + i];
            i = i + 1;
        }
        self.read_position = self.read_position + n;
        self.allowance = self.allowance - n;
        assert(buf@ =~= pend.subrange(0, n as int) + old(buf)@.skip(n as int));
        assert(self@.pending =~= pend.skip(n as int));
        n
    }
}

} // verus!
