//! NTP messages and the clock-offset arithmetic of an NTP exchange.

use byteorder::ByteOrder;
use vstd::prelude::*;

verus! {

/// Bytes in an NTP message.
pub const NTP_MESSAGE_LENGTH: usize = 48;

/// Seconds from the NTP epoch (1900) to the Unix epoch (1970).
pub const NTP_TO_UNIX_SECONDS: i64 = 2_208_988_800;

/// The big-endian `u32` held by the four bytes at `at`.
pub open spec fn be_u32_spec(bytes: Seq<u8>, at: int) -> int {
    bytes[at] * 0x100_0000 + bytes[at + 1] * 0x1_0000 + bytes[at + 2] * 0x100 + bytes[at + 3]
}

/// `byteorder::BigEndian::read_u32` reads the first four bytes of its buffer
/// as a big-endian `u32`; it panics on a buffer shorter than four bytes.
#[verifier::external_body]
fn read_u32_be(data: &[u8], at: usize) -> (r: u32)
    requires
        at + 4 <= data@.len(),
    ensures
        r == be_u32_spec(data@, at as int),
{
    byteorder::BigEndian::read_u32(&data[at..])
}

/// A point in time in NTP form: seconds since 1900 and a binary fraction
/// of a second (in units of 2^-32 s).
#[derive(Default, Debug, Clone, Copy, PartialEq, Eq, Structural)]
pub struct NTPTimestamp {
    pub seconds: u32,
    pub fraction: u32,
}

/// A point in UTC as the Unix clock counts it: seconds since 1970 and
/// nanoseconds within the second.
#[derive(Debug, Clone, Copy, PartialEq, Eq, Structural)]
pub struct UnixTime {
    pub secs: i64,
    pub nanos: u32,
}

/// The nanoseconds that an NTP fraction stands for, rounded down.
pub open spec fn fraction_to_nanos(fraction: u32) -> int {
    (fraction * 1_000_000_000) / 0x1_0000_0000
}

/// The NTP fraction for a number of nanoseconds, rounded down and capped
/// at `u32::MAX`.
pub open spec fn nanos_to_fraction(nanos: u32) -> int {
    let f = (nanos * 0x1_0000_0000) / 1_000_000_000;
    if f > u32::MAX { u32::MAX as int } else { f }
}

impl From<NTPTimestamp> for UnixTime {
    /// The Unix time an NTP timestamp denotes.
    fn from(ntp: NTPTimestamp) -> (t: UnixTime) {
        let secs = ntp.seconds as i64 - NTP_TO_UNIX_SECONDS;
        let wide = ntp.fraction as u64 * 1_000_000_000u64;
        let nanos = (wide >> 32u64) as u32;
        assert(wide >> 32u64 == wide / 0x1_0000_0000) by (bit_vector);
        assert(wide / 0x1_0000_0000 < 1_000_000_000) by (nonlinear_arith)
            requires
                wide == ntp.fraction * 1_000_000_000,
                ntp.fraction < 0x1_0000_0000,
        ;
        UnixTime { secs, nanos }
    }
}

impl vstd::std_specs::convert::FromSpecImpl<NTPTimestamp> for UnixTime {
    open spec fn obeys_from_spec() -> bool {
        true
    }

    /// Seconds move from the 1900 epoch to the 1970 one; the fraction
    /// becomes whole nanoseconds, rounded down.
    open spec fn from_spec(ntp: NTPTimestamp) -> UnixTime {
        UnixTime {
            secs: (ntp.seconds - NTP_TO_UNIX_SECONDS) as i64,
            nanos: fraction_to_nanos(ntp.fraction) as u32,
        }
    }
}

impl From<UnixTime> for NTPTimestamp {
    /// The NTP timestamp for a Unix time.
    fn from(utc: UnixTime) -> (ntp: NTPTimestamp) {
        let secs = utc.secs as i128 + NTP_TO_UNIX_SECONDS as i128;
        let n = utc.nanos as u64;
        let wide = n << 32u64;
        assert(wide == n * 0x1_0000_0000) by (bit_vector)
            requires
                wide == n << 32u64,
                n < 0x1_0000_0000,
        ;
        let f = wide / 1_000_000_000u64;
        let fraction = if f > u32::MAX as u64 {
            u32::MAX
        } else {
            f as u32
        };
        let seconds = secs as u32;
        NTPTimestamp { seconds, fraction }
    }
}

impl vstd::std_specs::convert::FromSpecImpl<UnixTime> for NTPTimestamp {
    open spec fn obeys_from_spec() -> bool {
        true
    }

    /// Seconds move from the 1970 epoch to the 1900 one and wrap modulo
    /// 2^32, as a cast to `u32` does; nanoseconds become a binary fraction,
    /// rounded down and capped at `u32::MAX`.
    open spec fn from_spec(utc: UnixTime) -> NTPTimestamp {
        NTPTimestamp {
            seconds: (utc.secs + NTP_TO_UNIX_SECONDS) as u32,
            fraction: nanos_to_fraction(utc.nanos) as u32,
        }
    }
}

/// Division facts for the two conversions: a quotient times the divisor
/// lies within one divisor below the dividend.
proof fn lemma_div_bounds(a: int, d: int)
    requires
        a >= 0,
        d > 0,
    ensures
        d * (a / d) <= a < d * (a / d) + d,
{
    vstd::arithmetic::div_mod::lemma_fundamental_div_mod(a, d);
    vstd::arithmetic::div_mod::lemma_mod_bound(a, d);
}

/// Both conversions round down to the whole unit: the nanoseconds of a
/// fraction `f` are the largest `n` with `n * 2^32 <= f * 10^9`, and the
/// fraction of `n` nanoseconds is the largest `f` with `f * 10^9 <= n * 2^32`,
/// capped at `u32::MAX`.
pub proof fn lemma_conversions_round_down(f: u32, n: u32)
    ensures
        fraction_to_nanos(f) * 0x1_0000_0000 <= f * 1_000_000_000 < (fraction_to_nanos(f) + 1)
            * 0x1_0000_0000,
        n * 0x1_0000_0000 < (u32::MAX + 1) * 1_000_000_000 ==> nanos_to_fraction(n)
            * 1_000_000_000 <= n * 0x1_0000_0000 < (nanos_to_fraction(n) + 1) * 1_000_000_000,
        n * 0x1_0000_0000 >= (u32::MAX + 1) * 1_000_000_000 ==> nanos_to_fraction(n) == u32::MAX,
{
    lemma_div_bounds(f * 1_000_000_000, 0x1_0000_0000);
    lemma_div_bounds(n * 0x1_0000_0000, 1_000_000_000);
    let q = (n * 0x1_0000_0000) / 1_000_000_000;
    if n * 0x1_0000_0000 < (u32::MAX + 1) * 1_000_000_000 {
        assert(q <= u32::MAX) by (nonlinear_arith)
            requires
                1_000_000_000 * q <= n * 0x1_0000_0000,
                n * 0x1_0000_0000 < (u32::MAX + 1) * 1_000_000_000,
        ;
    } else {
        assert(q > u32::MAX) by (nonlinear_arith)
            requires
                n * 0x1_0000_0000 < 1_000_000_000 * q + 1_000_000_000,
                n * 0x1_0000_0000 >= (u32::MAX + 1) * 1_000_000_000,
        ;
    }
}

/// Converting an NTP timestamp to Unix time and back keeps the seconds
/// exactly and the fraction to within 5 units of 2^-32 s (the
/// nanosecond is the coarser unit), never rounding up.
pub proof fn lemma_ntp_unix_ntp(ntp: NTPTimestamp)
    ensures
        ((ntp.seconds - NTP_TO_UNIX_SECONDS) + NTP_TO_UNIX_SECONDS) as u32 == ntp.seconds,
        ntp.fraction - 5 <= nanos_to_fraction(fraction_to_nanos(ntp.fraction) as u32)
            <= ntp.fraction,
{
    let f = ntp.fraction as int;
    let n = fraction_to_nanos(ntp.fraction);
    lemma_div_bounds(f * 1_000_000_000, 0x1_0000_0000);
    assert(0 <= n < 1_000_000_000) by (nonlinear_arith)
        requires
            0x1_0000_0000 * n <= f * 1_000_000_000,
            0 <= f < 0x1_0000_0000,
            n == (f * 1_000_000_000) / 0x1_0000_0000,
            0 <= f * 1_000_000_000,
    {
        vstd::arithmetic::div_mod::lemma_div_pos_is_pos(f * 1_000_000_000, 0x1_0000_0000);
    }
    let g = (n * 0x1_0000_0000) / 1_000_000_000;
    lemma_div_bounds(n * 0x1_0000_0000, 1_000_000_000);
    assert(f - 5 <= g <= f) by (nonlinear_arith)
        requires
            0x1_0000_0000 * n <= f * 1_000_000_000 < 0x1_0000_0000 * n + 0x1_0000_0000,
            1_000_000_000 * g <= n * 0x1_0000_0000 < 1_000_000_000 * g + 1_000_000_000,
    ;
    assert((n as u32) as int == n);
}

/// Converting a Unix time (with less than a second of nanoseconds) to NTP
/// and back keeps the nanoseconds to within one, never rounding up.
pub proof fn lemma_unix_ntp_unix_nanos(nanos: u32)
    requires
        nanos < 1_000_000_000,
    ensures
        nanos - 1 <= fraction_to_nanos(nanos_to_fraction(nanos) as u32) <= nanos,
{
    let n = nanos as int;
    let f = (n * 0x1_0000_0000) / 1_000_000_000;
    lemma_div_bounds(n * 0x1_0000_0000, 1_000_000_000);
    assert(0 <= f < 0x1_0000_0000) by (nonlinear_arith)
        requires
            1_000_000_000 * f <= n * 0x1_0000_0000 < 1_000_000_000 * f + 1_000_000_000,
            0 <= n < 1_000_000_000,
    ;
    assert(nanos_to_fraction(nanos) == f);
    assert((f as u32) as int == f);
    let m = (f * 1_000_000_000) / 0x1_0000_0000;
    lemma_div_bounds(f * 1_000_000_000, 0x1_0000_0000);
    assert(n - 1 <= m <= n) by (nonlinear_arith)
        requires
            1_000_000_000 * f <= n * 0x1_0000_0000 < 1_000_000_000 * f + 1_000_000_000,
            0x1_0000_0000 * m <= f * 1_000_000_000 < 0x1_0000_0000 * m + 0x1_0000_0000,
    ;
}

/// Converting a Unix time whose NTP seconds fit in 32 bits to NTP and back
/// keeps the seconds exactly.
pub proof fn lemma_unix_ntp_unix_seconds(secs: i64)
    requires
        0 <= secs + NTP_TO_UNIX_SECONDS <= u32::MAX,
    ensures
        ((secs + NTP_TO_UNIX_SECONDS) as u32) - NTP_TO_UNIX_SECONDS == secs,
{
}

/// A 48-byte NTP message.
pub struct NTPMessage {
    pub data: [u8; 48],
}

impl NTPMessage {
    /// A message of all zero bytes.
    pub fn new() -> (m: Self)
        ensures
            forall|i: int| 0 <= i < NTP_MESSAGE_LENGTH ==> m.data@[i] == 0,
    {
        NTPMessage { data: [0; 48] }
    }

    /// A client request: version 3, mode 3 (client), everything else zero.
    pub fn client() -> (m: Self)
        ensures
            m.data@[0] == 0x1B,
            forall|i: int| 1 <= i < NTP_MESSAGE_LENGTH ==> m.data@[i] == 0,
    {
        let version: u8 = 0b00_011_000;
        let mode: u8 = 0b00_000_011;

        let mut msg = NTPMessage::new();

        msg.data[0] |= version;
        msg.data[0] |= mode;
        assert((0u8 | 0b00_011_000u8) | 0b00_000_011u8 == 0x1Bu8) by (bit_vector);
        msg
    }

    /// The timestamp stored big-endian in the eight bytes at `i`.
    pub fn parse_timestamp(&self, i: usize) -> (t: NTPTimestamp)
        requires
            i + 8 <= NTP_MESSAGE_LENGTH,
        ensures
            t.seconds == be_u32_spec(self.data@, i as int),
            t.fraction == be_u32_spec(self.data@, i + 4),
    {
        let seconds = read_u32_be(self.data.as_slice(), i);
        let fraction = read_u32_be(self.data.as_slice(), i + 4);
        NTPTimestamp { seconds, fraction }
    }

    /// The server's receive timestamp (bytes 32 to 39).
    pub fn rx_time(&self) -> (t: NTPTimestamp)
        ensures
            t.seconds == be_u32_spec(self.data@, 32),
            t.fraction == be_u32_spec(self.data@, 36),
    {
        self.parse_timestamp(32)
    }

    /// The server's transmit timestamp (bytes 40 to 47).
    pub fn tx_time(&self) -> (t: NTPTimestamp)
        ensures
            t.seconds == be_u32_spec(self.data@, 40),
            t.fraction == be_u32_spec(self.data@, 44),
    {
        self.parse_timestamp(40)
    }
}

/// Integer division by two that rounds toward zero, as Rust's `/` does.
pub open spec fn half_toward_zero(d: int) -> int {
    if d >= 0 { d / 2 } else { -((-d) / 2) }
}

/// The four instants of an NTP exchange: request sent (t1), request
/// received by the server (t2), reply sent by the server (t3), reply
/// received (t4).
#[derive(Debug)]
pub struct NTPResult {
    pub t1: UnixTime,
    pub t2: UnixTime,
    pub t3: UnixTime,
    pub t4: UnixTime,
}

/// The offset of the local clock from the server's, in whole seconds
/// (the `/ 2` rounds toward zero).
pub open spec fn offset_spec(r: NTPResult) -> int {
    half_toward_zero((r.t2.secs - r.t1.secs) + (r.t4.secs - r.t3.secs))
}

/// The round-trip delay, in whole seconds.
pub open spec fn delay_spec(r: NTPResult) -> int {
    (r.t4.secs - r.t1.secs) + (r.t3.secs - r.t2.secs)
}

impl NTPResult {
    /// The clock offset: `((t2 - t1) + (t4 - t3)) / 2` in seconds.
    pub fn offset(&self) -> (o: i64)
        requires
            i64::MIN <= self.t2.secs - self.t1.secs <= i64::MAX,
            i64::MIN <= self.t4.secs - self.t3.secs <= i64::MAX,
            i64::MIN <= (self.t2.secs - self.t1.secs) + (self.t4.secs - self.t3.secs)
                <= i64::MAX,
        ensures
            o == offset_spec(*self),
            ({
                let sum = (self.t2.secs - self.t1.secs) + (self.t4.secs - self.t3.secs);
                &&& sum >= 0 ==> 2 * o <= sum <= 2 * o + 1
                &&& sum < 0 ==> 2 * o - 1 <= sum <= 2 * o
            }),
    {
        let duration = (self.t2.secs - self.t1.secs) + (self.t4.secs - self.t3.secs);
        duration / 2
    }

    /// The round-trip delay: `(t4 - t1) + (t3 - t2)` in seconds.
    pub fn delay(&self) -> (d: i64)
        requires
            i64::MIN <= self.t4.secs - self.t1.secs <= i64::MAX,
            i64::MIN <= self.t3.secs - self.t2.secs <= i64::MAX,
            i64::MIN <= (self.t4.secs - self.t1.secs) + (self.t3.secs - self.t2.secs)
                <= i64::MAX,
        ensures
            d == delay_spec(*self),
            d == (self.t4.secs - self.t1.secs) + (self.t3.secs - self.t2.secs),
    {
        (self.t4.secs - self.t1.secs) + (self.t3.secs - self.t2.secs)
    }
}

/// How the delay and offset move with the timestamps: an exchange whose
/// four instants coincide has delay and offset 0; moving the reply's
/// arrival (t4) or the server's send (t3) later by `k` seconds lengthens
/// the delay by `k`; moving the request's send (t1) later shortens it by
/// `k`; and twice the offset is within one second of
/// `(t2 - t1) + (t4 - t3)`, rounded toward zero.
pub proof fn lemma_delay_and_offset_shift(r: NTPResult, k: i64)
    ensures
        (r.t1.secs == r.t2.secs && r.t2.secs == r.t3.secs && r.t3.secs == r.t4.secs) ==> delay_spec(
            r,
        ) == 0 && offset_spec(r) == 0,
        delay_spec(NTPResult { t4: UnixTime { secs: k, ..r.t4 }, ..r }) == delay_spec(r) + (k
            - r.t4.secs),
        delay_spec(NTPResult { t3: UnixTime { secs: k, ..r.t3 }, ..r }) == delay_spec(r) + (k
            - r.t3.secs),
        delay_spec(NTPResult { t1: UnixTime { secs: k, ..r.t1 }, ..r }) == delay_spec(r) - (k
            - r.t1.secs),
        ({
            let sum = (r.t2.secs - r.t1.secs) + (r.t4.secs - r.t3.secs);
            &&& sum >= 0 ==> 2 * offset_spec(r) <= sum <= 2 * offset_spec(r) + 1
            &&& sum < 0 ==> 2 * offset_spec(r) - 1 <= sum <= 2 * offset_spec(r)
        }),
{
}

/// The exchange recorded from a server's reply: `t1` and `t4` are the local
/// clock readings around the exchange, `t2` and `t3` come from the reply.
pub fn ntp_result(t1: UnixTime, response: &NTPMessage, t4: UnixTime) -> (r: NTPResult)
    ensures
        r.t1 == t1,
        r.t4 == t4,
        r.t2.secs == be_u32_spec(response.data@, 32) - NTP_TO_UNIX_SECONDS,
        r.t2.nanos == fraction_to_nanos(be_u32_spec(response.data@, 36) as u32),
        r.t3.secs == be_u32_spec(response.data@, 40) - NTP_TO_UNIX_SECONDS,
        r.t3.nanos == fraction_to_nanos(be_u32_spec(response.data@, 44) as u32),
{
    let t2 = UnixTime::from(response.rx_time());
    let t3 = UnixTime::from(response.tx_time());
    NTPResult { t1, t2, t3, t4 }
}

/// The magnitude of a clock offset, capped at 200 ms.
pub open spec fn capped_magnitude(offset: int) -> int {
    let a = if offset < 0 { -offset } else { offset };
    if a < 200 { a } else { 200 }
}

/// The step depends on the offset's magnitude alone, never falls as the
/// magnitude grows, equals a fifth of the magnitude below 200 ms and is
/// 40 ms from 200 ms on.
pub proof fn lemma_adjustment_by_magnitude(o1: int, o2: int)
    ensures
        capped_magnitude(o1) / 5 == capped_magnitude(-o1) / 5,
        (if o1 < 0 { -o1 } else { o1 }) <= (if o2 < 0 { -o2 } else { o2 }) ==> capped_magnitude(o1)
            / 5 <= capped_magnitude(o2) / 5,
        -200 < o1 < 200 ==> capped_magnitude(o1) / 5 == (if o1 < 0 { -o1 } else { o1 }) / 5,
        (o1 >= 200 || o1 <= -200) ==> capped_magnitude(o1) / 5 == 40,
{
    let a = capped_magnitude(o1);
    let b = capped_magnitude(o2);
    if a <= b {
        vstd::arithmetic::div_mod::lemma_div_is_ordered(a, b, 5);
    }
}

/// The step by which a clock is nudged toward a measured offset: a fifth of
/// the offset's magnitude, the magnitude capped at 200 ms.
pub fn clock_adjustment_ms(offset: isize) -> (adjust: isize)
    requires
        offset != isize::MIN,
    ensures
        adjust == capped_magnitude(offset as int) / 5,
        0 <= adjust <= 40,
        -200 < offset < 200 ==> adjust == (if offset < 0 { -offset } else { offset as int }) / 5,
        (offset >= 200 || offset <= -200) ==> adjust == 40,
{
    let magnitude = if offset < 0 {
        -offset
    } else {
        offset
    };
    let capped = if magnitude < 200 {
        magnitude
    } else {
        200
    };
    capped / 5
}

} // verus!
