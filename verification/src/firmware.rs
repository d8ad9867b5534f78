//! Decisions the firmware makes while it boots and runs: its own version,
//! the device serial number, the partition it booted from, the life cycle of
//! the runtime, and the messages of UART faults.
use vstd::prelude::*;
use vstd::string::StringSliceAdditionalSpecFns;

verus! {

/// `.`
pub const DOT: u8 = 0x2E;
/// `+`
pub const PLUS: u8 = 0x2B;
/// `0`
pub const DIGIT_ZERO: u8 = 0x30;
/// `9`
pub const DIGIT_NINE: u8 = 0x39;

/// Index of the first `.` of `s` at or after `from`, or the length of `s`.
pub open spec fn next_dot(s: Seq<u8>, from: int) -> int
    decreases s.len() - from,
{
    if from >= s.len() {
        s.len() as int
    } else if s[from] == DOT {
        from
    } else {
        next_dot(s, from + 1)
    }
}

/// The first three `.`-separated fields of `s`; `None` when `s` has fewer
/// than three fields. Fields after the third are ignored.
pub open spec fn version_fields(s: Seq<u8>) -> Option<(Seq<u8>, Seq<u8>, Seq<u8>)> {
    let e0 = next_dot(s, 0);
    let e1 = next_dot(s, e0 + 1);
    let e2 = next_dot(s, e1 + 1);
    if e0 >= s.len() || e1 >= s.len() {
        None
    } else {
        Some((s.subrange(0, e0), s.subrange(e0 + 1, e1), s.subrange(e1 + 1, e2)))
    }
}

/// An ASCII decimal digit.
pub open spec fn is_digit(b: u8) -> bool {
    DIGIT_ZERO <= b <= DIGIT_NINE
}

/// The number that a string of decimal digits writes.
pub open spec fn digits_value(d: Seq<u8>) -> nat
    decreases d.len(),
{
    if d.len() == 0 {
        0
    } else {
        digits_value(d.drop_last()) * 10 + (d.last() - DIGIT_ZERO) as nat
    }
}

/// A field without its leading `+`, if it has one.
pub open spec fn unsigned_digits(s: Seq<u8>) -> Seq<u8> {
    if s.len() > 0 && s[0] == PLUS {
        s.drop_first()
    } else {
        s
    }
}

/// A `u8` written in decimal, as `u8`'s `FromStr` reads it: an optional
/// leading `+`, then at least one digit (leading zeros allowed), with a value
/// of at most 255.
pub open spec fn parse_u8_field(s: Seq<u8>) -> Option<u8> {
    let d = unsigned_digits(s);
    if d.len() > 0 && (forall|i: int| 0 <= i < d.len() ==> is_digit(#[trigger] d[i]))
        && digits_value(d) <= 255 {
        Some(digits_value(d) as u8)
    } else {
        None
    }
}

/// The version `major.minor.patch` that a version string holds: its first
/// three `.`-separated fields, each a `u8`.
pub open spec fn parse_version_spec(s: Seq<u8>) -> Option<(u8, u8, u8)> {
    match version_fields(s) {
        Some((a, b, c)) => match (parse_u8_field(a), parse_u8_field(b), parse_u8_field(c)) {
            (Some(x), Some(y), Some(z)) => Some((x, y, z)),
            _ => None,
        },
        None => None,
    }
}

/// The decimal digits of `v`, most significant first, without leading
/// zeros.
pub open spec fn decimal(v: nat) -> Seq<u8>
    decreases v,
{
    if v < 10 {
        seq![(DIGIT_ZERO + v) as u8]
    } else {
        decimal(v / 10).push((DIGIT_ZERO + v % 10) as u8)
    }
}

/// `decimal(v)` is a non-empty string of digits that writes `v`.
pub proof fn lemma_decimal(v: nat)
    ensures
        decimal(v).len() > 0,
        forall|i: int| 0 <= i < decimal(v).len() ==> is_digit(#[trigger] decimal(v)[i]),
        digits_value(decimal(v)) == v,
    decreases v,
{
    if v < 10 {
        assert(decimal(v).drop_last() =~= Seq::<u8>::empty());
        assert(decimal(v).last() == DIGIT_ZERO + v);
        let d = decimal(v);
        assert(digits_value(d) == digits_value(d.drop_last()) * 10 + (d.last() - DIGIT_ZERO) as nat);
        assert(digits_value(d.drop_last()) == 0);
    } else {
        lemma_decimal(v / 10);
        assert(decimal(v).drop_last() =~= decimal(v / 10));
        assert(decimal(v).last() == DIGIT_ZERO + v % 10);
        assert((v / 10) * 10 + v % 10 == v) by (nonlinear_arith);
        let d = decimal(v);
        assert(digits_value(d) == digits_value(d.drop_last()) * 10 + (d.last() - DIGIT_ZERO) as nat);
        assert(digits_value(d.drop_last()) == v / 10);
    }
}

/// In a stretch free of dots that ends at a dot or at the end, the next dot
/// is where the stretch ends.
proof fn lemma_next_dot(s: Seq<u8>, from: int, e: int)
    requires
        0 <= from <= e <= s.len(),
        forall|k: int| from <= k < e ==> s[k] != DOT,
        e == s.len() || s[e] == DOT,
    ensures
        next_dot(s, from) == e,
    decreases e - from,
{
    if from < e {
        lemma_next_dot(s, from + 1, e);
    }
}

/// Every `u8` written in decimal reads back as itself.
pub proof fn lemma_u8_field_reads_back(v: u8)
    ensures
        parse_u8_field(decimal(v as nat)) == Some(v),
{
    lemma_decimal(v as nat);
    let d = decimal(v as nat);
    assert(is_digit(d[0]));
    assert(unsigned_digits(d) == d);
}

/// The version string `a.b.c`, each part in decimal, reads back as
/// `(a, b, c)`.
pub proof fn lemma_version_reads_back(a: u8, b: u8, c: u8)
    ensures
        parse_version_spec(
            decimal(a as nat) + seq![DOT] + decimal(b as nat) + seq![DOT] + decimal(c as nat),
        ) == Some((a, b, c)),
{
    let da = decimal(a as nat);
    let db = decimal(b as nat);
    let dc = decimal(c as nat);
    let s = da + seq![DOT] + db + seq![DOT] + dc;
    lemma_decimal(a as nat);
    lemma_decimal(b as nat);
    lemma_decimal(c as nat);
    let e0 = da.len() as int;
    let e1 = e0 + 1 + db.len();
    let e2 = s.len() as int;
    assert forall|k: int| 0 <= k < e0 implies s[k] != DOT by {
        assert(s[k] == da[k]);
        assert(is_digit(da[k]));
    }
    lemma_next_dot(s, 0, e0);
    assert forall|k: int| e0 + 1 <= k < e1 implies s[k] != DOT by {
        assert(s[k] == db[k - e0 - 1]);
        assert(is_digit(db[k - e0 - 1]));
    }
    lemma_next_dot(s, e0 + 1, e1);
    assert forall|k: int| e1 + 1 <= k < e2 implies s[k] != DOT by {
        assert(s[k] == dc[k - e1 - 1]);
        assert(is_digit(dc[k - e1 - 1]));
    }
    lemma_next_dot(s, e1 + 1, e2);
    assert(s.subrange(0, e0) =~= da);
    assert(s.subrange(e0 + 1, e1) =~= db);
    assert(s.subrange(e1 + 1, e2) =~= dc);
    lemma_u8_field_reads_back(a);
    lemma_u8_field_reads_back(b);
    lemma_u8_field_reads_back(c);
}

fn find_dot(b: &[u8], from: usize) -> (e: usize)
    requires
        from <= b@.len(),
    ensures
        e == next_dot(b@, from as int),
        from <= e <= b@.len(),
{
    let mut i = from;
    while i < b.len()
        invariant
            from <= i <= b@.len(),
            next_dot(b@, from as int) == next_dot(b@, i as int),
        decreases b@.len() - i,
    {
        if b[i] == DOT {
            return i;
        }
        i = i + 1;
    }
    i
}

fn parse_u8_range(b: &[u8], start: usize, end: usize) -> (r: Option<u8>)
    requires
        start <= end <= b@.len(),
    ensures
        r == parse_u8_field(b@.subrange(start as int, end as int)),
{
    let ghost s = b@.subrange(start as int, end as int);
    let mut i = start;
    if i < end && b[i] == PLUS {
        i = i + 1;
    }
    let ghost d = b@.subrange(i as int, end as int);
    assert(d =~= unsigned_digits(s));
    if i == end {
        return None;
    }
    let mut acc: u32 = 0;
    let mut j = i;
    while j < end
        invariant
            start <= i < end <= b@.len(),
            i <= j <= end,
            d == b@.subrange(i as int, end as int),
            d == unsigned_digits(b@.subrange(start as int, end as int)),
            forall|k: int| i <= k < j ==> is_digit(#[trigger] b@[k]),
            acc == if digits_value(b@.subrange(i as int, j as int)) < 256 {
                digits_value(b@.subrange(i as int, j as int))
            } else {
                256
            },
        decreases end - j,
    {
        let c = b[j];
        if c < DIGIT_ZERO || c > DIGIT_NINE {
            assert(d[j - i] == b@[j as int]);
            assert(!is_digit(d[j - i]));
            return None;
        }
        let ghost prev = b@.subrange(i as int, j as int);
        let ghost next = b@.subrange(i as int, j + 1);
        assert(next.drop_last() =~= prev);
        assert(digits_value(next) == digits_value(prev) * 10 + (c - DIGIT_ZERO) as nat);
        if acc >= 256 {
            acc = 256;
        } else {
            let v: u32 = acc * 10 + (c - DIGIT_ZERO) as u32;
            acc = if v > 256 {
                256
            } else {
                v
            };
        }
        j = j + 1;
    }
    assert(b@.subrange(i as int, j as int) =~= d);
    assert forall|k: int| 0 <= k < d.len() implies is_digit(#[trigger] d[k]) by {
        assert(d[k] == b@[i + k]);
    }
    if acc <= 255 {
        Some(acc as u8)
    } else {
        None
    }
}

/// Reads `major.minor.patch` from a version string; `None` when the string
/// has fewer than three fields or one of the first three is not a `u8`.
pub fn parse_version(raw: &str) -> (res: Option<(u8, u8, u8)>)
    ensures
        res == parse_version_spec(raw.spec_bytes()),
{
    let b = raw.as_bytes();
    let n = b.len();
    let e0 = find_dot(b, 0);
    if e0 >= n {
        return None;
    }
    let e1 = find_dot(b, e0 + 1);
    if e1 >= n {
        return None;
    }
    let e2 = find_dot(b, e1 + 1);
    let major = parse_u8_range(b, 0, e0);
    let minor = parse_u8_range(b, e0 + 1, e1);
    let patch = parse_u8_range(b, e1 + 1, e2);
    match (major, minor, patch) {
        (Some(x), Some(y), Some(z)) => Some((x, y, z)),
        _ => None,
    }
}

/// The firmware's version, read from its package version string (such as
/// `"0.4.2"`), which must hold one.
pub fn get_firmware_version(raw: &str) -> (res: (u8, u8, u8))
    requires
        parse_version_spec(raw.spec_bytes()) is Some,
    ensures
        parse_version_spec(raw.spec_bytes()) == Some(res),
{
    match parse_version(raw) {
        Some(v) => v,
        None => (0, 0, 0),
    }
}

/// The firmware's version is one value: any two results that
/// `get_firmware_version` may give for the same version string are equal
/// (the function reads nothing but the string and changes nothing).
pub proof fn lemma_firmware_version_unique(raw: Seq<u8>, v1: (u8, u8, u8), v2: (u8, u8, u8))
    requires
        parse_version_spec(raw) == Some(v1),
        parse_version_spec(raw) == Some(v2),
    ensures
        v1 == v2,
{
}

/// The serial number stored in flash: four bytes, little-endian.
pub fn serial_from_bytes(buf: [u8; 4]) -> (n: u32)
    ensures
        n == buf[0] + buf[1] * 0x100 + buf[2] * 0x1_0000 + buf[3] * 0x100_0000,
{
    let b0 = buf[0];
    let b1 = buf[1];
    let b2 = buf[2];
    let b3 = buf[3];
    let n: u32 = (b0 as u32) | ((b1 as u32) << 8u32) | ((b2 as u32) << 16u32) | ((b3 as u32)
        << 24u32);
    assert(n == b0 + b1 * 0x100 + b2 * 0x1_0000 + b3 * 0x100_0000) by (bit_vector)
        requires
            n == (b0 as u32) | ((b1 as u32) << 8u32) | ((b2 as u32) << 16u32) | ((b3 as u32)
                << 24u32),
    ;
    n
}

/// An application partition of the flash.
#[derive(Clone, Copy, Debug, PartialEq, Eq, Structural)]
pub enum AppPartition {
    /// The factory image.
    Factory,
    /// An over-the-air update slot, numbered from 0.
    Ota(u8),
    /// The test image.
    Test,
}

/// The number that the device info reports for the partition the firmware
/// runs from: 0 for the factory image, 1 and 2 for the two update slots. The
/// firmware is never installed anywhere else (`None`).
pub fn main_partition(part: AppPartition) -> (n: Option<u8>)
    ensures
        n == match part {
            AppPartition::Factory => Some(0u8),
            AppPartition::Ota(0) => Some(1u8),
            AppPartition::Ota(1) => Some(2u8),
            _ => None,
        },
{
    match part {
        AppPartition::Factory => Some(0),
        AppPartition::Ota(0) => Some(1),
        AppPartition::Ota(1) => Some(2),
        _ => None,
    }
}

/// What the firmware does next with the runtime.
#[derive(Clone, Copy, Debug, PartialEq, Eq, Structural)]
pub enum RunStep {
    /// Build a runtime from the device configuration.
    Create,
    /// Start the runtime.
    Start,
    /// Run one update of the runtime.
    Update,
    /// Finalize the runtime, taking the device configuration back.
    Finalize,
}

/// The step after `step`; `exit` is what the last update answered (whether
/// the runtime asked to exit) and matters after an update only. The firmware
/// never stops on its own: after a runtime is finalized, a new one is
/// created.
pub fn next_step(step: RunStep, exit: bool) -> (next: RunStep)
    ensures
        next == match step {
            RunStep::Create => RunStep::Start,
            RunStep::Start => RunStep::Update,
            RunStep::Update => if exit {
                RunStep::Finalize
            } else {
                RunStep::Update
            },
            RunStep::Finalize => RunStep::Create,
        },
{
    match step {
        RunStep::Create => RunStep::Start,
        RunStep::Start => RunStep::Update,
        RunStep::Update => if exit {
            RunStep::Finalize
        } else {
            RunStep::Update
        },
        RunStep::Finalize => RunStep::Create,
    }
}

/// A fault of the UART link to the I/O chip.
#[derive(Clone, Copy, Debug, PartialEq, Eq, Structural)]
pub enum UartFault {
    /// The receive FIFO overflowed.
    FifoOverflowed,
    /// A glitch on the receive line.
    GlitchOccurred,
    /// A framing error on the receive line.
    FrameFormatViolated,
    /// A parity error on the receive line.
    ParityMismatch,
    /// Any other receive error.
    OtherRx,
    /// A transmit error.
    Tx,
}

/// The message reported for a UART fault.
pub open spec fn uart_fault_text(f: UartFault) -> Seq<char> {
    match f {
        UartFault::FifoOverflowed => "RX FIFO overflowed"@,
        UartFault::GlitchOccurred => "glitch on RX line"@,
        UartFault::FrameFormatViolated => "framing error on RX line"@,
        UartFault::ParityMismatch => "parity error on RX line"@,
        UartFault::OtherRx => "unknown RX error"@,
        UartFault::Tx => "unknown TX error"@,
    }
}

/// The message reported for a UART fault.
pub fn uart_fault_message(f: UartFault) -> (m: &'static str)
    ensures
        m@ == uart_fault_text(f),
{
    match f {
        UartFault::FifoOverflowed => "RX FIFO overflowed",
        UartFault::GlitchOccurred => "glitch on RX line",
        UartFault::FrameFormatViolated => "framing error on RX line",
        UartFault::ParityMismatch => "parity error on RX line",
        UartFault::OtherRx => "unknown RX error",
        UartFault::Tx => "unknown TX error",
    }
}

} // verus!
