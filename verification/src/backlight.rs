//! Single-registry (kernel backlight) platform model: the kernel-scale
//! percentage rules, the decimal text of the registry attributes, one
//! discovery pass over the registry directory, and the decision that
//! follows the privileged bus set call.

use vstd::prelude::*;

verus! {

use vstd::arithmetic::div_mod::lemma_div_is_ordered;
use vstd::arithmetic::div_mod::lemma_fundamental_div_mod;
use vstd::arithmetic::div_mod::lemma_mod_bound;

/// Failure enumeration of the kernel backlight platform. `code` fields
/// carry the raw OS error code of the underlying I/O call.
#[derive(Debug, Clone, PartialEq, Eq)]
pub enum BacklightError {
    /// Listing the backlight registry directory, or one entry of it, failed.
    ReadingBacklightDirFailed { code: i32 },
    /// Reading a device attribute failed.
    ReadingBacklightInfoFailed { device: String, code: i32 },
    /// A device attribute held no valid decimal value.
    ParsingBacklightInfoFailed { device: String },
    /// The fallback write to the brightness attribute failed.
    WritingBrightnessFailed { device: String, code: i32 },
}

/// The two readable attributes of a backlight registry entry.
#[derive(Debug, Clone, Copy, PartialEq, Eq, Structural)]
pub enum Value {
    Actual,
    Max,
}

impl Value {
    /// File name of the attribute within the device's directory.
    pub fn as_str(&self) -> (r: &'static str)
        ensures
            *self == Value::Actual ==> r@ == "actual_brightness"@,
            *self == Value::Max ==> r@ == "max_brightness"@,
    {
        match self {
            Value::Actual => "actual_brightness",
            Value::Max => "max_brightness",
        }
    }
}

/// The backlight registry directory.
pub fn backlight_dir() -> (r: &'static str)
    ensures
        r@ == "/sys/class/backlight"@,
{
    "/sys/class/backlight"
}

/// The writable brightness attribute used by the file fallback.
pub fn brightness_file() -> (r: &'static str)
    ensures
        r@ == "brightness"@,
{
    "brightness"
}

// ---------------------------------------------------------------------------
// Kernel-scale percentages
// ---------------------------------------------------------------------------

/// Kernel-scale percentage: `actual * 100 / max`, truncating; 0 when
/// `max == 0` (an explicit zero-guard, not an error). The ratio is
/// deliberately not clamped to 100 when the device reports
/// `actual > max`: the read reports what the device said.
pub open spec fn backlight_percentage(actual: u32, max: u32) -> int {
    if max == 0 {
        0
    } else {
        (100 * actual) / (max as int)
    }
}

/// The percentage a get operation reports for one raw reading.
pub fn percentage_from_raw(actual: u32, max: u32) -> (p: u64)
    ensures
        p == backlight_percentage(actual, max),
{
    if max == 0 {
        0
    } else {
        (100u64 * (actual as u64)) / (max as u64)
    }
}

/// The raw value a set request converts a percentage to: the input
/// percentage is clamped to 100 first, then `percentage * max / 100`,
/// truncating.
pub open spec fn desired_raw(percentage: u32, max: u32) -> int {
    (if percentage > 100 {
        100int
    } else {
        percentage as int
    }) * max / 100
}

/// The raw value to write or send for a requested percentage.
pub fn desired_raw_value(percentage: u32, max: u32) -> (v: u32)
    ensures
        v == desired_raw(percentage, max),
{
    let p: u64 = if percentage > 100 {
        100
    } else {
        percentage as u64
    };
    proof {
        assert((p as int) * (max as int) <= 100 * (max as int)) by (nonlinear_arith)
            requires
                p <= 100,
                0 <= max,
        ;
    }
    let raw: u64 = p * (max as u64) / 100;
    proof {
        lemma_div_is_ordered((p as int) * (max as int), 100 * (max as int), 100);
        assert(100 * (max as int) / 100 == max as int) by {
            lemma_fundamental_div_mod_multiple(max as int);
        };
    }
    raw as u32
}

/// `(100 * m) / 100 == m` for nonnegative `m`.
proof fn lemma_fundamental_div_mod_multiple(m: int)
    requires
        0 <= m,
    ensures
        100 * m / 100 == m,
{
    lemma_fundamental_div_mod(100 * m, 100);
    lemma_mod_bound(100 * m, 100);
    let q = 100 * m / 100;
    let r = (100 * m) % 100;
    assert(100 * m == 100 * q + r);
    assert(100 * (m - q) == r) by (nonlinear_arith)
        requires
            100 * m == 100 * q + r,
    ;
}

// ---------------------------------------------------------------------------
// Decimal attribute text
// ---------------------------------------------------------------------------

/// ASCII decimal digit.
pub open spec fn is_ascii_digit(b: u8) -> bool {
    0x30 <= b <= 0x39
}

/// ASCII whitespace, as trimmed from an attribute's text.
pub open spec fn is_ascii_space(b: u8) -> bool {
    b == 0x20 || b == 0x09 || b == 0x0a || b == 0x0b || b == 0x0c || b == 0x0d
}

pub open spec fn all_digits(s: Seq<u8>) -> bool {
    forall|i: int| 0 <= i < s.len() ==> is_ascii_digit(#[trigger] s[i])
}

/// Value of a digit sequence read as decimal, most significant first.
pub open spec fn decimal_value(s: Seq<u8>) -> int
    decreases s.len(),
{
    if s.len() == 0 {
        0
    } else {
        10 * decimal_value(s.drop_last()) + (s.last() - 0x30)
    }
}

pub open spec fn trim_front(s: Seq<u8>) -> Seq<u8>
    decreases s.len(),
{
    if s.len() > 0 && is_ascii_space(s[0]) {
        trim_front(s.drop_first())
    } else {
        s
    }
}

pub open spec fn trim_back(s: Seq<u8>) -> Seq<u8>
    decreases s.len(),
{
    if s.len() > 0 && is_ascii_space(s.last()) {
        trim_back(s.drop_last())
    } else {
        s
    }
}

/// The text with leading and trailing ASCII whitespace removed.
pub open spec fn trimmed(s: Seq<u8>) -> Seq<u8> {
    trim_back(trim_front(s))
}

/// The digits of the trimmed text, allowing one leading plus sign.
pub open spec fn unsigned_body(s: Seq<u8>) -> Seq<u8> {
    if s.len() > 0 && s[0] == 0x2b {
        s.drop_first()
    } else {
        s
    }
}

/// What the decimal text of a backlight attribute parses to: trim ASCII
/// whitespace, allow one leading plus sign, then require one or more
/// decimal digits.
pub open spec fn parsed_backlight_value(s: Seq<u8>) -> Option<int> {
    let t = unsigned_body(trimmed(s));
    if t.len() > 0 && all_digits(t) {
        Some(decimal_value(t))
    } else {
        None
    }
}

proof fn lemma_decimal_nonneg(s: Seq<u8>)
    requires
        all_digits(s),
    ensures
        decimal_value(s) >= 0,
    decreases s.len(),
{
    if s.len() > 0 {
        assert forall|i: int| 0 <= i < s.drop_last().len() implies is_ascii_digit(
            #[trigger] s.drop_last()[i],
        ) by {
            assert(s.drop_last()[i] == s[i]);
        }
        lemma_decimal_nonneg(s.drop_last());
    }
}

/// A digit prefix never exceeds the value of the whole digit sequence.
proof fn lemma_decimal_prefix_le(s: Seq<u8>, j: int)
    requires
        all_digits(s),
        0 <= j <= s.len(),
    ensures
        decimal_value(s.take(j)) <= decimal_value(s),
    decreases s.len() - j,
{
    if j == s.len() {
        assert(s.take(j) =~= s);
    } else {
        assert forall|i: int| 0 <= i < j implies is_ascii_digit(#[trigger] s.take(j)[i]) by {
            assert(s.take(j)[i] == s[i]);
        }
        lemma_decimal_nonneg(s.take(j));
        assert(s.take(j + 1).drop_last() =~= s.take(j));
        assert(s.take(j + 1).last() == s[j]);
        lemma_decimal_prefix_le(s, j + 1);
    }
}

/// Powers of ten, for positional weight of a prepended digit.
pub open spec fn pow10(n: nat) -> int
    decreases n,
{
    if n == 0 {
        1
    } else {
        10 * pow10((n - 1) as nat)
    }
}

/// Prepending a digit adds its value at the highest position.
proof fn lemma_decimal_prepend(d: u8, s: Seq<u8>)
    ensures
        decimal_value(seq![d].add(s)) == (d - 0x30) * pow10(s.len()) + decimal_value(s),
    decreases s.len(),
{
    let c = seq![d].add(s);
    assert(c.len() == s.len() + 1);
    if s.len() == 0 {
        assert(c.drop_last() =~= Seq::<u8>::empty());
        assert(decimal_value(Seq::<u8>::empty()) == 0);
        assert(c.last() == d);
        assert(decimal_value(c) == 10 * 0 + (d - 0x30));
        assert(pow10(0) == 1);
        assert((d - 0x30) * 1 == d - 0x30) by (nonlinear_arith);
    } else {
        let sdl = s.drop_last();
        let p = pow10(sdl.len());
        assert(c.drop_last() =~= seq![d].add(sdl));
        assert(c.last() == s.last());
        lemma_decimal_prepend(d, sdl);
        assert(decimal_value(c) == 10 * ((d - 0x30) * p + decimal_value(sdl)) + (s.last()
            - 0x30));
        assert(pow10(s.len()) == 10 * p);
        assert(10 * ((d - 0x30) * p + decimal_value(sdl)) + (s.last() - 0x30) == (d - 0x30) * (10
            * p) + (10 * decimal_value(sdl) + (s.last() - 0x30))) by (nonlinear_arith);
        assert(decimal_value(s) == 10 * decimal_value(sdl) + (s.last() - 0x30));
    }
}

/// True when `b` is ASCII whitespace.
fn is_space_byte(b: u8) -> (r: bool)
    ensures
        r == is_ascii_space(b),
{
    b == 0x20 || b == 0x09 || b == 0x0a || b == 0x0b || b == 0x0c || b == 0x0d
}

/// `trim_front` removes exactly the leading whitespace run.
proof fn lemma_trim_front(s: Seq<u8>, k: int)
    requires
        0 <= k <= s.len(),
        forall|i: int| 0 <= i < k ==> is_ascii_space(#[trigger] s[i]),
        k < s.len() ==> !is_ascii_space(s[k]),
    ensures
        trim_front(s) == s.skip(k),
    decreases k,
{
    if k == 0 {
        assert(s.skip(0) =~= s);
    } else {
        assert forall|i: int| 0 <= i < k - 1 implies is_ascii_space(
            #[trigger] s.drop_first()[i],
        ) by {
            assert(s.drop_first()[i] == s[i + 1]);
        }
        assert(k - 1 < s.drop_first().len() ==> !is_ascii_space(s.drop_first()[k - 1]));
        lemma_trim_front(s.drop_first(), k - 1);
        assert(s.drop_first().skip(k - 1) =~= s.skip(k));
    }
}

/// `trim_back` removes exactly the trailing whitespace run.
proof fn lemma_trim_back(s: Seq<u8>, e: int)
    requires
        0 <= e <= s.len(),
        forall|j: int| e <= j < s.len() ==> is_ascii_space(#[trigger] s[j]),
        e > 0 ==> !is_ascii_space(s[e - 1]),
    ensures
        trim_back(s) == s.take(e),
    decreases s.len() - e,
{
    if e == s.len() {
        assert(s.take(e) =~= s);
    } else {
        assert forall|j: int| e <= j < s.drop_last().len() implies is_ascii_space(
            #[trigger] s.drop_last()[j],
        ) by {
            assert(s.drop_last()[j] == s[j]);
        }
        assert(e > 0 ==> s.drop_last()[e - 1] == s[e - 1]);
        lemma_trim_back(s.drop_last(), e);
        assert(s.drop_last().take(e) =~= s.take(e));
    }
}

/// Parses the decimal text of a backlight attribute. ASCII whitespace is
/// trimmed, one leading plus sign is allowed, then one or more decimal
/// digits must follow; anything else, or a value over `u32::MAX`, is
/// `None`.
pub fn parse_backlight_value(text: &Vec<u8>) -> (r: Option<u32>)
    ensures
        match parsed_backlight_value(text@) {
            Some(n) => if n <= u32::MAX { r == Some(n as u32) } else { r is None },
            None => r is None,
        },
{
    let len = text.len();
    let mut start: usize = 0;
    while start < len && is_space_byte(text[start])
        invariant
            0 <= start <= len,
            len == text@.len(),
            forall|i: int| 0 <= i < start ==> is_ascii_space(#[trigger] text@[i]),
        decreases len - start,
    {
        start = start + 1;
    }
    let mut end: usize = len;
    while end > start && is_space_byte(text[end - 1])
        invariant
            start <= end <= len,
            len == text@.len(),
            forall|i: int| 0 <= i < start ==> is_ascii_space(#[trigger] text@[i]),
            start < len ==> !is_ascii_space(text@[start as int]),
            forall|j: int| end <= j < len ==> is_ascii_space(#[trigger] text@[j]),
        decreases end,
    {
        end = end - 1;
    }
    let ghost front = text@.skip(start as int);
    proof {
        lemma_trim_front(text@, start as int);
        assert forall|j: int| end - start <= j < front.len() implies is_ascii_space(
            #[trigger] front[j],
        ) by {
            assert(front[j] == text@[j + start]);
        }
        assert(end > start ==> front[end - start - 1] == text@[end - 1]);
        lemma_trim_back(front, end - start);
        assert(trimmed(text@) == front.take(end - start));
        assert(front.take(end - start) =~= text@.subrange(start as int, end as int));
    }
    let mut d0: usize = start;
    if end > start && text[start] == 0x2b {
        d0 = start + 1;
    }
    let ghost body = unsigned_body(trimmed(text@));
    proof {
        if end > start && text@[start as int] == 0x2b {
            assert(trimmed(text@)[0] == 0x2b);
            assert(body == trimmed(text@).drop_first());
            assert(trimmed(text@).drop_first() =~= text@.subrange(d0 as int, end as int));
        } else {
            assert(body == trimmed(text@));
        }
        assert(body =~= text@.subrange(d0 as int, end as int));
    }
    if d0 == end {
        return None;
    }
    let mut acc: u64 = 0;
    let mut i: usize = d0;
    while i < end
        invariant
            d0 <= i <= end <= text@.len(),
            body == unsigned_body(trimmed(text@)),
            body == text@.subrange(d0 as int, end as int),
            d0 < end,
            forall|j: int| d0 <= j < i ==> is_ascii_digit(#[trigger] text@[j]),
            acc == decimal_value(text@.subrange(d0 as int, i as int)),
            acc <= u32::MAX,
        decreases end - i,
    {
        let b = text[i];
        if b < 0x30 || b > 0x39 {
            proof {
                assert(body[i - d0] == text@[i as int]);
                assert(!all_digits(body));
            }
            return None;
        }
        proof {
            assert(text@.subrange(d0 as int, i as int + 1).drop_last() =~= text@.subrange(
                d0 as int,
                i as int,
            ));
            assert(text@.subrange(d0 as int, i as int + 1).last() == text@[i as int]);
        }
        acc = acc * 10 + ((b - 0x30) as u64);
        if acc > 0xFFFF_FFFF {
            proof {
                if all_digits(body) {
                    assert(body.take(i + 1 - d0) =~= text@.subrange(d0 as int, i as int + 1));
                    lemma_decimal_prefix_le(body, i + 1 - d0);
                }
            }
            return None;
        }
        i = i + 1;
    }
    proof {
        assert(body =~= text@.subrange(d0 as int, end as int));
        assert forall|j: int| 0 <= j < body.len() implies is_ascii_digit(#[trigger] body[j]) by {
            assert(body[j] == text@[j + d0]);
        }
    }
    Some(acc as u32)
}

/// Law: plain digit text parses back to its decimal value, so a raw
/// value written by `format_backlight_value` is read back unchanged by
/// `parse_backlight_value`.
pub proof fn lemma_decimal_text_round_trip(s: Seq<u8>, value: u32)
    requires
        s.len() > 0,
        all_digits(s),
        decimal_value(s) == value,
    ensures
        parsed_backlight_value(s) == Some(value as int),
{
    assert(is_ascii_digit(s[0]));
    assert(!is_ascii_space(s[0]));
    assert(trim_front(s) == s);
    assert(is_ascii_digit(s.last()));
    assert(!is_ascii_space(s.last()));
    assert(trim_back(s) == s);
    assert(s[0] != 0x2b);
    assert(unsigned_body(trimmed(s)) == s);
}

/// Renders a raw value as the decimal text written to the brightness
/// attribute: plain digits, no sign, no leading zero (except for "0").
pub fn format_backlight_value(value: u32) -> (s: Vec<u8>)
    ensures
        s@.len() > 0,
        all_digits(s@),
        decimal_value(s@) == value,
        s@.len() > 1 ==> s@[0] != 0x30,
{
    let mut out: Vec<u8> = Vec::new();
    let mut n: u32 = value;
    while n > 0
        invariant
            decimal_value(out@) + (n as int) * pow10(out@.len() as nat) == value,
            all_digits(out@),
            (n == 0 && out@.len() > 0) ==> out@[0] != 0x30,
        decreases n,
    {
        let d: u8 = (n % 10) as u8 + 0x30;
        let n2: u32 = n / 10;
        proof {
            let ghost p = pow10(out@.len() as nat);
            assert(out@.insert(0, d) =~= seq![d].add(out@));
            lemma_decimal_prepend(d, out@);
            assert((10 * (n2 as int) + (n as int) % 10) * p == (n2 as int) * (10 * p) + ((
            n as int) % 10) * p) by (nonlinear_arith);
            assert(pow10((out@.len() + 1) as nat) == 10 * p);
        }
        out.insert(0, d);
        n = n2;
        proof {
            assert(out@[0] == d);
        }
    }
    proof {
        assert(decimal_value(out@) + 0 * pow10(out@.len() as nat) == value);
        assert(0 * pow10(out@.len() as nat) == 0) by (nonlinear_arith);
    }
    if out.len() == 0 {
        out.push(0x30);
        proof {
            assert(out@.drop_last() =~= Seq::<u8>::empty());
            assert(decimal_value(Seq::<u8>::empty()) == 0);
            assert(decimal_value(out@) == 10 * 0 + (0x30 - 0x30));
        }
    }
    out
}

// ---------------------------------------------------------------------------
// Discovery over the registry directory
// ---------------------------------------------------------------------------

/// What one registry entry showed during a discovery pass: its file name
/// (when it was valid UTF-8) and whether it exposes the two readable
/// attributes.
pub struct EntryProbe {
    pub name: Option<String>,
    pub has_actual: bool,
    pub has_max: bool,
}

/// A backlight device, identified by its registry entry name.
#[derive(Debug)]
pub struct BacklightDevice {
    pub device: String,
}

impl BacklightDevice {
    /// The stable short identifier of the device.
    pub fn device_name(&self) -> (r: String)
        ensures
            r@ == self.device@,
    {
        self.device.clone()
    }
}

/// Whether a probed entry becomes a device: it needs a UTF-8 name and
/// both readable attributes.
pub open spec fn probe_kept(p: EntryProbe) -> bool {
    p.name is Some && p.has_actual && p.has_max
}

/// Relates one discovery pass's entry outcomes to the reported items: a
/// failed entry read yields one error item, a kept entry yields one
/// device, anything else is skipped silently.
pub open spec fn backlight_items_match(
    entries: Seq<Result<EntryProbe, i32>>,
    out: Seq<Result<BacklightDevice, BacklightError>>,
) -> bool
    decreases entries.len(),
{
    if entries.len() == 0 {
        out.len() == 0
    } else {
        match entries.last() {
            Result::Err(code) => out.len() >= 1 && out.last()
                == Result::<BacklightDevice, BacklightError>::Err(
                BacklightError::ReadingBacklightDirFailed { code },
            ) && backlight_items_match(entries.drop_last(), out.drop_last()),
            Result::Ok(p) => if probe_kept(p) {
                out.len() >= 1 && (out.last() matches Result::Ok(d) && d.device@ == p.name->0@)
                    && backlight_items_match(entries.drop_last(), out.drop_last())
            } else {
                backlight_items_match(entries.drop_last(), out)
            },
        }
    }
}

/// One discovery pass over the backlight registry directory. A missing
/// directory is one fatal error item; otherwise each entry is kept as a
/// device, skipped, or reported as its own error item, and a bad entry
/// never aborts the rest of the pass.
pub fn backlight_devices(listing: Result<Vec<Result<EntryProbe, i32>>, i32>) -> (r: Vec<
    Result<BacklightDevice, BacklightError>,
>)
    ensures
        listing matches Err(code) ==> r@.len() == 1 && r@[0] == Result::<
            BacklightDevice,
            BacklightError,
        >::Err(BacklightError::ReadingBacklightDirFailed { code }),
        listing matches Ok(entries) ==> backlight_items_match(entries@, r@),
{
    match listing {
        Result::Err(code) => {
            let mut r: Vec<Result<BacklightDevice, BacklightError>> = Vec::new();
            r.push(Err(BacklightError::ReadingBacklightDirFailed { code }));
            r
        },
        Result::Ok(entries) => {
            let ghost ev = entries@;
            let mut rest = entries;
            let mut out: Vec<Result<BacklightDevice, BacklightError>> = Vec::new();
            let ghost mut k: int = 0;
            while rest.len() > 0
                invariant
                    (listing matches Ok(en0) && en0@ == ev),
                    0 <= k <= ev.len(),
                    rest@ == ev.skip(k),
                    backlight_items_match(ev.take(k), out@),
                decreases rest@.len(),
            {
                proof {
                    assert(rest@[0] == ev[k]);
                }
                let e = rest.remove(0);
                let ghost out0 = out@;
                match e {
                    Result::Err(code) => {
                        out.push(Err(BacklightError::ReadingBacklightDirFailed { code }));
                    },
                    Result::Ok(p) => {
                        if p.has_actual && p.has_max {
                            match p.name {
                                Option::Some(n) => {
                                    out.push(Ok(BacklightDevice { device: n }));
                                },
                                Option::None => {},
                            }
                        }
                    },
                }
                proof {
                    assert(ev.take(k + 1).drop_last() =~= ev.take(k));
                    assert(ev.take(k + 1).last() == ev[k]);
                    if out@.len() > out0.len() {
                        assert(out@.drop_last() =~= out0);
                    }
                    k = k + 1;
                    assert(rest@ =~= ev.skip(k));
                }
            }
            proof {
                assert(ev.take(k) =~= ev);
            }
            out
        },
    }
}

// ---------------------------------------------------------------------------
// The set flow after the bus call
// ---------------------------------------------------------------------------

/// What the privileged bus set call reported.
#[derive(Debug)]
pub enum BusCallOutcome {
    /// The method call succeeded.
    Succeeded,
    /// The bus answered with a method error: the set method is
    /// unavailable on this system, and the file fallback applies.
    MethodError,
    /// Any other bus failure, surfaced without fallback.
    OtherError { message: String },
}

/// The next step of a set operation after the bus call.
#[derive(Debug, Clone, Copy, PartialEq, Eq, Structural)]
pub enum SetAction {
    /// The set is complete.
    Done,
    /// Retry once by writing the raw value to the brightness attribute.
    FallBackToFileWrite,
    /// Surface the failure; no retry.
    Surface,
}

/// Decides what follows the privileged bus set call: success completes
/// the operation; a method error triggers exactly one fallback attempt
/// through a direct file write; any other failure is surfaced
/// immediately without fallback.
pub fn plan_after_bus_call(outcome: &BusCallOutcome) -> (r: SetAction)
    ensures
        r == SetAction::Done <==> outcome is Succeeded,
        r == SetAction::FallBackToFileWrite <==> outcome is MethodError,
        r == SetAction::Surface <==> outcome is OtherError,
{
    match outcome {
        BusCallOutcome::Succeeded => SetAction::Done,
        BusCallOutcome::MethodError => SetAction::FallBackToFileWrite,
        BusCallOutcome::OtherError { .. } => SetAction::Surface,
    }
}

/// The public error for a bus set failure that allows no fallback.
pub fn bus_set_error(device: &String, message: String) -> (r: crate::Error)
    ensures
        (r matches crate::Error::SettingBrightnessFailed { device: d, source } && d@ == device@
            && source == (crate::Cause::Bus { message })),
{
    crate::Error::SettingBrightnessFailed {
        device: device.clone(),
        source: crate::Cause::Bus { message },
    }
}

} // verus!
