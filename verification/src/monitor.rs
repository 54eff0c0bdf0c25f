//! Per-monitor brightness model for the multi-monitor platform: the
//! continuous DDC/CI range, the discrete IOCTL level list, the device
//! record that routes between the two protocols, and the closed failure
//! enumeration of that platform.

use vstd::prelude::*;

verus! {

use vstd::arithmetic::div_mod::lemma_fundamental_div_mod;
use vstd::arithmetic::div_mod::lemma_mod_bound;

/// Failure enumeration of the multi-monitor platform. Each `code` field
/// carries the raw OS error code of the underlying call.
#[derive(Debug, Clone, PartialEq, Eq)]
pub enum SysError {
    EnumDisplayMonitorsFailed { code: i32 },
    GetDisplayConfigBufferSizesFailed { code: i32 },
    QueryDisplayConfigFailed { code: i32 },
    DisplayConfigGetDeviceInfoFailed { code: i32 },
    GetMonitorInfoFailed { code: i32 },
    GetPhysicalMonitorsFailed { code: i32 },
    /// The two per-monitor enumerations returned lists of different
    /// lengths, so no positional pairing is safe.
    EnumerationMismatch,
    /// A correlated display device has no matching classification entry.
    DeviceInfoMissing,
    OpeningMonitorDeviceInterfaceHandleFailed { device_name: String, code: i32 },
    IoctlQuerySupportedBrightnessFailed { device_name: String, code: i32 },
    IoctlQueryDisplayBrightnessFailed { device_name: String, code: i32 },
    IoctlQueryDisplayBrightnessUnexpectedResponse { device_name: String },
    GettingMonitorBrightnessFailed { device_name: String, code: i32 },
    /// The monitor reported a degenerate continuous range (max <= min):
    /// no percentage is defined on it. The query call itself succeeded,
    /// so there is no OS code; the reading was unusable.
    DdcciInvalidBrightnessRange { device_name: String },
    IoctlSetBrightnessFailed { device_name: String, code: i32 },
    SettingBrightnessFailed { device_name: String, code: i32 },
}

/// Returns true when every bit of `flag` is set in `t`.
pub fn flag_set(t: u32, flag: u32) -> (r: bool)
    ensures
        r == (t & flag == flag),
{
    t & flag == flag
}

// ---------------------------------------------------------------------------
// Continuous (DDC/CI) scale
// ---------------------------------------------------------------------------

/// A continuous brightness reading: minimum, current and maximum raw value.
#[derive(Debug, Clone, Copy, PartialEq, Eq, Structural)]
pub struct DdcciBrightnessValues {
    pub min: u32,
    pub current: u32,
    pub max: u32,
}

/// `n / d` rounded to the nearest integer, halves away from zero, for
/// nonnegative `n` and positive `d`.
pub open spec fn round_div(n: int, d: int) -> int
    recommends
        0 <= n,
        0 < d,
{
    (2 * n + d) / (2 * d)
}

/// The canonical percentage of a continuous reading:
/// `round((current - min) / (max - min) * 100)`.
pub open spec fn current_percentage(v: DdcciBrightnessValues) -> int
    recommends
        v.min <= v.current <= v.max,
        v.min < v.max,
{
    round_div(100 * (v.current - v.min), v.max - v.min)
}

/// The raw value of a canonical percentage on a continuous scale:
/// `round(min + percentage / 100 * (max - min))`.
pub open spec fn current_of_percentage(v: DdcciBrightnessValues, percentage: int) -> int
    recommends
        0 <= percentage <= 100,
        v.min < v.max,
{
    v.min + round_div(percentage * (v.max - v.min), 100)
}

/// `round_div(n, d) <= k` whenever `n <= k * d`.
proof fn lemma_round_div_le(n: int, d: int, k: int)
    requires
        0 <= n,
        0 < d,
        0 <= k,
        n <= k * d,
    ensures
        round_div(n, d) <= k,
{
    let q = (2 * n + d) / (2 * d);
    lemma_fundamental_div_mod(2 * n + d, 2 * d);
    lemma_mod_bound(2 * n + d, 2 * d);
    if q > k {
        assert(2 * n + d >= (k + 1) * (2 * d)) by {
            assert((2 * d) * q >= (k + 1) * (2 * d)) by (nonlinear_arith)
                requires
                    k + 1 <= q,
                    0 < d,
            ;
        };
        assert((k + 1) * (2 * d) == 2 * (k * d) + 2 * d) by (nonlinear_arith);
        assert(false);
    }
}

/// `round_div(n, d) >= 0` for nonnegative `n` and positive `d`.
proof fn lemma_round_div_nonneg(n: int, d: int)
    requires
        0 <= n,
        0 < d,
    ensures
        round_div(n, d) >= 0,
{
    let q = (2 * n + d) / (2 * d);
    lemma_fundamental_div_mod(2 * n + d, 2 * d);
    lemma_mod_bound(2 * n + d, 2 * d);
    if q < 0 {
        assert((2 * d) * q <= (2 * d) * -1) by (nonlinear_arith)
            requires
                q <= -1,
                0 < d,
        ;
        assert(false);
    }
}

impl DdcciBrightnessValues {
    /// The canonical percentage of `current` within `[min, max]`, rounded
    /// half away from zero. A degenerate scale (`max == min`) has no
    /// defined percentage and is reported as `None` rather than an
    /// undefined numeric result.
    pub fn get_current_percentage(&self) -> (r: Option<u32>)
        requires
            self.min <= self.current <= self.max,
        ensures
            r is None <==> self.max == self.min,
            r matches Some(p) ==> p == current_percentage(*self),
    {
        if self.max <= self.min {
            None
        } else {
            let a: u64 = (self.current - self.min) as u64;
            let d: u64 = (self.max - self.min) as u64;
            let p: u64 = (200 * a + d) / (2 * d);
            proof {
                lemma_round_div_le(100 * (a as int), d as int, 100);
                lemma_round_div_nonneg(100 * (a as int), d as int);
                assert(100 * (a as int) <= 100 * (d as int)) by (nonlinear_arith)
                    requires
                        a <= d,
                ;
            }
            Some(p as u32)
        }
    }

    /// The raw value a continuous-scale device should be set to for a
    /// requested canonical percentage, rounded half away from zero. A
    /// degenerate scale (`max <= min`) is reported as `None`.
    pub fn percentage_to_current(&self, percentage: u32) -> (r: Option<u32>)
        requires
            percentage <= 100,
        ensures
            r is None <==> self.max <= self.min,
            r matches Some(c) ==> c == current_of_percentage(*self, percentage as int),
    {
        if self.max <= self.min {
            None
        } else {
            let d: u64 = (self.max - self.min) as u64;
            let p: u64 = percentage as u64;
            proof {
                assert((p as int) * (d as int) <= 100 * 0xFFFF_FFFF) by (nonlinear_arith)
                    requires
                        p <= 100,
                        d <= 0xFFFF_FFFF,
                ;
            }
            let r0: u64 = (2 * (p * d) + 100) / 200;
            proof {
                assert((p as int) * (d as int) <= (d as int) * 100) by (nonlinear_arith)
                    requires
                        p <= 100,
                        0 <= d,
                ;
                lemma_round_div_le((p * d) as int, 100, d as int);
                lemma_round_div_nonneg((p * d) as int, 100);
            }
            Some(self.min + (r0 as u32))
        }
    }
}

/// Law: converting a continuous reading to its canonical percentage and
/// back recovers the starting `current` to within one raw unit, provided
/// the raw span `max - min` is at most 300 units. (On wider spans a single
/// percentage point covers several raw units, so a one-unit bound cannot
/// hold; for example min 0, max 400, current 2 reads back as 4.)
pub proof fn lemma_percentage_round_trip(v: DdcciBrightnessValues)
    requires
        v.min <= v.current <= v.max,
        v.min < v.max,
        v.max - v.min <= 300,
    ensures
        current_of_percentage(v, current_percentage(v)) - v.current <= 1,
        v.current - current_of_percentage(v, current_percentage(v)) <= 1,
{
    let d = v.max - v.min;
    let a = v.current - v.min;
    let p = current_percentage(v);
    let r0 = round_div(p * d, 100);

    lemma_fundamental_div_mod(2 * (100 * a) + d, 2 * d);
    lemma_mod_bound(2 * (100 * a) + d, 2 * d);
    let m1 = (2 * (100 * a) + d) % (2 * d);
    assert(200 * a + d == 2 * d * p + m1) by {
        assert((2 * d) * ((2 * (100 * a) + d) / (2 * d)) == 2 * d * p);
    };

    lemma_fundamental_div_mod(2 * (p * d) + 100, 200);
    lemma_mod_bound(2 * (p * d) + 100, 200);
    let m2 = (2 * (p * d) + 100) % 200;
    assert(2 * (p * d) + 100 == 200 * r0 + m2);

    // 200 * (r0 - a) == (100 - m2) + (d - m1), with m2 in [0, 200) and
    // m1 in [0, 2d), so it lies in (-100 - d, 100 + d].
    assert(2 * d * p == 2 * (p * d)) by (nonlinear_arith);
    assert(200 * r0 - 200 * a == (100 - m2) + (d - m1));

    // Lower bound: 200 * (r0 - a) > -100 - d >= -400, so r0 - a >= -1.
    assert(r0 - a >= -1);

    // Upper bound: 200 * (r0 - a) <= 100 + d <= 400; equality would force
    // m2 == 0, m1 == 0 and d == 300, making 600 * p == 200 * a + 300,
    // which no integers satisfy.
    if r0 - a >= 2 {
        assert(m2 == 0 && m1 == 0 && d == 300);
        assert(2 * d * p == 600 * p) by (nonlinear_arith)
            requires
                d == 300,
        ;
        assert(600 * p == 200 * a + 300);
        assert(false) by {
            assert(200 * (3 * p - a) == 600 * p - 200 * a);
        };
    }
    assert(r0 - a <= 1);
}

// ---------------------------------------------------------------------------
// Discrete (IOCTL) levels
// ---------------------------------------------------------------------------

/// The ordered list of raw brightness levels (each 0 to 100) an internal
/// panel reports as supported. It may be empty; in that degenerate case no
/// valid brightness exists and level 0 is used as a last resort.
#[derive(Debug)]
pub struct IoctlSupportedBrightnessLevels(pub Vec<u8>);

/// Absolute distance between a supported level and a requested percentage.
pub open spec fn level_distance(level: u8, percentage: u32) -> int {
    if level as int >= percentage as int {
        level as int - percentage as int
    } else {
        percentage as int - level as int
    }
}

/// Scans `levels` left to right, keeping `best` unless a strictly closer
/// level appears; the first minimum therefore wins ties.
pub open spec fn nearest_from(levels: Seq<u8>, percentage: u32, best: u8) -> u8
    decreases levels.len(),
{
    if levels.len() == 0 {
        best
    } else {
        let cand = if level_distance(levels[0], percentage) < level_distance(best, percentage) {
            levels[0]
        } else {
            best
        };
        nearest_from(levels.drop_first(), percentage, cand)
    }
}

/// The supported level nearest to the requested percentage; the first of
/// several equally near levels wins, and an empty list yields 0.
pub open spec fn nearest_level(levels: Seq<u8>, percentage: u32) -> u8 {
    if levels.len() == 0 {
        0u8
    } else {
        nearest_from(levels.drop_first(), percentage, levels[0])
    }
}

impl IoctlSupportedBrightnessLevels {
    /// The supported level with minimal absolute distance to the requested
    /// percentage; on ties the first such level in list order wins. An
    /// empty list yields the fallback level 0.
    pub fn get_nearest(&self, percentage: u32) -> (r: u8)
        ensures
            r == nearest_level(self.0@, percentage),
    {
        if self.0.len() == 0 {
            return 0;
        }
        let mut best: u8 = self.0[0];
        let mut i: usize = 1;
        proof {
            assert(self.0@.skip(1) =~= self.0@.drop_first());
        }
        while i < self.0.len()
            invariant
                1 <= i <= self.0@.len(),
                self.0@.len() > 0,
                nearest_from(self.0@.skip(i as int), percentage, best)
                    == nearest_level(self.0@, percentage),
            decreases self.0@.len() - i,
        {
            let cand = self.0[i];
            let cu: u32 = cand as u32;
            let bu: u32 = best as u32;
            let cand_dist: u32 = if cu >= percentage { cu - percentage } else { percentage - cu };
            let best_dist: u32 = if bu >= percentage { bu - percentage } else { percentage - bu };
            proof {
                assert(self.0@.skip(i as int).drop_first() =~= self.0@.skip(i as int + 1));
                assert(self.0@.skip(i as int)[0] == self.0@[i as int]);
            }
            if cand_dist < best_dist {
                best = cand;
            }
            i = i + 1;
        }
        proof {
            assert(self.0@.skip(self.0@.len() as int) =~= Seq::<u8>::empty());
        }
        best
    }
}

/// Helper for the nearest-level law: scanning never moves away from the
/// request, and the result is the running best or a scanned level.
proof fn lemma_nearest_from(levels: Seq<u8>, percentage: u32, best: u8)
    ensures
        nearest_from(levels, percentage, best) == best
            || levels.contains(nearest_from(levels, percentage, best)),
        level_distance(nearest_from(levels, percentage, best), percentage)
            <= level_distance(best, percentage),
        forall|i: int| 0 <= i < levels.len() ==>
            level_distance(nearest_from(levels, percentage, best), percentage)
                <= #[trigger] level_distance(levels[i], percentage),
    decreases levels.len(),
{
    if levels.len() == 0 {
    } else {
        let cand = if level_distance(levels[0], percentage) < level_distance(best, percentage) {
            levels[0]
        } else {
            best
        };
        lemma_nearest_from(levels.drop_first(), percentage, cand);
        let r = nearest_from(levels, percentage, best);
        if r != best {
            if r == cand && cand == levels[0] {
                assert(levels.contains(r)) by {
                    assert(levels[0] == r);
                };
            } else {
                assert(levels.drop_first().contains(r));
                let j = choose|j: int| 0 <= j < levels.drop_first().len()
                    && levels.drop_first()[j] == r;
                assert(levels[j + 1] == r);
            }
        }
        assert forall|i: int| 0 <= i < levels.len() implies
            level_distance(r, percentage) <= #[trigger] level_distance(levels[i], percentage) by {
            if i == 0 {
                assert(level_distance(r, percentage) <= level_distance(cand, percentage));
            } else {
                assert(levels.drop_first()[i - 1] == levels[i]);
            }
        }
    }
}

/// Law: for any requested percentage and a non-empty level list, the
/// nearest level is a member of the list and no listed level lies strictly
/// closer to the request; for the empty list the fallback level is 0.
pub proof fn lemma_nearest_level_minimal(levels: Seq<u8>, percentage: u32)
    ensures
        levels.len() == 0 ==> nearest_level(levels, percentage) == 0,
        levels.len() > 0 ==> levels.contains(nearest_level(levels, percentage)),
        forall|i: int| 0 <= i < levels.len() ==>
            level_distance(nearest_level(levels, percentage), percentage)
                <= #[trigger] level_distance(levels[i], percentage),
{
    if levels.len() > 0 {
        lemma_nearest_from(levels.drop_first(), percentage, levels[0]);
        let r = nearest_level(levels, percentage);
        if r != levels[0] {
            assert(levels.drop_first().contains(r));
            let j = choose|j: int| 0 <= j < levels.drop_first().len()
                && levels.drop_first()[j] == r;
            assert(levels[j + 1] == r);
        }
        assert forall|i: int| 0 <= i < levels.len() implies
            level_distance(r, percentage) <= #[trigger] level_distance(levels[i], percentage) by {
            if i > 0 {
                assert(levels.drop_first()[i - 1] == levels[i]);
            }
        }
    }
}

// ---------------------------------------------------------------------------
// IOCTL brightness records
// ---------------------------------------------------------------------------

/// Policy selector: the reported value follows the AC power policy.
pub const DISPLAYPOLICY_AC: u8 = 1;

/// Policy selector: the reported value follows the DC power policy.
pub const DISPLAYPOLICY_DC: u8 = 2;

/// Policy selector for set requests covering both AC and DC at once:
/// the bitwise union of the AC and DC selectors.
pub const DISPLAYPOLICY_BOTH: u8 = 3;

/// The three-field brightness record exchanged with the IOCTL protocol: a
/// policy selector and the AC and DC brightness values (each 0 to 100).
#[derive(Debug, Clone, Copy, PartialEq, Eq, Structural)]
pub struct DisplayBrightness {
    pub display_policy: u8,
    pub ac_brightness: u8,
    pub dc_brightness: u8,
}

/// Reads the current brightness out of an IOCTL query reply: the policy
/// selector says whether the AC or the DC value applies; any other
/// selector is a malformed response and reported as a query failure for
/// the named device.
pub fn interpret_display_brightness(reply: &DisplayBrightness, device_name: &String) -> (r:
    Result<u32, SysError>)
    ensures
        reply.display_policy == DISPLAYPOLICY_AC ==> r == Ok::<u32, SysError>(
            reply.ac_brightness as u32,
        ),
        reply.display_policy == DISPLAYPOLICY_DC ==> r == Ok::<u32, SysError>(
            reply.dc_brightness as u32,
        ),
        !(reply.display_policy == DISPLAYPOLICY_AC || reply.display_policy == DISPLAYPOLICY_DC)
            ==> (r matches Err(e) && e matches
                SysError::IoctlQueryDisplayBrightnessUnexpectedResponse { device_name: n }
                && n@ == device_name@),
{
    if reply.display_policy == DISPLAYPOLICY_AC {
        Ok(reply.ac_brightness as u32)
    } else if reply.display_policy == DISPLAYPOLICY_DC {
        Ok(reply.dc_brightness as u32)
    } else {
        Err(SysError::IoctlQueryDisplayBrightnessUnexpectedResponse {
            device_name: device_name.clone(),
        })
    }
}

/// The set request for a chosen raw level: both the AC and the DC value
/// are set at once, under the policy selector that covers both.
pub fn set_display_brightness_request(value: u8) -> (r: DisplayBrightness)
    ensures
        r.display_policy == DISPLAYPOLICY_BOTH,
        r.ac_brightness == value,
        r.dc_brightness == value,
{
    DisplayBrightness { display_policy: DISPLAYPOLICY_BOTH, ac_brightness: value, dc_brightness: value }
}

/// The set request for a requested percentage on an internal panel: snap
/// to the nearest supported level, then set AC and DC together.
pub fn plan_internal_set(levels: &IoctlSupportedBrightnessLevels, percentage: u32) -> (r:
    DisplayBrightness)
    ensures
        r.display_policy == DISPLAYPOLICY_BOTH,
        r.ac_brightness == nearest_level(levels.0@, percentage),
        r.dc_brightness == nearest_level(levels.0@, percentage),
{
    set_display_brightness_request(levels.get_nearest(percentage))
}

/// The raw value to send to a continuous-scale monitor for a requested
/// percentage. The input percentage is clamped to 100 before conversion;
/// a degenerate scale is reported as `None`.
pub fn plan_external_set(values: &DdcciBrightnessValues, percentage: u32) -> (r: Option<u32>)
    ensures
        r is None <==> values.max <= values.min,
        r matches Some(c) ==> c == current_of_percentage(
            *values,
            if percentage > 100 { 100int } else { percentage as int },
        ),
{
    let p: u32 = if percentage > 100 { 100 } else { percentage };
    values.percentage_to_current(p)
}

/// The raw reading one get pass obtained from the backend the device
/// routes to.
#[derive(Debug)]
pub enum BackendReading {
    /// The IOCTL query reply of an internal panel.
    Internal(DisplayBrightness),
    /// The DDC/CI range of an external monitor.
    External(DdcciBrightnessValues),
}

/// What one set pass queried from the backend before converting the
/// requested percentage.
#[derive(Debug)]
pub enum BackendSetReading {
    /// The supported levels of an internal panel.
    Internal(IoctlSupportedBrightnessLevels),
    /// The DDC/CI range of an external monitor.
    External(DdcciBrightnessValues),
}

/// The raw request one set pass sends to the backend.
#[derive(Debug, Clone, Copy, PartialEq, Eq, Structural)]
pub enum BackendSetRequest {
    /// The combined AC/DC request of the IOCTL protocol.
    Internal(DisplayBrightness),
    /// The raw value of a DDC/CI set call.
    External(u32),
}

// ---------------------------------------------------------------------------
// The device record
// ---------------------------------------------------------------------------

/// Output technology value that marks an internal panel; every other value
/// (including unknown ones) routes to the external DDC/CI protocol.
pub const OUTPUT_TECHNOLOGY_INTERNAL: u32 = 0x8000_0000;

/// The control protocol chosen for a device, decided once from its output
/// technology classification.
#[derive(Debug, Clone, Copy, PartialEq, Eq, Structural)]
pub enum BrightnessProtocol {
    /// Internal panel: discrete supported levels through the IOCTL protocol.
    Internal,
    /// Everything else, unknown included: continuous DDC/CI range.
    External,
}

/// One controllable display: its identity fields, the raw platform handles
/// its backend calls need, and its output technology classification.
#[derive(Debug)]
pub struct Brightness {
    /// Raw physical-monitor handle, used by the DDC/CI calls.
    pub physical_monitor: u64,
    /// Raw device file handle, used by the IOCTL calls.
    pub file_handle: u64,
    pub device_name: String,
    /// Human-readable description; not unique between devices.
    pub device_description: String,
    pub device_key: String,
    /// Device interface path, also the correlation key of the
    /// classification map.
    pub device_path: String,
    pub output_technology: u32,
}

impl Brightness {
    /// True when the output technology marks an internal panel.
    pub fn is_internal(&self) -> (r: bool)
        ensures
            r == (self.output_technology == OUTPUT_TECHNOLOGY_INTERNAL),
    {
        self.output_technology == OUTPUT_TECHNOLOGY_INTERNAL
    }

    /// Which control protocol applies: internal panels use the discrete
    /// IOCTL protocol, every other classification defaults to DDC/CI.
    pub fn protocol(&self) -> (r: BrightnessProtocol)
        ensures
            r == BrightnessProtocol::Internal
                <==> self.output_technology == OUTPUT_TECHNOLOGY_INTERNAL,
    {
        if self.is_internal() {
            BrightnessProtocol::Internal
        } else {
            BrightnessProtocol::External
        }
    }

    /// The stable short identifier of the device.
    pub fn device_name(&self) -> (r: String)
        ensures
            r@ == self.device_name@,
    {
        self.device_name.clone()
    }

    /// One get step: routes by the classification cached on the device
    /// and turns the backend's raw reading into the canonical
    /// percentage. A degenerate continuous range (`max == min`) is a
    /// query failure for the device, never an undefined numeric result.
    pub fn get_percentage(&self, reading: &BackendReading) -> (r: Result<u32, SysError>)
        requires
            (reading is Internal <==> self.output_technology == OUTPUT_TECHNOLOGY_INTERNAL),
            (reading matches BackendReading::External(v) ==> v.min <= v.current
                && v.current <= v.max),
        ensures
            (reading matches BackendReading::Internal(reply) ==> (reply.display_policy
                == DISPLAYPOLICY_AC ==> r == Ok::<u32, SysError>(reply.ac_brightness as u32))),
            (reading matches BackendReading::Internal(reply) ==> (reply.display_policy
                == DISPLAYPOLICY_DC ==> r == Ok::<u32, SysError>(reply.dc_brightness as u32))),
            (reading matches BackendReading::Internal(reply) ==> (!(reply.display_policy
                == DISPLAYPOLICY_AC || reply.display_policy == DISPLAYPOLICY_DC) ==> (r matches
                Err(e) && e matches SysError::IoctlQueryDisplayBrightnessUnexpectedResponse {
                    device_name,
                } && device_name@ == self.device_name@))),
            (reading matches BackendReading::External(v) ==> (if v.max == v.min {
                (r matches Err(e) && e matches SysError::DdcciInvalidBrightnessRange {
                    device_name,
                } && device_name@ == self.device_name@)
            } else {
                (r matches Ok(p) && p == current_percentage(*v))
            })),
    {
        match reading {
            BackendReading::Internal(reply) => interpret_display_brightness(
                reply,
                &self.device_name,
            ),
            BackendReading::External(v) => match v.get_current_percentage() {
                Some(p) => Ok(p),
                None => Err(
                    SysError::DdcciInvalidBrightnessRange {
                        device_name: self.device_name.clone(),
                    },
                ),
            },
        }
    }

    /// One set step: routes by the classification cached on the device
    /// and converts the requested percentage into the backend's raw
    /// request. The requested percentage is clamped to 100 before the
    /// continuous conversion; an empty level list falls back to level 0;
    /// a degenerate continuous range is a failure.
    pub fn plan_set(&self, reading: &BackendSetReading, percentage: u32) -> (r: Result<
        BackendSetRequest,
        SysError,
    >)
        requires
            (reading is Internal <==> self.output_technology == OUTPUT_TECHNOLOGY_INTERNAL),
        ensures
            (reading matches BackendSetReading::Internal(levels) ==> (r matches Ok(
                BackendSetRequest::Internal(req),
            ) && req.display_policy == DISPLAYPOLICY_BOTH && req.ac_brightness == nearest_level(
                levels.0@,
                percentage,
            ) && req.dc_brightness == nearest_level(levels.0@, percentage))),
            (reading matches BackendSetReading::External(v) ==> (if v.max <= v.min {
                (r matches Err(e) && e matches SysError::DdcciInvalidBrightnessRange {
                    device_name,
                } && device_name@ == self.device_name@)
            } else {
                (r matches Ok(BackendSetRequest::External(c)) && c == current_of_percentage(
                    *v,
                    if percentage > 100 { 100int } else { percentage as int },
                ))
            })),
    {
        match reading {
            BackendSetReading::Internal(levels) => Ok(
                BackendSetRequest::Internal(plan_internal_set(levels, percentage)),
            ),
            BackendSetReading::External(v) => match plan_external_set(v, percentage) {
                Some(c) => Ok(BackendSetRequest::External(c)),
                None => Err(
                    SysError::DdcciInvalidBrightnessRange {
                        device_name: self.device_name.clone(),
                    },
                ),
            },
        }
    }
}

/// Platform-specific accessors of a device record.
pub trait BrightnessExt {
    spec fn spec_device_description(&self) -> Seq<char>;

    spec fn spec_device_registry_key(&self) -> Seq<char>;

    spec fn spec_device_path(&self) -> Seq<char>;

    /// Returns the device description.
    fn device_description(&self) -> (r: Result<String, crate::Error>)
        ensures
            r matches Ok(s) && s@ == self.spec_device_description(),
    ;

    /// Returns the device registry key.
    fn device_registry_key(&self) -> (r: Result<String, crate::Error>)
        ensures
            r matches Ok(s) && s@ == self.spec_device_registry_key(),
    ;

    /// Returns the device path.
    fn device_path(&self) -> (r: Result<String, crate::Error>)
        ensures
            r matches Ok(s) && s@ == self.spec_device_path(),
    ;
}

impl BrightnessExt for Brightness {
    open spec fn spec_device_description(&self) -> Seq<char> {
        self.device_description@
    }

    open spec fn spec_device_registry_key(&self) -> Seq<char> {
        self.device_key@
    }

    open spec fn spec_device_path(&self) -> Seq<char> {
        self.device_path@
    }

    fn device_description(&self) -> (r: Result<String, crate::Error>) {
        Ok(self.device_description.clone())
    }

    fn device_registry_key(&self) -> (r: Result<String, crate::Error>) {
        Ok(self.device_key.clone())
    }

    fn device_path(&self) -> (r: Result<String, crate::Error>) {
        Ok(self.device_path.clone())
    }
}

} // verus!
