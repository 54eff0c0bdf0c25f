//! Device discovery and correlation for the multi-monitor platform: the
//! classification map built from display-configuration records, the
//! positional pairing of physical-monitor handles with display-device
//! records, and the assembly of one device record per controllable
//! display. The raw enumeration calls happen outside this crate; the
//! logic here fuses their plain results.

use vstd::prelude::*;

verus! {

use crate::monitor::Brightness;
use crate::monitor::SysError;
use crate::monitor::flag_set;

// ---------------------------------------------------------------------------
// Wide strings
// ---------------------------------------------------------------------------

/// What `String::from_utf16_lossy` returns for a sequence of UTF-16 code
/// units; the result depends on the code units alone.
pub uninterp spec fn utf16_lossy(units: Seq<u16>) -> Seq<char>;

/// Relies on `String::from_utf16_lossy`: decodes UTF-16 code units,
/// replacing invalid sequences with the replacement character. The result
/// depends on the code units alone, and an empty input gives an empty
/// string.
#[verifier::external_body]
fn decode_utf16_lossy(units: &Vec<u16>) -> (r: String)
    ensures
        r@ == utf16_lossy(units@),
        units@.len() == 0 ==> r@.len() == 0,
{
    String::from_utf16_lossy(units)
}

/// Index of the first NUL code unit, or the length when there is none.
pub open spec fn first_nul(s: Seq<u16>) -> int
    decreases s.len(),
{
    if s.len() == 0 {
        0
    } else if s[0] == 0 {
        0
    } else {
        1 + first_nul(s.drop_first())
    }
}

/// The prefix before the first NUL code unit.
pub open spec fn nul_trimmed(s: Seq<u16>) -> Seq<u16> {
    s.take(first_nul(s))
}

/// `first_nul` is the index of the leading run of non-NUL units.
proof fn lemma_first_nul_at(s: Seq<u16>, k: int)
    requires
        0 <= k <= s.len(),
        forall|i: int| 0 <= i < k ==> s[i] != 0,
        k < s.len() ==> s[k] == 0,
    ensures
        first_nul(s) == k,
    decreases k,
{
    if k == 0 {
    } else {
        assert forall|i: int| 0 <= i < k - 1 implies s.drop_first()[i] != 0 by {
            assert(s.drop_first()[i] == s[i + 1]);
        }
        assert(k - 1 < s.drop_first().len() ==> s.drop_first()[k - 1] == s[k]);
        lemma_first_nul_at(s.drop_first(), k - 1);
    }
}

/// Truncates a NUL-padded wide-character field at its first NUL and
/// decodes the prefix as UTF-16, lossily.
pub fn wchar_to_string(s: &Vec<u16>) -> (r: String)
    ensures
        r@ == utf16_lossy(nul_trimmed(s@)),
{
    let n = s.len();
    let mut end: usize = 0;
    while end < n && s[end] != 0
        invariant
            0 <= end <= n,
            n == s@.len(),
            forall|i: int| 0 <= i < end ==> s@[i] != 0,
        decreases n - end,
    {
        end = end + 1;
    }
    proof {
        lemma_first_nul_at(s@, end as int);
    }
    let mut prefix: Vec<u16> = Vec::new();
    let mut i: usize = 0;
    while i < end
        invariant
            0 <= i <= end <= s@.len(),
            nul_trimmed(s@) == s@.take(end as int),
            prefix@ == s@.take(i as int),
        decreases end - i,
    {
        prefix.push(s[i]);
        proof {
            assert(s@.take(i as int + 1) =~= s@.take(i as int).push(s@[i as int]));
        }
        i = i + 1;
    }
    proof {
        assert(prefix@ == nul_trimmed(s@));
    }
    decode_utf16_lossy(&prefix)
}

// ---------------------------------------------------------------------------
// Display device records
// ---------------------------------------------------------------------------

/// State flag marking an active display device.
pub const DISPLAY_DEVICE_ACTIVE: u32 = 1;

/// One display-device record as the legacy enumeration reports it: four
/// NUL-padded wide-character fields and the state flags. With the
/// device-interface-name variant of the enumeration, `device_id` holds
/// the openable device path.
#[derive(Debug)]
pub struct DisplayDeviceRecord {
    pub device_name: Vec<u16>,
    pub device_string: Vec<u16>,
    pub device_id: Vec<u16>,
    pub device_key: Vec<u16>,
    pub state_flags: u32,
}

/// An active display device.
pub open spec fn is_active(d: DisplayDeviceRecord) -> bool {
    d.state_flags & DISPLAY_DEVICE_ACTIVE == DISPLAY_DEVICE_ACTIVE
}

/// The subsequence of active display devices, in enumeration order.
pub open spec fn active_filter(s: Seq<DisplayDeviceRecord>) -> Seq<DisplayDeviceRecord>
    decreases s.len(),
{
    if s.len() == 0 {
        Seq::empty()
    } else if is_active(s.last()) {
        active_filter(s.drop_last()).push(s.last())
    } else {
        active_filter(s.drop_last())
    }
}

/// Keeps the active display devices only; connected but inactive
/// displays are dropped before correlation.
pub fn filter_active_devices(devices: Vec<DisplayDeviceRecord>) -> (r: Vec<DisplayDeviceRecord>)
    ensures
        r@ == active_filter(devices@),
{
    let ghost dv = devices@;
    let mut rest = devices;
    let mut out: Vec<DisplayDeviceRecord> = Vec::new();
    let ghost mut k: int = 0;
    while rest.len() > 0
        invariant
            dv == devices@,
            0 <= k <= dv.len(),
            rest@ == dv.skip(k),
            out@ == active_filter(dv.take(k)),
        decreases rest@.len(),
    {
        proof {
            assert(rest@[0] == dv[k]);
        }
        let d = rest.remove(0);
        if flag_set(d.state_flags, DISPLAY_DEVICE_ACTIVE) {
            out.push(d);
        }
        proof {
            assert(dv.take(k + 1).drop_last() =~= dv.take(k));
            assert(dv.take(k + 1).last() == dv[k]);
            k = k + 1;
            assert(rest@ =~= dv.skip(k));
        }
    }
    proof {
        assert(dv.take(k) =~= dv);
    }
    out
}

// ---------------------------------------------------------------------------
// The classification map
// ---------------------------------------------------------------------------

/// Mode-information type marking a target entry.
pub const MODE_INFO_TYPE_TARGET: u32 = 2;

/// One mode-information record of the display-configuration query; only
/// the fields the target-name lookup needs.
#[derive(Debug, Clone, Copy, PartialEq, Eq, Structural)]
pub struct ModeInfoRecord {
    pub info_type: u32,
    pub adapter_id: u64,
    pub id: u32,
}

/// A target mode entry.
pub open spec fn is_target(m: ModeInfoRecord) -> bool {
    m.info_type == MODE_INFO_TYPE_TARGET
}

/// The subsequence of target mode entries, in query order.
pub open spec fn target_filter(s: Seq<ModeInfoRecord>) -> Seq<ModeInfoRecord>
    decreases s.len(),
{
    if s.len() == 0 {
        Seq::empty()
    } else if is_target(s.last()) {
        target_filter(s.drop_last()).push(s.last())
    } else {
        target_filter(s.drop_last())
    }
}

/// Keeps the target mode entries: only those carry a monitor's
/// target-name record.
pub fn filter_target_modes(modes: Vec<ModeInfoRecord>) -> (r: Vec<ModeInfoRecord>)
    ensures
        r@ == target_filter(modes@),
{
    let ghost mv = modes@;
    let mut rest = modes;
    let mut out: Vec<ModeInfoRecord> = Vec::new();
    let ghost mut k: int = 0;
    while rest.len() > 0
        invariant
            mv == modes@,
            0 <= k <= mv.len(),
            rest@ == mv.skip(k),
            out@ == target_filter(mv.take(k)),
        decreases rest@.len(),
    {
        proof {
            assert(rest@[0] == mv[k]);
        }
        let m = rest.remove(0);
        if m.info_type == MODE_INFO_TYPE_TARGET {
            out.push(m);
        }
        proof {
            assert(mv.take(k + 1).drop_last() =~= mv.take(k));
            assert(mv.take(k + 1).last() == mv[k]);
            k = k + 1;
            assert(rest@ =~= mv.skip(k));
        }
    }
    proof {
        assert(mv.take(k) =~= mv);
    }
    out
}

/// One classification entry: a device path and the output technology its
/// target-name record reported.
#[derive(Debug)]
pub struct DeviceInfoEntry {
    pub monitor_device_path: Vec<u16>,
    pub output_technology: u32,
}

/// The classification map from device path to output technology, in
/// insertion order; a later record for the same path wins.
#[derive(Debug)]
pub struct DeviceInfoMap {
    pub entries: Vec<DeviceInfoEntry>,
}

/// The technology recorded for a path: the last matching entry.
pub open spec fn info_lookup(entries: Seq<DeviceInfoEntry>, path: Seq<u16>) -> Option<u32>
    decreases entries.len(),
{
    if entries.len() == 0 {
        None
    } else if entries.last().monitor_device_path@ == path {
        Some(entries.last().output_technology)
    } else {
        info_lookup(entries.drop_last(), path)
    }
}

/// Element-wise equality of two wide-character keys.
fn vec_u16_eq(a: &Vec<u16>, b: &Vec<u16>) -> (r: bool)
    ensures
        r == (a@ == b@),
{
    if a.len() != b.len() {
        return false;
    }
    let mut i: usize = 0;
    while i < a.len()
        invariant
            0 <= i <= a@.len(),
            a@.len() == b@.len(),
            forall|j: int| 0 <= j < i ==> a@[j] == b@[j],
        decreases a@.len() - i,
    {
        if a[i] != b[i] {
            proof {
                assert(a@[i as int] != b@[i as int]);
            }
            return false;
        }
        i = i + 1;
    }
    proof {
        assert(a@ =~= b@);
    }
    true
}

impl DeviceInfoMap {
    /// Looks up the output technology recorded for a device path; when
    /// the same path was recorded twice, the later record wins.
    pub fn get(&self, path: &Vec<u16>) -> (r: Option<u32>)
        ensures
            r == info_lookup(self.entries@, path@),
    {
        let mut j: usize = self.entries.len();
        proof {
            assert(self.entries@.take(self.entries@.len() as int) =~= self.entries@);
        }
        while j > 0
            invariant
                0 <= j <= self.entries@.len(),
                info_lookup(self.entries@, path@) == info_lookup(
                    self.entries@.take(j as int),
                    path@,
                ),
            decreases j,
        {
            proof {
                assert(self.entries@.take(j as int).last() == self.entries@[j - 1]);
                assert(self.entries@.take(j as int).drop_last() =~= self.entries@.take(j - 1));
            }
            let e = &self.entries[j - 1];
            if vec_u16_eq(&e.monitor_device_path, path) {
                return Some(e.output_technology);
            }
            j = j - 1;
        }
        proof {
            assert(self.entries@.take(0int) =~= Seq::<DeviceInfoEntry>::empty());
        }
        None
    }
}

/// What the per-target device-name query reported for one target mode.
#[derive(Debug)]
pub enum TargetNameOutcome {
    /// The query returned a target-name record: its device path and
    /// output technology.
    Found { monitor_device_path: Vec<u16>, output_technology: u32 },
    /// Access was denied; expected for processes without access to the
    /// current desktop and on remote sessions, and skipped silently.
    AccessDenied,
    /// Any other failure, fatal to the whole map-building step.
    Failed { code: i32 },
}

/// The code of the first fatal query outcome, if any.
pub open spec fn first_failure(outcomes: Seq<TargetNameOutcome>) -> Option<i32>
    decreases outcomes.len(),
{
    if outcomes.len() == 0 {
        None
    } else {
        match outcomes[0] {
            TargetNameOutcome::Failed { code } => Some(code),
            _ => first_failure(outcomes.drop_first()),
        }
    }
}

/// Relates the query outcomes to the built map entries: each `Found`
/// outcome contributes one entry in order, denied queries are skipped,
/// and no fatal outcome occurs.
pub open spec fn entries_match(
    outcomes: Seq<TargetNameOutcome>,
    entries: Seq<DeviceInfoEntry>,
) -> bool
    decreases outcomes.len(),
{
    if outcomes.len() == 0 {
        entries.len() == 0
    } else {
        match outcomes.last() {
            TargetNameOutcome::Found { monitor_device_path, output_technology } => entries.len()
                >= 1 && entries.last().monitor_device_path@ == monitor_device_path@
                && entries.last().output_technology == output_technology && entries_match(
                outcomes.drop_last(),
                entries.drop_last(),
            ),
            TargetNameOutcome::AccessDenied => entries_match(outcomes.drop_last(), entries),
            TargetNameOutcome::Failed { .. } => false,
        }
    }
}

/// Builds the classification map out of the per-target query outcomes:
/// denied queries are skipped silently, and the first fatal outcome
/// aborts the whole step, as a structural enumeration failure.
pub fn build_device_info_map(outcomes: Vec<TargetNameOutcome>) -> (r: Result<
    DeviceInfoMap,
    SysError,
>)
    ensures
        r is Err <==> first_failure(outcomes@) is Some,
        (r matches Err(e) ==> (first_failure(outcomes@) matches Some(code) && e == (
        SysError::DisplayConfigGetDeviceInfoFailed { code }))),
        r matches Ok(m) ==> entries_match(outcomes@, m.entries@),
{
    let ghost ov = outcomes@;
    let mut rest = outcomes;
    let mut entries: Vec<DeviceInfoEntry> = Vec::new();
    let ghost mut k: int = 0;
    while rest.len() > 0
        invariant
            ov == outcomes@,
            0 <= k <= ov.len(),
            rest@ == ov.skip(k),
            entries_match(ov.take(k), entries@),
            first_failure(ov) == first_failure(rest@),
        decreases rest@.len(),
    {
        proof {
            assert(rest@[0] == ov[k]);
            assert(ov.skip(k).drop_first() =~= ov.skip(k + 1));
        }
        let o = rest.remove(0);
        let ghost e0 = entries@;
        match o {
            TargetNameOutcome::Failed { code } => {
                proof {
                    assert(ov.skip(k)[0] == ov[k]);
                    assert(first_failure(ov.skip(k)) == Some(code));
                }
                return Err(SysError::DisplayConfigGetDeviceInfoFailed { code });
            },
            TargetNameOutcome::AccessDenied => {},
            TargetNameOutcome::Found { monitor_device_path, output_technology } => {
                entries.push(DeviceInfoEntry { monitor_device_path, output_technology });
            },
        }
        proof {
            assert(ov.take(k + 1).drop_last() =~= ov.take(k));
            assert(ov.take(k + 1).last() == ov[k]);
            if entries@.len() > e0.len() {
                assert(entries@.drop_last() =~= e0);
            }
            k = k + 1;
            assert(rest@ =~= ov.skip(k));
        }
    }
    proof {
        assert(ov.take(k) =~= ov);
        assert(rest@ =~= Seq::<TargetNameOutcome>::empty());
        assert(first_failure(rest@) is None);
    }
    Ok(DeviceInfoMap { entries })
}

// ---------------------------------------------------------------------------
// Pairing and assembly
// ---------------------------------------------------------------------------

/// What opening a display device's path reported.
#[derive(Debug)]
pub enum OpenOutcome {
    /// The device file opened; the raw handle.
    Opened { handle: u64 },
    /// Access was denied: a virtual or remote-session device, skipped
    /// silently.
    AccessDenied,
    /// Any other failure, a hard error for this device.
    Failed { code: i32 },
}

/// The device record assembled for one pairing: handles, decoded
/// identity fields and the looked-up output technology.
pub open spec fn device_matches(
    b: Brightness,
    physical: u64,
    d: DisplayDeviceRecord,
    handle: u64,
    tech: u32,
) -> bool {
    &&& b.physical_monitor == physical
    &&& b.file_handle == handle
    &&& b.device_name@ == utf16_lossy(nul_trimmed(d.device_name@))
    &&& b.device_description@ == utf16_lossy(nul_trimmed(d.device_string@))
    &&& b.device_key@ == utf16_lossy(nul_trimmed(d.device_key@))
    &&& b.device_path@ == utf16_lossy(nul_trimmed(d.device_id@))
    &&& b.output_technology == tech
}

/// What assembling one paired (physical monitor, display device) yields:
/// a denied open skips the device silently; any other open failure is a
/// hard error for it; with an open handle, a missing classification
/// entry is a hard error, and otherwise the device record is built.
pub open spec fn assembled_matches(
    physical: u64,
    d: DisplayDeviceRecord,
    open: OpenOutcome,
    info: Seq<DeviceInfoEntry>,
    r: Option<Result<Brightness, SysError>>,
) -> bool {
    match open {
        OpenOutcome::AccessDenied => r is None,
        OpenOutcome::Failed { code } => (r matches Some(Err(e)) && e matches
            SysError::OpeningMonitorDeviceInterfaceHandleFailed { device_name, code: c }
            && device_name@ == utf16_lossy(nul_trimmed(d.device_name@)) && c == code),
        OpenOutcome::Opened { handle } => match info_lookup(info, d.device_id@) {
            Option::None => r == Some(Err::<Brightness, SysError>(SysError::DeviceInfoMissing)),
            Option::Some(tech) => (r matches Some(Ok(b)) && device_matches(
                b,
                physical,
                d,
                handle,
                tech,
            )),
        },
    }
}

/// Assembles one paired (physical monitor, display device) into a device
/// record, or an error item, or nothing for an expected skip.
pub fn assemble_device(
    physical: u64,
    device: DisplayDeviceRecord,
    open: OpenOutcome,
    info: &DeviceInfoMap,
) -> (r: Option<Result<Brightness, SysError>>)
    ensures
        assembled_matches(physical, device, open, info.entries@, r),
{
    match open {
        OpenOutcome::AccessDenied => None,
        OpenOutcome::Failed { code } => Some(
            Err(
                SysError::OpeningMonitorDeviceInterfaceHandleFailed {
                    device_name: wchar_to_string(&device.device_name),
                    code,
                },
            ),
        ),
        OpenOutcome::Opened { handle } => match info.get(&device.device_id) {
            None => Some(Err(SysError::DeviceInfoMissing)),
            Some(tech) => Some(
                Ok(
                    Brightness {
                        physical_monitor: physical,
                        file_handle: handle,
                        device_name: wchar_to_string(&device.device_name),
                        device_description: wchar_to_string(&device.device_string),
                        device_key: wchar_to_string(&device.device_key),
                        device_path: wchar_to_string(&device.device_id),
                        output_technology: tech,
                    },
                ),
            ),
        },
    }
}

/// The two per-monitor enumerations must agree in length; array position
/// is the only correlation key available, so unequal counts make no safe
/// pairing and are a correlation error, never a truncation or a guess.
pub fn check_enumeration(physical: &Vec<u64>, devices: &Vec<DisplayDeviceRecord>) -> (r: Result<
    (),
    SysError,
>)
    ensures
        r is Ok <==> physical@.len() == devices@.len(),
        r matches Err(e) ==> e == SysError::EnumerationMismatch,
{
    if physical.len() == devices.len() {
        Ok(())
    } else {
        Err(SysError::EnumerationMismatch)
    }
}

/// Relates one logical monitor's paired lists to the reported items:
/// each position is assembled independently, denied opens are skipped,
/// and every other outcome contributes exactly one item in order.
pub open spec fn correlate_matches(
    physical: Seq<u64>,
    devices: Seq<DisplayDeviceRecord>,
    opens: Seq<OpenOutcome>,
    info: Seq<DeviceInfoEntry>,
    out: Seq<Result<Brightness, SysError>>,
) -> bool
    recommends
        physical.len() == devices.len(),
        opens.len() == devices.len(),
    decreases devices.len(),
{
    if devices.len() == 0 {
        out.len() == 0
    } else {
        let k = devices.len() - 1;
        if opens[k] is AccessDenied {
            correlate_matches(
                physical.drop_last(),
                devices.drop_last(),
                opens.drop_last(),
                info,
                out,
            )
        } else {
            &&& out.len() >= 1
            &&& assembled_matches(physical[k], devices[k], opens[k], info, Some(out.last()))
            &&& correlate_matches(
                physical.drop_last(),
                devices.drop_last(),
                opens.drop_last(),
                info,
                out.drop_last(),
            )
        }
    }
}

/// Pairs physical-monitor handles with display devices by position and
/// assembles each pair; a single inaccessible device never aborts the
/// rest of the monitor's devices.
pub fn correlate_monitor(
    physical: Vec<u64>,
    devices: Vec<DisplayDeviceRecord>,
    opens: Vec<OpenOutcome>,
    info: &DeviceInfoMap,
) -> (r: Vec<Result<Brightness, SysError>>)
    requires
        physical@.len() == devices@.len(),
        opens@.len() == devices@.len(),
    ensures
        correlate_matches(physical@, devices@, opens@, info.entries@, r@),
{
    let ghost pv = physical@;
    let ghost dv = devices@;
    let ghost ov = opens@;
    let mut rest_devices = devices;
    let mut rest_opens = opens;
    let mut out: Vec<Result<Brightness, SysError>> = Vec::new();
    let mut i: usize = 0;
    while i < physical.len()
        invariant
            0 <= i <= pv.len(),
            physical@ == pv,
            dv == devices@,
            ov == opens@,
            pv.len() == dv.len(),
            ov.len() == dv.len(),
            rest_devices@ == dv.skip(i as int),
            rest_opens@ == ov.skip(i as int),
            correlate_matches(
                pv.take(i as int),
                dv.take(i as int),
                ov.take(i as int),
                info.entries@,
                out@,
            ),
        decreases pv.len() - i,
    {
        proof {
            assert(rest_devices@[0] == dv[i as int]);
            assert(rest_opens@[0] == ov[i as int]);
        }
        let d = rest_devices.remove(0);
        let o = rest_opens.remove(0);
        let h = physical[i];
        let item = assemble_device(h, d, o, info);
        let ghost gitem = item;
        let ghost out0 = out@;
        match item {
            Option::None => {},
            Option::Some(x) => {
                out.push(x);
            },
        }
        proof {
            assert(pv.take(i as int + 1).drop_last() =~= pv.take(i as int));
            assert(dv.take(i as int + 1).drop_last() =~= dv.take(i as int));
            assert(ov.take(i as int + 1).drop_last() =~= ov.take(i as int));
            assert(dv.take(i as int + 1).last() == dv[i as int]);
            assert(ov.take(i as int + 1).last() == ov[i as int]);
            assert(pv.take(i as int + 1).last() == pv[i as int]);
            if gitem is Some {
                assert(out@ == out0.push(gitem->0));
                assert(out@.drop_last() =~= out0);
                assert(Some(out@.last()) == gitem);
            }
            assert(rest_devices@ =~= dv.skip(i as int + 1));
            assert(rest_opens@ =~= ov.skip(i as int + 1));
        }
        i = i + 1;
    }
    proof {
        assert(pv.take(pv.len() as int) =~= pv);
        assert(dv.take(pv.len() as int) =~= dv);
        assert(ov.take(pv.len() as int) =~= ov);
    }
    out
}

// ---------------------------------------------------------------------------
// A whole discovery pass
// ---------------------------------------------------------------------------

/// The raw enumeration results gathered for one logical monitor: its
/// physical-monitor handles, its active display-device records, and the
/// outcome of opening each record's device path, by position.
#[derive(Debug)]
pub struct MonitorInput {
    pub physical: Result<Vec<u64>, i32>,
    pub devices: Result<Vec<DisplayDeviceRecord>, i32>,
    pub opens: Vec<OpenOutcome>,
}

/// A well-formed monitor input carries one open outcome per display
/// device whenever the two enumerations agree in length.
pub open spec fn monitor_input_wf(m: MonitorInput) -> bool {
    match m.physical {
        Result::Ok(phys) => match m.devices {
            Result::Ok(devs) => phys@.len() == devs@.len() ==> m.opens@.len() == devs@.len(),
            Result::Err(_) => true,
        },
        Result::Err(_) => true,
    }
}

/// Relates one logical monitor's enumeration results to the reported
/// items: a failed enumeration or a length mismatch yields exactly one
/// error item for that monitor, and agreement yields its paired devices.
pub open spec fn monitor_matches(
    info: Seq<DeviceInfoEntry>,
    m: MonitorInput,
    out: Seq<Result<Brightness, SysError>>,
) -> bool {
    match m.physical {
        Result::Err(code) => out.len() == 1 && out[0] == Err::<Brightness, SysError>(
            SysError::GetPhysicalMonitorsFailed { code },
        ),
        Result::Ok(phys) => match m.devices {
            Result::Err(code) => out.len() == 1 && out[0] == Err::<Brightness, SysError>(
                SysError::GetMonitorInfoFailed { code },
            ),
            Result::Ok(devs) => if phys@.len() != devs@.len() {
                out.len() == 1 && out[0] == Err::<Brightness, SysError>(
                    SysError::EnumerationMismatch,
                )
            } else {
                correlate_matches(phys@, devs@, m.opens@, info, out)
            },
        },
    }
}

/// Relates a whole pass's monitor inputs to the reported items: the
/// items of each monitor follow those of the previous one.
pub open spec fn monitors_match(
    info: Seq<DeviceInfoEntry>,
    ms: Seq<MonitorInput>,
    out: Seq<Result<Brightness, SysError>>,
) -> bool
    decreases ms.len(),
{
    if ms.len() == 0 {
        out.len() == 0
    } else {
        exists|k: int|
            0 <= k <= out.len() && monitors_match(info, ms.drop_last(), #[trigger] out.take(k))
                && monitor_matches(info, ms.last(), out.skip(k))
    }
}

/// One discovery pass: produces one item per display found to be both
/// enumerable and controllable, or an error item for a display that
/// failed mid-correlation. A structural failure (the classification map
/// or the logical-monitor enumeration itself) is the single item of the
/// pass; a failure scoped to one monitor or device never aborts the
/// rest.
pub fn brightness_devices(
    info: Result<DeviceInfoMap, SysError>,
    monitors: Result<Vec<MonitorInput>, i32>,
) -> (r: Vec<Result<Brightness, SysError>>)
    requires
        (monitors matches Ok(ms) ==> forall|j: int|
            0 <= j < ms@.len() ==> monitor_input_wf(#[trigger] ms@[j])),
    ensures
        (info matches Err(e) ==> r@.len() == 1 && r@[0] == Err::<Brightness, SysError>(e)),
        (info is Ok ==> (monitors matches Err(code) ==> r@.len() == 1 && r@[0] == Err::<
            Brightness,
            SysError,
        >(SysError::EnumDisplayMonitorsFailed { code }))),
        (info matches Ok(m) ==> (monitors matches Ok(ms) ==> monitors_match(
            m.entries@,
            ms@,
            r@,
        ))),
{
    let map = match info {
        Result::Err(e) => {
            let mut r: Vec<Result<Brightness, SysError>> = Vec::new();
            r.push(Err(e));
            return r;
        },
        Result::Ok(map) => map,
    };
    let ms = match monitors {
        Result::Err(code) => {
            let mut r: Vec<Result<Brightness, SysError>> = Vec::new();
            r.push(Err(SysError::EnumDisplayMonitorsFailed { code }));
            return r;
        },
        Result::Ok(ms) => ms,
    };
    let ghost msv = ms@;
    let mut rest = ms;
    let mut out: Vec<Result<Brightness, SysError>> = Vec::new();
    let ghost mut k: int = 0;
    while rest.len() > 0
        invariant
            (info matches Ok(m0) && m0.entries@ == map.entries@),
            (monitors matches Ok(ms0) && ms0@ == msv),
            0 <= k <= msv.len(),
            rest@ == msv.skip(k),
            forall|j: int| 0 <= j < msv.len() ==> monitor_input_wf(#[trigger] msv[j]),
            monitors_match(map.entries@, msv.take(k), out@),
        decreases rest@.len(),
    {
        proof {
            assert(rest@[0] == msv[k]);
            assert(monitor_input_wf(msv[k]));
        }
        let mi = rest.remove(0);
        let MonitorInput { physical, devices, opens } = mi;
        let mut delta: Vec<Result<Brightness, SysError>> = Vec::new();
        match physical {
            Result::Err(code) => {
                delta.push(Err(SysError::GetPhysicalMonitorsFailed { code }));
            },
            Result::Ok(phys) => {
                match devices {
                    Result::Err(code) => {
                        delta.push(Err(SysError::GetMonitorInfoFailed { code }));
                    },
                    Result::Ok(devs) => {
                        match check_enumeration(&phys, &devs) {
                            Result::Err(e) => {
                                delta.push(Err(e));
                            },
                            Result::Ok(_) => {
                                let part = correlate_monitor(phys, devs, opens, &map);
                                delta = part;
                            },
                        }
                    },
                }
            },
        }
        proof {
            assert(monitor_matches(map.entries@, msv[k], delta@));
        }
        let ghost out0 = out@;
        let ghost deltav = delta@;
        out.append(&mut delta);
        proof {
            assert(msv.take(k + 1).drop_last() =~= msv.take(k));
            assert(msv.take(k + 1).last() == msv[k]);
            let k0 = out0.len() as int;
            assert(out@.take(k0) =~= out0);
            assert(out@.skip(k0) =~= deltav);
            assert(monitors_match(map.entries@, msv.take(k + 1), out@)) by {
                assert(0 <= k0 <= out@.len());
                assert(monitors_match(map.entries@, msv.take(k + 1).drop_last(), out@.take(k0)));
                assert(monitor_matches(map.entries@, msv.take(k + 1).last(), out@.skip(k0)));
            };
            k = k + 1;
            assert(rest@ =~= msv.skip(k));
        }
    }
    proof {
        assert(msv.take(k) =~= msv);
    }
    out
}

} // verus!
