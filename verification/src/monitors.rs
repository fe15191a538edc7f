//! Topology resolution: correlating the three display enumerations.

use vstd::prelude::*;

use crate::power::{recognized_power_reply, MonitorError, PowerMode, VCP_POWER_MODE, vcp_decode, vcp_encode};
use crate::wide::{legacy_name_matches, wide_eq, wide_name_matches};

verus! {

/// One record of the legacy per-adapter enumeration: a long device
/// identifier and the short legacy device name it belongs to, both raw
/// nul-terminated UTF-16 buffers.
#[derive(Debug)]
pub struct DeviceIdentity {
    pub device_id: Vec<u16>,
    pub device_name: Vec<u16>,
}

/// One active display output path from the extended display-configuration
/// enumeration.
#[derive(Debug)]
pub struct TargetDisplayInfo {
    /// Human-readable monitor name, already decoded.
    pub friendly_name: String,
    /// Raw device-identifier path, matched exactly against `DeviceIdentity`.
    pub device_path: Vec<u16>,
    pub adapter_id: u64,
    pub target_id: u32,
}

/// One DDC/CI-capable physical-monitor handle bound to a GDI monitor,
/// carrying that monitor's raw legacy device name.
#[derive(Debug)]
pub struct PhysicalMonitorRecord {
    pub device_name: Vec<u16>,
    pub handle: u64,
}

/// A resolved, addressable display: a 1-based id in target order, the
/// friendly name, and the native physical-monitor handle.
#[derive(Debug)]
pub struct Monitor {
    pub id: i32,
    pub name: String,
    pub handle: u64,
}

/// Ghost image of a resolved monitor.
pub struct MonitorView {
    pub id: int,
    pub name: Seq<char>,
    pub handle: u64,
}

impl View for Monitor {
    type V = MonitorView;

    open spec fn view(&self) -> MonitorView {
        MonitorView { id: self.id as int, name: self.name@, handle: self.handle }
    }
}

pub open spec fn monitor_views(ms: Seq<Monitor>) -> Seq<MonitorView> {
    ms.map_values(|m: Monitor| m@)
}

pub open spec fn int_ids(ids: Seq<i32>) -> Seq<int> {
    ids.map_values(|x: i32| x as int)
}

/// The first legacy record whose identifier equals `path` exactly.
pub open spec fn find_device(devices: Seq<DeviceIdentity>, path: Seq<u16>) -> Option<
    DeviceIdentity,
>
    decreases devices.len(),
{
    if devices.len() == 0 {
        Option::None
    } else if devices.first().device_id@ == path {
        Option::Some(devices.first())
    } else {
        find_device(devices.drop_first(), path)
    }
}

/// The first physical-monitor record whose legacy name is a prefix of the
/// resolved legacy name `name`.
pub open spec fn find_record(records: Seq<PhysicalMonitorRecord>, name: Seq<u16>) -> Option<
    PhysicalMonitorRecord,
>
    decreases records.len(),
{
    if records.len() == 0 {
        Option::None
    } else if legacy_name_matches(name, records.first().device_name@) {
        Option::Some(records.first())
    } else {
        find_record(records.drop_first(), name)
    }
}

/// The handle a target resolves to, when both correlation lookups succeed:
/// first the exact device-path lookup, then the prefix join on the legacy
/// device name.
pub open spec fn target_resolution(
    devices: Seq<DeviceIdentity>,
    records: Seq<PhysicalMonitorRecord>,
    t: TargetDisplayInfo,
) -> Option<u64> {
    match find_device(devices, t.device_path@) {
        Option::None => Option::None,
        Option::Some(d) => match find_record(records, d.device_name@) {
            Option::None => Option::None,
            Option::Some(r) => Option::Some(r.handle),
        },
    }
}

fn lookup_device(devices: &Vec<DeviceIdentity>, path: &Vec<u16>) -> (r: Option<usize>)
    ensures
        match r {
            Option::Some(i) => i < devices@.len() && find_device(devices@, path@)
                == Option::Some(devices@[i as int]),
            Option::None => find_device(devices@, path@) is None,
        },
{
    let mut i: usize = 0;
    proof {
        assert(devices@.skip(0) =~= devices@);
    }
    while i < devices.len()
        invariant
            i <= devices@.len(),
            find_device(devices@, path@) == find_device(devices@.skip(i as int), path@),
        decreases devices@.len() - i,
    {
        if wide_eq(&devices[i].device_id, path) {
            proof {
                assert(devices@.skip(i as int).first() == devices@[i as int]);
            }
            return Option::Some(i);
        }
        proof {
            assert(devices@.skip(i as int).drop_first() =~= devices@.skip(i as int + 1));
        }
        i = i + 1;
    }
    Option::None
}

fn lookup_record(records: &Vec<PhysicalMonitorRecord>, name: &Vec<u16>) -> (r: Option<usize>)
    ensures
        match r {
            Option::Some(i) => i < records@.len() && find_record(records@, name@)
                == Option::Some(records@[i as int]),
            Option::None => find_record(records@, name@) is None,
        },
{
    let mut i: usize = 0;
    proof {
        assert(records@.skip(0) =~= records@);
    }
    while i < records.len()
        invariant
            i <= records@.len(),
            find_record(records@, name@) == find_record(records@.skip(i as int), name@),
        decreases records@.len() - i,
    {
        if wide_name_matches(name, &records[i].device_name) {
            proof {
                assert(records@.skip(i as int).first() == records@[i as int]);
            }
            return Option::Some(i);
        }
        proof {
            assert(records@.skip(i as int).drop_first() =~= records@.skip(i as int + 1));
        }
        i = i + 1;
    }
    Option::None
}

/// The result of a full correlation pass: the monitors that resolved, in
/// target order, and the 1-based ids of the targets that did not.
#[derive(Debug)]
pub struct ResolveOutcome {
    pub monitors: Vec<Monitor>,
    pub unresolved: Vec<i32>,
}

/// The expected outcome of a correlation pass over `targets`: for each
/// target, in order, either a monitor image carrying its 1-based position,
/// its friendly name and the handle it resolves to, or its position among
/// the unresolved ids.
pub open spec fn resolution(
    devices: Seq<DeviceIdentity>,
    records: Seq<PhysicalMonitorRecord>,
    targets: Seq<TargetDisplayInfo>,
) -> (Seq<MonitorView>, Seq<int>)
    decreases targets.len(),
{
    if targets.len() == 0 {
        (Seq::empty(), Seq::empty())
    } else {
        let prev = resolution(devices, records, targets.drop_last());
        let t = targets.last();
        let id = targets.len() as int;
        match target_resolution(devices, records, t) {
            Option::Some(h) => (
                prev.0.push(MonitorView { id: id, name: t.friendly_name@, handle: h }),
                prev.1,
            ),
            Option::None => (prev.0, prev.1.push(id)),
        }
    }
}

/// Resolves the current display topology from the three enumerations:
/// each target is joined through the device directory to the first
/// physical-monitor record whose legacy name is a prefix of its resolved
/// legacy name. A target that fails either lookup lands among the
/// unresolved ids instead of hiding the other monitors.
pub fn get_monitors(
    devices: &Vec<DeviceIdentity>,
    targets: &Vec<TargetDisplayInfo>,
    records: &Vec<PhysicalMonitorRecord>,
) -> (out: ResolveOutcome)
    requires
        targets@.len() <= 0x7fff_ffff,
    ensures
        monitor_views(out.monitors@) == resolution(devices@, records@, targets@).0,
        int_ids(out.unresolved@) == resolution(devices@, records@, targets@).1,
{
    let mut monitors: Vec<Monitor> = Vec::new();
    let mut unresolved: Vec<i32> = Vec::new();
    let mut i: usize = 0;
    proof {
        assert(targets@.take(0) =~= Seq::<TargetDisplayInfo>::empty());
        assert(monitor_views(monitors@) =~= resolution(devices@, records@, targets@.take(0)).0);
        assert(int_ids(unresolved@) =~= resolution(devices@, records@, targets@.take(0)).1);
    }
    while i < targets.len()
        invariant
            targets@.len() <= 0x7fff_ffff,
            i <= targets@.len(),
            monitor_views(monitors@) == resolution(devices@, records@, targets@.take(i as int)).0,
            int_ids(unresolved@) == resolution(devices@, records@, targets@.take(i as int)).1,
        decreases targets@.len() - i,
    {
        let id: i32 = (i + 1) as i32;
        let t = &targets[i];
        let mut resolved: Option<u64> = Option::None;
        match lookup_device(devices, &t.device_path) {
            Option::None => {},
            Option::Some(di) => {
                match lookup_record(records, &devices[di].device_name) {
                    Option::None => {},
                    Option::Some(ri) => {
                        resolved = Option::Some(records[ri].handle);
                    },
                }
            },
        }
        proof {
            assert(resolved == target_resolution(devices@, records@, targets@[i as int]));
        }
        match resolved {
            Option::Some(h) => {
                monitors.push(Monitor { id: id, name: t.friendly_name.clone(), handle: h });
            },
            Option::None => {
                unresolved.push(id);
            },
        }
        i = i + 1;
        proof {
            let tk = targets@.take(i as int);
            assert(tk.drop_last() =~= targets@.take(i as int - 1));
            assert(tk.last() == targets@[i as int - 1]);
            assert(monitor_views(monitors@) =~= resolution(devices@, records@, tk).0);
            assert(int_ids(unresolved@) =~= resolution(devices@, records@, tk).1);
        }
    }
    proof {
        assert(targets@.take(targets@.len() as int) =~= targets@);
    }
    ResolveOutcome { monitors, unresolved }
}

/// The feature-write a power-mode change must issue: which handle, which
/// VCP feature, and which raw value.
#[derive(Debug)]
pub struct VcpWriteRequest {
    pub handle: u64,
    pub feature: u8,
    pub value: u32,
}

impl Monitor {
    pub fn id(&self) -> (r: i32)
        ensures
            r == self.id,
    {
        self.id
    }

    pub fn name(&self) -> (r: &str)
        ensures
            r@ == self.name@,
    {
        self.name.as_str()
    }

    pub fn handle(&self) -> (r: u64)
        ensures
            r == self.handle,
    {
        self.handle
    }

    /// Decodes a raw power-mode reply read from this monitor's handle.
    pub fn power_mode(&self, reply: u32) -> (r: Result<PowerMode, MonitorError>)
        ensures
            r == vcp_decode(reply),
    {
        PowerMode::from_vcp_code(reply)
    }

    /// The feature-write that sets this monitor to `mode`. No read-back
    /// verification is planned; the caller maps the OS success flag with
    /// `power_write_result`.
    pub fn set_power_mode(&self, mode: PowerMode) -> (r: VcpWriteRequest)
        ensures
            r.handle == self.handle,
            r.feature == VCP_POWER_MODE,
            r.value == vcp_encode(mode),
    {
        VcpWriteRequest { handle: self.handle, feature: VCP_POWER_MODE, value: mode.vcp_code() }
    }
}

/// Chooses the feature-write for a set-power request: the first monitor
/// whose id matches gets the write; an id absent from the resolution yields
/// nothing, so no hardware call is ever attempted for it.
pub fn plan_set_power(monitors: &Vec<Monitor>, id: i32, mode: PowerMode) -> (r: Option<
    VcpWriteRequest,
>)
    ensures
        match r {
            Option::Some(req) => {
                &&& req.feature == VCP_POWER_MODE
                &&& req.value == vcp_encode(mode)
                &&& exists|i: int|
                    0 <= i < monitors@.len() && (#[trigger] monitors@[i]).id == id
                        && req.handle == monitors@[i].handle && (forall|j: int|
                        0 <= j < i ==> monitors@[j].id != id)
            },
            Option::None => forall|i: int|
                0 <= i < monitors@.len() ==> (#[trigger] monitors@[i]).id != id,
        },
{
    let mut i: usize = 0;
    while i < monitors.len()
        invariant
            i <= monitors@.len(),
            forall|j: int| 0 <= j < i ==> (#[trigger] monitors@[j]).id != id,
        decreases monitors@.len() - i,
    {
        if monitors[i].id == id {
            return Option::Some(monitors[i].set_power_mode(mode));
        }
        i = i + 1;
    }
    Option::None
}

/// One row of the list-monitors reply.
#[derive(Debug)]
pub struct MonitorStatus {
    pub id: i32,
    pub name: String,
    pub power_mode: PowerMode,
}

/// Builds the list-monitors reply from a resolution and the raw power-mode
/// reply read for each monitor, in order. The first unrecognized reply
/// turns the whole read into an error instead of a crash.
pub fn monitor_statuses(monitors: &Vec<Monitor>, replies: &Vec<u32>) -> (r: Result<
    Vec<MonitorStatus>,
    MonitorError,
>)
    requires
        monitors@.len() == replies@.len(),
    ensures
        match r {
            Result::Ok(sts) => {
                &&& sts@.len() == monitors@.len()
                &&& forall|i: int|
                    0 <= i < sts@.len() ==> (#[trigger] sts@[i]).id == monitors@[i].id
                &&& forall|i: int|
                    0 <= i < sts@.len() ==> (#[trigger] sts@[i]).name@ == monitors@[i].name@
                &&& forall|i: int|
                    0 <= i < sts@.len() ==> Result::<PowerMode, MonitorError>::Ok(
                        (#[trigger] sts@[i]).power_mode,
                    ) == vcp_decode(replies@[i])
            },
            Result::Err(e) => exists|i: int|
                0 <= i < replies@.len() && !recognized_power_reply(#[trigger] replies@[i]) && e == MonitorError::UnrecognizedPowerMode(replies@[i]) && (forall|j: int|
                    0 <= j < i ==> recognized_power_reply(replies@[j])),
        },
{
    let mut out: Vec<MonitorStatus> = Vec::new();
    let mut i: usize = 0;
    while i < monitors.len()
        invariant
            monitors@.len() == replies@.len(),
            i <= monitors@.len(),
            out@.len() == i,
            forall|k: int| 0 <= k < i ==> (#[trigger] out@[k]).id == monitors@[k].id,
            forall|k: int| 0 <= k < i ==> (#[trigger] out@[k]).name@ == monitors@[k].name@,
            forall|k: int|
                0 <= k < i ==> Result::<PowerMode, MonitorError>::Ok(
                    (#[trigger] out@[k]).power_mode,
                ) == vcp_decode(replies@[k]),
        decreases monitors@.len() - i,
    {
        match PowerMode::from_vcp_code(replies[i]) {
            Result::Ok(mode) => {
                out.push(
                    MonitorStatus {
                        id: monitors[i].id,
                        name: monitors[i].name.clone(),
                        power_mode: mode,
                    },
                );
            },
            Result::Err(e) => {
                proof {
                    assert forall|j: int|
                        0 <= j < i implies recognized_power_reply(replies@[j]) by {
                        assert(Result::<PowerMode, MonitorError>::Ok(out@[j].power_mode)
                            == vcp_decode(replies@[j]));
                    }
                }
                return Result::Err(e);
            },
        }
        i = i + 1;
    }
    Result::Ok(out)
}

/// Mode-entry kind tag of a display target (as opposed to a source).
pub const MODE_INFO_TYPE_TARGET: u32 = 2;

/// One entry of the display-configuration mode buffer, reduced to what the
/// reader consumes: its kind tag and the ids a device-info query needs.
#[derive(Copy, Clone, Debug)]
pub struct ModeEntry {
    pub info_type: u32,
    pub adapter_id: u64,
    pub target_id: u32,
}

/// The (adapter id, target id) pairs of the target-kind entries, in order.
pub open spec fn target_modes(modes: Seq<ModeEntry>) -> Seq<(u64, u32)>
    decreases modes.len(),
{
    if modes.len() == 0 {
        Seq::empty()
    } else {
        let prev = target_modes(modes.drop_last());
        let m = modes.last();
        if m.info_type == MODE_INFO_TYPE_TARGET {
            prev.push((m.adapter_id, m.target_id))
        } else {
            prev
        }
    }
}

/// Selects, from the mode buffer, the device-info queries the topology
/// reader must issue: one per target-kind entry, source entries skipped.
pub fn target_queries(modes: &Vec<ModeEntry>) -> (r: Vec<(u64, u32)>)
    ensures
        r@ == target_modes(modes@),
{
    let mut out: Vec<(u64, u32)> = Vec::new();
    let mut i: usize = 0;
    proof {
        assert(modes@.take(0) =~= Seq::<ModeEntry>::empty());
        assert(out@ =~= target_modes(modes@.take(0)));
    }
    while i < modes.len()
        invariant
            i <= modes@.len(),
            out@ == target_modes(modes@.take(i as int)),
        decreases modes@.len() - i,
    {
        let m = modes[i];
        if m.info_type == MODE_INFO_TYPE_TARGET {
            out.push((m.adapter_id, m.target_id));
        }
        i = i + 1;
        proof {
            let tk = modes@.take(i as int);
            assert(tk.drop_last() =~= modes@.take(i as int - 1));
            assert(tk.last() == modes@[i as int - 1]);
            assert(out@ =~= target_modes(tk));
        }
    }
    proof {
        assert(modes@.take(modes@.len() as int) =~= modes@);
    }
    out
}

/// When every target resolves, the pass yields one monitor per target:
/// ids are exactly 1..=N in target order, with no gaps, no duplicates and
/// nothing unresolved, each monitor carrying its target's friendly name
/// and resolved handle.
pub proof fn lemma_resolution_complete(
    devices: Seq<DeviceIdentity>,
    records: Seq<PhysicalMonitorRecord>,
    targets: Seq<TargetDisplayInfo>,
)
    requires
        forall|i: int|
            0 <= i < targets.len() ==> target_resolution(devices, records, #[trigger] targets[i])
                is Some,
    ensures
        ({
            let r = resolution(devices, records, targets);
            &&& r.0.len() == targets.len()
            &&& r.1.len() == 0
            &&& forall|k: int| 0 <= k < targets.len() ==> (#[trigger] r.0[k]).id == k + 1
            &&& forall|k: int|
                0 <= k < targets.len() ==> (#[trigger] r.0[k]).name == targets[k].friendly_name@
            &&& forall|k: int|
                0 <= k < targets.len() ==> (#[trigger] r.0[k]).handle == target_resolution(
                    devices,
                    records,
                    targets[k],
                ).unwrap()
        }),
    decreases targets.len(),
{
    if targets.len() == 0 {
    } else {
        assert forall|i: int|
            0 <= i < targets.drop_last().len() implies target_resolution(
            devices,
            records,
            #[trigger] targets.drop_last()[i],
        ) is Some by {
            assert(targets.drop_last()[i] == targets[i]);
        }
        lemma_resolution_complete(devices, records, targets.drop_last());
    }
}

/// Ids are assigned strictly by target order, whether or not every target
/// resolved: every monitor id and every unresolved id lies in 1..=N for N
/// targets, both sequences are strictly increasing, and a monitor id never
/// reappears among the unresolved ids.
pub proof fn lemma_resolution_ids_ordered(
    devices: Seq<DeviceIdentity>,
    records: Seq<PhysicalMonitorRecord>,
    targets: Seq<TargetDisplayInfo>,
)
    ensures
        ({
            let r = resolution(devices, records, targets);
            &&& forall|k: int| 0 <= k < r.0.len() ==> 1 <= (#[trigger] r.0[k]).id <= targets.len()
            &&& forall|k: int| 0 <= k < r.1.len() ==> 1 <= #[trigger] r.1[k] <= targets.len()
            &&& forall|k1: int, k2: int|
                0 <= k1 < k2 < r.0.len() ==> (#[trigger] r.0[k1]).id < (#[trigger] r.0[k2]).id
            &&& forall|k1: int, k2: int|
                0 <= k1 < k2 < r.1.len() ==> #[trigger] r.1[k1] < #[trigger] r.1[k2]
            &&& forall|k1: int, k2: int|
                0 <= k1 < r.0.len() && 0 <= k2 < r.1.len() ==> (#[trigger] r.0[k1]).id
                    != #[trigger] r.1[k2]
        }),
    decreases targets.len(),
{
    if targets.len() == 0 {
    } else {
        lemma_resolution_ids_ordered(devices, records, targets.drop_last());
        let prev = resolution(devices, records, targets.drop_last());
        let r = resolution(devices, records, targets);
        let t = targets.last();
        let id = targets.len() as int;
        if target_resolution(devices, records, t) is Some {
            assert(r.0 == prev.0.push(
                MonitorView {
                    id: id,
                    name: t.friendly_name@,
                    handle: target_resolution(devices, records, t).unwrap(),
                },
            ));
            assert(r.1 == prev.1);
            assert(r.0[r.0.len() - 1].id == id);
            assert(forall|k: int| 0 <= k < prev.0.len() ==> r.0[k] == prev.0[k]);
        } else {
            assert(r.0 == prev.0);
            assert(r.1 == prev.1.push(id));
            assert(r.1[r.1.len() - 1] == id);
            assert(forall|k: int| 0 <= k < prev.1.len() ==> r.1[k] == prev.1[k]);
        }
    }
}

/// Correlation is deterministic: two outcomes of the same three
/// enumerations agree on every observable of every monitor and on the
/// unresolved ids.
pub proof fn lemma_resolution_deterministic(
    devices: Seq<DeviceIdentity>,
    records: Seq<PhysicalMonitorRecord>,
    targets: Seq<TargetDisplayInfo>,
    a: ResolveOutcome,
    b: ResolveOutcome,
)
    requires
        monitor_views(a.monitors@) == resolution(devices, records, targets).0,
        int_ids(a.unresolved@) == resolution(devices, records, targets).1,
        monitor_views(b.monitors@) == resolution(devices, records, targets).0,
        int_ids(b.unresolved@) == resolution(devices, records, targets).1,
    ensures
        a.monitors@.len() == b.monitors@.len(),
        forall|k: int|
            0 <= k < a.monitors@.len() ==> (#[trigger] a.monitors@[k]).id == b.monitors@[k].id,
        forall|k: int|
            0 <= k < a.monitors@.len() ==> (#[trigger] a.monitors@[k]).name@ == b.monitors@[k].name@,
        forall|k: int|
            0 <= k < a.monitors@.len() ==> (#[trigger] a.monitors@[k]).handle
                == b.monitors@[k].handle,
        a.unresolved@ =~= b.unresolved@,
{
    assert(a.monitors@.len() == monitor_views(a.monitors@).len());
    assert(b.monitors@.len() == monitor_views(b.monitors@).len());
    assert forall|k: int|
        0 <= k < a.monitors@.len() implies (#[trigger] a.monitors@[k]).id == b.monitors@[k].id
        && a.monitors@[k].name@ == b.monitors@[k].name@ && a.monitors@[k].handle
        == b.monitors@[k].handle by {
        assert(monitor_views(a.monitors@)[k] == a.monitors@[k]@);
        assert(monitor_views(b.monitors@)[k] == b.monitors@[k]@);
        assert(monitor_views(a.monitors@)[k] == monitor_views(b.monitors@)[k]);
        assert(a.monitors@[k]@ == b.monitors@[k]@);
    }
    assert(a.unresolved@.len() == int_ids(a.unresolved@).len());
    assert forall|k: int| 0 <= k < a.unresolved@.len() implies a.unresolved@[k]
        == b.unresolved@[k] by {
        assert(int_ids(a.unresolved@)[k] == a.unresolved@[k] as int);
        assert(int_ids(b.unresolved@)[k] == b.unresolved@[k] as int);
        assert(int_ids(a.unresolved@)[k] == int_ids(b.unresolved@)[k]);
    }
}

} // verus!
