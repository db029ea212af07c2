//! Readiness of a connected controller for a guarded test jog, decided from
//! the selected hardware profile, the read-only device inspection and the
//! latest polled snapshot.
use vstd::prelude::*;

use crate::controller::{
    stable_idle, ConnectionState, ControllerSnapshot, HardwareProfile, ReadinessCheck,
    ReadinessLevel, ReadinessReport, SpindleControl,
};
use crate::grbl::{string_views, CommandCompletion, CommandResponse, DeviceInspection};
use crate::text::{chars_eq_str, chars_of, join, push_chars, push_str, string_from_chars, views};
use crate::word::{canonical, dec_nonzero, parse_decimal, parse_decimal_at, DecimalV};

verus! {

// ---------------------------------------------------------------------------
// Views
// ---------------------------------------------------------------------------

/// Mathematical view of a [`ReadinessCheck`].
pub struct CheckV {
    pub id: Seq<char>,
    pub level: ReadinessLevel,
    pub title: Seq<char>,
    pub detail: Seq<char>,
    pub evidence: Option<Seq<char>>,
}

impl View for ReadinessCheck {
    type V = CheckV;

    open spec fn view(&self) -> CheckV {
        CheckV {
            id: self.id@,
            level: self.level,
            title: self.title@,
            detail: self.detail@,
            evidence: match self.evidence {
                Some(e) => Some(e@),
                None => None,
            },
        }
    }
}

/// Mathematical view of a [`HardwareProfile`].
pub struct ProfileV {
    pub name: Seq<char>,
    pub axes: Seq<Seq<char>>,
    pub spindle_control: SpindleControl,
    pub homing_installed: bool,
    pub limit_switches_installed: bool,
    pub probe_installed: bool,
    pub emergency_stop_installed: bool,
}

impl View for HardwareProfile {
    type V = ProfileV;

    open spec fn view(&self) -> ProfileV {
        ProfileV {
            name: self.name@,
            axes: string_views(self.axes@),
            spindle_control: self.spindle_control,
            homing_installed: self.homing_installed,
            limit_switches_installed: self.limit_switches_installed,
            probe_installed: self.probe_installed,
            emergency_stop_installed: self.emergency_stop_installed,
        }
    }
}

pub open spec fn checks_view(v: Seq<ReadinessCheck>) -> Seq<CheckV> {
    v.map_values(|c: ReadinessCheck| c@)
}

/// Mathematical view of a [`ReadinessReport`].
pub struct ReportV {
    pub profile: ProfileV,
    pub test_jog_ready: bool,
    pub probe_ready: bool,
    pub blocker_count: nat,
    pub caution_count: nat,
    pub checks: Seq<CheckV>,
}

impl View for ReadinessReport {
    type V = ReportV;

    open spec fn view(&self) -> ReportV {
        ReportV {
            profile: self.profile@,
            test_jog_ready: self.test_jog_ready,
            probe_ready: self.probe_ready,
            blocker_count: self.blocker_count as nat,
            caution_count: self.caution_count as nat,
            checks: checks_view(self.checks@),
        }
    }
}

// ---------------------------------------------------------------------------
// Reading the inspection
// ---------------------------------------------------------------------------

/// A `0`/`1` setting; anything else, or a missing key, reads as unknown.
pub open spec fn binary_setting(s: Map<Seq<char>, Seq<char>>, key: Seq<char>) -> Option<bool> {
    if s.contains_key(key) && s[key] == "0"@ {
        Some(false)
    } else if s.contains_key(key) && s[key] == "1"@ {
        Some(true)
    } else {
        None
    }
}

pub open spec fn binary_label(v: Option<bool>) -> Seq<char> {
    match v {
        Some(false) => "0"@,
        Some(true) => "1"@,
        None => "missing"@,
    }
}

/// A setting that holds a positive number.
pub open spec fn positive_setting(s: Map<Seq<char>, Seq<char>>, key: Seq<char>) -> Option<DecimalV> {
    if s.contains_key(key) {
        match parse_decimal(s[key]) {
            Some(d) => if !d.negative && dec_nonzero(d) {
                Some(d)
            } else {
                None
            },
            None => None,
        }
    } else {
        None
    }
}

pub open spec fn has_modal(modal: Seq<Seq<char>>, code: Seq<char>) -> bool {
    modal.contains(code)
}

pub open spec fn check_v(
    id: Seq<char>,
    level: ReadinessLevel,
    title: Seq<char>,
    detail: Seq<char>,
    evidence: Option<Seq<char>>,
) -> CheckV {
    CheckV { id, level, title, detail, evidence }
}

pub open spec fn pass_or_block(ok: bool) -> ReadinessLevel {
    if ok {
        ReadinessLevel::Pass
    } else {
        ReadinessLevel::Blocker
    }
}

// ---------------------------------------------------------------------------
// The checks
// ---------------------------------------------------------------------------

pub open spec fn connection_label(c: ConnectionState) -> Seq<char> {
    match c {
        ConnectionState::Disconnected => "Disconnected"@,
        ConnectionState::Connecting => "Connecting"@,
        ConnectionState::Connected => "Connected"@,
    }
}

/// The controller must be connected, idle, and without alarm or reset notice.
pub open spec fn controller_state_check(s: &ControllerSnapshot) -> CheckV {
    let ready = stable_idle(s);
    check_v(
        "controller-state"@,
        pass_or_block(ready),
        "Controller state"@,
        if ready {
            "Connected and idle"@
        } else {
            "A stable Idle state without alarm or reset notice is required"@
        },
        Some("connection="@ + connection_label(s.connection) + ", mode="@ + s.machine.reported_mode@),
    )
}

/// The query succeeded: one of its responses completed with `ok`.
pub open spec fn query_ok(rs: Seq<CommandResponse>, q: Seq<char>) -> bool {
    exists|i: int|
        0 <= i < rs.len() && (#[trigger] rs[i]).command@ == q && rs[i].completion
            == CommandCompletion::Acknowledged
}

pub open spec fn expected_queries() -> Seq<Seq<char>> {
    seq!["$I"@, "$$"@, "$G"@, "$#"@]
}

/// The expected queries that did not succeed, in order.
pub open spec fn failed_queries(rs: Seq<CommandResponse>) -> Seq<Seq<char>> {
    expected_queries().filter(|q: Seq<char>| !query_ok(rs, q))
}

/// All four read-only queries must have completed.
pub open spec fn query_integrity_check(rs: Seq<CommandResponse>) -> CheckV {
    let failed = failed_queries(rs);
    let ok = failed.len() == 0;
    check_v(
        "inspection-queries"@,
        pass_or_block(ok),
        "Read-only inspection"@,
        if ok {
            "All controller queries completed"@
        } else {
            "One or more controller queries are missing or failed"@
        },
        Some(
            if ok {
                join(expected_queries(), seq![' '])
            } else {
                "failed: "@ + join(failed, seq![' '])
            },
        ),
    )
}

/// The firmware must have identified itself.
pub open spec fn firmware_check(version: Option<Seq<char>>) -> CheckV {
    check_v(
        "firmware"@,
        pass_or_block(version is Some),
        "GRBL firmware"@,
        if version is Some {
            "Firmware identity received"@
        } else {
            "Firmware identity is unavailable"@
        },
        version,
    )
}

/// `X=250`, or `X=missing` when the setting is not a positive number.
pub open spec fn axis_value(s: Map<Seq<char>, Seq<char>>, prefix: Seq<char>, axis: char, suffix: char) -> Seq<char> {
    seq![axis, '='] + match positive_setting(s, prefix.push(suffix)) {
        Some(d) => canonical(d),
        None => "missing"@,
    }
}

/// The X, Y and Z values of one setting group must all be positive.
pub open spec fn axis_check(
    s: Map<Seq<char>, Seq<char>>,
    id: Seq<char>,
    title: Seq<char>,
    prefix: Seq<char>,
    unit: Seq<char>,
) -> CheckV {
    let valid = positive_setting(s, prefix.push('0')) is Some && positive_setting(s, prefix.push('1')) is Some
        && positive_setting(s, prefix.push('2')) is Some;
    check_v(
        id,
        pass_or_block(valid),
        title,
        if valid {
            "All XYZ values are finite and positive"@
        } else {
            "Valid values are required for every XYZ axis"@
        },
        Some(
            axis_value(s, prefix, 'X', '0') + " · "@ + axis_value(s, prefix, 'Y', '1') + " · "@
                + axis_value(s, prefix, 'Z', '2') + " "@ + unit,
        ),
    )
}

/// Homing or limit settings enabled on hardware that has no switches.
pub open spec fn unhomed_contradiction(p: ProfileV, s: Map<Seq<char>, Seq<char>>) -> bool {
    (!p.homing_installed && binary_setting(s, "$22"@) != Some(false)) || (!p.limit_switches_installed
        && binary_setting(s, "$21"@) != Some(false)) || (!p.homing_installed && binary_setting(
        s,
        "$20"@,
    ) != Some(false))
}

/// Without homing the coordinates are never a verified envelope: a caution,
/// or a blocker when the settings contradict the profile.
pub open spec fn unhomed_check(p: ProfileV, s: Map<Seq<char>, Seq<char>>) -> CheckV {
    let bad = unhomed_contradiction(p, s);
    check_v(
        "unhomed-operation"@,
        if bad {
            ReadinessLevel::Blocker
        } else {
            ReadinessLevel::Caution
        },
        "Unhomed operation"@,
        if bad {
            "Limit or homing settings contradict the selected hardware profile"@
        } else {
            "Coordinates are not a verified physical envelope"@
        },
        Some(
            "$20="@ + binary_label(binary_setting(s, "$20"@)) + " · $21="@ + binary_label(
                binary_setting(s, "$21"@),
            ) + " · $22="@ + binary_label(binary_setting(s, "$22"@)),
        ),
    )
}

/// Laser mode `$32` must be off.
pub open spec fn milling_check(s: Map<Seq<char>, Seq<char>>) -> CheckV {
    let ok = binary_setting(s, "$32"@) == Some(false);
    check_v(
        "milling-mode"@,
        pass_or_block(ok),
        "Milling mode"@,
        if ok {
            "Laser mode is disabled"@
        } else {
            "$32 must be 0 for the milling profile"@
        },
        Some("$32="@ + binary_label(binary_setting(s, "$32"@))),
    )
}

/// Millimetres are required; incremental distance is a caution.
pub open spec fn modal_units_check(modal: Seq<Seq<char>>) -> CheckV {
    let mm = has_modal(modal, "G21"@);
    let inc = has_modal(modal, "G91"@);
    check_v(
        "modal-units"@,
        if !mm {
            ReadinessLevel::Blocker
        } else if inc {
            ReadinessLevel::Caution
        } else {
            ReadinessLevel::Pass
        },
        "Modal units"@,
        if !mm {
            "Millimetre mode G21 is required for the first test"@
        } else if inc {
            "G91 is active; a future jog must declare its own units and distance mode"@
        } else {
            "Millimetres and absolute mode are active"@
        },
        Some(join(modal, seq![' '])),
    )
}

/// The spindle must be reported stopped; a manual spindle is a caution.
pub open spec fn spindle_check(p: ProfileV, modal: Seq<Seq<char>>) -> CheckV {
    let stopped = has_modal(modal, "M5"@);
    let manual = p.spindle_control == SpindleControl::Manual;
    check_v(
        "spindle"@,
        if !stopped {
            ReadinessLevel::Blocker
        } else if manual {
            ReadinessLevel::Caution
        } else {
            ReadinessLevel::Pass
        },
        "Spindle workflow"@,
        if !stopped {
            "The controller modal state must report M5"@
        } else if manual {
            "The operator must keep the physical spindle switched off during test jog"@
        } else {
            "The controller reports spindle stop"@
        },
        Some(
            if manual {
                "manual spindle · M5"@
            } else {
                "controller spindle · M5"@
            },
        ),
    )
}

pub open spec fn bool_label(b: bool) -> Seq<char> {
    if b {
        "true"@
    } else {
        "false"@
    }
}

/// The last probe result, or `missing`.
pub open spec fn last_probe(params: Map<Seq<char>, Seq<char>>) -> Seq<char> {
    if params.contains_key("PRB"@) {
        params["PRB"@]
    } else {
        "missing"@
    }
}

/// An installed probe needs its polarity setting and a probe record; probe
/// polarity itself is never cleared here, so the best outcome is a caution.
pub open spec fn probe_check(
    p: ProfileV,
    s: Map<Seq<char>, Seq<char>>,
    params: Map<Seq<char>, Seq<char>>,
) -> CheckV {
    let invert = binary_setting(s, "$6"@);
    let prb = last_probe(params);
    let known = invert is Some && prb != "missing"@;
    check_v(
        "probe-input"@,
        if !p.probe_installed || known {
            ReadinessLevel::Caution
        } else {
            ReadinessLevel::Blocker
        },
        "Probe input"@,
        if !p.probe_installed {
            "No probe is declared in the selected machine profile"@
        } else if known {
            "Electrical polarity still requires a dedicated stationary probe test"@
        } else {
            "Probe configuration or state is unavailable"@
        },
        Some(
            "installed="@ + bool_label(p.probe_installed) + " · $6="@ + binary_label(invert)
                + " · PRB="@ + prb,
        ),
    )
}

/// A missing emergency stop is a caution.
pub open spec fn emergency_stop_check(p: ProfileV) -> CheckV {
    check_v(
        "emergency-stop"@,
        if p.emergency_stop_installed {
            ReadinessLevel::Pass
        } else {
            ReadinessLevel::Caution
        },
        "Emergency stop"@,
        if p.emergency_stop_installed {
            "Physical emergency stop is present"@
        } else {
            "No physical emergency stop is installed"@
        },
        None,
    )
}

/// The checks, in the order the report lists them.
pub open spec fn readiness_checks(
    p: ProfileV,
    inspection: &DeviceInspection,
    snapshot: &ControllerSnapshot,
) -> Seq<CheckV> {
    let s = inspection@.settings;
    let modal = inspection@.modal_state;
    seq![
        controller_state_check(snapshot),
        query_integrity_check(inspection.responses@),
        firmware_check(inspection@.firmware_version),
        axis_check(s, "axis-steps"@, "Axis calibration"@, "$10"@, "steps/mm"@),
        axis_check(s, "axis-rates"@, "Maximum axis rates"@, "$11"@, "mm/min"@),
        axis_check(s, "axis-acceleration"@, "Axis acceleration"@, "$12"@, "mm/s^2"@),
        axis_check(s, "axis-travel"@, "Configured travel"@, "$13"@, "mm"@),
        unhomed_check(p, s),
        milling_check(s),
        modal_units_check(modal),
        spindle_check(p, modal),
        probe_check(p, s, inspection@.parameters),
        emergency_stop_check(p),
    ]
}

/// How many checks have the given level.
pub open spec fn level_count(cs: Seq<CheckV>, l: ReadinessLevel) -> nat
    decreases cs.len(),
{
    if cs.len() == 0 {
        0
    } else {
        level_count(cs.drop_last(), l) + if cs.last().level == l {
            1nat
        } else {
            0nat
        }
    }
}


// ---------------------------------------------------------------------------
// Executable checks
// ---------------------------------------------------------------------------

fn make_check(
    id: &str,
    level: ReadinessLevel,
    title: &str,
    detail: &str,
    evidence: Option<String>,
) -> (r: ReadinessCheck)
    ensures
        r@ == check_v(
            id@,
            level,
            title@,
            detail@,
            match evidence {
                Some(e) => Some(e@),
                None => None,
            },
        ),
{
    ReadinessCheck {
        id: id.to_owned(),
        level,
        title: title.to_owned(),
        detail: detail.to_owned(),
        evidence,
    }
}

fn binary_setting_exec(inspection: &DeviceInspection, key: &str) -> (r: Option<bool>)
    requires
        inspection.settings.wf(),
    ensures
        r == binary_setting(inspection@.settings, key@),
{
    match inspection.settings.get(key) {
        Some(v) => {
            let zero = "0".to_owned();
            let one = "1".to_owned();
            if v == zero {
                Some(false)
            } else if v == one {
                Some(true)
            } else {
                None
            }
        },
        None => None,
    }
}

fn binary_label_exec(v: Option<bool>) -> (r: &'static str)
    ensures
        r@ == binary_label(v),
{
    match v {
        Some(false) => "0",
        Some(true) => "1",
        None => "missing",
    }
}

fn has_modal_exec(inspection: &DeviceInspection, code: &str) -> (r: bool)
    ensures
        r == has_modal(inspection@.modal_state, code@),
{
    let ghost m = inspection@.modal_state;
    let target = code.to_owned();
    let mut i: usize = 0;
    while i < inspection.modal_state.len()
        invariant
            i <= inspection.modal_state@.len(),
            m == string_views(inspection.modal_state@),
            target@ == code@,
            forall|k: int| 0 <= k < i ==> m[k] != code@,
        decreases inspection.modal_state.len() - i,
    {
        if inspection.modal_state[i] == target {
            assert(m[i as int] == code@);
            return true;
        }
        i = i + 1;
    }
    proof {
        if m.contains(code@) {
            let k = choose|k: int| 0 <= k < m.len() && m[k] == code@;
            assert(m[k] != code@);
        }
    }
    false
}

/// The setting's text as a positive decimal, printed as `{}` prints it.
fn positive_setting_text(inspection: &DeviceInspection, key: &str) -> (r: Option<String>)
    requires
        inspection.settings.wf(),
    ensures
        match r {
            Some(t) => positive_setting(inspection@.settings, key@) matches Some(d) && t@ == canonical(d),
            None => positive_setting(inspection@.settings, key@) is None,
        },
{
    match inspection.settings.get(key) {
        Some(v) => {
            let cs = chars_of(v.as_str());
            assert(cs@.skip(0) =~= cs@);
            match parse_decimal_at(cs.as_slice(), 0) {
                Some(d) => {
                    if !d.negative && d.nonzero() {
                        let t = d.canonical_text();
                        Some(string_from_chars(t.as_slice()))
                    } else {
                        None
                    }
                },
                None => None,
            }
        },
        None => None,
    }
}

fn controller_state(snapshot: &ControllerSnapshot) -> (r: ReadinessCheck)
    ensures
        r@ == controller_state_check(snapshot),
{
    let ready = snapshot.is_stable_idle();
    let mut e = "connection=".to_owned();
    match snapshot.connection {
        ConnectionState::Disconnected => e.append("Disconnected"),
        ConnectionState::Connecting => e.append("Connecting"),
        ConnectionState::Connected => e.append("Connected"),
    }
    e.append(", mode=");
    e.append(snapshot.machine.reported_mode.as_str());
    make_check(
        "controller-state",
        if ready {
            ReadinessLevel::Pass
        } else {
            ReadinessLevel::Blocker
        },
        "Controller state",
        if ready {
            "Connected and idle"
        } else {
            "A stable Idle state without alarm or reset notice is required"
        },
        Some(e),
    )
}

fn query_ok_exec(rs: &Vec<CommandResponse>, q: &str) -> (r: bool)
    ensures
        r == query_ok(rs@, q@),
{
    let target = q.to_owned();
    let mut i: usize = 0;
    while i < rs.len()
        invariant
            i <= rs@.len(),
            target@ == q@,
            forall|k: int|
                0 <= k < i ==> !((#[trigger] rs@[k]).command@ == q@ && rs@[k].completion
                    == CommandCompletion::Acknowledged),
        decreases rs.len() - i,
    {
        let same = rs[i].command == target;
        match rs[i].completion {
            CommandCompletion::Acknowledged => {
                if same {
                    assert(rs@[i as int].command@ == q@);
                    return true;
                }
            },
            _ => {},
        }
        i = i + 1;
    }
    false
}

fn query_integrity(inspection: &DeviceInspection) -> (r: ReadinessCheck)
    ensures
        r@ == query_integrity_check(inspection.responses@),
{
    let ghost rs = inspection.responses@;
    let names: [&str; 4] = ["$I", "$$", "$G", "$#"];
    let mut failed: Vec<Vec<char>> = Vec::new();
    let mut i: usize = 0;
    while i < 4
        invariant
            i <= 4,
            rs == inspection.responses@,
            names@.len() == 4,
            forall|k: int| 0 <= k < 4 ==> (#[trigger] names@[k])@ == expected_queries()[k],
            views(failed@) == expected_queries().take(i as int).filter(|q: Seq<char>| !query_ok(rs, q)),
        decreases 4 - i,
    {
        let name = names[i];
        let ok = query_ok_exec(&inspection.responses, name);
        proof {
            reveal(Seq::filter);
            assert(expected_queries().take(i + 1).drop_last() =~= expected_queries().take(i as int));
        }
        if !ok {
            let ghost before = failed@;
            failed.push(chars_of(name));
            assert(views(failed@) =~= views(before).push(name@));
        }
        i = i + 1;
    }
    assert(expected_queries().take(4) =~= expected_queries());
    let all_ok = failed.len() == 0;
    let e = if all_ok {
        "$I $$ $G $#".to_owned()
    } else {
        let mut t: Vec<char> = Vec::new();
        push_str(&mut t, "failed: ");
        let j = crate::text::join_space(&failed);
        push_chars(&mut t, j.as_slice());
        string_from_chars(t.as_slice())
    };
    proof {
        reveal_with_fuel(join, 5);
        assert("$I $$ $G $#"@ =~= join(expected_queries(), seq![' '])) by {
            reveal_strlit("$I $$ $G $#");
            reveal_strlit("$I");
            reveal_strlit("$$");
            reveal_strlit("$G");
            reveal_strlit("$#");
        }
    }
    make_check(
        "inspection-queries",
        if all_ok {
            ReadinessLevel::Pass
        } else {
            ReadinessLevel::Blocker
        },
        "Read-only inspection",
        if all_ok {
            "All controller queries completed"
        } else {
            "One or more controller queries are missing or failed"
        },
        Some(e),
    )
}


fn firmware_identity(inspection: &DeviceInspection) -> (r: ReadinessCheck)
    ensures
        r@ == firmware_check(inspection@.firmware_version),
{
    let version = match &inspection.firmware_version {
        Some(v) => Some(v.clone()),
        None => None,
    };
    let known = version.is_some();
    make_check(
        "firmware",
        if known {
            ReadinessLevel::Pass
        } else {
            ReadinessLevel::Blocker
        },
        "GRBL firmware",
        if known {
            "Firmware identity received"
        } else {
            "Firmware identity is unavailable"
        },
        version,
    )
}

/// Appends `X=value` or `X=missing`; tells whether the value was positive.
fn push_axis_value(e: &mut String, inspection: &DeviceInspection, key: &str, axis: &str) -> (ok: bool)
    requires
        inspection.settings.wf(),
    ensures
        ok == (positive_setting(inspection@.settings, key@) is Some),
        final(e)@ == old(e)@ + axis@ + "="@ + match positive_setting(inspection@.settings, key@) {
            Some(d) => canonical(d),
            None => "missing"@,
        },
{
    e.append(axis);
    e.append("=");
    match positive_setting_text(inspection, key) {
        Some(t) => {
            e.append(t.as_str());
            true
        },
        None => {
            e.append("missing");
            false
        },
    }
}

fn axis_group(
    inspection: &DeviceInspection,
    id: &str,
    title: &str,
    prefix: &str,
    unit: &str,
) -> (r: ReadinessCheck)
    requires
        inspection.settings.wf(),
    ensures
        r@ == axis_check(inspection@.settings, id@, title@, prefix@, unit@),
{
    let mut k0 = prefix.to_owned();
    k0.append("0");
    let mut k1 = prefix.to_owned();
    k1.append("1");
    let mut k2 = prefix.to_owned();
    k2.append("2");
    proof {
        reveal_strlit("0");
        reveal_strlit("1");
        reveal_strlit("2");
        assert(k0@ =~= prefix@.push('0'));
        assert(k1@ =~= prefix@.push('1'));
        assert(k2@ =~= prefix@.push('2'));
    }
    let mut e = String::new();
    let x = push_axis_value(&mut e, inspection, k0.as_str(), "X");
    e.append(" · ");
    let y = push_axis_value(&mut e, inspection, k1.as_str(), "Y");
    e.append(" · ");
    let z = push_axis_value(&mut e, inspection, k2.as_str(), "Z");
    e.append(" ");
    e.append(unit);
    let valid = x && y && z;
    proof {
        reveal_strlit("X");
        reveal_strlit("Y");
        reveal_strlit("Z");
        reveal_strlit("=");
        let s = inspection@.settings;
        let pf = prefix@;
        assert(e@ =~= axis_value(s, pf, 'X', '0') + " · "@ + axis_value(s, pf, 'Y', '1') + " · "@
            + axis_value(s, pf, 'Z', '2') + " "@ + unit@);
    }
    make_check(
        id,
        if valid {
            ReadinessLevel::Pass
        } else {
            ReadinessLevel::Blocker
        },
        title,
        if valid {
            "All XYZ values are finite and positive"
        } else {
            "Valid values are required for every XYZ axis"
        },
        Some(e),
    )
}

fn unhomed_operation(profile: &HardwareProfile, inspection: &DeviceInspection) -> (r: ReadinessCheck)
    requires
        inspection.settings.wf(),
    ensures
        r@ == unhomed_check(profile@, inspection@.settings),
{
    let soft = binary_setting_exec(inspection, "$20");
    let hard = binary_setting_exec(inspection, "$21");
    let homing = binary_setting_exec(inspection, "$22");
    let bad = (!profile.homing_installed && homing != Some(false)) || (!profile.limit_switches_installed
        && hard != Some(false)) || (!profile.homing_installed && soft != Some(false));
    let mut e = "$20=".to_owned();
    e.append(binary_label_exec(soft));
    e.append(" · $21=");
    e.append(binary_label_exec(hard));
    e.append(" · $22=");
    e.append(binary_label_exec(homing));
    make_check(
        "unhomed-operation",
        if bad {
            ReadinessLevel::Blocker
        } else {
            ReadinessLevel::Caution
        },
        "Unhomed operation",
        if bad {
            "Limit or homing settings contradict the selected hardware profile"
        } else {
            "Coordinates are not a verified physical envelope"
        },
        Some(e),
    )
}

fn milling_mode(inspection: &DeviceInspection) -> (r: ReadinessCheck)
    requires
        inspection.settings.wf(),
    ensures
        r@ == milling_check(inspection@.settings),
{
    let laser = binary_setting_exec(inspection, "$32");
    let ok = laser == Some(false);
    let mut e = "$32=".to_owned();
    e.append(binary_label_exec(laser));
    make_check(
        "milling-mode",
        if ok {
            ReadinessLevel::Pass
        } else {
            ReadinessLevel::Blocker
        },
        "Milling mode",
        if ok {
            "Laser mode is disabled"
        } else {
            "$32 must be 0 for the milling profile"
        },
        Some(e),
    )
}

fn modal_units(inspection: &DeviceInspection) -> (r: ReadinessCheck)
    ensures
        r@ == modal_units_check(inspection@.modal_state),
{
    let mm = has_modal_exec(inspection, "G21");
    let inc = has_modal_exec(inspection, "G91");
    let mut parts: Vec<Vec<char>> = Vec::new();
    let mut i: usize = 0;
    while i < inspection.modal_state.len()
        invariant
            i <= inspection.modal_state@.len(),
            views(parts@) == string_views(inspection.modal_state@).take(i as int),
        decreases inspection.modal_state.len() - i,
    {
        let ghost before = parts@;
        parts.push(chars_of(inspection.modal_state[i].as_str()));
        assert(views(parts@) =~= views(before).push(inspection.modal_state@[i as int]@));
        assert(string_views(inspection.modal_state@).take(i + 1) =~= string_views(inspection.modal_state@).take(i as int).push(inspection.modal_state@[i as int]@));
        i = i + 1;
    }
    assert(string_views(inspection.modal_state@).take(i as int) =~= string_views(inspection.modal_state@));
    let j = crate::text::join_space(&parts);
    make_check(
        "modal-units",
        if !mm {
            ReadinessLevel::Blocker
        } else if inc {
            ReadinessLevel::Caution
        } else {
            ReadinessLevel::Pass
        },
        "Modal units",
        if !mm {
            "Millimetre mode G21 is required for the first test"
        } else if inc {
            "G91 is active; a future jog must declare its own units and distance mode"
        } else {
            "Millimetres and absolute mode are active"
        },
        Some(string_from_chars(j.as_slice())),
    )
}

fn spindle_state(profile: &HardwareProfile, inspection: &DeviceInspection) -> (r: ReadinessCheck)
    ensures
        r@ == spindle_check(profile@, inspection@.modal_state),
{
    let stopped = has_modal_exec(inspection, "M5");
    let manual = profile.spindle_control == SpindleControl::Manual;
    make_check(
        "spindle",
        if !stopped {
            ReadinessLevel::Blocker
        } else if manual {
            ReadinessLevel::Caution
        } else {
            ReadinessLevel::Pass
        },
        "Spindle workflow",
        if !stopped {
            "The controller modal state must report M5"
        } else if manual {
            "The operator must keep the physical spindle switched off during test jog"
        } else {
            "The controller reports spindle stop"
        },
        Some(
            if manual {
                "manual spindle · M5".to_owned()
            } else {
                "controller spindle · M5".to_owned()
            },
        ),
    )
}

fn probe_input(profile: &HardwareProfile, inspection: &DeviceInspection) -> (r: ReadinessCheck)
    requires
        inspection.settings.wf(),
        inspection.parameters.wf(),
    ensures
        r@ == probe_check(profile@, inspection@.settings, inspection@.parameters),
{
    let invert = binary_setting_exec(inspection, "$6");
    let prb = match inspection.parameters.get("PRB") {
        Some(v) => v,
        None => "missing".to_owned(),
    };
    let missing = "missing".to_owned();
    let known = invert.is_some() && !(prb == missing);
    let mut e = "installed=".to_owned();
    e.append(if profile.probe_installed { "true" } else { "false" });
    e.append(" · $6=");
    e.append(binary_label_exec(invert));
    e.append(" · PRB=");
    e.append(prb.as_str());
    make_check(
        "probe-input",
        if !profile.probe_installed || known {
            ReadinessLevel::Caution
        } else {
            ReadinessLevel::Blocker
        },
        "Probe input",
        if !profile.probe_installed {
            "No probe is declared in the selected machine profile"
        } else if known {
            "Electrical polarity still requires a dedicated stationary probe test"
        } else {
            "Probe configuration or state is unavailable"
        },
        Some(e),
    )
}

fn emergency_stop(profile: &HardwareProfile) -> (r: ReadinessCheck)
    ensures
        r@ == emergency_stop_check(profile@),
{
    make_check(
        "emergency-stop",
        if profile.emergency_stop_installed {
            ReadinessLevel::Pass
        } else {
            ReadinessLevel::Caution
        },
        "Emergency stop",
        if profile.emergency_stop_installed {
            "Physical emergency stop is present"
        } else {
            "No physical emergency stop is installed"
        },
        None,
    )
}


fn copy_profile(p: &HardwareProfile) -> (r: HardwareProfile)
    ensures
        r@ == p@,
{
    let mut axes: Vec<String> = Vec::new();
    let mut i: usize = 0;
    while i < p.axes.len()
        invariant
            i <= p.axes@.len(),
            string_views(axes@) == string_views(p.axes@).take(i as int),
        decreases p.axes.len() - i,
    {
        let ghost before = axes@;
        axes.push(p.axes[i].clone());
        assert(string_views(axes@) =~= string_views(before).push(p.axes@[i as int]@));
        assert(string_views(p.axes@).take(i + 1) =~= string_views(p.axes@).take(i as int).push(p.axes@[i as int]@));
        i = i + 1;
    }
    assert(string_views(p.axes@).take(i as int) =~= string_views(p.axes@));
    HardwareProfile {
        name: p.name.clone(),
        axes,
        spindle_control: p.spindle_control,
        homing_installed: p.homing_installed,
        limit_switches_installed: p.limit_switches_installed,
        probe_installed: p.probe_installed,
        emergency_stop_installed: p.emergency_stop_installed,
    }
}

fn count_level(checks: &Vec<ReadinessCheck>, l: ReadinessLevel) -> (n: usize)
    ensures
        n == level_count(checks_view(checks@), l),
{
    let ghost cs = checks_view(checks@);
    let mut n: usize = 0;
    let mut i: usize = 0;
    while i < checks.len()
        invariant
            i <= checks@.len(),
            cs == checks_view(checks@),
            n == level_count(cs.take(i as int), l),
            n <= i,
        decreases checks.len() - i,
    {
        assert(cs.take(i + 1).drop_last() =~= cs.take(i as int));
        if checks[i].level == l {
            n = n + 1;
        }
        i = i + 1;
    }
    assert(cs.take(i as int) =~= cs);
    n
}

/// The readiness report for a guarded test jog.
pub open spec fn readiness_report(
    p: ProfileV,
    inspection: &DeviceInspection,
    snapshot: &ControllerSnapshot,
) -> ReportV {
    let cs = readiness_checks(p, inspection, snapshot);
    ReportV {
        profile: p,
        test_jog_ready: level_count(cs, ReadinessLevel::Blocker) == 0,
        probe_ready: false,
        blocker_count: level_count(cs, ReadinessLevel::Blocker),
        caution_count: level_count(cs, ReadinessLevel::Caution),
        checks: cs,
    }
}

/// Decides whether the controller is ready for a guarded test jog. Each
/// check is a pass, a caution or a blocker; any blocker refuses the jog.
/// Probing is never cleared by this report.
pub fn assess(
    profile: &HardwareProfile,
    inspection: &DeviceInspection,
    snapshot: &ControllerSnapshot,
) -> (r: ReadinessReport)
    requires
        inspection.settings.wf(),
        inspection.parameters.wf(),
    ensures
        r@ == readiness_report(profile@, inspection, snapshot),
{
    let mut checks: Vec<ReadinessCheck> = Vec::new();
    checks.push(controller_state(snapshot));
    checks.push(query_integrity(inspection));
    checks.push(firmware_identity(inspection));
    checks.push(axis_group(inspection, "axis-steps", "Axis calibration", "$10", "steps/mm"));
    checks.push(axis_group(inspection, "axis-rates", "Maximum axis rates", "$11", "mm/min"));
    checks.push(axis_group(inspection, "axis-acceleration", "Axis acceleration", "$12", "mm/s^2"));
    checks.push(axis_group(inspection, "axis-travel", "Configured travel", "$13", "mm"));
    checks.push(unhomed_operation(profile, inspection));
    checks.push(milling_mode(inspection));
    checks.push(modal_units(inspection));
    checks.push(spindle_state(profile, inspection));
    checks.push(probe_input(profile, inspection));
    checks.push(emergency_stop(profile));
    assert(checks_view(checks@) =~= readiness_checks(profile@, inspection, snapshot));
    let blocker_count = count_level(&checks, ReadinessLevel::Blocker);
    let caution_count = count_level(&checks, ReadinessLevel::Caution);
    ReadinessReport {
        profile: copy_profile(profile),
        test_jog_ready: blocker_count == 0,
        probe_ready: false,
        blocker_count,
        caution_count,
        checks,
    }
}


// ---------------------------------------------------------------------------
// Laws
// ---------------------------------------------------------------------------

proof fn lemma_level_count_positive(cs: Seq<CheckV>, l: ReadinessLevel, i: int)
    requires
        0 <= i < cs.len(),
        cs[i].level == l,
    ensures
        level_count(cs, l) > 0,
    decreases cs.len(),
{
    if i < cs.len() - 1 {
        lemma_level_count_positive(cs.drop_last(), l, i);
    }
}

/// Any blocking check refuses the test jog.
pub proof fn lemma_blocker_refuses_test_jog(
    p: ProfileV,
    inspection: &DeviceInspection,
    snapshot: &ControllerSnapshot,
    i: int,
)
    requires
        0 <= i < readiness_checks(p, inspection, snapshot).len(),
        readiness_checks(p, inspection, snapshot)[i].level == ReadinessLevel::Blocker,
    ensures
        !readiness_report(p, inspection, snapshot).test_jog_ready,
        readiness_report(p, inspection, snapshot).blocker_count > 0,
{
    lemma_level_count_positive(readiness_checks(p, inspection, snapshot), ReadinessLevel::Blocker, i);
}

/// A controller that is not connected and stably idle (or that reports an
/// alarm or a reset) is never ready for a test jog, whatever the settings.
pub proof fn lemma_unsettled_controller_refuses_test_jog(
    p: ProfileV,
    inspection: &DeviceInspection,
    snapshot: &ControllerSnapshot,
)
    requires
        !stable_idle(snapshot),
    ensures
        !readiness_report(p, inspection, snapshot).test_jog_ready,
{
    lemma_blocker_refuses_test_jog(p, inspection, snapshot, 0);
}

/// A controller whose modal state does not report `M5` (spindle stop) has a
/// blocking `spindle` check and is never ready for a test jog; a reported
/// `M5` never blocks the spindle check.
pub proof fn lemma_running_spindle_refuses_test_jog(
    p: ProfileV,
    inspection: &DeviceInspection,
    snapshot: &ControllerSnapshot,
)
    ensures
        readiness_checks(p, inspection, snapshot)[10].id == "spindle"@,
        !inspection@.modal_state.contains("M5"@) ==> readiness_checks(p, inspection, snapshot)[10].level
            == ReadinessLevel::Blocker && !readiness_report(p, inspection, snapshot).test_jog_ready,
        inspection@.modal_state.contains("M5"@) ==> readiness_checks(p, inspection, snapshot)[10].level
            != ReadinessLevel::Blocker,
        readiness_report(p, inspection, snapshot).test_jog_ready ==> inspection@.modal_state.contains("M5"@),
{
    if !inspection@.modal_state.contains("M5"@) {
        lemma_blocker_refuses_test_jog(p, inspection, snapshot, 10);
    }
}

/// Laser mode, or an unreadable `$32`, refuses the milling test jog.
pub proof fn lemma_laser_mode_refuses_test_jog(
    p: ProfileV,
    inspection: &DeviceInspection,
    snapshot: &ControllerSnapshot,
)
    requires
        binary_setting(inspection@.settings, "$32"@) != Some(false),
    ensures
        !readiness_report(p, inspection, snapshot).test_jog_ready,
{
    lemma_blocker_refuses_test_jog(p, inspection, snapshot, 8);
}

/// Homing or hard limits enabled on hardware that has no such switches
/// refuse the test jog.
pub proof fn lemma_contradicting_limits_refuse_test_jog(
    p: ProfileV,
    inspection: &DeviceInspection,
    snapshot: &ControllerSnapshot,
)
    requires
        unhomed_contradiction(p, inspection@.settings),
    ensures
        !readiness_report(p, inspection, snapshot).test_jog_ready,
{
    lemma_blocker_refuses_test_jog(p, inspection, snapshot, 7);
}

/// A missing or non-positive acceleration setting for any of X, Y and Z
/// refuses the test jog.
pub proof fn lemma_missing_acceleration_refuses_test_jog(
    p: ProfileV,
    inspection: &DeviceInspection,
    snapshot: &ControllerSnapshot,
    axis: char,
)
    requires
        axis == '0' || axis == '1' || axis == '2',
        positive_setting(inspection@.settings, "$12"@.push(axis)) is None,
    ensures
        !readiness_report(p, inspection, snapshot).test_jog_ready,
{
    lemma_blocker_refuses_test_jog(p, inspection, snapshot, 5);
}

/// Probing is never cleared, and a test jog is ready exactly when no check
/// blocks it.
pub proof fn lemma_report_counts(
    p: ProfileV,
    inspection: &DeviceInspection,
    snapshot: &ControllerSnapshot,
)
    ensures
        !readiness_report(p, inspection, snapshot).probe_ready,
        readiness_report(p, inspection, snapshot).test_jog_ready <==> (forall|i: int|
            0 <= i < readiness_checks(p, inspection, snapshot).len() ==> (#[trigger] readiness_checks(
                p,
                inspection,
                snapshot,
            )[i]).level != ReadinessLevel::Blocker),
{
    let cs = readiness_checks(p, inspection, snapshot);
    if exists|i: int| 0 <= i < cs.len() && (#[trigger] cs[i]).level == ReadinessLevel::Blocker {
        let i = choose|i: int| 0 <= i < cs.len() && (#[trigger] cs[i]).level == ReadinessLevel::Blocker;
        lemma_level_count_positive(cs, ReadinessLevel::Blocker, i);
    } else {
        lemma_level_count_zero(cs, ReadinessLevel::Blocker);
    }
}

proof fn lemma_level_count_zero(cs: Seq<CheckV>, l: ReadinessLevel)
    requires
        forall|i: int| 0 <= i < cs.len() ==> (#[trigger] cs[i]).level != l,
    ensures
        level_count(cs, l) == 0,
    decreases cs.len(),
{
    if cs.len() > 0 {
        assert forall|i: int| 0 <= i < cs.drop_last().len() implies (#[trigger] cs.drop_last()[i]).level != l by {
            assert(cs.drop_last()[i] == cs[i]);
        }
        lemma_level_count_zero(cs.drop_last(), l);
    }
}

} // verus!
