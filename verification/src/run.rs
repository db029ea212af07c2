//! The preflight report shown before a real (cutting) run is authorized.
use vstd::prelude::*;

use crate::controller::{
    ControllerSnapshot, HardwareInspection, ReadinessCheck, ReadinessLevel, SpindleControl,
    stable_idle,
};
use crate::dry_run::{
    BlockerV, DryRunBlocker, DryRunBlockerKind, DryRunPlan, DryRunPolicyError, ProgramExecutionOptions,
    ProgramRunPolicy, blockers_view, build_dry_run_plan, policy_blockers, program_lines,
    run_plan_result,
};
use crate::grbl::{first_wcs, string_views, wcs_name};
use crate::program::{ProgramLine, ProgramListing, ProgramMotion, ToolpathKind};
use crate::text::{dec, join, push_chars, push_dec, push_str, views, words};
use crate::word::{DecimalV, dec_is, parse_decimal};

verus! {

/// At most this many program blockers are listed in a report.
pub const MAX_REPORTED_PROGRAM_BLOCKERS: usize = 20;

#[derive(Clone, Copy, Debug, PartialEq, Eq, Structural)]
pub enum RunPreflightLevel {
    Pass,
    Caution,
    Blocker,
}

/// One line of the preflight report.
#[derive(Debug)]
pub struct RunPreflightCheck {
    pub id: String,
    pub level: RunPreflightLevel,
    pub title: String,
    pub detail: String,
    pub source_line: Option<usize>,
}

pub struct CheckV {
    pub id: Seq<char>,
    pub level: RunPreflightLevel,
    pub title: Seq<char>,
    pub detail: Seq<char>,
    pub source_line: Option<usize>,
}

impl View for RunPreflightCheck {
    type V = CheckV;

    open spec fn view(&self) -> CheckV {
        CheckV {
            id: self.id@,
            level: self.level,
            title: self.title@,
            detail: self.detail@,
            source_line: self.source_line,
        }
    }
}

pub open spec fn checks_view(v: Seq<RunPreflightCheck>) -> Seq<CheckV> {
    v.map_values(|c: RunPreflightCheck| c@)
}

/// A policy blocker of the program, with its kind as a stable identifier.
#[derive(Debug)]
pub struct RunProgramBlocker {
    pub kind: String,
    pub message: String,
    pub source_line: Option<usize>,
}

pub struct ProgramBlockerV {
    pub kind: Seq<char>,
    pub message: Seq<char>,
    pub source_line: Option<usize>,
}

pub open spec fn program_blockers_view(v: Seq<RunProgramBlocker>) -> Seq<ProgramBlockerV> {
    v.map_values(
        |b: RunProgramBlocker|
            ProgramBlockerV { kind: b.kind@, message: b.message@, source_line: b.source_line },
    )
}

/// The preflight report.
#[derive(Debug)]
pub struct RunPreflightReport {
    pub source_name: String,
    pub ready: bool,
    pub blocker_count: usize,
    pub caution_count: usize,
    pub poll_sequence: u64,
    pub hardware: HardwareInspection,
    pub checks: Vec<RunPreflightCheck>,
    pub program_blockers: Vec<RunProgramBlocker>,
    pub total_program_blockers: usize,
}

// ---------------------------------------------------------------------------
// Specification
// ---------------------------------------------------------------------------

/// The stable identifier of a blocker kind.
pub open spec fn kind_id(kind: DryRunBlockerKind) -> Seq<char> {
    match kind {
        DryRunBlockerKind::SpindleActivation => "spindle-activation"@,
        DryRunBlockerKind::SpindleSpeed => "spindle-speed"@,
        DryRunBlockerKind::CoolantActivation => "coolant-activation"@,
        DryRunBlockerKind::ProbeCycle => "probe-cycle"@,
        DryRunBlockerKind::ToolChange => "tool-change"@,
        DryRunBlockerKind::MachineCoordinateMotion => "machine-coordinate-motion"@,
        DryRunBlockerKind::CoordinateMutation => "coordinate-mutation"@,
        DryRunBlockerKind::UnsupportedProgram => "unsupported-program"@,
        DryRunBlockerKind::IncompletePreview => "incomplete-preview"@,
        DryRunBlockerKind::CommandTooLong => "command-too-long"@,
        DryRunBlockerKind::HeightmapCompensation => "heightmap-compensation"@,
        DryRunBlockerKind::CuttingDepthAdjustment => "cutting-depth-adjustment"@,
    }
}

/// The default host options under which the air-run policy is assessed.
pub open spec fn default_options() -> ProgramExecutionOptions {
    ProgramExecutionOptions {
        optional_stop: false,
        block_delete: false,
        surface_map_id: None,
        cutting_depth_adjustment_um: None,
    }
}

/// The blockers that the air-run policy raises against the program.
pub open spec fn air_run_blockers(p: ProgramListing) -> Seq<BlockerV> {
    policy_blockers(p, ProgramRunPolicy::AirRun, default_options())
}

/// Whether the air-run policy finds nothing executable (and nothing blocked).
pub open spec fn air_run_empty(p: ProgramListing) -> bool {
    air_run_blockers(p).len() == 0 && program_lines(
        p.lines@,
        0,
        None,
        false,
        p.line_timings@,
    ).len() == 0
}

/// Readiness blockers other than the controller state and the probe input.
pub open spec fn motion_blockers(cs: Seq<ReadinessCheck>) -> nat
    decreases cs.len(),
{
    if cs.len() == 0 {
        0
    } else {
        let c = cs.last();
        motion_blockers(cs.drop_last()) + if c.level == ReadinessLevel::Blocker && c.id@
            != "controller-state"@ && c.id@ != "probe-input"@ {
            1nat
        } else {
            0nat
        }
    }
}

/// Motions that count when `pick` is `0` (any), `1` (feed: not rapid) or `2` (arcs).
pub open spec fn motion_counts(kind: ToolpathKind, pick: nat) -> bool {
    if pick == 0 {
        true
    } else if pick == 1 {
        kind != ToolpathKind::Rapid
    } else {
        kind == ToolpathKind::ArcClockwise || kind == ToolpathKind::ArcCounterclockwise
    }
}

/// The smallest source line among the motions that count.
pub open spec fn first_motion(ms: Seq<ProgramMotion>, pick: nat) -> Option<usize>
    decreases ms.len(),
{
    if ms.len() == 0 {
        None
    } else {
        let rest = first_motion(ms.drop_last(), pick);
        let m = ms.last();
        if motion_counts(m.kind, pick) {
            match rest {
                Some(l) => if m.source_line < l {
                    Some(m.source_line)
                } else {
                    Some(l)
                },
                None => Some(m.source_line),
            }
        } else {
            rest
        }
    }
}

/// The family member that a `G` word selects, if any.
pub open spec fn family_code(w: Seq<char>, family: Seq<u32>) -> Option<u32> {
    if w.len() > 0 && w[0] == 'G' {
        match parse_decimal(w.drop_first()) {
            Some(d) => family_member(d, family),
            None => None,
        }
    } else {
        None
    }
}

pub open spec fn family_member(d: DecimalV, family: Seq<u32>) -> Option<u32>
    decreases family.len(),
{
    if family.len() == 0 {
        None
    } else if dec_is(d, family[0] as nat) {
        Some(family[0])
    } else {
        family_member(d, family.drop_first())
    }
}

pub open spec fn words_modal(active: Option<u32>, ws: Seq<Seq<char>>, family: Seq<u32>) -> Option<u32>
    decreases ws.len(),
{
    if ws.len() == 0 {
        active
    } else {
        let next = match family_code(ws[0], family) {
            Some(k) => Some(k),
            None => active,
        };
        words_modal(next, ws.drop_first(), family)
    }
}

/// The member of `family` last selected on the lines up to `through`.
pub open spec fn lines_modal(
    active: Option<u32>,
    lines: Seq<ProgramLine>,
    through: usize,
    family: Seq<u32>,
) -> Option<u32>
    decreases lines.len(),
{
    if lines.len() == 0 || lines[0].source_line > through {
        active
    } else {
        lines_modal(
            words_modal(active, words(lines[0].normalized@), family),
            lines.drop_first(),
            through,
            family,
        )
    }
}

pub open spec fn last_modal(lines: Seq<ProgramLine>, through: usize, family: Seq<u32>) -> Option<u32> {
    lines_modal(None, lines, through, family)
}

/// The modal codes that must be declared before the first motions of their kind.
pub open spec fn missing_modes(p: ProgramListing) -> Seq<Seq<char>> {
    let lines = p.lines@;
    let a = match first_motion(p.motions@, 0) {
        Some(l) => (if last_modal(lines, l, seq![20u32, 21u32]) != Some(21u32) {
            seq!["G21"@]
        } else {
            Seq::empty()
        }) + (if last_modal(lines, l, seq![90u32, 91u32]) != Some(90u32) {
            seq!["G90"@]
        } else {
            Seq::empty()
        }),
        None => Seq::empty(),
    };
    let b = match first_motion(p.motions@, 1) {
        Some(l) => if last_modal(lines, l, seq![93u32, 94u32]) != Some(94u32) {
            seq!["G94"@]
        } else {
            Seq::empty()
        },
        None => Seq::empty(),
    };
    let c = match first_motion(p.motions@, 2) {
        Some(l) => if last_modal(lines, l, seq![17u32, 18u32, 19u32]) != Some(17u32) {
            seq!["G17"@]
        } else {
            Seq::empty()
        },
        None => Seq::empty(),
    };
    a + b + c
}

pub open spec fn level_if(ok: bool) -> RunPreflightLevel {
    if ok {
        RunPreflightLevel::Pass
    } else {
        RunPreflightLevel::Blocker
    }
}

pub open spec fn controller_check(s: &ControllerSnapshot) -> CheckV {
    CheckV {
        id: "controller-state"@,
        level: level_if(stable_idle(s)),
        title: "Fresh controller state"@,
        detail: if stable_idle(s) {
            "Connected · Idle · status #"@ + dec(s.poll_sequence as nat)
        } else {
            "A fresh Connected + Idle state is required; current mode is "@
                + s.machine.reported_mode@
        },
        source_line: None,
    }
}

pub open spec fn hardware_check(h: &HardwareInspection) -> CheckV {
    let n = motion_blockers(h.readiness.checks@);
    CheckV {
        id: "motion-hardware"@,
        level: level_if(n == 0),
        title: "Motion configuration"@,
        detail: if n == 0 {
            "Firmware, XYZ tuning, limits profile, units and milling mode passed"@
        } else {
            dec(n) + " motion-critical Device Inspector check(s) failed"@
        },
        source_line: None,
    }
}

pub open spec fn policy_check(p: ProgramListing) -> CheckV {
    let bs = air_run_blockers(p);
    let empty = air_run_empty(p);
    CheckV {
        id: "program-policy"@,
        level: level_if(bs.len() == 0 && !empty),
        title: "Motion-only program policy"@,
        detail: if empty {
            "The program has no executable lines"@
        } else if bs.len() > 0 {
            dec(bs.len()) + " blocked command(s); first: "@ + bs[0].message
        } else {
            "No spindle activation, coolant, probing, tool change, coordinate mutation or machine-coordinate motion"@
        },
        source_line: if bs.len() > 0 {
            bs[0].source_line
        } else {
            None
        },
    }
}

pub open spec fn modal_check(p: ProgramListing) -> CheckV {
    let missing = missing_modes(p);
    CheckV {
        id: "program-modal-contract"@,
        level: level_if(missing.len() == 0),
        title: "Explicit program modes"@,
        detail: if missing.len() == 0 {
            "Required units, distance, feed and plane modes are declared before motion"@
        } else {
            "Declare "@ + join(missing, ", "@) + " before the corresponding first motion"@
        },
        source_line: first_motion(p.motions@, 0),
    }
}

pub open spec fn geometry_ready(p: ProgramListing) -> bool {
    p.preview_complete && p.motion_count > 0 && p.bounds_size is Some
}

pub open spec fn geometry_check(p: ProgramListing) -> CheckV {
    CheckV {
        id: "program-geometry"@,
        level: level_if(geometry_ready(p)),
        title: "Program geometry"@,
        detail: if geometry_ready(p) {
            dec(p.motion_count as nat) + " motion(s) · "@ + p.bounds_size.unwrap()@ + " mm"@
        } else {
            "A complete preview with at least one bounded motion is required"@
        },
        source_line: None,
    }
}

pub open spec fn wcs_check(h: &HardwareInspection) -> CheckV {
    let active = first_wcs(string_views(h.device.modal_state@));
    CheckV {
        id: "work-coordinate-system"@,
        level: level_if(active is Some),
        title: "Work coordinate system"@,
        detail: match active {
            Some(c) => wcs_name(c) + " is active; work zero must be verified before authorization"@,
            None => "Device Inspector did not report an active G54-G59 system"@,
        },
        source_line: None,
    }
}

pub open spec fn caution(id: Seq<char>, title: Seq<char>, detail: Seq<char>) -> CheckV {
    CheckV { id, level: RunPreflightLevel::Caution, title, detail, source_line: None }
}

pub open spec fn operator_cautions(h: &HardwareInspection) -> Seq<CheckV> {
    let profile = h.readiness.profile;
    (if !profile.homing_installed || !profile.limit_switches_installed {
        seq![
            caution(
                "unhomed-envelope"@,
                "Unverified machine envelope"@,
                "Without homing and limit switches, preview bounds do not prove physical clearance"@,
            ),
        ]
    } else {
        Seq::empty()
    }) + (if profile.spindle_control == SpindleControl::Manual {
        seq![
            caution(
                "manual-spindle"@,
                "Manual spindle workflow"@,
                "Automatic M3/M4/S commands remain forbidden; spindle state requires a separate operator step"@,
            ),
        ]
    } else {
        Seq::empty()
    }) + seq![
        caution(
            "operator-setup"@,
            "Physical setup not authorized"@,
            "Stock, cutter, work zero, safe Z and dry-run clearance still require operator confirmation"@,
        ),
    ]
}

/// Every check of the report, in order.
pub open spec fn preflight_checks(
    p: ProgramListing,
    h: &HardwareInspection,
    s: &ControllerSnapshot,
) -> Seq<CheckV> {
    seq![
        controller_check(s),
        hardware_check(h),
        policy_check(p),
        modal_check(p),
        geometry_check(p),
        wcs_check(h),
    ] + operator_cautions(h)
}

pub open spec fn count_level(cs: Seq<CheckV>, level: RunPreflightLevel) -> nat
    decreases cs.len(),
{
    if cs.len() == 0 {
        0
    } else {
        count_level(cs.drop_last(), level) + if cs.last().level == level {
            1nat
        } else {
            0nat
        }
    }
}

pub open spec fn report_blocker(b: BlockerV) -> ProgramBlockerV {
    ProgramBlockerV { kind: kind_id(b.kind), message: b.message, source_line: b.source_line }
}

/// The program blockers listed in the report: the first twenty, in order.
pub open spec fn listed_blockers(p: ProgramListing) -> Seq<ProgramBlockerV> {
    let bs = air_run_blockers(p);
    let n = if bs.len() <= MAX_REPORTED_PROGRAM_BLOCKERS {
        bs.len()
    } else {
        MAX_REPORTED_PROGRAM_BLOCKERS as nat
    };
    bs.take(n as int).map_values(|b: BlockerV| report_blocker(b))
}


// ---------------------------------------------------------------------------
// Implementation
// ---------------------------------------------------------------------------

/// The stable identifier of a blocker kind.
pub fn blocker_kind_id(kind: DryRunBlockerKind) -> (r: &'static str)
    ensures
        r@ == kind_id(kind),
{
    match kind {
        DryRunBlockerKind::SpindleActivation => "spindle-activation",
        DryRunBlockerKind::SpindleSpeed => "spindle-speed",
        DryRunBlockerKind::CoolantActivation => "coolant-activation",
        DryRunBlockerKind::ProbeCycle => "probe-cycle",
        DryRunBlockerKind::ToolChange => "tool-change",
        DryRunBlockerKind::MachineCoordinateMotion => "machine-coordinate-motion",
        DryRunBlockerKind::CoordinateMutation => "coordinate-mutation",
        DryRunBlockerKind::UnsupportedProgram => "unsupported-program",
        DryRunBlockerKind::IncompletePreview => "incomplete-preview",
        DryRunBlockerKind::CommandTooLong => "command-too-long",
        DryRunBlockerKind::HeightmapCompensation => "heightmap-compensation",
        DryRunBlockerKind::CuttingDepthAdjustment => "cutting-depth-adjustment",
    }
}

/// A policy blocker as the report lists it.
pub fn program_blocker(blocker: DryRunBlocker) -> (r: RunProgramBlocker)
    ensures
        r.kind@ == kind_id(blocker.kind),
        r.message@ == blocker.message@,
        r.source_line == blocker.source_line,
{
    RunProgramBlocker {
        kind: blocker_kind_id(blocker.kind).to_owned(),
        message: blocker.message,
        source_line: blocker.source_line,
    }
}

fn count_motion_blockers(checks: &Vec<ReadinessCheck>) -> (n: usize)
    ensures
        n == motion_blockers(checks@),
{
    let mut n: usize = 0;
    let mut i: usize = 0;
    while i < checks.len()
        invariant
            i <= checks.len(),
            n == motion_blockers(checks@.take(i as int)),
            n <= i,
        decreases checks.len() - i,
    {
        let c = &checks[i];
        let id = crate::text::chars_of(c.id.as_str());
        let counts = c.level == ReadinessLevel::Blocker && !crate::text::chars_eq_str(
            id.as_slice(),
            "controller-state",
        ) && !crate::text::chars_eq_str(id.as_slice(), "probe-input");
        proof {
            assert(checks@.take(i + 1).drop_last() =~= checks@.take(i as int));
        }
        if counts {
            n = n + 1;
        }
        i = i + 1;
    }
    assert(checks@.take(checks.len() as int) =~= checks@);
    n
}

fn first_motion_exec(ms: &Vec<ProgramMotion>, pick: u8) -> (r: Option<usize>)
    requires
        pick <= 2,
    ensures
        r == first_motion(ms@, pick as nat),
{
    let mut best: Option<usize> = None;
    let mut i: usize = 0;
    while i < ms.len()
        invariant
            pick <= 2,
            i <= ms.len(),
            best == first_motion(ms@.take(i as int), pick as nat),
        decreases ms.len() - i,
    {
        let m = ms[i];
        let counts = if pick == 0 {
            true
        } else if pick == 1 {
            m.kind != ToolpathKind::Rapid
        } else {
            m.kind == ToolpathKind::ArcClockwise || m.kind == ToolpathKind::ArcCounterclockwise
        };
        proof {
            assert(ms@.take(i + 1).drop_last() =~= ms@.take(i as int));
        }
        if counts {
            best = match best {
                Some(l) => if m.source_line < l {
                    Some(m.source_line)
                } else {
                    Some(l)
                },
                None => Some(m.source_line),
            };
        }
        i = i + 1;
    }
    assert(ms@.take(ms.len() as int) =~= ms@);
    best
}

fn family_member_exec(d: &crate::word::Decimal, family: &[u32]) -> (r: Option<u32>)
    requires
        crate::text::all_digits(d.int_digits@),
        forall|k: int| 0 <= k < family@.len() ==> family@[k] <= 1000,
    ensures
        r == family_member(d@, family@),
{
    let mut i: usize = 0;
    assert(family@.skip(0) =~= family@);
    while i < family.len()
        invariant
            i <= family.len(),
            crate::text::all_digits(d.int_digits@),
            forall|k: int| 0 <= k < family@.len() ==> family@[k] <= 1000,
            family_member(d@, family@) == family_member(d@, family@.skip(i as int)),
        decreases family.len() - i,
    {
        assert(family@.skip(i as int)[0] == family@[i as int]);
        assert(family@.skip(i as int).drop_first() =~= family@.skip(i + 1));
        if d.is(family[i]) {
            return Some(family[i]);
        }
        i = i + 1;
    }
    None
}

/// The member of `family` last selected by a `G` word on the lines up to `through_line`.
fn last_modal_code(lines: &Vec<ProgramLine>, through_line: usize, family: &[u32]) -> (r: Option<u32>)
    requires
        forall|k: int| 0 <= k < family@.len() ==> family@[k] <= 1000,
    ensures
        r == last_modal(lines@, through_line, family@),
{
    let mut active: Option<u32> = None;
    let mut i: usize = 0;
    assert(lines@.skip(0) =~= lines@);
    while i < lines.len()
        invariant
            i <= lines.len(),
            forall|k: int| 0 <= k < family@.len() ==> family@[k] <= 1000,
            last_modal(lines@, through_line, family@) == lines_modal(
                active,
                lines@.skip(i as int),
                through_line,
                family@,
            ),
        decreases lines.len() - i,
    {
        assert(lines@.skip(i as int)[0] == lines@[i as int]);
        if lines[i].source_line > through_line {
            return active;
        }
        assert(lines@.skip(i as int).drop_first() =~= lines@.skip(i + 1));
        let text = crate::text::chars_of(lines[i].normalized.as_str());
        let ws = crate::text::split_ws(text.as_slice());
        let ghost wv = views(ws@);
        let ghost start = active;
        let mut j: usize = 0;
        assert(wv.skip(0) =~= wv);
        while j < ws.len()
            invariant
                j <= ws.len(),
                wv == views(ws@),
                forall|k: int| 0 <= k < family@.len() ==> family@[k] <= 1000,
                words_modal(start, wv, family@) == words_modal(active, wv.skip(j as int), family@),
            decreases ws.len() - j,
        {
            let w = ws[j].as_slice();
            assert(wv.skip(j as int)[0] == w@);
            assert(wv.skip(j as int).drop_first() =~= wv.skip(j + 1));
            if w.len() > 0 && w[0] == 'G' {
                assert(w@.skip(1) =~= w@.drop_first());
                match crate::word::parse_decimal_at(w, 1) {
                    Some(d) => match family_member_exec(&d, family) {
                        Some(k) => {
                            active = Some(k);
                        },
                        None => {},
                    },
                    None => {},
                }
            }
            j = j + 1;
        }
        assert(wv.skip(j as int) =~= Seq::<Seq<char>>::empty());
        i = i + 1;
    }
    assert(lines@.skip(i as int) =~= Seq::<ProgramLine>::empty());
    active
}

fn missing_modes_exec(p: &ProgramListing) -> (r: Vec<Vec<char>>)
    ensures
        views(r@) == missing_modes(*p),
{
    let mut r: Vec<Vec<char>> = Vec::new();
    let ghost lines = p.lines@;
    let fam_units: [u32; 2] = [20, 21];
    let fam_distance: [u32; 2] = [90, 91];
    let fam_feed: [u32; 2] = [93, 94];
    let fam_plane: [u32; 3] = [17, 18, 19];
    assert(fam_units@ =~= seq![20u32, 21u32]);
    assert(fam_distance@ =~= seq![90u32, 91u32]);
    assert(fam_feed@ =~= seq![93u32, 94u32]);
    assert(fam_plane@ =~= seq![17u32, 18u32, 19u32]);
    match first_motion_exec(&p.motions, 0) {
        Some(l) => {
            if last_modal_code(&p.lines, l, fam_units.as_slice()) != Some(21u32) {
                r.push(crate::text::chars_of("G21"));
            }
            if last_modal_code(&p.lines, l, fam_distance.as_slice()) != Some(90u32) {
                r.push(crate::text::chars_of("G90"));
            }
        },
        None => {},
    }
    let ghost a = views(r@);
    match first_motion_exec(&p.motions, 1) {
        Some(l) => {
            if last_modal_code(&p.lines, l, fam_feed.as_slice()) != Some(94u32) {
                r.push(crate::text::chars_of("G94"));
            }
        },
        None => {},
    }
    let ghost b = views(r@);
    match first_motion_exec(&p.motions, 2) {
        Some(l) => {
            if last_modal_code(&p.lines, l, fam_plane.as_slice()) != Some(17u32) {
                r.push(crate::text::chars_of("G17"));
            }
        },
        None => {},
    }
    assert(views(r@) =~= missing_modes(*p));
    r
}

fn make_check(
    id: &str,
    level: RunPreflightLevel,
    title: &str,
    detail: Vec<char>,
    source_line: Option<usize>,
) -> (c: RunPreflightCheck)
    ensures
        c@ == (CheckV { id: id@, level, title: title@, detail: detail@, source_line }),
{
    RunPreflightCheck {
        id: id.to_owned(),
        level,
        title: title.to_owned(),
        detail: crate::text::string_from_chars(detail.as_slice()),
        source_line,
    }
}

fn literal(s: &str) -> (v: Vec<char>)
    ensures
        v@ == s@,
{
    crate::text::chars_of(s)
}


/// Assesses whether a program may be run for real on the inspected machine.
pub fn assess_real_run_preflight(
    program: &ProgramListing,
    hardware: HardwareInspection,
    snapshot: &ControllerSnapshot,
) -> (r: RunPreflightReport)
    ensures
        r.hardware == hardware,
        checks_view(r.checks@) == preflight_checks(*program, &hardware, snapshot),
        r.blocker_count == count_level(checks_view(r.checks@), RunPreflightLevel::Blocker),
        r.caution_count == count_level(checks_view(r.checks@), RunPreflightLevel::Caution),
        r.ready == (r.blocker_count == 0),
        r.poll_sequence == snapshot.poll_sequence,
        r.source_name@ == program.source_name@,
        r.total_program_blockers == air_run_blockers(*program).len(),
        program_blockers_view(r.program_blockers@) == listed_blockers(*program),
        r.caution_count >= 1,
        r.program_blockers.len() == (if r.total_program_blockers <= MAX_REPORTED_PROGRAM_BLOCKERS {
            r.total_program_blockers
        } else {
            MAX_REPORTED_PROGRAM_BLOCKERS
        }),
{
    let mut checks: Vec<RunPreflightCheck> = Vec::new();
    // Controller state.
    let idle = snapshot.is_stable_idle();
    let mut detail: Vec<char> = Vec::new();
    if idle {
        push_str(&mut detail, "Connected · Idle · status #");
        push_dec(&mut detail, snapshot.poll_sequence);
    } else {
        push_str(&mut detail, "A fresh Connected + Idle state is required; current mode is ");
        push_str(&mut detail, snapshot.machine.reported_mode.as_str());
    }
    checks.push(
        make_check(
            "controller-state",
            if idle {
                RunPreflightLevel::Pass
            } else {
                RunPreflightLevel::Blocker
            },
            "Fresh controller state",
            detail,
            None,
        ),
    );
    // Motion hardware.
    let n = count_motion_blockers(&hardware.readiness.checks);
    let mut detail: Vec<char> = Vec::new();
    if n == 0 {
        push_str(&mut detail, "Firmware, XYZ tuning, limits profile, units and milling mode passed");
    } else {
        push_dec(&mut detail, n as u64);
        push_str(&mut detail, " motion-critical Device Inspector check(s) failed");
    }
    checks.push(
        make_check(
            "motion-hardware",
            if n == 0 {
                RunPreflightLevel::Pass
            } else {
                RunPreflightLevel::Blocker
            },
            "Motion configuration",
            detail,
            None,
        ),
    );
    // Program policy.
    let plan = build_dry_run_plan(program);
    let ghost bs = air_run_blockers(*program);
    let (blockers, empty): (Vec<DryRunBlocker>, bool) = match plan {
        Ok(_) => (Vec::new(), false),
        Err(DryRunPolicyError::Rejected(_, v)) => (v, false),
        Err(DryRunPolicyError::EmptyProgram) => (Vec::new(), true),
    };
    assert(blockers_view(blockers@) =~= bs);
    assert(empty == air_run_empty(*program));
    let mut detail: Vec<char> = Vec::new();
    let mut first_line: Option<usize> = None;
    if empty {
        push_str(&mut detail, "The program has no executable lines");
    } else if blockers.len() > 0 {
        assert(blockers_view(blockers@)[0] == blockers@[0]@);
        push_dec(&mut detail, blockers.len() as u64);
        push_str(&mut detail, " blocked command(s); first: ");
        push_str(&mut detail, blockers[0].message.as_str());
        first_line = blockers[0].source_line;
    } else {
        push_str(
            &mut detail,
            "No spindle activation, coolant, probing, tool change, coordinate mutation or machine-coordinate motion",
        );
    }
    if blockers.len() > 0 {
        assert(blockers_view(blockers@)[0] == blockers@[0]@);
        first_line = blockers[0].source_line;
    }
    checks.push(
        make_check(
            "program-policy",
            if blockers.len() == 0 && !empty {
                RunPreflightLevel::Pass
            } else {
                RunPreflightLevel::Blocker
            },
            "Motion-only program policy",
            detail,
            first_line,
        ),
    );
    // Modal contract.
    let missing = missing_modes_exec(program);
    let mut detail: Vec<char> = Vec::new();
    if missing.len() == 0 {
        push_str(
            &mut detail,
            "Required units, distance, feed and plane modes are declared before motion",
        );
    } else {
        push_str(&mut detail, "Declare ");
        let joined = crate::text::join_with(&missing, ", ");
        push_chars(&mut detail, joined.as_slice());
        push_str(&mut detail, " before the corresponding first motion");
    }
    checks.push(
        make_check(
            "program-modal-contract",
            if missing.len() == 0 {
                RunPreflightLevel::Pass
            } else {
                RunPreflightLevel::Blocker
            },
            "Explicit program modes",
            detail,
            first_motion_exec(&program.motions, 0),
        ),
    );
    // Geometry.
    let ready_geometry = program.preview_complete && program.motion_count > 0
        && program.bounds_size.is_some();
    let mut detail: Vec<char> = Vec::new();
    if ready_geometry {
        push_dec(&mut detail, program.motion_count as u64);
        push_str(&mut detail, " motion(s) · ");
        match &program.bounds_size {
            Some(size) => push_str(&mut detail, size.as_str()),
            None => {},
        }
        push_str(&mut detail, " mm");
    } else {
        push_str(&mut detail, "A complete preview with at least one bounded motion is required");
    }
    checks.push(
        make_check(
            "program-geometry",
            if ready_geometry {
                RunPreflightLevel::Pass
            } else {
                RunPreflightLevel::Blocker
            },
            "Program geometry",
            detail,
            None,
        ),
    );
    // Work coordinate system.
    let active = crate::grbl::active_work_coordinate_system(hardware.device.modal_state.as_slice());
    let mut detail: Vec<char> = Vec::new();
    match active {
        Some(c) => {
            push_str(&mut detail, crate::grbl::work_coordinate_parameter(c));
            push_str(&mut detail, " is active; work zero must be verified before authorization");
        },
        None => {
            push_str(&mut detail, "Device Inspector did not report an active G54-G59 system");
        },
    }
    checks.push(
        make_check(
            "work-coordinate-system",
            if active.is_some() {
                RunPreflightLevel::Pass
            } else {
                RunPreflightLevel::Blocker
            },
            "Work coordinate system",
            detail,
            None,
        ),
    );
    let ghost six = checks_view(checks@);
    assert(six =~= seq![
        controller_check(snapshot),
        hardware_check(&hardware),
        policy_check(*program),
        modal_check(*program),
        geometry_check(*program),
        wcs_check(&hardware),
    ]);
    // Operator cautions.
    if !hardware.readiness.profile.homing_installed
        || !hardware.readiness.profile.limit_switches_installed {
        checks.push(
            make_check(
                "unhomed-envelope",
                RunPreflightLevel::Caution,
                "Unverified machine envelope",
                literal(
                    "Without homing and limit switches, preview bounds do not prove physical clearance",
                ),
                None,
            ),
        );
    }
    if hardware.readiness.profile.spindle_control == SpindleControl::Manual {
        checks.push(
            make_check(
                "manual-spindle",
                RunPreflightLevel::Caution,
                "Manual spindle workflow",
                literal(
                    "Automatic M3/M4/S commands remain forbidden; spindle state requires a separate operator step",
                ),
                None,
            ),
        );
    }
    checks.push(
        make_check(
            "operator-setup",
            RunPreflightLevel::Caution,
            "Physical setup not authorized",
            literal(
                "Stock, cutter, work zero, safe Z and dry-run clearance still require operator confirmation",
            ),
            None,
        ),
    );
    assert(checks_view(checks@) =~= preflight_checks(*program, &hardware, snapshot));
    // Counts.
    let ghost cv = checks_view(checks@);
    let mut blocker_count: usize = 0;
    let mut caution_count: usize = 0;
    let mut i: usize = 0;
    while i < checks.len()
        invariant
            i <= checks.len(),
            cv == checks_view(checks@),
            blocker_count == count_level(cv.take(i as int), RunPreflightLevel::Blocker),
            caution_count == count_level(cv.take(i as int), RunPreflightLevel::Caution),
            blocker_count <= i,
            caution_count <= i,
        decreases checks.len() - i,
    {
        proof {
            assert(cv.take(i + 1).drop_last() =~= cv.take(i as int));
            assert(cv.take(i + 1).last() == checks@[i as int]@);
        }
        if checks[i].level == RunPreflightLevel::Blocker {
            blocker_count = blocker_count + 1;
        } else if checks[i].level == RunPreflightLevel::Caution {
            caution_count = caution_count + 1;
        }
        i = i + 1;
    }
    assert(cv.take(checks.len() as int) =~= cv);
    proof {
        let last = (cv.len() - 1) as int;
        assert(cv[last].level == RunPreflightLevel::Caution);
        lemma_count_level_positive(cv, last, RunPreflightLevel::Caution);
    }
    // Listed program blockers.
    let total = blockers.len();
    let mut listed: Vec<RunProgramBlocker> = Vec::new();
    let mut rest = blockers;
    let ghost all = blockers_view(rest@);
    let limit = if total <= MAX_REPORTED_PROGRAM_BLOCKERS {
        total
    } else {
        MAX_REPORTED_PROGRAM_BLOCKERS
    };
    let mut k: usize = 0;
    while k < limit
        invariant
            k <= limit <= total,
            rest@.len() == total - k,
            all.len() == total,
            blockers_view(rest@) == all.skip(k as int),
            program_blockers_view(listed@) == all.take(k as int).map_values(
                |b: BlockerV| report_blocker(b),
            ),
        decreases limit - k,
    {
        let ghost old_rest = rest@;
        let b = rest.remove(0);
        proof {
            assert(blockers_view(old_rest)[0] == b@);
            assert(all.skip(k as int)[0] == b@);
            assert(rest@ =~= old_rest.skip(1));
            assert forall|j: int| 0 <= j < rest@.len() implies #[trigger] blockers_view(rest@)[j]
                == all.skip(k + 1)[j] by {
                assert(blockers_view(rest@)[j] == rest@[j]@);
                assert(rest@[j] == old_rest[j + 1]);
                assert(blockers_view(old_rest)[j + 1] == old_rest[j + 1]@);
                assert(all.skip(k as int)[j + 1] == all.skip(k + 1)[j]);
            }
            assert(blockers_view(rest@) =~= all.skip(k + 1));
        }
        let ghost before = listed@;
        listed.push(program_blocker(b));
        proof {
            assert(program_blockers_view(listed@) =~= program_blockers_view(before).push(
                report_blocker(all[k as int]),
            ));
            assert(all.take(k + 1).map_values(|b: BlockerV| report_blocker(b)) =~= all.take(
                k as int,
            ).map_values(|b: BlockerV| report_blocker(b)).push(report_blocker(all[k as int])));
        }
        k = k + 1;
    }
    assert(listed@.len() == program_blockers_view(listed@).len());
    RunPreflightReport {
        source_name: program.source_name.clone(),
        ready: blocker_count == 0,
        blocker_count,
        caution_count,
        poll_sequence: snapshot.poll_sequence,
        hardware,
        checks,
        program_blockers: listed,
        total_program_blockers: total,
    }
}


/// The preflight's count of program blockers is the count of the dry-run
/// plan's rejection: a rejected dry run lists exactly that many blockers, and
/// a dry run that is not rejected means the preflight counts none.
pub proof fn lemma_preflight_counts_the_dry_run_rejection(
    program: ProgramListing,
    r: Result<DryRunPlan, DryRunPolicyError>,
)
    requires
        run_plan_result(program, ProgramRunPolicy::AirRun, default_options(), r),
    ensures
        match r {
            Err(DryRunPolicyError::Rejected(n, v)) => n == air_run_blockers(program).len() && v.len()
                == n,
            _ => air_run_blockers(program).len() == 0,
        },
{
    if let Err(DryRunPolicyError::Rejected(n, v)) = r {
        assert(blockers_view(v@).len() == v@.len());
    }
}

/// Millimetres must be declared before the first motion: whenever the units
/// code last selected at or before the first motion's line is not `G21`
/// (it is `G20`, or none was selected), `G21` is reported missing, the
/// modal-contract check blocks and the preflight has a blocker; when it is
/// `G21`, `G21` is not reported missing.
pub proof fn lemma_units_must_be_millimetres_before_motion(
    p: ProgramListing,
    h: &HardwareInspection,
    s: &ControllerSnapshot,
    l: usize,
)
    requires
        first_motion(p.motions@, 0) == Some(l),
    ensures
        last_modal(p.lines@, l, seq![20u32, 21u32]) != Some(21u32) ==> {
            &&& missing_modes(p).contains("G21"@)
            &&& modal_check(p).level == RunPreflightLevel::Blocker
            &&& count_level(preflight_checks(p, h, s), RunPreflightLevel::Blocker) > 0
        },
        last_modal(p.lines@, l, seq![20u32, 21u32]) == Some(21u32) ==> !missing_modes(p).contains("G21"@),
{
    reveal_strlit("G21");
    reveal_strlit("G90");
    reveal_strlit("G94");
    reveal_strlit("G17");
    let m = missing_modes(p);
    if last_modal(p.lines@, l, seq![20u32, 21u32]) != Some(21u32) {
        assert(m[0] == "G21"@);
        assert(m.len() > 0);
        assert(preflight_checks(p, h, s)[3] == modal_check(p));
        lemma_count_level_positive(preflight_checks(p, h, s), 3, RunPreflightLevel::Blocker);
    } else {
        assert forall|i: int| 0 <= i < m.len() implies m[i] != "G21"@ by {
            assert(m[i] == "G90"@ || m[i] == "G94"@ || m[i] == "G17"@);
            assert(m[i][2] != "G21"@[2] || m[i][1] != "G21"@[1]);
        }
    }
}

proof fn lemma_count_level_positive(cs: Seq<CheckV>, i: int, level: RunPreflightLevel)
    requires
        0 <= i < cs.len(),
        cs[i].level == level,
    ensures
        count_level(cs, level) > 0,
    decreases cs.len(),
{
    if i < cs.len() - 1 {
        assert(cs.drop_last()[i] == cs[i]);
        lemma_count_level_positive(cs.drop_last(), i, level);
    }
}

/// A program that the air-run policy refuses is never reported ready.
pub proof fn lemma_refused_program_is_not_ready(
    p: ProgramListing,
    h: &HardwareInspection,
    s: &ControllerSnapshot,
)
    requires
        air_run_blockers(p).len() > 0,
    ensures
        count_level(preflight_checks(p, h, s), RunPreflightLevel::Blocker) > 0,
{
    let cs = preflight_checks(p, h, s);
    assert(cs[2] == policy_check(p));
    lemma_count_level_positive(cs, 2, RunPreflightLevel::Blocker);
}

/// Unless the controller is connected, idle and free of alarms, the report is not ready.
pub proof fn lemma_unsettled_controller_is_not_ready(
    p: ProgramListing,
    h: &HardwareInspection,
    s: &ControllerSnapshot,
)
    requires
        !stable_idle(s),
    ensures
        count_level(preflight_checks(p, h, s), RunPreflightLevel::Blocker) > 0,
{
    let cs = preflight_checks(p, h, s);
    assert(cs[0] == controller_check(s));
    lemma_count_level_positive(cs, 0, RunPreflightLevel::Blocker);
}

/// Motion that relies on modes the program never declares keeps the report from being ready.
pub proof fn lemma_undeclared_modes_are_not_ready(
    p: ProgramListing,
    h: &HardwareInspection,
    s: &ControllerSnapshot,
)
    requires
        missing_modes(p).len() > 0,
    ensures
        count_level(preflight_checks(p, h, s), RunPreflightLevel::Blocker) > 0,
{
    let cs = preflight_checks(p, h, s);
    assert(cs[3] == modal_check(p));
    lemma_count_level_positive(cs, 3, RunPreflightLevel::Blocker);
}

/// Physical setup always remains an operator caution: a report is never caution-free.
pub proof fn lemma_operator_setup_always_cautioned(
    p: ProgramListing,
    h: &HardwareInspection,
    s: &ControllerSnapshot,
)
    ensures
        count_level(preflight_checks(p, h, s), RunPreflightLevel::Caution) > 0,
{
    let cs = preflight_checks(p, h, s);
    let last = cs.len() - 1;
    assert(cs[last].level == RunPreflightLevel::Caution);
    lemma_count_level_positive(cs, last, RunPreflightLevel::Caution);
}

/// Readiness blockers on the controller state or the probe input alone do not
/// block motion hardware.
pub proof fn lemma_probe_and_state_blockers_do_not_block_motion(cs: Seq<ReadinessCheck>)
    requires
        forall|i: int|
            0 <= i < cs.len() ==> (#[trigger] cs[i]).level != ReadinessLevel::Blocker || cs[i].id@
                == "controller-state"@ || cs[i].id@ == "probe-input"@,
    ensures
        motion_blockers(cs) == 0,
    decreases cs.len(),
{
    if cs.len() > 0 {
        let t = cs.drop_last();
        assert forall|i: int| 0 <= i < t.len() implies (#[trigger] t[i]).level
            != ReadinessLevel::Blocker || t[i].id@ == "controller-state"@ || t[i].id@
            == "probe-input"@ by {
            assert(t[i] == cs[i]);
        }
        lemma_probe_and_state_blockers_do_not_block_motion(t);
        assert(cs.last() == cs[cs.len() - 1]);
    }
}

} // verus!
