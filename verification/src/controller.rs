//! What the host knows about the controller: the polled snapshot, the
//! selected hardware profile and the readiness report built from both.
use vstd::prelude::*;

use crate::grbl::{DeviceInspection, MachineMode, MachineState};

verus! {

/// State of the serial link.
#[derive(Clone, Copy, Debug, PartialEq, Eq, Structural)]
pub enum ConnectionState {
    Disconnected,
    Connecting,
    Connected,
}

/// The latest polled view of the controller.
#[derive(Debug)]
pub struct ControllerSnapshot {
    pub connection: ConnectionState,
    pub machine: MachineState,
    pub alarm: Option<String>,
    pub reset_notice: Option<String>,
    pub poll_sequence: u64,
    pub reset_count: u64,
    pub reconnect_count: u32,
}

/// Connected, idle, and with neither an alarm nor a reset notice pending.
pub open spec fn stable_idle(s: &ControllerSnapshot) -> bool {
    &&& s.connection == ConnectionState::Connected
    &&& s.machine.mode == MachineMode::Idle
    &&& s.alarm is None
    &&& s.reset_notice is None
}

impl ControllerSnapshot {
    pub fn is_stable_idle(&self) -> (r: bool)
        ensures
            r == stable_idle(self),
    {
        self.connection == ConnectionState::Connected && self.machine.mode == MachineMode::Idle
            && self.alarm.is_none() && self.reset_notice.is_none()
    }
}

/// Who switches the spindle.
#[derive(Clone, Copy, Debug, PartialEq, Eq, Structural)]
pub enum SpindleControl {
    Manual,
    Controller,
}

/// The parts of the selected machine profile that readiness decisions read.
#[derive(Debug)]
pub struct HardwareProfile {
    pub name: String,
    pub axes: Vec<String>,
    pub spindle_control: SpindleControl,
    pub homing_installed: bool,
    pub limit_switches_installed: bool,
    pub probe_installed: bool,
    pub emergency_stop_installed: bool,
}

/// Outcome of one readiness check.
#[derive(Clone, Copy, Debug, PartialEq, Eq, Structural)]
pub enum ReadinessLevel {
    Pass,
    Caution,
    Blocker,
}

/// One readiness check with the evidence it was decided on.
#[derive(Debug)]
pub struct ReadinessCheck {
    pub id: String,
    pub level: ReadinessLevel,
    pub title: String,
    pub detail: String,
    pub evidence: Option<String>,
}

/// The readiness checks and what they allow.
#[derive(Debug)]
pub struct ReadinessReport {
    pub profile: HardwareProfile,
    pub test_jog_ready: bool,
    pub probe_ready: bool,
    pub blocker_count: usize,
    pub caution_count: usize,
    pub checks: Vec<ReadinessCheck>,
}

/// Device inspection together with the readiness report built from it.
#[derive(Debug)]
pub struct HardwareInspection {
    pub device: DeviceInspection,
    pub readiness: ReadinessReport,
}

} // verus!
