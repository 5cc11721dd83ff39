//! Master state machine (MSM) of the low-level controller.
//!
//! Pure logic: command parsing, state transitions, communication watchdog,
//! safety escalation and the ASCII encoding of every response.

use vstd::prelude::*;

pub mod text;

pub use crate::state_machine::text::{format_response, parse_command, MAX_RESPONSE_LEN};

verus! {

/// Ticks without a command, in a moving state, before the watchdog trips (~2 s).
pub const WATCHDOG_MAX: u16 = 100;

/// Wheel speed used while turning in place (`AVD`).
pub const AVOID_SPEED: i16 = 60;

/// Wheel speed used while retreating (`RET`).
pub const RETREAT_SPEED: i16 = -50;

/// Largest magnitude accepted for an `EXP` speed; larger values are clamped.
pub const EXPLORE_LIMIT: i16 = 99;

/// Direction of an avoidance manoeuvre.
#[derive(Debug, PartialEq, Eq, Clone, Copy, Structural)]
pub enum AvoidDir {
    Left,
    Right,
}

/// A command received from the high-level controller.
#[derive(Debug, PartialEq, Eq, Clone, Copy)]
pub enum Command {
    Ping,
    Standby,
    Explore { left: i16, right: i16 },
    Avoid(AvoidDir),
    Retreat,
    Fault,
    Reset,
}

/// Operating state of the rover.
#[derive(Debug, PartialEq, Eq, Clone, Copy, Structural)]
pub enum RoverState {
    Standby,
    Explore,
    Avoid,
    Retreat,
    Fault,
    Safe,
}

/// Safety level, ordered by severity: `Normal < Warn < Limit < FaultStall`.
#[derive(Debug, PartialEq, Eq, PartialOrd, Ord, Clone, Copy, Structural)]
pub enum SafetyState {
    Normal,
    Warn,
    Limit,
    FaultStall,
}

/// Battery bank selection of the relay module.
#[derive(Debug, PartialEq, Eq, Clone, Copy, Structural)]
pub enum BankMode {
    Bank2Only,
    Bank3Only,
    BothBanks,
    AllOff,
}

/// Target speed of the left and right sides, in percent.
#[derive(Debug, PartialEq, Eq, Clone, Copy, Structural)]
pub struct DriveOutput {
    pub left: i16,
    pub right: i16,
}

impl DriveOutput {
    /// Both sides stopped.
    pub fn stopped() -> (d: DriveOutput)
        ensures
            d == stop_drive(),
    {
        DriveOutput { left: 0, right: 0 }
    }
}

/// The sensor readings carried by a telemetry frame.
#[derive(Debug, PartialEq, Eq, Clone, Copy)]
pub struct SensorFrame {
    pub tick_ms: u32,
    pub batt_mv: u16,
    pub batt_ma: i32,
    pub currents: [i32; 6],
    pub temp_c: i32,
    pub batt_temps: [i32; 6],
    pub dist_mm: u16,
    pub enc_left: i32,
    pub enc_right: i32,
    pub x_mm: i32,
    pub y_mm: i32,
    pub theta_mrad: i16,
}

impl SensorFrame {
    /// A frame with every reading at zero.
    pub fn zero() -> (f: SensorFrame)
        ensures
            f.tick_ms == 0 && f.batt_mv == 0 && f.batt_ma == 0 && f.temp_c == 0,
            f.currents@ == seq![0i32, 0, 0, 0, 0, 0],
            f.batt_temps@ == seq![0i32, 0, 0, 0, 0, 0],
            f.dist_mm == 0 && f.enc_left == 0 && f.enc_right == 0,
            f.x_mm == 0 && f.y_mm == 0 && f.theta_mrad == 0,
    {
        SensorFrame {
            tick_ms: 0,
            batt_mv: 0,
            batt_ma: 0,
            currents: [0, 0, 0, 0, 0, 0],
            temp_c: 0,
            batt_temps: [0, 0, 0, 0, 0, 0],
            dist_mm: 0,
            enc_left: 0,
            enc_right: 0,
            x_mm: 0,
            y_mm: 0,
            theta_mrad: 0,
        }
    }
}

/// An answer of the controller.
///
/// `Telemetry` is the short status line `TLM:<SAFETY>:<STALL>`;
/// `TelemetryFrame` is the full periodic frame with every sensor reading.
#[derive(Debug, PartialEq, Eq, Clone, Copy)]
pub enum Response {
    Pong,
    Ack(RoverState),
    Telemetry { safety: SafetyState, stall_mask: u8 },
    TelemetryFrame { safety: SafetyState, stall_mask: u8, sensors: SensorFrame },
    ErrEstop,
    ErrUnknown,
    ErrWatchdog,
}

/// The master state machine: current state, safety level, drive target and
/// communication watchdog.
pub struct MasterStateMachine {
    pub state: RoverState,
    pub safety: SafetyState,
    pub drive: DriveOutput,
    watchdog: u16,
}

/// The abstract value of a [`MasterStateMachine`], watchdog counter included.
pub ghost struct MachineView {
    pub state: RoverState,
    pub safety: SafetyState,
    pub drive: DriveOutput,
    pub watchdog: u16,
}

impl View for MasterStateMachine {
    type V = MachineView;

    closed spec fn view(&self) -> MachineView {
        MachineView {
            state: self.state,
            safety: self.safety,
            drive: self.drive,
            watchdog: self.watchdog,
        }
    }
}


// ─── Specification vocabulary ────────────────────────────────────────────────

pub open spec fn stop_drive() -> DriveOutput {
    DriveOutput { left: 0, right: 0 }
}

/// States in which motion commands are refused.
pub open spec fn is_halted(s: RoverState) -> bool {
    s is Fault || s is Safe
}

/// States in which the rover is commanded to move and the watchdog runs.
pub open spec fn is_moving(s: RoverState) -> bool {
    s is Explore || s is Avoid || s is Retreat
}

/// Numeric severity of a safety level, in the order of the type.
pub open spec fn severity(s: SafetyState) -> int {
    match s {
        SafetyState::Normal => 0,
        SafetyState::Warn => 1,
        SafetyState::Limit => 2,
        SafetyState::FaultStall => 3,
    }
}

pub open spec fn clamp_explore(v: i16) -> i16 {
    if v < -EXPLORE_LIMIT {
        (-EXPLORE_LIMIT) as i16
    } else if v > EXPLORE_LIMIT {
        EXPLORE_LIMIT
    } else {
        v
    }
}

/// Whether a command is served in the current state or refused with `ERR:ESTOP`.
pub open spec fn is_refused(state: RoverState, cmd: Command) -> bool {
    is_halted(state) && !(cmd is Ping) && !(cmd is Reset)
}

/// State after `cmd` is processed in `state`.
pub open spec fn state_after(state: RoverState, cmd: Command) -> RoverState {
    if is_refused(state, cmd) {
        state
    } else {
        match cmd {
            Command::Ping => state,
            Command::Reset => RoverState::Standby,
            Command::Standby => RoverState::Standby,
            Command::Explore { .. } => RoverState::Explore,
            Command::Avoid(_) => RoverState::Avoid,
            Command::Retreat => RoverState::Retreat,
            Command::Fault => RoverState::Fault,
        }
    }
}

/// Drive target after `cmd` is processed in `state` with target `drive`.
pub open spec fn drive_after(state: RoverState, drive: DriveOutput, cmd: Command) -> DriveOutput {
    if is_refused(state, cmd) {
        drive
    } else {
        match cmd {
            Command::Ping => drive,
            Command::Reset => stop_drive(),
            Command::Standby => stop_drive(),
            Command::Explore { left, right } => DriveOutput {
                left: clamp_explore(left),
                right: clamp_explore(right),
            },
            Command::Avoid(AvoidDir::Left) => DriveOutput {
                left: (-AVOID_SPEED) as i16,
                right: AVOID_SPEED,
            },
            Command::Avoid(AvoidDir::Right) => DriveOutput {
                left: AVOID_SPEED,
                right: (-AVOID_SPEED) as i16,
            },
            Command::Retreat => DriveOutput { left: RETREAT_SPEED, right: RETREAT_SPEED },
            Command::Fault => stop_drive(),
        }
    }
}

/// Safety level after `cmd`: only `RST` changes it (back to `Normal`).
pub open spec fn safety_after(safety: SafetyState, cmd: Command) -> SafetyState {
    if cmd is Reset {
        SafetyState::Normal
    } else {
        safety
    }
}

/// Answer to `cmd` in `state`.
pub open spec fn response_to(state: RoverState, cmd: Command) -> Response {
    if cmd is Ping {
        Response::Pong
    } else if cmd is Reset {
        Response::Ack(RoverState::Standby)
    } else if is_halted(state) {
        Response::ErrEstop
    } else {
        Response::Ack(state_after(state, cmd))
    }
}

/// The relation between the machine before and after one watchdog tick, and
/// what the tick answers.
pub open spec fn tick_step(
    before: MachineView,
    after: MachineView,
    r: Option<Response>,
) -> bool {
    if !is_moving(before.state) {
        &&& after == before
        &&& r is None
    } else {
        let w: u16 = if before.watchdog < u16::MAX {
            (before.watchdog + 1) as u16
        } else {
            before.watchdog
        };
        &&& after.watchdog == w
        &&& after.safety == before.safety
        &&& if w >= WATCHDOG_MAX {
            &&& after.state == RoverState::Fault
            &&& after.drive == stop_drive()
            &&& r == Some(Response::ErrWatchdog)
        } else {
            &&& after.state == before.state
            &&& after.drive == before.drive
            &&& r is None
        }
    }
}

/// The machine as `new` builds it.
pub open spec fn initial_view() -> MachineView {
    MachineView {
        state: RoverState::Standby,
        safety: SafetyState::Normal,
        drive: stop_drive(),
        watchdog: 0,
    }
}

/// The machine after `process(cmd)`.
pub open spec fn process_view(m: MachineView, cmd: Command) -> MachineView {
    MachineView {
        state: state_after(m.state, cmd),
        safety: safety_after(m.safety, cmd),
        drive: drive_after(m.state, m.drive, cmd),
        watchdog: 0,
    }
}

/// The machine after `update_safety(stall_mask)`.
pub open spec fn stall_report_view(m: MachineView, stall_mask: u8) -> MachineView {
    if stall_mask != 0 {
        MachineView {
            state: RoverState::Fault,
            safety: SafetyState::FaultStall,
            drive: stop_drive(),
            watchdog: m.watchdog,
        }
    } else {
        m
    }
}

/// The machine after `update_overcurrent(level)`.
pub open spec fn level_report_view(m: MachineView, level: SafetyState) -> MachineView {
    if level is FaultStall {
        MachineView {
            state: RoverState::Fault,
            safety: SafetyState::FaultStall,
            drive: stop_drive(),
            watchdog: m.watchdog,
        }
    } else {
        MachineView {
            safety: if level is Warn || level is Limit {
                if severity(level) > severity(m.safety) {
                    level
                } else {
                    m.safety
                }
            } else if m.safety is Warn || m.safety is Limit {
                SafetyState::Normal
            } else {
                m.safety
            },
            ..m
        }
    }
}

/// `b` follows `a` by one call of `process`, `tick`, `update_safety` or
/// `update_overcurrent`.
pub open spec fn machine_step(a: MachineView, b: MachineView) -> bool {
    ||| exists|cmd: Command| b == #[trigger] process_view(a, cmd)
    ||| exists|r: Option<Response>| #[trigger] tick_step(a, b, r)
    ||| exists|mask: u8| b == #[trigger] stall_report_view(a, mask)
    ||| exists|level: SafetyState| b == #[trigger] level_report_view(a, level)
}

impl MachineView {
    /// The invariant that every operation keeps: no motion outside
    /// `Explore`, `Avoid` and `Retreat`, a stall/overcurrent fault always means the `Fault` state, and
    /// drive targets stay within ±99 %.
    pub open spec fn is_consistent(self) -> bool {
        &&& !is_moving(self.state) ==> self.drive == stop_drive()
        &&& self.safety is FaultStall ==> self.state is Fault
        &&& -EXPLORE_LIMIT <= self.drive.left <= EXPLORE_LIMIT
        &&& -EXPLORE_LIMIT <= self.drive.right <= EXPLORE_LIMIT
    }
}

impl MasterStateMachine {
    /// Current state, as in the view.
    pub fn state(&self) -> (s: RoverState)
        ensures
            s == self@.state,
    {
        self.state
    }

    /// Current safety level, as in the view.
    pub fn safety(&self) -> (s: SafetyState)
        ensures
            s == self@.safety,
    {
        self.safety
    }

    /// Current drive target, as in the view.
    pub fn drive(&self) -> (d: DriveOutput)
        ensures
            d == self@.drive,
    {
        self.drive
    }

    /// A machine in `Standby`, safety `Normal`, motors stopped.
    pub fn new() -> (m: Self)
        ensures
            m@.state == RoverState::Standby,
            m@.safety == SafetyState::Normal,
            m@.drive == stop_drive(),
            m@.watchdog == 0,
            m@ == initial_view(),
            m@.is_consistent(),
    {
        MasterStateMachine {
            state: RoverState::Standby,
            safety: SafetyState::Normal,
            drive: DriveOutput { left: 0, right: 0 },
            watchdog: 0,
        }
    }

    /// One watchdog tick (call once per loop cycle). In a moving state the
    /// counter advances; when it reaches `WATCHDOG_MAX` the rover faults and
    /// `ERR:WDOG` is returned.
    pub fn tick(&mut self) -> (r: Option<Response>)
        ensures
            tick_step(old(self)@, final(self)@, r),
            old(self)@.is_consistent() ==> final(self)@.is_consistent(),
    {
        match self.state {
            RoverState::Explore | RoverState::Avoid | RoverState::Retreat => {},
            _ => return None,
        }
        self.watchdog = self.watchdog.saturating_add(1);
        if self.watchdog >= WATCHDOG_MAX {
            self.state = RoverState::Fault;
            self.drive = DriveOutput { left: 0, right: 0 };
            return Some(Response::ErrWatchdog);
        }
        None
    }

    /// Processes one command: every command resets the watchdog; `PING` and
    /// `RST` are served in any state; in `Fault`/`Safe` every other command is
    /// refused with `ERR:ESTOP` and changes nothing.
    pub fn process(&mut self, cmd: Command) -> (r: Response)
        ensures
            final(self)@.watchdog == 0,
            final(self)@.state == state_after(old(self)@.state, cmd),
            final(self)@.drive == drive_after(old(self)@.state, old(self)@.drive, cmd),
            final(self)@.safety == safety_after(old(self)@.safety, cmd),
            r == response_to(old(self)@.state, cmd),
            final(self)@ == process_view(old(self)@, cmd),
            old(self)@.is_consistent() ==> final(self)@.is_consistent(),
    {
        self.watchdog = 0;
        match cmd {
            Command::Ping => { return Response::Pong; },
            Command::Reset => {
                self.state = RoverState::Standby;
                self.drive = DriveOutput { left: 0, right: 0 };
                self.safety = SafetyState::Normal;
                return Response::Ack(RoverState::Standby);
            },
            _ => {},
        }
        if self.state == RoverState::Fault || self.state == RoverState::Safe {
            return Response::ErrEstop;
        }
        match cmd {
            Command::Standby => {
                self.state = RoverState::Standby;
                self.drive = DriveOutput { left: 0, right: 0 };
                Response::Ack(RoverState::Standby)
            },
            Command::Explore { left, right } => {
                self.state = RoverState::Explore;
                self.drive = DriveOutput { left: clamp_speed(left), right: clamp_speed(right) };
                Response::Ack(RoverState::Explore)
            },
            Command::Avoid(dir) => {
                self.state = RoverState::Avoid;
                self.drive = match dir {
                    AvoidDir::Left => DriveOutput { left: -AVOID_SPEED, right: AVOID_SPEED },
                    AvoidDir::Right => DriveOutput { left: AVOID_SPEED, right: -AVOID_SPEED },
                };
                Response::Ack(RoverState::Avoid)
            },
            Command::Retreat => {
                self.state = RoverState::Retreat;
                self.drive = DriveOutput { left: RETREAT_SPEED, right: RETREAT_SPEED };
                Response::Ack(RoverState::Retreat)
            },
            Command::Fault => {
                self.state = RoverState::Fault;
                self.drive = DriveOutput { left: 0, right: 0 };
                Response::Ack(RoverState::Fault)
            },
            Command::Ping => Response::Pong,
            Command::Reset => Response::Ack(RoverState::Standby),
        }
    }

    /// Encoder stall report: any stalled motor (non-zero mask) faults the
    /// rover with safety `FaultStall` and stops it; a zero mask changes nothing.
    pub fn update_safety(&mut self, stall_mask: u8)
        ensures
            stall_mask != 0 ==> {
                &&& final(self)@.safety == SafetyState::FaultStall
                &&& final(self)@.state == RoverState::Fault
                &&& final(self)@.drive == stop_drive()
                &&& final(self)@.watchdog == old(self)@.watchdog
            },
            stall_mask == 0 ==> final(self)@ == old(self)@,
            final(self)@ == stall_report_view(old(self)@, stall_mask),
            old(self)@.is_consistent() ==> final(self)@.is_consistent(),
    {
        if stall_mask != 0 {
            self.safety = SafetyState::FaultStall;
            self.state = RoverState::Fault;
            self.drive = DriveOutput { left: 0, right: 0 };
        }
    }

    /// Overcurrent / overtemperature level report. `FaultStall` faults and
    /// stops the rover and returns `true`; `Warn`/`Limit` only raise the
    /// safety level; `Normal` clears `Warn`/`Limit` but never a `FaultStall`.
    pub fn update_overcurrent(&mut self, level: SafetyState) -> (faulted: bool)
        ensures
            faulted == (level is FaultStall),
            final(self)@.watchdog == old(self)@.watchdog,
            level is FaultStall ==> {
                &&& final(self)@.safety == SafetyState::FaultStall
                &&& final(self)@.state == RoverState::Fault
                &&& final(self)@.drive == stop_drive()
            },
            !(level is FaultStall) ==> {
                &&& final(self)@.state == old(self)@.state
                &&& final(self)@.drive == old(self)@.drive
            },
            (level is Warn || level is Limit) ==> final(self)@.safety == (if severity(level)
                > severity(old(self)@.safety) {
                level
            } else {
                old(self)@.safety
            }),
            level is Normal ==> final(self)@.safety == (if old(self)@.safety is Warn
                || old(self)@.safety is Limit {
                SafetyState::Normal
            } else {
                old(self)@.safety
            }),
            final(self)@ == level_report_view(old(self)@, level),
            old(self)@.is_consistent() ==> final(self)@.is_consistent(),
    {
        match level {
            SafetyState::FaultStall => {
                self.safety = SafetyState::FaultStall;
                self.state = RoverState::Fault;
                self.drive = DriveOutput { left: 0, right: 0 };
                true
            },
            SafetyState::Warn | SafetyState::Limit => {
                if severity_of(level) > severity_of(self.safety) {
                    self.safety = level;
                }
                false
            },
            SafetyState::Normal => {
                if self.safety == SafetyState::Warn || self.safety == SafetyState::Limit {
                    self.safety = SafetyState::Normal;
                }
                false
            },
        }
    }

    /// The full telemetry frame for the current safety level.
    pub fn telemetry(&self, stall_mask: u8, sensors: SensorFrame) -> (r: Response)
        ensures
            r == (Response::TelemetryFrame { safety: self@.safety, stall_mask, sensors }),
    {
        Response::TelemetryFrame { safety: self.safety, stall_mask, sensors }
    }
}

fn clamp_speed(v: i16) -> (r: i16)
    ensures
        r == clamp_explore(v),
{
    if v < -EXPLORE_LIMIT {
        -EXPLORE_LIMIT
    } else if v > EXPLORE_LIMIT {
        EXPLORE_LIMIT
    } else {
        v
    }
}

fn severity_of(s: SafetyState) -> (r: u8)
    ensures
        r == severity(s),
{
    match s {
        SafetyState::Normal => 0,
        SafetyState::Warn => 1,
        SafetyState::Limit => 2,
        SafetyState::FaultStall => 3,
    }
}

} // verus!

verus! {

proof fn lemma_watchdog_prefix(runs: Seq<MachineView>, answers: Seq<Option<Response>>, k: int)
    requires
        runs.len() == WATCHDOG_MAX + 1,
        answers.len() == WATCHDOG_MAX,
        is_moving(runs[0].state),
        runs[0].watchdog == 0,
        forall|i: int|
            0 <= i < WATCHDOG_MAX ==> tick_step(#[trigger] runs[i], runs[i + 1], answers[i]),
        0 <= k < WATCHDOG_MAX,
    ensures
        runs[k].watchdog == k,
        runs[k].state == runs[0].state,
        runs[k].drive == runs[0].drive,
    decreases k,
{
    if k > 0 {
        lemma_watchdog_prefix(runs, answers, k - 1);
        assert(tick_step(runs[k - 1], runs[k], answers[k - 1]));
    }
}

/// Watchdog law: from a moving state with a fresh watchdog (as left by any
/// processed command), the first `WATCHDOG_MAX - 1` ticks change neither the
/// state nor the drive target and answer nothing; the `WATCHDOG_MAX`-th tick
/// faults the rover, stops it and answers `ERR:WDOG`.
pub proof fn law_watchdog_expiry(runs: Seq<MachineView>, answers: Seq<Option<Response>>)
    requires
        runs.len() == WATCHDOG_MAX + 1,
        answers.len() == WATCHDOG_MAX,
        is_moving(runs[0].state),
        runs[0].watchdog == 0,
        forall|i: int|
            0 <= i < WATCHDOG_MAX ==> tick_step(#[trigger] runs[i], runs[i + 1], answers[i]),
    ensures
        forall|i: int|
            0 <= i < WATCHDOG_MAX ==> #[trigger] runs[i].state == runs[0].state && runs[i].drive
                == runs[0].drive,
        forall|i: int| 0 <= i < WATCHDOG_MAX - 1 ==> #[trigger] answers[i] is None,
        runs[WATCHDOG_MAX as int].state == RoverState::Fault,
        runs[WATCHDOG_MAX as int].drive == stop_drive(),
        answers[WATCHDOG_MAX - 1] == Some(Response::ErrWatchdog),
{
    assert forall|i: int| 0 <= i < WATCHDOG_MAX implies #[trigger] runs[i].state == runs[0].state
        && runs[i].drive == runs[0].drive by {
        lemma_watchdog_prefix(runs, answers, i);
    }
    assert forall|i: int| 0 <= i < WATCHDOG_MAX - 1 implies #[trigger] answers[i] is None by {
        lemma_watchdog_prefix(runs, answers, i);
        assert(tick_step(runs[i], runs[i + 1], answers[i]));
    }
    lemma_watchdog_prefix(runs, answers, WATCHDOG_MAX - 1);
    assert(tick_step(runs[WATCHDOG_MAX - 1], runs[WATCHDOG_MAX as int], answers[WATCHDOG_MAX - 1]));
}


/// One step of the machine keeps its invariant.
proof fn lemma_step_keeps_consistency(a: MachineView, b: MachineView)
    requires
        a.is_consistent(),
        machine_step(a, b),
    ensures
        b.is_consistent(),
{
    if exists|cmd: Command| b == #[trigger] process_view(a, cmd) {
        let cmd = choose|cmd: Command| b == #[trigger] process_view(a, cmd);
        assert(b == process_view(a, cmd));
    } else if exists|r: Option<Response>| #[trigger] tick_step(a, b, r) {
        let r = choose|r: Option<Response>| #[trigger] tick_step(a, b, r);
        assert(tick_step(a, b, r));
    } else if exists|mask: u8| b == #[trigger] stall_report_view(a, mask) {
        let mask = choose|mask: u8| b == #[trigger] stall_report_view(a, mask);
        assert(b == stall_report_view(a, mask));
    } else {
        let level = choose|level: SafetyState| b == #[trigger] level_report_view(a, level);
        assert(b == level_report_view(a, level));
    }
}

/// Drive law: in every machine reachable from `new` through any sequence
/// of `process`, `tick`, `update_safety` and `update_overcurrent` calls,
/// both drive targets lie within ±99 %, the motors are stopped in every
/// state but `Explore`, `Avoid` and `Retreat`, and a stall/overcurrent
/// fault means the `Fault` state.
pub proof fn law_reachable_machines_are_consistent(runs: Seq<MachineView>)
    requires
        runs.len() >= 1,
        runs[0] == initial_view(),
        forall|i: int| 0 <= i < runs.len() - 1 ==> machine_step(#[trigger] runs[i], runs[i + 1]),
    ensures
        forall|i: int|
            0 <= i < runs.len() ==> (#[trigger] runs[i]).is_consistent() && -EXPLORE_LIMIT
                <= runs[i].drive.left <= EXPLORE_LIMIT && -EXPLORE_LIMIT <= runs[i].drive.right
                <= EXPLORE_LIMIT && (!is_moving(runs[i].state) ==> runs[i].drive == stop_drive()),
    decreases runs.len(),
{
    if runs.len() > 1 {
        let prefix = runs.drop_last();
        assert forall|i: int| 0 <= i < prefix.len() - 1 implies machine_step(
            #[trigger] prefix[i],
            prefix[i + 1],
        ) by {
            assert(prefix[i] == runs[i] && prefix[i + 1] == runs[i + 1]);
            assert(machine_step(runs[i], runs[i + 1]));
        }
        law_reachable_machines_are_consistent(prefix);
        let n = runs.len() - 1;
        assert(prefix[n - 1] == runs[n - 1]);
        assert(machine_step(runs[n - 1], runs[n]));
        lemma_step_keeps_consistency(runs[n - 1], runs[n]);
        assert forall|i: int| 0 <= i < runs.len() implies (#[trigger] runs[i]).is_consistent() by {
            if i < n {
                assert(prefix[i] == runs[i]);
            }
        }
    }
}

/// Acknowledgement law: whenever a command is acknowledged with a state,
/// that state is the one the machine is in after the command.
pub proof fn law_ack_names_new_state(m: MachineView, cmd: Command)
    ensures
        response_to(m.state, cmd) matches Response::Ack(s) ==> process_view(m, cmd).state == s,
{
}

} // verus!
