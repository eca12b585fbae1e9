//! A command-line wipe from start to end, as a state machine: which device
//! is the target, when the operator must confirm it, and in which order the
//! log is written, the device opened, wiped and reformatted.
//!
//! `WipeSession::step` takes what the last operation reported and answers
//! with the next operation; the caller only performs them.

use vstd::prelude::*;
use vstd::string::*;
use crate::audit::entry::LogStatus;
use crate::device::info::{Device, DeviceView, devices_view};
use crate::device::platform::{find_device, status_for_failure};
use crate::session::{serial_matches, target_not_listed};
use crate::text::{contains_seq, trim};
use crate::wipe::engine::WipePass;

verus! {

/// Where a session stands: the operation it last asked for.
#[derive(Clone, Copy, Debug, PartialEq, Eq, Structural)]
pub enum SessionPhase {
    Begin,
    Listing,
    Asking,
    LoggingStart,
    Opening,
    Wiping,
    LoggingPass,
    Reformatting,
    LoggingEnd,
    Done,
}

/// How a session ended.
#[derive(Clone, Debug)]
pub enum SessionEnd {
    /// The wipe ran and its end was logged (whatever its outcome).
    Finished,
    /// The typed serial number did not match: nothing was written or opened.
    SerialMismatch,
    /// A step failed with this message.
    Failed(String),
}

pub enum SessionEndView {
    Finished,
    SerialMismatch,
    Failed(Seq<char>),
}

impl View for SessionEnd {
    type V = SessionEndView;

    open spec fn view(&self) -> SessionEndView {
        match self {
            SessionEnd::Finished => SessionEndView::Finished,
            SessionEnd::SerialMismatch => SessionEndView::SerialMismatch,
            SessionEnd::Failed(m) => SessionEndView::Failed(m@),
        }
    }
}

/// What the last operation reported.
pub enum WipeSessionEvent {
    /// The removable devices that were found.
    Devices(Vec<Device>),
    /// The operation succeeded.
    Done,
    /// The operation failed with this message.
    Failed(String),
    /// What the operator typed to confirm.
    SerialTyped(String),
    /// While the wipe runs: a pass completed.
    PassCompleted(WipePass),
    /// The wipe is over.
    WipeFinished { success: bool, error: Option<String> },
}

pub enum WipeSessionEventView {
    Devices(Seq<DeviceView>),
    Done,
    Failed(Seq<char>),
    SerialTyped(Seq<char>),
    PassCompleted(WipePass),
    WipeFinished { success: bool, error: Option<Seq<char>> },
}

impl View for WipeSessionEvent {
    type V = WipeSessionEventView;

    open spec fn view(&self) -> WipeSessionEventView {
        match self {
            WipeSessionEvent::Devices(d) => WipeSessionEventView::Devices(devices_view(d@)),
            WipeSessionEvent::Done => WipeSessionEventView::Done,
            WipeSessionEvent::Failed(m) => WipeSessionEventView::Failed(m@),
            WipeSessionEvent::SerialTyped(s) => WipeSessionEventView::SerialTyped(s@),
            WipeSessionEvent::PassCompleted(p) => WipeSessionEventView::PassCompleted(*p),
            WipeSessionEvent::WipeFinished { success, error } => WipeSessionEventView::WipeFinished {
                success: *success,
                error: error.deep_view(),
            },
        }
    }
}

/// The next operation of a session. The target device is `target()`.
#[derive(Clone, Debug)]
pub enum WipeSessionAction {
    /// List the removable devices (answer `Devices` or `Failed`).
    ListDevices,
    /// Show the target and ask for its serial number (answer `SerialTyped`).
    AskSerial,
    /// Log the start of the wipe (answer `Done` or `Failed`).
    WriteStartEntry,
    /// Open the target for raw writes (answer `Done` or `Failed`).
    OpenDevice,
    /// Start the wipe (answer `PassCompleted` or `WipeFinished`).
    RunWipe,
    /// Log that this pass completed, before the next pass writes anything.
    WritePassEntry { pass: WipePass },
    /// Let the wipe go on (answer `PassCompleted` or `WipeFinished`).
    ResumeWipe,
    /// Reformat the wiped device (its outcome is only reported).
    Reformat,
    /// Log the end of the wipe (answer `Done` or `Failed`).
    WriteEndEntry { status: LogStatus, error: Option<String> },
    /// The session is over.
    Stop(SessionEnd),
}

pub enum WipeSessionActionView {
    ListDevices,
    AskSerial,
    WriteStartEntry,
    OpenDevice,
    RunWipe,
    WritePassEntry { pass: WipePass },
    ResumeWipe,
    Reformat,
    WriteEndEntry { status: LogStatus, error: Option<Seq<char>> },
    Stop(SessionEndView),
}

impl View for WipeSessionAction {
    type V = WipeSessionActionView;

    open spec fn view(&self) -> WipeSessionActionView {
        match self {
            WipeSessionAction::ListDevices => WipeSessionActionView::ListDevices,
            WipeSessionAction::AskSerial => WipeSessionActionView::AskSerial,
            WipeSessionAction::WriteStartEntry => WipeSessionActionView::WriteStartEntry,
            WipeSessionAction::OpenDevice => WipeSessionActionView::OpenDevice,
            WipeSessionAction::RunWipe => WipeSessionActionView::RunWipe,
            WipeSessionAction::WritePassEntry { pass } => WipeSessionActionView::WritePassEntry { pass: *pass },
            WipeSessionAction::ResumeWipe => WipeSessionActionView::ResumeWipe,
            WipeSessionAction::Reformat => WipeSessionActionView::Reformat,
            WipeSessionAction::WriteEndEntry { status, error } => WipeSessionActionView::WriteEndEntry {
                status: *status,
                error: error.deep_view(),
            },
            WipeSessionAction::Stop(e) => WipeSessionActionView::Stop(e@),
        }
    }
}

/// The first device of the list with this path.
pub open spec fn first_device_with_path(ds: Seq<DeviceView>, path: Seq<char>) -> Option<DeviceView>
    decreases ds.len(),
{
    if ds.len() == 0 {
        None
    } else if ds[0].path == path {
        Some(ds[0])
    } else {
        first_device_with_path(ds.drop_first(), path)
    }
}

/// The message for a target that is not among the removable devices.
pub open spec fn not_listed_message(path: Seq<char>) -> Seq<char> {
    "设备不存在: "@ + ("设备 "@ + path + " 不在可移动设备列表中.\n运行 `purgedisk list` 查看可用设备."@)
}

/// The status logged for a wipe that did not complete: cancelled if its
/// message mentions "取消" (cancel), else interrupted.
pub open spec fn failure_status(message: Seq<char>) -> LogStatus {
    if contains_seq(message, "取消"@) {
        LogStatus::Cancelled
    } else {
        LogStatus::Interrupted
    }
}

/// The message of a wipe that did not complete ("未知错误" when it gave none).
pub open spec fn failure_message(error: Option<Seq<char>>) -> Seq<char> {
    match error {
        Some(m) => m,
        None => "未知错误"@,
    }
}

/// The state of a session, as mathematics.
pub struct WipeSessionView {
    /// The device path the operator named.
    pub target_path: Seq<char>,
    /// Whether the confirmation was waived (`--yes`).
    pub skip_confirmation: bool,
    pub phase: SessionPhase,
    pub target: Option<DeviceView>,
    /// What the operator typed, once asked.
    pub typed: Option<Seq<char>>,
    /// Whether the start entry was logged.
    pub start_logged: bool,
    /// Whether the wipe succeeded (once it finished).
    pub succeeded: bool,
    pub end: Option<SessionEndView>,
}

impl WipeSessionView {
    pub open spec fn initial(target_path: Seq<char>, skip_confirmation: bool) -> WipeSessionView {
        WipeSessionView {
            target_path,
            skip_confirmation,
            phase: SessionPhase::Begin,
            target: None,
            typed: None,
            start_logged: false,
            succeeded: false,
            end: None,
        }
    }

    /// Whether the operator confirmed the target: the confirmation was
    /// waived, or the typed text, without surrounding white space, is the
    /// target's serial number.
    pub open spec fn confirmed(self) -> bool {
        &&& self.target is Some
        &&& (self.skip_confirmation || (self.typed matches Some(t) && trim(t)
            == self.target->0.serial))
    }

    pub open spec fn finish(self, end: SessionEndView) -> (WipeSessionView, WipeSessionActionView) {
        (WipeSessionView { phase: SessionPhase::Done, end: Some(end), ..self }, WipeSessionActionView::Stop(end))
    }

    /// The operation a phase asks for; repeated on a report that does not fit.
    pub open spec fn pending(self) -> WipeSessionActionView {
        match self.phase {
            SessionPhase::Begin | SessionPhase::Listing => WipeSessionActionView::ListDevices,
            SessionPhase::Asking => WipeSessionActionView::AskSerial,
            SessionPhase::LoggingStart => WipeSessionActionView::WriteStartEntry,
            SessionPhase::Opening => WipeSessionActionView::OpenDevice,
            SessionPhase::Wiping | SessionPhase::LoggingPass => WipeSessionActionView::ResumeWipe,
            SessionPhase::Reformatting => WipeSessionActionView::Reformat,
            SessionPhase::LoggingEnd => WipeSessionActionView::WriteEndEntry {
                status: LogStatus::Completed,
                error: None,
            },
            SessionPhase::Done => WipeSessionActionView::Stop(SessionEndView::Finished),
        }
    }

    /// One step of a session: the state after `e` and the next operation.
    pub open spec fn step(self, e: WipeSessionEventView) -> (WipeSessionView, WipeSessionActionView) {
        match self.phase {
            SessionPhase::Begin => (
                WipeSessionView { phase: SessionPhase::Listing, ..self },
                WipeSessionActionView::ListDevices,
            ),
            SessionPhase::Listing => match e {
                WipeSessionEventView::Devices(ds) => match first_device_with_path(ds, self.target_path) {
                    None => self.finish(SessionEndView::Failed(not_listed_message(self.target_path))),
                    Some(d) => if self.skip_confirmation {
                        (
                            WipeSessionView { phase: SessionPhase::LoggingStart, target: Some(d), ..self },
                            WipeSessionActionView::WriteStartEntry,
                        )
                    } else {
                        (
                            WipeSessionView { phase: SessionPhase::Asking, target: Some(d), ..self },
                            WipeSessionActionView::AskSerial,
                        )
                    },
                },
                WipeSessionEventView::Failed(m) => self.finish(SessionEndView::Failed(m)),
                _ => (self, WipeSessionActionView::ListDevices),
            },
            SessionPhase::Asking => match e {
                WipeSessionEventView::SerialTyped(t) => {
                    let s = WipeSessionView { typed: Some(t), ..self };
                    if trim(t) == self.target->0.serial {
                        (
                            WipeSessionView { phase: SessionPhase::LoggingStart, ..s },
                            WipeSessionActionView::WriteStartEntry,
                        )
                    } else {
                        s.finish(SessionEndView::SerialMismatch)
                    }
                },
                _ => (self, WipeSessionActionView::AskSerial),
            },
            SessionPhase::LoggingStart => match e {
                WipeSessionEventView::Done => (
                    WipeSessionView { phase: SessionPhase::Opening, start_logged: true, ..self },
                    WipeSessionActionView::OpenDevice,
                ),
                WipeSessionEventView::Failed(m) => self.finish(SessionEndView::Failed(m)),
                _ => (self, WipeSessionActionView::WriteStartEntry),
            },
            SessionPhase::Opening => match e {
                WipeSessionEventView::Done => (
                    WipeSessionView { phase: SessionPhase::Wiping, ..self },
                    WipeSessionActionView::RunWipe,
                ),
                WipeSessionEventView::Failed(m) => self.finish(SessionEndView::Failed(m)),
                _ => (self, WipeSessionActionView::OpenDevice),
            },
            SessionPhase::Wiping => match e {
                WipeSessionEventView::PassCompleted(p) => (
                    WipeSessionView { phase: SessionPhase::LoggingPass, ..self },
                    WipeSessionActionView::WritePassEntry { pass: p },
                ),
                WipeSessionEventView::WipeFinished { success, error } => if success {
                    (
                        WipeSessionView { phase: SessionPhase::Reformatting, succeeded: true, ..self },
                        WipeSessionActionView::Reformat,
                    )
                } else {
                    (
                        WipeSessionView { phase: SessionPhase::LoggingEnd, succeeded: false, ..self },
                        WipeSessionActionView::WriteEndEntry {
                            status: failure_status(failure_message(error)),
                            error: Some(failure_message(error)),
                        },
                    )
                },
                _ => (self, WipeSessionActionView::ResumeWipe),
            },
            SessionPhase::LoggingPass => (
                WipeSessionView { phase: SessionPhase::Wiping, ..self },
                WipeSessionActionView::ResumeWipe,
            ),
            SessionPhase::Reformatting => (
                WipeSessionView { phase: SessionPhase::LoggingEnd, ..self },
                WipeSessionActionView::WriteEndEntry { status: LogStatus::Completed, error: None },
            ),
            SessionPhase::LoggingEnd => match e {
                WipeSessionEventView::Failed(m) => self.finish(SessionEndView::Failed(m)),
                _ => self.finish(SessionEndView::Finished),
            },
            SessionPhase::Done => (self, WipeSessionActionView::Stop(self.end->0)),
        }
    }

    /// The invariant of a session.
    pub open spec fn wf(self) -> bool {
        &&& (self.phase == SessionPhase::Done <==> self.end is Some)
        &&& match self.phase {
            SessionPhase::Begin | SessionPhase::Listing => self.target is None && self.typed is None
                && !self.start_logged,
            SessionPhase::Asking => self.target is Some && self.typed is None && !self.start_logged
                && !self.skip_confirmation,
            SessionPhase::LoggingStart => self.confirmed() && !self.start_logged,
            SessionPhase::Opening | SessionPhase::Wiping | SessionPhase::LoggingPass => self.confirmed()
                && self.start_logged,
            SessionPhase::Reformatting => self.confirmed() && self.start_logged && self.succeeded,
            SessionPhase::LoggingEnd => self.confirmed() && self.start_logged,
            SessionPhase::Done => true,
        }
    }
}

/// A session's invariant holds after every step, whatever was reported.
pub proof fn lemma_session_step_keeps_invariant(s: WipeSessionView, e: WipeSessionEventView)
    requires
        s.wf(),
    ensures
        s.step(e).0.wf(),
{
}

/// The target is never logged as started, opened or wiped unless the
/// operator confirmed it: `WriteStartEntry` comes only for a confirmed
/// target, and `OpenDevice` and `RunWipe` only once, in addition, the start
/// entry was logged.
pub proof fn lemma_device_used_only_after_confirmation(s: WipeSessionView, e: WipeSessionEventView)
    requires
        s.wf(),
    ensures
        s.step(e).1 is WriteStartEntry ==> s.step(e).0.confirmed(),
        (s.step(e).1 is OpenDevice || s.step(e).1 is RunWipe) ==> s.step(e).0.confirmed()
            && s.step(e).0.start_logged,
        s.step(e).1 is WritePassEntry || s.step(e).1 is Reformat || s.step(e).1 is WriteEndEntry
            ==> s.step(e).0.confirmed() && s.step(e).0.start_logged,
{
}

/// A mismatching serial stops the session before anything is written or
/// opened.
pub proof fn lemma_mismatch_stops_before_anything(s: WipeSessionView, t: Seq<char>)
    requires
        s.wf(),
        s.phase == SessionPhase::Asking,
        trim(t) != s.target->0.serial,
    ensures
        s.step(WipeSessionEventView::SerialTyped(t)).1 == WipeSessionActionView::Stop(SessionEndView::SerialMismatch),
        !s.step(WipeSessionEventView::SerialTyped(t)).0.start_logged,
{
}

/// Whether the report is that the wipe finished successfully.
pub open spec fn reports_success(e: WipeSessionEventView) -> bool {
    match e {
        WipeSessionEventView::WipeFinished { success, .. } => success,
        _ => false,
    }
}

/// The error of a report that the wipe finished without success.
pub open spec fn reported_failure(e: WipeSessionEventView) -> Option<Option<Seq<char>>> {
    match e {
        WipeSessionEventView::WipeFinished { success, error } => if success {
            None
        } else {
            Some(error)
        },
        _ => None,
    }
}

/// The device is reformatted exactly when the wipe succeeded.
pub proof fn lemma_reformat_only_on_success(s: WipeSessionView, e: WipeSessionEventView)
    requires
        s.wf(),
    ensures
        s.step(e).1 is Reformat <==> (s.phase == SessionPhase::Wiping && reports_success(e)),
{
}

/// The end entry records `Completed` (with no error) after a successful
/// wipe, else the status that the failure's message calls for, with that
/// message.
pub proof fn lemma_end_status(s: WipeSessionView, e: WipeSessionEventView)
    requires
        s.wf(),
        s.step(e).1 is WriteEndEntry,
    ensures
        s.phase == SessionPhase::Reformatting ==> s.succeeded && s.step(e).1
            == (WipeSessionActionView::WriteEndEntry { status: LogStatus::Completed, error: None }),
        s.phase != SessionPhase::Reformatting ==> s.phase == SessionPhase::Wiping && reported_failure(e) is Some
            && s.step(e).1 == (WipeSessionActionView::WriteEndEntry {
            status: failure_status(failure_message(reported_failure(e)->0)),
            error: Some(failure_message(reported_failure(e)->0)),
        }),
{
}

/// Every completed pass is logged before the wipe goes on: after
/// `WritePassEntry` the next operation is `ResumeWipe`, whatever is reported.
pub proof fn lemma_pass_logged_before_going_on(s: WipeSessionView, e: WipeSessionEventView, f: WipeSessionEventView)
    requires
        s.wf(),
        s.step(e).1 is WritePassEntry,
    ensures
        s.step(e).0.step(f).1 is ResumeWipe,
{
}

/// A command-line wipe session.
pub struct WipeSession {
    target_path: String,
    skip_confirmation: bool,
    phase: SessionPhase,
    target: Option<Device>,
    typed: Option<String>,
    start_logged: bool,
    succeeded: bool,
    end: Option<SessionEnd>,
}

pub open spec fn opt_device_view(d: Option<Device>) -> Option<DeviceView> {
    match d {
        Some(x) => Some(x@),
        None => None,
    }
}

pub open spec fn opt_end_view(e: Option<SessionEnd>) -> Option<SessionEndView> {
    match e {
        Some(x) => Some(x@),
        None => None,
    }
}

impl View for WipeSession {
    type V = WipeSessionView;

    closed spec fn view(&self) -> WipeSessionView {
        WipeSessionView {
            target_path: self.target_path@,
            skip_confirmation: self.skip_confirmation,
            phase: self.phase,
            target: opt_device_view(self.target),
            typed: self.typed.deep_view(),
            start_logged: self.start_logged,
            succeeded: self.succeeded,
            end: opt_end_view(self.end),
        }
    }
}

proof fn lemma_first_device(ds: Seq<DeviceView>, path: Seq<char>, i: int)
    requires
        0 <= i <= ds.len(),
        forall|j: int| 0 <= j < i ==> ds[j].path != path,
    ensures
        i < ds.len() && ds[i].path == path ==> first_device_with_path(ds, path) == Some(ds[i]),
        i == ds.len() ==> first_device_with_path(ds, path) is None,
    decreases i,
{
    if i > 0 {
        let t = ds.drop_first();
        assert forall|j: int| 0 <= j < i - 1 implies t[j].path != path by {
            assert(t[j] == ds[j + 1]);
        }
        lemma_first_device(t, path, i - 1);
        assert(ds[0].path != path);
        if i < ds.len() {
            assert(t[i - 1] == ds[i]);
        }
    }
}

fn copy_end(e: &SessionEnd) -> (r: SessionEnd)
    ensures
        r@ == e@,
{
    match e {
        SessionEnd::Finished => SessionEnd::Finished,
        SessionEnd::SerialMismatch => SessionEnd::SerialMismatch,
        SessionEnd::Failed(m) => SessionEnd::Failed(m.clone()),
    }
}

impl WipeSession {
    pub open spec fn inv(&self) -> bool {
        self@.wf()
    }

    /// A session that wipes the device at `target_path`; with
    /// `skip_confirmation` (`--yes`) the serial number is not asked for.
    pub fn new(target_path: &str, skip_confirmation: bool) -> (s: WipeSession)
        ensures
            s@ == WipeSessionView::initial(target_path@, skip_confirmation),
            s.inv(),
    {
        WipeSession {
            target_path: String::from_str(target_path),
            skip_confirmation,
            phase: SessionPhase::Begin,
            target: None,
            typed: None,
            start_logged: false,
            succeeded: false,
            end: None,
        }
    }

    /// The target device, once found.
    pub fn target(&self) -> (d: Option<&Device>)
        ensures
            opt_device_view(
                match d {
                    Some(x) => Some(*x),
                    None => None,
                },
            ) == self@.target,
    {
        match &self.target {
            Some(x) => Some(x),
            None => None,
        }
    }

    fn finish(&mut self, end: SessionEnd) -> (a: WipeSessionAction)
        ensures
            (final(self)@, a@) == old(self)@.finish(end@),
    {
        self.phase = SessionPhase::Done;
        let copy = copy_end(&end);
        self.end = Some(end);
        WipeSessionAction::Stop(copy)
    }

    /// Takes what the last operation reported and returns the next one.
    pub fn step(&mut self, event: WipeSessionEvent) -> (action: WipeSessionAction)
        requires
            old(self).inv(),
        ensures
            final(self).inv(),
            (final(self)@, action@) == old(self)@.step(event@),
    {
        proof {
            lemma_session_step_keeps_invariant(self@, event@);
        }
        match self.phase {
            SessionPhase::Begin => {
                self.phase = SessionPhase::Listing;
                WipeSessionAction::ListDevices
            },
            SessionPhase::Listing => match event {
                WipeSessionEvent::Devices(ds) => {
                    let ghost dv = devices_view(ds@);
                    match find_device(&ds, self.target_path.as_str()) {
                        None => {
                            proof {
                                lemma_first_device(dv, self.target_path@, dv.len() as int);
                            }
                            let m = target_not_listed(self.target_path.as_str()).message();
                            self.finish(SessionEnd::Failed(m))
                        },
                        Some(i) => {
                            proof {
                                assert forall|j: int| 0 <= j < i implies dv[j].path != self.target_path@ by {
                                    assert(dv[j] == ds@[j]@);
                                }
                                assert(dv[i as int] == ds@[i as int]@);
                                lemma_first_device(dv, self.target_path@, i as int);
                            }
                            let d = ds[i].copy();
                            self.target = Some(d);
                            if self.skip_confirmation {
                                self.phase = SessionPhase::LoggingStart;
                                WipeSessionAction::WriteStartEntry
                            } else {
                                self.phase = SessionPhase::Asking;
                                WipeSessionAction::AskSerial
                            }
                        },
                    }
                },
                WipeSessionEvent::Failed(m) => self.finish(SessionEnd::Failed(m)),
                _ => WipeSessionAction::ListDevices,
            },
            SessionPhase::Asking => match event {
                WipeSessionEvent::SerialTyped(t) => {
                    let ok = match &self.target {
                        Some(d) => serial_matches(t.as_str(), d.serial.as_str()),
                        None => false,
                    };
                    self.typed = Some(t);
                    if ok {
                        self.phase = SessionPhase::LoggingStart;
                        WipeSessionAction::WriteStartEntry
                    } else {
                        self.finish(SessionEnd::SerialMismatch)
                    }
                },
                _ => WipeSessionAction::AskSerial,
            },
            SessionPhase::LoggingStart => match event {
                WipeSessionEvent::Done => {
                    self.phase = SessionPhase::Opening;
                    self.start_logged = true;
                    WipeSessionAction::OpenDevice
                },
                WipeSessionEvent::Failed(m) => self.finish(SessionEnd::Failed(m)),
                _ => WipeSessionAction::WriteStartEntry,
            },
            SessionPhase::Opening => match event {
                WipeSessionEvent::Done => {
                    self.phase = SessionPhase::Wiping;
                    WipeSessionAction::RunWipe
                },
                WipeSessionEvent::Failed(m) => self.finish(SessionEnd::Failed(m)),
                _ => WipeSessionAction::OpenDevice,
            },
            SessionPhase::Wiping => match event {
                WipeSessionEvent::PassCompleted(p) => {
                    self.phase = SessionPhase::LoggingPass;
                    WipeSessionAction::WritePassEntry { pass: p }
                },
                WipeSessionEvent::WipeFinished { success, error } => {
                    if success {
                        self.phase = SessionPhase::Reformatting;
                        self.succeeded = true;
                        WipeSessionAction::Reformat
                    } else {
                        let m = match error {
                            Some(m) => m,
                            None => String::from_str("未知错误"),
                        };
                        let status = status_for_failure(m.as_str());
                        self.phase = SessionPhase::LoggingEnd;
                        self.succeeded = false;
                        WipeSessionAction::WriteEndEntry { status, error: Some(m) }
                    }
                },
                _ => WipeSessionAction::ResumeWipe,
            },
            SessionPhase::LoggingPass => {
                self.phase = SessionPhase::Wiping;
                WipeSessionAction::ResumeWipe
            },
            SessionPhase::Reformatting => {
                self.phase = SessionPhase::LoggingEnd;
                WipeSessionAction::WriteEndEntry { status: LogStatus::Completed, error: None }
            },
            SessionPhase::LoggingEnd => match event {
                WipeSessionEvent::Failed(m) => self.finish(SessionEnd::Failed(m)),
                _ => self.finish(SessionEnd::Finished),
            },
            SessionPhase::Done => {
                let e = match &self.end {
                    Some(e) => copy_end(e),
                    None => SessionEnd::Finished,
                };
                WipeSessionAction::Stop(e)
            },
        }
    }
}

} // verus!
