//! The overwrite engine.
//!
//! A run overwrites a device three times (0x00, 0xFF, random bytes). The
//! engine never touches the device itself: `WipeRun::step` takes what the
//! last device operation reported and answers with the next operation to
//! perform, so every decision of a run is made (and verified) here while
//! the caller only performs the input and output.

use vstd::prelude::*;
use vstd::string::*;
use crate::text::push_char;

verus! {

/// Configuration of an overwrite run.
#[derive(Clone, Copy, Debug)]
pub struct WipeConfig {
    /// Size of one write, in bytes (1 MiB by default).
    pub buffer_size: usize,
    /// Whether each pass should be read back afterwards.
    pub verify: bool,
}

impl Default for WipeConfig {
    fn default() -> (c: Self)
        ensures
            c.buffer_size == 1024 * 1024,
            !c.verify,
    {
        WipeConfig { buffer_size: 1024 * 1024, verify: false }
    }
}

/// The byte pattern of one overwrite pass.
#[derive(Clone, Copy, Debug, PartialEq, Eq, Structural)]
pub enum WipePass {
    /// Every byte 0x00.
    Zero,
    /// Every byte 0xFF.
    One,
    /// Fresh random bytes for every write.
    Random,
}

impl WipePass {
    /// The fixed byte of the pass, if it has one.
    pub open spec fn spec_pattern_byte(self) -> Option<u8> {
        match self {
            WipePass::Zero => Some(0x00u8),
            WipePass::One => Some(0xFFu8),
            WipePass::Random => None,
        }
    }

    /// The 1-based position of the pass in the standard sequence.
    pub open spec fn spec_index(self) -> u32 {
        match self {
            WipePass::Zero => 1,
            WipePass::One => 2,
            WipePass::Random => 3,
        }
    }

    /// The operator-facing description of the pass.
    pub open spec fn spec_description(self) -> Seq<char> {
        match self {
            WipePass::Zero => "全 0x00 填充"@,
            WipePass::One => "全 0xFF 填充"@,
            WipePass::Random => "随机数据填充"@,
        }
    }

    /// The short name of the pattern used in logs.
    pub open spec fn spec_pattern_name(self) -> Seq<char> {
        match self {
            WipePass::Zero => "0x00"@,
            WipePass::One => "0xFF"@,
            WipePass::Random => "RANDOM"@,
        }
    }

    pub fn description(&self) -> (s: &'static str)
        ensures
            s@ == self.spec_description(),
    {
        match self {
            WipePass::Zero => "全 0x00 填充",
            WipePass::One => "全 0xFF 填充",
            WipePass::Random => "随机数据填充",
        }
    }

    pub fn pattern_byte(&self) -> (b: Option<u8>)
        ensures
            b == self.spec_pattern_byte(),
    {
        match self {
            WipePass::Zero => Some(0x00),
            WipePass::One => Some(0xFF),
            WipePass::Random => None,
        }
    }

    pub fn index(&self) -> (i: u32)
        ensures
            i == self.spec_index(),
    {
        match self {
            WipePass::Zero => 1,
            WipePass::One => 2,
            WipePass::Random => 3,
        }
    }
}

/// The short name of a pass's pattern: "0x00", "0xFF" or "RANDOM".
pub fn format_pattern_name(pass: WipePass) -> (s: &'static str)
    ensures
        s@ == pass.spec_pattern_name(),
{
    match pass {
        WipePass::Zero => "0x00",
        WipePass::One => "0xFF",
        WipePass::Random => "RANDOM",
    }
}

/// The standard (DoD 5220.22-M) sequence of passes: 0x00, then 0xFF, then random.
pub open spec fn dod_pass(i: int) -> WipePass {
    if i == 0 {
        WipePass::Zero
    } else if i == 1 {
        WipePass::One
    } else {
        WipePass::Random
    }
}

/// The pass at position `i` (0-based) of the standard sequence.
pub fn dod_pass_at(i: usize) -> (p: WipePass)
    requires
        i < 3,
    ensures
        p == dod_pass(i as int),
{
    if i == 0 {
        WipePass::Zero
    } else if i == 1 {
        WipePass::One
    } else {
        WipePass::Random
    }
}

/// The whole standard sequence of passes.
pub fn dod_passes() -> (v: Vec<WipePass>)
    ensures
        v@ == seq![WipePass::Zero, WipePass::One, WipePass::Random],
{
    vec![WipePass::Zero, WipePass::One, WipePass::Random]
}


/// What became of one pass.
#[derive(Clone, Debug)]
pub struct PassOutcome {
    /// 0-based position of the pass in the run.
    pub pass_index: u32,
    pub pattern: WipePass,
    pub bytes_written: u64,
    pub success: bool,
    pub error: Option<String>,
}

pub struct PassOutcomeView {
    pub pass_index: u32,
    pub pattern: WipePass,
    pub bytes_written: u64,
    pub success: bool,
    pub error: Option<Seq<char>>,
}

impl View for PassOutcome {
    type V = PassOutcomeView;

    open spec fn view(&self) -> PassOutcomeView {
        PassOutcomeView {
            pass_index: self.pass_index,
            pattern: self.pattern,
            bytes_written: self.bytes_written,
            success: self.success,
            error: self.error.deep_view(),
        }
    }
}

/// What became of a whole run.
#[derive(Clone, Debug)]
pub struct WipeOutcome {
    pub success: bool,
    pub total_written: u64,
    pub total_size: u64,
    pub passes: Vec<PassOutcome>,
    pub error: Option<String>,
}

pub struct WipeOutcomeView {
    pub success: bool,
    pub total_written: u64,
    pub total_size: u64,
    pub passes: Seq<PassOutcomeView>,
    pub error: Option<Seq<char>>,
}

pub open spec fn outcomes_view(v: Seq<PassOutcome>) -> Seq<PassOutcomeView> {
    v.map_values(|p: PassOutcome| p@)
}

impl View for WipeOutcome {
    type V = WipeOutcomeView;

    open spec fn view(&self) -> WipeOutcomeView {
        WipeOutcomeView {
            success: self.success,
            total_written: self.total_written,
            total_size: self.total_size,
            passes: outcomes_view(self.passes@),
            error: self.error.deep_view(),
        }
    }
}

/// What the device reported about the operation that the engine asked for.
#[derive(Clone, Debug)]
pub enum DeviceReport {
    /// The operation succeeded (for `StartPass` and `EndPass`: was taken note of).
    Completed,
    /// The operation failed with this message.
    Failed(String),
    /// The answer to `CheckCancel`: whether the operator asked to stop.
    CancelRequested(bool),
}

pub enum DeviceReportView {
    Completed,
    Failed(Seq<char>),
    CancelRequested(bool),
}

impl View for DeviceReport {
    type V = DeviceReportView;

    open spec fn view(&self) -> DeviceReportView {
        match self {
            DeviceReport::Completed => DeviceReportView::Completed,
            DeviceReport::Failed(m) => DeviceReportView::Failed(m@),
            DeviceReport::CancelRequested(b) => DeviceReportView::CancelRequested(*b),
        }
    }
}

/// The next device operation that the engine asks for.
#[derive(Clone, Debug)]
pub enum WipeAction {
    /// A pass begins: reset the per-pass progress (answer `Completed`).
    StartPass { index: u32, pass: WipePass },
    /// Move to the start of the device.
    Seek,
    /// Report whether the operator asked to stop (answer `CancelRequested`).
    CheckCancel,
    /// Write the first `len` bytes of the engine's buffer.
    Write { len: usize },
    /// Flush the device; a failure only matters when `must_succeed`.
    Flush { must_succeed: bool },
    /// A pass ended with this outcome (answer `Completed`).
    EndPass(PassOutcome),
    /// The run is over.
    Finished(WipeOutcome),
}

pub enum WipeActionView {
    StartPass { index: u32, pass: WipePass },
    Seek,
    CheckCancel,
    Write { len: usize },
    Flush { must_succeed: bool },
    EndPass(PassOutcomeView),
    Finished(WipeOutcomeView),
}

impl View for WipeAction {
    type V = WipeActionView;

    open spec fn view(&self) -> WipeActionView {
        match self {
            WipeAction::StartPass { index, pass } => WipeActionView::StartPass {
                index: *index,
                pass: *pass,
            },
            WipeAction::Seek => WipeActionView::Seek,
            WipeAction::CheckCancel => WipeActionView::CheckCancel,
            WipeAction::Write { len } => WipeActionView::Write { len: *len },
            WipeAction::Flush { must_succeed } => WipeActionView::Flush {
                must_succeed: *must_succeed,
            },
            WipeAction::EndPass(o) => WipeActionView::EndPass(o@),
            WipeAction::Finished(o) => WipeActionView::Finished(o@),
        }
    }
}

/// Where a run stands: the operation it last asked for.
#[derive(Clone, Copy, Debug, PartialEq, Eq, Structural)]
pub enum Phase {
    Begin,
    StartPass,
    SeekPass,
    CancelInPass,
    Write(usize),
    PeriodicFlush,
    FinalFlush,
    EndPass,
    CancelAfterPass,
    ResetSeek,
    Done,
}

/// The state of a run, as mathematics.
pub struct WipeRunView {
    pub buffer_size: usize,
    pub total_size: u64,
    /// 0-based position of the current pass (3 once all passes are done).
    pub pass_index: usize,
    /// Bytes written in the current pass.
    pub written: u64,
    pub total_written: u64,
    pub passes: Seq<PassOutcomeView>,
    pub phase: Phase,
    pub success: bool,
    pub error: Option<Seq<char>>,
}

/// Sum of the bytes written by the given passes.
pub open spec fn sum_bytes(passes: Seq<PassOutcomeView>) -> int
    decreases passes.len(),
{
    if passes.len() == 0 {
        0
    } else {
        sum_bytes(passes.drop_last()) + passes.last().bytes_written
    }
}

impl WipeRunView {
    /// The run as it is handed out by `WipeEngine::start`.
    pub open spec fn initial(buffer_size: usize, total_size: u64) -> WipeRunView {
        WipeRunView {
            buffer_size,
            total_size,
            pass_index: 0,
            written: 0,
            total_written: 0,
            passes: Seq::empty(),
            phase: Phase::Begin,
            success: false,
            error: None,
        }
    }

    pub open spec fn outcome(self) -> WipeOutcomeView {
        WipeOutcomeView {
            success: self.success,
            total_written: self.total_written,
            total_size: self.total_size,
            passes: self.passes,
            error: self.error,
        }
    }

    /// Length of the next write: a full buffer, or what is left of the device.
    pub open spec fn chunk_len(self) -> usize {
        if (self.total_size - self.written) < self.buffer_size {
            (self.total_size - self.written) as usize
        } else {
            self.buffer_size
        }
    }

    /// Ends the run.
    pub open spec fn finish(self, success: bool, error: Option<Seq<char>>) -> (WipeRunView, WipeActionView) {
        let s = WipeRunView { phase: Phase::Done, success, error, ..self };
        (s, WipeActionView::Finished(s.outcome()))
    }

    /// Ends the current pass, counting what it wrote.
    pub open spec fn end_pass(self, success: bool, error: Option<Seq<char>>) -> (WipeRunView, WipeActionView) {
        let o = PassOutcomeView {
            pass_index: self.pass_index as u32,
            pattern: dod_pass(self.pass_index as int),
            bytes_written: self.written,
            success,
            error,
        };
        let s = WipeRunView {
            total_written: (self.total_written + self.written) as u64,
            passes: self.passes.push(o),
            phase: Phase::EndPass,
            ..self
        };
        (s, WipeActionView::EndPass(o))
    }

    /// Goes on with the current pass: check for a cancel while bytes are
    /// left, else the final flush.
    pub open spec fn continue_pass(self) -> (WipeRunView, WipeActionView) {
        if self.written < self.total_size {
            (WipeRunView { phase: Phase::CancelInPass, ..self }, WipeActionView::CheckCancel)
        } else {
            (WipeRunView { phase: Phase::FinalFlush, ..self }, WipeActionView::Flush { must_succeed: true })
        }
    }

    /// One step of a run: the state after `event` and the next operation.
    pub open spec fn step(self, event: DeviceReportView) -> (WipeRunView, WipeActionView) {
        match self.phase {
            Phase::Begin => (
                WipeRunView { phase: Phase::StartPass, ..self },
                WipeActionView::StartPass { index: 0, pass: WipePass::Zero },
            ),
            Phase::StartPass => (WipeRunView { phase: Phase::SeekPass, ..self }, WipeActionView::Seek),
            Phase::SeekPass => match event {
                DeviceReportView::Failed(m) => self.end_pass(false, Some("Seek 失败: "@ + m)),
                _ => self.continue_pass(),
            },
            Phase::CancelInPass => match event {
                DeviceReportView::CancelRequested(true) => self.end_pass(false, Some("用户取消"@)),
                _ => {
                    let len = self.chunk_len();
                    (WipeRunView { phase: Phase::Write(len), ..self }, WipeActionView::Write { len })
                },
            },
            Phase::Write(len) => match event {
                DeviceReportView::Failed(m) => self.end_pass(false, Some("写入失败: "@ + m)),
                _ => {
                    let s = WipeRunView { written: (self.written + len) as u64, ..self };
                    if (s.written as int) % (self.buffer_size * 16) == 0 {
                        (WipeRunView { phase: Phase::PeriodicFlush, ..s }, WipeActionView::Flush { must_succeed: false })
                    } else {
                        s.continue_pass()
                    }
                },
            },
            Phase::PeriodicFlush => self.continue_pass(),
            Phase::FinalFlush => match event {
                DeviceReportView::Failed(m) => self.end_pass(false, Some("Flush 失败: "@ + m)),
                _ => self.end_pass(true, None),
            },
            Phase::EndPass => if self.passes.last().success {
                (WipeRunView { phase: Phase::CancelAfterPass, ..self }, WipeActionView::CheckCancel)
            } else {
                self.finish(false, self.passes.last().error)
            },
            Phase::CancelAfterPass => match event {
                DeviceReportView::CancelRequested(true) => self.finish(false, Some("用户取消操作"@)),
                _ => (WipeRunView { phase: Phase::ResetSeek, ..self }, WipeActionView::Seek),
            },
            Phase::ResetSeek => match event {
                DeviceReportView::Failed(_) => self.finish(false, Some("无法重置文件位置"@)),
                _ => if self.pass_index + 1 >= 3 {
                    WipeRunView { pass_index: (self.pass_index + 1) as usize, ..self }.finish(true, None)
                } else {
                    let next = (self.pass_index + 1) as usize;
                    (
                        WipeRunView { pass_index: next, written: 0, phase: Phase::StartPass, ..self },
                        WipeActionView::StartPass { index: next as u32, pass: dod_pass(next as int) },
                    )
                },
            },
            Phase::Done => (self, WipeActionView::Finished(self.outcome())),
        }
    }

    /// The invariant of a run.
    pub open spec fn wf(self) -> bool {
        &&& (self.total_size == 0 || (0 < self.buffer_size && self.buffer_size * 16 <= u64::MAX))
        &&& 3 * self.total_size <= u64::MAX
        &&& self.written <= self.total_size
        &&& self.pass_index <= 3
        &&& self.passes.len() <= 3
        &&& self.total_written == sum_bytes(self.passes)
        &&& forall|i: int| 0 <= i < self.passes.len() ==> {
            let p = #[trigger] self.passes[i];
            &&& p.pass_index == i
            &&& p.pattern == dod_pass(i)
            &&& p.bytes_written <= self.total_size
            &&& (p.success ==> p.bytes_written == self.total_size && p.error is None)
            &&& (!p.success ==> p.error is Some)
        }
        &&& match self.phase {
            Phase::Begin => self.pass_index == 0 && self.passes.len() == 0 && self.written == 0,
            Phase::StartPass | Phase::SeekPass => self.in_pass() && self.written == 0,
            Phase::CancelInPass => self.in_pass() && self.written < self.total_size,
            Phase::Write(len) => self.in_pass() && self.written < self.total_size && len == self.chunk_len(),
            Phase::PeriodicFlush => self.in_pass(),
            Phase::FinalFlush => self.in_pass() && self.written == self.total_size,
            Phase::EndPass => self.after_pass(),
            Phase::CancelAfterPass | Phase::ResetSeek => self.after_pass() && self.passes.last().success,
            Phase::Done => {
                &&& self.passes.len() >= 1
                &&& forall|i: int| 0 <= i < self.passes.len() - 1 ==> (#[trigger] self.passes[i]).success
                &&& (self.success ==> self.passes.len() == 3 && self.passes.last().success && self.error is None)
                &&& (!self.success ==> self.error is Some)
                &&& (!self.passes.last().success ==> !self.success && self.error == self.passes.last().error)
            },
        }
    }

    /// Inside pass `pass_index`: every earlier pass succeeded.
    pub open spec fn in_pass(self) -> bool {
        &&& self.pass_index < 3
        &&& self.passes.len() == self.pass_index
        &&& forall|i: int| 0 <= i < self.passes.len() ==> (#[trigger] self.passes[i]).success
    }

    /// Pass `pass_index` just ended; every earlier pass succeeded.
    pub open spec fn after_pass(self) -> bool {
        &&& self.pass_index < 3
        &&& self.passes.len() == self.pass_index + 1
        &&& forall|i: int| 0 <= i < self.passes.len() - 1 ==> (#[trigger] self.passes[i]).success
    }
}


proof fn lemma_sum_bytes_push(passes: Seq<PassOutcomeView>, o: PassOutcomeView)
    ensures
        sum_bytes(passes.push(o)) == sum_bytes(passes) + o.bytes_written,
{
    assert(passes.push(o).drop_last() =~= passes);
}

proof fn lemma_end_pass_keeps_invariant(s: WipeRunView, success: bool, error: Option<Seq<char>>)
    requires
        s.wf(),
        s.in_pass(),
        success ==> s.written == s.total_size && error is None,
        !success ==> error is Some,
    ensures
        s.end_pass(success, error).0.wf(),
{
    let o = PassOutcomeView {
        pass_index: s.pass_index as u32,
        pattern: dod_pass(s.pass_index as int),
        bytes_written: s.written,
        success,
        error,
    };
    lemma_sum_bytes_push(s.passes, o);
    let t = s.end_pass(success, error).0;
    assert(t.passes == s.passes.push(o));
    assert forall|i: int| 0 <= i < t.passes.len() - 1 implies (#[trigger] t.passes[i]).success by {
        assert(t.passes[i] == s.passes[i]);
    }
    assert(sum_bytes(s.passes) <= 2 * s.total_size) by {
        lemma_sum_bytes_bound(s.passes, s.total_size);
        let n = s.passes.len() as int;
        let t = s.total_size as int;
        assert(n * t <= 2 * t) by (nonlinear_arith)
            requires
                0 <= n <= 2,
                0 <= t,
        ;
    }
}

proof fn lemma_sum_bytes_bound(passes: Seq<PassOutcomeView>, total: u64)
    requires
        forall|i: int| 0 <= i < passes.len() ==> (#[trigger] passes[i]).bytes_written <= total,
    ensures
        0 <= sum_bytes(passes) <= passes.len() * total,
    decreases passes.len(),
{
    if passes.len() > 0 {
        let q = passes.drop_last();
        assert forall|i: int| 0 <= i < q.len() implies (#[trigger] q[i]).bytes_written <= total by {
            assert(q[i] == passes[i]);
        }
        lemma_sum_bytes_bound(q, total);
        assert(passes.last() == passes[passes.len() - 1]);
        assert((passes.len() - 1) * total + total == passes.len() * total) by (nonlinear_arith);
    }
}

/// A run's invariant holds after every step, whatever the device reported.
pub proof fn lemma_step_keeps_invariant(s: WipeRunView, e: DeviceReportView)
    requires
        s.wf(),
    ensures
        s.step(e).0.wf(),
{
    match s.phase {
        Phase::SeekPass => {
            if let DeviceReportView::Failed(m) = e {
                lemma_end_pass_keeps_invariant(s, false, Some("Seek 失败: "@ + m));
            }
        },
        Phase::CancelInPass => {
            if e == DeviceReportView::CancelRequested(true) {
                lemma_end_pass_keeps_invariant(s, false, Some("用户取消"@));
            }
        },
        Phase::Write(len) => {
            if let DeviceReportView::Failed(m) = e {
                lemma_end_pass_keeps_invariant(s, false, Some("写入失败: "@ + m));
            } else {
                assert(s.written + len <= s.total_size);
            }
        },
        Phase::FinalFlush => {
            if let DeviceReportView::Failed(m) = e {
                lemma_end_pass_keeps_invariant(s, false, Some("Flush 失败: "@ + m));
            } else {
                lemma_end_pass_keeps_invariant(s, true, None);
            }
        },
        Phase::EndPass => {
            let t = s.step(e).0;
            if !s.passes.last().success {
                assert(s.passes.last() == s.passes[s.passes.len() - 1]);
            }
        },
        Phase::CancelAfterPass => {
            let t = s.step(e).0;
            assert(s.passes.last() == s.passes[s.passes.len() - 1]);
        },
        Phase::ResetSeek => {
            let t = s.step(e).0;
            assert(s.passes.last() == s.passes[s.passes.len() - 1]);
            assert forall|i: int| 0 <= i < s.passes.len() implies (#[trigger] s.passes[i]).success by {
                if i == s.passes.len() - 1 {
                } else {
                }
            }
        },
        _ => {},
    }
}


/// The run state that `WipeEngine::start` hands out is well formed.
pub proof fn lemma_initial_run_is_well_formed(buffer_size: usize, total_size: u64)
    requires
        total_size == 0 || (0 < buffer_size && buffer_size * 16 <= u64::MAX),
        3 * total_size <= u64::MAX,
    ensures
        WipeRunView::initial(buffer_size, total_size).wf(),
{
}

/// A run that ends in success wrote the whole device three times, with the
/// patterns 0x00, 0xFF and random in this order, and counted exactly that.
pub proof fn lemma_success_means_three_full_passes(s: WipeRunView)
    requires
        s.wf(),
        s.phase == Phase::Done,
        s.success,
    ensures
        s.passes.len() == 3,
        forall|i: int|
            0 <= i < 3 ==> {
                let p = #[trigger] s.passes[i];
                &&& p.pattern == dod_pass(i)
                &&& p.success
                &&& p.bytes_written == s.total_size
            },
        s.total_written == 3 * s.total_size,
        s.error is None,
        s.passes[0].pattern == WipePass::Zero,
        s.passes[1].pattern == WipePass::One,
        s.passes[2].pattern == WipePass::Random,
{
    assert(s.passes.last() == s.passes[2]);
    assert(s.passes[0].success && s.passes[1].success);
    let p = s.passes;
    assert(p.drop_last().drop_last().drop_last() =~= Seq::<PassOutcomeView>::empty());
    assert(p.drop_last().last() == p[1]);
    assert(p.drop_last().drop_last().last() == p[0]);
    reveal_with_fuel(sum_bytes, 4);
}

/// Every write that a run asks for lies inside the device, is not empty and
/// fits in the buffer.
pub proof fn lemma_writes_stay_on_device(s: WipeRunView, e: DeviceReportView)
    requires
        s.wf(),
        s.step(e).1 is Write,
    ensures
        0 < s.step(e).1->len <= s.buffer_size,
        s.step(e).0.written + s.step(e).1->len <= s.total_size,
{
}

/// Rank of a phase inside a pass: later phases rank lower.
pub open spec fn phase_rank(p: Phase) -> int {
    match p {
        Phase::Begin => 12,
        Phase::StartPass => 11,
        Phase::SeekPass => 10,
        Phase::PeriodicFlush => 9,
        Phase::CancelInPass => 8,
        Phase::Write(_) => 7,
        Phase::FinalFlush => 6,
        Phase::EndPass => 5,
        Phase::CancelAfterPass => 4,
        Phase::ResetSeek => 3,
        Phase::Done => 0,
    }
}

/// `t` lies strictly further along a run than `s`: a later pass, or more
/// bytes written in the same pass, or a later phase with the same bytes.
pub open spec fn further_along(t: WipeRunView, s: WipeRunView) -> bool {
    ||| t.pass_index > s.pass_index
    ||| t.pass_index == s.pass_index && t.written > s.written
    ||| t.pass_index == s.pass_index && t.written == s.written && phase_rank(t.phase) < phase_rank(s.phase)
}

/// Every step of an unfinished run moves it strictly further along; since
/// pass, bytes and phase are bounded, every run finishes.
pub proof fn lemma_step_makes_progress(s: WipeRunView, e: DeviceReportView)
    requires
        s.wf(),
        s.phase != Phase::Done,
    ensures
        further_along(s.step(e).0, s),
{
}

/// Copies an optional message.
fn copy_message(m: &Option<String>) -> (r: Option<String>)
    ensures
        r.deep_view() == m.deep_view(),
{
    match m {
        Some(s) => Some(s.clone()),
        None => None,
    }
}

impl PassOutcome {
    /// A copy of the outcome.
    pub fn copy(&self) -> (r: PassOutcome)
        ensures
            r@ == self@,
    {
        PassOutcome {
            pass_index: self.pass_index,
            pattern: self.pattern,
            bytes_written: self.bytes_written,
            success: self.success,
            error: copy_message(&self.error),
        }
    }
}

/// Copies a list of pass outcomes.
fn copy_outcomes(v: &Vec<PassOutcome>) -> (r: Vec<PassOutcome>)
    ensures
        outcomes_view(r@) == outcomes_view(v@),
{
    let mut r: Vec<PassOutcome> = Vec::new();
    let mut i: usize = 0;
    while i < v.len()
        invariant
            i <= v.len(),
            outcomes_view(r@) == outcomes_view(v@.subrange(0, i as int)),
        decreases v.len() - i,
    {
        let o = v[i].copy();
        let ghost old_r = r@;
        r.push(o);
        proof {
            assert(v@.subrange(0, i + 1) =~= v@.subrange(0, i as int).push(v@[i as int]));
            assert(outcomes_view(r@) =~= outcomes_view(old_r).push(o@));
            assert(outcomes_view(v@.subrange(0, i + 1)) =~= outcomes_view(v@.subrange(0, i as int)).push(v@[i as int]@));
        }
        i = i + 1;
    }
    assert(v@.subrange(0, v.len() as int) =~= v@);
    r
}

/// `len` random bytes from the thread-local generator of `rand`
/// (`thread_rng()`, through `RngCore::fill_bytes` on a fresh buffer).
/// Claims only that there are `len` of them: the bytes are chance.
#[verifier::external_body]
fn draw_random(len: usize) -> (v: Vec<u8>)
    ensures
        v@.len() == len,
{
    let mut v = vec![0u8; len];
    rand::RngCore::fill_bytes(&mut rand::thread_rng(), &mut v);
    v
}

/// Whether `bytes` came out of the random generator: they are what a call
/// `draw_random(len)` returned.
pub closed spec fn drawn_by_generator(len: usize, bytes: Seq<u8>) -> bool {
    exists|v: Vec<u8>| #[trigger] call_ensures(draw_random, (len,), v) && v@ == bytes
}

/// A buffer of `n` bytes, each `b`.
fn filled_buffer(b: u8, n: usize) -> (v: Vec<u8>)
    ensures
        v@ == Seq::new(n as nat, |i: int| b),
{
    let mut v: Vec<u8> = Vec::new();
    while v.len() < n
        invariant
            v.len() <= n,
            v@ == Seq::new(v.len() as nat, |i: int| b),
        decreases n - v.len(),
    {
        v.push(b);
        assert(v@ =~= Seq::new(v.len() as nat, |i: int| b));
    }
    v
}

/// The overwrite engine: a configuration from which runs are started.
pub struct WipeEngine {
    config: WipeConfig,
}

impl WipeEngine {
    pub closed spec fn config(&self) -> WipeConfig {
        self.config
    }

    pub fn new(config: WipeConfig) -> (e: Self)
        ensures
            e.config() == config,
    {
        WipeEngine { config }
    }

    /// The size of one write.
    pub fn buffer_size(&self) -> (n: usize)
        ensures
            n == self.config().buffer_size,
    {
        self.config.buffer_size
    }

    /// Starts a run over a device of `total_size` bytes. A zero buffer size
    /// (which would divide by zero) and sizes whose byte counts overflow are
    /// left out.
    pub fn start(&self, total_size: u64) -> (run: WipeRun)
        requires
            total_size == 0 || (0 < self.config().buffer_size && self.config().buffer_size * 16 <= u64::MAX),
            3 * total_size <= u64::MAX,
        ensures
            run@ == WipeRunView::initial(self.config().buffer_size, total_size),
            run.inv(),
    {
        let run = WipeRun {
            buffer_size: self.config.buffer_size,
            total_size,
            pass_index: 0,
            written: 0,
            total_written: 0,
            passes: Vec::new(),
            phase: Phase::Begin,
            success: false,
            error: None,
            buffer: Vec::new(),
        };
        assert(outcomes_view(run.passes@) =~= Seq::empty());
        run
    }
}

/// One overwrite run in progress.
pub struct WipeRun {
    buffer_size: usize,
    total_size: u64,
    pass_index: usize,
    written: u64,
    total_written: u64,
    passes: Vec<PassOutcome>,
    phase: Phase,
    success: bool,
    error: Option<String>,
    buffer: Vec<u8>,
}

impl View for WipeRun {
    type V = WipeRunView;

    closed spec fn view(&self) -> WipeRunView {
        WipeRunView {
            buffer_size: self.buffer_size,
            total_size: self.total_size,
            pass_index: self.pass_index,
            written: self.written,
            total_written: self.total_written,
            passes: outcomes_view(self.passes@),
            phase: self.phase,
            success: self.success,
            error: self.error.deep_view(),
        }
    }
}

/// For a pass with a fixed pattern, every byte of `buf` is that pattern.
pub open spec fn filled_with(buf: Seq<u8>, pass: WipePass) -> bool {
    match pass.spec_pattern_byte() {
        Some(b) => forall|i: int| 0 <= i < buf.len() ==> #[trigger] buf[i] == b,
        None => true,
    }
}

/// Whether the phase lies inside a pass (between its start and its last flush).
pub open spec fn inside_pass(p: Phase) -> bool {
    match p {
        Phase::StartPass | Phase::SeekPass | Phase::CancelInPass | Phase::Write(_)
        | Phase::PeriodicFlush | Phase::FinalFlush => true,
        _ => false,
    }
}

impl WipeRun {
    /// The bytes of the write buffer.
    pub closed spec fn buffer_view(&self) -> Seq<u8> {
        self.buffer@
    }

    /// Inside a pass the buffer has the configured size, and for a pass with
    /// a fixed pattern every byte of it is that pattern.
    pub open spec fn buffer_ready(&self) -> bool {
        inside_pass(self@.phase) ==> {
            &&& self.buffer_view().len() == self@.buffer_size
            &&& filled_with(self.buffer_view(), dod_pass(self@.pass_index as int))
        }
    }

    pub open spec fn inv(&self) -> bool {
        self@.wf() && self.buffer_ready()
    }

    /// The write buffer; a `Write { len }` action writes its first `len` bytes.
    pub fn buffer(&self) -> (b: &[u8])
        ensures
            b@ == self.buffer_view(),
    {
        self.buffer.as_slice()
    }

    /// Bytes written so far in the current pass.
    pub fn written(&self) -> (w: u64)
        ensures
            w == self@.written,
    {
        self.written
    }

    /// 0-based position of the current pass.
    pub fn pass_index(&self) -> (i: usize)
        ensures
            i == self@.pass_index,
    {
        self.pass_index
    }

    fn outcome(&self) -> (o: WipeOutcome)
        ensures
            o@ == self@.outcome(),
    {
        WipeOutcome {
            success: self.success,
            total_written: self.total_written,
            total_size: self.total_size,
            passes: copy_outcomes(&self.passes),
            error: copy_message(&self.error),
        }
    }

    fn finish(&mut self, success: bool, error: Option<String>) -> (a: WipeAction)
        ensures
            (final(self)@, a@) == old(self)@.finish(success, error.deep_view()),
            final(self).buffer_view() == old(self).buffer_view(),
    {
        self.phase = Phase::Done;
        self.success = success;
        self.error = error;
        WipeAction::Finished(self.outcome())
    }

    fn end_pass(&mut self, success: bool, error: Option<String>) -> (a: WipeAction)
        requires
            old(self)@.wf(),
            old(self)@.in_pass(),
        ensures
            (final(self)@, a@) == old(self)@.end_pass(success, error.deep_view()),
            final(self).buffer_view() == old(self).buffer_view(),
    {
        proof {
            lemma_sum_bytes_bound(self@.passes, self.total_size);
            let n = self@.passes.len() as int;
            let t = self.total_size as int;
            assert(n * t <= 2 * t) by (nonlinear_arith)
                requires
                    0 <= n <= 2,
                    0 <= t,
            ;
        }
        let o = PassOutcome {
            pass_index: self.pass_index as u32,
            pattern: dod_pass_at(self.pass_index),
            bytes_written: self.written,
            success,
            error,
        };
        let ghost old_passes = self.passes@;
        self.total_written = self.total_written + self.written;
        let a = WipeAction::EndPass(o.copy());
        self.passes.push(o);
        self.phase = Phase::EndPass;
        assert(outcomes_view(self.passes@) =~= outcomes_view(old_passes).push(o@));
        a
    }

    fn continue_pass(&mut self) -> (a: WipeAction)
        ensures
            (final(self)@, a@) == old(self)@.continue_pass(),
            final(self).buffer_view() == old(self).buffer_view(),
    {
        if self.written < self.total_size {
            self.phase = Phase::CancelInPass;
            WipeAction::CheckCancel
        } else {
            self.phase = Phase::FinalFlush;
            WipeAction::Flush { must_succeed: true }
        }
    }

    /// Prepares the buffer for the pass about to start.
    fn prepare_buffer(&mut self, pass: WipePass)
        ensures
            final(self)@ == old(self)@,
            final(self).buffer_view().len() == old(self)@.buffer_size,
            filled_with(final(self).buffer_view(), pass),
    {
        let b = match pass {
            WipePass::One => 0xFFu8,
            _ => 0x00u8,
        };
        self.buffer = filled_buffer(b, self.buffer_size);
    }

    /// Puts `random` at the start of the buffer; the rest stays.
    fn load_random(&mut self, random: &[u8])
        requires
            random@.len() <= old(self).buffer_view().len(),
        ensures
            final(self)@ == old(self)@,
            final(self).buffer_view().len() == old(self).buffer_view().len(),
            final(self).buffer_view().subrange(0, random@.len() as int) == random@,
            final(self).buffer_view().subrange(random@.len() as int, old(self).buffer_view().len() as int)
                == old(self).buffer_view().subrange(random@.len() as int, old(self).buffer_view().len() as int),
    {
        let n = random.len();
        let ghost start = self.buffer@;
        let mut i: usize = 0;
        while i < n
            invariant
                n == random@.len(),
                n <= start.len(),
                self@ == old(self)@,
                i <= n,
                self.buffer@.len() == start.len(),
                forall|j: int| 0 <= j < i ==> self.buffer@[j] == random@[j],
                forall|j: int| i <= j < start.len() ==> self.buffer@[j] == start[j],
            decreases n - i,
        {
            self.buffer.set(i, random[i]);
            i = i + 1;
        }
        assert(self.buffer@.subrange(0, n as int) =~= random@);
        assert(self.buffer@.subrange(n as int, start.len() as int) =~= start.subrange(n as int, start.len() as int));
    }

    /// Takes what the last operation reported and returns the next one,
    /// drawing the bytes of a random write from the operating system's
    /// generator.
    pub fn step(&mut self, event: DeviceReport) -> (action: WipeAction)
        requires
            old(self).inv(),
        ensures
            final(self).inv(),
            (final(self)@, action@) == old(self)@.step(event@),
            action@ is Write ==> action@->len <= final(self).buffer_view().len(),
            action@ is Write && old(self)@.pass_index == 2 ==> drawn_by_generator(
                action@->len,
                final(self).buffer_view().subrange(0, action@->len as int),
            ),
    {
        let random = if self.phase == Phase::CancelInPass && self.pass_index == 2 {
            let remaining = self.total_size - self.written;
            let len: usize = if remaining < self.buffer_size as u64 {
                remaining as usize
            } else {
                self.buffer_size
            };
            draw_random(len)
        } else {
            Vec::new()
        };
        self.step_with_random(event, random.as_slice())
    }

    /// Takes what the last operation reported and returns the next one. When
    /// the random pass writes, it writes exactly the bytes `random` (drawn
    /// by the caller, as many as the write holds).
    pub fn step_with_random(&mut self, event: DeviceReport, random: &[u8]) -> (action: WipeAction)
        requires
            old(self).inv(),
            old(self)@.phase == Phase::CancelInPass && old(self)@.pass_index == 2 ==> random@.len()
                == old(self)@.chunk_len(),
        ensures
            final(self).inv(),
            (final(self)@, action@) == old(self)@.step(event@),
            action@ is Write ==> action@->len <= final(self).buffer_view().len(),
            action@ is Write && old(self)@.pass_index == 2 ==> action@->len == random@.len()
                && final(self).buffer_view().subrange(0, random@.len() as int) == random@,
    {
        proof {
            lemma_step_keeps_invariant(self@, event@);
        }
        match self.phase {
            Phase::Begin => {
                self.prepare_buffer(WipePass::Zero);
                self.phase = Phase::StartPass;
                WipeAction::StartPass { index: 0, pass: WipePass::Zero }
            },
            Phase::StartPass => {
                self.phase = Phase::SeekPass;
                WipeAction::Seek
            },
            Phase::SeekPass => match event {
                DeviceReport::Failed(m) => {
                    let mut msg = String::from_str("Seek 失败: ");
                    msg.append(m.as_str());
                    self.end_pass(false, Some(msg))
                },
                _ => self.continue_pass(),
            },
            Phase::CancelInPass => match event {
                DeviceReport::CancelRequested(true) => {
                    self.end_pass(false, Some(String::from_str("用户取消")))
                },
                _ => {
                    let remaining = self.total_size - self.written;
                    let len: usize = if remaining < self.buffer_size as u64 {
                        remaining as usize
                    } else {
                        self.buffer_size
                    };
                    if self.pass_index == 2 {
                        self.load_random(random);
                    }
                    self.phase = Phase::Write(len);
                    WipeAction::Write { len }
                },
            },
            Phase::Write(len) => match event {
                DeviceReport::Failed(m) => {
                    let mut msg = String::from_str("写入失败: ");
                    msg.append(m.as_str());
                    self.end_pass(false, Some(msg))
                },
                _ => {
                    self.written = self.written + len as u64;
                    if self.written % (self.buffer_size as u64 * 16) == 0 {
                        self.phase = Phase::PeriodicFlush;
                        WipeAction::Flush { must_succeed: false }
                    } else {
                        self.continue_pass()
                    }
                },
            },
            Phase::PeriodicFlush => self.continue_pass(),
            Phase::FinalFlush => match event {
                DeviceReport::Failed(m) => {
                    let mut msg = String::from_str("Flush 失败: ");
                    msg.append(m.as_str());
                    self.end_pass(false, Some(msg))
                },
                _ => self.end_pass(true, None),
            },
            Phase::EndPass => {
                let last = self.passes.len() - 1;
                if self.passes[last].success {
                    self.phase = Phase::CancelAfterPass;
                    WipeAction::CheckCancel
                } else {
                    let e = copy_message(&self.passes[last].error);
                    self.finish(false, e)
                }
            },
            Phase::CancelAfterPass => match event {
                DeviceReport::CancelRequested(true) => {
                    self.finish(false, Some(String::from_str("用户取消操作")))
                },
                _ => {
                    self.phase = Phase::ResetSeek;
                    WipeAction::Seek
                },
            },
            Phase::ResetSeek => match event {
                DeviceReport::Failed(_) => self.finish(false, Some(String::from_str("无法重置文件位置"))),
                _ => {
                    if self.pass_index + 1 >= 3 {
                        self.pass_index = self.pass_index + 1;
                        self.finish(true, None)
                    } else {
                        let next = self.pass_index + 1;
                        let pass = dod_pass_at(next);
                        self.pass_index = next;
                        self.written = 0;
                        self.prepare_buffer(pass);
                        self.phase = Phase::StartPass;
                        WipeAction::StartPass { index: next as u32, pass }
                    }
                },
            },
            Phase::Done => self.outcome_action(),
        }
    }

    fn outcome_action(&self) -> (a: WipeAction)
        ensures
            a@ == WipeActionView::Finished(self@.outcome()),
    {
        WipeAction::Finished(self.outcome())
    }
}

/// Every byte that a write of the 0x00 pass puts on the device is 0x00, and
/// every byte of a write of the 0xFF pass is 0xFF: when a run asks for
/// `Write { len }`, the first `len` bytes of its buffer hold the pattern.
pub proof fn lemma_writes_carry_the_pass_pattern(run: &WipeRun, i: int)
    requires
        run.inv(),
        run@.phase is Write,
        0 <= i < run@.phase->0,
    ensures
        i < run.buffer_view().len(),
        dod_pass(run@.pass_index as int).spec_pattern_byte() matches Some(b) ==> run.buffer_view()[i] == b,
        run@.pass_index == 0 ==> run.buffer_view()[i] == 0x00u8,
        run@.pass_index == 1 ==> run.buffer_view()[i] == 0xFFu8,
{
}

/// A pass is recorded only when the run reports it with `EndPass`: every
/// step either keeps the finished passes as they were or adds exactly the
/// outcome it reports. And a write of pass k comes only once the k passes
/// before it were reported, all successful. So a caller that logs every
/// reported pass has logged each earlier pass before any byte of the next
/// one is written.
pub proof fn lemma_passes_are_reported_before_the_next_writes(s: WipeRunView, e: DeviceReportView)
    requires
        s.wf(),
    ensures
        match s.step(e).1 {
            WipeActionView::EndPass(o) => s.step(e).0.passes == s.passes.push(o),
            _ => s.step(e).0.passes == s.passes,
        },
        s.step(e).1 is Write ==> s.passes.len() == s.pass_index && forall|i: int|
            0 <= i < s.passes.len() ==> (#[trigger] s.passes[i]).success,
{
}

/// A run that ended because a pass failed reports that pass's error.
pub proof fn lemma_failed_pass_error_is_reported(s: WipeRunView)
    requires
        s.wf(),
        s.phase == Phase::Done,
        !s.passes.last().success,
    ensures
        !s.success,
        s.error == s.passes.last().error,
{
}

} // verus!
