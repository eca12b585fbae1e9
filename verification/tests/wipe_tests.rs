use purgedisk::wipe::engine::{
    dod_pass_at, dod_passes, format_pattern_name, PassOutcome, WipeAction, WipeConfig, WipeEngine,
    DeviceReport, WipeOutcome, WipePass,
};
use purgedisk::wipe::progress::{
    finished_pass_label, pass_display, pass_just_ended, pass_start_message, progress_parts,
};

/// How the simulated device misbehaves.
#[derive(Default, Clone)]
struct Faults {
    /// Answer "cancel" to the n-th cancel check (1-based).
    cancel_at_check: Option<usize>,
    /// Fail the n-th write (1-based).
    fail_write: Option<usize>,
    /// Fail the n-th seek (1-based).
    fail_seek: Option<usize>,
    /// Fail every flush that must succeed.
    fail_final_flush: bool,
    /// Fail every flush that may fail.
    fail_periodic_flush: bool,
}

struct Trace {
    outcome: WipeOutcome,
    device: Vec<u8>,
    /// The device's bytes right after each pass ended.
    snapshots: Vec<Vec<u8>>,
    ended: Vec<PassOutcome>,
    started: Vec<(u32, WipePass)>,
    write_lens: Vec<usize>,
    flushes: Vec<bool>,
}

fn drive(total: u64, buffer_size: usize, faults: Faults) -> Trace {
    let engine = WipeEngine::new(WipeConfig { buffer_size, verify: false });
    let mut run = engine.start(total);
    let mut device = vec![0x55u8; total as usize];
    let mut pos = 0usize;
    let mut checks = 0usize;
    let mut writes = 0usize;
    let mut seeks = 0usize;
    let mut trace = Trace {
        outcome: WipeOutcome { success: false, total_written: 0, total_size: 0, passes: vec![], error: None },
        device: vec![],
        snapshots: vec![],
        ended: vec![],
        started: vec![],
        write_lens: vec![],
        flushes: vec![],
    };
    let mut event = DeviceReport::Completed;
    for _ in 0..100_000 {
        let action = run.step(event);
        event = match action {
            WipeAction::StartPass { index, pass } => {
                trace.started.push((index, pass));
                DeviceReport::Completed
            }
            WipeAction::Seek => {
                seeks += 1;
                if faults.fail_seek == Some(seeks) {
                    DeviceReport::Failed("bad seek".to_string())
                } else {
                    pos = 0;
                    DeviceReport::Completed
                }
            }
            WipeAction::CheckCancel => {
                checks += 1;
                DeviceReport::CancelRequested(faults.cancel_at_check == Some(checks))
            }
            WipeAction::Write { len } => {
                writes += 1;
                trace.write_lens.push(len);
                if faults.fail_write == Some(writes) {
                    DeviceReport::Failed("disk full".to_string())
                } else {
                    device[pos..pos + len].copy_from_slice(&run.buffer()[..len]);
                    pos += len;
                    DeviceReport::Completed
                }
            }
            WipeAction::Flush { must_succeed } => {
                trace.flushes.push(must_succeed);
                if (must_succeed && faults.fail_final_flush) || (!must_succeed && faults.fail_periodic_flush) {
                    DeviceReport::Failed("flush refused".to_string())
                } else {
                    DeviceReport::Completed
                }
            }
            WipeAction::EndPass(o) => {
                trace.snapshots.push(device.clone());
                trace.ended.push(o);
                DeviceReport::Completed
            }
            WipeAction::Finished(o) => {
                trace.outcome = o;
                trace.device = device;
                return trace;
            }
        };
    }
    panic!("the run did not finish");
}

#[test]
fn successful_run_writes_three_full_passes() {
    let t = drive(10, 4, Faults::default());
    assert!(t.outcome.success);
    assert_eq!(t.outcome.error, None);
    assert_eq!(t.outcome.total_size, 10);
    assert_eq!(t.outcome.total_written, 30);
    assert_eq!(t.outcome.passes.len(), 3);
    for (i, p) in t.outcome.passes.iter().enumerate() {
        assert_eq!(p.pass_index, i as u32);
        assert_eq!(p.bytes_written, 10);
        assert!(p.success);
        assert_eq!(p.error, None);
    }
    assert_eq!(t.outcome.passes[0].pattern, WipePass::Zero);
    assert_eq!(t.outcome.passes[1].pattern, WipePass::One);
    assert_eq!(t.outcome.passes[2].pattern, WipePass::Random);
    assert_eq!(t.started, vec![(0, WipePass::Zero), (1, WipePass::One), (2, WipePass::Random)]);
    // Each pass writes full buffers and then what is left.
    assert_eq!(t.write_lens, vec![4, 4, 2, 4, 4, 2, 4, 4, 2]);
    assert_eq!(t.snapshots[0], vec![0x00u8; 10]);
    assert_eq!(t.snapshots[1], vec![0xFFu8; 10]);
    assert_eq!(t.ended.len(), 3);
    // Only the final flush of each pass (no periodic flush for so few bytes).
    assert_eq!(t.flushes, vec![true, true, true]);
}

#[test]
fn random_pass_overwrites_the_last_pattern() {
    // With 4096 random bytes, the chance that all of them are 0xFF is nil.
    let t = drive(4096, 1024, Faults::default());
    assert!(t.outcome.success);
    assert_ne!(t.device, vec![0xFFu8; 4096]);
}

#[test]
fn cancel_during_a_pass_stops_it() {
    // Checks 1-3 come before the writes of pass 1, check 4 after it,
    // check 5 before the first write of pass 2.
    let t = drive(10, 4, Faults { cancel_at_check: Some(5), ..Faults::default() });
    assert!(!t.outcome.success);
    assert_eq!(t.outcome.error, Some("用户取消".to_string()));
    assert_eq!(t.outcome.passes.len(), 2);
    assert!(t.outcome.passes[0].success);
    assert!(!t.outcome.passes[1].success);
    assert_eq!(t.outcome.passes[1].bytes_written, 0);
    assert_eq!(t.outcome.total_written, 10);
}

#[test]
fn cancel_between_passes_ends_the_run() {
    let t = drive(10, 4, Faults { cancel_at_check: Some(4), ..Faults::default() });
    assert!(!t.outcome.success);
    assert_eq!(t.outcome.error, Some("用户取消操作".to_string()));
    assert_eq!(t.outcome.passes.len(), 1);
    assert!(t.outcome.passes[0].success);
    assert_eq!(t.outcome.total_written, 10);
}

#[test]
fn write_failure_ends_the_pass_and_the_run() {
    // Writes 1-3 are pass 1, 4-6 pass 2: the 8th is the second of pass 3.
    let t = drive(10, 4, Faults { fail_write: Some(8), ..Faults::default() });
    assert!(!t.outcome.success);
    assert_eq!(t.outcome.error, Some("写入失败: disk full".to_string()));
    assert_eq!(t.outcome.passes.len(), 3);
    assert_eq!(t.outcome.passes[2].bytes_written, 4);
    assert_eq!(t.outcome.passes[2].error, Some("写入失败: disk full".to_string()));
    assert_eq!(t.outcome.total_written, 24);
}

#[test]
fn seek_failure_at_pass_start() {
    let t = drive(10, 4, Faults { fail_seek: Some(1), ..Faults::default() });
    assert!(!t.outcome.success);
    assert_eq!(t.outcome.error, Some("Seek 失败: bad seek".to_string()));
    assert_eq!(t.outcome.passes.len(), 1);
    assert_eq!(t.outcome.passes[0].bytes_written, 0);
    assert_eq!(t.outcome.total_written, 0);
}

#[test]
fn seek_failure_between_passes() {
    // Seek 1 starts pass 1, seek 2 resets the position after it.
    let t = drive(10, 4, Faults { fail_seek: Some(2), ..Faults::default() });
    assert!(!t.outcome.success);
    assert_eq!(t.outcome.error, Some("无法重置文件位置".to_string()));
    assert_eq!(t.outcome.passes.len(), 1);
    assert!(t.outcome.passes[0].success);
}

#[test]
fn final_flush_failure_fails_the_pass() {
    let t = drive(10, 4, Faults { fail_final_flush: true, ..Faults::default() });
    assert!(!t.outcome.success);
    assert_eq!(t.outcome.error, Some("Flush 失败: flush refused".to_string()));
    assert_eq!(t.outcome.passes.len(), 1);
    assert_eq!(t.outcome.passes[0].bytes_written, 10);
    assert!(!t.outcome.passes[0].success);
}

#[test]
fn periodic_flush_every_sixteen_buffers_may_fail() {
    let t = drive(64, 4, Faults { fail_periodic_flush: true, ..Faults::default() });
    assert!(t.outcome.success);
    assert_eq!(t.outcome.total_written, 192);
    // Per pass: one periodic flush after 64 bytes, then the final one.
    assert_eq!(t.flushes, vec![false, true, false, true, false, true]);
}

#[test]
fn empty_device_completes_without_writes() {
    let t = drive(0, 4, Faults::default());
    assert!(t.outcome.success);
    assert_eq!(t.outcome.total_written, 0);
    assert_eq!(t.outcome.passes.len(), 3);
    assert!(t.write_lens.is_empty());
}

#[test]
fn finished_run_keeps_answering_finished() {
    let engine = WipeEngine::new(WipeConfig { buffer_size: 8, verify: false });
    let mut run = engine.start(0);
    let mut last = None;
    for _ in 0..200 {
        match run.step(DeviceReport::Completed) {
            WipeAction::CheckCancel => {
                let _ = run.step(DeviceReport::CancelRequested(false));
            }
            WipeAction::Finished(o) => {
                last = Some(o.success);
            }
            _ => {}
        }
    }
    assert_eq!(last, Some(true));
}

#[test]
fn default_config_uses_a_mebibyte_buffer() {
    let c = WipeConfig::default();
    assert_eq!(c.buffer_size, 1024 * 1024);
    assert!(!c.verify);
}

#[test]
fn pass_descriptions_and_patterns() {
    assert_eq!(WipePass::Zero.description(), "全 0x00 填充");
    assert_eq!(WipePass::One.description(), "全 0xFF 填充");
    assert_eq!(WipePass::Random.description(), "随机数据填充");
    assert_eq!(WipePass::Zero.pattern_byte(), Some(0x00));
    assert_eq!(WipePass::One.pattern_byte(), Some(0xFF));
    assert_eq!(WipePass::Random.pattern_byte(), None);
    assert_eq!(WipePass::Zero.index(), 1);
    assert_eq!(WipePass::One.index(), 2);
    assert_eq!(WipePass::Random.index(), 3);
    assert_eq!(format_pattern_name(WipePass::Zero), "0x00");
    assert_eq!(format_pattern_name(WipePass::One), "0xFF");
    assert_eq!(format_pattern_name(WipePass::Random), "RANDOM");
    assert_eq!(dod_passes(), vec![WipePass::Zero, WipePass::One, WipePass::Random]);
    assert_eq!(dod_pass_at(1), WipePass::One);
}

#[test]
fn progress_reports() {
    assert_eq!(pass_display(0, 3), "1/3");
    assert_eq!(pass_display(2, 3), "3/3");
    assert_eq!(progress_parts(100, 3, 40, 1), (140, 300));
    assert_eq!(progress_parts(u64::MAX, 3, u64::MAX, 2), (3 * (u64::MAX as u128), 3 * (u64::MAX as u128)));
    assert_eq!(progress_parts(0, 3, 0, 0), (0, 0));
    // The first pass ends when the counter moves from 0 to 1.
    assert!(pass_just_ended(0, 1));
    assert!(pass_just_ended(1, 2));
    assert!(!pass_just_ended(2, 2));
    assert!(!pass_just_ended(0, 0));
    assert_eq!(finished_pass_label(1), "0x00 填充");
    assert_eq!(finished_pass_label(2), "0xFF 填充");
    assert_eq!(finished_pass_label(3), "随机数据");
    assert_eq!(finished_pass_label(0), "未知");
    assert_eq!(pass_start_message(0, WipePass::Zero), "开始第 1 轮覆写: 全 0x00 填充 (0x00)");
    assert_eq!(pass_start_message(2, WipePass::Random), "开始第 3 轮覆写: 随机数据填充 (RANDOM)");
}

#[test]
fn every_write_of_a_fixed_pass_carries_its_pattern() {
    let engine = WipeEngine::new(WipeConfig { buffer_size: 8, verify: false });
    let mut run = engine.start(20);
    let mut event = DeviceReport::Completed;
    let mut checked = 0;
    loop {
        match run.step(event) {
            WipeAction::Write { len } => {
                let pass = run.pass_index();
                if pass < 2 {
                    let byte = dod_pass_at(pass).pattern_byte().unwrap();
                    assert!(run.buffer()[..len].iter().all(|&b| b == byte));
                    checked += 1;
                }
                event = DeviceReport::Completed;
            }
            WipeAction::CheckCancel => event = DeviceReport::CancelRequested(false),
            WipeAction::Finished(o) => {
                assert!(o.success);
                break;
            }
            _ => event = DeviceReport::Completed,
        }
    }
    assert_eq!(checked, 6);
}

#[test]
fn each_pass_is_reported_before_the_next_pass_writes() {
    let engine = WipeEngine::new(WipeConfig { buffer_size: 4, verify: false });
    let mut run = engine.start(10);
    let mut event = DeviceReport::Completed;
    let mut reported = 0u32;
    loop {
        match run.step(event) {
            WipeAction::EndPass(o) => {
                assert_eq!(o.pass_index, reported);
                reported += 1;
                event = DeviceReport::Completed;
            }
            WipeAction::Write { .. } => {
                assert_eq!(run.pass_index() as u32, reported);
                event = DeviceReport::Completed;
            }
            WipeAction::CheckCancel => event = DeviceReport::CancelRequested(false),
            WipeAction::Finished(_) => break,
            _ => event = DeviceReport::Completed,
        }
    }
    assert_eq!(reported, 3);
}

#[test]
fn random_pass_writes_the_bytes_it_is_given() {
    let engine = WipeEngine::new(WipeConfig { buffer_size: 4, verify: false });
    let total: u64 = 10;
    let mut run = engine.start(total);
    let mut device = vec![0x55u8; total as usize];
    let mut pos = 0usize;
    let mut pass: Option<u32> = None;
    let mut event = DeviceReport::Completed;
    let mut random_writes = 0usize;
    for _ in 0..10_000 {
        // The bytes this step would write in the random pass: as many as
        // are left, at most a buffer, numbered by their place on the device.
        let left = total as usize - pos;
        let chunk = if left < 4 { left } else { 4 };
        let given: Vec<u8> = (0..chunk).map(|k| 100 + (pos + k) as u8).collect();
        let action = run.step_with_random(event, &given);
        event = match action {
            WipeAction::StartPass { index, .. } => {
                pass = Some(index);
                DeviceReport::Completed
            }
            WipeAction::Seek => {
                pos = 0;
                DeviceReport::Completed
            }
            WipeAction::CheckCancel => DeviceReport::CancelRequested(false),
            WipeAction::Write { len } => {
                if pass == Some(2) {
                    random_writes += 1;
                    assert_eq!(len, given.len());
                    assert_eq!(&run.buffer()[..len], &given[..]);
                }
                device[pos..pos + len].copy_from_slice(&run.buffer()[..len]);
                pos += len;
                DeviceReport::Completed
            }
            WipeAction::Flush { .. } => DeviceReport::Completed,
            WipeAction::EndPass(_) => DeviceReport::Completed,
            WipeAction::Finished(o) => {
                assert!(o.success);
                assert_eq!(random_writes, 3);
                assert_eq!(device, (100u8..110).collect::<Vec<u8>>());
                return;
            }
        };
    }
    panic!("the run did not finish");
}
