use purgedisk::device::Device;
use purgedisk::wipe::engine::WipePass;
use purgedisk::wipe::session::{SessionEnd, WipeSession, WipeSessionAction, WipeSessionEvent};

fn device(path: &str, serial: &str) -> Device {
    Device {
        path: path.to_string(),
        volume_paths: vec![],
        model: "Stick".to_string(),
        serial: serial.to_string(),
        size_bytes: 1 << 30,
        removable: true,
        bus_type: "USB".to_string(),
        is_system: false,
    }
}

fn devices() -> Vec<Device> {
    vec![device("/dev/sdb", "SER-1"), device("/dev/sdc", "SER-2")]
}

/// A short name for each action, to compare whole runs.
fn name(a: &WipeSessionAction) -> String {
    match a {
        WipeSessionAction::ListDevices => "list".into(),
        WipeSessionAction::AskSerial => "ask".into(),
        WipeSessionAction::WriteStartEntry => "log-start".into(),
        WipeSessionAction::OpenDevice => "open".into(),
        WipeSessionAction::RunWipe => "wipe".into(),
        WipeSessionAction::WritePassEntry { pass } => format!("log-pass-{}", pass.index()),
        WipeSessionAction::ResumeWipe => "resume".into(),
        WipeSessionAction::Reformat => "reformat".into(),
        WipeSessionAction::WriteEndEntry { status, error } => {
            format!("log-end-{}-{}", status.as_str(), error.clone().unwrap_or_default())
        }
        WipeSessionAction::Stop(SessionEnd::Finished) => "stop-finished".into(),
        WipeSessionAction::Stop(SessionEnd::SerialMismatch) => "stop-mismatch".into(),
        WipeSessionAction::Stop(SessionEnd::Failed(m)) => format!("stop-failed-{}", m),
    }
}

fn run(s: &mut WipeSession, events: Vec<WipeSessionEvent>) -> Vec<String> {
    let mut out = vec![name(&s.step(WipeSessionEvent::Done))];
    for e in events {
        out.push(name(&s.step(e)));
    }
    out
}

#[test]
fn confirmed_wipe_logs_opens_wipes_reformats_and_logs_its_end() {
    let mut s = WipeSession::new("/dev/sdc", false);
    let trace = run(
        &mut s,
        vec![
            WipeSessionEvent::Devices(devices()),
            WipeSessionEvent::SerialTyped(" SER-2\n".to_string()),
            WipeSessionEvent::Done,
            WipeSessionEvent::Done,
            WipeSessionEvent::PassCompleted(WipePass::Zero),
            WipeSessionEvent::Done,
            WipeSessionEvent::PassCompleted(WipePass::One),
            WipeSessionEvent::Done,
            WipeSessionEvent::PassCompleted(WipePass::Random),
            WipeSessionEvent::Done,
            WipeSessionEvent::WipeFinished { success: true, error: None },
            WipeSessionEvent::Done,
            WipeSessionEvent::Done,
        ],
    );
    assert_eq!(
        trace,
        vec![
            "list", "ask", "log-start", "open", "wipe", "log-pass-1", "resume", "log-pass-2", "resume",
            "log-pass-3", "resume", "reformat", "log-end-completed-", "stop-finished",
        ]
    );
    assert_eq!(s.target().unwrap().serial, "SER-2");
}

#[test]
fn wrong_serial_stops_before_anything_is_written() {
    let mut s = WipeSession::new("/dev/sdb", false);
    let trace = run(
        &mut s,
        vec![WipeSessionEvent::Devices(devices()), WipeSessionEvent::SerialTyped("SER-2".to_string())],
    );
    assert_eq!(trace, vec!["list", "ask", "stop-mismatch"]);
    // Once over, it stays over.
    assert_eq!(name(&s.step(WipeSessionEvent::Done)), "stop-mismatch");
}

#[test]
fn yes_skips_the_question() {
    let mut s = WipeSession::new("/dev/sdb", true);
    let trace = run(&mut s, vec![WipeSessionEvent::Devices(devices())]);
    assert_eq!(trace, vec!["list", "log-start"]);
}

#[test]
fn unlisted_target_is_refused() {
    let mut s = WipeSession::new("/dev/sdz", false);
    let trace = run(&mut s, vec![WipeSessionEvent::Devices(devices())]);
    assert_eq!(
        trace,
        vec![
            "list".to_string(),
            "stop-failed-设备不存在: 设备 /dev/sdz 不在可移动设备列表中.\n运行 `purgedisk list` 查看可用设备.".to_string(),
        ]
    );
}

#[test]
fn failed_steps_stop_the_session() {
    let mut s = WipeSession::new("/dev/sdb", true);
    let trace = run(
        &mut s,
        vec![WipeSessionEvent::Devices(devices()), WipeSessionEvent::Done, WipeSessionEvent::Failed("no access".into())],
    );
    assert_eq!(trace, vec!["list", "log-start", "open", "stop-failed-no access"]);
    let mut s = WipeSession::new("/dev/sdb", true);
    let trace = run(&mut s, vec![WipeSessionEvent::Failed("scan failed".into())]);
    assert_eq!(trace, vec!["list", "stop-failed-scan failed"]);
}

#[test]
fn failed_wipe_logs_cancelled_or_interrupted_without_reformatting() {
    for (error, expected) in [
        (Some("用户取消操作".to_string()), "log-end-cancelled-用户取消操作"),
        (Some("写入失败: disk full".to_string()), "log-end-interrupted-写入失败: disk full"),
        (None, "log-end-interrupted-未知错误"),
    ] {
        let mut s = WipeSession::new("/dev/sdb", true);
        let trace = run(
            &mut s,
            vec![
                WipeSessionEvent::Devices(devices()),
                WipeSessionEvent::Done,
                WipeSessionEvent::Done,
                WipeSessionEvent::WipeFinished { success: false, error },
                WipeSessionEvent::Done,
            ],
        );
        assert_eq!(trace, vec!["list", "log-start", "open", "wipe", expected, "stop-finished"]);
        assert!(!trace.iter().any(|a| a == "reformat"));
    }
}
