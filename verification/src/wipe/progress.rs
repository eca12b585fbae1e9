//! What a running wipe reports: the pass it is in, how much of the whole
//! work is done, and when a pass has just ended.

use vstd::prelude::*;
use vstd::string::*;
use crate::text::{decimal, push_decimal, push_str};
use crate::wipe::engine::{WipePass, format_pattern_name};

verus! {

/// The pass shown to the operator: "2/3" while the second of three passes
/// runs (`current_pass` counts the passes already finished).
pub fn pass_display(current_pass: u64, total_passes: u64) -> (s: String)
    requires
        current_pass < u64::MAX,
    ensures
        s@ == decimal((current_pass + 1) as nat) + "/"@ + decimal(total_passes as nat),
{
    let mut s = String::new();
    push_decimal(&mut s, current_pass + 1);
    push_str(&mut s, "/");
    push_decimal(&mut s, total_passes);
    s
}

/// The bytes of all passes written so far and the bytes of the whole run,
/// whose ratio is the progress of the run (the caller divides them).
pub fn progress_parts(total_bytes: u64, total_passes: u64, written: u64, current_pass: u64) -> (r: (
    u128,
    u128,
))
    ensures
        r.0 == written + current_pass * total_bytes,
        r.1 == total_bytes * total_passes,
{
    let tb = total_bytes as u128;
    proof {
        assert(current_pass * total_bytes <= u64::MAX * u64::MAX) by (nonlinear_arith);
        assert(total_bytes * total_passes <= u64::MAX * u64::MAX) by (nonlinear_arith);
    }
    let done = written as u128 + current_pass as u128 * tb;
    let total = tb * total_passes as u128;
    (done, total)
}

/// Whether the run has just moved past a pass: the pass counter (the
/// number of passes already finished) grew since the last poll. When it
/// moves from k - 1 to k, pass k (counted from 1) has ended; its name is
/// `finished_pass_label(k)`.
pub fn pass_just_ended(last_pass: u64, current_pass: u64) -> (r: bool)
    ensures
        r == (current_pass > last_pass),
{
    current_pass > last_pass
}

/// The name under which a finished pass is announced, by its number from 1.
pub open spec fn spec_finished_pass_label(pass: u64) -> Seq<char> {
    if pass == 1 {
        "0x00 填充"@
    } else if pass == 2 {
        "0xFF 填充"@
    } else if pass == 3 {
        "随机数据"@
    } else {
        "未知"@
    }
}

pub fn finished_pass_label(pass: u64) -> (s: &'static str)
    ensures
        s@ == spec_finished_pass_label(pass),
{
    match pass {
        1 => "0x00 填充",
        2 => "0xFF 填充",
        3 => "随机数据",
        _ => "未知",
    }
}

/// The log line announcing the start of the pass at 0-based position
/// `index`: "开始第 N 轮覆写: DESCRIPTION (NAME)".
pub fn pass_start_message(index: u32, pass: WipePass) -> (s: String)
    requires
        index < u32::MAX,
    ensures
        s@ == "开始第 "@ + decimal((index + 1) as nat) + " 轮覆写: "@ + pass.spec_description() + " ("@
            + pass.spec_pattern_name() + ")"@,
{
    let mut s = String::from_str("开始第 ");
    push_decimal(&mut s, (index + 1) as u64);
    push_str(&mut s, " 轮覆写: ");
    push_str(&mut s, pass.description());
    push_str(&mut s, " (");
    push_str(&mut s, format_pattern_name(pass));
    push_str(&mut s, ")");
    s
}

} // verus!
