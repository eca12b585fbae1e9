//! The error type of the tool.

use vstd::prelude::*;
use vstd::string::*;
use crate::text::{decimal, push_decimal, push_str};

verus! {

#[verifier::external_type_specification]
#[verifier::external_body]
pub struct ExIoError(std::io::Error);

/// Text of an I/O error: std's `Display` of `std::io::Error` (through
/// `ToString::to_string`). Nothing is claimed of the text.
#[verifier::external_body]
fn io_error_text(e: &std::io::Error) -> String {
    e.to_string()
}

/// Everything that can go wrong.
#[derive(Debug)]
pub enum PurgeError {
    DeviceNotFound(String),
    PermissionDenied(String),
    NotRemovable { path: String, reason: String },
    SystemDiskForbidden(String),
    IoError(std::io::Error),
    DeviceInfoError(String),
    WipeInterrupted { pass: u32, written: u64, total: u64 },
    LogError(String),
    CryptoError(String),
    UserCancelled,
    Internal(String),
}

impl PurgeError {
    /// The operator-facing message of an error that carries no I/O error.
    pub open spec fn spec_message(&self) -> Seq<char> {
        match self {
            PurgeError::DeviceNotFound(s) => "设备不存在: "@ + s@,
            PurgeError::PermissionDenied(s) => "权限不足: "@ + s@ + ". 请使用管理员/root权限运行"@,
            PurgeError::NotRemovable { path, reason } => "目标设备不是可移动存储: "@ + path@ + " ("@ + reason@
                + ")"@,
            PurgeError::SystemDiskForbidden(s) => "目标设备是系统盘，禁止操作: "@ + s@,
            PurgeError::IoError(_) => "设备 I/O 错误: "@,
            PurgeError::DeviceInfoError(s) => "设备信息获取失败: "@ + s@,
            PurgeError::WipeInterrupted { pass, written, total } => "擦写过程中断: 轮次 "@ + decimal(
                *pass as nat,
            ) + ", 已写 "@ + decimal(*written as nat) + "/"@ + decimal(*total as nat) + " 字节"@,
            PurgeError::LogError(s) => "日志错误: "@ + s@,
            PurgeError::CryptoError(s) => "加密/签名错误: "@ + s@,
            PurgeError::UserCancelled => "用户取消操作"@,
            PurgeError::Internal(s) => "内部错误: "@ + s@,
        }
    }

    /// The message shown for the error. For an I/O error the text of the
    /// I/O error follows the prefix.
    pub fn message(&self) -> (m: String)
        ensures
            !(self is IoError) ==> m@ == self.spec_message(),
            self is IoError ==> m@.len() >= self.spec_message().len() && m@.subrange(
                0,
                self.spec_message().len() as int,
            ) == self.spec_message(),
    {
        let mut m = String::new();
        match self {
            PurgeError::DeviceNotFound(s) => {
                push_str(&mut m, "设备不存在: ");
                push_str(&mut m, s.as_str());
            },
            PurgeError::PermissionDenied(s) => {
                push_str(&mut m, "权限不足: ");
                push_str(&mut m, s.as_str());
                push_str(&mut m, ". 请使用管理员/root权限运行");
            },
            PurgeError::NotRemovable { path, reason } => {
                push_str(&mut m, "目标设备不是可移动存储: ");
                push_str(&mut m, path.as_str());
                push_str(&mut m, " (");
                push_str(&mut m, reason.as_str());
                push_str(&mut m, ")");
            },
            PurgeError::SystemDiskForbidden(s) => {
                push_str(&mut m, "目标设备是系统盘，禁止操作: ");
                push_str(&mut m, s.as_str());
            },
            PurgeError::IoError(e) => {
                push_str(&mut m, "设备 I/O 错误: ");
                let t = io_error_text(e);
                push_str(&mut m, t.as_str());
            },
            PurgeError::DeviceInfoError(s) => {
                push_str(&mut m, "设备信息获取失败: ");
                push_str(&mut m, s.as_str());
            },
            PurgeError::WipeInterrupted { pass, written, total } => {
                push_str(&mut m, "擦写过程中断: 轮次 ");
                push_decimal(&mut m, *pass as u64);
                push_str(&mut m, ", 已写 ");
                push_decimal(&mut m, *written);
                push_str(&mut m, "/");
                push_decimal(&mut m, *total);
                push_str(&mut m, " 字节");
            },
            PurgeError::LogError(s) => {
                push_str(&mut m, "日志错误: ");
                push_str(&mut m, s.as_str());
            },
            PurgeError::CryptoError(s) => {
                push_str(&mut m, "加密/签名错误: ");
                push_str(&mut m, s.as_str());
            },
            PurgeError::UserCancelled => {
                push_str(&mut m, "用户取消操作");
            },
            PurgeError::Internal(s) => {
                push_str(&mut m, "内部错误: ");
                push_str(&mut m, s.as_str());
            },
        }
        assert(!(self is IoError) ==> m@ =~= self.spec_message());
        assert(self is IoError ==> m@.subrange(0, self.spec_message().len() as int) =~= self.spec_message());
        m
    }
}

} // verus!
