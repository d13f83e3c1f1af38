//! Start-up with the system: which registry change a request makes, and
//! the messages that report a failed change.
use vstd::prelude::*;

verus! {

/// The name of the value under the `Run` key.
pub const REGISTRY_KEY: &'static str = "LightForAllAgent";

/// The registry key (under `HKEY_CURRENT_USER`) whose values start
/// programs with the system.
pub const RUN_KEY_PATH: &'static str = "Software\\Microsoft\\Windows\\CurrentVersion\\Run";

/// A change to the `Run` key.
#[derive(Clone, Copy, Debug, PartialEq, Eq, Structural)]
pub enum RegistryEdit {
    /// Write this program's path under `REGISTRY_KEY`.
    SetRunEntry,
    /// Remove the value `REGISTRY_KEY`.
    DeleteRunEntry,
}

pub open spec fn unsupported_message() -> Seq<char> {
    "仅支持 Windows 自动启动"@
}

/// The registry change that turns start-up with the system on or off;
/// refused off Windows.
pub fn register_auto_start(enabled: bool, on_windows: bool) -> (r: Result<RegistryEdit, String>)
    ensures
        !on_windows ==> (r matches Err(e) && e@ == unsupported_message()),
        on_windows ==> r == Ok::<RegistryEdit, String>(
            if enabled {
                RegistryEdit::SetRunEntry
            } else {
                RegistryEdit::DeleteRunEntry
            },
        ),
{
    if !on_windows {
        return Err(String::from_str("仅支持 Windows 自动启动"));
    }
    if enabled {
        Ok(RegistryEdit::SetRunEntry)
    } else {
        Ok(RegistryEdit::DeleteRunEntry)
    }
}

/// The step of a registry change that failed.
#[derive(Clone, Copy, Debug, PartialEq, Eq, Structural)]
pub enum RegistryStep {
    OpenKey,
    WriteValue,
    DeleteValue,
}

pub open spec fn step_prefix(step: RegistryStep) -> Seq<char> {
    match step {
        RegistryStep::OpenKey => "无法打开注册表: "@,
        RegistryStep::WriteValue => "无法写入注册表: "@,
        RegistryStep::DeleteValue => "无法删除注册表项: "@,
    }
}

/// The message reporting that `step` failed with the system's `detail`.
pub fn registry_error(step: RegistryStep, detail: &str) -> (m: String)
    ensures
        m@ == step_prefix(step) + detail@,
{
    let mut m = match step {
        RegistryStep::OpenKey => String::from_str("无法打开注册表: "),
        RegistryStep::WriteValue => String::from_str("无法写入注册表: "),
        RegistryStep::DeleteValue => String::from_str("无法删除注册表项: "),
    };
    m.append(detail);
    m
}

} // verus!
