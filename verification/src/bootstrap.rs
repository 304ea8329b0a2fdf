//! Start-up decisions around the embedded kernel: which settings of the
//! kernel's config file to add, and the steps of the single-user sign-in.

use vstd::prelude::*;
use crate::text::{decimal, push_decimal, push_str};

verus! {

broadcast use vstd::string::group_string_axioms;

/// Memory injection budget (tokens) the app-cards tree needs.
pub const INJECT_BUDGET_TOKENS: u64 = 40000;

/// Server the device signs in to when nothing is configured.
pub const DEFAULT_SERVER_URL: &'static str = "http://127.0.0.1:50080";

/// Profile used when nothing is configured.
pub const DEFAULT_PROFILE: &'static str = "octos";

/// `memory.max_inject_tokens` as found in the config.
#[derive(Clone, Copy, Debug, PartialEq, Eq, Structural)]
pub enum BudgetField {
    Absent,
    /// A number that reads as a `u64`.
    Number(u64),
    /// Anything else (negative, fractional, not a number).
    Other,
}

/// The config's `memory` section.
#[derive(Clone, Copy, Debug, PartialEq, Eq, Structural)]
pub enum MemorySection {
    Absent,
    Object(BudgetField),
    NotObject,
}

/// The config's `appui` section.
#[derive(Clone, Copy, Debug, PartialEq, Eq, Structural)]
pub enum AppuiSection {
    Absent,
    Object { has_sessions_in_cwd: bool },
    NotObject,
}

/// The kernel config file as read.
#[derive(Clone, Copy, Debug, PartialEq, Eq, Structural)]
pub enum ConfigFile {
    /// Unreadable or missing: treated as an empty object.
    Missing,
    /// Parsed, but not a JSON object (or not JSON): left alone.
    NotAnObject,
    Object { memory: MemorySection, appui: AppuiSection },
}

/// What to write: `memory.max_inject_tokens = 40000` (creating `memory`
/// when absent), and `appui.sessions_in_cwd = false` (creating `appui`).
#[derive(Clone, Copy, Debug, PartialEq, Eq, Structural)]
pub struct KernelConfigPatch {
    pub set_inject_budget: bool,
    pub set_sessions_in_cwd: bool,
}

/// The budget is raised when absent or a number below the floor; a larger
/// number (an operator's choice) and a non-number are kept. `appui` gets
/// `sessions_in_cwd: false` only when the key is absent. A section that is
/// not an object, or a file that is not an object, is left alone.
pub open spec fn spec_kernel_config_patch(file: ConfigFile) -> KernelConfigPatch {
    match file {
        ConfigFile::Missing => KernelConfigPatch { set_inject_budget: true, set_sessions_in_cwd: true },
        ConfigFile::NotAnObject => KernelConfigPatch {
            set_inject_budget: false,
            set_sessions_in_cwd: false,
        },
        ConfigFile::Object { memory, appui } => KernelConfigPatch {
            set_inject_budget: match memory {
                MemorySection::Absent => true,
                MemorySection::Object(BudgetField::Absent) => true,
                MemorySection::Object(BudgetField::Number(n)) => n < INJECT_BUDGET_TOKENS,
                MemorySection::Object(BudgetField::Other) => false,
                MemorySection::NotObject => false,
            },
            set_sessions_in_cwd: match appui {
                AppuiSection::Absent => true,
                AppuiSection::Object { has_sessions_in_cwd } => !has_sessions_in_cwd,
                AppuiSection::NotObject => false,
            },
        },
    }
}

/// What the upkeep reads from the kernel config's bytes.
#[derive(Clone, Copy, Debug, PartialEq, Eq, Structural)]
pub struct KernelJson {
    /// The bytes parse as JSON and the value is an object.
    pub object: bool,
    /// `memory` is present; whether it is an object.
    pub memory: Option<bool>,
    /// `memory.max_inject_tokens` is present.
    pub budget_present: bool,
    /// `memory.max_inject_tokens` read as a `u64`, where it is one.
    pub budget: Option<u64>,
    /// `appui` is present; whether it is an object.
    pub appui: Option<bool>,
    /// `appui.sessions_in_cwd` is present.
    pub sessions_in_cwd_present: bool,
}

/// What `serde_json::from_slice` and the field reads of `read_kernel_json`
/// give for the config's bytes.
pub uninterp spec fn kernel_json_of(bytes: Seq<u8>) -> KernelJson;

/// Parses the bytes with `serde_json::from_slice` into a `Value` (`Null`
/// when they do not parse) and reads, with `Value::get`, `is_object` and
/// `as_u64`, the keys the upkeep looks at. The contract names the result as
/// a function of the bytes and says no more.
#[verifier::external_body]
fn read_kernel_json(bytes: &[u8]) -> (j: KernelJson)
    ensures
        j == kernel_json_of(bytes@),
{
    let v: serde_json::Value = serde_json::from_slice(bytes).unwrap_or(serde_json::Value::Null);
    let m = v.get("memory");
    let a = v.get("appui");
    let t = m.and_then(|m| m.get("max_inject_tokens"));
    KernelJson {
        object: v.is_object(),
        memory: m.map(|m| m.is_object()),
        budget_present: t.is_some(),
        budget: t.and_then(|t| t.as_u64()),
        appui: a.map(|a| a.is_object()),
        sessions_in_cwd_present: a.and_then(|a| a.get("sessions_in_cwd")).is_some(),
    }
}

/// The config file as the upkeep judges it, from what was read of it.
pub open spec fn spec_config_file_of(j: KernelJson) -> ConfigFile {
    if !j.object {
        ConfigFile::NotAnObject
    } else {
        ConfigFile::Object {
            memory: match j.memory {
                None => MemorySection::Absent,
                Some(false) => MemorySection::NotObject,
                Some(true) => MemorySection::Object(
                    if !j.budget_present {
                        BudgetField::Absent
                    } else {
                        match j.budget {
                            Some(n) => BudgetField::Number(n),
                            None => BudgetField::Other,
                        }
                    },
                ),
            },
            appui: match j.appui {
                None => AppuiSection::Absent,
                Some(false) => AppuiSection::NotObject,
                Some(true) => AppuiSection::Object { has_sessions_in_cwd: j.sessions_in_cwd_present },
            },
        }
    }
}

/// Judge the config file from what was read of it.
pub fn config_file_of(j: KernelJson) -> (f: ConfigFile)
    ensures
        f == spec_config_file_of(j),
{
    if !j.object {
        return ConfigFile::NotAnObject;
    }
    let memory = match j.memory {
        None => MemorySection::Absent,
        Some(false) => MemorySection::NotObject,
        Some(true) => MemorySection::Object(
            if !j.budget_present {
                BudgetField::Absent
            } else {
                match j.budget {
                    Some(n) => BudgetField::Number(n),
                    None => BudgetField::Other,
                }
            },
        ),
    };
    let appui = match j.appui {
        None => AppuiSection::Absent,
        Some(false) => AppuiSection::NotObject,
        Some(true) => AppuiSection::Object { has_sessions_in_cwd: j.sessions_in_cwd_present },
    };
    ConfigFile::Object { memory, appui }
}

/// The kernel config file of the given bytes.
pub fn kernel_config_of(bytes: &[u8]) -> (f: ConfigFile)
    ensures
        f == spec_config_file_of(kernel_json_of(bytes@)),
{
    config_file_of(read_kernel_json(bytes))
}

/// The patch for the config file's bytes; `None` when the file could not
/// be read, which counts as an empty object.
pub fn kernel_config_patch_of(bytes: Option<&[u8]>) -> (p: KernelConfigPatch)
    ensures
        p == spec_kernel_config_patch(
            match bytes {
                None => ConfigFile::Missing,
                Some(b) => spec_config_file_of(kernel_json_of(b@)),
            },
        ),
{
    let file = match bytes {
        None => ConfigFile::Missing,
        Some(b) => kernel_config_of(b),
    };
    kernel_config_patch(file)
}

/// Which settings to add to the kernel's config file.
pub fn kernel_config_patch(file: ConfigFile) -> (p: KernelConfigPatch)
    ensures
        p == spec_kernel_config_patch(file),
{
    match file {
        ConfigFile::Missing => KernelConfigPatch { set_inject_budget: true, set_sessions_in_cwd: true },
        ConfigFile::NotAnObject => KernelConfigPatch { set_inject_budget: false, set_sessions_in_cwd: false },
        ConfigFile::Object { memory, appui } => {
            let set_inject_budget = match memory {
                MemorySection::Absent => true,
                MemorySection::Object(BudgetField::Absent) => true,
                MemorySection::Object(BudgetField::Number(n)) => n < INJECT_BUDGET_TOKENS,
                MemorySection::Object(BudgetField::Other) => false,
                MemorySection::NotObject => false,
            };
            let set_sessions_in_cwd = match appui {
                AppuiSection::Absent => true,
                AppuiSection::Object { has_sessions_in_cwd } => !has_sessions_in_cwd,
                AppuiSection::NotObject => false,
            };
            KernelConfigPatch { set_inject_budget, set_sessions_in_cwd }
        },
    }
}

impl KernelConfigPatch {
    /// Whether the file is to be written at all.
    pub fn changed(&self) -> (b: bool)
        ensures
            b == (self.set_inject_budget || self.set_sessions_in_cwd),
    {
        self.set_inject_budget || self.set_sessions_in_cwd
    }
}

/// Patching is idempotent: once a patch is applied, the file asks for no
/// further change.
pub proof fn law_kernel_patch_idempotent(file: ConfigFile)
    ensures
        ({
            let p = spec_kernel_config_patch(file);
            let after = match file {
                ConfigFile::NotAnObject => file,
                ConfigFile::Missing => ConfigFile::Object {
                    memory: MemorySection::Object(BudgetField::Number(INJECT_BUDGET_TOKENS)),
                    appui: AppuiSection::Object { has_sessions_in_cwd: true },
                },
                ConfigFile::Object { memory, appui } => ConfigFile::Object {
                    memory: if p.set_inject_budget {
                        MemorySection::Object(BudgetField::Number(INJECT_BUDGET_TOKENS))
                    } else {
                        memory
                    },
                    appui: if p.set_sessions_in_cwd {
                        AppuiSection::Object { has_sessions_in_cwd: true }
                    } else {
                        appui
                    },
                },
            };
            spec_kernel_config_patch(after) == KernelConfigPatch {
                set_inject_budget: false,
                set_sessions_in_cwd: false,
            }
        }),
{
}

// ---------------------------------------------------------------------------
// Single-user sign-in
// ---------------------------------------------------------------------------

/// What to do with the status of `POST api/auth/solo`.
pub enum SoloStep {
    /// 200: the reply carries the token.
    ReadToken,
    /// 404: no owner yet; create one.
    CreateOwner,
    /// Anything else: sign-in fails with this message.
    Fail(String),
}

/// The next step of the sign-in for an HTTP status.
pub fn solo_signin_step(status: u16) -> (s: SoloStep)
    ensures
        status == 200 ==> s is ReadToken,
        status == 404 ==> s is CreateOwner,
        status == 403 ==> (s matches SoloStep::Fail(m) && m@
            == "Solo sign-in is disabled on this server"@),
        status != 200 && status != 404 && status != 403 ==> (s matches SoloStep::Fail(m) && m@
            == "solo sign-in: HTTP "@ + decimal(status as nat)),
{
    if status == 200 {
        SoloStep::ReadToken
    } else if status == 404 {
        SoloStep::CreateOwner
    } else if status == 403 {
        SoloStep::Fail(String::from_str("Solo sign-in is disabled on this server"))
    } else {
        let mut m = String::from_str("solo sign-in: HTTP ");
        push_decimal(&mut m, status as u64);
        SoloStep::Fail(m)
    }
}

/// The fields of the owner-creation request.
pub struct SoloOwnerRequest {
    pub name: String,
    pub username: String,
    pub email: String,
}

/// The owner to create for profile `pid`: named after it, with the email
/// `<pid>@octos.local`.
pub fn solo_owner_request(pid: &str) -> (r: SoloOwnerRequest)
    ensures
        r.name@ == pid@,
        r.username@ == pid@,
        r.email@ == pid@ + "@octos.local"@,
{
    let mut email = String::from_str(pid);
    push_str(&mut email, "@octos.local");
    SoloOwnerRequest { name: String::from_str(pid), username: String::from_str(pid), email }
}

/// The profile the token belongs to: the returned user's id, else the
/// created owner's profile id, else the profile asked for.
pub fn solo_owner(user_id: Option<String>, created_profile_id: Option<String>, pid: &str) -> (o: String)
    ensures
        o@ == match user_id {
            Some(u) => u@,
            None => match created_profile_id {
                Some(c) => c@,
                None => pid@,
            },
        },
{
    match user_id {
        Some(u) => u,
        None => match created_profile_id {
            Some(c) => c,
            None => String::from_str(pid),
        },
    }
}

} // verus!
