use octos_app::bootstrap::{
    kernel_config_of, kernel_config_patch_of,
    kernel_config_patch, solo_owner, solo_owner_request, solo_signin_step, AppuiSection,
    BudgetField, ConfigFile, KernelConfigPatch, MemorySection, SoloStep,
};

#[test]
fn kernel_config_is_patched_only_where_needed() {
    assert_eq!(
        kernel_config_patch(ConfigFile::Missing),
        KernelConfigPatch { set_inject_budget: true, set_sessions_in_cwd: true }
    );
    assert!(!kernel_config_patch(ConfigFile::NotAnObject).changed());
    let old = ConfigFile::Object {
        memory: MemorySection::Object(BudgetField::Number(2500)),
        appui: AppuiSection::Object { has_sessions_in_cwd: true },
    };
    assert_eq!(kernel_config_patch(old), KernelConfigPatch { set_inject_budget: true, set_sessions_in_cwd: false });
    let tuned = ConfigFile::Object {
        memory: MemorySection::Object(BudgetField::Number(60_000)),
        appui: AppuiSection::Absent,
    };
    assert_eq!(kernel_config_patch(tuned), KernelConfigPatch { set_inject_budget: false, set_sessions_in_cwd: true });
    let odd = ConfigFile::Object { memory: MemorySection::Object(BudgetField::Other), appui: AppuiSection::NotObject };
    assert!(!kernel_config_patch(odd).changed());
    let exact = ConfigFile::Object {
        memory: MemorySection::Object(BudgetField::Number(40_000)),
        appui: AppuiSection::Object { has_sessions_in_cwd: true },
    };
    assert!(!kernel_config_patch(exact).changed());
}

#[test]
fn solo_sign_in_steps() {
    assert!(matches!(solo_signin_step(200), SoloStep::ReadToken));
    assert!(matches!(solo_signin_step(404), SoloStep::CreateOwner));
    assert!(matches!(solo_signin_step(403), SoloStep::Fail(m) if m == "Solo sign-in is disabled on this server"));
    assert!(matches!(solo_signin_step(500), SoloStep::Fail(m) if m == "solo sign-in: HTTP 500"));
    let r = solo_owner_request("acme");
    assert_eq!((r.name.as_str(), r.username.as_str(), r.email.as_str()), ("acme", "acme", "acme@octos.local"));
    assert_eq!(solo_owner(Some("u1".into()), Some("p1".into()), "me"), "u1");
    assert_eq!(solo_owner(None, Some("p1".into()), "me"), "p1");
    assert_eq!(solo_owner(None, None, "me"), "me");
}

#[test]
fn kernel_config_read_from_bytes() {
    assert_eq!(kernel_config_of(b"[1, 2]"), ConfigFile::NotAnObject);
    assert_eq!(kernel_config_of(b"not json"), ConfigFile::NotAnObject);
    assert_eq!(
        kernel_config_of(br#"{"memory": {"max_inject_tokens": 2500}, "appui": {"sessions_in_cwd": true}}"#),
        ConfigFile::Object {
            memory: MemorySection::Object(BudgetField::Number(2500)),
            appui: AppuiSection::Object { has_sessions_in_cwd: true },
        }
    );
    assert_eq!(
        kernel_config_of(br#"{"memory": {"max_inject_tokens": "lots"}, "appui": 3}"#),
        ConfigFile::Object { memory: MemorySection::Object(BudgetField::Other), appui: AppuiSection::NotObject }
    );
    assert_eq!(
        kernel_config_of(b"{}"),
        ConfigFile::Object { memory: MemorySection::Absent, appui: AppuiSection::Absent }
    );
    let p = kernel_config_patch_of(None);
    assert!(p.set_inject_budget && p.set_sessions_in_cwd);
    let p = kernel_config_patch_of(Some(br#"{"memory": {"max_inject_tokens": 50000}, "appui": {}}"#));
    assert!(!p.set_inject_budget && p.set_sessions_in_cwd);
    let p = kernel_config_patch_of(Some(b"null"));
    assert!(!p.changed());
}
