use kernel_ci_center::config::{default_kmi, main_branch, yes, Config, Defaults, Device, Toolchain};

fn device(id: &str, enabled: bool, modes: &[&str]) -> Device {
    Device {
        id: id.to_string(),
        name: format!("Galaxy {id}"),
        enabled,
        repo: format!("git@github.com:yucca/kernel_samsung_{id}.git"),
        branch: "main".to_string(),
        build_script: "build.sh".to_string(),
        modes: modes.iter().map(|m| m.to_string()).collect(),
        anykernel_repo: None,
        anykernel_branch: "main".to_string(),
        toolchain: Toolchain { local_path: None, url: None, subdir: None },
    }
}

fn config() -> Config {
    Config {
        defaults: Defaults { kmi_generation: 8 },
        devices: vec![
            device("sm8750", true, &["resukisu", "lkm"]),
            device("sm8550", false, &[]),
            device("sm8750", true, &["other"]),
        ],
    }
}

#[test]
fn serde_defaults() {
    assert_eq!(default_kmi(), 8);
    assert!(yes());
    assert_eq!(main_branch(), "main");
}

#[test]
fn missing_defaults_table_is_zeroed() {
    assert_eq!(Defaults::default().kmi_generation, 0);
}

#[test]
fn device_finds_first_with_id() {
    let cfg = config();
    let d = cfg.device("sm8750").expect("present");
    assert_eq!(d.modes, vec!["resukisu".to_string(), "lkm".to_string()]);
    assert_eq!(cfg.device("sm8550").map(|d| d.enabled), Some(false));
}

#[test]
fn device_unknown_id() {
    let cfg = config();
    assert!(cfg.device("sm8650").is_none());
    assert!(cfg.device("").is_none());
    assert!(cfg.device("sm875").is_none());
}

#[test]
fn supports_listed_modes_only() {
    let d = device("sm8750", true, &["resukisu", "lkm"]);
    assert!(d.supports("resukisu"));
    assert!(d.supports("lkm"));
    assert!(!d.supports("ksu"));
    assert!(!d.supports(""));
}

#[test]
fn supports_any_mode_when_none_listed() {
    let d = device("sm8550", false, &[]);
    assert!(d.supports("resukisu"));
    assert!(d.supports("anything"));
}
