use kernel_ci_center::config::{Config, Defaults, Device, Toolchain};
use kernel_ci_center::pipeline::{
    build_env, describe_toolchain, plan_build, resolve_workdir, select_device, start_build,
    sync_next, toolchain_home, toolchain_source, BuildError, SyncJob, SyncStep, ToolchainError,
    ToolchainSource, BUILD_NUM_END, BUILD_NUM_MIN,
};

fn device(id: &str, enabled: bool, modes: &[&str]) -> Device {
    Device {
        id: id.to_string(),
        name: format!("Galaxy {id}"),
        enabled,
        repo: format!("git@github.com:yucca/kernel_samsung_{id}.git"),
        branch: "main".to_string(),
        build_script: "build.sh".to_string(),
        modes: modes.iter().map(|m| m.to_string()).collect(),
        anykernel_repo: None,
        anykernel_branch: "main".to_string(),
        toolchain: Toolchain { local_path: None, url: None, subdir: None },
    }
}

fn config() -> Config {
    Config {
        defaults: Defaults { kmi_generation: 8 },
        devices: vec![device("sm8750", true, &["resukisu", "lkm"]), device("sm8550", false, &[])],
    }
}

#[test]
fn select_reports_each_refusal() {
    let cfg = config();
    assert!(matches!(select_device(&cfg, "sm8650", "lkm"), Err(BuildError::UnknownDevice)));
    assert!(matches!(select_device(&cfg, "sm8550", "lkm"), Err(BuildError::DeviceDisabled)));
    assert!(matches!(select_device(&cfg, "sm8750", "ksu"), Err(BuildError::UnsupportedMode)));
    assert_eq!(select_device(&cfg, "sm8750", "lkm").ok().unwrap().id, "sm8750");
}

#[test]
fn workdir_resolution() {
    assert_eq!(resolve_workdir("work", "/home/ci"), "/home/ci/work");
    assert_eq!(resolve_workdir("work", "/home/ci/"), "/home/ci/work");
    assert_eq!(resolve_workdir("/abs/work", "/home/ci"), "/abs/work");
    assert_eq!(resolve_workdir("/abs/work", ""), "/abs/work");
}

#[test]
fn plan_of_a_build() {
    let mut d = device("sm8750", true, &["lkm"]);
    d.anykernel_repo = Some("https://github.com/yucca/AnyKernel3".to_string());
    let p = plan_build(&d, "lkm", "/w", 123456789, true);
    assert_eq!(p.build_num, 123456789);
    assert_eq!(p.workdir, "/w");
    assert_eq!(p.srcdir, "/w/sm8750");
    assert_eq!(p.anykernel_dir.as_deref(), Some("/w/sm8750-anykernel"));
    assert_eq!(p.script_args, vec!["build.sh", "lkm"]);
    assert_eq!(p.release_tag.as_deref(), Some("sm8750-lkm-123456789"));
    let q = plan_build(&device("sm8750", true, &[]), "lkm", "/w/", 5, false);
    assert_eq!(q.srcdir, "/w/sm8750");
    assert!(q.anykernel_dir.is_none());
    assert!(q.release_tag.is_none());
}

#[test]
fn start_draws_a_nine_digit_build_number() {
    let cfg = config();
    for _ in 0..20 {
        let (d, n) = start_build(&cfg, "sm8750", "resukisu").ok().unwrap();
        assert_eq!(d.id, "sm8750");
        assert!(BUILD_NUM_MIN <= n && n < BUILD_NUM_END);
        assert_eq!(n.to_string().len(), 9);
    }
    assert!(matches!(start_build(&cfg, "nope", "lkm"), Err(BuildError::UnknownDevice)));
    assert!(matches!(start_build(&cfg, "sm8550", "lkm"), Err(BuildError::DeviceDisabled)));
}

#[test]
fn env_of_the_build_script() {
    let e = build_env("lkm", 123456789, "/tc", None);
    let want: Vec<(String, String)> = [
        ("MODE", "lkm"),
        ("PACK", "1"),
        ("BUILD_NUM", "123456789"),
        ("TOOLCHAIN_DIR", "/tc"),
    ]
    .iter()
    .map(|(k, v)| (k.to_string(), v.to_string()))
    .collect();
    assert_eq!(e, want);
    let e = build_env("resukisu", 100000000, "/tc", Some("/w/ak"));
    assert_eq!(e.len(), 5);
    assert_eq!(e[4], ("ANYKERNEL_DIR".to_string(), "/w/ak".to_string()));
}

#[test]
fn toolchain_prefers_existing_local_path() {
    let mut d = device("sm8750", true, &[]);
    d.toolchain.local_path = Some("/opt/clang".to_string());
    d.toolchain.url = Some("https://example.com/tc.tar".to_string());
    assert!(matches!(toolchain_source(&d, "/w", true), Ok(ToolchainSource::Local(p)) if p == "/opt/clang"));
    match toolchain_source(&d, "/w", false) {
        Ok(ToolchainSource::Download(dl)) => {
            assert_eq!(dl.url, "https://example.com/tc.tar");
            assert_eq!(dl.root, "/w/sm8750-toolchain");
            assert_eq!(dl.tarball, "/w/sm8750-toolchain.tar");
            assert_eq!(
                dl.fetch_args(),
                vec!["-fL", "--retry", "3", "-o", "/w/sm8750-toolchain.tar", "https://example.com/tc.tar"]
            );
            assert_eq!(dl.unpack_args(), vec!["-xf", "/w/sm8750-toolchain.tar", "-C", "/w/sm8750-toolchain"]);
        }
        _ => panic!("expected a download"),
    }
}

#[test]
fn toolchain_without_url_fails() {
    let mut d = device("sm8750", true, &[]);
    assert!(matches!(toolchain_source(&d, "/w", true), Err(ToolchainError::NoUrl)));
    d.toolchain.local_path = Some("/missing".to_string());
    assert!(matches!(toolchain_source(&d, "/w", false), Err(ToolchainError::NoUrl)));
}

#[test]
fn toolchain_home_with_subdir() {
    assert_eq!(toolchain_home("/w/t", &None), "/w/t");
    assert_eq!(toolchain_home("/w/t", &Some("prebuilts".to_string())), "/w/t/prebuilts");
}

#[test]
fn toolchain_descriptions() {
    let mut d = device("sm8750", true, &[]);
    assert_eq!(describe_toolchain(&d), "<unconfigured>");
    d.toolchain.url = Some("https://x/tc.tar".to_string());
    assert_eq!(describe_toolchain(&d), "fetch https://x/tc.tar (subdir None)");
    d.toolchain.subdir = Some("clang \"r\"".to_string());
    assert_eq!(describe_toolchain(&d), "fetch https://x/tc.tar (subdir Some(\"clang \\\"r\\\"\"))");
    d.toolchain.local_path = Some("/opt/clang".to_string());
    assert_eq!(describe_toolchain(&d), "local_path /opt/clang");
}

fn job(has_checkout: bool) -> SyncJob {
    SyncJob {
        repo: "git@github.com:y/k.git".to_string(),
        branch: "main".to_string(),
        dest: "/w/k".to_string(),
        has_checkout,
    }
}

#[test]
fn sync_of_an_existing_checkout() {
    let j = job(true);
    let (s, c) = sync_next(&j, SyncStep::Start, false);
    assert_eq!(s, SyncStep::Fetching);
    assert_eq!(c.unwrap(), vec!["-C", "/w/k", "fetch", "--depth", "1", "origin", "main"]);
    let (s, c) = sync_next(&j, s, true);
    assert_eq!(s, SyncStep::CheckingOut);
    assert_eq!(c.unwrap(), vec!["-C", "/w/k", "checkout", "-f", "main"]);
    let (s2, c) = sync_next(&j, s, false);
    assert_eq!(s2, SyncStep::CreatingBranch);
    assert_eq!(c.unwrap(), vec!["-C", "/w/k", "checkout", "-f", "-B", "main", "origin/main"]);
    let (s, c) = sync_next(&j, s2, true);
    assert_eq!(s, SyncStep::Resetting);
    assert_eq!(c.unwrap(), vec!["-C", "/w/k", "reset", "--hard", "origin/main"]);
    let (s, c) = sync_next(&j, s, true);
    assert_eq!(s, SyncStep::Synced);
    assert!(c.is_none());
}

#[test]
fn sync_failures() {
    let j = job(true);
    assert_eq!(sync_next(&j, SyncStep::Fetching, false).0, SyncStep::Failed);
    assert_eq!(sync_next(&j, SyncStep::CreatingBranch, false).0, SyncStep::Failed);
    assert_eq!(sync_next(&j, SyncStep::Resetting, false).0, SyncStep::Failed);
    assert_eq!(sync_next(&j, SyncStep::Failed, true).0, SyncStep::Failed);
    assert_eq!(sync_next(&j, SyncStep::CheckingOut, true).0, SyncStep::Resetting);
}

#[test]
fn sync_clones_a_missing_checkout() {
    let j = job(false);
    let (s, c) = sync_next(&j, SyncStep::Start, true);
    assert_eq!(s, SyncStep::Cloning);
    assert_eq!(
        c.unwrap(),
        vec!["clone", "--depth", "1", "--branch", "main", "--single-branch", "git@github.com:y/k.git", "/w/k"]
    );
    assert_eq!(sync_next(&j, s, true).0, SyncStep::Synced);
    assert_eq!(sync_next(&j, s, false).0, SyncStep::Failed);
}
