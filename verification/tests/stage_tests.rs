use kernel_ci_center::config::{Device, Toolchain};
use kernel_ci_center::pipeline::{
    build_next, fetch_next, frame_option_debug, frame_toolchain_description, plan_build,
    BuildPlan, BuildStage, FetchStage,
};
use kernel_ci_center::util::zip_positions;

fn device(anykernel: bool) -> Device {
    Device {
        id: "sm8750".to_string(),
        name: "Galaxy S25".to_string(),
        enabled: true,
        repo: "git@github.com:y/k.git".to_string(),
        branch: "main".to_string(),
        build_script: "build.sh".to_string(),
        modes: vec![],
        anykernel_repo: if anykernel { Some("git@github.com:y/ak.git".to_string()) } else { None },
        anykernel_branch: "main".to_string(),
        toolchain: Toolchain { local_path: None, url: Some("https://x/tc.tar".to_string()), subdir: None },
    }
}

fn stages(plan: &BuildPlan, dry_run: bool) -> Vec<BuildStage> {
    let mut out = vec![BuildStage::Start];
    let mut s = BuildStage::Start;
    while s != BuildStage::Done && s != BuildStage::Failed {
        s = build_next(plan, dry_run, s, true);
        out.push(s);
    }
    out
}

#[test]
fn build_stages_in_order() {
    let plan = plan_build(&device(false), "lkm", "/w", 1, false);
    assert_eq!(
        stages(&plan, false),
        vec![BuildStage::Start, BuildStage::MakingWorkdir, BuildStage::SyncingSource, BuildStage::PreparingToolchain, BuildStage::CheckingToolchain, BuildStage::Building, BuildStage::Collecting, BuildStage::Done]
    );
    let plan = plan_build(&device(true), "lkm", "/w", 1, true);
    assert_eq!(
        stages(&plan, false),
        vec![
            BuildStage::Start, BuildStage::MakingWorkdir, BuildStage::SyncingSource, BuildStage::PreparingToolchain, BuildStage::CheckingToolchain,
            BuildStage::SyncingAnyKernel, BuildStage::Building, BuildStage::Collecting, BuildStage::Releasing, BuildStage::Done
        ]
    );
    assert_eq!(stages(&plan, true), vec![BuildStage::Start, BuildStage::PrintingPlan, BuildStage::Done]);
}

#[test]
fn build_stops_at_first_failure() {
    let plan = plan_build(&device(true), "lkm", "/w", 1, true);
    for s in [BuildStage::MakingWorkdir, BuildStage::SyncingSource, BuildStage::PreparingToolchain, BuildStage::CheckingToolchain, BuildStage::SyncingAnyKernel, BuildStage::Building, BuildStage::Collecting, BuildStage::Releasing] {
        assert_eq!(build_next(&plan, false, s, false), BuildStage::Failed, "{s:?}");
    }
    assert_eq!(build_next(&plan, false, BuildStage::Failed, true), BuildStage::Failed);
    assert_eq!(build_next(&plan, false, BuildStage::Done, false), BuildStage::Done);
}

#[test]
fn fetch_skips_an_unpacked_toolchain() {
    assert_eq!(fetch_next(true, FetchStage::Start, true), FetchStage::Ready);
    let mut s = fetch_next(false, FetchStage::Start, true);
    let mut seen = vec![s];
    while s != FetchStage::Ready && s != FetchStage::Failed {
        s = fetch_next(false, s, true);
        seen.push(s);
    }
    assert_eq!(
        seen,
        vec![FetchStage::MakingRoot, FetchStage::Downloading, FetchStage::Unpacking, FetchStage::Cleaning, FetchStage::Ready]
    );
    assert_eq!(fetch_next(false, FetchStage::Downloading, false), FetchStage::Failed);
    assert_eq!(fetch_next(false, FetchStage::Cleaning, false), FetchStage::Ready);
}

#[test]
fn framing_of_the_toolchain_description() {
    assert_eq!(frame_option_debug(None), "None");
    assert_eq!(frame_option_debug(Some("\"x\"")), "Some(\"x\")");
    let d = device(false);
    assert_eq!(frame_toolchain_description(&d, "QQ"), "fetch https://x/tc.tar (subdir QQ)");
    let mut d2 = device(false);
    d2.toolchain.local_path = Some("/opt".to_string());
    assert_eq!(frame_toolchain_description(&d2, "QQ"), "local_path /opt");
}

#[test]
fn zip_positions_in_listing_order() {
    let names: Vec<String> = ["a.zip", "b.tar", ".zip", "c.zip", "d.zip.x"].iter().map(|s| s.to_string()).collect();
    assert_eq!(zip_positions(&names), vec![0, 3]);
    assert_eq!(zip_positions(&vec![]), Vec::<usize>::new());
}
