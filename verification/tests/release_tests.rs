use kernel_ci_center::config::{Device, Toolchain};
use kernel_ci_center::release::{
    release_job, release_next, release_notes, release_tag, release_title, Artifact, ReleaseError,
    ReleaseStep,
};

fn device(repo: &str) -> Device {
    Device {
        id: "sm8750".to_string(),
        name: "Galaxy S25".to_string(),
        enabled: true,
        repo: repo.to_string(),
        branch: "main".to_string(),
        build_script: "build.sh".to_string(),
        modes: vec![],
        anykernel_repo: None,
        anykernel_branch: "main".to_string(),
        toolchain: Toolchain { local_path: None, url: None, subdir: None },
    }
}

fn artifact() -> Artifact {
    Artifact { zip: "/w/out.zip".to_string(), sha256: "ab12".to_string(), build_num: 123456789 }
}

#[test]
fn release_texts() {
    assert_eq!(release_tag("sm8750", "lkm", 123456789), "sm8750-lkm-123456789");
    assert_eq!(release_tag("a", "b", 0), "a-b-0");
    assert_eq!(release_title("Galaxy S25", "lkm", 42), "Galaxy S25 — lkm (build 42)");
    assert_eq!(
        release_notes("Galaxy S25", "sm8750", "lkm", 7, "ff00"),
        "Device: Galaxy S25 (sm8750)\nMode: lkm\nBuild number: 7\nsha256: ff00"
    );
}

#[test]
fn release_job_fields() {
    let job = release_job(&device("git@github.com:yucca/k.git"), "lkm", &artifact()).ok().unwrap();
    assert_eq!(job.slug, "yucca/k");
    assert_eq!(job.tag, "sm8750-lkm-123456789");
    assert_eq!(job.title, "Galaxy S25 — lkm (build 123456789)");
    assert_eq!(job.zip, "/w/out.zip");
    assert!(job.notes.ends_with("sha256: ab12"));
}

#[test]
fn release_job_needs_slug() {
    let r = release_job(&device("https://example.com/k"), "lkm", &artifact());
    assert!(matches!(r, Err(ReleaseError::NoRepoSlug)));
}

#[test]
fn release_creates_then_stops() {
    let job = release_job(&device("git@github.com:yucca/k.git"), "lkm", &artifact()).ok().unwrap();
    let (s, c) = release_next(&job, ReleaseStep::Start, false);
    assert_eq!(s, ReleaseStep::Creating);
    assert_eq!(
        c.unwrap(),
        vec![
            "release", "create", "sm8750-lkm-123456789", "/w/out.zip", "-R", "yucca/k", "-t",
            "Galaxy S25 — lkm (build 123456789)", "-n", &job.notes,
        ]
    );
    let (s, c) = release_next(&job, s, true);
    assert_eq!(s, ReleaseStep::Released);
    assert!(c.is_none());
}

#[test]
fn release_falls_back_to_clobbering_upload() {
    let job = release_job(&device("git@github.com:yucca/k.git"), "lkm", &artifact()).ok().unwrap();
    let (s, _) = release_next(&job, ReleaseStep::Start, true);
    let (s, c) = release_next(&job, s, false);
    assert_eq!(s, ReleaseStep::Uploading);
    assert_eq!(
        c.unwrap(),
        vec!["release", "upload", "sm8750-lkm-123456789", "/w/out.zip", "-R", "yucca/k", "--clobber"]
    );
    assert_eq!(release_next(&job, s, true).0, ReleaseStep::Released);
    assert_eq!(release_next(&job, s, false).0, ReleaseStep::Failed);
    assert_eq!(release_next(&job, ReleaseStep::Failed, true).0, ReleaseStep::Failed);
}
