//! Publishing a built zip as a GitHub Release on the device's own kernel repo.
//!
//! The release is made with the `gh` CLI. It is idempotent: the release is
//! created, or, where that fails (the tag already exists), the asset is
//! uploaded to it with `--clobber`.
use vstd::prelude::*;
use vstd::string::*;

use crate::config::Device;
use crate::slug::{repo_slug, slug_of};
use crate::text::{decimal, push_decimal, views};

verus! {

/// A packed kernel zip, ready to publish.
pub struct Artifact {
    /// Path of the zip.
    pub zip: String,
    /// Lowercase hex SHA-256 of the zip's bytes.
    pub sha256: String,
    pub build_num: u64,
}

/// The release tag: `<id>-<mode>-<build_num>`.
pub open spec fn tag_text(id: Seq<char>, mode: Seq<char>, build_num: u64) -> Seq<char> {
    id + "-"@ + mode + "-"@ + decimal(build_num as nat)
}

/// The release title: `<name> — <mode> (build <build_num>)`.
pub open spec fn title_text(name: Seq<char>, mode: Seq<char>, build_num: u64) -> Seq<char> {
    name + " — "@ + mode + " (build "@ + decimal(build_num as nat) + ")"@
}

/// The release notes: device, mode, build number and checksum, one per line.
pub open spec fn notes_text(
    name: Seq<char>,
    id: Seq<char>,
    mode: Seq<char>,
    build_num: u64,
    sha256: Seq<char>,
) -> Seq<char> {
    "Device: "@ + name + " ("@ + id + ")\nMode: "@ + mode + "\nBuild number: "@ + decimal(
        build_num as nat,
    ) + "\nsha256: "@ + sha256
}

/// The notes end with the whole checksum, unchanged whatever its length,
/// on a line of its own after `sha256: `; they begin by naming the device.
pub proof fn lemma_notes_end_with_checksum(
    name: Seq<char>,
    id: Seq<char>,
    mode: Seq<char>,
    build_num: u64,
    sha256: Seq<char>,
)
    ensures
        exists|head: Seq<char>| notes_text(name, id, mode, build_num, sha256) == head + "\nsha256: "@ + sha256,
        exists|rest: Seq<char>| notes_text(name, id, mode, build_num, sha256) == "Device: "@ + name + rest,
{
    let head = "Device: "@ + name + " ("@ + id + ")\nMode: "@ + mode + "\nBuild number: "@ + decimal(
        build_num as nat,
    );
    assert(notes_text(name, id, mode, build_num, sha256) == head + "\nsha256: "@ + sha256);
    let rest = " ("@ + id + ")\nMode: "@ + mode + "\nBuild number: "@ + decimal(build_num as nat)
        + "\nsha256: "@ + sha256;
    assert(notes_text(name, id, mode, build_num, sha256) =~= "Device: "@ + name + rest);
}

/// The tag of a build's release, `<id>-<mode>-<build_num>`.
pub fn release_tag(id: &str, mode: &str, build_num: u64) -> (res: String)
    ensures
        res@ == tag_text(id@, mode@, build_num),
{
    let mut s = String::from_str(id);
    s.append("-");
    s.append(mode);
    s.append("-");
    push_decimal(&mut s, build_num);
    s
}

/// The title of a build's release.
pub fn release_title(name: &str, mode: &str, build_num: u64) -> (res: String)
    ensures
        res@ == title_text(name@, mode@, build_num),
{
    let mut s = String::from_str(name);
    s.append(" — ");
    s.append(mode);
    s.append(" (build ");
    push_decimal(&mut s, build_num);
    s.append(")");
    s
}

/// The notes of a build's release.
pub fn release_notes(name: &str, id: &str, mode: &str, build_num: u64, sha256: &str) -> (res:
    String)
    ensures
        res@ == notes_text(name@, id@, mode@, build_num, sha256@),
        exists|head: Seq<char>| res@ == head + "\nsha256: "@ + sha256@,
{
    proof {
        lemma_notes_end_with_checksum(name@, id@, mode@, build_num, sha256@);
    }
    let mut s = String::from_str("Device: ");
    s.append(name);
    s.append(" (");
    s.append(id);
    s.append(")\nMode: ");
    s.append(mode);
    s.append("\nBuild number: ");
    push_decimal(&mut s, build_num);
    s.append("\nsha256: ");
    s.append(sha256);
    s
}

/// Everything the `gh` calls of one release need.
pub struct ReleaseJob {
    /// `OWNER/NAME` of the device's kernel repo.
    pub slug: String,
    pub tag: String,
    pub title: String,
    pub notes: String,
    /// Path of the zip to attach.
    pub zip: String,
}

/// Why a release cannot be made.
#[derive(PartialEq, Eq, Structural, Debug, Clone, Copy)]
pub enum ReleaseError {
    /// The device's repo URL has no `OWNER/NAME` slug.
    NoRepoSlug,
}

/// `job` publishes `art`, built for `dev` in `mode`, on the device's repo.
pub open spec fn is_release_of(job: ReleaseJob, dev: Device, mode: Seq<char>, art: Artifact) -> bool {
    &&& slug_of(dev.repo@) == Some(job.slug@)
    &&& job.tag@ == tag_text(dev.id@, mode, art.build_num)
    &&& job.title@ == title_text(dev.name@, mode, art.build_num)
    &&& job.notes@ == notes_text(dev.name@, dev.id@, mode, art.build_num, art.sha256@)
    &&& job.zip@ == art.zip@
}

/// Prepares the release of `art`, built for `dev` in `mode`: it fails
/// exactly when the device's repo URL has no slug.
pub fn release_job(dev: &Device, mode: &str, art: &Artifact) -> (res: Result<
    ReleaseJob,
    ReleaseError,
>)
    ensures
        match res {
            Ok(job) => is_release_of(job, *dev, mode@, *art),
            Err(e) => e == ReleaseError::NoRepoSlug && slug_of(dev.repo@) is None,
        },
{
    let slug = match repo_slug(dev.repo.as_str()) {
        Some(s) => s,
        None => return Err(ReleaseError::NoRepoSlug),
    };
    Ok(
        ReleaseJob {
            slug,
            tag: release_tag(dev.id.as_str(), mode, art.build_num),
            title: release_title(dev.name.as_str(), mode, art.build_num),
            notes: release_notes(
                dev.name.as_str(),
                dev.id.as_str(),
                mode,
                art.build_num,
                art.sha256.as_str(),
            ),
            zip: art.zip.clone(),
        },
    )
}

/// The `gh` arguments that create the release with the zip attached.
pub open spec fn create_args(job: ReleaseJob) -> Seq<Seq<char>> {
    seq![
        "release"@,
        "create"@,
        job.tag@,
        job.zip@,
        "-R"@,
        job.slug@,
        "-t"@,
        job.title@,
        "-n"@,
        job.notes@,
    ]
}

/// The `gh` arguments that upload the zip to the existing release, replacing
/// an asset of the same name.
pub open spec fn upload_args(job: ReleaseJob) -> Seq<Seq<char>> {
    seq!["release"@, "upload"@, job.tag@, job.zip@, "-R"@, job.slug@, "--clobber"@]
}

/// Both `gh` calls name the same tag, zip and repo, in the same places;
/// creating attaches the title and notes, and only the upload replaces an
/// existing asset.
pub proof fn lemma_release_calls_agree(job: ReleaseJob)
    ensures
        create_args(job).len() == 10,
        upload_args(job).len() == 7,
        create_args(job)[2] == job.tag@ && upload_args(job)[2] == job.tag@,
        create_args(job)[3] == job.zip@ && upload_args(job)[3] == job.zip@,
        create_args(job)[5] == job.slug@ && upload_args(job)[5] == job.slug@,
        create_args(job)[7] == job.title@ && create_args(job)[9] == job.notes@,
        upload_args(job)[6] == "--clobber"@,
{
}

/// The tag begins with the device id, then the mode, and ends with the build
/// number in decimal, separated by `-`.
pub proof fn lemma_tag_parts(id: Seq<char>, mode: Seq<char>, build_num: u64)
    ensures
        tag_text(id, mode, build_num).len() == id.len() + mode.len() + 2 + decimal(
            build_num as nat,
        ).len(),
        tag_text(id, mode, build_num).subrange(0, id.len() as int) == id,
        tag_text(id, mode, build_num).subrange(
            tag_text(id, mode, build_num).len() - decimal(build_num as nat).len(),
            tag_text(id, mode, build_num).len() as int,
        ) == decimal(build_num as nat),
{
    reveal_strlit("-");
    let t = tag_text(id, mode, build_num);
    let d = decimal(build_num as nat);
    assert(t.subrange(0, id.len() as int) =~= id);
    assert(t.subrange(t.len() - d.len(), t.len() as int) =~= d);
}

fn create_command(job: &ReleaseJob) -> (v: Vec<String>)
    ensures
        views(v@) == create_args(*job),
{
    let mut v: Vec<String> = Vec::new();
    v.push(String::from_str("release"));
    v.push(String::from_str("create"));
    v.push(job.tag.clone());
    v.push(job.zip.clone());
    v.push(String::from_str("-R"));
    v.push(job.slug.clone());
    v.push(String::from_str("-t"));
    v.push(job.title.clone());
    v.push(String::from_str("-n"));
    v.push(job.notes.clone());
    assert(views(v@) =~= create_args(*job));
    v
}

fn upload_command(job: &ReleaseJob) -> (v: Vec<String>)
    ensures
        views(v@) == upload_args(*job),
{
    let mut v: Vec<String> = Vec::new();
    v.push(String::from_str("release"));
    v.push(String::from_str("upload"));
    v.push(job.tag.clone());
    v.push(job.zip.clone());
    v.push(String::from_str("-R"));
    v.push(job.slug.clone());
    v.push(String::from_str("--clobber"));
    assert(views(v@) =~= upload_args(*job));
    v
}

/// Where a release stands.
#[derive(PartialEq, Eq, Structural, Debug, Clone, Copy)]
pub enum ReleaseStep {
    /// Nothing run yet.
    Start,
    /// `gh release create` was run.
    Creating,
    /// Creation failed; `gh release upload --clobber` was run.
    Uploading,
    /// The zip is published.
    Released,
    /// The upload failed too.
    Failed,
}

/// One step of publishing: given where the release stands and whether the
/// `gh` call just run succeeded, the next step and the `gh` call to run
/// next, if any. The outcome is ignored at `Start`, `Released` and `Failed`.
pub fn release_next(job: &ReleaseJob, step: ReleaseStep, last_ok: bool) -> (res: (
    ReleaseStep,
    Option<Vec<String>>,
))
    ensures
        match step {
            ReleaseStep::Start => {
                &&& res.0 == ReleaseStep::Creating
                &&& res.1 matches Some(c) && views(c@) == create_args(*job)
            },
            ReleaseStep::Creating => if last_ok {
                res.0 == ReleaseStep::Released && res.1 is None
            } else {
                &&& res.0 == ReleaseStep::Uploading
                &&& res.1 matches Some(c) && views(c@) == upload_args(*job)
            },
            ReleaseStep::Uploading => res.1 is None && res.0 == if last_ok {
                ReleaseStep::Released
            } else {
                ReleaseStep::Failed
            },
            ReleaseStep::Released => res.0 == ReleaseStep::Released && res.1 is None,
            ReleaseStep::Failed => res.0 == ReleaseStep::Failed && res.1 is None,
        },
{
    match step {
        ReleaseStep::Start => (ReleaseStep::Creating, Some(create_command(job))),
        ReleaseStep::Creating => {
            if last_ok {
                (ReleaseStep::Released, None)
            } else {
                (ReleaseStep::Uploading, Some(upload_command(job)))
            }
        },
        ReleaseStep::Uploading => {
            if last_ok {
                (ReleaseStep::Released, None)
            } else {
                (ReleaseStep::Failed, None)
            }
        },
        ReleaseStep::Released => (ReleaseStep::Released, None),
        ReleaseStep::Failed => (ReleaseStep::Failed, None),
    }
}

} // verus!
