//! The build pipeline's decisions: which device and mode to build, where
//! sources, toolchain and artifacts go, what the build script is handed,
//! and the git steps that bring a checkout up to date.
//!
//! The steps themselves (git, curl, tar, the build script) run outside;
//! the functions here say what to run and what to do with the outcome.
use vstd::prelude::*;
use vstd::string::*;

use crate::config::{is_first_with_id, no_device_with_id, supports_mode, Config, Device};
use crate::release::{is_release_of, release_tag, tag_text, Artifact, ReleaseJob};
use crate::text::{decimal, decimal_string, join_path, joined, views};

verus! {

/// The smallest build number drawn.
pub const BUILD_NUM_MIN: u64 = 100_000_000;

/// One past the largest build number drawn.
pub const BUILD_NUM_END: u64 = 1_000_000_000;

/// A number drawn at random by `rand::thread_rng().gen_range(low..high)`.
/// Trusted to lie in `low..high`; which number comes out is left to chance.
#[verifier::external_body]
fn random_in_range(low: u64, high: u64) -> (r: u64)
    requires
        low < high,
    ensures
        low <= r < high,
{
    rand::Rng::gen_range(&mut rand::thread_rng(), low..high)
}

/// Why a build request is refused.
#[derive(PartialEq, Eq, Structural, Debug, Clone, Copy)]
pub enum BuildError {
    /// No device has the requested id.
    UnknownDevice,
    /// The device is disabled in the config.
    DeviceDisabled,
    /// The device does not build the requested mode.
    UnsupportedMode,
}

/// The device that a request for `device_id` in `mode` builds, or why none does.
pub open spec fn selection(devs: Seq<Device>, device_id: Seq<char>, mode: Seq<char>) -> Result<
    Device,
    BuildError,
> {
    if no_device_with_id(devs, device_id) {
        Err(BuildError::UnknownDevice)
    } else {
        let d = devs[choose|i: int| is_first_with_id(devs, device_id, i)];
        if !d.enabled {
            Err(BuildError::DeviceDisabled)
        } else if !supports_mode(d.modes@, mode) {
            Err(BuildError::UnsupportedMode)
        } else {
            Ok(d)
        }
    }
}

/// The first device with id `device_id`, when it is enabled and builds
/// `mode`; otherwise the reason, checked in that order.
pub fn select_device<'a>(cfg: &'a Config, device_id: &str, mode: &str) -> (res: Result<
    &'a Device,
    BuildError,
>)
    ensures
        match res {
            Ok(d) => selection(cfg.devices@, device_id@, mode@) == Ok::<Device, BuildError>(*d),
            Err(e) => selection(cfg.devices@, device_id@, mode@) == Err::<Device, BuildError>(e),
        },
{
    let dev = match cfg.device(device_id) {
        Some(d) => d,
        None => return Err(BuildError::UnknownDevice),
    };
    proof {
        let devs = cfg.devices@;
        let i = choose|i: int| is_first_with_id(devs, device_id@, i) && *dev == devs[i];
        assert forall|k: int| is_first_with_id(devs, device_id@, k) implies k == i by {
            if k < i {
                assert(devs[k].id@ != device_id@);
            } else if k > i {
                assert(devs[i].id@ != device_id@);
            }
        }
    }
    if !dev.enabled {
        return Err(BuildError::DeviceDisabled);
    }
    if !dev.supports(mode) {
        return Err(BuildError::UnsupportedMode);
    }
    Ok(dev)
}

/// The working directory: `work` itself when absolute, else `work` under
/// the current directory `cwd` (which is not consulted for an absolute `work`).
pub fn resolve_workdir(work: &str, cwd: &str) -> (res: String)
    ensures
        res@ == joined(cwd@, work@),
{
    join_path(cwd, work)
}

/// A directory or file in the working directory named after a device:
/// `<workdir>/<id><suffix>`.
pub open spec fn device_path(workdir: Seq<char>, id: Seq<char>, suffix: Seq<char>) -> Seq<char> {
    joined(workdir, id + suffix)
}

fn device_path_of(workdir: &str, id: &str, suffix: &str) -> (res: String)
    ensures
        res@ == device_path(workdir@, id@, suffix@),
{
    let name = String::from_str(id).concat(suffix);
    join_path(workdir, name.as_str())
}

/// What one build will do, fixed before anything runs.
pub struct BuildPlan {
    /// The build number handed to the build script.
    pub build_num: u64,
    /// The absolute working directory; the build script leaves the packed
    /// zip here.
    pub workdir: String,
    /// The kernel checkout, `<workdir>/<id>`.
    pub srcdir: String,
    /// The AnyKernel3 checkout, `<workdir>/<id>-anykernel`, when the device names a repo for it.
    pub anykernel_dir: Option<String>,
    /// The arguments of `bash`: the build script and the mode.
    pub script_args: Vec<String>,
    /// The tag to publish under, when a release is asked for.
    pub release_tag: Option<String>,
}

/// `plan` is the plan of building `dev` in `mode` under `workdir` with
/// `build_num`, releasing it when `do_release`.
pub open spec fn is_plan_for(
    plan: BuildPlan,
    dev: Device,
    mode: Seq<char>,
    workdir: Seq<char>,
    build_num: u64,
    do_release: bool,
) -> bool {
    &&& plan.build_num == build_num
    &&& plan.workdir@ == workdir
    &&& plan.srcdir@ == joined(workdir, dev.id@)
    &&& match dev.anykernel_repo {
        Some(_) => plan.anykernel_dir matches Some(d) && d@ == device_path(
            workdir,
            dev.id@,
            "-anykernel"@,
        ),
        None => plan.anykernel_dir is None,
    }
    &&& views(plan.script_args@) == seq![dev.build_script@, mode]
    &&& if do_release {
        plan.release_tag matches Some(t) && t@ == tag_text(dev.id@, mode, build_num)
    } else {
        plan.release_tag is None
    }
}

/// The plan of building `dev` in `mode` under `workdir` with `build_num`.
pub fn plan_build(dev: &Device, mode: &str, workdir: &str, build_num: u64, do_release: bool) -> (plan:
    BuildPlan)
    ensures
        is_plan_for(plan, *dev, mode@, workdir@, build_num, do_release),
{
    let anykernel_dir = match &dev.anykernel_repo {
        Some(_) => Some(device_path_of(workdir, dev.id.as_str(), "-anykernel")),
        None => None,
    };
    let mut script_args: Vec<String> = Vec::new();
    script_args.push(dev.build_script.clone());
    script_args.push(String::from_str(mode));
    assert(views(script_args@) =~= seq![dev.build_script@, mode@]);
    let release_tag = if do_release {
        Some(release_tag(dev.id.as_str(), mode, build_num))
    } else {
        None
    };
    BuildPlan {
        build_num,
        workdir: String::from_str(workdir),
        srcdir: join_path(workdir, dev.id.as_str()),
        anykernel_dir,
        script_args,
        release_tag,
    }
}

/// Starts a build of `device_id` in `mode`: selects the device and draws a
/// build number in `BUILD_NUM_MIN..BUILD_NUM_END`. Fails exactly as
/// `select_device` does, and then draws nothing.
pub fn start_build<'a>(cfg: &'a Config, device_id: &str, mode: &str) -> (res: Result<
    (&'a Device, u64),
    BuildError,
>)
    ensures
        match res {
            Ok((d, build_num)) => {
                &&& selection(cfg.devices@, device_id@, mode@) == Ok::<Device, BuildError>(*d)
                &&& BUILD_NUM_MIN <= build_num < BUILD_NUM_END
            },
            Err(e) => selection(cfg.devices@, device_id@, mode@) == Err::<Device, BuildError>(e),
        },
{
    let dev = select_device(cfg, device_id, mode)?;
    let build_num = random_in_range(BUILD_NUM_MIN, BUILD_NUM_END);
    Ok((dev, build_num))
}

/// The views of a list of environment variables.
pub open spec fn pair_views(v: Seq<(String, String)>) -> Seq<(Seq<char>, Seq<char>)> {
    v.map_values(|p: (String, String)| (p.0@, p.1@))
}

/// The environment of the build script: `MODE`, `PACK=1`, `BUILD_NUM`,
/// `TOOLCHAIN_DIR`, then `ANYKERNEL_DIR` when there is an AnyKernel3 checkout.
pub open spec fn build_env_spec(
    mode: Seq<char>,
    build_num: u64,
    toolchain_dir: Seq<char>,
    anykernel_dir: Option<Seq<char>>,
) -> Seq<(Seq<char>, Seq<char>)> {
    let base = seq![
        ("MODE"@, mode),
        ("PACK"@, "1"@),
        ("BUILD_NUM"@, decimal(build_num as nat)),
        ("TOOLCHAIN_DIR"@, toolchain_dir),
    ];
    match anykernel_dir {
        Some(d) => base.push(("ANYKERNEL_DIR"@, d)),
        None => base,
    }
}

/// The environment handed to the build script.
pub fn build_env(mode: &str, build_num: u64, toolchain_dir: &str, anykernel_dir: Option<&str>) -> (res:
    Vec<(String, String)>)
    ensures
        pair_views(res@) == build_env_spec(
            mode@,
            build_num,
            toolchain_dir@,
            match anykernel_dir {
                Some(d) => Some(d@),
                None => None,
            },
        ),
{
    let mut v: Vec<(String, String)> = Vec::new();
    v.push((String::from_str("MODE"), String::from_str(mode)));
    v.push((String::from_str("PACK"), String::from_str("1")));
    v.push((String::from_str("BUILD_NUM"), decimal_string(build_num)));
    v.push((String::from_str("TOOLCHAIN_DIR"), String::from_str(toolchain_dir)));
    match anykernel_dir {
        Some(d) => {
            v.push((String::from_str("ANYKERNEL_DIR"), String::from_str(d)));
        },
        None => {},
    }
    assert(pair_views(v@) =~= build_env_spec(
        mode@,
        build_num,
        toolchain_dir@,
        match anykernel_dir {
            Some(d) => Some(d@),
            None => None,
        },
    ));
    v
}

/// A toolchain tarball to fetch and unpack.
pub struct ToolchainDownload {
    pub url: String,
    /// Where the tarball is unpacked: `<workdir>/<id>-toolchain`.
    pub root: String,
    /// Where the tarball is saved: `<workdir>/<id>-toolchain.tar`.
    pub tarball: String,
}

/// Where a device's toolchain comes from.
pub enum ToolchainSource {
    /// A prebuilts directory already on disk.
    Local(String),
    /// A tarball to fetch (unless its unpacked root is there already).
    Download(ToolchainDownload),
}

/// Why no toolchain can be had.
#[derive(PartialEq, Eq, Structural, Debug, Clone, Copy)]
pub enum ToolchainError {
    /// The local path is absent (or not on disk) and no URL is set.
    NoUrl,
}

/// Chooses the toolchain of `dev`: its local path when that is set and
/// `local_exists` (the path is on disk), else a download of its URL into
/// `workdir`, else an error.
pub fn toolchain_source(dev: &Device, workdir: &str, local_exists: bool) -> (res: Result<
    ToolchainSource,
    ToolchainError,
>)
    ensures
        match dev.toolchain.local_path {
            Some(p) if local_exists => res matches Ok(ToolchainSource::Local(q)) && q@ == p@,
            _ => match dev.toolchain.url {
                Some(u) => res matches Ok(ToolchainSource::Download(d)) && {
                    &&& d.url@ == u@
                    &&& d.root@ == device_path(workdir@, dev.id@, "-toolchain"@)
                    &&& d.tarball@ == device_path(workdir@, dev.id@, "-toolchain.tar"@)
                },
                None => res == Err::<ToolchainSource, ToolchainError>(ToolchainError::NoUrl),
            },
        },
{
    if let Some(p) = &dev.toolchain.local_path {
        if local_exists {
            return Ok(ToolchainSource::Local(p.clone()));
        }
    }
    match &dev.toolchain.url {
        Some(u) => Ok(
            ToolchainSource::Download(
                ToolchainDownload {
                    url: u.clone(),
                    root: device_path_of(workdir, dev.id.as_str(), "-toolchain"),
                    tarball: device_path_of(workdir, dev.id.as_str(), "-toolchain.tar"),
                },
            ),
        ),
        None => Err(ToolchainError::NoUrl),
    }
}

impl ToolchainDownload {
    /// The `curl` arguments that fetch the tarball: `-fL --retry 3 -o <tarball> <url>`.
    pub fn fetch_args(&self) -> (v: Vec<String>)
        ensures
            views(v@) == seq!["-fL"@, "--retry"@, "3"@, "-o"@, self.tarball@, self.url@],
    {
        let mut v: Vec<String> = Vec::new();
        v.push(String::from_str("-fL"));
        v.push(String::from_str("--retry"));
        v.push(String::from_str("3"));
        v.push(String::from_str("-o"));
        v.push(self.tarball.clone());
        v.push(self.url.clone());
        assert(views(v@) =~= seq!["-fL"@, "--retry"@, "3"@, "-o"@, self.tarball@, self.url@]);
        v
    }

    /// The `tar` arguments that unpack the tarball: `-xf <tarball> -C <root>`.
    pub fn unpack_args(&self) -> (v: Vec<String>)
        ensures
            views(v@) == seq!["-xf"@, self.tarball@, "-C"@, self.root@],
    {
        let mut v: Vec<String> = Vec::new();
        v.push(String::from_str("-xf"));
        v.push(self.tarball.clone());
        v.push(String::from_str("-C"));
        v.push(self.root.clone());
        assert(views(v@) =~= seq!["-xf"@, self.tarball@, "-C"@, self.root@]);
        v
    }
}

/// Where fetching a toolchain tarball stands; each state but `Start`,
/// `Ready` and `Failed` names the step to run next.
#[derive(PartialEq, Eq, Structural, Debug, Clone, Copy)]
pub enum FetchStage {
    Start,
    /// Create the unpack root directory.
    MakingRoot,
    /// Run `curl` with `fetch_args`.
    Downloading,
    /// Run `tar` with `unpack_args`.
    Unpacking,
    /// Remove the tarball; whether that works does not matter.
    Cleaning,
    /// The toolchain is unpacked under its root.
    Ready,
    /// A step failed.
    Failed,
}

/// The stage after `stage`, whose step ended with `ok`. Where the unpacked
/// root already exists nothing is run again: the toolchain is ready at once.
pub open spec fn fetch_successor(root_exists: bool, stage: FetchStage, ok: bool) -> FetchStage {
    match stage {
        FetchStage::Start => if root_exists {
            FetchStage::Ready
        } else {
            FetchStage::MakingRoot
        },
        FetchStage::MakingRoot => if ok {
            FetchStage::Downloading
        } else {
            FetchStage::Failed
        },
        FetchStage::Downloading => if ok {
            FetchStage::Unpacking
        } else {
            FetchStage::Failed
        },
        FetchStage::Unpacking => if ok {
            FetchStage::Cleaning
        } else {
            FetchStage::Failed
        },
        FetchStage::Cleaning => FetchStage::Ready,
        FetchStage::Ready => FetchStage::Ready,
        FetchStage::Failed => FetchStage::Failed,
    }
}

/// At most how many more steps a fetch at `stage` runs.
pub open spec fn fetch_steps_left(stage: FetchStage) -> nat {
    match stage {
        FetchStage::Start => 5,
        FetchStage::MakingRoot => 4,
        FetchStage::Downloading => 3,
        FetchStage::Unpacking => 2,
        FetchStage::Cleaning => 1,
        FetchStage::Ready => 0,
        FetchStage::Failed => 0,
    }
}

/// One step of getting a downloaded toolchain in place: given whether its
/// unpacked root exists, where the fetch stands and whether the step just
/// run succeeded (ignored at `Start` and `Cleaning`), the next stage.
pub fn fetch_next(root_exists: bool, stage: FetchStage, last_ok: bool) -> (res: FetchStage)
    ensures
        res == fetch_successor(root_exists, stage, last_ok),
        stage != FetchStage::Ready && stage != FetchStage::Failed ==> fetch_steps_left(res)
            < fetch_steps_left(stage),
        (stage == FetchStage::MakingRoot || stage == FetchStage::Downloading || stage
            == FetchStage::Unpacking) && !last_ok ==> res == FetchStage::Failed,
        res == FetchStage::Cleaning ==> stage == FetchStage::Unpacking && last_ok,
{
    match stage {
        FetchStage::Start => if root_exists {
            FetchStage::Ready
        } else {
            FetchStage::MakingRoot
        },
        FetchStage::MakingRoot => if last_ok {
            FetchStage::Downloading
        } else {
            FetchStage::Failed
        },
        FetchStage::Downloading => if last_ok {
            FetchStage::Unpacking
        } else {
            FetchStage::Failed
        },
        FetchStage::Unpacking => if last_ok {
            FetchStage::Cleaning
        } else {
            FetchStage::Failed
        },
        FetchStage::Cleaning => FetchStage::Ready,
        FetchStage::Ready => FetchStage::Ready,
        FetchStage::Failed => FetchStage::Failed,
    }
}

/// A toolchain whose unpacked root is already there is not fetched again:
/// the fetch is ready at once and runs no step.
pub proof fn lemma_unpacked_toolchain_is_not_fetched_again(ok: bool)
    ensures
        fetch_successor(true, FetchStage::Start, ok) == FetchStage::Ready,
        fetch_successor(true, FetchStage::Ready, ok) == FetchStage::Ready,
{
}

/// The toolchain directory inside an unpacked tarball: its `subdir`, if set, else the root.
pub fn toolchain_home(root: &str, subdir: &Option<String>) -> (res: String)
    ensures
        res@ == match subdir {
            Some(s) => joined(root@, s@),
            None => root@,
        },
{
    match subdir {
        Some(s) => join_path(root, s.as_str()),
        None => String::from_str(root),
    }
}

/// How `{:?}` writes a string: quoted, with escapes.
pub uninterp spec fn debug_text(s: Seq<char>) -> Seq<char>;

/// `format!("{:?}", s)` on a string slice (std's `Debug` for `str`).
/// Trusted to be a function of the characters alone; what it writes is left
/// to std, which quotes and escapes them.
#[verifier::external_body]
fn debug_string(s: &str) -> (res: String)
    ensures
        res@ == debug_text(s@),
{
    format!("{:?}", s)
}

/// How `{:?}` writes an optional string, given how it writes the string
/// inside: `None`, or `Some(<quoted>)`.
pub open spec fn option_debug_frame(quoted: Option<Seq<char>>) -> Seq<char> {
    match quoted {
        Some(q) => "Some("@ + q + ")"@,
        None => "None"@,
    }
}

/// How `{:?}` writes an optional string: `None`, or `Some(<quoted string>)`.
pub open spec fn debug_option_text(o: Option<String>) -> Seq<char> {
    option_debug_frame(
        match o {
            Some(s) => Some(debug_text(s@)),
            None => None,
        },
    )
}

/// Writes an optional string as `{:?}` does, given the quoted form of the
/// string inside (if any).
pub fn frame_option_debug(quoted: Option<&str>) -> (res: String)
    ensures
        res@ == option_debug_frame(
            match quoted {
                Some(q) => Some(q@),
                None => None,
            },
        ),
{
    match quoted {
        Some(q) => {
            let mut s = String::from_str("Some(");
            s.append(q);
            s.append(")");
            s
        },
        None => String::from_str("None"),
    }
}

/// A one-line account of where a device's toolchain comes from, given how
/// its `subdir` is written.
pub open spec fn toolchain_description_with(dev: Device, subdir_text: Seq<char>) -> Seq<char> {
    match dev.toolchain.local_path {
        Some(p) => "local_path "@ + p@,
        None => match dev.toolchain.url {
            Some(u) => "fetch "@ + u@ + " (subdir "@ + subdir_text + ")"@,
            None => "<unconfigured>"@,
        },
    }
}

/// A one-line account of where a device's toolchain comes from.
pub open spec fn toolchain_description(dev: Device) -> Seq<char> {
    toolchain_description_with(dev, debug_option_text(dev.toolchain.subdir))
}

/// Describes where `dev`'s toolchain comes from, with `subdir_text` standing
/// for the way its `subdir` is written.
pub fn frame_toolchain_description(dev: &Device, subdir_text: &str) -> (res: String)
    ensures
        res@ == toolchain_description_with(*dev, subdir_text@),
{
    if let Some(p) = &dev.toolchain.local_path {
        String::from_str("local_path ").concat(p.as_str())
    } else if let Some(u) = &dev.toolchain.url {
        let mut s = String::from_str("fetch ");
        s.append(u.as_str());
        s.append(" (subdir ");
        s.append(subdir_text);
        s.append(")");
        s
    } else {
        String::from_str("<unconfigured>")
    }
}

/// Describes where `dev`'s toolchain comes from, for the dry-run plan.
pub fn describe_toolchain(dev: &Device) -> (res: String)
    ensures
        res@ == toolchain_description(*dev),
{
    let quoted = match &dev.toolchain.subdir {
        Some(d) => Some(debug_string(d.as_str())),
        None => None,
    };
    let subdir_text = match &quoted {
        Some(q) => frame_option_debug(Some(q.as_str())),
        None => frame_option_debug(None),
    };
    frame_toolchain_description(dev, subdir_text.as_str())
}

/// A checkout to bring to the tip of `branch` of `repo`, at `dest`.
pub struct SyncJob {
    pub repo: String,
    pub branch: String,
    pub dest: String,
    /// Whether `dest` already holds a git checkout (`<dest>/.git` exists).
    pub has_checkout: bool,
}

/// Where a sync stands; each state but `Start` and the last two names the
/// git command just run.
#[derive(PartialEq, Eq, Structural, Debug, Clone, Copy)]
pub enum SyncStep {
    Start,
    /// `git fetch --depth 1 origin <branch>` in the checkout.
    Fetching,
    /// `git checkout -f <branch>`.
    CheckingOut,
    /// `git checkout -f -B <branch> origin/<branch>`, after the plain checkout failed.
    CreatingBranch,
    /// `git reset --hard origin/<branch>`.
    Resetting,
    /// `git clone --depth 1 --branch <branch> --single-branch <repo> <dest>`.
    Cloning,
    /// The checkout is at the tip of the branch.
    Synced,
    /// A git command failed.
    Failed,
}

/// `origin/<branch>`.
pub open spec fn remote_branch(branch: Seq<char>) -> Seq<char> {
    "origin/"@ + branch
}

/// The git arguments run on entering `step`.
pub open spec fn sync_command(job: SyncJob, step: SyncStep) -> Seq<Seq<char>> {
    match step {
        SyncStep::Fetching => seq![
            "-C"@,
            job.dest@,
            "fetch"@,
            "--depth"@,
            "1"@,
            "origin"@,
            job.branch@,
        ],
        SyncStep::CheckingOut => seq!["-C"@, job.dest@, "checkout"@, "-f"@, job.branch@],
        SyncStep::CreatingBranch => seq![
            "-C"@,
            job.dest@,
            "checkout"@,
            "-f"@,
            "-B"@,
            job.branch@,
            remote_branch(job.branch@),
        ],
        SyncStep::Resetting => seq![
            "-C"@,
            job.dest@,
            "reset"@,
            "--hard"@,
            remote_branch(job.branch@),
        ],
        SyncStep::Cloning => seq![
            "clone"@,
            "--depth"@,
            "1"@,
            "--branch"@,
            job.branch@,
            "--single-branch"@,
            job.repo@,
            job.dest@,
        ],
        _ => Seq::empty(),
    }
}

/// The step that follows `step` when the command of `step` ended with `ok`.
/// An existing checkout is fetched, checked out (or the branch re-created
/// from the remote when that fails), and reset hard; a missing one is cloned.
pub open spec fn sync_successor(has_checkout: bool, step: SyncStep, ok: bool) -> SyncStep {
    match step {
        SyncStep::Start => if has_checkout {
            SyncStep::Fetching
        } else {
            SyncStep::Cloning
        },
        SyncStep::Fetching => if ok {
            SyncStep::CheckingOut
        } else {
            SyncStep::Failed
        },
        SyncStep::CheckingOut => if ok {
            SyncStep::Resetting
        } else {
            SyncStep::CreatingBranch
        },
        SyncStep::CreatingBranch => if ok {
            SyncStep::Resetting
        } else {
            SyncStep::Failed
        },
        SyncStep::Resetting => if ok {
            SyncStep::Synced
        } else {
            SyncStep::Failed
        },
        SyncStep::Cloning => if ok {
            SyncStep::Synced
        } else {
            SyncStep::Failed
        },
        SyncStep::Synced => SyncStep::Synced,
        SyncStep::Failed => SyncStep::Failed,
    }
}

/// Whether a sync has ended.
pub open spec fn sync_finished(step: SyncStep) -> bool {
    step == SyncStep::Synced || step == SyncStep::Failed
}

/// At most how many more git commands a sync at `step` runs.
pub open spec fn sync_commands_left(step: SyncStep) -> nat {
    match step {
        SyncStep::Start => 4,
        SyncStep::Fetching => 3,
        SyncStep::CheckingOut => 2,
        SyncStep::CreatingBranch => 1,
        SyncStep::Resetting => 0,
        SyncStep::Cloning => 0,
        SyncStep::Synced => 0,
        SyncStep::Failed => 0,
    }
}

fn strings(parts: &Vec<&str>) -> (v: Vec<String>)
    ensures
        views(v@) == parts@.map_values(|p: &str| p@),
{
    let mut v: Vec<String> = Vec::new();
    let n = parts.len();
    let mut i: usize = 0;
    while i < n
        invariant
            n == parts@.len(),
            i <= n,
            views(v@) == parts@.subrange(0, i as int).map_values(|p: &str| p@),
        decreases n - i,
    {
        v.push(String::from_str(parts[i]));
        assert(parts@.subrange(0, i + 1).map_values(|p: &str| p@) =~= parts@.subrange(
            0,
            i as int,
        ).map_values(|p: &str| p@).push(parts@[i as int]@));
        assert(views(v@) =~= views(v@.drop_last()).push(v@.last()@));
        i = i + 1;
    }
    assert(parts@.subrange(0, n as int) =~= parts@);
    v
}

fn command_of(job: &SyncJob, step: SyncStep) -> (v: Vec<String>)
    ensures
        views(v@) == sync_command(*job, step),
{
    let dest = job.dest.as_str();
    let branch = job.branch.as_str();
    let remote = String::from_str("origin/").concat(branch);
    let parts = match step {
        SyncStep::Fetching => vec!["-C", dest, "fetch", "--depth", "1", "origin", branch],
        SyncStep::CheckingOut => vec!["-C", dest, "checkout", "-f", branch],
        SyncStep::CreatingBranch => vec![
            "-C",
            dest,
            "checkout",
            "-f",
            "-B",
            branch,
            remote.as_str(),
        ],
        SyncStep::Resetting => vec!["-C", dest, "reset", "--hard", remote.as_str()],
        SyncStep::Cloning => vec![
            "clone",
            "--depth",
            "1",
            "--branch",
            branch,
            "--single-branch",
            job.repo.as_str(),
            dest,
        ],
        _ => Vec::new(),
    };
    let v = strings(&parts);
    assert(views(v@) =~= sync_command(*job, step));
    v
}

/// One step of bringing a checkout up to date: given where the sync stands
/// and whether the git command just run succeeded (ignored at `Start`), the
/// next step and, unless the sync has ended, the git arguments to run next.
/// Each step brings the end closer.
pub fn sync_next(job: &SyncJob, step: SyncStep, last_ok: bool) -> (res: (SyncStep, Option<Vec<String>>))
    ensures
        res.0 == sync_successor(job.has_checkout, step, last_ok),
        sync_finished(res.0) ==> res.1 is None,
        !sync_finished(res.0) ==> (res.1 matches Some(c) && views(c@) == sync_command(*job, res.0)),
        !sync_finished(step) ==> sync_finished(res.0) || sync_commands_left(res.0)
            < sync_commands_left(step),
        step == SyncStep::Start && job.has_checkout ==> res.0 == SyncStep::Fetching,
        step == SyncStep::Start && !job.has_checkout ==> res.0 == SyncStep::Cloning,
        job.has_checkout ==> res.0 != SyncStep::Cloning,
{
    let next = match step {
        SyncStep::Start => if job.has_checkout {
            SyncStep::Fetching
        } else {
            SyncStep::Cloning
        },
        SyncStep::Fetching => if last_ok {
            SyncStep::CheckingOut
        } else {
            SyncStep::Failed
        },
        SyncStep::CheckingOut => if last_ok {
            SyncStep::Resetting
        } else {
            SyncStep::CreatingBranch
        },
        SyncStep::CreatingBranch => if last_ok {
            SyncStep::Resetting
        } else {
            SyncStep::Failed
        },
        SyncStep::Resetting => if last_ok {
            SyncStep::Synced
        } else {
            SyncStep::Failed
        },
        SyncStep::Cloning => if last_ok {
            SyncStep::Synced
        } else {
            SyncStep::Failed
        },
        SyncStep::Synced => SyncStep::Synced,
        SyncStep::Failed => SyncStep::Failed,
    };
    match next {
        SyncStep::Synced => (next, None),
        SyncStep::Failed => (next, None),
        _ => (next, Some(command_of(job, next))),
    }
}

/// The tag that a planned release is announced under is the tag it is
/// published under, and it ends in the build number that the build script
/// is handed as `BUILD_NUM`.
pub proof fn lemma_planned_tag_is_published_tag(
    plan: BuildPlan,
    dev: Device,
    mode: Seq<char>,
    workdir: Seq<char>,
    art: Artifact,
    job: ReleaseJob,
    toolchain_dir: Seq<char>,
    anykernel_dir: Option<Seq<char>>,
)
    requires
        is_plan_for(plan, dev, mode, workdir, art.build_num, true),
        is_release_of(job, dev, mode, art),
    ensures
        plan.release_tag matches Some(t) && t@ == job.tag@,
        job.tag@ == dev.id@ + "-"@ + mode + "-"@ + build_env_spec(
            mode,
            plan.build_num,
            toolchain_dir,
            anykernel_dir,
        )[2].1,
{
}

/// Where a build stands; each state but `Start`, `Done` and `Failed` names
/// the step to run next.
#[derive(PartialEq, Eq, Structural, Debug, Clone, Copy)]
pub enum BuildStage {
    Start,
    /// Dry run: print the plan.
    PrintingPlan,
    /// Create the working directory.
    MakingWorkdir,
    /// Bring the kernel checkout up to date (`sync_next`).
    SyncingSource,
    /// Find or fetch the toolchain (`toolchain_source`, `fetch_next`).
    PreparingToolchain,
    /// Check that the resolved toolchain directory exists.
    CheckingToolchain,
    /// Bring the AnyKernel3 checkout up to date.
    SyncingAnyKernel,
    /// Run the build script with `script_args` and `build_env`.
    Building,
    /// Find the new zip (`pick_new_zip`, else the newest) and checksum it.
    Collecting,
    /// Publish the zip (`release_job`, `release_next`).
    Releasing,
    /// The build is finished.
    Done,
    /// A step failed; the build stops there.
    Failed,
}

/// The stage after `stage`, whose step ended with `ok`, for a build with an
/// AnyKernel3 checkout when `anykernel` and a release when `release`.
/// Steps run in a fixed order, the optional ones only when asked for, and
/// the first failing step ends the build.
pub open spec fn build_successor(
    anykernel: bool,
    release: bool,
    dry_run: bool,
    stage: BuildStage,
    ok: bool,
) -> BuildStage {
    match stage {
        BuildStage::Start => if dry_run {
            BuildStage::PrintingPlan
        } else {
            BuildStage::MakingWorkdir
        },
        BuildStage::PrintingPlan => BuildStage::Done,
        BuildStage::Done => BuildStage::Done,
        BuildStage::Failed => BuildStage::Failed,
        _ => if !ok {
            BuildStage::Failed
        } else {
            match stage {
                BuildStage::MakingWorkdir => BuildStage::SyncingSource,
                BuildStage::SyncingSource => BuildStage::PreparingToolchain,
                BuildStage::PreparingToolchain => BuildStage::CheckingToolchain,
                BuildStage::CheckingToolchain => if anykernel {
                    BuildStage::SyncingAnyKernel
                } else {
                    BuildStage::Building
                },
                BuildStage::SyncingAnyKernel => BuildStage::Building,
                BuildStage::Building => BuildStage::Collecting,
                BuildStage::Collecting => if release {
                    BuildStage::Releasing
                } else {
                    BuildStage::Done
                },
                _ => BuildStage::Done,
            }
        },
    }
}

/// At most how many more steps a build at `stage` runs.
pub open spec fn build_steps_left(stage: BuildStage) -> nat {
    match stage {
        BuildStage::Start => 9,
        BuildStage::MakingWorkdir => 8,
        BuildStage::SyncingSource => 7,
        BuildStage::PreparingToolchain => 6,
        BuildStage::CheckingToolchain => 5,
        BuildStage::SyncingAnyKernel => 4,
        BuildStage::Building => 3,
        BuildStage::Collecting => 2,
        BuildStage::Releasing => 1,
        BuildStage::PrintingPlan => 1,
        BuildStage::Done => 0,
        BuildStage::Failed => 0,
    }
}

/// Whether a build has ended.
pub open spec fn build_finished(stage: BuildStage) -> bool {
    stage == BuildStage::Done || stage == BuildStage::Failed
}

/// One step of running a planned build: given where it stands and whether
/// the step just run succeeded (ignored at `Start` and `PrintingPlan`), the
/// next stage. The plan decides whether an AnyKernel3 checkout is synced
/// and whether the zip is released.
pub fn build_next(plan: &BuildPlan, dry_run: bool, stage: BuildStage, last_ok: bool) -> (res:
    BuildStage)
    ensures
        res == build_successor(
            plan.anykernel_dir is Some,
            plan.release_tag is Some,
            dry_run,
            stage,
            last_ok,
        ),
        !build_finished(stage) ==> build_steps_left(res) < build_steps_left(stage),
        stage != BuildStage::Start && stage != BuildStage::PrintingPlan && stage
            != BuildStage::Done && !last_ok ==> res == BuildStage::Failed,
{
    match stage {
        BuildStage::Start => if dry_run {
            BuildStage::PrintingPlan
        } else {
            BuildStage::MakingWorkdir
        },
        BuildStage::PrintingPlan => BuildStage::Done,
        BuildStage::Done => BuildStage::Done,
        BuildStage::Failed => BuildStage::Failed,
        _ => if !last_ok {
            BuildStage::Failed
        } else {
            match stage {
                BuildStage::MakingWorkdir => BuildStage::SyncingSource,
                BuildStage::SyncingSource => BuildStage::PreparingToolchain,
                BuildStage::PreparingToolchain => BuildStage::CheckingToolchain,
                BuildStage::CheckingToolchain => if plan.anykernel_dir.is_some() {
                    BuildStage::SyncingAnyKernel
                } else {
                    BuildStage::Building
                },
                BuildStage::SyncingAnyKernel => BuildStage::Building,
                BuildStage::Building => BuildStage::Collecting,
                BuildStage::Collecting => if plan.release_tag.is_some() {
                    BuildStage::Releasing
                } else {
                    BuildStage::Done
                },
                _ => BuildStage::Done,
            }
        },
    }
}

/// The stages a build passes through, from `stage`, when every step succeeds.
pub open spec fn build_run(
    anykernel: bool,
    release: bool,
    dry_run: bool,
    stage: BuildStage,
    fuel: nat,
) -> Seq<BuildStage>
    decreases fuel,
{
    if fuel == 0 || build_finished(stage) {
        seq![stage]
    } else {
        seq![stage] + build_run(
            anykernel,
            release,
            dry_run,
            build_successor(anykernel, release, dry_run, stage, true),
            (fuel - 1) as nat,
        )
    }
}

/// A build in which every step succeeds makes the working directory, syncs
/// the sources, prepares and checks the toolchain, syncs AnyKernel3 exactly
/// when the plan has a checkout for it, builds, collects the zip, releases it
/// exactly when a release was asked for, and is done; a dry run only prints
/// the plan.
pub proof fn lemma_build_steps_in_order(anykernel: bool, release: bool)
    ensures
        build_run(anykernel, release, false, BuildStage::Start, 10) == seq![
            BuildStage::Start,
            BuildStage::MakingWorkdir,
            BuildStage::SyncingSource,
            BuildStage::PreparingToolchain,
            BuildStage::CheckingToolchain,
        ] + (if anykernel {
            seq![BuildStage::SyncingAnyKernel]
        } else {
            Seq::empty()
        }) + seq![BuildStage::Building, BuildStage::Collecting] + (if release {
            seq![BuildStage::Releasing]
        } else {
            Seq::empty()
        }) + seq![BuildStage::Done],
        build_run(anykernel, release, true, BuildStage::Start, 10) == seq![
            BuildStage::Start,
            BuildStage::PrintingPlan,
            BuildStage::Done,
        ],
{
    reveal_with_fuel(build_run, 11);
    assert(build_run(anykernel, release, true, BuildStage::Start, 10) =~= seq![
        BuildStage::Start,
        BuildStage::PrintingPlan,
        BuildStage::Done,
    ]);
    assert(build_run(anykernel, release, false, BuildStage::Start, 10) =~= seq![
        BuildStage::Start,
        BuildStage::MakingWorkdir,
        BuildStage::SyncingSource,
        BuildStage::PreparingToolchain,
        BuildStage::CheckingToolchain,
    ] + (if anykernel {
        seq![BuildStage::SyncingAnyKernel]
    } else {
        Seq::empty()
    }) + seq![BuildStage::Building, BuildStage::Collecting] + (if release {
        seq![BuildStage::Releasing]
    } else {
        Seq::empty()
    }) + seq![BuildStage::Done]);
}

/// The zip is released only right after it was collected, only when a
/// release was asked for, and after a failed step nothing more runs.
pub proof fn lemma_release_only_after_collecting(
    anykernel: bool,
    release: bool,
    dry_run: bool,
    stage: BuildStage,
    ok: bool,
)
    ensures
        build_successor(anykernel, release, dry_run, stage, ok) == BuildStage::Releasing ==> (
        stage == BuildStage::Collecting && ok && release),
        stage != BuildStage::Start && stage != BuildStage::PrintingPlan && !ok ==> build_finished(
            build_successor(anykernel, release, dry_run, stage, ok),
        ),
{
}

/// A failed step ends the build in failure, never as done, whatever the
/// plan holds: only starting and printing the plan ignore their outcome.
pub proof fn lemma_failed_step_fails_build(
    anykernel: bool,
    release: bool,
    dry_run: bool,
    stage: BuildStage,
)
    requires
        stage != BuildStage::Start,
        stage != BuildStage::PrintingPlan,
        stage != BuildStage::Done,
    ensures
        build_successor(anykernel, release, dry_run, stage, false) == BuildStage::Failed,
{
}

/// A build that has ended stays ended, and how a build starts does not
/// depend on any outcome.
pub proof fn lemma_build_ends_stay(anykernel: bool, release: bool, dry_run: bool, ok: bool)
    ensures
        build_successor(anykernel, release, dry_run, BuildStage::Done, ok) == BuildStage::Done,
        build_successor(anykernel, release, dry_run, BuildStage::Failed, ok)
            == BuildStage::Failed,
        build_successor(anykernel, release, dry_run, BuildStage::Start, ok) == build_successor(
            anykernel,
            release,
            dry_run,
            BuildStage::Start,
            !ok,
        ),
        build_successor(anykernel, release, dry_run, BuildStage::Start, ok) != BuildStage::Done,
{
}

/// An existing checkout is fetched first and never cloned into; a missing
/// one is cloned first; and the outcome handed in at the start does not matter.
pub proof fn lemma_sync_starts_by_checkout(step: SyncStep, ok: bool)
    ensures
        sync_successor(true, SyncStep::Start, ok) == SyncStep::Fetching,
        sync_successor(false, SyncStep::Start, ok) == SyncStep::Cloning,
        sync_successor(true, step, ok) != SyncStep::Cloning,
{
}

/// Every failing git command ends the sync in failure, except a failed plain
/// checkout, after which the branch is re-created from the remote.
pub proof fn lemma_sync_failures(has_checkout: bool, step: SyncStep)
    requires
        step != SyncStep::Start,
        step != SyncStep::Synced,
    ensures
        step == SyncStep::CheckingOut ==> sync_successor(has_checkout, step, false)
            == SyncStep::CreatingBranch,
        step != SyncStep::CheckingOut ==> sync_successor(has_checkout, step, false)
            == SyncStep::Failed,
{
}

/// When every command succeeds, an existing checkout is fetched, checked out,
/// reset and synced; a missing one is cloned and synced.
pub proof fn lemma_sync_in_order(ok: bool)
    ensures
        sync_successor(true, SyncStep::Fetching, true) == SyncStep::CheckingOut,
        sync_successor(true, SyncStep::CheckingOut, true) == SyncStep::Resetting,
        sync_successor(true, SyncStep::CreatingBranch, true) == SyncStep::Resetting,
        sync_successor(true, SyncStep::Resetting, true) == SyncStep::Synced,
        sync_successor(false, SyncStep::Cloning, true) == SyncStep::Synced,
        sync_successor(true, SyncStep::Synced, ok) == SyncStep::Synced,
        sync_successor(false, SyncStep::Failed, ok) == SyncStep::Failed,
{
}

/// Creating the root, downloading and unpacking each end the fetch in
/// failure when they fail; the tarball is removed only after it was unpacked.
pub proof fn lemma_fetch_failures(root_exists: bool, stage: FetchStage, ok: bool)
    ensures
        (stage == FetchStage::MakingRoot || stage == FetchStage::Downloading || stage
            == FetchStage::Unpacking) ==> fetch_successor(root_exists, stage, false)
            == FetchStage::Failed,
        fetch_successor(root_exists, stage, ok) == FetchStage::Cleaning ==> stage
            == FetchStage::Unpacking && ok,
        fetch_successor(root_exists, stage, ok) == FetchStage::Ready ==> stage
            == FetchStage::Cleaning || stage == FetchStage::Ready || (stage == FetchStage::Start
            && root_exists),
{
}

/// When every step succeeds, a missing toolchain is rooted, downloaded,
/// unpacked, cleaned up and then ready.
pub proof fn lemma_fetch_in_order(ok: bool)
    ensures
        fetch_successor(false, FetchStage::Start, ok) == FetchStage::MakingRoot,
        fetch_successor(false, FetchStage::MakingRoot, true) == FetchStage::Downloading,
        fetch_successor(false, FetchStage::Downloading, true) == FetchStage::Unpacking,
        fetch_successor(false, FetchStage::Unpacking, true) == FetchStage::Cleaning,
        fetch_successor(false, FetchStage::Cleaning, ok) == FetchStage::Ready,
{
}

/// A selected device has the requested id, is the first with it, is enabled
/// and builds the mode; every refusal names the first check that fails.
pub proof fn lemma_selection_checks(devs: Seq<Device>, device_id: Seq<char>, mode: Seq<char>)
    ensures
        selection(devs, device_id, mode) is Ok ==> {
            let d = selection(devs, device_id, mode)->Ok_0;
            &&& d.id@ == device_id
            &&& d.enabled
            &&& supports_mode(d.modes@, mode)
            &&& exists|i: int| is_first_with_id(devs, device_id, i) && devs[i] == d
        },
        selection(devs, device_id, mode) == Err::<Device, BuildError>(BuildError::UnknownDevice)
            <==> no_device_with_id(devs, device_id),
        selection(devs, device_id, mode) == Err::<Device, BuildError>(BuildError::DeviceDisabled)
            ==> exists|i: int| is_first_with_id(devs, device_id, i) && !devs[i].enabled,
        selection(devs, device_id, mode) == Err::<Device, BuildError>(BuildError::UnsupportedMode)
            ==> exists|i: int|
            is_first_with_id(devs, device_id, i) && devs[i].enabled && !supports_mode(
                devs[i].modes@,
                mode,
            ),
{
    if !no_device_with_id(devs, device_id) {
        let j = choose|j: int| 0 <= j < devs.len() && devs[j].id@ == device_id;
        lemma_first_with_id_exists(devs, device_id, j);
    }
}

/// Where some device has the id, a first one does.
pub proof fn lemma_first_with_id_exists(devs: Seq<Device>, id: Seq<char>, j: int)
    requires
        0 <= j < devs.len(),
        devs[j].id@ == id,
    ensures
        exists|i: int| is_first_with_id(devs, id, i),
    decreases j,
{
    if !is_first_with_id(devs, id, j) {
        let k = choose|k: int| 0 <= k < j && devs[k].id@ == id;
        lemma_first_with_id_exists(devs, id, k);
    }
}

/// The build script is told the mode, that it should pack, the build number
/// in decimal and the toolchain, in that order, and the AnyKernel3 checkout
/// exactly when there is one.
pub proof fn lemma_build_env_entries(
    mode: Seq<char>,
    build_num: u64,
    toolchain_dir: Seq<char>,
    anykernel_dir: Option<Seq<char>>,
)
    ensures
        ({
            let e = build_env_spec(mode, build_num, toolchain_dir, anykernel_dir);
            &&& e.len() == if anykernel_dir is Some {
                5int
            } else {
                4int
            }
            &&& e[0] == ("MODE"@, mode)
            &&& e[1] == ("PACK"@, "1"@)
            &&& e[2] == ("BUILD_NUM"@, decimal(build_num as nat))
            &&& e[3] == ("TOOLCHAIN_DIR"@, toolchain_dir)
            &&& anykernel_dir matches Some(d) ==> e[4] == ("ANYKERNEL_DIR"@, d)
        }),
{
}

/// Every git command on an existing checkout runs in it (`-C <dest>`); the
/// fetch and checkout name the branch, the branch is re-created from and reset
/// to `origin/<branch>`, and a clone fetches the branch of the repo into the
/// destination.
pub proof fn lemma_sync_commands(job: SyncJob)
    ensures
        forall|s: SyncStep|
            s == SyncStep::Fetching || s == SyncStep::CheckingOut || s == SyncStep::CreatingBranch
                || s == SyncStep::Resetting ==> #[trigger] sync_command(job, s)[0] == "-C"@
                && sync_command(job, s)[1] == job.dest@,
        sync_command(job, SyncStep::Fetching).last() == job.branch@,
        sync_command(job, SyncStep::CheckingOut).last() == job.branch@,
        sync_command(job, SyncStep::CreatingBranch).last() == "origin/"@ + job.branch@,
        sync_command(job, SyncStep::Resetting).last() == "origin/"@ + job.branch@,
        sync_command(job, SyncStep::Resetting)[2] == "reset"@,
        sync_command(job, SyncStep::Cloning)[0] == "clone"@,
        sync_command(job, SyncStep::Cloning)[4] == job.branch@,
        sync_command(job, SyncStep::Cloning)[6] == job.repo@,
        sync_command(job, SyncStep::Cloning).last() == job.dest@,
{
}

/// A local path, when set, is all the description shows; otherwise the URL
/// is shown after `fetch `, with the subdir as `{:?}` writes it, and without
/// either the toolchain is unconfigured.
pub proof fn lemma_toolchain_description_cases(dev: Device)
    ensures
        dev.toolchain.local_path matches Some(p) ==> toolchain_description(dev) == "local_path "@
            + p@,
        dev.toolchain.local_path is None && dev.toolchain.url is None ==> toolchain_description(
            dev,
        ) == "<unconfigured>"@,
        dev.toolchain.local_path is None ==> (dev.toolchain.url matches Some(u)
            ==> toolchain_description(dev) == "fetch "@ + u@ + " (subdir "@ + debug_option_text(
            dev.toolchain.subdir,
        ) + ")"@),
        debug_option_text(None) == "None"@,
{
}

} // verus!
