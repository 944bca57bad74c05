//! The device table: devices, their build modes, toolchains and defaults.
use vstd::prelude::*;
use vstd::string::*;

use crate::text::str_equal;

verus! {

/// The whole configuration file.
#[derive(Debug)]
pub struct Config {
    pub defaults: Defaults,
    /// The `[[device]]` entries, in file order.
    pub devices: Vec<Device>,
}

/// Settings that apply to every device.
#[derive(Debug)]
pub struct Defaults {
    pub kmi_generation: u32,
}

/// The value a missing `[defaults]` table stands for: every field zeroed.
impl Default for Defaults {
    fn default() -> (d: Self)
        ensures
            d.kmi_generation == 0,
    {
        Defaults { kmi_generation: 0 }
    }
}

/// The KMI generation assumed when `[defaults]` leaves it out.
pub fn default_kmi() -> (g: u32)
    ensures
        g == 8,
{
    8
}

/// The value of `enabled` when a device leaves it out.
pub fn yes() -> (b: bool)
    ensures
        b,
{
    true
}

/// The characters of the default branch name, `main`.
pub open spec fn main_branch_name() -> Seq<char> {
    seq!['m', 'a', 'i', 'n']
}

/// The branch used when a device (or its AnyKernel3 repo) names none.
pub fn main_branch() -> (s: String)
    ensures
        s@ == main_branch_name(),
{
    let s = String::from_str("main");
    proof {
        reveal_strlit("main");
    }
    s
}

/// One kernel target.
#[derive(Debug)]
pub struct Device {
    pub id: String,
    pub name: String,
    pub enabled: bool,
    pub repo: String,
    pub branch: String,
    /// Path (relative to the kernel repo root) of the build entrypoint,
    /// invoked as: bash <build_script> <mode>
    pub build_script: String,
    pub modes: Vec<String>,
    pub anykernel_repo: Option<String>,
    pub anykernel_branch: String,
    pub toolchain: Toolchain,
}

/// Where a device's compiler prebuilts come from.
#[derive(Debug)]
pub struct Toolchain {
    /// Absolute path to a prebuilts dir already on disk (local runs).
    pub local_path: Option<String>,
    /// Tarball URL fetched + extracted for cloud runs.
    pub url: Option<String>,
    /// Subdir within the extracted tarball that is the prebuilts root.
    pub subdir: Option<String>,
}

/// `i` is the first position in `devs` whose device has the id `id`.
pub open spec fn is_first_with_id(devs: Seq<Device>, id: Seq<char>, i: int) -> bool {
    &&& 0 <= i < devs.len()
    &&& devs[i].id@ == id
    &&& forall|j: int| 0 <= j < i ==> devs[j].id@ != id
}

/// No device in `devs` has the id `id`.
pub open spec fn no_device_with_id(devs: Seq<Device>, id: Seq<char>) -> bool {
    forall|j: int| 0 <= j < devs.len() ==> devs[j].id@ != id
}

/// Whether a device builds `mode`: a device that lists no modes builds every mode.
pub open spec fn supports_mode(modes: Seq<String>, mode: Seq<char>) -> bool {
    modes.len() == 0 || exists|i: int| 0 <= i < modes.len() && modes[i]@ == mode
}

impl Config {
    /// The first device whose id is `id`, if any.
    pub fn device(&self, id: &str) -> (res: Option<&Device>)
        ensures
            match res {
                Some(d) => exists|i: int|
                    is_first_with_id(self.devices@, id@, i) && *d == self.devices@[i],
                None => no_device_with_id(self.devices@, id@),
            },
    {
        let n = self.devices.len();
        let mut i: usize = 0;
        while i < n
            invariant
                n == self.devices@.len(),
                i <= n,
                forall|j: int| 0 <= j < i ==> self.devices@[j].id@ != id@,
            decreases n - i,
        {
            let d = &self.devices[i];
            if str_equal(d.id.as_str(), id) {
                assert(is_first_with_id(self.devices@, id@, i as int));
                return Some(d);
            }
            i = i + 1;
        }
        None
    }
}

impl Device {
    /// Whether this device builds `mode`.
    pub fn supports(&self, mode: &str) -> (res: bool)
        ensures
            res == supports_mode(self.modes@, mode@),
    {
        let n = self.modes.len();
        if n == 0 {
            return true;
        }
        let mut i: usize = 0;
        while i < n
            invariant
                n == self.modes@.len(),
                i <= n,
                forall|j: int| 0 <= j < i ==> self.modes@[j]@ != mode@,
            decreases n - i,
        {
            if str_equal(self.modes[i].as_str(), mode) {
                return true;
            }
            i = i + 1;
        }
        false
    }
}

/// A device that lists no modes builds any mode; one that lists modes
/// builds exactly those.
pub proof fn lemma_supported_modes(modes: Seq<String>, mode: Seq<char>)
    ensures
        modes.len() == 0 ==> supports_mode(modes, mode),
        forall|i: int| 0 <= i < modes.len() ==> supports_mode(modes, #[trigger] modes[i]@),
        modes.len() > 0 && (forall|i: int| 0 <= i < modes.len() ==> modes[i]@ != mode)
            ==> !supports_mode(modes, mode),
{
}

} // verus!
