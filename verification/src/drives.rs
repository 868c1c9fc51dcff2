//! Finding the removable drives an image can be written to, from what each
//! platform's disk tool prints.
use vstd::prelude::*;

use crate::text::{chars_of, concat, lossy_utf8, opt_view, same, string_of, utf8_lossy};

pub mod linux;
pub mod macos;
pub mod windows;

use crate::drives::linux::{lsblk_drives_spec, lsblk_json, lsblk_outcome, LsblkDeviceModel};
use crate::drives::macos::diskutil_outcome;
use crate::drives::windows::{json_disks, powershell_outcome, win_drives_spec, windows_json, WinDiskModel};
use crate::text::trim_seq;

verus! {

/// A drive the imager can write to.
#[derive(Clone, Debug)]
pub struct Drive {
    /// The device path to open.
    pub path: String,
    /// The name to show.
    pub name: String,
    /// The size in bytes (0 when unknown).
    pub size: u64,
    pub removable: bool,
}

/// The mathematical content of a [`Drive`].
pub struct DriveModel {
    pub path: Seq<char>,
    pub name: Seq<char>,
    pub size: u64,
    pub removable: bool,
}

impl View for Drive {
    type V = DriveModel;

    open spec fn view(&self) -> DriveModel {
        DriveModel { path: self.path@, name: self.name@, size: self.size, removable: self.removable }
    }
}

pub open spec fn drive_views(v: Seq<Drive>) -> Seq<DriveModel> {
    v.map_values(|d: Drive| d@)
}

/// How running a disk tool went.
pub enum ToolRun {
    /// The tool could not be started; `error` says why.
    Failed { error: String },
    /// The tool ran; `success` tells its exit status.
    Ran { success: bool, stdout: Vec<u8>, stderr: Vec<u8> },
}

/// The text of an optional value, empty when there is none.
pub open spec fn opt_text(o: Option<Seq<char>>) -> Seq<char> {
    match o {
        Some(s) => s,
        None => Seq::empty(),
    }
}

pub open spec fn opt_flag(o: Option<bool>) -> bool {
    match o {
        Some(b) => b,
        None => false,
    }
}

pub open spec fn opt_count(o: Option<u64>) -> u64 {
    match o {
        Some(n) => n,
        None => 0,
    }
}

pub(crate) fn text_of(o: &Option<String>) -> (r: Vec<char>)
    ensures
        r@ == opt_text(opt_view(*o)),
{
    match o {
        Some(s) => chars_of(s.as_str()),
        None => Vec::new(),
    }
}

/// What a disk tool printed on success, or the message for its failure.
pub open spec fn tool_output_spec(tool: Seq<char>, run: ToolRun) -> Result<Seq<u8>, Seq<char>> {
    match run {
        ToolRun::Failed { error } => Err("failed to run "@ + tool + ": "@ + error@),
        ToolRun::Ran { success, stdout, stderr } => if success {
            Ok(stdout@)
        } else {
            Err(tool + " failed: "@ + lossy_utf8(stderr@))
        },
    }
}

pub fn tool_output(tool: &str, run: &ToolRun) -> (res: Result<Vec<u8>, String>)
    ensures
        match res {
            Ok(out) => tool_output_spec(tool@, *run) == Ok::<Seq<u8>, Seq<char>>(out@),
            Err(m) => tool_output_spec(tool@, *run) == Err::<Seq<u8>, Seq<char>>(m@),
        },
{
    match run {
        ToolRun::Failed { error } => Err(
            string_of(
                &concat(
                    &concat(&concat(&chars_of("failed to run "), &chars_of(tool)), &chars_of(": ")),
                    &chars_of(error.as_str()),
                ),
            ),
        ),
        ToolRun::Ran { success, stdout, stderr } => {
            if *success {
                Ok(stdout.clone())
            } else {
                let err = utf8_lossy(stderr.as_slice());
                Err(
                    string_of(
                        &concat(
                            &concat(&chars_of(tool), &chars_of(" failed: ")),
                            &chars_of(err.as_str()),
                        ),
                    ),
                )
            }
        },
    }
}

pub(crate) fn dev_path(name: &[char]) -> (r: Vec<char>)
    ensures
        r@ == "/dev/"@ + name@,
{
    concat(&chars_of("/dev/"), name)
}

pub(crate) fn make_drive(path: &[char], name: &[char], size: u64, removable: bool) -> (d: Drive)
    ensures
        d@ == (DriveModel { path: path@, name: name@, size, removable }),
{
    Drive { path: string_of(path), name: string_of(name), size, removable }
}

pub(crate) fn text_is(a: &[char], lit: &str) -> (r: bool)
    ensures
        r == (a@ == lit@),
{
    same(a, &chars_of(lit))
}

/// What was learnt from the platform's disk tools.
pub enum DriveProbe {
    /// Linux: the run of `lsblk`.
    Lsblk(ToolRun),
    /// macOS: the run of `diskutil list`, and the runs of `diskutil info`
    /// on the disks it named, in the order it named them.
    Diskutil { listing: ToolRun, infos: Vec<ToolRun> },
    /// Windows: the run of the PowerShell disk query.
    PowerShell(ToolRun),
    /// A platform the imager has no disk tool for.
    Unsupported,
}

/// The drives the image can be written to, or why they cannot be listed.
pub fn list_drives(probe: &DriveProbe) -> (res: Result<Vec<Drive>, String>)
    ensures
        match probe {
            DriveProbe::Lsblk(run) => lsblk_outcome(*run, res),
            DriveProbe::Diskutil { listing, infos } => diskutil_outcome(*listing, infos@, res),
            DriveProbe::PowerShell(run) => powershell_outcome(*run, res),
            DriveProbe::Unsupported => res matches Err(e) && e@ == "Unsupported platform"@,
        },
{
    match probe {
        DriveProbe::Lsblk(run) => linux::list(run),
        DriveProbe::Diskutil { listing, infos } => macos::list(listing, infos),
        DriveProbe::PowerShell(run) => windows::list(run),
        DriveProbe::Unsupported => Err(String::from_str("Unsupported platform")),
    }
}

/// Every drive listed on Linux or Windows is removable.
pub proof fn lemma_listed_drives_removable(probe: DriveProbe, res: Result<Vec<Drive>, String>)
    requires
        match probe {
            DriveProbe::Lsblk(run) => lsblk_outcome(run, res),
            DriveProbe::PowerShell(run) => powershell_outcome(run, res),
            _ => false,
        },
    ensures
        res matches Ok(v) ==> forall|i: int| 0 <= i < v@.len() ==> #[trigger] v@[i].removable,
{
    if let Ok(v) = res {
        let dv = drive_views(v@);
        assert forall|i: int| 0 <= i < v@.len() implies #[trigger] v@[i].removable by {
            assert(dv[i] == v@[i]@);
            assert(dv.len() == v@.len());
            match probe {
                DriveProbe::Lsblk(run) => {
                    let out = tool_output_spec("lsblk"@, run)->Ok_0;
                    match lsblk_json(out) {
                        Ok(Some(devs)) => {
                            lemma_lsblk_removable(devs);
                            assert(lsblk_drives_spec(devs)[i].removable);
                        },
                        _ => {},
                    }
                },
                DriveProbe::PowerShell(run) => {
                    let out = tool_output_spec("powershell"@, run)->Ok_0;
                    let t = trim_seq(lossy_utf8(out));
                    if t.len() != 0 {
                        match windows_json(t) {
                            Ok(parsed) => {
                                let disks = json_disks(parsed);
                                lemma_win_removable(disks);
                                assert(win_drives_spec(disks)[i].removable);
                            },
                            _ => {},
                        }
                    }
                },
                _ => {},
            }
        }
    }
}

proof fn lemma_lsblk_removable(devs: Seq<LsblkDeviceModel>)
    ensures
        forall|i: int| 0 <= i < lsblk_drives_spec(devs).len() ==> #[trigger] lsblk_drives_spec(devs)[i].removable,
    decreases devs.len(),
{
    if devs.len() > 0 {
        let rest = lsblk_drives_spec(devs.drop_last());
        lemma_lsblk_removable(devs.drop_last());
        let r = lsblk_drives_spec(devs);
        assert forall|i: int| 0 <= i < r.len() implies #[trigger] r[i].removable by {
            if i < rest.len() {
                assert(r[i] == rest[i]);
            }
        }
    }
}

proof fn lemma_win_removable(disks: Seq<WinDiskModel>)
    ensures
        forall|i: int| 0 <= i < win_drives_spec(disks).len() ==> #[trigger] win_drives_spec(disks)[i].removable,
    decreases disks.len(),
{
    if disks.len() > 0 {
        let rest = win_drives_spec(disks.drop_last());
        lemma_win_removable(disks.drop_last());
        let r = win_drives_spec(disks);
        assert forall|i: int| 0 <= i < r.len() implies #[trigger] r[i].removable by {
            if i < rest.len() {
                assert(r[i] == rest[i]);
            }
        }
    }
}

} // verus!
