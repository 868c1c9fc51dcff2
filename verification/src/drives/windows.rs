//! Windows: the disks that a PowerShell query of `Win32_DiskDrive` lists.
use vstd::prelude::*;

use crate::drives::{
    drive_views, make_drive, opt_count, opt_flag, opt_text, text_of, tool_output, tool_output_spec,
    Drive, DriveModel, ToolRun,
};
use crate::text::{
    chars_of, concat, eq_ignore_ascii_case, eq_ignore_ascii_case_spec, lossy_utf8, opt_view,
    string_of, trim, trim_seq, utf8_lossy,
};

verus! {

/// A disk as the imager's PowerShell query describes it: each field holds
/// the JSON member of that name where it has the expected JSON type.
pub struct WinDisk {
    pub path: Option<String>,
    pub name: Option<String>,
    pub size: Option<u64>,
    pub removable: Option<bool>,
    pub interface: Option<String>,
}

/// The content of a [`WinDisk`].
pub struct WinDiskModel {
    pub path: Option<Seq<char>>,
    pub name: Option<Seq<char>>,
    pub size: Option<u64>,
    pub removable: Option<bool>,
    pub interface: Option<Seq<char>>,
}

impl View for WinDisk {
    type V = WinDiskModel;

    open spec fn view(&self) -> WinDiskModel {
        WinDiskModel {
            path: opt_view(self.path),
            name: opt_view(self.name),
            size: self.size,
            removable: self.removable,
            interface: opt_view(self.interface),
        }
    }
}

pub open spec fn disk_views(v: Seq<WinDisk>) -> Seq<WinDiskModel> {
    v.map_values(|d: WinDisk| d@)
}

/// The drive a disk listed by PowerShell stands for: disks without a device
/// path are skipped; a disk is removable when the query says so or when its
/// interface is USB (in any letter case).
pub open spec fn win_drive_spec(d: WinDiskModel) -> Option<DriveModel> {
    let path = opt_text(d.path);
    if path.len() == 0 {
        None
    } else {
        let model = trim_seq(opt_text(d.name));
        Some(
            DriveModel {
                path: path,
                name: if model.len() == 0 {
                    path
                } else {
                    model
                },
                size: opt_count(d.size),
                removable: opt_flag(d.removable) || eq_ignore_ascii_case_spec(
                    opt_text(d.interface),
                    "usb"@,
                ),
            },
        )
    }
}

/// The removable drives among the disks, in their order.
pub open spec fn win_drives_spec(disks: Seq<WinDiskModel>) -> Seq<DriveModel>
    decreases disks.len(),
{
    if disks.len() == 0 {
        Seq::empty()
    } else {
        let rest = win_drives_spec(disks.drop_last());
        match win_drive_spec(disks.last()) {
            Some(m) => if m.removable {
                rest.push(m)
            } else {
                rest
            },
            None => rest,
        }
    }
}

fn win_drive(d: &WinDisk) -> (res: Option<Drive>)
    ensures
        match res {
            Some(x) => win_drive_spec(d@) == Some(x@),
            None => win_drive_spec(d@) is None,
        },
{
    let path = text_of(&d.path);
    if path.len() == 0 {
        return None;
    }
    let size = match d.size {
        Some(n) => n,
        None => 0,
    };
    let flagged = match d.removable {
        Some(b) => b,
        None => false,
    };
    let removable = flagged || eq_ignore_ascii_case(&text_of(&d.interface), &chars_of("usb"));
    let model = trim(&text_of(&d.name));
    let label = if model.len() == 0 {
        text_of(&d.path)
    } else {
        model
    };
    Some(make_drive(&path, &label, size, removable))
}

/// The removable drives among the disks PowerShell listed.
pub fn drives_from_windows(disks: &Vec<WinDisk>) -> (res: Vec<Drive>)
    ensures
        drive_views(res@) == win_drives_spec(disk_views(disks@)),
{
    let mut res: Vec<Drive> = Vec::new();
    let mut i: usize = 0;
    while i < disks.len()
        invariant
            i <= disks.len(),
            drive_views(res@) == win_drives_spec(disk_views(disks@).take(i as int)),
        decreases disks.len() - i,
    {
        let ghost before = res@;
        proof {
            let dv = disk_views(disks@);
            assert(dv.take(i + 1).drop_last() =~= dv.take(i as int));
            assert(dv.take(i + 1).last() == disks@[i as int]@);
        }
        match win_drive(&disks[i]) {
            Some(d) => {
                if d.removable {
                    res.push(d);
                    assert(drive_views(res@) =~= drive_views(before).push(res@.last()@));
                }
            },
            None => {},
        }
        i = i + 1;
    }
    assert(disk_views(disks@).take(i as int) =~= disk_views(disks@));
    res
}

/// The shape of the PowerShell query's JSON: an array of disks, or one
/// value standing alone (PowerShell prints a lone disk without an array).
pub enum WinJson {
    Many(Vec<WinDisk>),
    One(WinDisk),
}

/// The content of a [`WinJson`].
pub enum WinJsonModel {
    Many(Seq<WinDiskModel>),
    One(WinDiskModel),
}

impl View for WinJson {
    type V = WinJsonModel;

    open spec fn view(&self) -> WinJsonModel {
        match self {
            WinJson::Many(v) => WinJsonModel::Many(disk_views(v@)),
            WinJson::One(d) => WinJsonModel::One(d@),
        }
    }
}

/// The disks the query's JSON describes: a lone value counts as one disk.
pub open spec fn json_disks(parsed: WinJsonModel) -> Seq<WinDiskModel> {
    match parsed {
        WinJsonModel::Many(v) => v,
        WinJsonModel::One(d) => seq![d],
    }
}

/// The disks the query's JSON describes, in their order; a lone value
/// counts as one disk.
pub fn disks_of(parsed: WinJson) -> (res: Vec<WinDisk>)
    ensures
        disk_views(res@) == json_disks(parsed@),
{
    match parsed {
        WinJson::Many(v) => v,
        WinJson::One(d) => {
            let mut v: Vec<WinDisk> = Vec::new();
            v.push(d);
            assert(disk_views(v@) =~= seq![v@[0]@]);
            v
        },
    }
}

/// What `serde_json` makes of the PowerShell query's output: the text of
/// its error when it is not JSON; else its shape, with the members of each
/// value that the imager reads.
pub uninterp spec fn windows_json(text: Seq<char>) -> Result<WinJsonModel, Seq<char>>;

/// `serde_json::from_str::<serde_json::Value>` (its error shown with
/// `Display`), the elements of an array or the one value that is not an
/// array, and for each its members read with `as_str`, `as_bool` or
/// `as_u64` (indexing a `serde_json::Value` gives `Null`, which reads as
/// `None`, where `get` gives `None`); the contract claims only that the
/// result is what [`windows_json`] names for the text.
#[verifier::external_body]
fn decode_windows(text: &str) -> (res: Result<WinJson, String>)
    ensures
        match res {
            Ok(p) => windows_json(text@) == Ok::<WinJsonModel, Seq<char>>(p@),
            Err(m) => windows_json(text@) == Err::<WinJsonModel, Seq<char>>(m@),
        },
{
    let json: serde_json::Value = match serde_json::from_str(text) { Ok(v) => v, Err(e) => return Err(e.to_string()) };
    let text = |d: &serde_json::Value, k: &str| d[k].as_str().map(String::from);
    let disk = |d: &serde_json::Value| WinDisk { path: text(d, "path"), name: text(d, "name"),
        size: d["size"].as_u64(), removable: d["removable"].as_bool(), interface: text(d, "interface") };
    Ok(match json {
        serde_json::Value::Array(a) => WinJson::Many(a.iter().map(disk).collect()),
        other => WinJson::One(disk(&other)),
    })
}

/// What listing drives with PowerShell gives: the tool's failure, no drives
/// for empty output, a complaint about output that is not JSON, or the
/// removable drives.
pub open spec fn powershell_outcome(run: ToolRun, res: Result<Vec<Drive>, String>) -> bool {
    match tool_output_spec("powershell"@, run) {
        Err(m) => res matches Err(e) && e@ == m,
        Ok(out) => if trim_seq(lossy_utf8(out)).len() == 0 {
            res matches Ok(v) && drive_views(v@) == Seq::<DriveModel>::empty()
        } else {
            match windows_json(trim_seq(lossy_utf8(out))) {
                Err(m) => res matches Err(e) && e@ == "bad powershell json: "@ + m,
                Ok(parsed) => res matches Ok(v) && drive_views(v@) == win_drives_spec(json_disks(parsed)),
            }
        },
    }
}

/// The removable drives on Windows, from a run of the PowerShell query of
/// `Win32_DiskDrive` that prints JSON.
pub fn list(run: &ToolRun) -> (res: Result<Vec<Drive>, String>)
    ensures
        powershell_outcome(*run, res),
{
    let out = match tool_output("powershell", run) {
        Ok(o) => o,
        Err(m) => return Err(m),
    };
    let text = utf8_lossy(out.as_slice());
    let trimmed = trim(&chars_of(text.as_str()));
    if trimmed.len() == 0 {
        let none: Vec<Drive> = Vec::new();
        assert(drive_views(none@) =~= Seq::<DriveModel>::empty());
        return Ok(none);
    }
    let trimmed_text = string_of(&trimmed);
    match decode_windows(trimmed_text.as_str()) {
        Ok(parsed) => Ok(drives_from_windows(&disks_of(parsed))),
        Err(m) => Err(string_of(&concat(&chars_of("bad powershell json: "), &chars_of(m.as_str())))),
    }
}

/// Which disks the Windows query offers: a disk is a drive exactly when it
/// has a device path, shown under that path with its size and its model
/// name trimmed (the path when the name is blank); it counts as removable when
/// the query flags it removable, and also when its interface is USB in any
/// letter case, either sign alone being enough, and for no other reason.
pub proof fn lemma_win_disk_offered(d: WinDiskModel)
    ensures
        win_drive_spec(d) is Some <==> opt_text(d.path).len() > 0,
        win_drive_spec(d) matches Some(m) ==> {
            &&& m.path == opt_text(d.path)
            &&& m.size == opt_count(d.size)
            &&& trim_seq(opt_text(d.name)).len() > 0 ==> m.name == trim_seq(opt_text(d.name))
            &&& trim_seq(opt_text(d.name)).len() == 0 ==> m.name == opt_text(d.path)
            &&& opt_flag(d.removable) ==> m.removable
            &&& eq_ignore_ascii_case_spec(opt_text(d.interface), "usb"@) ==> m.removable
            &&& m.removable ==> opt_flag(d.removable) || eq_ignore_ascii_case_spec(
                opt_text(d.interface),
                "usb"@,
            )
        },
{
}

/// Every disk with a device path that the query flags removable, or that
/// hangs on USB, is listed: some listed drive has its path and is
/// removable.
pub proof fn lemma_win_removable_listed(disks: Seq<WinDiskModel>, i: int)
    requires
        0 <= i < disks.len(),
        opt_text(disks[i].path).len() > 0,
        opt_flag(disks[i].removable) || eq_ignore_ascii_case_spec(opt_text(disks[i].interface), "usb"@),
    ensures
        exists|j: int|
            0 <= j < win_drives_spec(disks).len() && #[trigger] win_drives_spec(disks)[j].path == opt_text(
                disks[i].path,
            ) && win_drives_spec(disks)[j].removable,
    decreases disks.len(),
{
    let listed = win_drives_spec(disks);
    let rest = win_drives_spec(disks.drop_last());
    lemma_win_disk_offered(disks[i]);
    if i == disks.len() - 1 {
        assert(listed == rest.push(win_drive_spec(disks[i])->0));
        assert(listed[rest.len() as int].path == opt_text(disks[i].path));
    } else {
        assert(disks.drop_last()[i] == disks[i]);
        lemma_win_removable_listed(disks.drop_last(), i);
        let j = choose|j: int|
            0 <= j < rest.len() && #[trigger] rest[j].path == opt_text(disks[i].path) && rest[j].removable;
        assert(listed[j] == rest[j]);
    }
}

} // verus!
