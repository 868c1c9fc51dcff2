//! Linux: the disks that `lsblk` lists.
use vstd::prelude::*;

use crate::drives::{
    dev_path, drive_views, make_drive, opt_count, opt_flag, opt_text, text_is, text_of, tool_output,
    tool_output_spec, Drive, DriveModel, ToolRun,
};
use crate::text::{chars_of, concat, has_prefix, opt_view, starts_with, string_of, trim, trim_seq};

verus! {

/// A block device as `lsblk -J` describes it: each field holds the JSON
/// member of that name where it has the expected JSON type.
pub struct LsblkDevice {
    pub name: Option<String>,
    pub model: Option<String>,
    pub size: Option<u64>,
    pub rm: Option<bool>,
    pub kind: Option<String>,
    pub tran: Option<String>,
    pub hotplug: Option<bool>,
}

/// The content of an [`LsblkDevice`].
pub struct LsblkDeviceModel {
    pub name: Option<Seq<char>>,
    pub model: Option<Seq<char>>,
    pub size: Option<u64>,
    pub rm: Option<bool>,
    pub kind: Option<Seq<char>>,
    pub tran: Option<Seq<char>>,
    pub hotplug: Option<bool>,
}

impl View for LsblkDevice {
    type V = LsblkDeviceModel;

    open spec fn view(&self) -> LsblkDeviceModel {
        LsblkDeviceModel {
            name: opt_view(self.name),
            model: opt_view(self.model),
            size: self.size,
            rm: self.rm,
            kind: opt_view(self.kind),
            tran: opt_view(self.tran),
            hotplug: self.hotplug,
        }
    }
}

pub open spec fn device_views(v: Seq<LsblkDevice>) -> Seq<LsblkDeviceModel> {
    v.map_values(|d: LsblkDevice| d@)
}

/// The devices of an optional device list.
pub open spec fn device_list_view(o: Option<Vec<LsblkDevice>>) -> Option<Seq<LsblkDeviceModel>> {
    match o {
        Some(v) => Some(device_views(v@)),
        None => None,
    }
}

/// The drive a device listed by `lsblk` stands for: only whole disks count,
/// not loop, device-mapper or RAM disks; a disk is removable when `lsblk`
/// says so, when it can be hot-plugged or when it hangs on USB.
pub open spec fn lsblk_drive_spec(d: LsblkDeviceModel) -> Option<DriveModel> {
    let name = opt_text(d.name);
    if opt_text(d.kind) != "disk"@ {
        None
    } else if has_prefix(name, "loop"@) || has_prefix(name, "dm-"@) || has_prefix(name, "ram"@)
        || has_prefix(name, "zram"@) {
        None
    } else {
        let model = trim_seq(opt_text(d.model));
        Some(
            DriveModel {
                path: "/dev/"@ + name,
                name: if model.len() == 0 {
                    "/dev/"@ + name
                } else {
                    model
                },
                size: opt_count(d.size),
                removable: opt_flag(d.rm) || opt_flag(d.hotplug) || opt_text(d.tran) == "usb"@,
            },
        )
    }
}

/// The removable drives among the devices, in their order.
pub open spec fn lsblk_drives_spec(devs: Seq<LsblkDeviceModel>) -> Seq<DriveModel>
    decreases devs.len(),
{
    if devs.len() == 0 {
        Seq::empty()
    } else {
        let rest = lsblk_drives_spec(devs.drop_last());
        match lsblk_drive_spec(devs.last()) {
            Some(m) => if m.removable {
                rest.push(m)
            } else {
                rest
            },
            None => rest,
        }
    }
}

fn lsblk_drive(d: &LsblkDevice) -> (res: Option<Drive>)
    ensures
        match res {
            Some(x) => lsblk_drive_spec(d@) == Some(x@),
            None => lsblk_drive_spec(d@) is None,
        },
{
    let name = text_of(&d.name);
    if !text_is(&text_of(&d.kind), "disk") {
        return None;
    }
    if starts_with(&name, &chars_of("loop")) || starts_with(&name, &chars_of("dm-")) || starts_with(
        &name,
        &chars_of("ram"),
    ) || starts_with(&name, &chars_of("zram")) {
        return None;
    }
    let tran = text_of(&d.tran);
    let rm = match d.rm {
        Some(b) => b,
        None => false,
    };
    let hotplug = match d.hotplug {
        Some(b) => b,
        None => false,
    };
    let removable = rm || hotplug || text_is(&tran, "usb");
    let size = match d.size {
        Some(n) => n,
        None => 0,
    };
    let model = trim(&text_of(&d.model));
    let path = dev_path(&name);
    let label = if model.len() == 0 {
        dev_path(&name)
    } else {
        model
    };
    Some(make_drive(&path, &label, size, removable))
}

/// The removable drives among the devices `lsblk` listed (none when its
/// output had no device list).
pub fn drives_from_lsblk(devs: &Option<Vec<LsblkDevice>>) -> (res: Vec<Drive>)
    ensures
        drive_views(res@) == match devs {
            Some(v) => lsblk_drives_spec(device_views(v@)),
            None => Seq::<DriveModel>::empty(),
        },
{
    let mut res: Vec<Drive> = Vec::new();
    match devs {
        None => {
            assert(drive_views(res@) =~= Seq::<DriveModel>::empty());
        },
        Some(v) => {
            let mut i: usize = 0;
            while i < v.len()
                invariant
                    i <= v.len(),
                    drive_views(res@) == lsblk_drives_spec(device_views(v@).take(i as int)),
                decreases v.len() - i,
            {
                let ghost before = res@;
                proof {
                    let dv = device_views(v@);
                    assert(dv.take(i + 1).drop_last() =~= dv.take(i as int));
                    assert(dv.take(i + 1).last() == v@[i as int]@);
                }
                match lsblk_drive(&v[i]) {
                    Some(d) => {
                        if d.removable {
                            res.push(d);
                            assert(drive_views(res@) =~= drive_views(before).push(res@.last()@));
                        }
                    },
                    None => {},
                }
                i = i + 1;
            }
            assert(device_views(v@).take(i as int) =~= device_views(v@));
        },
    }
    res
}

/// What `serde_json` makes of `lsblk -J` output: the text of its error
/// when it is not JSON; else the `blockdevices` array, if there is one,
/// with the members of each element that the imager reads.
pub uninterp spec fn lsblk_json(bytes: Seq<u8>) -> Result<Option<Seq<LsblkDeviceModel>>, Seq<char>>;

/// `serde_json::from_slice::<serde_json::Value>` (its error shown with
/// `Display`), then the `blockdevices` member read with `as_array`, and for
/// each element its members read with `as_str`, `as_bool` or `as_u64`
/// (indexing a `serde_json::Value` gives `Null`, which reads as `None`,
/// where `get` gives `None`); the contract claims only that the result is
/// what [`lsblk_json`] names for the bytes.
#[verifier::external_body]
fn decode_lsblk(bytes: &[u8]) -> (res: Result<Option<Vec<LsblkDevice>>, String>)
    ensures
        match res {
            Ok(d) => lsblk_json(bytes@) == Ok::<Option<Seq<LsblkDeviceModel>>, Seq<char>>(device_list_view(d)),
            Err(m) => lsblk_json(bytes@) == Err::<Option<Seq<LsblkDeviceModel>>, Seq<char>>(m@),
        },
{
    let json: serde_json::Value = match serde_json::from_slice(bytes) { Ok(v) => v, Err(e) => return Err(e.to_string()) };
    let text = |d: &serde_json::Value, k: &str| d[k].as_str().map(String::from);
    Ok(json["blockdevices"].as_array().map(|devs| devs.iter().map(|d| LsblkDevice {
        name: text(d, "name"), model: text(d, "model"), size: d["size"].as_u64(), rm: d["rm"].as_bool(),
        kind: text(d, "type"), tran: text(d, "tran"), hotplug: d["hotplug"].as_bool(),
    }).collect()))
}

/// What listing drives with `lsblk` gives: the tool's failure, a
/// complaint about output that is not JSON, or the removable drives.
pub open spec fn lsblk_outcome(run: ToolRun, res: Result<Vec<Drive>, String>) -> bool {
    match tool_output_spec("lsblk"@, run) {
        Err(m) => res matches Err(e) && e@ == m,
        Ok(out) => match lsblk_json(out) {
            Err(m) => res matches Err(e) && e@ == "bad lsblk json: "@ + m,
            Ok(Some(devs)) => res matches Ok(v) && drive_views(v@) == lsblk_drives_spec(devs),
            Ok(None) => res matches Ok(v) && drive_views(v@) == Seq::<DriveModel>::empty(),
        },
    }
}

/// The removable drives on Linux, from a run of
/// `lsblk -d -b -J -o NAME,MODEL,SIZE,RM,TYPE,TRAN,MOUNTPOINT,HOTPLUG`.
pub fn list(run: &ToolRun) -> (res: Result<Vec<Drive>, String>)
    ensures
        lsblk_outcome(*run, res),
{
    let out = match tool_output("lsblk", run) {
        Ok(o) => o,
        Err(m) => return Err(m),
    };
    match decode_lsblk(out.as_slice()) {
        Ok(devs) => Ok(drives_from_lsblk(&devs)),
        Err(m) => Err(string_of(&concat(&chars_of("bad lsblk json: "), &chars_of(m.as_str())))),
    }
}

/// Which devices `lsblk` offers: a device is a drive exactly when it is a
/// whole disk other than a loop, device-mapper or RAM disk, shown under
/// `/dev/` and its name, with its size and its model trimmed (the path
/// when the model is blank); it counts as removable when `lsblk` flags it
/// removable, when it can be hot-plugged, or when it hangs on USB, each
/// sign alone being enough, and for no other reason.
pub proof fn lemma_lsblk_device_offered(d: LsblkDeviceModel)
    ensures
        lsblk_drive_spec(d) is Some <==> opt_text(d.kind) == "disk"@ && !has_prefix(opt_text(d.name), "loop"@)
            && !has_prefix(opt_text(d.name), "dm-"@) && !has_prefix(opt_text(d.name), "ram"@)
            && !has_prefix(opt_text(d.name), "zram"@),
        lsblk_drive_spec(d) matches Some(m) ==> {
            &&& m.path == "/dev/"@ + opt_text(d.name)
            &&& m.size == opt_count(d.size)
            &&& trim_seq(opt_text(d.model)).len() > 0 ==> m.name == trim_seq(opt_text(d.model))
            &&& trim_seq(opt_text(d.model)).len() == 0 ==> m.name == m.path
            &&& opt_flag(d.rm) ==> m.removable
            &&& opt_flag(d.hotplug) ==> m.removable
            &&& opt_text(d.tran) == "usb"@ ==> m.removable
            &&& m.removable ==> opt_flag(d.rm) || opt_flag(d.hotplug) || opt_text(d.tran) == "usb"@
        },
{
}

/// Every whole disk that `lsblk` offers and that is flagged removable, can
/// be hot-plugged or hangs on USB is listed: some listed drive has its path
/// and is removable.
pub proof fn lemma_lsblk_removable_listed(devs: Seq<LsblkDeviceModel>, i: int)
    requires
        0 <= i < devs.len(),
        lsblk_drive_spec(devs[i]) is Some,
        opt_flag(devs[i].rm) || opt_flag(devs[i].hotplug) || opt_text(devs[i].tran) == "usb"@,
    ensures
        exists|j: int|
            0 <= j < lsblk_drives_spec(devs).len() && #[trigger] lsblk_drives_spec(devs)[j].path == "/dev/"@
                + opt_text(devs[i].name) && lsblk_drives_spec(devs)[j].removable,
    decreases devs.len(),
{
    let listed = lsblk_drives_spec(devs);
    let rest = lsblk_drives_spec(devs.drop_last());
    lemma_lsblk_device_offered(devs[i]);
    if i == devs.len() - 1 {
        assert(listed == rest.push(lsblk_drive_spec(devs[i])->0));
        assert(listed[rest.len() as int].path == "/dev/"@ + opt_text(devs[i].name));
    } else {
        assert(devs.drop_last()[i] == devs[i]);
        lemma_lsblk_removable_listed(devs.drop_last(), i);
        let j = choose|j: int|
            0 <= j < rest.len() && #[trigger] rest[j].path == "/dev/"@ + opt_text(devs[i].name)
                && rest[j].removable;
        assert(listed[j] == rest[j]);
    }
}

} // verus!
