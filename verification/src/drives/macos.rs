//! macOS: the external physical disks that `diskutil` lists and describes.
use vstd::prelude::*;

use crate::drives::{
    dev_path, drive_views, make_drive, tool_output, tool_output_spec, Drive, DriveModel, ToolRun,
};
use crate::text::{
    chars_of, concat, contains, has_infix, has_prefix, lines, lines_seq, lossy_utf8, parse_u64,
    parse_u64_seq, starts_with, string_of, strip_all_prefix, strip_all_suffix, strip_prefix,
    strip_prefix_spec, strip_suffix, strip_suffix_spec, trim, trim_end_matches, trim_seq,
    trim_start_matches, utf8_lossy, views,
};
use crate::worker::string_views;

verus! {

/// The disk identifiers in the `WholeDisks` array of a
/// `diskutil list -plist` property list, read from line `i` on: after the
/// line holding the `WholeDisks` key, each `<string>` line naming a `disk…`
/// identifier counts, up to the `</array>` line that closes the array.
pub open spec fn disk_ids_from(ls: Seq<Seq<char>>, i: int, in_whole: bool) -> Seq<Seq<char>>
    decreases ls.len() - i,
{
    if i < 0 || i >= ls.len() {
        Seq::empty()
    } else {
        let l = trim_seq(ls[i]);
        if has_infix(l, "<key>WholeDisks</key>"@) {
            disk_ids_from(ls, i + 1, true)
        } else if in_whole {
            if has_prefix(l, "<string>"@) {
                let s = strip_all_suffix(strip_all_prefix(l, "<string>"@), "</string>"@);
                if has_prefix(s, "disk"@) {
                    seq![s] + disk_ids_from(ls, i + 1, true)
                } else {
                    disk_ids_from(ls, i + 1, true)
                }
            } else if has_prefix(l, "</array>"@) {
                Seq::empty()
            } else {
                disk_ids_from(ls, i + 1, true)
            }
        } else {
            disk_ids_from(ls, i + 1, false)
        }
    }
}

pub open spec fn disk_ids_spec(plist: Seq<char>) -> Seq<Seq<char>> {
    disk_ids_from(lines_seq(plist), 0, false)
}

/// The whole-disk identifiers that `diskutil list -plist external physical`
/// printed.
pub fn extract_disk_ids(plist: &str) -> (res: Vec<String>)
    ensures
        string_views(res@) == disk_ids_spec(plist@),
{
    let ls = lines(&chars_of(plist));
    let ghost lv = views(ls@);
    let key = chars_of("<key>WholeDisks</key>");
    let open_tag = chars_of("<string>");
    let close_tag = chars_of("</string>");
    let disk = chars_of("disk");
    let end = chars_of("</array>");
    let mut ids: Vec<String> = Vec::new();
    let mut in_whole = false;
    let mut i: usize = 0;
    proof {
        assert(string_views(ids@) + disk_ids_from(lv, 0, false) =~= disk_ids_from(lv, 0, false));
    }
    while i < ls.len()
        invariant
            i <= ls.len(),
            lv == views(ls@),
            lv.len() == ls@.len(),
            lv == lines_seq(plist@),
            key@ == "<key>WholeDisks</key>"@,
            open_tag@ == "<string>"@,
            close_tag@ == "</string>"@,
            disk@ == "disk"@,
            end@ == "</array>"@,
            disk_ids_spec(plist@) == string_views(ids@) + disk_ids_from(lv, i as int, in_whole),
        ensures
            disk_ids_spec(plist@) == string_views(ids@),
        decreases ls.len() - i,
    {
        let l = trim(&ls[i]);
        assert(lv[i as int] == ls@[i as int]@);
        let ghost before = ids@;
        if contains(&l, &key) {
            in_whole = true;
        } else if in_whole {
            if starts_with(&l, &open_tag) {
                let s = trim_end_matches(&trim_start_matches(&l, &open_tag), &close_tag);
                if starts_with(&s, &disk) {
                    ids.push(string_of(&s));
                    proof {
                        assert(string_views(ids@) =~= string_views(before).push(s@));
                        assert(string_views(before).push(s@) + disk_ids_from(lv, i + 1, true)
                            =~= string_views(before) + (seq![s@] + disk_ids_from(lv, i + 1, true)));
                    }
                }
            } else if starts_with(&l, &end) {
                assert(string_views(ids@) + Seq::<Seq<char>>::empty() =~= string_views(ids@));
                break;
            }
        }
        i = i + 1;
    }
    proof {
        if i >= ls.len() {
            assert(string_views(ids@) + Seq::<Seq<char>>::empty() =~= string_views(ids@));
        }
    }
    ids
}

/// The line after the first line that holds `needle`, if both exist.
pub open spec fn after_key_from(ls: Seq<Seq<char>>, needle: Seq<char>, i: int) -> Option<Seq<char>>
    decreases ls.len() - i,
{
    if i < 0 || i >= ls.len() {
        None
    } else if has_infix(ls[i], needle) {
        if i + 1 < ls.len() {
            Some(ls[i + 1])
        } else {
            None
        }
    } else {
        after_key_from(ls, needle, i + 1)
    }
}

/// The line that follows the first line holding `<key>KEY</key>` in a
/// property list.
pub open spec fn value_after_key_spec(plist: Seq<char>, key: Seq<char>) -> Option<Seq<char>> {
    after_key_from(lines_seq(plist), "<key>"@ + key + "</key>"@, 0)
}

pub fn value_after_key(plist: &str, key: &str) -> (res: Option<String>)
    ensures
        match res {
            Some(v) => value_after_key_spec(plist@, key@) == Some(v@),
            None => value_after_key_spec(plist@, key@) is None,
        },
{
    let needle = concat(&concat(&chars_of("<key>"), &chars_of(key)), &chars_of("</key>"));
    let ls = lines(&chars_of(plist));
    let ghost lv = views(ls@);
    let mut i: usize = 0;
    while i < ls.len()
        invariant
            i <= ls.len(),
            lv == views(ls@),
            lv.len() == ls@.len(),
            lv == lines_seq(plist@),
            needle@ == "<key>"@ + key@ + "</key>"@,
            value_after_key_spec(plist@, key@) == after_key_from(lv, needle@, i as int),
        decreases ls.len() - i,
    {
        assert(lv[i as int] == ls@[i as int]@);
        if contains(&ls[i], &needle) {
            if i + 1 < ls.len() {
                assert(lv[i + 1] == ls@[i + 1]@);
                return Some(string_of(&ls[i + 1]));
            } else {
                return None;
            }
        }
        i = i + 1;
    }
    None
}

/// The text of a `<string>` value after `key`.
pub open spec fn plist_string_spec(plist: Seq<char>, key: Seq<char>) -> Option<Seq<char>> {
    match value_after_key_spec(plist, key) {
        Some(l) => match strip_prefix_spec(trim_seq(l), "<string>"@) {
            Some(a) => strip_suffix_spec(a, "</string>"@),
            None => None,
        },
        None => None,
    }
}

/// The number of an `<integer>` value after `key`.
pub open spec fn plist_integer_spec(plist: Seq<char>, key: Seq<char>) -> Option<u64> {
    match value_after_key_spec(plist, key) {
        Some(l) => match strip_prefix_spec(trim_seq(l), "<integer>"@) {
            Some(a) => match strip_suffix_spec(a, "</integer>"@) {
                Some(n) => parse_u64_seq(n),
                None => None,
            },
            None => None,
        },
        None => None,
    }
}

/// Whether the value after `key` is `<true/>`.
pub open spec fn plist_bool_spec(plist: Seq<char>, key: Seq<char>) -> Option<bool> {
    match value_after_key_spec(plist, key) {
        Some(l) => Some(has_infix(trim_seq(l), "<true"@)),
        None => None,
    }
}

pub fn plist_string(plist: &str, key: &str) -> (res: Option<String>)
    ensures
        match res {
            Some(v) => plist_string_spec(plist@, key@) == Some(v@),
            None => plist_string_spec(plist@, key@) is None,
        },
{
    match value_after_key(plist, key) {
        Some(l) => match strip_prefix(&trim(&chars_of(l.as_str())), &chars_of("<string>")) {
            Some(a) => match strip_suffix(&a, &chars_of("</string>")) {
                Some(v) => Some(string_of(&v)),
                None => None,
            },
            None => None,
        },
        None => None,
    }
}

pub fn plist_integer(plist: &str, key: &str) -> (res: Option<u64>)
    ensures
        res == plist_integer_spec(plist@, key@),
{
    match value_after_key(plist, key) {
        Some(l) => match strip_prefix(&trim(&chars_of(l.as_str())), &chars_of("<integer>")) {
            Some(a) => match strip_suffix(&a, &chars_of("</integer>")) {
                Some(n) => parse_u64(&n),
                None => None,
            },
            None => None,
        },
        None => None,
    }
}

pub fn plist_bool(plist: &str, key: &str) -> (res: Option<bool>)
    ensures
        res == plist_bool_spec(plist@, key@),
{
    match value_after_key(plist, key) {
        Some(l) => Some(contains(&trim(&chars_of(l.as_str())), &chars_of("<true"))),
        None => None,
    }
}

/// The drive that the property list of `diskutil info -plist ID`
/// describes: named by its media name (else its identifier), sized by its
/// total size (else its size), and removable unless it says it is neither
/// removable nor external.
pub open spec fn plist_drive_spec(id: Seq<char>, plist: Seq<char>) -> DriveModel {
    let media = match plist_string_spec(plist, "MediaName"@) {
        Some(m) => m,
        None => id,
    };
    let size = match plist_integer_spec(plist, "TotalSize"@) {
        Some(n) => n,
        None => match plist_integer_spec(plist, "Size"@) {
            Some(n) => n,
            None => 0,
        },
    };
    let removable = match plist_bool_spec(plist, "Removable"@) {
        Some(b) => b,
        None => true,
    } || match plist_bool_spec(plist, "Internal"@) {
        Some(internal) => !internal,
        None => true,
    };
    DriveModel {
        path: "/dev/r"@ + id,
        name: if trim_seq(media).len() == 0 {
            "/dev/"@ + id
        } else {
            trim_seq(media)
        },
        size,
        removable,
    }
}

/// The drive of a run of `diskutil info -plist ID`: none where the run
/// failed.
pub open spec fn disk_drive_spec(id: Seq<char>, run: ToolRun) -> Option<DriveModel> {
    match run {
        ToolRun::Failed { .. } => None,
        ToolRun::Ran { success, stdout, .. } => if !success {
            None
        } else {
            Some(plist_drive_spec(id, lossy_utf8(stdout@)))
        },
    }
}

/// The drive that the property list of `diskutil info -plist id`
/// describes.
pub fn drive_from_plist(id: &str, plist: &str) -> (res: Drive)
    ensures
        res@ == plist_drive_spec(id@, plist@),
{
    let idc = chars_of(id);
    let media = match plist_string(plist, "MediaName") {
        Some(m) => chars_of(m.as_str()),
        None => chars_of(id),
    };
    let size = match plist_integer(plist, "TotalSize") {
        Some(n) => n,
        None => match plist_integer(plist, "Size") {
            Some(n) => n,
            None => 0,
        },
    };
    let removable = match plist_bool(plist, "Removable") {
        Some(b) => b,
        None => true,
    } || match plist_bool(plist, "Internal") {
        Some(internal) => !internal,
        None => true,
    };
    let path = concat(&chars_of("/dev/r"), &idc);
    let trimmed = trim(&media);
    let label = if trimmed.len() == 0 {
        dev_path(&idc)
    } else {
        trimmed
    };
    make_drive(&path, &label, size, removable)
}

pub fn disk_drive(id: &str, run: &ToolRun) -> (res: Option<Drive>)
    ensures
        match res {
            Some(d) => disk_drive_spec(id@, *run) == Some(d@),
            None => disk_drive_spec(id@, *run) is None,
        },
{
    match run {
        ToolRun::Failed { .. } => None,
        ToolRun::Ran { success, stdout, .. } => {
            if !*success {
                return None;
            }
            let plist_text = utf8_lossy(stdout.as_slice());
            Some(drive_from_plist(id, plist_text.as_str()))
        },
    }
}

/// The drives that the listed disks stand for, in the order of `ids`: the
/// disk `ids[i]` is described by `infos[i]`, and a disk without a
/// description, or whose description failed, is left out.
pub open spec fn listed_drives_spec(ids: Seq<Seq<char>>, infos: Seq<ToolRun>) -> Seq<DriveModel>
    decreases ids.len(),
{
    if ids.len() == 0 {
        Seq::empty()
    } else {
        let rest = listed_drives_spec(ids.drop_last(), infos);
        let i = ids.len() - 1;
        if i < infos.len() {
            match disk_drive_spec(ids.last(), infos[i]) {
                Some(m) => rest.push(m),
                None => rest,
            }
        } else {
            rest
        }
    }
}

/// The drives of the disks `ids`, each described by the run of `diskutil
/// info -plist` at the same place in `infos`.
pub fn drives_from_listing(ids: &Vec<String>, infos: &Vec<ToolRun>) -> (res: Vec<Drive>)
    ensures
        drive_views(res@) == listed_drives_spec(string_views(ids@), infos@),
{
    let ghost iv = string_views(ids@);
    let mut res: Vec<Drive> = Vec::new();
    let mut i: usize = 0;
    while i < ids.len()
        invariant
            i <= ids.len(),
            iv == string_views(ids@),
            drive_views(res@) == listed_drives_spec(iv.take(i as int), infos@),
        decreases ids.len() - i,
    {
        let ghost before = res@;
        proof {
            assert(iv.take(i + 1).drop_last() =~= iv.take(i as int));
            assert(iv.take(i + 1).last() == ids@[i as int]@);
        }
        if i < infos.len() {
            match disk_drive(ids[i].as_str(), &infos[i]) {
                Some(d) => {
                    res.push(d);
                    assert(drive_views(res@) =~= drive_views(before).push(res@.last()@));
                },
                None => {},
            }
        }
        i = i + 1;
    }
    assert(iv.take(i as int) =~= iv);
    res
}

/// The external physical disks that `diskutil list -plist external
/// physical` reports, or the message for its failure.
pub fn disk_ids(run: &ToolRun) -> (res: Result<Vec<String>, String>)
    ensures
        match tool_output_spec("diskutil"@, *run) {
            Err(m) => res matches Err(e) && e@ == m,
            Ok(out) => res matches Ok(ids) && string_views(ids@) == disk_ids_spec(lossy_utf8(out)),
        },
{
    match tool_output("diskutil", run) {
        Ok(out) => {
            let text = utf8_lossy(out.as_slice());
            Ok(extract_disk_ids(text.as_str()))
        },
        Err(m) => Err(m),
    }
}

/// What listing drives on macOS gives: the failure of `diskutil list`, or
/// the drives of the disks its output names, in that order.
pub open spec fn diskutil_outcome(listing: ToolRun, infos: Seq<ToolRun>, res: Result<Vec<Drive>, String>) -> bool {
    match tool_output_spec("diskutil"@, listing) {
        Err(m) => res matches Err(e) && e@ == m,
        Ok(out) => res matches Ok(v) && drive_views(v@) == listed_drives_spec(
            disk_ids_spec(lossy_utf8(out)),
            infos,
        ),
    }
}

/// The drives on macOS, from the run of `diskutil list -plist external
/// physical` and the runs of `diskutil info -plist` on the disks it names,
/// in the order it names them.
pub fn list(listing: &ToolRun, infos: &Vec<ToolRun>) -> (res: Result<Vec<Drive>, String>)
    ensures
        diskutil_outcome(*listing, infos@, res),
{
    match disk_ids(listing) {
        Ok(ids) => Ok(drives_from_listing(&ids, infos)),
        Err(m) => Err(m),
    }
}

} // verus!
