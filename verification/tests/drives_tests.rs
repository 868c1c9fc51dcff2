use arcader_imager::drives::linux::{drives_from_lsblk, LsblkDevice};
use arcader_imager::drives::macos::{
    disk_drive, disk_ids, drive_from_plist, drives_from_listing, extract_disk_ids, plist_bool, plist_integer, plist_string,
    value_after_key,
};
use arcader_imager::drives::windows::{disks_of, drives_from_windows, WinDisk, WinJson};
use arcader_imager::drives::{list_drives, linux, macos, tool_output, windows, Drive, DriveProbe, ToolRun};

fn ran(stdout: &str) -> ToolRun {
    ToolRun::Ran { success: true, stdout: stdout.as_bytes().to_vec(), stderr: Vec::new() }
}

fn summary(d: &[Drive]) -> Vec<(String, String, u64, bool)> {
    d.iter().map(|x| (x.path.clone(), x.name.clone(), x.size, x.removable)).collect()
}

const LSBLK: &str = r#"{
   "blockdevices": [
      {"name":"sda", "model":"Samsung SSD", "size":500107862016, "rm":false, "type":"disk", "tran":"sata", "mountpoint":null, "hotplug":false},
      {"name":"sdb", "model":"  Cruzer Blade  ", "size":15631122432, "rm":true, "type":"disk", "tran":"usb", "mountpoint":null, "hotplug":true},
      {"name":"sdc", "model":null, "size":8000000000, "rm":false, "type":"disk", "tran":"usb", "mountpoint":null, "hotplug":false},
      {"name":"loop0", "model":null, "size":4096, "rm":true, "type":"loop", "tran":null, "mountpoint":"/snap", "hotplug":false},
      {"name":"zram0", "model":null, "size":4096, "rm":true, "type":"disk", "tran":null, "mountpoint":null, "hotplug":true},
      {"name":"sr0", "model":"DVD", "size":1073741312, "rm":true, "type":"rom", "tran":"sata", "mountpoint":null, "hotplug":true}
   ]
}"#;

#[test]
fn lsblk_lists_removable_disks() {
    let drives = linux::list(&ran(LSBLK)).ok().expect("listed");
    assert_eq!(
        summary(&drives),
        vec![
            ("/dev/sdb".to_string(), "Cruzer Blade".to_string(), 15631122432, true),
            ("/dev/sdc".to_string(), "/dev/sdc".to_string(), 8000000000, true),
        ]
    );
}

#[test]
fn lsblk_without_device_list_gives_no_drives() {
    assert!(linux::list(&ran("{}")).ok().expect("listed").is_empty());
}

#[test]
fn lsblk_errors() {
    let e = linux::list(&ran("not json")).err().unwrap();
    assert!(e.starts_with("bad lsblk json: "), "{}", e);
    let e = linux::list(&ToolRun::Failed { error: "No such file or directory".to_string() }).err().unwrap();
    assert_eq!(e, "failed to run lsblk: No such file or directory");
    let run = ToolRun::Ran { success: false, stdout: Vec::new(), stderr: b"bad \xff option".to_vec() };
    assert_eq!(linux::list(&run).err().unwrap(), "lsblk failed: bad \u{fffd} option");
}

#[test]
fn lsblk_devices_without_json_members() {
    let devs = vec![LsblkDevice {
        name: Some("sdd".to_string()),
        model: None,
        size: None,
        rm: None,
        kind: Some("disk".to_string()),
        tran: None,
        hotplug: Some(true),
    }];
    assert_eq!(summary(&drives_from_lsblk(&Some(devs))), vec![("/dev/sdd".to_string(), "/dev/sdd".to_string(), 0, true)]);
    assert!(drives_from_lsblk(&None).is_empty());
}

#[test]
fn powershell_lists_removable_disks() {
    let out = r#"[{"path":"\\\\.\\PHYSICALDRIVE0","name":"NVMe  ","size":512110190592,"removable":false,"interface":"SCSI","index":0},
                  {"path":"\\\\.\\PHYSICALDRIVE1","name":"  ","size":31440502784,"removable":false,"interface":"Usb","index":1},
                  {"path":"","name":"ghost","size":1,"removable":true,"interface":"USB","index":2}]"#;
    let drives = windows::list(&ran(out)).ok().expect("listed");
    assert_eq!(
        summary(&drives),
        vec![("\\\\.\\PHYSICALDRIVE1".to_string(), "\\\\.\\PHYSICALDRIVE1".to_string(), 31440502784, true)]
    );
}

#[test]
fn powershell_single_object_and_empty_output() {
    let one = r#"  {"path":"\\\\.\\PHYSICALDRIVE3","name":"Card Reader","size":64,"removable":true,"interface":"SCSI","index":3}  "#;
    assert_eq!(
        summary(&windows::list(&ran(one)).ok().unwrap()),
        vec![("\\\\.\\PHYSICALDRIVE3".to_string(), "Card Reader".to_string(), 64, true)]
    );
    assert!(windows::list(&ran(" \r\n")).ok().unwrap().is_empty());
    assert!(windows::list(&ran("[oops")).err().unwrap().starts_with("bad powershell json: "));
    let disks = vec![WinDisk { path: Some("X".to_string()), name: None, size: None, removable: None, interface: None }];
    assert!(drives_from_windows(&disks).is_empty());
}

const LIST_PLIST: &str = "<?xml version=\"1.0\" encoding=\"UTF-8\"?>
<plist version=\"1.0\">
<dict>
\t<key>AllDisks</key>
\t<array>
\t\t<string>disk4</string>
\t\t<string>disk4s1</string>
\t</array>
\t<key>WholeDisks</key>
\t<array>
\t\t<string>disk4</string>
\t\t<string>notadisk</string>
\t\t<string>disk5</string>
\t</array>
\t<key>Other</key>
\t<array>
\t\t<string>disk9</string>
\t</array>
</dict>
</plist>
";

const INFO_PLIST: &str = "<plist version=\"1.0\">
<dict>
\t<key>Internal</key>
\t<true/>
\t<key>MediaName</key>
\t<string>  SanDisk Ultra  </string>
\t<key>Removable</key>
\t<false/>
\t<key>Size</key>
\t<integer>100</integer>
\t<key>TotalSize</key>
\t<integer>30752636928</integer>
</dict>
</plist>
";

#[test]
fn diskutil_whole_disks() {
    assert_eq!(extract_disk_ids(LIST_PLIST), vec!["disk4".to_string(), "disk5".to_string()]);
    assert_eq!(disk_ids(&ran(LIST_PLIST)).ok().unwrap(), vec!["disk4".to_string(), "disk5".to_string()]);
    assert!(extract_disk_ids("<key>AllDisks</key>\n<string>disk1</string>").is_empty());
    assert_eq!(
        disk_ids(&ToolRun::Ran { success: false, stdout: Vec::new(), stderr: b"denied".to_vec() }).err().unwrap(),
        "diskutil failed: denied"
    );
}

#[test]
fn plist_values() {
    assert_eq!(value_after_key(INFO_PLIST, "Removable"), Some("\t<false/>".to_string()));
    assert_eq!(value_after_key(INFO_PLIST, "Missing"), None);
    assert_eq!(value_after_key("<key>Last</key>", "Last"), None);
    assert_eq!(plist_string(INFO_PLIST, "MediaName"), Some("  SanDisk Ultra  ".to_string()));
    assert_eq!(plist_string(INFO_PLIST, "Size"), None);
    assert_eq!(plist_integer(INFO_PLIST, "TotalSize"), Some(30752636928));
    assert_eq!(plist_integer(INFO_PLIST, "MediaName"), None);
    assert_eq!(plist_bool(INFO_PLIST, "Internal"), Some(true));
    assert_eq!(plist_bool(INFO_PLIST, "Removable"), Some(false));
    assert_eq!(plist_bool(INFO_PLIST, "Nothing"), None);
}

#[test]
fn diskutil_info_describes_a_drive() {
    let d = disk_drive("disk4", &ran(INFO_PLIST)).expect("described");
    assert_eq!(summary(&[d]), vec![("/dev/rdisk4".to_string(), "SanDisk Ultra".to_string(), 30752636928, false)]);
    let bare = disk_drive("disk6", &ran("<plist></plist>")).expect("described");
    assert_eq!(summary(&[bare]), vec![("/dev/rdisk6".to_string(), "disk6".to_string(), 0, true)]);
    assert!(disk_drive("disk7", &ToolRun::Failed { error: "x".to_string() }).is_none());
    assert!(disk_drive("disk7", &ToolRun::Ran { success: false, stdout: Vec::new(), stderr: Vec::new() }).is_none());
    let ids = vec!["disk4".to_string(), "disk5".to_string()];
    let infos = vec![ran(INFO_PLIST), ToolRun::Failed { error: "x".to_string() }];
    assert_eq!(drives_from_listing(&ids, &infos).len(), 1);
    assert_eq!(drives_from_listing(&ids, &vec![ran(INFO_PLIST)]).len(), 1);
    let listed = macos::list(&ran(LIST_PLIST), &infos).ok().unwrap();
    assert_eq!(summary(&listed), vec![("/dev/rdisk4".to_string(), "SanDisk Ultra".to_string(), 30752636928, false)]);
    let both = macos::list(&ran(LIST_PLIST), &vec![ran("<plist></plist>"), ran(INFO_PLIST)]).ok().unwrap();
    assert_eq!(
        summary(&both),
        vec![
            ("/dev/rdisk4".to_string(), "disk4".to_string(), 0, true),
            ("/dev/rdisk5".to_string(), "SanDisk Ultra".to_string(), 30752636928, false),
        ]
    );
    assert!(macos::list(&ran(LIST_PLIST), &Vec::new()).ok().unwrap().is_empty());
}

#[test]
fn list_drives_dispatches() {
    assert_eq!(list_drives(&DriveProbe::Lsblk(ran(LSBLK))).ok().unwrap().len(), 2);
    assert_eq!(list_drives(&DriveProbe::PowerShell(ran(""))).ok().unwrap().len(), 0);
    assert_eq!(
        list_drives(&DriveProbe::Diskutil { listing: ToolRun::Failed { error: "gone".to_string() }, infos: Vec::new() })
            .err()
            .unwrap(),
        "failed to run diskutil: gone"
    );
    assert_eq!(list_drives(&DriveProbe::Unsupported).err().unwrap(), "Unsupported platform");
    assert_eq!(tool_output("tool", &ran("out")).ok().unwrap(), b"out".to_vec());
}

#[test]
fn drive_from_a_property_list() {
    let plist = "<dict>\n<key>MediaName</key>\n<string>  Stick  </string>\n<key>Size</key>\n<integer>42</integer>\n<key>Internal</key>\n<false/>\n</dict>\n";
    let d = drive_from_plist("disk4", plist);
    assert_eq!(d.path, "/dev/rdisk4");
    assert_eq!(d.name, "Stick");
    assert_eq!(d.size, 42);
    assert!(d.removable);
    let bare = drive_from_plist("disk5", "<dict>\n<key>Removable</key>\n<false/>\n<key>Internal</key>\n<true/>\n</dict>\n");
    assert_eq!(bare.name, "disk5");
    assert_eq!(bare.size, 0);
    assert!(!bare.removable);
}

fn serde_error(text: &str) -> String {
    serde_json::from_str::<serde_json::Value>(text).unwrap_err().to_string()
}

#[test]
fn json_errors_are_reported_whole() {
    assert_eq!(linux::list(&ran("{oops")).err().unwrap(), format!("bad lsblk json: {}", serde_error("{oops")));
    assert_eq!(windows::list(&ran(" [1,")).err().unwrap(), format!("bad powershell json: {}", serde_error("[1,")));
}

#[test]
fn a_lone_powershell_disk_counts_as_one() {
    let disk = |p: &str| WinDisk { path: Some(p.to_string()), name: None, size: Some(8), removable: Some(true), interface: None };
    let one = disks_of(WinJson::One(disk("\\\\.\\PHYSICALDRIVE1")));
    assert_eq!(one.len(), 1);
    assert_eq!(one[0].path, Some("\\\\.\\PHYSICALDRIVE1".to_string()));
    let many = disks_of(WinJson::Many(vec![disk("a"), disk("b")]));
    assert_eq!(many.iter().map(|d| d.path.clone().unwrap()).collect::<Vec<_>>(), vec!["a", "b"]);
    assert!(disks_of(WinJson::Many(Vec::new())).is_empty());
    let single = windows::list(&ran("{\"path\":\"X\",\"name\":\"Stick\",\"size\":8,\"removable\":true}")).ok().unwrap();
    assert_eq!(summary(&single), vec![("X".to_string(), "Stick".to_string(), 8, true)]);
}
