use arcader_imager::release::{os_info_from_record, os_info_from_release, ReleaseAsset, ReleaseRecord};
use arcader_imager::session::{
    flash_outcome, is_worker_invocation, outcome_of, TerminalRecord, last_nonempty_line, next_progress_line, unique_stamp_text, work_dir_name,
    FlashState,
};

#[test]
fn flash_state_tracks_the_cancel_file() {
    let mut st = FlashState::default();
    assert_eq!(st.cancel_target(), None);
    st.arm("/tmp/w/cancel".to_string());
    assert_eq!(st.cancel_target(), Some("/tmp/w/cancel".to_string()));
    st.disarm();
    assert_eq!(st.cancel_target(), None);
}

#[test]
fn progress_lines() {
    assert_eq!(last_nonempty_line("a\nb\n\n  \n"), Some("b".to_string()));
    assert_eq!(last_nonempty_line(" \n\n"), None);
    assert_eq!(last_nonempty_line(""), None);
    let content = "{\"phase\":\"write\"}\n{\"phase\":\"verify\"}\n";
    assert_eq!(next_progress_line(content, ""), Some("{\"phase\":\"verify\"}".to_string()));
    assert_eq!(next_progress_line(content, "{\"phase\":\"verify\"}"), None);
    assert_eq!(next_progress_line("\n", "x"), None);
}

#[test]
fn outcomes() {
    let p = |s: &str| Some(s.to_string());
    assert_eq!(flash_outcome(&p("{\"phase\":\"complete\"}\n"), true, Some(0), b""), Ok(()));
    assert_eq!(
        flash_outcome(&p("{\"phase\":\"complete\"}\n"), false, Some(1), b"oops"),
        Err("oops".to_string())
    );
    assert_eq!(
        flash_outcome(&p("{\"phase\":\"write\"}\n{\"message\":\"disk full\",\"phase\":\"failed\"}\n"), false, Some(1), b""),
        Err("disk full".to_string())
    );
    assert_eq!(flash_outcome(&p("{\"phase\":\"failed\"}"), true, Some(0), b""), Err("Write failed".to_string()));
    assert_eq!(flash_outcome(&p("not json"), false, Some(3), b""), Err("Cancelled".to_string()));
    assert_eq!(flash_outcome(&None, true, Some(0), b""), Ok(()));
    assert_eq!(
        flash_outcome(&p("{\"phase\":\"write\"}"), false, Some(126), b""),
        Err("Administrator permission was denied or dismissed.".to_string())
    );
    assert_eq!(
        flash_outcome(&None, false, None, b"  \n"),
        Err("The privileged writer exited unexpectedly.".to_string())
    );
}

#[test]
fn names_and_stamps() {
    assert_eq!(unique_stamp_text(4242, 1700000000123456789), "4242-1700000000123456789");
    assert_eq!(unique_stamp_text(0, 0), "0-0");
    assert_eq!(work_dir_name("4242-17"), "arcader-imager-4242-17");
    let args = |v: &[&str]| v.iter().map(|x| x.to_string()).collect::<Vec<String>>();
    assert!(is_worker_invocation(&args(&["imager", "flash-worker", "--source", "x"])));
    assert!(!is_worker_invocation(&args(&["imager"])));
    assert!(!is_worker_invocation(&args(&["imager", "--flash-worker"])));
}

const RELEASE: &str = r#"{"tag_name":"v2.1.0","assets":[
  {"name":"checksums.txt","browser_download_url":"https://x/checksums.txt"},
  {"name":"arcader-kiosk-i386.iso","browser_download_url":"https://x/i386.iso"},
  {"name":"arcader-kiosk-amd64.iso","browser_download_url":"https://x/amd64.iso"},
  {"name":"arcader-kiosk-amd64.iso","browser_download_url":"https://x/second.iso"}]}"#;

#[test]
fn releases() {
    let info = os_info_from_release(RELEASE).ok().unwrap();
    assert_eq!(info.name, "Arcader OS");
    assert_eq!(info.version, "v2.1.0");
    let builds: Vec<(String, String, String)> =
        info.builds.iter().map(|b| (b.arch.clone(), b.label.clone(), b.url.clone())).collect();
    assert_eq!(
        builds,
        vec![
            ("amd64".to_string(), "64-bit".to_string(), "https://x/amd64.iso".to_string()),
            ("i386".to_string(), "32-bit".to_string(), "https://x/i386.iso".to_string()),
        ]
    );
    assert_eq!(os_info_from_release(r#"{"assets":[]}"#).err().unwrap(), "latest release has no tag_name");
    assert_eq!(
        os_info_from_release(r#"{"tag_name":"v1","assets":[{"name":"other.iso"}]}"#).err().unwrap(),
        "release v1 has no Arcader kiosk ISO assets"
    );
    assert_eq!(
        os_info_from_release(r#"{"tag_name":"v1"}"#).err().unwrap(),
        "release v1 has no Arcader kiosk ISO assets"
    );
    let e = serde_json::from_str::<serde_json::Value>("<html>").unwrap_err().to_string();
    assert_eq!(os_info_from_release("<html>").err().unwrap(), format!("bad release data: {}", e));
}

#[test]
fn outcomes_from_records() {
    let rec = |phase: Option<&str>, message: Option<&str>| {
        Some(TerminalRecord { phase: phase.map(String::from), message: message.map(String::from) })
    };
    assert_eq!(outcome_of(&rec(Some("complete"), None), true, Some(0), ""), Ok(()));
    assert_eq!(outcome_of(&rec(Some("failed"), Some("bad sector")), true, Some(0), ""), Err("bad sector".to_string()));
    assert_eq!(outcome_of(&rec(Some("failed"), None), false, Some(1), "x"), Err("Write failed".to_string()));
    assert_eq!(outcome_of(&rec(None, Some("m")), false, Some(1), "boom\n"), Err("boom".to_string()));
    assert_eq!(outcome_of(&None, false, Some(3), ""), Err("Cancelled".to_string()));
    assert_eq!(outcome_of(&None, true, Some(0), "ignored"), Ok(()));
}

#[test]
fn releases_from_records() {
    let asset = |n: &str, u: &str| ReleaseAsset { name: Some(n.to_string()), url: Some(u.to_string()) };
    let r = ReleaseRecord {
        tag_name: Some("v3".to_string()),
        assets: Some(vec![asset("arcader-kiosk-i386.iso", "https://x/i"), ReleaseAsset { name: None, url: None }]),
    };
    let info = os_info_from_record(r).ok().unwrap();
    assert_eq!(info.version, "v3");
    assert_eq!(info.builds.len(), 1);
    assert_eq!(info.builds[0].arch, "i386");
    assert_eq!(info.builds[0].label, "32-bit");
    assert_eq!(info.builds[0].url, "https://x/i");
    let untagged = ReleaseRecord { tag_name: None, assets: None };
    assert_eq!(os_info_from_record(untagged).err().unwrap(), "latest release has no tag_name");
    let bare = ReleaseRecord { tag_name: Some("v4".to_string()), assets: None };
    assert_eq!(os_info_from_record(bare).err().unwrap(), "release v4 has no Arcader kiosk ISO assets");
}

#[test]
fn stamps_keep_flashes_apart() {
    let dir = |pid: u32, nanos: u128| work_dir_name(&unique_stamp_text(pid, nanos));
    assert_ne!(dir(12, 345), dir(123, 45));
    assert_ne!(dir(1, 10), dir(11, 0));
    assert_ne!(dir(7, 7), dir(7, 8));
    assert_eq!(dir(7, 7), dir(7, 7));
}
