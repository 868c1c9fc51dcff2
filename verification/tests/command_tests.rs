use arcader_imager::elevate::{applescript_quote, classify_exit, elevated_command, shell_quote, WorkerInvocation};
use arcader_imager::platform::Platform;
use arcader_imager::worker::{parse, runtime_failure_line, usage_error_line, worker_exit, USAGE_EXIT_CODE};

fn strings(v: &[&str]) -> Vec<String> {
    v.iter().map(|x| x.to_string()).collect()
}

fn c(s: &str) -> Vec<char> {
    s.chars().collect()
}

fn s(v: &[char]) -> String {
    v.iter().collect()
}

fn invocation(verify: bool) -> WorkerInvocation {
    WorkerInvocation {
        exe: "/opt/Arcader Imager/imager".to_string(),
        source: "https://example.org/os.iso".to_string(),
        device: "/dev/sdb".to_string(),
        verify,
        progress: "/tmp/arcader-imager-1-2/progress".to_string(),
        cancel: "/tmp/arcader-imager-1-2/cancel".to_string(),
    }
}

#[test]
fn argv_lists_every_option() {
    assert_eq!(
        invocation(true).argv(),
        strings(&[
            "flash-worker",
            "--source",
            "https://example.org/os.iso",
            "--device",
            "/dev/sdb",
            "--verify",
            "true",
            "--progress",
            "/tmp/arcader-imager-1-2/progress",
            "--cancel",
            "/tmp/arcader-imager-1-2/cancel",
        ])
    );
    assert_eq!(invocation(false).argv()[6], "false");
}

#[test]
fn argv_parses_back() {
    for verify in [true, false] {
        let inv = invocation(verify);
        let argv = inv.argv();
        let args = parse(&argv[1..]).ok().expect("parses");
        assert_eq!(args.source, inv.source);
        assert_eq!(args.device, inv.device);
        assert_eq!(args.verify, verify);
        assert_eq!(args.progress, inv.progress);
        assert_eq!(args.cancel, inv.cancel);
    }
    let odd = WorkerInvocation {
        exe: "x".to_string(),
        source: "--device".to_string(),
        device: "--source".to_string(),
        verify: true,
        progress: "--cancel".to_string(),
        cancel: "".to_string(),
    };
    let argv = odd.argv();
    let args = parse(&argv[1..]).ok().expect("parses");
    assert_eq!(args.source, "--device");
    assert_eq!(args.device, "--source");
    assert_eq!(args.progress, "--cancel");
    assert_eq!(args.cancel, "");
}

#[test]
fn parse_reports_the_first_missing_option() {
    let e = |v: &[&str]| parse(&strings(v)).err().expect("fails");
    assert_eq!(e(&[]), "missing --source");
    assert_eq!(e(&["--source", "a"]), "missing --device");
    assert_eq!(e(&["--source", "a", "--device", "b", "--cancel", "c"]), "missing --progress");
    assert_eq!(e(&["--source", "a", "--device", "b", "--progress", "p"]), "missing --cancel");
    assert_eq!(e(&["--device", "b", "--progress", "p", "--cancel", "c", "--source"]), "missing --source");
}

#[test]
fn parse_skips_unknown_words_and_keeps_the_last_value() {
    let args = parse(&strings(&[
        "junk", "--source", "a", "--verify", "TRUE", "--source", "b", "--device", "d", "--progress", "p",
        "--cancel", "c",
    ]))
    .ok()
    .expect("parses");
    assert_eq!(args.source, "b");
    assert!(!args.verify);
    let args = parse(&strings(&["--verify", "true", "--source", "s", "--device", "d", "--progress", "p", "--cancel", "c"]))
        .ok()
        .expect("parses");
    assert!(args.verify);
}

#[test]
fn linux_command_uses_pkexec() {
    let cmd = elevated_command(&invocation(true), Platform::Linux, None);
    assert_eq!(cmd.program, "pkexec");
    let mut want = vec!["/opt/Arcader Imager/imager".to_string()];
    want.extend(invocation(true).argv());
    assert_eq!(cmd.args, want);
    let cmd = elevated_command(&invocation(true), Platform::Linux, Some("/home/u/Imager.AppImage".to_string()));
    let mut want = strings(&["env", "APPIMAGE_EXTRACT_AND_RUN=1", "/home/u/Imager.AppImage"]);
    want.extend(invocation(true).argv());
    assert_eq!(cmd.args, want);
    let cmd = elevated_command(&invocation(true), Platform::Linux, Some(String::new()));
    assert_eq!(cmd.args[0], "/opt/Arcader Imager/imager");
}

#[test]
fn macos_command_uses_osascript() {
    let inv = WorkerInvocation {
        exe: "/Apps/It's/imager".to_string(),
        source: "a\"b".to_string(),
        device: "/dev/rdisk4".to_string(),
        verify: false,
        progress: "p".to_string(),
        cancel: "c".to_string(),
    };
    let cmd = elevated_command(&inv, Platform::MacOs, None);
    assert_eq!(cmd.program, "osascript");
    assert_eq!(cmd.args[0], "-e");
    assert_eq!(
        cmd.args[1],
        "do shell script \"'/Apps/It'\\\\''s/imager' 'flash-worker' '--source' 'a\\\"b' '--device' '/dev/rdisk4' '--verify' 'false' '--progress' 'p' '--cancel' 'c'\" with administrator privileges"
    );
}

#[test]
fn windows_command_uses_start_process() {
    let inv = WorkerInvocation {
        exe: "C:\\Program Files\\Imager\\imager.exe".to_string(),
        source: "C:\\Users\\o'neil\\os.iso".to_string(),
        device: "\\\\.\\PHYSICALDRIVE2".to_string(),
        verify: true,
        progress: "p".to_string(),
        cancel: "c".to_string(),
    };
    let cmd = elevated_command(&inv, Platform::Windows, None);
    assert_eq!(cmd.program, "powershell");
    assert_eq!(cmd.args[..3], strings(&["-NoProfile", "-NonInteractive", "-Command"])[..]);
    assert_eq!(
        cmd.args[3],
        "$p = Start-Process -FilePath 'C:\\Program Files\\Imager\\imager.exe' -ArgumentList 'flash-worker','--source','C:\\Users\\o''neil\\os.iso','--device','\\\\.\\PHYSICALDRIVE2','--verify','true','--progress','p','--cancel','c' -Verb RunAs -Wait -PassThru; exit $p.ExitCode"
    );
}

#[test]
fn other_platforms_run_the_writer_directly() {
    let cmd = elevated_command(&invocation(false), Platform::Other, None);
    assert_eq!(cmd.program, "/opt/Arcader Imager/imager");
    assert_eq!(cmd.args, invocation(false).argv());
}

#[test]
fn quoting() {
    assert_eq!(s(&shell_quote(&c("it's"))), "'it'\\''s'");
    assert_eq!(s(&shell_quote(&c(""))), "''");
    assert_eq!(s(&applescript_quote(&c("a\\b\"c"))), "\"a\\\\b\\\"c\"");
}

#[test]
fn classify_exit_statuses() {
    assert_eq!(classify_exit(Some(0), "ignored"), None);
    assert_eq!(classify_exit(Some(3), ""), Some("Cancelled".to_string()));
    assert_eq!(
        classify_exit(Some(126), "x"),
        Some("Administrator permission was denied or dismissed.".to_string())
    );
    assert_eq!(
        classify_exit(Some(127), ""),
        Some("Administrator permission was denied or dismissed.".to_string())
    );
    assert_eq!(classify_exit(Some(1), "  disk busy \n"), Some("disk busy".to_string()));
    assert_eq!(
        classify_exit(None, " \n "),
        Some("The privileged writer exited unexpectedly.".to_string())
    );
}

#[test]
fn worker_exit_lines_and_codes() {
    let ok = worker_exit(&Ok(()));
    assert_eq!(ok.line, "{\"phase\":\"complete\"}");
    assert_eq!(ok.code, 0);
    let failed = worker_exit(&Err("disk \"full\"".to_string()));
    let v: serde_json::Value = serde_json::from_str(&failed.line).unwrap();
    assert_eq!(v["phase"], "failed");
    assert_eq!(v["message"], "disk \"full\"");
    assert_eq!(failed.code, 1);
    let cancelled = worker_exit(&Err("Cancelled".to_string()));
    assert_eq!(cancelled.code, 3);
    assert_eq!(runtime_failure_line("boom"), "{\"phase\":\"failed\",\"message\":\"runtime: boom\"}");
    assert_eq!(usage_error_line("missing --source"), "worker: missing --source");
    assert_eq!(USAGE_EXIT_CODE, 2);
}

#[test]
fn exit_codes_are_understood() {
    assert_eq!(classify_exit(Some(worker_exit(&Ok(())).code), ""), None);
    assert_eq!(
        classify_exit(Some(worker_exit(&Err("Cancelled".to_string())).code), ""),
        Some("Cancelled".to_string())
    );
    assert!(classify_exit(Some(worker_exit(&Err("x".to_string())).code), "").is_some());
}
