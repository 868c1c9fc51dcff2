use arcader_imager::drives::{linux, windows, ToolRun};
use arcader_imager::elevate::{elevated_command, WorkerInvocation};
use arcader_imager::platform::Platform;
use arcader_imager::session::flash_outcome;
use arcader_imager::worker::worker_exit;

/// Splits a command line the way a POSIX shell does for the characters the
/// imager's quoting produces.
fn shell_split(line: &str) -> Vec<String> {
    let mut words = Vec::new();
    let mut cur = String::new();
    let mut started = false;
    let mut quoted = false;
    let mut it = line.chars();
    while let Some(c) = it.next() {
        if quoted {
            if c == '\'' {
                quoted = false;
            } else {
                cur.push(c);
            }
        } else if c == ' ' {
            if started {
                words.push(std::mem::take(&mut cur));
                started = false;
            }
        } else if c == '\'' {
            quoted = true;
            started = true;
        } else if c == '\\' {
            cur.push(it.next().expect("escaped character"));
            started = true;
        } else {
            cur.push(c);
            started = true;
        }
    }
    assert!(!quoted);
    if started {
        words.push(cur);
    }
    words
}

/// Reads an AppleScript string literal.
fn applescript_unquote(lit: &str) -> String {
    let mut out = String::new();
    let mut it = lit.chars();
    assert_eq!(it.next(), Some('"'));
    while let Some(c) = it.next() {
        match c {
            '\\' => out.push(it.next().expect("escaped character")),
            '"' => {
                assert_eq!(it.next(), None);
                return out;
            }
            _ => out.push(c),
        }
    }
    panic!("unterminated literal")
}

/// Reads PowerShell's comma-separated single-quoted strings.
fn ps_split(list: &str) -> Vec<String> {
    let chars: Vec<char> = list.chars().collect();
    let mut items = Vec::new();
    let mut i = 0;
    while i < chars.len() {
        if chars[i] == ',' {
            i += 1;
            continue;
        }
        assert_eq!(chars[i], '\'');
        i += 1;
        let mut cur = String::new();
        loop {
            if chars[i] == '\'' {
                if i + 1 < chars.len() && chars[i + 1] == '\'' {
                    cur.push('\'');
                    i += 2;
                } else {
                    i += 1;
                    break;
                }
            } else {
                cur.push(chars[i]);
                i += 1;
            }
        }
        items.push(cur);
    }
    items
}

fn awkward() -> WorkerInvocation {
    WorkerInvocation {
        exe: "/Applications/Arcader's \"Imager\"/imager".to_string(),
        source: "/Users/o'neil/My Images/os \\ v2.iso".to_string(),
        device: "/dev/rdisk4".to_string(),
        verify: true,
        progress: "/tmp/a b/progress".to_string(),
        cancel: "".to_string(),
    }
}

#[test]
fn macos_shell_line_reads_back() {
    let inv = awkward();
    let cmd = elevated_command(&inv, Platform::MacOs, None);
    let script = &cmd.args[1];
    let lit = script
        .strip_prefix("do shell script ")
        .and_then(|s| s.strip_suffix(" with administrator privileges"))
        .expect("script shape");
    let line = applescript_unquote(lit);
    let mut want = vec![inv.exe.clone()];
    want.extend(inv.argv());
    assert_eq!(shell_split(&line), want);
}

#[test]
fn windows_argument_list_reads_back() {
    let inv = awkward();
    let cmd = elevated_command(&inv, Platform::Windows, None);
    let ps = &cmd.args[3];
    let list = ps
        .split_once(" -ArgumentList ")
        .map(|(_, r)| r)
        .and_then(|r| r.strip_suffix(" -Verb RunAs -Wait -PassThru; exit $p.ExitCode"))
        .expect("command shape");
    assert_eq!(ps_split(list), inv.argv());
}

#[test]
fn listed_drives_are_removable() {
    let lsblk = r#"{"blockdevices":[{"name":"sda","type":"disk","rm":false},{"name":"sdb","type":"disk","rm":true}]}"#;
    let run = ToolRun::Ran { success: true, stdout: lsblk.as_bytes().to_vec(), stderr: Vec::new() };
    let drives = linux::list(&run).ok().unwrap();
    assert_eq!(drives.len(), 1);
    assert!(drives.iter().all(|d| d.removable));
    let ps = r#"[{"path":"A","removable":false,"interface":"IDE"},{"path":"B","removable":true}]"#;
    let run = ToolRun::Ran { success: true, stdout: ps.as_bytes().to_vec(), stderr: Vec::new() };
    let drives = windows::list(&run).ok().unwrap();
    assert_eq!(drives.len(), 1);
    assert!(drives.iter().all(|d| d.removable));
}

/// Appends the writer's last line to a progress file's content the way the
/// writer does, and decides the outcome from it.
fn read_back(before: &str, result: Result<(), String>, stderr: &[u8]) -> Result<(), String> {
    let exit = worker_exit(&result);
    let content = format!("{}{}\n", before, exit.line);
    flash_outcome(&Some(content), exit.code == 0, Some(exit.code), stderr)
}

#[test]
fn writer_end_is_read_back() {
    let progress = "{\"phase\":\"write\",\"done\":4096}\n{\"phase\":\"verify\"}\n";
    assert_eq!(read_back(progress, Ok(()), b"noise"), Ok(()));
    assert_eq!(read_back("", Ok(()), b""), Ok(()));
    assert_eq!(read_back(progress, Err("disk full".to_string()), b"other"), Err("disk full".to_string()));
    assert_eq!(read_back("", Err("Cancelled".to_string()), b""), Err("Cancelled".to_string()));
    let tricky = "two\nlines \"quoted\" \\ and\r\ttabs \u{2028}".to_string();
    assert_eq!(read_back(progress, Err(tricky.clone()), b""), Err(tricky));
}
