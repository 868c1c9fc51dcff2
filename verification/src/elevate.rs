//! How the privileged writer is started: its command line, how each
//! platform wraps it to gain administrator rights, and what its exit status
//! means.
use vstd::prelude::*;

use crate::platform::Platform;
use crate::text::{chars_of, concat, replace_all, replace_seq, string_of, trim, trim_seq};
use crate::worker::string_views;

verus! {

/// Everything the writer needs to be told.
pub struct WorkerInvocation {
    /// The imager's own executable.
    pub exe: String,
    pub source: String,
    pub device: String,
    pub verify: bool,
    pub progress: String,
    pub cancel: String,
}

/// A program and the arguments to start it with.
pub struct CommandLine {
    pub program: String,
    pub args: Vec<String>,
}

impl CommandLine {
    pub open spec fn program_view(&self) -> Seq<char> {
        self.program@
    }

    pub open spec fn args_view(&self) -> Seq<Seq<char>> {
        string_views(self.args@)
    }
}

impl WorkerInvocation {
    /// The writer's command line, starting with the word that tells the
    /// executable to act as the writer.
    pub open spec fn argv_spec(&self) -> Seq<Seq<char>> {
        seq![
            "flash-worker"@,
            "--source"@,
            self.source@,
            "--device"@,
            self.device@,
            "--verify"@,
            if self.verify {
                "true"@
            } else {
                "false"@
            },
            "--progress"@,
            self.progress@,
            "--cancel"@,
            self.cancel@,
        ]
    }

    pub fn argv(&self) -> (res: Vec<String>)
        ensures
            string_views(res@) == self.argv_spec(),
    {
        let mut v: Vec<String> = Vec::new();
        v.push(String::from_str("flash-worker"));
        v.push(String::from_str("--source"));
        v.push(self.source.clone());
        v.push(String::from_str("--device"));
        v.push(self.device.clone());
        v.push(String::from_str("--verify"));
        v.push(
            if self.verify {
                String::from_str("true")
            } else {
                String::from_str("false")
            },
        );
        v.push(String::from_str("--progress"));
        v.push(self.progress.clone());
        v.push(String::from_str("--cancel"));
        v.push(self.cancel.clone());
        assert(string_views(v@) =~= self.argv_spec());
        v
    }
}

/// `s` as one single-quoted POSIX shell word: every `'` in it becomes
/// `'\''`.
pub open spec fn shell_quote_spec(s: Seq<char>) -> Seq<char> {
    "'"@ + replace_seq(s, "'"@, "'\\''"@) + "'"@
}

/// `s` as an AppleScript string literal: backslashes are doubled, then
/// double quotes are escaped.
pub open spec fn applescript_quote_spec(s: Seq<char>) -> Seq<char> {
    "\""@ + replace_seq(replace_seq(s, "\\"@, "\\\\"@), "\""@, "\\\""@) + "\""@
}

/// `s` as a PowerShell single-quoted string: every `'` is doubled.
pub open spec fn ps_quote_spec(s: Seq<char>) -> Seq<char> {
    "'"@ + replace_seq(s, "'"@, "''"@) + "'"@
}

pub fn shell_quote(s: &[char]) -> (res: Vec<char>)
    ensures
        res@ == shell_quote_spec(s@),
{
    let q = chars_of("'");
    proof {
        reveal_strlit("'");
    }
    let body = replace_all(s, &q, &chars_of("'\\''"));
    let r = concat(&concat(&q, &body), &q);
    r
}

pub fn applescript_quote(s: &[char]) -> (res: Vec<char>)
    ensures
        res@ == applescript_quote_spec(s@),
{
    let bs = chars_of("\\");
    let dq = chars_of("\"");
    proof {
        reveal_strlit("\\");
        reveal_strlit("\"");
    }
    let e1 = replace_all(s, &bs, &chars_of("\\\\"));
    let e2 = replace_all(&e1, &dq, &chars_of("\\\""));
    concat(&concat(&dq, &e2), &dq)
}

fn ps_quote(s: &[char]) -> (res: Vec<char>)
    ensures
        res@ == ps_quote_spec(s@),
{
    let q = chars_of("'");
    proof {
        reveal_strlit("'");
    }
    let body = replace_all(s, &q, &chars_of("''"));
    concat(&concat(&q, &body), &q)
}

/// The shell words of the executable and its arguments, each quoted and
/// separated by single spaces.
pub open spec fn shell_words(exe: Seq<char>, args: Seq<Seq<char>>) -> Seq<char>
    decreases args.len(),
{
    if args.len() == 0 {
        shell_quote_spec(exe)
    } else {
        shell_words(exe, args.drop_last()) + " "@ + shell_quote_spec(args.last())
    }
}

/// The quoted arguments, separated by commas.
pub open spec fn ps_list(args: Seq<Seq<char>>) -> Seq<char>
    decreases args.len(),
{
    if args.len() == 0 {
        Seq::empty()
    } else if args.len() == 1 {
        ps_quote_spec(args[0])
    } else {
        ps_list(args.drop_last()) + ","@ + ps_quote_spec(args.last())
    }
}

/// The command that starts the writer with administrator rights.
pub open spec fn elevated_spec(
    inv: WorkerInvocation,
    platform: Platform,
    appimage: Option<Seq<char>>,
) -> (Seq<char>, Seq<Seq<char>>) {
    let argv = inv.argv_spec();
    match platform {
        Platform::Linux => (
            "pkexec"@,
            match appimage {
                Some(a) if a.len() > 0 => seq!["env"@, "APPIMAGE_EXTRACT_AND_RUN=1"@, a] + argv,
                _ => seq![inv.exe@] + argv,
            },
        ),
        Platform::MacOs => (
            "osascript"@,
            seq![
                "-e"@,
                "do shell script "@ + applescript_quote_spec(shell_words(inv.exe@, argv))
                    + " with administrator privileges"@,
            ],
        ),
        Platform::Windows => (
            "powershell"@,
            seq![
                "-NoProfile"@,
                "-NonInteractive"@,
                "-Command"@,
                "$p = Start-Process -FilePath '"@ + replace_seq(inv.exe@, "'"@, "''"@)
                    + "' -ArgumentList "@ + ps_list(argv)
                    + " -Verb RunAs -Wait -PassThru; exit $p.ExitCode"@,
            ],
        ),
        Platform::Other => (inv.exe@, argv),
    }
}

fn push_str(v: &mut Vec<String>, s: &str)
    ensures
        string_views(final(v)@) == string_views(old(v)@).push(s@),
{
    let ghost before = v@;
    v.push(String::from_str(s));
    assert(string_views(v@) =~= string_views(before).push(s@));
}

fn push_string(v: &mut Vec<String>, s: String)
    ensures
        string_views(final(v)@) == string_views(old(v)@).push(s@),
{
    let ghost before = v@;
    let ghost sv = s@;
    v.push(s);
    assert(string_views(v@) =~= string_views(before).push(sv));
}

fn push_chars(v: &mut Vec<String>, s: &[char])
    ensures
        string_views(final(v)@) == string_views(old(v)@).push(s@),
{
    let ghost before = v@;
    v.push(string_of(s));
    assert(string_views(v@) =~= string_views(before).push(s@));
}

fn append_strings(v: &mut Vec<String>, more: &Vec<String>)
    ensures
        string_views(final(v)@) == string_views(old(v)@) + string_views(more@),
{
    let ghost before = v@;
    let mut i: usize = 0;
    while i < more.len()
        invariant
            i <= more.len(),
            string_views(v@) == string_views(before) + string_views(more@.take(i as int)),
        decreases more.len() - i,
    {
        let ghost mid = v@;
        v.push(more[i].clone());
        proof {
            assert(more@.take(i + 1) =~= more@.take(i as int).push(more@[i as int]));
            assert(string_views(v@) =~= string_views(mid).push(more@[i as int]@));
            assert(string_views(more@.take(i + 1)) =~= string_views(more@.take(i as int)).push(
                more@[i as int]@,
            ));
        }
        i = i + 1;
    }
    assert(more@.take(i as int) =~= more@);
}

fn shell_line(exe: &[char], argv: &Vec<String>) -> (res: Vec<char>)
    ensures
        res@ == shell_words(exe@, string_views(argv@)),
{
    let mut shell = shell_quote(exe);
    let mut i: usize = 0;
    let sp = chars_of(" ");
    while i < argv.len()
        invariant
            i <= argv.len(),
            sp@ == " "@,
            shell@ == shell_words(exe@, string_views(argv@).take(i as int)),
        decreases argv.len() - i,
    {
        let a = chars_of(argv[i].as_str());
        let quoted = shell_quote(&a);
        shell = concat(&concat(&shell, &sp), &quoted);
        proof {
            let t = string_views(argv@).take(i + 1);
            assert(t.drop_last() =~= string_views(argv@).take(i as int));
            assert(t.last() == argv@[i as int]@);
        }
        i = i + 1;
    }
    proof {
        assert(string_views(argv@).take(i as int) =~= string_views(argv@));
    }
    shell
}

fn ps_arg_list(argv: &Vec<String>) -> (res: Vec<char>)
    ensures
        res@ == ps_list(string_views(argv@)),
{
    let mut out: Vec<char> = Vec::new();
    let comma = chars_of(",");
    let mut i: usize = 0;
    while i < argv.len()
        invariant
            i <= argv.len(),
            comma@ == ","@,
            out@ == ps_list(string_views(argv@).take(i as int)),
        decreases argv.len() - i,
    {
        let quoted = ps_quote(&chars_of(argv[i].as_str()));
        proof {
            let t = string_views(argv@).take(i + 1);
            assert(t.drop_last() =~= string_views(argv@).take(i as int));
            assert(t.last() == argv@[i as int]@);
            if i == 0 {
                assert(t[0] == argv@[0]@);
            }
        }
        if i == 0 {
            out = quoted;
        } else {
            out = concat(&concat(&out, &comma), &quoted);
        }
        i = i + 1;
    }
    proof {
        assert(string_views(argv@).take(i as int) =~= string_views(argv@));
    }
    out
}

/// The command that starts the writer with administrator rights on
/// `platform`. On Linux, `appimage` is the value of the `APPIMAGE`
/// environment variable, where the imager runs from an AppImage.
pub fn elevated_command(inv: &WorkerInvocation, platform: Platform, appimage: Option<String>) -> (res:
    CommandLine)
    ensures
        (res.program_view(), res.args_view()) == elevated_spec(
            *inv,
            platform,
            match appimage {
                Some(a) => Some(a@),
                None => None,
            },
        ),
{
    let argv = inv.argv();
    let exe = chars_of(inv.exe.as_str());
    let mut args: Vec<String> = Vec::new();
    match platform {
        Platform::Linux => {
            match appimage {
                Some(a) if !a.as_str().is_empty() => {
                    push_str(&mut args, "env");
                    push_str(&mut args, "APPIMAGE_EXTRACT_AND_RUN=1");
                    push_string(&mut args, a);
                },
                _ => {
                    push_chars(&mut args, &exe);
                },
            }
            append_strings(&mut args, &argv);
            CommandLine { program: String::from_str("pkexec"), args }
        },
        Platform::MacOs => {
            let shell = shell_line(&exe, &argv);
            let script = concat(
                &concat(&chars_of("do shell script "), &applescript_quote(&shell)),
                &chars_of(" with administrator privileges"),
            );
            push_str(&mut args, "-e");
            push_chars(&mut args, &script);
            CommandLine { program: String::from_str("osascript"), args }
        },
        Platform::Windows => {
            proof {
                reveal_strlit("'");
            }
            let ps = concat(
                &concat(
                    &concat(
                        &concat(
                            &chars_of("$p = Start-Process -FilePath '"),
                            &replace_all(&exe, &chars_of("'"), &chars_of("''")),
                        ),
                        &chars_of("' -ArgumentList "),
                    ),
                    &ps_arg_list(&argv),
                ),
                &chars_of(" -Verb RunAs -Wait -PassThru; exit $p.ExitCode"),
            );
            push_str(&mut args, "-NoProfile");
            push_str(&mut args, "-NonInteractive");
            push_str(&mut args, "-Command");
            push_chars(&mut args, &ps);
            CommandLine { program: String::from_str("powershell"), args }
        },
        Platform::Other => {
            append_strings(&mut args, &argv);
            CommandLine { program: string_of(&exe), args }
        },
    }
}

/// What the writer's exit status says went wrong, if anything.
pub open spec fn classify_exit_spec(code: Option<i32>, stderr: Seq<char>) -> Option<Seq<char>> {
    match code {
        Some(0) => None,
        Some(3) => Some("Cancelled"@),
        Some(126) | Some(127) => Some("Administrator permission was denied or dismissed."@),
        _ => if trim_seq(stderr).len() == 0 {
            Some("The privileged writer exited unexpectedly."@)
        } else {
            Some(trim_seq(stderr))
        },
    }
}

/// Interprets the writer's exit status and error output: `None` when it
/// succeeded, else the message to show.
pub fn classify_exit(code: Option<i32>, stderr: &str) -> (res: Option<String>)
    ensures
        match res {
            Some(m) => classify_exit_spec(code, stderr@) == Some(m@),
            None => classify_exit_spec(code, stderr@) is None,
        },
{
    match code {
        Some(0) => None,
        Some(3) => Some(String::from_str("Cancelled")),
        Some(126) | Some(127) => Some(
            String::from_str("Administrator permission was denied or dismissed."),
        ),
        _ => {
            let trimmed = trim(&chars_of(stderr));
            if trimmed.len() == 0 {
                Some(String::from_str("The privileged writer exited unexpectedly."))
            } else {
                Some(string_of(&trimmed))
            }
        },
    }
}

// ------------------------------------------------------------ quoting laws

proof fn lemma_replace_cons(c: char, t: Seq<char>, p: char, r: Seq<char>)
    ensures
        replace_seq(seq![c] + t, seq![p], r) == (if c == p {
            r
        } else {
            seq![c]
        }) + replace_seq(t, seq![p], r),
{
    let s = seq![c] + t;
    assert(s[0] == c);
    assert(s.skip(1) =~= t);
    assert(s.drop_first() =~= t);
    if c == p {
        assert(s.take(1) =~= seq![p]);
    } else {
        assert(s.take(1)[0] != seq![p][0]);
    }
}

proof fn lemma_replace_append(a: Seq<char>, b: Seq<char>, p: char, r: Seq<char>)
    ensures
        replace_seq(a + b, seq![p], r) == replace_seq(a, seq![p], r) + replace_seq(b, seq![p], r),
    decreases a.len(),
{
    if a.len() == 0 {
        assert(a + b =~= b);
        assert(replace_seq(a, seq![p], r) =~= Seq::<char>::empty());
        assert(Seq::<char>::empty() + replace_seq(b, seq![p], r) =~= replace_seq(b, seq![p], r));
    } else {
        let t = a.drop_first();
        assert(a =~= seq![a[0]] + t);
        assert(a + b =~= seq![a[0]] + (t + b));
        lemma_replace_cons(a[0], t + b, p, r);
        lemma_replace_cons(a[0], t, p, r);
        lemma_replace_append(t, b, p, r);
        let h = if a[0] == p {
            r
        } else {
            seq![a[0]]
        };
        assert(h + (replace_seq(t, seq![p], r) + replace_seq(b, seq![p], r)) =~= (h + replace_seq(
            t,
            seq![p],
            r,
        )) + replace_seq(b, seq![p], r));
    }
}

/// How a POSIX shell splits a command line into words, from the given
/// state: between single quotes every character stands for itself up to
/// the closing quote; outside them a space ends the word under way, a
/// backslash makes the next character stand for itself, a single quote
/// opens quoting, and any other character stands for itself. A word is
/// under way (`started`) once any of its characters or quotes was read,
/// so `''` is an empty word. `None` when quoting is left open or a
/// backslash ends the line.
pub open spec fn sh_split(
    w: Seq<char>,
    quoted: bool,
    started: bool,
    cur: Seq<char>,
    words: Seq<Seq<char>>,
) -> Option<Seq<Seq<char>>>
    decreases w.len(),
{
    if w.len() == 0 {
        if quoted {
            None
        } else if started {
            Some(words.push(cur))
        } else {
            Some(words)
        }
    } else if quoted {
        if w[0] == '\'' {
            sh_split(w.drop_first(), false, true, cur, words)
        } else {
            sh_split(w.drop_first(), true, true, cur.push(w[0]), words)
        }
    } else if w[0] == ' ' {
        if started {
            sh_split(w.drop_first(), false, false, Seq::empty(), words.push(cur))
        } else {
            sh_split(w.drop_first(), false, false, cur, words)
        }
    } else if w[0] == '\'' {
        sh_split(w.drop_first(), true, true, cur, words)
    } else if w[0] == '\\' {
        if w.len() < 2 {
            None
        } else {
            sh_split(w.skip(2), false, true, cur.push(w[1]), words)
        }
    } else {
        sh_split(w.drop_first(), false, true, cur.push(w[0]), words)
    }
}

/// The words a POSIX shell reads from a command line.
pub open spec fn sh_words(line: Seq<char>) -> Option<Seq<Seq<char>>> {
    sh_split(line, false, false, Seq::empty(), Seq::empty())
}

proof fn lemma_sh_quoted_body(s: Seq<char>, rest: Seq<char>, cur: Seq<char>, words: Seq<Seq<char>>)
    ensures
        sh_split(
            replace_seq(s, seq!['\''], seq!['\'', '\\', '\'', '\'']) + seq!['\''] + rest,
            true,
            true,
            cur,
            words,
        ) == sh_split(rest, false, true, cur + s, words),
    decreases s.len(),
{
    let q = seq!['\''];
    let e = seq!['\'', '\\', '\'', '\''];
    if s.len() == 0 {
        assert(replace_seq(s, q, e) =~= Seq::<char>::empty());
        let w = replace_seq(s, q, e) + q + rest;
        assert(w =~= seq!['\''] + rest);
        assert(w.drop_first() =~= rest);
        assert(cur + s =~= cur);
    } else {
        let t = s.drop_first();
        assert(s =~= seq![s[0]] + t);
        lemma_replace_cons(s[0], t, '\'', e);
        let rt = replace_seq(t, q, e) + q + rest;
        if s[0] == '\'' {
            lemma_sh_quoted_body(t, rest, cur.push('\''), words);
            let w = e + rt;
            assert(replace_seq(s, q, e) + q + rest =~= w);
            let w1 = w.drop_first();
            assert(w1 =~= seq!['\\', '\'', '\''] + rt);
            let w2 = w1.skip(2);
            assert(w2 =~= seq!['\''] + rt);
            assert(w2.drop_first() =~= rt);
            assert(w1[1] == '\'');
            assert(sh_split(w2, false, true, cur.push('\''), words) == sh_split(rt, true, true, cur.push('\''), words));
            assert(sh_split(w1, false, true, cur, words) == sh_split(w2, false, true, cur.push('\''), words));
            assert(sh_split(w, true, true, cur, words) == sh_split(w1, false, true, cur, words));
            assert(cur.push('\'') + t =~= cur + s);
        } else {
            lemma_sh_quoted_body(t, rest, cur.push(s[0]), words);
            let w = seq![s[0]] + rt;
            assert(replace_seq(s, q, e) + q + rest =~= w);
            assert(w.drop_first() =~= rt);
            assert(sh_split(w, true, true, cur, words) == sh_split(rt, true, true, cur.push(s[0]), words));
            assert(cur.push(s[0]) + t =~= cur + s);
        }
    }
}

proof fn lemma_sh_quoted_word(s: Seq<char>, rest: Seq<char>, words: Seq<Seq<char>>)
    ensures
        sh_split(shell_quote_spec(s) + rest, false, false, Seq::empty(), words) == sh_split(
            rest,
            false,
            true,
            s,
            words,
        ),
{
    reveal_strlit("'");
    reveal_strlit("'\\''");
    assert("'"@ =~= seq!['\'']);
    assert("'\\''"@ =~= seq!['\'', '\\', '\'', '\'']);
    let body = replace_seq(s, seq!['\''], seq!['\'', '\\', '\'', '\'']) + seq!['\''] + rest;
    let w = shell_quote_spec(s) + rest;
    assert(w =~= seq!['\''] + body);
    assert(w.drop_first() =~= body);
    lemma_sh_quoted_body(s, rest, Seq::empty(), words);
    assert(Seq::<char>::empty() + s =~= s);
}

proof fn lemma_sh_words_prefix(exe: Seq<char>, args: Seq<Seq<char>>, rest: Seq<char>, words: Seq<Seq<char>>)
    ensures
        sh_split(shell_words(exe, args) + rest, false, false, Seq::empty(), words) == sh_split(
            rest,
            false,
            true,
            if args.len() == 0 {
                exe
            } else {
                args.last()
            },
            words + (seq![exe] + args).drop_last(),
        ),
    decreases args.len(),
{
    if args.len() == 0 {
        lemma_sh_quoted_word(exe, rest, words);
        assert(words + (seq![exe] + args).drop_last() =~= words);
    } else {
        let a = args.drop_last();
        let last = args.last();
        let tail = " "@ + shell_quote_spec(last) + rest;
        reveal_strlit(" ");
        assert(" "@ =~= seq![' ']);
        assert(shell_words(exe, args) + rest =~= shell_words(exe, a) + tail);
        lemma_sh_words_prefix(exe, a, tail, words);
        let lw = if a.len() == 0 {
            exe
        } else {
            a.last()
        };
        let ws = words + (seq![exe] + a).drop_last();
        assert(tail[0] == ' ');
        assert(tail.drop_first() =~= shell_quote_spec(last) + rest);
        assert(sh_split(tail, false, true, lw, ws) == sh_split(
            shell_quote_spec(last) + rest,
            false,
            false,
            Seq::empty(),
            ws.push(lw),
        ));
        lemma_sh_quoted_word(last, rest, ws.push(lw));
        assert(ws.push(lw) =~= words + (seq![exe] + args).drop_last());
    }
}

/// The shell command that [`elevated_command`] hands to AppleScript on
/// macOS splits, in a POSIX shell, into exactly the executable and the
/// writer's arguments, whatever characters they hold.
pub proof fn lemma_shell_words_read_back(exe: Seq<char>, args: Seq<Seq<char>>)
    ensures
        sh_words(shell_words(exe, args)) == Some(seq![exe] + args),
{
    let w = shell_words(exe, args);
    lemma_sh_words_prefix(exe, args, Seq::empty(), Seq::empty());
    assert(w + Seq::<char>::empty() =~= w);
    let lw = if args.len() == 0 {
        exe
    } else {
        args.last()
    };
    let ws = Seq::<Seq<char>>::empty() + (seq![exe] + args).drop_last();
    assert(ws.push(lw) =~= seq![exe] + args);
}

/// How AppleScript reads the inside of a string literal, after its opening
/// double quote: a backslash makes the next character stand for itself, a
/// double quote closes the literal (and must end it), any other character
/// stands for itself.
pub open spec fn applescript_read(w: Seq<char>) -> Option<Seq<char>>
    decreases w.len(),
{
    if w.len() == 0 {
        None
    } else if w[0] == '"' {
        if w.len() == 1 {
            Some(Seq::empty())
        } else {
            None
        }
    } else if w[0] == '\\' {
        if w.len() < 2 {
            None
        } else {
            match applescript_read(w.skip(2)) {
                Some(rest) => Some(seq![w[1]] + rest),
                None => None,
            }
        }
    } else {
        match applescript_read(w.drop_first()) {
            Some(rest) => Some(seq![w[0]] + rest),
            None => None,
        }
    }
}

proof fn lemma_applescript_tail(s: Seq<char>)
    ensures
        applescript_read(
            replace_seq(replace_seq(s, seq!['\\'], seq!['\\', '\\']), seq!['"'], seq!['\\', '"'])
                + seq!['"'],
        ) == Some(s),
    decreases s.len(),
{
    let b = seq!['\\'];
    let bb = seq!['\\', '\\'];
    let d = seq!['"'];
    let bd = seq!['\\', '"'];
    if s.len() == 0 {
        assert(replace_seq(s, b, bb) =~= Seq::<char>::empty());
        assert(replace_seq(Seq::<char>::empty(), d, bd) =~= Seq::<char>::empty());
        assert(Seq::<char>::empty() + d =~= d);
        assert(s =~= Seq::<char>::empty());
    } else {
        let t = s.drop_first();
        assert(s =~= seq![s[0]] + t);
        lemma_replace_cons(s[0], t, '\\', bb);
        let h1 = if s[0] == '\\' {
            bb
        } else {
            seq![s[0]]
        };
        let e1t = replace_seq(t, b, bb);
        lemma_replace_append(h1, e1t, '"', bd);
        lemma_applescript_tail(t);
        let tail = replace_seq(e1t, d, bd) + d;
        if s[0] == '\\' {
            lemma_replace_cons('\\', seq!['\\'], '"', bd);
            lemma_replace_cons('\\', Seq::<char>::empty(), '"', bd);
            assert(replace_seq(Seq::<char>::empty(), d, bd) =~= Seq::<char>::empty());
            assert(seq!['\\'] =~= seq!['\\'] + Seq::<char>::empty());
            assert(bb =~= seq!['\\'] + seq!['\\']);
            assert(replace_seq(bb, d, bd) =~= bb);
            let w = bb + tail;
            assert(replace_seq(replace_seq(s, b, bb), d, bd) + d =~= w);
            assert(w.skip(2) =~= tail);
        } else {
            lemma_replace_cons(s[0], Seq::<char>::empty(), '"', bd);
            assert(replace_seq(Seq::<char>::empty(), d, bd) =~= Seq::<char>::empty());
            assert(seq![s[0]] =~= seq![s[0]] + Seq::<char>::empty());
            if s[0] == '"' {
                assert(replace_seq(seq![s[0]], d, bd) =~= bd);
                let w = bd + tail;
                assert(replace_seq(replace_seq(s, b, bb), d, bd) + d =~= w);
                assert(w.skip(2) =~= tail);
            } else {
                assert(replace_seq(seq![s[0]], d, bd) =~= seq![s[0]]);
                let w = seq![s[0]] + tail;
                assert(replace_seq(replace_seq(s, b, bb), d, bd) + d =~= w);
                assert(w.drop_first() =~= tail);
            }
        }
    }
}

/// A text quoted by [`applescript_quote`] reads back, as an AppleScript
/// string literal, as the text it was given.
pub proof fn lemma_applescript_quote_reads_back(s: Seq<char>)
    ensures
        applescript_quote_spec(s)[0] == '"',
        applescript_read(applescript_quote_spec(s).drop_first()) == Some(s),
{
    reveal_strlit("\"");
    reveal_strlit("\\");
    reveal_strlit("\\\\");
    reveal_strlit("\\\"");
    assert("\""@ =~= seq!['"']);
    assert("\\"@ =~= seq!['\\']);
    assert("\\\\"@ =~= seq!['\\', '\\']);
    assert("\\\""@ =~= seq!['\\', '"']);
    let inner = replace_seq(replace_seq(s, seq!['\\'], seq!['\\', '\\']), seq!['"'], seq!['\\', '"']);
    let w = applescript_quote_spec(s);
    assert(w =~= seq!['"'] + (inner + seq!['"']));
    assert(w.drop_first() =~= inner + seq!['"']);
    lemma_applescript_tail(s);
}

/// How PowerShell reads a comma-separated list of single-quoted strings,
/// from the given state: inside quotes two single quotes stand for one, a
/// lone single quote closes the string, any other character stands for
/// itself; outside quotes a single quote opens a string, a comma separates
/// and anything else is not part of such a list (`None`).
pub open spec fn ps_split(w: Seq<char>, quoted: bool, cur: Seq<char>, items: Seq<Seq<char>>) -> Option<
    Seq<Seq<char>>,
>
    decreases w.len(),
{
    if w.len() == 0 {
        if quoted {
            None
        } else {
            Some(items)
        }
    } else if quoted {
        if w[0] == '\'' {
            if w.len() >= 2 && w[1] == '\'' {
                ps_split(w.skip(2), true, cur.push('\''), items)
            } else {
                ps_split(w.drop_first(), false, Seq::empty(), items.push(cur))
            }
        } else {
            ps_split(w.drop_first(), true, cur.push(w[0]), items)
        }
    } else if w[0] == '\'' {
        ps_split(w.drop_first(), true, Seq::empty(), items)
    } else if w[0] == ',' {
        ps_split(w.drop_first(), false, cur, items)
    } else {
        None
    }
}

/// Where the quoted list can go on after a string: at its end or at a
/// comma.
pub open spec fn ps_list_goes_on(rest: Seq<char>) -> bool {
    rest.len() == 0 || rest[0] == ','
}

proof fn lemma_ps_quoted_body(s: Seq<char>, rest: Seq<char>, cur: Seq<char>, items: Seq<Seq<char>>)
    requires
        ps_list_goes_on(rest),
    ensures
        ps_split(replace_seq(s, seq!['\''], seq!['\'', '\'']) + seq!['\''] + rest, true, cur, items)
            == ps_split(rest, false, Seq::empty(), items.push(cur + s)),
    decreases s.len(),
{
    let q = seq!['\''];
    let qq = seq!['\'', '\''];
    if s.len() == 0 {
        assert(replace_seq(s, q, qq) =~= Seq::<char>::empty());
        let w = replace_seq(s, q, qq) + q + rest;
        assert(w =~= seq!['\''] + rest);
        assert(w.drop_first() =~= rest);
        if w.len() >= 2 {
            assert(w[1] == rest[0]);
        }
        assert(cur + s =~= cur);
    } else {
        let t = s.drop_first();
        assert(s =~= seq![s[0]] + t);
        lemma_replace_cons(s[0], t, '\'', qq);
        let rt = replace_seq(t, q, qq) + q + rest;
        if s[0] == '\'' {
            lemma_ps_quoted_body(t, rest, cur.push('\''), items);
            let w = qq + rt;
            assert(replace_seq(s, q, qq) + q + rest =~= w);
            assert(w.skip(2) =~= rt);
            assert(cur.push('\'') + t =~= cur + s);
        } else {
            lemma_ps_quoted_body(t, rest, cur.push(s[0]), items);
            let w = seq![s[0]] + rt;
            assert(replace_seq(s, q, qq) + q + rest =~= w);
            assert(w.drop_first() =~= rt);
            assert(cur.push(s[0]) + t =~= cur + s);
        }
    }
}

proof fn lemma_ps_quoted(s: Seq<char>, rest: Seq<char>, items: Seq<Seq<char>>)
    requires
        ps_list_goes_on(rest),
    ensures
        ps_split(ps_quote_spec(s) + rest, false, Seq::empty(), items) == ps_split(
            rest,
            false,
            Seq::empty(),
            items.push(s),
        ),
{
    reveal_strlit("'");
    reveal_strlit("''");
    assert("'"@ =~= seq!['\'']);
    assert("''"@ =~= seq!['\'', '\'']);
    let body = replace_seq(s, seq!['\''], seq!['\'', '\'']) + seq!['\''] + rest;
    let w = ps_quote_spec(s) + rest;
    assert(w =~= seq!['\''] + body);
    assert(w.drop_first() =~= body);
    lemma_ps_quoted_body(s, rest, Seq::empty(), items);
    assert(Seq::<char>::empty() + s =~= s);
}

proof fn lemma_ps_list_prefix(args: Seq<Seq<char>>, rest: Seq<char>, items: Seq<Seq<char>>)
    requires
        ps_list_goes_on(rest),
    ensures
        ps_split(ps_list(args) + rest, false, Seq::empty(), items) == ps_split(
            rest,
            false,
            Seq::empty(),
            items + args,
        ),
    decreases args.len(),
{
    reveal_strlit(",");
    assert(","@ =~= seq![',']);
    if args.len() == 0 {
        assert(ps_list(args) + rest =~= rest);
        assert(items + args =~= items);
    } else if args.len() == 1 {
        lemma_ps_quoted(args[0], rest, items);
        assert(items.push(args[0]) =~= items + args);
    } else {
        let a = args.drop_last();
        let tail = ","@ + ps_quote_spec(args.last()) + rest;
        assert(ps_list(args) + rest =~= ps_list(a) + tail);
        lemma_ps_list_prefix(a, tail, items);
        assert(tail.drop_first() =~= ps_quote_spec(args.last()) + rest);
        lemma_ps_quoted(args.last(), rest, items + a);
        assert((items + a).push(args.last()) =~= items + args);
    }
}

/// The `-ArgumentList` that [`elevated_command`] gives PowerShell on
/// Windows reads back as exactly the writer's arguments, whatever
/// characters they hold.
pub proof fn lemma_ps_list_reads_back(args: Seq<Seq<char>>)
    ensures
        ps_split(ps_list(args), false, Seq::empty(), Seq::empty()) == Some(args),
{
    lemma_ps_list_prefix(args, Seq::empty(), Seq::empty());
    assert(ps_list(args) + Seq::<char>::empty() =~= ps_list(args));
    assert(Seq::<Seq<char>>::empty() + args =~= args);
}

/// How PowerShell reads the rest of a single-quoted string whose opening
/// quote is behind it: two single quotes stand for one, a lone single quote
/// closes the string, any other character stands for itself. The result is
/// the string's text and what follows the closing quote (`None` when the
/// string is never closed).
pub open spec fn ps_literal_from(w: Seq<char>, cur: Seq<char>) -> Option<(Seq<char>, Seq<char>)>
    decreases w.len(),
{
    if w.len() == 0 {
        None
    } else if w[0] == '\'' {
        if w.len() >= 2 && w[1] == '\'' {
            ps_literal_from(w.skip(2), cur.push('\''))
        } else {
            Some((cur, w.drop_first()))
        }
    } else {
        ps_literal_from(w.drop_first(), cur.push(w[0]))
    }
}

/// How PowerShell reads a single-quoted string at the start of `w`: its
/// text and what follows it.
pub open spec fn ps_literal(w: Seq<char>) -> Option<(Seq<char>, Seq<char>)> {
    if w.len() > 0 && w[0] == '\'' {
        ps_literal_from(w.drop_first(), Seq::empty())
    } else {
        None
    }
}

proof fn lemma_ps_literal_body(s: Seq<char>, rest: Seq<char>, cur: Seq<char>)
    requires
        rest.len() == 0 || rest[0] != '\'',
    ensures
        ps_literal_from(replace_seq(s, seq!['\''], seq!['\'', '\'']) + seq!['\''] + rest, cur) == Some(
            (cur + s, rest),
        ),
    decreases s.len(),
{
    let q = seq!['\''];
    let qq = seq!['\'', '\''];
    if s.len() == 0 {
        assert(replace_seq(s, q, qq) =~= Seq::<char>::empty());
        let w = replace_seq(s, q, qq) + q + rest;
        assert(w =~= seq!['\''] + rest);
        assert(w.drop_first() =~= rest);
        if w.len() >= 2 {
            assert(w[1] == rest[0]);
        }
        assert(cur + s =~= cur);
    } else {
        let t = s.drop_first();
        assert(s =~= seq![s[0]] + t);
        lemma_replace_cons(s[0], t, '\'', qq);
        let rt = replace_seq(t, q, qq) + q + rest;
        if s[0] == '\'' {
            lemma_ps_literal_body(t, rest, cur.push('\''));
            let w = qq + rt;
            assert(replace_seq(s, q, qq) + q + rest =~= w);
            assert(w.skip(2) =~= rt);
            assert(cur.push('\'') + t =~= cur + s);
        } else {
            lemma_ps_literal_body(t, rest, cur.push(s[0]));
            let w = seq![s[0]] + rt;
            assert(replace_seq(s, q, qq) + q + rest =~= w);
            assert(w.drop_first() =~= rt);
            assert(cur.push(s[0]) + t =~= cur + s);
        }
    }
}

/// On Windows the writer is started with the imager's own executable,
/// whatever characters its path holds: the `-Command` that PowerShell runs
/// begins `$p = Start-Process -FilePath `, and what follows reads, as a
/// PowerShell single-quoted string, as exactly the executable's path,
/// followed by ` -ArgumentList `.
pub proof fn lemma_windows_file_path_reads_back(inv: WorkerInvocation, appimage: Option<Seq<char>>)
    ensures
        ({
            let cmd = elevated_spec(inv, Platform::Windows, appimage).1[3];
            let head = "$p = Start-Process -FilePath "@;
            &&& elevated_spec(inv, Platform::Windows, appimage).0 == "powershell"@
            &&& elevated_spec(inv, Platform::Windows, appimage).1.len() == 4
            &&& elevated_spec(inv, Platform::Windows, appimage).1[2] == "-Command"@
            &&& cmd.len() >= head.len()
            &&& cmd.take(head.len() as int) == head
            &&& ps_literal(cmd.skip(head.len() as int)) matches Some((text, after)) && text == inv.exe@
                && after.len() >= 15 && after.take(15) == " -ArgumentList "@
        }),
{
    reveal_strlit("$p = Start-Process -FilePath '");
    reveal_strlit("$p = Start-Process -FilePath ");
    reveal_strlit("' -ArgumentList ");
    reveal_strlit(" -ArgumentList ");
    reveal_strlit("'");
    reveal_strlit("''");
    let argv = inv.argv_spec();
    let head = "$p = Start-Process -FilePath "@;
    let tail = " -ArgumentList "@ + ps_list(argv) + " -Verb RunAs -Wait -PassThru; exit $p.ExitCode"@;
    let body = replace_seq(inv.exe@, "'"@, "''"@);
    let cmd = elevated_spec(inv, Platform::Windows, appimage).1[3];
    assert("'"@ =~= seq!['\'']);
    assert("''"@ =~= seq!['\'', '\'']);
    assert("$p = Start-Process -FilePath '"@ =~= head + seq!['\'']);
    assert("' -ArgumentList "@ =~= seq!['\''] + " -ArgumentList "@);
    assert(cmd =~= head + (seq!['\''] + (body + seq!['\''] + tail)));
    assert(cmd.take(head.len() as int) =~= head);
    let w = cmd.skip(head.len() as int);
    assert(w =~= seq!['\''] + (body + seq!['\''] + tail));
    assert(w.drop_first() =~= body + seq!['\''] + tail);
    assert(tail[0] == ' ');
    lemma_ps_literal_body(inv.exe@, tail, Seq::empty());
    assert(Seq::<char>::empty() + inv.exe@ =~= inv.exe@);
    assert(tail.take(15) =~= " -ArgumentList "@);
}

/// The writer is started with exactly its command line on every platform:
/// on Linux `pkexec` runs the imager's executable (or the AppImage, when
/// the imager runs from one) with the writer's arguments; on macOS the
/// AppleScript literal handed to `do shell script` reads back as a shell
/// command that splits into the executable and the writer's arguments; on
/// Windows the `-ArgumentList` handed to `Start-Process` reads back as the
/// writer's arguments.
pub proof fn lemma_elevated_starts_writer(inv: WorkerInvocation, appimage: Option<Seq<char>>)
    ensures
        ({
            let (program, args) = elevated_spec(inv, Platform::Linux, appimage);
            let argv = inv.argv_spec();
            &&& program == "pkexec"@
            &&& args.len() >= argv.len() + 1
            &&& args.skip(args.len() - argv.len()) == argv
            &&& (appimage is None || appimage->0.len() == 0) ==> args[0] == inv.exe@
                && args.len() == argv.len() + 1
        }),
        ({
            let (program, args) = elevated_spec(inv, Platform::MacOs, appimage);
            let head = "do shell script "@;
            let tail = " with administrator privileges"@;
            let script = args[1];
            let lit = script.subrange(head.len() as int, script.len() - tail.len());
            &&& program == "osascript"@
            &&& args.len() == 2
            &&& args[0] == "-e"@
            &&& script == head + lit + tail
            &&& lit.len() > 0 && lit[0] == '"'
            &&& applescript_read(lit.drop_first()) matches Some(w) && sh_words(w) == Some(
                seq![inv.exe@] + inv.argv_spec(),
            )
        }),
        ({
            let cmd = elevated_spec(inv, Platform::Windows, appimage).1[3];
            let head = "$p = Start-Process -FilePath "@;
            let suffix = " -Verb RunAs -Wait -PassThru; exit $p.ExitCode"@;
            &&& ps_literal(cmd.skip(head.len() as int)) matches Some((text, after)) && {
                let list = after.subrange(15, after.len() - suffix.len());
                &&& after == " -ArgumentList "@ + list + suffix
                &&& ps_split(list, false, Seq::empty(), Seq::empty()) == Some(inv.argv_spec())
            }
        }),
{
    let argv = inv.argv_spec();
    reveal_strlit("pkexec");
    let (lp, la) = elevated_spec(inv, Platform::Linux, appimage);
    match appimage {
        Some(a) if a.len() > 0 => {
            assert(la.skip(la.len() - argv.len()) =~= argv);
        },
        _ => {
            assert(la.skip(la.len() - argv.len()) =~= argv);
        },
    }
    let head = "do shell script "@;
    let tail = " with administrator privileges"@;
    let q = applescript_quote_spec(shell_words(inv.exe@, argv));
    let script = elevated_spec(inv, Platform::MacOs, appimage).1[1];
    reveal_strlit("osascript");
    reveal_strlit("-e");
    reveal_strlit("do shell script ");
    reveal_strlit(" with administrator privileges");
    assert(script == head + q + tail);
    let lit = script.subrange(head.len() as int, script.len() - tail.len());
    assert(lit =~= q);
    reveal_strlit("\"");
    assert(q.len() > 0);
    assert(script =~= head + lit + tail);
    lemma_applescript_quote_reads_back(shell_words(inv.exe@, argv));
    lemma_shell_words_read_back(inv.exe@, argv);
    lemma_windows_file_path_reads_back(inv, appimage);
    reveal_strlit("' -ArgumentList ");
    reveal_strlit(" -ArgumentList ");
    reveal_strlit("'");
    reveal_strlit("''");
    reveal_strlit("$p = Start-Process -FilePath '");
    reveal_strlit("$p = Start-Process -FilePath ");
    let whead = "$p = Start-Process -FilePath "@;
    let suffix = " -Verb RunAs -Wait -PassThru; exit $p.ExitCode"@;
    let wtail = " -ArgumentList "@ + ps_list(argv) + suffix;
    let body = replace_seq(inv.exe@, "'"@, "''"@);
    let cmd = elevated_spec(inv, Platform::Windows, appimage).1[3];
    assert("'"@ =~= seq!['\'']);
    assert("''"@ =~= seq!['\'', '\'']);
    assert("$p = Start-Process -FilePath '"@ =~= whead + seq!['\'']);
    assert("' -ArgumentList "@ =~= seq!['\''] + " -ArgumentList "@);
    assert(cmd =~= whead + (seq!['\''] + (body + seq!['\''] + wtail)));
    let w = cmd.skip(whead.len() as int);
    assert(w =~= seq!['\''] + (body + seq!['\''] + wtail));
    assert(w.drop_first() =~= body + seq!['\''] + wtail);
    lemma_ps_literal_body(inv.exe@, wtail, Seq::empty());
    assert(" -ArgumentList "@.len() == 15);
    assert(wtail.subrange(15, wtail.len() - suffix.len()) =~= ps_list(argv));
    lemma_ps_list_reads_back(argv);
}

} // verus!
