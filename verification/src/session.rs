//! The imager's side of a flash: where the writer's files go, following the
//! progress the writer reports, and deciding how the flash ended.
use vstd::prelude::*;

use crate::elevate::{classify_exit, classify_exit_spec};
use crate::text::{chars_of, concat, lines, lines_seq, lossy_utf8, opt_view, same, string_of, trim, trim_seq, utf8_lossy, views};

verus! {

/// The cancel file of the flash under way, if any.
pub struct FlashState {
    cancel_file: Option<String>,
}

impl FlashState {
    /// The cancel file that a cancel request should create.
    pub closed spec fn target(&self) -> Option<Seq<char>> {
        match self.cancel_file {
            Some(p) => Some(p@),
            None => None,
        }
    }

    pub fn new() -> (res: FlashState)
        ensures
            res.target() is None,
    {
        FlashState { cancel_file: None }
    }

    /// A flash has started that watches for `cancel_file`.
    pub fn arm(&mut self, cancel_file: String)
        ensures
            final(self).target() == Some(cancel_file@),
    {
        self.cancel_file = Some(cancel_file);
    }

    /// No flash is under way any more.
    pub fn disarm(&mut self)
        ensures
            final(self).target() is None,
    {
        self.cancel_file = None;
    }

    /// The file whose creation cancels the flash under way.
    pub fn cancel_target(&self) -> (res: Option<String>)
        ensures
            match res {
                Some(p) => self.target() == Some(p@),
                None => self.target() is None,
            },
    {
        match &self.cancel_file {
            Some(p) => Some(p.clone()),
            None => None,
        }
    }
}

impl Default for FlashState {
    fn default() -> (res: FlashState)
        ensures
            res.target() is None,
    {
        FlashState::new()
    }
}

/// The last line of `ls` that holds more than white space.
pub open spec fn last_nonempty(ls: Seq<Seq<char>>) -> Option<Seq<char>>
    decreases ls.len(),
{
    if ls.len() == 0 {
        None
    } else if trim_seq(ls.last()).len() > 0 {
        Some(ls.last())
    } else {
        last_nonempty(ls.drop_last())
    }
}

pub open spec fn last_nonempty_line_spec(content: Seq<char>) -> Option<Seq<char>> {
    last_nonempty(lines_seq(content))
}

/// The last line of `content` that holds more than white space.
pub fn last_nonempty_line(content: &str) -> (res: Option<String>)
    ensures
        match res {
            Some(l) => last_nonempty_line_spec(content@) == Some(l@),
            None => last_nonempty_line_spec(content@) is None,
        },
{
    let ls = lines(&chars_of(content));
    let ghost lv = views(ls@);
    let mut i = ls.len();
    assert(lv.take(i as int) =~= lv);
    while i > 0
        invariant
            i <= ls.len(),
            lv == views(ls@),
            lv.len() == ls@.len(),
            lv == lines_seq(content@),
            last_nonempty(lv) == last_nonempty(lv.take(i as int)),
        decreases i,
    {
        let ghost t = lv.take(i as int);
        proof {
            assert(t.last() == ls@[i - 1]@);
            assert(t.drop_last() =~= lv.take(i - 1));
        }
        if trim(&ls[i - 1]).len() > 0 {
            return Some(string_of(&ls[i - 1]));
        }
        i = i - 1;
    }
    None
}

/// The progress line to pass on: the last non-empty line of the progress
/// file, when it differs from the line passed on before.
pub fn next_progress_line(content: &str, last_passed: &str) -> (res: Option<String>)
    ensures
        match last_nonempty_line_spec(content@) {
            Some(l) => if l == last_passed@ {
                res is None
            } else {
                res matches Some(r) && r@ == l
            },
            None => res is None,
        },
{
    match last_nonempty_line(content) {
        Some(l) => {
            if same(&chars_of(l.as_str()), &chars_of(last_passed)) {
                None
            } else {
                Some(l)
            }
        },
        None => None,
    }
}

/// The members of the writer's last progress record that decide the end of
/// a flash.
pub struct TerminalRecord {
    pub phase: Option<String>,
    pub message: Option<String>,
}

impl View for TerminalRecord {
    type V = (Option<Seq<char>>, Option<Seq<char>>);

    open spec fn view(&self) -> (Option<Seq<char>>, Option<Seq<char>>) {
        (opt_view(self.phase), opt_view(self.message))
    }
}

/// The view of an optional record.
pub open spec fn record_view(r: Option<TerminalRecord>) -> Option<(Option<Seq<char>>, Option<Seq<char>>)> {
    match r {
        Some(t) => Some(t@),
        None => None,
    }
}

/// What `serde_json` makes of a progress line: `None` when it is not JSON;
/// else its `phase` and `message` members where they are strings.
pub uninterp spec fn terminal_json(line: Seq<char>) -> Option<(Option<Seq<char>>, Option<Seq<char>>)>;

/// `serde_json::from_str::<serde_json::Value>`, then `get` of `phase` and
/// `message` with `as_str`; the contract claims only that the result is
/// what [`terminal_json`] names for the line.
#[verifier::external_body]
fn decode_terminal(line: &str) -> (res: Option<TerminalRecord>)
    ensures
        record_view(res) == terminal_json(line@),
{
    let v: serde_json::Value = serde_json::from_str(line).ok()?;
    let text = |k: &str| v.get(k).and_then(|m| m.as_str()).map(String::from);
    Some(TerminalRecord { phase: text("phase"), message: text("message") })
}

/// The writer's last progress record in the progress file, if it is JSON.
pub open spec fn terminal_spec(progress: Option<Seq<char>>) -> Option<(Option<Seq<char>>, Option<Seq<char>>)> {
    match progress {
        Some(c) => match last_nonempty_line_spec(c) {
            Some(l) => terminal_json(l),
            None => None,
        },
        None => None,
    }
}

/// How a flash ended, given the writer's last progress record and the text
/// of its error output: the record decides when it says the flash completed
/// (with a successful exit) or failed (with its message, or a stock one);
/// otherwise the exit status decides.
pub open spec fn outcome_from(
    terminal: Option<(Option<Seq<char>>, Option<Seq<char>>)>,
    success: bool,
    code: Option<i32>,
    err: Seq<char>,
) -> Result<(), Seq<char>> {
    let by_exit = match classify_exit_spec(code, err) {
        None => Ok(()),
        Some(m) => Err(m),
    };
    match terminal {
        Some((phase, message)) => match phase {
            Some(p) => if p == "complete"@ && success {
                Ok(())
            } else if p == "failed"@ {
                match message {
                    Some(m) => Err(m),
                    None => Err("Write failed"@),
                }
            } else {
                by_exit
            },
            None => by_exit,
        },
        None => by_exit,
    }
}

/// How a flash ended, from the content of the progress file and the bytes
/// of the writer's error output.
pub open spec fn outcome_spec(
    progress: Option<Seq<char>>,
    success: bool,
    code: Option<i32>,
    stderr: Seq<u8>,
) -> Result<(), Seq<char>> {
    outcome_from(terminal_spec(progress), success, code, lossy_utf8(stderr))
}

/// Decides how a flash ended, from the writer's last progress record, its
/// exit status and the text of its error output.
pub fn outcome_of(terminal: &Option<TerminalRecord>, success: bool, code: Option<i32>, err: &str) -> (res:
    Result<(), String>)
    ensures
        match res {
            Ok(()) => outcome_from(record_view(*terminal), success, code, err@) == Ok::<(), Seq<char>>(()),
            Err(m) => outcome_from(record_view(*terminal), success, code, err@) == Err::<(), Seq<char>>(m@),
        },
{
    match terminal {
        Some(t) => match &t.phase {
            Some(p) => {
                let pc = chars_of(p.as_str());
                if same(&pc, &chars_of("complete")) && success {
                    return Ok(());
                } else if same(&pc, &chars_of("failed")) {
                    return match &t.message {
                        Some(m) => Err(m.clone()),
                        None => Err(String::from_str("Write failed")),
                    };
                }
            },
            None => {},
        },
        None => {},
    }
    match classify_exit(code, err) {
        None => Ok(()),
        Some(m) => Err(m),
    }
}

/// Decides how a flash ended, from the content of the progress file (`None`
/// when it could not be read) and the writer's exit status and error output.
pub fn flash_outcome(progress: &Option<String>, success: bool, code: Option<i32>, stderr: &[u8]) -> (res:
    Result<(), String>)
    ensures
        match res {
            Ok(()) => outcome_spec(opt_view(*progress), success, code, stderr@) == Ok::<(), Seq<char>>(()),
            Err(m) => outcome_spec(opt_view(*progress), success, code, stderr@) == Err::<(), Seq<char>>(m@),
        },
{
    let terminal = match progress {
        Some(c) => match last_nonempty_line(c.as_str()) {
            Some(l) => decode_terminal(l.as_str()),
            None => None,
        },
        None => None,
    };
    let err = utf8_lossy(stderr);
    outcome_of(&terminal, success, code, err.as_str())
}

/// The character of a decimal digit.
pub open spec fn digit_char(d: nat) -> char {
    if d == 0 {
        '0'
    } else if d == 1 {
        '1'
    } else if d == 2 {
        '2'
    } else if d == 3 {
        '3'
    } else if d == 4 {
        '4'
    } else if d == 5 {
        '5'
    } else if d == 6 {
        '6'
    } else if d == 7 {
        '7'
    } else if d == 8 {
        '8'
    } else {
        '9'
    }
}

/// `n` in decimal, as `{}` formats it.
pub open spec fn decimal(n: nat) -> Seq<char>
    decreases n,
{
    if n < 10 {
        seq![digit_char(n)]
    } else {
        decimal(n / 10) + seq![digit_char(n % 10)]
    }
}

fn digit(d: u128) -> (c: char)
    requires
        d < 10,
    ensures
        c == digit_char(d as nat),
{
    if d == 0 {
        '0'
    } else if d == 1 {
        '1'
    } else if d == 2 {
        '2'
    } else if d == 3 {
        '3'
    } else if d == 4 {
        '4'
    } else if d == 5 {
        '5'
    } else if d == 6 {
        '6'
    } else if d == 7 {
        '7'
    } else if d == 8 {
        '8'
    } else {
        '9'
    }
}

pub fn decimal_text(n: u128) -> (res: Vec<char>)
    ensures
        res@ == decimal(n as nat),
    decreases n,
{
    if n < 10 {
        let mut v: Vec<char> = Vec::new();
        v.push(digit(n));
        assert(v@ =~= seq![digit_char(n as nat)]);
        v
    } else {
        let mut v = decimal_text(n / 10);
        let ghost before = v@;
        v.push(digit(n % 10));
        assert(v@ =~= before + seq![digit_char((n % 10) as nat)]);
        v
    }
}

/// The stamp that keeps one flash's files apart from another's: the process
/// id and the time in nanoseconds, joined by a hyphen.
pub fn unique_stamp_text(pid: u32, nanos: u128) -> (res: String)
    ensures
        res@ == decimal(pid as nat) + "-"@ + decimal(nanos as nat),
{
    string_of(&concat(&concat(&decimal_text(pid as u128), &chars_of("-")), &decimal_text(nanos)))
}

/// The name of the directory that holds one flash's progress and cancel
/// files.
pub fn work_dir_name(stamp: &str) -> (res: String)
    ensures
        res@ == "arcader-imager-"@ + stamp@,
{
    string_of(&concat(&chars_of("arcader-imager-"), &chars_of(stamp)))
}

proof fn lemma_decimal_digits(n: nat)
    ensures
        decimal(n).len() >= 1,
        n >= 10 ==> decimal(n).len() >= 2,
        forall|i: int| 0 <= i < decimal(n).len() ==> #[trigger] decimal(n)[i] != '-',
    decreases n,
{
    if n >= 10 {
        lemma_decimal_digits(n / 10);
        let d = decimal(n);
        assert forall|i: int| 0 <= i < d.len() implies #[trigger] d[i] != '-' by {
            if i < decimal(n / 10).len() {
                assert(d[i] == decimal(n / 10)[i]);
            }
        }
    }
}

proof fn lemma_decimal_injective(n: nat, m: nat)
    requires
        decimal(n) == decimal(m),
    ensures
        n == m,
    decreases n,
{
    lemma_decimal_digits(n);
    lemma_decimal_digits(m);
    if n >= 10 && m >= 10 {
        let d = decimal(n);
        assert(d.last() == digit_char(n % 10));
        assert(decimal(m).last() == digit_char(m % 10));
        assert(d.drop_last() =~= decimal(n / 10));
        assert(decimal(m).drop_last() =~= decimal(m / 10));
        lemma_decimal_injective(n / 10, m / 10);
        lemma_digit_char_injective(n % 10, m % 10);
    } else if n < 10 && m < 10 {
        assert(decimal(n)[0] == digit_char(n));
        assert(decimal(m)[0] == digit_char(m));
        lemma_digit_char_injective(n, m);
    }
}

proof fn lemma_digit_char_injective(a: nat, b: nat)
    requires
        a < 10,
        b < 10,
        digit_char(a) == digit_char(b),
    ensures
        a == b,
{
}

/// Flashes stamped with different process ids or times get different work
/// directories: a work directory's name gives back the process id and the
/// time it was made from.
pub proof fn lemma_stamps_apart(pid: nat, nanos: nat, other_pid: nat, other_nanos: nat)
    requires
        "arcader-imager-"@ + (decimal(pid) + "-"@ + decimal(nanos)) == "arcader-imager-"@ + (decimal(
            other_pid,
        ) + "-"@ + decimal(other_nanos)),
    ensures
        pid == other_pid,
        nanos == other_nanos,
{
    reveal_strlit("-");
    let head = "arcader-imager-"@;
    let a = decimal(pid) + "-"@ + decimal(nanos);
    let b = decimal(other_pid) + "-"@ + decimal(other_nanos);
    assert(a =~= (head + a).skip(head.len() as int));
    assert(b =~= (head + b).skip(head.len() as int));
    lemma_decimal_digits(pid);
    lemma_decimal_digits(other_pid);
    let la = decimal(pid).len() as int;
    let lb = decimal(other_pid).len() as int;
    assert(a[la] == '-');
    assert(b[lb] == '-');
    if la < lb {
        assert(b[la] == decimal(other_pid)[la]);
    } else if lb < la {
        assert(a[lb] == decimal(pid)[lb]);
    }
    assert(la == lb);
    assert(decimal(pid) =~= a.take(la));
    assert(decimal(other_pid) =~= b.take(lb));
    lemma_decimal_injective(pid, other_pid);
    assert(decimal(nanos) =~= a.skip(la + 1));
    assert(decimal(other_nanos) =~= b.skip(lb + 1));
    lemma_decimal_injective(nanos, other_nanos);
}

/// Whether the program was started as the privileged writer: its first
/// argument after the program name is `flash-worker`.
pub fn is_worker_invocation(args: &[String]) -> (r: bool)
    ensures
        r == (args@.len() > 1 && args@[1]@ == "flash-worker"@),
{
    args.len() > 1 && same(&chars_of(args[1].as_str()), &chars_of("flash-worker"))
}

} // verus!
