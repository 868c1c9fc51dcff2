//! Properties that tie several parts of the library together.
use vstd::prelude::*;

use crate::elevate::{classify_exit_spec, WorkerInvocation};
use crate::json::one_object_line;
use crate::session::{last_nonempty, last_nonempty_line_spec, outcome_spec, terminal_spec};
use crate::text::{is_space, lemma_lines_after_whole_lines, lines_seq, strip_cr, trim_end_seq, trim_seq, trim_start_seq};
use crate::worker::{ends_run, exit_code_spec, exit_record, WorkerExit};
use crate::worker::{parse_spec, scan_flags, no_flags, ScannedFlags, WorkerArgsModel};

verus! {

/// The writer reads back exactly what the imager put on its command line:
/// the arguments after the `flash-worker` word parse to the invocation's
/// source, device, verify flag, progress file and cancel file, whatever
/// those values are.
pub proof fn lemma_argv_parses_back(inv: WorkerInvocation)
    ensures
        parse_spec(inv.argv_spec().drop_first()) == Ok::<WorkerArgsModel, Seq<char>>(
            WorkerArgsModel {
                source: inv.source@,
                device: inv.device@,
                verify: inv.verify,
                progress: inv.progress@,
                cancel: inv.cancel@,
            },
        ),
{
    reveal_strlit("--source");
    reveal_strlit("--device");
    reveal_strlit("--verify");
    reveal_strlit("--progress");
    reveal_strlit("--cancel");
    reveal_strlit("true");
    reveal_strlit("false");
    let a = inv.argv_spec().drop_first();
    let v = if inv.verify {
        "true"@
    } else {
        "false"@
    };
    assert(a =~= seq![
        "--source"@,
        inv.source@,
        "--device"@,
        inv.device@,
        "--verify"@,
        v,
        "--progress"@,
        inv.progress@,
        "--cancel"@,
        inv.cancel@,
    ]);
    assert("false"@.len() != "true"@.len());
    assert(v == "true"@ <==> inv.verify);
    assert("--device"@[2] != "--source"@[2]);
    assert("--verify"@[2] != "--source"@[2]);
    assert("--verify"@[2] != "--device"@[2]);
    assert("--progress"@.len() != "--source"@.len());
    assert("--progress"@.len() != "--device"@.len());
    assert("--progress"@.len() != "--verify"@.len());
    assert("--cancel"@[2] != "--source"@[2]);
    assert("--cancel"@[2] != "--device"@[2]);
    assert("--cancel"@[2] != "--verify"@[2]);
    assert("--cancel"@.len() != "--progress"@.len());
    let f1 = ScannedFlags { source: Some(inv.source@), ..no_flags() };
    let f2 = ScannedFlags { device: Some(inv.device@), ..f1 };
    let f3 = ScannedFlags { verify: inv.verify, ..f2 };
    let f4 = ScannedFlags { progress: Some(inv.progress@), ..f3 };
    let f5 = ScannedFlags { cancel: Some(inv.cancel@), ..f4 };
    assert(scan_flags(a, 10, f5) == f5);
    assert(scan_flags(a, 8, f4) == scan_flags(a, 10, f5));
    assert(scan_flags(a, 6, f3) == scan_flags(a, 8, f4));
    assert(scan_flags(a, 4, f2) == scan_flags(a, 6, f3));
    assert(scan_flags(a, 2, f1) == scan_flags(a, 4, f2));
    assert(scan_flags(a, 0, no_flags()) == scan_flags(a, 2, f1));
}

/// The imager reads the writer's exit status the way the writer meant it:
/// success is seen as success, a cancelled run as cancelled, and any other
/// failure as a failure.
pub proof fn lemma_exit_status_understood(result: Result<(), Seq<char>>, stderr: Seq<char>)
    ensures
        result is Ok ==> classify_exit_spec(Some(exit_code_spec(result)), stderr) is None,
        result == Err::<(), Seq<char>>("Cancelled"@) ==> classify_exit_spec(
            Some(exit_code_spec(result)),
            stderr,
        ) == Some("Cancelled"@),
        result is Err ==> classify_exit_spec(Some(exit_code_spec(result)), stderr) is Some,
{
}

/// A one-line JSON object appended to a progress file that holds whole
/// lines is the file's last non-empty line.
proof fn lemma_object_line_is_last(before: Seq<char>, line: Seq<char>)
    requires
        before.len() == 0 || before.last() == '\n',
        one_object_line(line),
    ensures
        last_nonempty_line_spec(before + line + seq!['\n']) == Some(line),
{
    lemma_lines_after_whole_lines(before, line);
    assert(strip_cr(line) == line);
    assert(!is_space('{') && !is_space('}'));
    assert(trim_start_seq(line) == line);
    assert(trim_end_seq(line) == line);
    assert(trim_seq(line).len() > 0);
    let ls = lines_seq(before) + seq![line];
    assert(ls.last() == line);
    assert(last_nonempty(ls) == Some(line));
}

/// The imager learns how the writer's run ended: when the writer appends
/// the line that ends its run with `result` to a progress file holding
/// whole lines and exits with its status, the outcome that the imager
/// decides from that file and that status is `result` itself (success, or
/// the writer's message), whatever the writer printed to its error output.
pub proof fn lemma_writer_end_read_back(
    result: Result<(), Seq<char>>,
    exit: WorkerExit,
    before: Seq<char>,
    stderr: Seq<u8>,
)
    requires
        ends_run(exit, result),
        before.len() == 0 || before.last() == '\n',
    ensures
        match result {
            Ok(()) => outcome_spec(Some(before + exit.line@ + "\n"@), exit.code == 0, Some(exit.code), stderr) is Ok,
            Err(m) => outcome_spec(Some(before + exit.line@ + "\n"@), exit.code == 0, Some(exit.code), stderr)
                == Err::<(), Seq<char>>(m),
        },
{
    reveal_strlit("\n");
    reveal_strlit("complete");
    reveal_strlit("failed");
    assert("\n"@ =~= seq!['\n']);
    lemma_object_line_is_last(before, exit.line@);
    let content = before + exit.line@ + "\n"@;
    assert(terminal_spec(Some(content)) == Some(exit_record(result)));
    assert("failed"@.len() != "complete"@.len());
    match result {
        Ok(()) => {
            assert(exit.code == 0);
            assert(exit_record(result) == (Some("complete"@), None::<Seq<char>>));
        },
        Err(m) => {
            assert(exit.code != 0);
            assert(exit_record(result) == (Some("failed"@), Some(m)));
        },
    }
}

} // verus!
