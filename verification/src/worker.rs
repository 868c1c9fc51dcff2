//! The privileged writer's side: reading its command line and deciding what
//! it reports and with which exit status it ends.
use vstd::prelude::*;

use crate::json::{distinct_names, json_object, json_object_text, member_value, member_views, one_object_line, unescaped};
use crate::session::terminal_json;
use crate::text::{chars_of, concat, opt_view, same, string_of};

verus! {

/// The character sequences held by a list of strings.
pub open spec fn string_views(v: Seq<String>) -> Seq<Seq<char>> {
    v.map_values(|s: String| s@)
}

/// What the writer was asked to do.
pub struct WorkerArgs {
    pub source: String,
    pub device: String,
    pub verify: bool,
    pub progress: String,
    pub cancel: String,
}

/// The mathematical content of [`WorkerArgs`].
pub struct WorkerArgsModel {
    pub source: Seq<char>,
    pub device: Seq<char>,
    pub verify: bool,
    pub progress: Seq<char>,
    pub cancel: Seq<char>,
}

impl View for WorkerArgs {
    type V = WorkerArgsModel;

    open spec fn view(&self) -> WorkerArgsModel {
        WorkerArgsModel {
            source: self.source@,
            device: self.device@,
            verify: self.verify,
            progress: self.progress@,
            cancel: self.cancel@,
        }
    }
}

/// The options seen so far while reading the command line.
pub struct ScannedFlags {
    pub source: Option<Seq<char>>,
    pub device: Option<Seq<char>>,
    pub verify: bool,
    pub progress: Option<Seq<char>>,
    pub cancel: Option<Seq<char>>,
}

/// The argument after position `i`, if there is one.
pub open spec fn arg_after(args: Seq<Seq<char>>, i: int) -> Option<Seq<char>> {
    if 0 <= i + 1 < args.len() {
        Some(args[i + 1])
    } else {
        None
    }
}

/// Reads `args` from position `i` on: each of the five options takes the
/// argument after it as its value (no value when it is the last argument)
/// and reading goes on after that value; any other argument is skipped. A
/// later occurrence of an option replaces an earlier one.
pub open spec fn scan_flags(args: Seq<Seq<char>>, i: int, acc: ScannedFlags) -> ScannedFlags
    decreases args.len() + 1 - i,
{
    if i < 0 || i >= args.len() {
        acc
    } else if args[i] == "--source"@ {
        scan_flags(args, i + 2, ScannedFlags { source: arg_after(args, i), ..acc })
    } else if args[i] == "--device"@ {
        scan_flags(args, i + 2, ScannedFlags { device: arg_after(args, i), ..acc })
    } else if args[i] == "--verify"@ {
        scan_flags(
            args,
            i + 2,
            ScannedFlags { verify: arg_after(args, i) == Some("true"@), ..acc },
        )
    } else if args[i] == "--progress"@ {
        scan_flags(args, i + 2, ScannedFlags { progress: arg_after(args, i), ..acc })
    } else if args[i] == "--cancel"@ {
        scan_flags(args, i + 2, ScannedFlags { cancel: arg_after(args, i), ..acc })
    } else {
        scan_flags(args, i + 1, acc)
    }
}

pub open spec fn no_flags() -> ScannedFlags {
    ScannedFlags { source: None, device: None, verify: false, progress: None, cancel: None }
}

/// The writer's reading of its command line: the options, or the first
/// missing one among source, device, progress file and cancel file.
pub open spec fn parse_spec(args: Seq<Seq<char>>) -> Result<WorkerArgsModel, Seq<char>> {
    let f = scan_flags(args, 0, no_flags());
    if f.source is None {
        Err("missing --source"@)
    } else if f.device is None {
        Err("missing --device"@)
    } else if f.progress is None {
        Err("missing --progress"@)
    } else if f.cancel is None {
        Err("missing --cancel"@)
    } else {
        Ok(
            WorkerArgsModel {
                source: f.source->0,
                device: f.device->0,
                verify: f.verify,
                progress: f.progress->0,
                cancel: f.cancel->0,
            },
        )
    }
}

fn is_flag(arg: &String, flag: &str) -> (r: bool)
    ensures
        r == (arg@ == flag@),
{
    same(&chars_of(arg.as_str()), &chars_of(flag))
}

fn value_after(args: &[String], i: usize) -> (r: Option<String>)
    requires
        i < args.len(),
    ensures
        r matches Some(v) ==> arg_after(string_views(args@), i as int) == Some(v@),
        r is None ==> arg_after(string_views(args@), i as int) is None,
{
    if i + 1 < args.len() {
        Some(args[i + 1].clone())
    } else {
        None
    }
}

/// Reads the writer's command line (the arguments after the
/// `flash-worker` word).
pub fn parse(args: &[String]) -> (res: Result<WorkerArgs, String>)
    ensures
        res matches Ok(a) ==> parse_spec(string_views(args@)) == Ok::<WorkerArgsModel, Seq<char>>(
            a@,
        ),
        res matches Err(e) ==> parse_spec(string_views(args@)) == Err::<WorkerArgsModel, Seq<char>>(
            e@,
        ),
{
    let ghost sargs = string_views(args@);
    let mut source: Option<String> = None;
    let mut device: Option<String> = None;
    let mut verify = false;
    let mut progress: Option<String> = None;
    let mut cancel: Option<String> = None;
    let mut i: usize = 0;
    while i < args.len()
        invariant
            i <= args.len(),
            sargs == string_views(args@),
            scan_flags(sargs, 0, no_flags()) == scan_flags(
                sargs,
                i as int,
                ScannedFlags {
                    source: opt_view(source),
                    device: opt_view(device),
                    verify: verify,
                    progress: opt_view(progress),
                    cancel: opt_view(cancel),
                },
            ),
        decreases args.len() - i,
    {
        let ghost before = ScannedFlags {
            source: opt_view(source),
            device: opt_view(device),
            verify: verify,
            progress: opt_view(progress),
            cancel: opt_view(cancel),
        };
        let arg = &args[i];
        assert(sargs[i as int] == arg@);
        let step: usize = if is_flag(arg, "--source") {
            source = value_after(args, i);
            2
        } else if is_flag(arg, "--device") {
            device = value_after(args, i);
            2
        } else if is_flag(arg, "--verify") {
            let v = value_after(args, i);
            verify = match v {
                Some(x) => is_flag(&x, "true"),
                None => false,
            };
            2
        } else if is_flag(arg, "--progress") {
            progress = value_after(args, i);
            2
        } else if is_flag(arg, "--cancel") {
            cancel = value_after(args, i);
            2
        } else {
            1
        };
        if args.len() - i >= step {
            i = i + step;
        } else {
            proof {
                assert(scan_flags(sargs, i + step, ScannedFlags {
                    source: opt_view(source),
                    device: opt_view(device),
                    verify: verify,
                    progress: opt_view(progress),
                    cancel: opt_view(cancel),
                }) == scan_flags(sargs, args.len() as int, ScannedFlags {
                    source: opt_view(source),
                    device: opt_view(device),
                    verify: verify,
                    progress: opt_view(progress),
                    cancel: opt_view(cancel),
                }));
            }
            i = args.len();
        }
    }
    let missing_source = String::from_str("missing --source");
    let missing_device = String::from_str("missing --device");
    let missing_progress = String::from_str("missing --progress");
    let missing_cancel = String::from_str("missing --cancel");
    match (source, device, progress, cancel) {
        (None, _, _, _) => Err(missing_source),
        (Some(_), None, _, _) => Err(missing_device),
        (Some(_), Some(_), None, _) => Err(missing_progress),
        (Some(_), Some(_), Some(_), None) => Err(missing_cancel),
        (Some(source), Some(device), Some(progress), Some(cancel)) => Ok(
            WorkerArgs { source, device, verify, progress, cancel },
        ),
    }
}

/// How the writer ends: the line it appends to the progress file and its
/// exit status.
pub struct WorkerExit {
    pub line: String,
    pub code: i32,
}

/// The exit status of the writer after a flash with `result`: 0 on success,
/// 3 when it was cancelled, 1 on any other failure.
pub open spec fn exit_code_spec(result: Result<(), Seq<char>>) -> i32 {
    match result {
        Ok(()) => 0,
        Err(m) => if m == "Cancelled"@ {
            3
        } else {
            1
        },
    }
}

/// The progress line that ends a run: `{"phase":"complete"}`, or a JSON
/// object whose `phase` is `failed` and whose `message` is the error.
pub open spec fn exit_line_spec(result: Result<(), Seq<char>>) -> Seq<char> {
    match result {
        Ok(()) => "{\"phase\":\"complete\"}"@,
        Err(m) => json_object_text(seq![("phase"@, "failed"@), ("message"@, m)]),
    }
}

pub open spec fn result_view(r: Result<(), String>) -> Result<(), Seq<char>> {
    match r {
        Ok(()) => Ok(()),
        Err(m) => Err(m@),
    }
}

/// The progress record that ends a run, as the imager reads it back: phase
/// `complete`, or phase `failed` with the error as its message.
pub open spec fn exit_record(result: Result<(), Seq<char>>) -> (Option<Seq<char>>, Option<Seq<char>>) {
    match result {
        Ok(()) => (Some("complete"@), None),
        Err(m) => (Some("failed"@), Some(m)),
    }
}

/// `exit` is how the writer ends a run with `result`: its line and exit
/// status, the line being one JSON object that reads back as
/// [`exit_record`].
pub open spec fn ends_run(exit: WorkerExit, result: Result<(), Seq<char>>) -> bool {
    &&& exit.line@ == exit_line_spec(result)
    &&& exit.code == exit_code_spec(result)
    &&& one_object_line(exit.line@)
    &&& terminal_json(exit.line@) == Some(exit_record(result))
}

/// How the writer ends a run with `result`.
pub fn worker_exit(result: &Result<(), String>) -> (res: WorkerExit)
    ensures
        ends_run(res, result_view(*result)),
{
    let mut members: Vec<(String, String)> = Vec::new();
    match result {
        Ok(()) => {
            members.push((String::from_str("phase"), String::from_str("complete")));
            proof {
                reveal_strlit("phase");
                reveal_strlit("complete");
                reveal_strlit("message");
                reveal_strlit("{\"");
                reveal_strlit("\":\"");
                reveal_strlit("\"}");
                reveal_strlit("{\"phase\":\"complete\"}");
                assert(members@[0].0@ == "phase"@);
                assert(members@[0].1@ == "complete"@);
                assert(unescaped("phase"@));
                assert(unescaped("complete"@));
                let mv = member_views(members@);
                assert(mv =~= seq![("phase"@, "complete"@)]);
                assert("phase"@.len() == 5 && "message"@.len() == 7);
                assert(mv.last().0 != "message"@);
                assert(mv.drop_last() =~= Seq::<(Seq<char>, Seq<char>)>::empty());
                assert(member_value(mv.drop_last(), "message"@) is None);
                assert(member_value(mv, "message"@) == member_value(mv.drop_last(), "message"@));
                assert(member_value(mv, "phase"@) == Some("complete"@));
                assert(distinct_names(mv));
            }
            let line = json_object(&members);
            proof {
                assert(line@ =~= "{\"phase\":\"complete\"}"@);
            }
            WorkerExit { line, code: 0 }
        },
        Err(m) => {
            members.push((String::from_str("phase"), String::from_str("failed")));
            members.push((String::from_str("message"), m.clone()));
            let ghost mv = member_views(members@);
            proof {
                reveal_strlit("phase");
                reveal_strlit("message");
                assert(mv =~= seq![("phase"@, "failed"@), ("message"@, m@)]);
                assert(mv.drop_last() =~= seq![("phase"@, "failed"@)]);
                assert("phase"@.len() == 5 && "message"@.len() == 7);
                assert("phase"@ != "message"@);
                assert(mv[0].0 == "phase"@ && mv[1].0 == "message"@);
                assert(distinct_names(mv));
                assert(mv.last().0 != "phase"@);
                assert(member_value(mv.drop_last(), "phase"@) == Some("failed"@));
                assert(member_value(mv, "phase"@) == Some("failed"@));
                assert(member_value(mv, "message"@) == Some(m@));
            }
            let line = json_object(&members);
            let code = if same(&chars_of(m.as_str()), &chars_of("Cancelled")) {
                3
            } else {
                1
            };
            WorkerExit { line, code }
        },
    }
}

/// The progress line when the writer's runtime could not be started.
pub fn runtime_failure_line(error: &str) -> (res: String)
    ensures
        res@ == "{\"phase\":\"failed\",\"message\":\"runtime: "@ + error@ + "\"}"@,
{
    string_of(
        &concat(
            &concat(&chars_of("{\"phase\":\"failed\",\"message\":\"runtime: "), &chars_of(error)),
            &chars_of("\"}"),
        ),
    )
}

/// The exit status of the writer when its command line is unusable.
pub const USAGE_EXIT_CODE: i32 = 2;

/// The complaint about an unusable command line, for the error output;
/// the writer then exits with [`USAGE_EXIT_CODE`].
pub fn usage_error_line(error: &str) -> (res: String)
    ensures
        res@ == "worker: "@ + error@,
{
    string_of(&concat(&chars_of("worker: "), &chars_of(error)))
}

} // verus!
