//! The two ways in which Python is run: what is started, what is made of its output, and what
//! is printed, recorded and returned in the end.

use vstd::prelude::*;

use crate::compile_errors;
use crate::dispatch;
use crate::lemmas;
use crate::model;
use crate::text;
use crate::text_laws;
use crate::traceback;

verus! {

/// A process to start.
#[derive(Debug)]
pub struct Launch {
    /// The program.
    pub program: String,
    /// Its arguments.
    pub args: Vec<String>,
    /// A line for the error stream, before the process is started.
    pub notice: Option<String>,
    /// What to say where the process cannot be started.
    pub failure: String,
}

/// A process that has ended.
#[derive(Debug)]
pub struct Finished {
    /// What it wrote to its output stream.
    pub stdout: Vec<u8>,
    /// What it wrote to its error stream.
    pub stderr: Vec<u8>,
    /// Whether it ended successfully.
    pub success: bool,
    /// Its exit code, where it has one.
    pub code: Option<i32>,
}

/// What is made of a process that has ended.
#[derive(Debug)]
pub struct Report {
    /// The name under which the raw output is kept.
    pub label: String,
    /// The whole output.
    pub raw: String,
    /// The part of it that is shown.
    pub filtered: String,
    /// Whether the process ended successfully.
    pub success: bool,
    /// The exit code.
    pub exit_code: i32,
}

/// What is recorded of a command for the statistics.
#[derive(Debug)]
pub struct Record {
    /// The command as it would be without the filter.
    pub original: String,
    /// The command with the filter.
    pub filtering: String,
    /// The whole output.
    pub raw: String,
    /// The part of it that is shown.
    pub filtered: String,
}

/// How a command ends.
#[derive(Debug)]
pub struct Outcome {
    /// The lines for the output stream.
    pub printed: Option<String>,
    /// What is recorded of the command.
    pub record: Record,
    /// The code to exit with, unless the process ended successfully.
    pub exit: Option<i32>,
}

/// A launch, as texts.
#[verifier::ext_equal]
pub struct LaunchView {
    pub program: Seq<char>,
    pub args: Seq<Seq<char>>,
    pub notice: Option<Seq<char>>,
    pub failure: Seq<char>,
}

/// A report, as texts.
#[verifier::ext_equal]
pub struct ReportView {
    pub label: Seq<char>,
    pub raw: Seq<char>,
    pub filtered: Seq<char>,
    pub success: bool,
    pub exit_code: i32,
}

/// An outcome, as texts.
#[verifier::ext_equal]
pub struct OutcomeView {
    pub printed: Option<Seq<char>>,
    pub original: Seq<char>,
    pub filtering: Seq<char>,
    pub raw: Seq<char>,
    pub filtered: Seq<char>,
    pub exit: Option<i32>,
}

/// The text that a string holds, where there is a string.
pub open spec fn optional_text(s: Option<String>) -> Option<Seq<char>> {
    match s {
        Some(s) => Some(s@),
        None => None,
    }
}

impl View for Launch {
    type V = LaunchView;

    open spec fn view(&self) -> LaunchView {
        LaunchView {
            program: self.program@,
            args: model::texts(self.args@),
            notice: optional_text(self.notice),
            failure: self.failure@,
        }
    }
}

impl View for Report {
    type V = ReportView;

    open spec fn view(&self) -> ReportView {
        ReportView {
            label: self.label@,
            raw: self.raw@,
            filtered: self.filtered@,
            success: self.success,
            exit_code: self.exit_code,
        }
    }
}

impl View for Outcome {
    type V = OutcomeView;

    open spec fn view(&self) -> OutcomeView {
        OutcomeView {
            printed: optional_text(self.printed),
            original: self.record.original@,
            filtering: self.record.filtering@,
            raw: self.record.raw@,
            filtered: self.record.filtered@,
            exit: self.exit,
        }
    }
}

/// The Python interpreter: `python3` where there is one, `python` otherwise.
pub open spec fn interpreter(python3_exists: bool) -> Seq<char> {
    if python3_exists {
        "python3"@
    } else {
        "python"@
    }
}

/// The arguments on one line.
pub open spec fn one_line(args: Seq<Seq<char>>) -> Seq<char> {
    model::join(args, " "@)
}

/// The process that compiles files.
pub open spec fn py_compile_launch(
    args: Seq<Seq<char>>,
    verbose: u8,
    python3_exists: bool,
) -> LaunchView {
    LaunchView {
        program: interpreter(python3_exists),
        args: seq!["-m"@, "py_compile"@] + args,
        notice: if verbose > 0 {
            Some("Running: "@ + interpreter(python3_exists) + " -m py_compile "@ + one_line(args))
        } else {
            None
        },
        failure: "Failed to run python3 -m py_compile. Is python3 installed?"@,
    }
}

/// The process that runs Python with any other arguments.
pub open spec fn generic_launch(
    args: Seq<Seq<char>>,
    verbose: u8,
    python3_exists: bool,
) -> LaunchView {
    LaunchView {
        program: interpreter(python3_exists),
        args,
        notice: if verbose > 0 {
            Some("Running: "@ + interpreter(python3_exists) + " "@ + one_line(args))
        } else {
            None
        },
        failure: "Failed to run python3. Is it installed?"@,
    }
}

/// The whole output of a process: both streams, with a newline between them.
pub open spec fn whole_output(stdout: Seq<char>, stderr: Seq<char>) -> Seq<char> {
    stdout + "\n"@ + stderr
}

/// The exit code that is passed on: that of the process, or 1 where it has none.
pub open spec fn exit_code_of(code: Option<i32>) -> i32 {
    match code {
        Some(code) => code,
        None => 1,
    }
}

/// What is shown of a compilation that succeeded.
pub open spec fn compiled(args: Seq<Seq<char>>) -> Seq<char> {
    if args.len() == 1 {
        "ok \u{2713} "@ + args[0]
    } else {
        "ok \u{2713} "@ + model::decimal(args.len()) + " files checked"@
    }
}

/// The report on a compilation.
pub open spec fn py_compile_reported(
    args: Seq<Seq<char>>,
    stdout: Seq<char>,
    stderr: Seq<char>,
    success: bool,
    code: Option<i32>,
) -> ReportView {
    let raw = whole_output(stdout, stderr);
    ReportView {
        label: "py_compile"@,
        raw,
        filtered: if success {
            compiled(args)
        } else {
            compile_errors::filtered(raw)
        },
        success,
        exit_code: exit_code_of(code),
    }
}

/// The report on any other run of Python.
pub open spec fn generic_reported(
    stdout: Seq<char>,
    stderr: Seq<char>,
    success: bool,
    code: Option<i32>,
) -> ReportView {
    let raw = whole_output(stdout, stderr);
    ReportView {
        label: "python3"@,
        raw,
        filtered: if success {
            model::trim(raw)
        } else {
            traceback::filtered(raw)
        },
        success,
        exit_code: exit_code_of(code),
    }
}

/// The code to exit with: none where the process ended successfully.
pub open spec fn exit_of(report: ReportView) -> Option<i32> {
    if report.success {
        None
    } else {
        Some(report.exit_code)
    }
}

/// How a compilation ends. What is shown is always printed, with the hint on a line of its own.
pub open spec fn py_compile_ended(
    args: Seq<Seq<char>>,
    report: ReportView,
    hint: Option<Seq<char>>,
) -> OutcomeView {
    OutcomeView {
        printed: match hint {
            Some(hint) => Some(report.filtered + "\n"@ + hint),
            None => Some(report.filtered),
        },
        original: "python3 -m py_compile "@ + one_line(args),
        filtering: "rtk python3 -m py_compile "@ + one_line(args),
        raw: report.raw,
        filtered: report.filtered,
        exit: exit_of(report),
    }
}

/// How any other run of Python ends. Where nothing is shown, only the hint is printed.
pub open spec fn generic_ended(
    args: Seq<Seq<char>>,
    report: ReportView,
    hint: Option<Seq<char>>,
) -> OutcomeView {
    OutcomeView {
        printed: match hint {
            Some(hint) => if report.filtered.len() == 0 {
                Some(hint)
            } else {
                Some(report.filtered + "\n"@ + hint)
            },
            None => if report.filtered.len() == 0 {
                None
            } else {
                Some(report.filtered)
            },
        },
        original: "python3 "@ + one_line(args),
        filtering: "rtk python3 "@ + one_line(args),
        raw: report.raw,
        filtered: report.filtered,
        exit: exit_of(report),
    }
}

/// What `String::from_utf8_lossy` makes of bytes.
pub uninterp spec fn lossy_text(bytes: Seq<u8>) -> Seq<char>;

/// `String::from_utf8_lossy` depends on the bytes alone. It decodes them where they are valid
/// UTF-8, and otherwise puts U+FFFD in place of what is not valid; where and how often is left
/// unsaid.
#[verifier::external_body]
fn decode_lossy(bytes: &[u8]) -> (s: String)
    ensures
        s@ == lossy_text(bytes@),
        vstd::utf8::valid_utf8(bytes@) ==> s@ == vstd::utf8::decode_utf8(bytes@),
        !vstd::utf8::valid_utf8(bytes@) ==> s@.contains('\u{fffd}'),
{
    String::from_utf8_lossy(bytes).into_owned()
}

/// The Python interpreter: `python3` where there is one, `python` otherwise.
pub fn python_bin(python3_exists: bool) -> (bin: &'static str)
    ensures
        bin@ == interpreter(python3_exists),
        python3_exists ==> bin@ == "python3"@,
        !python3_exists ==> bin@ == "python"@,
{
    if python3_exists {
        "python3"
    } else {
        "python"
    }
}

/// `first` and `second`, one after the other.
fn concat(first: &str, second: &str) -> (s: String)
    ensures
        s@ == first@ + second@,
{
    let mut s = first.to_owned();
    s.append(second);
    s
}

/// The process to start for `-m py_compile` and the arguments after it.
pub fn run_py_compile(args: &[String], verbose: u8, python3_exists: bool) -> (launch: Launch)
    ensures
        launch@ == py_compile_launch(model::texts(args@), verbose, python3_exists),
        python3_exists ==> launch.program@ == "python3"@,
        !python3_exists ==> launch.program@ == "python"@,
        launch.args@.len() == args@.len() + 2,
        launch.args@[0]@ == "-m"@,
        launch.args@[1]@ == "py_compile"@,
        forall|i: int|
            2 <= i < launch.args@.len() ==> #[trigger] launch.args@[i]@ == args@[i - 2]@,
        launch.notice is Some <==> verbose > 0,
        launch.notice matches Some(line) ==> line@ == "Running: "@ + launch.program@
            + " -m py_compile "@ + model::join(model::texts(args@), " "@),
        launch.failure@ == "Failed to run python3 -m py_compile. Is python3 installed?"@,
{
    let bin = python_bin(python3_exists);
    let mut words: Vec<String> = Vec::new();
    words.push("-m".to_owned());
    words.push("py_compile".to_owned());
    let mut rest = dispatch::copy_from(args, 0);
    let ghost copied = model::texts(rest@);
    words.append(&mut rest);
    proof {
        let all = model::texts(args@);
        assert(all.skip(0) == all);
        assert(model::texts(words@) == seq!["-m"@, "py_compile"@] + copied);
    }
    let notice = if verbose > 0 {
        let mut line = concat("Running: ", bin);
        line.append(" -m py_compile ");
        line.append(text::join(args, " ").as_str());
        Some(line)
    } else {
        None
    };
    Launch {
        program: bin.to_owned(),
        args: words,
        notice,
        failure: "Failed to run python3 -m py_compile. Is python3 installed?".to_owned(),
    }
}

/// The process to start for any other arguments.
pub fn run_generic(args: &[String], verbose: u8, python3_exists: bool) -> (launch: Launch)
    ensures
        launch@ == generic_launch(model::texts(args@), verbose, python3_exists),
        python3_exists ==> launch.program@ == "python3"@,
        !python3_exists ==> launch.program@ == "python"@,
        launch.args@.len() == args@.len(),
        forall|i: int|
            0 <= i < launch.args@.len() ==> #[trigger] launch.args@[i]@ == args@[i]@,
        launch.notice is Some <==> verbose > 0,
        launch.notice matches Some(line) ==> line@ == "Running: "@ + launch.program@ + " "@
            + model::join(model::texts(args@), " "@),
        launch.failure@ == "Failed to run python3. Is it installed?"@,
{
    let bin = python_bin(python3_exists);
    let words = dispatch::copy_from(args, 0);
    proof {
        let all = model::texts(args@);
        assert(all.skip(0) == all);
    }
    let notice = if verbose > 0 {
        let mut line = concat("Running: ", bin);
        line.append(" ");
        line.append(text::join(args, " ").as_str());
        Some(line)
    } else {
        None
    };
    Launch {
        program: bin.to_owned(),
        args: words,
        notice,
        failure: "Failed to run python3. Is it installed?".to_owned(),
    }
}

/// The exit code that is passed on.
fn exit_code(code: Option<i32>) -> (n: i32)
    ensures
        n == exit_code_of(code),
{
    match code {
        Some(code) => code,
        None => 1,
    }
}

/// The report on a compilation, from the text of its two streams.
pub fn digest_py_compile(
    args: &[String],
    stdout: &str,
    stderr: &str,
    success: bool,
    code: Option<i32>,
) -> (report: Report)
    ensures
        report@ == py_compile_reported(model::texts(args@), stdout@, stderr@, success, code),
        report.label@ == "py_compile"@,
        report.raw@ == stdout@ + "\n"@ + stderr@,
        report.success == success,
        code matches Some(n) ==> report.exit_code == n,
        code is None ==> report.exit_code == 1,
        success && args@.len() == 1 ==> report.filtered@ == "ok \u{2713} "@ + args@[0]@,
        success && args@.len() != 1 ==> report.filtered@ == "ok \u{2713} "@ + model::decimal(
            args@.len(),
        ) + " files checked"@,
        !success ==> report.filtered@ == compile_errors::filtered(report.raw@),
{
    let mut raw = concat(stdout, "\n");
    raw.append(stderr);
    let filtered = if success {
        if args.len() == 1 {
            concat("ok \u{2713} ", args[0].as_str())
        } else {
            let mut line = concat("ok \u{2713} ", text::decimal(args.len()).as_str());
            line.append(" files checked");
            line
        }
    } else {
        compile_errors::filter_compile_errors(raw.as_str())
    };
    Report { label: "py_compile".to_owned(), raw, filtered, success, exit_code: exit_code(code) }
}

/// The report on any other run of Python, from the text of its two streams.
pub fn digest_generic(stdout: &str, stderr: &str, success: bool, code: Option<i32>) -> (report:
    Report)
    ensures
        report@ == generic_reported(stdout@, stderr@, success, code),
        report.label@ == "python3"@,
        report.raw@ == stdout@ + "\n"@ + stderr@,
        report.success == success,
        code matches Some(n) ==> report.exit_code == n,
        code is None ==> report.exit_code == 1,
        success ==> report.filtered@ == model::trim(stdout@ + "\n"@ + stderr@),
        !success ==> report.filtered@ == traceback::filtered(report.raw@),
{
    let mut raw = concat(stdout, "\n");
    raw.append(stderr);
    let filtered = if success {
        text::trim(raw.as_str()).to_owned()
    } else {
        traceback::filter_traceback(raw.as_str())
    };
    Report { label: "python3".to_owned(), raw, filtered, success, exit_code: exit_code(code) }
}

/// The report on a compilation that has ended.
pub fn report_py_compile(args: &[String], finished: &Finished) -> (report: Report)
    ensures
        report@ == py_compile_reported(
            model::texts(args@),
            lossy_text(finished.stdout@),
            lossy_text(finished.stderr@),
            finished.success,
            finished.code,
        ),
        report.label@ == "py_compile"@,
        report.raw@ == lossy_text(finished.stdout@) + "\n"@ + lossy_text(finished.stderr@),
        report.success == finished.success,
        finished.code matches Some(n) ==> report.exit_code == n,
        finished.code is None ==> report.exit_code == 1,
        finished.success && args@.len() == 1 ==> report.filtered@ == "ok \u{2713} "@
            + args@[0]@,
        finished.success && args@.len() != 1 ==> report.filtered@ == "ok \u{2713} "@
            + model::decimal(args@.len()) + " files checked"@,
        !finished.success ==> report.filtered@ == compile_errors::filtered(report.raw@),
        vstd::utf8::valid_utf8(finished.stdout@) ==> lossy_text(finished.stdout@)
            == vstd::utf8::decode_utf8(finished.stdout@),
        !vstd::utf8::valid_utf8(finished.stdout@) ==> lossy_text(finished.stdout@).contains(
            '\u{fffd}',
        ),
        vstd::utf8::valid_utf8(finished.stderr@) ==> lossy_text(finished.stderr@)
            == vstd::utf8::decode_utf8(finished.stderr@),
        !vstd::utf8::valid_utf8(finished.stderr@) ==> lossy_text(finished.stderr@).contains(
            '\u{fffd}',
        ),
{
    let stdout = decode_lossy(&finished.stdout);
    let stderr = decode_lossy(&finished.stderr);
    digest_py_compile(args, stdout.as_str(), stderr.as_str(), finished.success, finished.code)
}

/// The report on any other run of Python that has ended.
pub fn report_generic(finished: &Finished) -> (report: Report)
    ensures
        report@ == generic_reported(
            lossy_text(finished.stdout@),
            lossy_text(finished.stderr@),
            finished.success,
            finished.code,
        ),
        report.label@ == "python3"@,
        report.raw@ == lossy_text(finished.stdout@) + "\n"@ + lossy_text(finished.stderr@),
        report.success == finished.success,
        finished.code matches Some(n) ==> report.exit_code == n,
        finished.code is None ==> report.exit_code == 1,
        finished.success ==> report.filtered@ == model::trim(
            lossy_text(finished.stdout@) + "\n"@ + lossy_text(finished.stderr@),
        ),
        !finished.success ==> report.filtered@ == traceback::filtered(report.raw@),
        vstd::utf8::valid_utf8(finished.stdout@) ==> lossy_text(finished.stdout@)
            == vstd::utf8::decode_utf8(finished.stdout@),
        !vstd::utf8::valid_utf8(finished.stdout@) ==> lossy_text(finished.stdout@).contains(
            '\u{fffd}',
        ),
        vstd::utf8::valid_utf8(finished.stderr@) ==> lossy_text(finished.stderr@)
            == vstd::utf8::decode_utf8(finished.stderr@),
        !vstd::utf8::valid_utf8(finished.stderr@) ==> lossy_text(finished.stderr@).contains(
            '\u{fffd}',
        ),
{
    let stdout = decode_lossy(&finished.stdout);
    let stderr = decode_lossy(&finished.stderr);
    digest_generic(stdout.as_str(), stderr.as_str(), finished.success, finished.code)
}

/// `shown` with the hint on a line of its own.
fn with_hint(shown: &str, hint: &str) -> (s: String)
    ensures
        s@ == shown@ + "\n"@ + hint@,
{
    let mut s = concat(shown, "\n");
    s.append(hint);
    s
}

/// How a compilation ends, once it is known whether there is a hint at its raw output.
pub fn conclude_py_compile(args: &[String], report: Report, hint: Option<String>) -> (outcome:
    Outcome)
    ensures
        outcome@ == py_compile_ended(model::texts(args@), report@, optional_text(hint)),
        outcome.record.original@ == "python3 -m py_compile "@ + model::join(
            model::texts(args@),
            " "@,
        ),
        outcome.record.filtering@ == "rtk python3 -m py_compile "@ + model::join(
            model::texts(args@),
            " "@,
        ),
        outcome.record.raw@ == report.raw@,
        outcome.record.filtered@ == report.filtered@,
        report.success ==> outcome.exit is None,
        !report.success ==> outcome.exit == Some(report.exit_code),
        outcome.printed is Some,
        hint is None ==> outcome.printed->0@ == report.filtered@,
        hint matches Some(line) ==> outcome.printed->0@ == report.filtered@ + "\n"@ + line@,
{
    let line = text::join(args, " ");
    let printed = match hint {
        Some(hint) => with_hint(report.filtered.as_str(), hint.as_str()),
        None => report.filtered.clone(),
    };
    let exit = if report.success {
        None
    } else {
        Some(report.exit_code)
    };
    Outcome {
        printed: Some(printed),
        record: Record {
            original: concat("python3 -m py_compile ", line.as_str()),
            filtering: concat("rtk python3 -m py_compile ", line.as_str()),
            raw: report.raw,
            filtered: report.filtered,
        },
        exit,
    }
}

/// How any other run of Python ends, once it is known whether there is a hint at its raw output.
pub fn conclude_generic(args: &[String], report: Report, hint: Option<String>) -> (outcome: Outcome)
    ensures
        outcome@ == generic_ended(model::texts(args@), report@, optional_text(hint)),
        outcome.record.original@ == "python3 "@ + model::join(model::texts(args@), " "@),
        outcome.record.filtering@ == "rtk python3 "@ + model::join(
            model::texts(args@),
            " "@,
        ),
        outcome.record.raw@ == report.raw@,
        outcome.record.filtered@ == report.filtered@,
        report.success ==> outcome.exit is None,
        !report.success ==> outcome.exit == Some(report.exit_code),
        outcome.printed is None <==> hint is None && report.filtered@.len() == 0,
        hint is None && report.filtered@.len() > 0 ==> outcome.printed->0@ == report.filtered@,
        hint matches Some(line) ==> outcome.printed->0@ == if report.filtered@.len() == 0 {
            line@
        } else {
            report.filtered@ + "\n"@ + line@
        },
{
    let line = text::join(args, " ");
    let silent = report.filtered.as_str().is_empty();
    let printed = match hint {
        Some(hint) => if silent {
            Some(hint)
        } else {
            Some(with_hint(report.filtered.as_str(), hint.as_str()))
        },
        None => if silent {
            None
        } else {
            Some(report.filtered.clone())
        },
    };
    let exit = if report.success {
        None
    } else {
        Some(report.exit_code)
    };
    Outcome {
        printed,
        record: Record {
            original: concat("python3 ", line.as_str()),
            filtering: concat("rtk python3 ", line.as_str()),
            raw: report.raw,
            filtered: report.filtered,
        },
        exit,
    }
}

/// Where Python itself is started for a command line, it gets the arguments of that command
/// line, all of them and in their order.
pub proof fn law_python_gets_the_given_arguments(
    args: Seq<Seq<char>>,
    verbose: u8,
    python3_exists: bool,
)
    ensures
        match dispatch::planned(args, verbose) {
            dispatch::PlanView::Delegate { .. } => true,
            dispatch::PlanView::PyCompile { args: files, verbose: v } => py_compile_launch(
                files,
                v,
                python3_exists,
            ).args == args,
            dispatch::PlanView::Generic { args: words, verbose: v } => generic_launch(
                words,
                v,
                python3_exists,
            ).args == args,
        },
{
    if args.len() >= 2 && args[0] == "-m"@ && args[1] == "py_compile"@ {
        assert(seq!["-m"@, "py_compile"@] + args.skip(2) == args);
    }
}

/// A command exits with a code of its own exactly where the process failed, and then with the
/// code of the process, or 1 where the process has none.
pub proof fn law_failure_is_passed_on(
    args: Seq<Seq<char>>,
    stdout: Seq<char>,
    stderr: Seq<char>,
    success: bool,
    code: Option<i32>,
    hint: Option<Seq<char>>,
)
    ensures
        ({
            let exit = if success {
                None
            } else {
                Some(exit_code_of(code))
            };
            &&& py_compile_ended(
                args,
                py_compile_reported(args, stdout, stderr, success, code),
                hint,
            ).exit == exit
            &&& generic_ended(args, generic_reported(stdout, stderr, success, code), hint).exit
                == exit
        }),
{
}

/// The whole output is recorded, whatever is shown of it.
pub proof fn law_whole_output_is_recorded(
    args: Seq<Seq<char>>,
    stdout: Seq<char>,
    stderr: Seq<char>,
    success: bool,
    code: Option<i32>,
    hint: Option<Seq<char>>,
)
    ensures
        py_compile_ended(args, py_compile_reported(args, stdout, stderr, success, code), hint).raw
            == whole_output(stdout, stderr),
        generic_ended(args, generic_reported(stdout, stderr, success, code), hint).raw
            == whole_output(stdout, stderr),
{
}

/// A hint is always printed, after what is shown.
pub proof fn law_hint_is_printed_last(
    args: Seq<Seq<char>>,
    report: ReportView,
    hint: Seq<char>,
)
    ensures
        py_compile_ended(args, report, Some(hint)).printed matches Some(text)
            && report.filtered.is_prefix_of(text) && hint.is_suffix_of(text),
        generic_ended(args, report, Some(hint)).printed matches Some(text)
            && report.filtered.is_prefix_of(text) && hint.is_suffix_of(text),
{
    let text = report.filtered + "\n"@ + hint;
    assert(report.filtered.is_prefix_of(text));
    assert(hint.is_suffix_of(text));
    assert(hint.is_suffix_of(hint));
    if report.filtered.len() == 0 {
        assert(report.filtered.is_prefix_of(hint));
    }
}

/// Of a failed run, what is shown is never longer than its whole output.
pub proof fn law_failure_is_shown_in_no_more_space(
    args: Seq<Seq<char>>,
    stdout: Seq<char>,
    stderr: Seq<char>,
    code: Option<i32>,
)
    ensures
        py_compile_reported(args, stdout, stderr, false, code).filtered.len() <= whole_output(
            stdout,
            stderr,
        ).len(),
        generic_reported(stdout, stderr, false, code).filtered.len() <= whole_output(
            stdout,
            stderr,
        ).len(),
{
    compile_errors::law_filtered_is_no_longer(whole_output(stdout, stderr));
    traceback::law_filtered_is_no_longer(whole_output(stdout, stderr));
}

/// Of a run that succeeded both streams are shown, with a newline between them and without the
/// white space at the two ends.
pub proof fn law_success_shows_both_streams(
    stdout: Seq<char>,
    stderr: Seq<char>,
    code: Option<i32>,
)
    ensures
        generic_reported(stdout, stderr, true, code).filtered == model::trim(
            stdout + "\n"@ + stderr,
        ),
        model::trim(stdout).len() > 0 ==> model::contains(
            generic_reported(stdout, stderr, true, code).filtered,
            model::trim(stdout),
        ),
        model::trim(stderr).len() > 0 ==> model::contains(
            generic_reported(stdout, stderr, true, code).filtered,
            model::trim(stderr),
        ),
{
    let raw = stdout + "\n"@ + stderr;
    let none = Seq::<char>::empty();
    text_laws::law_contains(none, stdout, "\n"@ + stderr);
    assert(none + stdout + ("\n"@ + stderr) == raw);
    text_laws::law_contains(stdout + "\n"@, stderr, none);
    assert(stdout + "\n"@ + stderr + none == raw);
    lemmas::lemma_contains_trimmed(stdout);
    lemmas::lemma_contains_trimmed(stderr);
    lemmas::lemma_contains_through(raw, stdout, model::trim(stdout));
    lemmas::lemma_contains_through(raw, stderr, model::trim(stderr));
    lemmas::lemma_trim_ends(stdout);
    lemmas::lemma_trim_ends(stderr);
    if model::trim(stdout).len() > 0 {
        lemmas::lemma_contains_trim(raw, model::trim(stdout));
    }
    if model::trim(stderr).len() > 0 {
        lemmas::lemma_contains_trim(raw, model::trim(stderr));
    }
}

/// Every character of a successful run that is not white space is shown, whichever stream it was
/// written to and whatever the other stream holds.
pub proof fn law_success_loses_no_character(
    stdout: Seq<char>,
    stderr: Seq<char>,
    code: Option<i32>,
    c: char,
)
    requires
        stdout.contains(c) || stderr.contains(c),
        !model::is_white_space(c),
    ensures
        generic_reported(stdout, stderr, true, code).filtered.contains(c),
{
    let raw = stdout + "\n"@ + stderr;
    if stdout.contains(c) {
        let i = choose|i: int| 0 <= i < stdout.len() && stdout[i] == c;
        assert(raw[i] == c);
        lemmas::lemma_trim_keeps(raw, i);
    } else {
        let i = choose|i: int| 0 <= i < stderr.len() && stderr[i] == c;
        let at = stdout.len() + "\n"@.len() + i;
        assert(raw[at] == c);
        lemmas::lemma_trim_keeps(raw, at);
    }
}

/// The code of a process that failed is the code that the command exits with, whatever code it
/// is; a process that failed without a code gives 1, and one that succeeded gives none.
pub proof fn law_exit_codes(
    args: Seq<Seq<char>>,
    stdout: Seq<char>,
    stderr: Seq<char>,
    code: i32,
    hint: Option<Seq<char>>,
    any: Option<i32>,
)
    ensures
        generic_ended(
            args,
            generic_reported(stdout, stderr, false, Some(code)),
            hint,
        ).exit == Some(code),
        py_compile_ended(
            args,
            py_compile_reported(args, stdout, stderr, false, Some(code)),
            hint,
        ).exit == Some(code),
        generic_ended(args, generic_reported(stdout, stderr, false, None), hint).exit == Some(1i32),
        py_compile_ended(
            args,
            py_compile_reported(args, stdout, stderr, false, None),
            hint,
        ).exit == Some(1i32),
        generic_ended(args, generic_reported(stdout, stderr, true, any), hint).exit
            == None::<i32>,
        py_compile_ended(
            args,
            py_compile_reported(args, stdout, stderr, true, any),
            hint,
        ).exit == None::<i32>,
{
}

/// A successful compilation names the one file, or counts the files.
pub proof fn law_success_names_the_files(
    args: Seq<Seq<char>>,
    stdout: Seq<char>,
    stderr: Seq<char>,
    code: Option<i32>,
)
    ensures
        args.len() == 1 ==> py_compile_reported(args, stdout, stderr, true, code).filtered
            == "ok \u{2713} "@ + args[0],
        args.len() != 1 ==> py_compile_reported(args, stdout, stderr, true, code).filtered
            == "ok \u{2713} "@ + model::decimal(args.len()) + " files checked"@,
{
}

/// A failed compilation is shown by the compilation filter and any other failed run by the
/// traceback filter, each on both streams with a newline between them.
pub proof fn law_failures_are_filtered(
    args: Seq<Seq<char>>,
    stdout: Seq<char>,
    stderr: Seq<char>,
    code: Option<i32>,
)
    ensures
        py_compile_reported(args, stdout, stderr, false, code).filtered
            == compile_errors::filtered(stdout + "\n"@ + stderr),
        generic_reported(stdout, stderr, false, code).filtered == traceback::filtered(
            stdout + "\n"@ + stderr,
        ),
{
}

/// What is recorded is the command as it was typed, with and without the filter's name, and the
/// output before and after filtering.
pub proof fn law_commands_are_recorded(
    args: Seq<Seq<char>>,
    report: ReportView,
    hint: Option<Seq<char>>,
)
    ensures
        ({
            let line = model::join(args, " "@);
            let compiling = py_compile_ended(args, report, hint);
            let running = generic_ended(args, report, hint);
            &&& compiling.original == "python3 -m py_compile "@ + line
            &&& compiling.filtering == "rtk "@ + compiling.original
            &&& running.original == "python3 "@ + line
            &&& running.filtering == "rtk "@ + running.original
            &&& compiling.raw == report.raw && running.raw == report.raw
            &&& compiling.filtered == report.filtered && running.filtered == report.filtered
        }),
{
    let line = model::join(args, " "@);
    reveal_strlit("rtk ");
    reveal_strlit("python3 ");
    reveal_strlit("rtk python3 ");
    reveal_strlit("python3 -m py_compile ");
    reveal_strlit("rtk python3 -m py_compile ");
    assert("rtk "@ + "python3 "@ == "rtk python3 "@);
    assert("rtk "@ + "python3 -m py_compile "@ == "rtk python3 -m py_compile "@);
    assert("rtk "@ + ("python3 "@ + line) == "rtk python3 "@ + line);
    assert("rtk "@ + ("python3 -m py_compile "@ + line) == "rtk python3 -m py_compile "@ + line);
}

/// Where there is no hint, exactly what is shown is printed; nothing is printed only of a run of
/// which nothing is shown, and a compilation always prints.
pub proof fn law_without_a_hint_only_the_shown_is_printed(
    args: Seq<Seq<char>>,
    report: ReportView,
)
    ensures
        py_compile_ended(args, report, None).printed == Some(report.filtered),
        generic_ended(args, report, None).printed == if report.filtered.len() == 0 {
            None::<Seq<char>>
        } else {
            Some(report.filtered)
        },
{
}

/// With a hint, exactly what is shown, a newline and the hint are printed, or the hint alone
/// where nothing is shown of a run.
pub proof fn law_with_a_hint_nothing_else_is_printed(
    args: Seq<Seq<char>>,
    report: ReportView,
    hint: Seq<char>,
)
    ensures
        py_compile_ended(args, report, Some(hint)).printed == Some(
            report.filtered + "\n"@ + hint,
        ),
        report.filtered.len() > 0 ==> generic_ended(args, report, Some(hint)).printed == Some(
            report.filtered + "\n"@ + hint,
        ),
        report.filtered.len() == 0 ==> generic_ended(args, report, Some(hint)).printed == Some(
            hint,
        ),
{
}

/// A process is announced exactly where that is asked for, with the interpreter and the
/// arguments that it is started with.
pub proof fn law_notice_is_the_command(args: Seq<Seq<char>>, verbose: u8, python3_exists: bool)
    ensures
        ({
            let compiling = py_compile_launch(args, verbose, python3_exists);
            let running = generic_launch(args, verbose, python3_exists);
            &&& compiling.program == running.program
            &&& running.program == if python3_exists {
                "python3"@
            } else {
                "python"@
            }
            &&& compiling.args == seq!["-m"@, "py_compile"@] + args
            &&& running.args == args
            &&& compiling.failure == "Failed to run python3 -m py_compile. Is python3 installed?"@
            &&& running.failure == "Failed to run python3. Is it installed?"@
            &&& verbose == 0 ==> compiling.notice is None && running.notice is None
            &&& verbose > 0 ==> compiling.notice == Some(
                "Running: "@ + compiling.program + " -m py_compile "@ + model::join(args, " "@),
            )
            &&& verbose > 0 ==> running.notice == Some(
                "Running: "@ + running.program + " "@ + model::join(running.args, " "@),
            )
        }),
{
}

/// The raw output is kept under the name of what was run, with the exit code of the process, and
/// neither depends on what the process wrote.
pub proof fn law_raw_output_is_labelled(
    args: Seq<Seq<char>>,
    stdout: Seq<char>,
    stderr: Seq<char>,
    success: bool,
    code: i32,
)
    ensures
        ({
            let compiling = py_compile_reported(args, stdout, stderr, success, Some(code));
            let running = generic_reported(stdout, stderr, success, Some(code));
            &&& compiling.label == "py_compile"@ && running.label == "python3"@
            &&& compiling.exit_code == code && running.exit_code == code
            &&& compiling.success == success && running.success == success
            &&& compiling.raw == stdout + "\n"@ + stderr && running.raw == compiling.raw
        }),
{
}

} // verus!
