use python3_cmd::dispatch::{run, Plan, Tool};
use python3_cmd::process::{
    conclude_generic, conclude_py_compile, digest_generic, digest_py_compile, python_bin,
    report_generic, report_py_compile, run_generic, run_py_compile, Finished,
};

fn owned(words: &[&str]) -> Vec<String> {
    words.iter().map(|w| w.to_string()).collect()
}

#[test]
fn known_modules_take_over() {
    let known = [
        ("pytest", Tool::Pytest),
        ("mypy", Tool::Mypy),
        ("ruff", Tool::Ruff),
        ("pip", Tool::Pip),
    ];
    for (name, expected) in known {
        match run(&owned(&["-m", name, "-q", "x"]), 2) {
            Plan::Delegate { tool, args, verbose } => {
                assert_eq!(tool, expected);
                assert_eq!(args, owned(&["-q", "x"]));
                assert_eq!(verbose, 2);
            }
            other => panic!("{:?}", other),
        }
    }
}

#[test]
fn py_compile_takes_the_files() {
    match run(&owned(&["-m", "py_compile", "a.py", "b.py"]), 1) {
        Plan::PyCompile { args, verbose } => {
            assert_eq!(args, owned(&["a.py", "b.py"]));
            assert_eq!(verbose, 1);
            // Python is started with the arguments that were given.
            let launch = run_py_compile(&args, verbose, true);
            assert_eq!(launch.args, owned(&["-m", "py_compile", "a.py", "b.py"]));
        }
        other => panic!("{:?}", other),
    }
    match run(&owned(&["-m", "py_compile"]), 0) {
        Plan::PyCompile { args, .. } => assert!(args.is_empty()),
        other => panic!("{:?}", other),
    }
}

#[test]
fn other_arguments_go_to_python() {
    let lines = [
        owned(&[]),
        owned(&["-m"]),
        owned(&["script.py"]),
        owned(&["-m", "http.server", "80"]),
        owned(&["script.py", "pytest"]),
        owned(&["-v", "-m", "pytest"]),
        owned(&["-m", "Pytest"]),
        owned(&["-m", "pytests"]),
    ];
    for line in lines {
        match run(&line, 7) {
            Plan::Generic { args, verbose } => {
                assert_eq!(args, line);
                assert_eq!(verbose, 7);
                assert_eq!(run_generic(&args, verbose, true).args, line);
            }
            other => panic!("{:?}", other),
        }
    }
}

#[test]
fn python3_is_preferred() {
    assert_eq!(python_bin(true), "python3");
    assert_eq!(python_bin(false), "python");
    assert_eq!(run_generic(&owned(&["x.py"]), 0, true).program, "python3");
    assert_eq!(run_generic(&owned(&["x.py"]), 0, false).program, "python");
    assert_eq!(run_py_compile(&owned(&["x.py"]), 0, false).program, "python");
}

#[test]
fn notices_come_with_verbosity() {
    let args = owned(&["a.py", "b c"]);
    assert_eq!(run_generic(&args, 0, true).notice, None);
    assert_eq!(run_py_compile(&args, 0, true).notice, None);
    assert_eq!(
        run_generic(&args, 1, true).notice,
        Some("Running: python3 a.py b c".to_string())
    );
    assert_eq!(
        run_py_compile(&args, 3, false).notice,
        Some("Running: python -m py_compile a.py b c".to_string())
    );
}

#[test]
fn failures_to_start_are_explained() {
    assert_eq!(
        run_generic(&[], 0, true).failure,
        "Failed to run python3. Is it installed?"
    );
    assert_eq!(
        run_py_compile(&[], 0, true).failure,
        "Failed to run python3 -m py_compile. Is python3 installed?"
    );
}

#[test]
fn compilation_that_succeeds() {
    let one = digest_py_compile(&owned(&["a.py"]), "out", "err", true, Some(0));
    assert_eq!(one.label, "py_compile");
    assert_eq!(one.raw, "out\nerr");
    assert_eq!(one.filtered, "ok \u{2713} a.py");
    assert!(one.success);
    assert_eq!(one.exit_code, 0);
    let many: Vec<String> = (0..12).map(|i| format!("{}.py", i)).collect();
    assert_eq!(
        digest_py_compile(&many, "", "", true, Some(0)).filtered,
        "ok \u{2713} 12 files checked"
    );
    assert_eq!(
        digest_py_compile(&[], "", "", true, Some(0)).filtered,
        "ok \u{2713} 0 files checked"
    );
}

#[test]
fn compilation_that_fails() {
    let stderr = "  File \"a.py\", line 1\n    x = (\n        ^\nSyntaxError: '(' was never closed\n";
    let report = digest_py_compile(&owned(&["a.py"]), "", stderr, false, Some(1));
    assert_eq!(
        report.filtered,
        "File \"a.py\", line 1\n^\nSyntaxError: '(' was never closed"
    );
    assert_eq!(report.raw, format!("\n{}", stderr));
    assert_eq!(report.exit_code, 1);
    let outcome = conclude_py_compile(&owned(&["a.py"]), report, Some("see log".to_string()));
    assert_eq!(
        outcome.printed,
        Some(
            "File \"a.py\", line 1\n^\nSyntaxError: '(' was never closed\nsee log".to_string()
        )
    );
    assert_eq!(outcome.exit, Some(1));
    assert_eq!(outcome.record.original, "python3 -m py_compile a.py");
    assert_eq!(outcome.record.filtering, "rtk python3 -m py_compile a.py");
    assert_eq!(outcome.record.raw, format!("\n{}", stderr));
}

#[test]
fn run_that_succeeds() {
    let report = digest_generic("hello\n", "warning\n", true, Some(0));
    assert_eq!(report.label, "python3");
    assert_eq!(report.filtered, "hello\n\nwarning");
    let outcome = conclude_generic(&owned(&["a.py", "b"]), report, None);
    assert_eq!(outcome.printed, Some("hello\n\nwarning".to_string()));
    assert_eq!(outcome.exit, None);
    assert_eq!(outcome.record.original, "python3 a.py b");
    assert_eq!(outcome.record.filtering, "rtk python3 a.py b");
    assert_eq!(outcome.record.raw, "hello\n\nwarning\n");
    assert_eq!(outcome.record.filtered, "hello\n\nwarning");
}

#[test]
fn tracebacks_are_kept_of_a_run_that_succeeds() {
    let text = "Traceback (most recent call last):\n  File \"a.py\", line 1\nValueError: x";
    assert_eq!(digest_generic("", text, true, Some(0)).filtered, text);
    assert_eq!(
        digest_generic("", text, false, Some(1)).filtered,
        "File \"a.py\", line 1\nValueError: x"
    );
}

#[test]
fn silence_is_not_printed() {
    let quiet = digest_generic("", "", true, Some(0));
    assert_eq!(quiet.filtered, "");
    assert_eq!(conclude_generic(&[], quiet, None).printed, None);
    let quiet = digest_generic("\n", " ", false, Some(3));
    let outcome = conclude_generic(&[], quiet, Some("hint".to_string()));
    assert_eq!(outcome.printed, Some("hint".to_string()));
    assert_eq!(outcome.exit, Some(3));
    assert_eq!(outcome.record.original, "python3 ");
    let blank = digest_py_compile(&[], "", "", false, Some(2));
    assert_eq!(conclude_py_compile(&[], blank, None).printed, Some("".to_string()));
}

#[test]
fn process_without_a_code_exits_with_one() {
    let report = digest_generic("", "", false, None);
    assert_eq!(report.exit_code, 1);
    assert_eq!(conclude_generic(&[], report, None).exit, Some(1));
    let report = digest_py_compile(&[], "", "", false, None);
    assert_eq!(conclude_py_compile(&[], report, None).exit, Some(1));
}

#[test]
fn bytes_are_decoded() {
    let finished = Finished {
        stdout: "na\u{ef}ve\n".as_bytes().to_vec(),
        stderr: b"a\xffb\xe2\x82".to_vec(),
        success: true,
        code: Some(0),
    };
    let report = report_generic(&finished);
    assert_eq!(report.raw, "na\u{ef}ve\n\na\u{fffd}b\u{fffd}");
    assert_eq!(report.filtered, "na\u{ef}ve\n\na\u{fffd}b\u{fffd}");
    let report = report_py_compile(&owned(&["a.py"]), &finished);
    assert_eq!(report.raw, "na\u{ef}ve\n\na\u{fffd}b\u{fffd}");
    assert_eq!(report.filtered, "ok \u{2713} a.py");
}

#[test]
fn streams_are_decoded_each_on_its_own() {
    let finished = Finished {
        stdout: "\u{2713}".as_bytes().to_vec(),
        stderr: vec![0xc3],
        success: false,
        code: Some(1),
    };
    assert_eq!(report_generic(&finished).raw, "\u{2713}\n\u{fffd}");
    assert_eq!(report_py_compile(&[], &finished).raw, "\u{2713}\n\u{fffd}");
}
