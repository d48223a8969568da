//! Choice of what a `python3` command line stands for.

use vstd::prelude::*;

use crate::model;
use crate::text;

verus! {

/// A tool whose output has a filter of its own.
#[derive(Debug, Clone, Copy, PartialEq, Eq, Structural)]
pub enum Tool {
    Pytest,
    Mypy,
    Ruff,
    Pip,
}

/// What is to be done for a command line, with the arguments and the verbosity for it.
#[derive(Debug)]
pub enum Plan {
    /// Another tool's command takes over.
    Delegate { tool: Tool, args: Vec<String>, verbose: u8 },
    /// Python compiles the files that `args` names.
    PyCompile { args: Vec<String>, verbose: u8 },
    /// Python runs with `args`.
    Generic { args: Vec<String>, verbose: u8 },
}

/// The plan with its arguments as texts.
#[verifier::ext_equal]
pub enum PlanView {
    Delegate { tool: Tool, args: Seq<Seq<char>>, verbose: u8 },
    PyCompile { args: Seq<Seq<char>>, verbose: u8 },
    Generic { args: Seq<Seq<char>>, verbose: u8 },
}

impl View for Plan {
    type V = PlanView;

    open spec fn view(&self) -> PlanView {
        match self {
            Plan::Delegate { tool, args, verbose } => PlanView::Delegate {
                tool: *tool,
                args: model::texts(args@),
                verbose: *verbose,
            },
            Plan::PyCompile { args, verbose } => PlanView::PyCompile {
                args: model::texts(args@),
                verbose: *verbose,
            },
            Plan::Generic { args, verbose } => PlanView::Generic {
                args: model::texts(args@),
                verbose: *verbose,
            },
        }
    }
}

/// The tool that a module's name stands for, where the tool has a filter of its own.
pub open spec fn tool_of(module: Seq<char>) -> Option<Tool> {
    if module == "pytest"@ {
        Some(Tool::Pytest)
    } else if module == "mypy"@ {
        Some(Tool::Mypy)
    } else if module == "ruff"@ {
        Some(Tool::Ruff)
    } else if module == "pip"@ {
        Some(Tool::Pip)
    } else {
        None
    }
}

/// The plan for a command line. `-m` and the name of a known module select what that module
/// stands for, with the arguments after the name; everything else goes to Python unchanged.
pub open spec fn planned(args: Seq<Seq<char>>, verbose: u8) -> PlanView {
    if args.len() >= 2 && args[0] == "-m"@ && tool_of(args[1]) is Some {
        PlanView::Delegate { tool: tool_of(args[1])->0, args: args.skip(2), verbose }
    } else if args.len() >= 2 && args[0] == "-m"@ && args[1] == "py_compile"@ {
        PlanView::PyCompile { args: args.skip(2), verbose }
    } else {
        PlanView::Generic { args, verbose }
    }
}

/// A copy of the arguments from position `from` on.
pub(crate) fn copy_from(args: &[String], from: usize) -> (copy: Vec<String>)
    requires
        from <= args@.len(),
    ensures
        model::texts(copy@) == model::texts(args@).skip(from as int),
        copy@.len() == args@.len() - from,
        forall|k: int| 0 <= k < copy@.len() ==> #[trigger] copy@[k]@ == args@[from + k]@,
{
    let mut copy: Vec<String> = Vec::new();
    let mut i: usize = from;
    while i < args.len()
        invariant
            from <= i <= args@.len(),
            copy@.len() == i - from,
            forall|k: int| 0 <= k < copy@.len() ==> #[trigger] copy@[k]@ == args@[from + k]@,
        decreases args@.len() - i,
    {
        copy.push(args[i].clone());
        i = i + 1;
    }
    copy
}

/// The tool that a module's name stands for, where the tool has a filter of its own.
fn tool_for(module: &str) -> (tool: Option<Tool>)
    ensures
        tool == tool_of(module@),
{
    if text::same(module, "pytest") {
        Some(Tool::Pytest)
    } else if text::same(module, "mypy") {
        Some(Tool::Mypy)
    } else if text::same(module, "ruff") {
        Some(Tool::Ruff)
    } else if text::same(module, "pip") {
        Some(Tool::Pip)
    } else {
        None
    }
}

/// Chooses what to do for the arguments of a `python3` command.
pub fn run(args: &[String], verbose: u8) -> (plan: Plan)
    ensures
        plan@ == planned(model::texts(args@), verbose),
        match plan {
            Plan::Delegate { tool, args: rest, verbose: v } => {
                &&& args@.len() >= 2 && args@[0]@ == "-m"@
                &&& tool == Tool::Pytest <==> args@[1]@ == "pytest"@
                &&& tool == Tool::Mypy <==> args@[1]@ == "mypy"@
                &&& tool == Tool::Ruff <==> args@[1]@ == "ruff"@
                &&& tool == Tool::Pip <==> args@[1]@ == "pip"@
                &&& rest@.len() == args@.len() - 2
                &&& forall|i: int|
                    0 <= i < rest@.len() ==> #[trigger] rest@[i]@ == args@[i + 2]@
                &&& v == verbose
            },
            Plan::PyCompile { args: rest, verbose: v } => {
                &&& args@.len() >= 2 && args@[0]@ == "-m"@ && args@[1]@ == "py_compile"@
                &&& rest@.len() == args@.len() - 2
                &&& forall|i: int|
                    0 <= i < rest@.len() ==> #[trigger] rest@[i]@ == args@[i + 2]@
                &&& v == verbose
            },
            Plan::Generic { args: all, verbose: v } => {
                &&& args@.len() < 2 || args@[0]@ != "-m"@ || {
                    &&& args@[1]@ != "pytest"@
                    &&& args@[1]@ != "mypy"@
                    &&& args@[1]@ != "ruff"@
                    &&& args@[1]@ != "pip"@
                    &&& args@[1]@ != "py_compile"@
                }
                &&& all@.len() == args@.len()
                &&& forall|i: int| 0 <= i < all@.len() ==> #[trigger] all@[i]@ == args@[i]@
                &&& v == verbose
            },
        },
{
    proof {
        lemma_module_names_differ();
    }
    if args.len() >= 2 && text::same(args[0].as_str(), "-m") {
        let module = args[1].as_str();
        assert(module@ == model::texts(args@)[1]);
        if let Some(tool) = tool_for(module) {
            return Plan::Delegate { tool, args: copy_from(args, 2), verbose };
        }
        if text::same(module, "py_compile") {
            return Plan::PyCompile { args: copy_from(args, 2), verbose };
        }
    }
    proof {
        let all = model::texts(args@);
        assert(all.skip(0) == all);
        if all.len() >= 2 {
            assert(all[0] == args@[0]@);
        }
    }
    Plan::Generic { args: copy_from(args, 0), verbose }
}

/// After `-m`, a tool's name hands all further arguments to that tool, whatever they are.
pub proof fn law_tool_takes_the_rest(module: Seq<char>, rest: Seq<Seq<char>>, verbose: u8)
    requires
        tool_of(module) is Some,
    ensures
        planned(seq!["-m"@, module] + rest, verbose) == (PlanView::Delegate {
            tool: tool_of(module)->0,
            args: rest,
            verbose,
        }),
{
    let args = seq!["-m"@, module] + rest;
    assert(args[0] == "-m"@ && args[1] == module);
    assert(args.skip(2) == rest);
}

/// After `-m`, `py_compile` takes all further arguments as the files to compile.
pub proof fn law_py_compile_takes_the_rest(rest: Seq<Seq<char>>, verbose: u8)
    ensures
        planned(seq!["-m"@, "py_compile"@] + rest, verbose) == (PlanView::PyCompile {
            args: rest,
            verbose,
        }),
{
    let args = seq!["-m"@, "py_compile"@] + rest;
    assert(args[0] == "-m"@ && args[1] == "py_compile"@);
    assert(args.skip(2) == rest);
    lemma_module_names_differ();
}

/// Arguments that do not begin with `-m` and the name of a known module stay as they are.
pub proof fn law_other_arguments_stay(args: Seq<Seq<char>>, verbose: u8)
    requires
        args.len() < 2 || args[0] != "-m"@ || (tool_of(args[1]) is None && args[1]
            != "py_compile"@),
    ensures
        planned(args, verbose) == (PlanView::Generic { args, verbose }),
{
}

/// No two of the known modules have the same name.
proof fn lemma_module_names_differ()
    ensures
        "pytest"@ != "mypy"@,
        "pytest"@ != "ruff"@,
        "pytest"@ != "pip"@,
        "pytest"@ != "py_compile"@,
        "mypy"@ != "ruff"@,
        "mypy"@ != "pip"@,
        "mypy"@ != "py_compile"@,
        "ruff"@ != "pip"@,
        "ruff"@ != "py_compile"@,
        "pip"@ != "py_compile"@,
{
    reveal_strlit("pytest");
    reveal_strlit("mypy");
    reveal_strlit("ruff");
    reveal_strlit("pip");
    reveal_strlit("py_compile");
    assert("pytest"@.len() == 6);
    assert("mypy"@.len() == 4);
    assert("ruff"@.len() == 4);
    assert("pip"@.len() == 3);
    assert("py_compile"@.len() == 10);
    assert("mypy"@[0] == 'm');
    assert("ruff"@[0] == 'r');
}

/// Another tool takes over exactly after `-m` and one of the four names, each of which stands for
/// its own tool, and it gets the arguments after the name.
pub proof fn law_tools_take_over_by_name(args: Seq<Seq<char>>, verbose: u8)
    ensures
        planned(args, verbose) is Delegate <==> args.len() >= 2 && args[0] == "-m"@ && (args[1]
            == "pytest"@ || args[1] == "mypy"@ || args[1] == "ruff"@ || args[1] == "pip"@),
        args.len() >= 2 && args[0] == "-m"@ && args[1] == "pytest"@ ==> planned(args, verbose) == (
        PlanView::Delegate { tool: Tool::Pytest, args: args.skip(2), verbose }),
        args.len() >= 2 && args[0] == "-m"@ && args[1] == "mypy"@ ==> planned(args, verbose) == (
        PlanView::Delegate { tool: Tool::Mypy, args: args.skip(2), verbose }),
        args.len() >= 2 && args[0] == "-m"@ && args[1] == "ruff"@ ==> planned(args, verbose) == (
        PlanView::Delegate { tool: Tool::Ruff, args: args.skip(2), verbose }),
        args.len() >= 2 && args[0] == "-m"@ && args[1] == "pip"@ ==> planned(args, verbose) == (
        PlanView::Delegate { tool: Tool::Pip, args: args.skip(2), verbose }),
{
    lemma_module_names_differ();
}

/// Python compiles exactly after `-m` and `py_compile`; in every other case that no tool takes
/// over it runs with the arguments as they are.
pub proof fn law_python_runs_everything_else(args: Seq<Seq<char>>, verbose: u8)
    ensures
        planned(args, verbose) is PyCompile <==> args.len() >= 2 && args[0] == "-m"@ && args[1]
            == "py_compile"@,
        args.len() < 2 || args[0] != "-m"@ || (args[1] != "pytest"@ && args[1] != "mypy"@ && args[1]
            != "ruff"@ && args[1] != "pip"@ && args[1] != "py_compile"@) ==> planned(args, verbose)
            == (PlanView::Generic { args, verbose }),
{
    lemma_module_names_differ();
}

} // verus!
