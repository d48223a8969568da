# python3_cmd

Runs `python3` and shows what matters of its output.

* `python3 -m pytest`, `mypy`, `ruff` and `pip` are handed to the commands of those tools.
* `python3 -m py_compile` shows the lines that report errors, or one line of success.
* Every other run of Python that fails shows its tracebacks by their last place and their error.

`src/` is the library, verified with Verus: what a command line stands for (`dispatch`), what is
started and what is made of the result (`process`), the two filters (`compile_errors`,
`traceback`), and the text operations under them (`ansi`, `text`), stated over sequences of
characters (`model`). `app/` starts the processes, prints and exits. `tests/` runs the library.
