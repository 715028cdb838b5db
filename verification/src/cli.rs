//! Launching the KKAFIO command line program.
use vstd::prelude::*;

#[allow(unused_imports)]
use crate::text::{decimal, decimal_text, joined, texts};

verus! {

/// The packaged program, in its directory.
pub const CLI_EXE: &'static str = "kkafio_cli.exe";

/// The program as a script, in its directory.
pub const CLI_SCRIPT: &'static str = "kkafio_cli.py";

/// Windows: no console window for the child.
pub const CREATE_NO_WINDOW: u32 = 0x0800_0000;

/// Windows: a console process group of its own for the child.
pub const CREATE_NEW_PROCESS_GROUP: u32 = 0x0000_0200;

/// The files that can be launched, with what was found on disk.
pub struct CliFiles {
    /// The path of the packaged program.
    pub exe: String,
    pub exe_exists: bool,
    /// The path of the script.
    pub script: String,
    pub script_exists: bool,
    /// The path of the interpreter in the script's own virtual environment.
    pub venv_python: String,
    pub venv_python_exists: bool,
}

/// A program and its arguments.
pub struct CommandView {
    pub program: Seq<char>,
    pub args: Seq<Seq<char>>,
}

/// The interpreter of the virtual environment below the program's directory, as the components
/// of its path.
pub open spec fn venv_python(windows: bool) -> Seq<Seq<char>> {
    if windows {
        seq![".venv"@, "Scripts"@, "python.exe"@]
    } else {
        seq![".venv"@, "bin"@, "python"@]
    }
}

/// The interpreter of the virtual environment below the program's directory, as the components
/// of its path.
pub fn venv_python_parts(windows: bool) -> (r: Vec<String>)
    ensures
        texts(r@) == venv_python(windows),
{
    let mut parts: Vec<String> = Vec::new();
    parts.push(".venv".to_owned());
    if windows {
        parts.push("Scripts".to_owned());
        parts.push("python.exe".to_owned());
    } else {
        parts.push("bin".to_owned());
        parts.push("python".to_owned());
    }
    assert(texts(parts@) =~= venv_python(windows));
    parts
}

/// What is launched: the packaged program before the script, and the script by its own
/// interpreter before `uv run`. None where neither program nor script is there.
pub open spec fn command(files: CliFiles) -> Option<CommandView> {
    if files.exe_exists {
        Some(CommandView { program: files.exe@, args: seq!["run"@] })
    } else if files.script_exists && files.venv_python_exists {
        Some(
            CommandView {
                program: files.venv_python@,
                args: seq!["-u"@, files.script@, "run"@],
            },
        )
    } else if files.script_exists {
        Some(
            CommandView {
                program: "uv"@,
                args: seq!["run"@, "--quiet"@, "python"@, "-u"@, files.script@, "run"@],
            },
        )
    } else {
        None
    }
}

/// The complaint about a directory without the program.
pub open spec fn not_found(cwd: Seq<char>) -> Seq<char> {
    "Neither kkafio_cli.exe nor kkafio_cli.py found in "@ + cwd
}

/// The program and the arguments that start the command line program in directory `cwd`.
pub fn resolve_cli(cwd: &str, files: &CliFiles) -> (r: Result<(String, Vec<String>), String>)
    ensures
        match r {
            Ok((program, args)) => command(*files) == Some(
                CommandView { program: program@, args: texts(args@) },
            ),
            Err(message) => command(*files) is None && message@ == not_found(cwd@),
        },
        files.exe_exists ==> (r matches Ok((program, args)) && program@ == files.exe@ && texts(args@)
            == seq!["run"@]),
        !files.exe_exists && files.script_exists && files.venv_python_exists ==> (r matches Ok(
            (program, args),
        ) && program@ == files.venv_python@ && texts(args@) == seq!["-u"@, files.script@, "run"@]),
        !files.exe_exists && files.script_exists && !files.venv_python_exists ==> (r matches Ok(
            (program, args),
        ) && program@ == "uv"@ && texts(args@) == seq![
            "run"@,
            "--quiet"@,
            "python"@,
            "-u"@,
            files.script@,
            "run"@,
        ]),
        !files.exe_exists && !files.script_exists ==> (r matches Err(message) && message@
            == "Neither kkafio_cli.exe nor kkafio_cli.py found in "@ + cwd@),
{
    let mut args: Vec<String> = Vec::new();
    if files.exe_exists {
        args.push("run".to_owned());
        assert(texts(args@) =~= seq!["run"@]);
        return Ok((files.exe.clone(), args));
    }
    if files.script_exists {
        if files.venv_python_exists {
            args.push("-u".to_owned());
            args.push(files.script.clone());
            args.push("run".to_owned());
            assert(texts(args@) =~= seq!["-u"@, files.script@, "run"@]);
            return Ok((files.venv_python.clone(), args));
        }
        args.push("run".to_owned());
        args.push("--quiet".to_owned());
        args.push("python".to_owned());
        args.push("-u".to_owned());
        args.push(files.script.clone());
        args.push("run".to_owned());
        assert(texts(args@) =~= seq![
            "run"@,
            "--quiet"@,
            "python"@,
            "-u"@,
            files.script@,
            "run"@,
        ]);
        return Ok(("uv".to_owned(), args));
    }
    Err(joined("Neither kkafio_cli.exe nor kkafio_cli.py found in ", cwd))
}

/// The arguments with the choice of an instance in front of the last one.
pub open spec fn with_instance(args: Seq<Seq<char>>, instance: Option<usize>) -> Seq<Seq<char>> {
    match instance {
        Some(index) => {
            let last = if args.len() > 0 {
                args.len() - 1
            } else {
                0
            };
            args.take(last) + seq!["--instance"@, decimal(index as nat)] + args.skip(last)
        },
        None => args,
    }
}

/// Puts the choice of an instance in front of the last argument.
pub fn insert_instance(args: &mut Vec<String>, instance: Option<usize>)
    requires
        old(args)@.len() + 2 <= usize::MAX,
    ensures
        texts(final(args)@) == with_instance(texts(old(args)@), instance),
{
    if let Some(index) = instance {
        let ghost before = texts(args@);
        let last: usize = args.len().saturating_sub(1);
        args.insert(last, decimal_text(index as u64));
        args.insert(last, "--instance".to_owned());
        assert(texts(args@) =~= with_instance(before, instance));
    }
}

/// A child process to be started.
pub struct LaunchPlan {
    pub program: String,
    pub args: Vec<String>,
    pub cwd: String,
    /// Variables added to the environment, with their values.
    pub env: Vec<(String, String)>,
    /// The creation flags on Windows; without meaning elsewhere.
    pub creation_flags: u32,
    /// Whether the shell reads the standard output of the child.
    pub pipes_stdout: bool,
    /// Whether the shell reads the error output of the child.
    pub pipes_stderr: bool,
    /// Whether the script runs by `uv`, for want of an interpreter of its own: a request to exit may
    /// then not get through to it.
    pub through_uv: bool,
}

/// What the strings of a list of pairs hold.
pub open spec fn pair_texts(list: Seq<(String, String)>) -> Seq<(Seq<char>, Seq<char>)> {
    Seq::new(list.len(), |i: int| (list[i].0@, list[i].1@))
}

/// Makes the interpreter write UTF-8, whatever the console is set to.
fn python_env() -> (r: Vec<(String, String)>)
    ensures
        pair_texts(r@) == seq![("PYTHONIOENCODING"@, "utf-8"@), ("PYTHONUTF8"@, "1"@)],
{
    let mut env: Vec<(String, String)> = Vec::new();
    env.push(("PYTHONIOENCODING".to_owned(), "utf-8".to_owned()));
    env.push(("PYTHONUTF8".to_owned(), "1".to_owned()));
    assert(pair_texts(env@) =~= seq![("PYTHONIOENCODING"@, "utf-8"@), ("PYTHONUTF8"@, "1"@)]);
    env
}

/// The child process that runs the program in directory `cwd`, for one instance where one is
/// chosen. Both of its output streams are read.
pub fn kkafio_start(cwd: &str, files: &CliFiles, instance_index: Option<usize>) -> (r: Result<
    LaunchPlan,
    String,
>)
    ensures
        match r {
            Ok(plan) => {
                &&& command(*files) matches Some(found)
                &&& plan.program@ == found.program
                &&& texts(plan.args@) == with_instance(found.args, instance_index)
                &&& plan.cwd@ == cwd@
                &&& pair_texts(plan.env@) == seq![
                    ("PYTHONIOENCODING"@, "utf-8"@),
                    ("PYTHONUTF8"@, "1"@),
                ]
                &&& plan.creation_flags == 0x0800_0200
                &&& plan.pipes_stdout
                &&& plan.pipes_stderr
                &&& plan.through_uv == (!files.exe_exists && !files.venv_python_exists)
            },
            Err(message) => command(*files) is None && message@ == not_found(cwd@),
        },
        r is Ok <==> files.exe_exists || files.script_exists,
        r matches Err(message) ==> message@ == "Neither kkafio_cli.exe nor kkafio_cli.py found in "@
            + cwd@,
{
    match resolve_cli(cwd, files) {
        Ok((program, resolved)) => {
            let mut args = resolved;
            assert(args@.len() == texts(args@).len());
            insert_instance(&mut args, instance_index);
            assert(0x0800_0000u32 | 0x0000_0200u32 == 0x0800_0200u32) by (bit_vector);
            Ok(
                LaunchPlan {
                    program,
                    args,
                    cwd: cwd.to_owned(),
                    env: python_env(),
                    creation_flags: CREATE_NO_WINDOW | CREATE_NEW_PROCESS_GROUP,
                    pipes_stdout: true,
                    pipes_stderr: true,
                    through_uv: !files.exe_exists && !files.venv_python_exists,
                },
            )
        },
        Err(message) => Err(message),
    }
}

/// However the program is started, its last argument is the subcommand `run`, with or without the
/// choice of an instance.
pub proof fn law_run_comes_last(files: CliFiles, instance: Option<usize>)
    ensures
        command(files) matches Some(found) ==> {
            &&& found.args.len() > 0
            &&& found.args.last() == "run"@
            &&& with_instance(found.args, instance).last() == "run"@
        },
{
}

/// The choice of an instance adds two arguments, the flag and the index right behind it, both in
/// front of the subcommand; what was there keeps its order.
pub proof fn law_instance_precedes_run(args: Seq<Seq<char>>, index: usize)
    requires
        args.len() > 0,
    ensures
        ({
            let all = with_instance(args, Some(index));
            &&& all.len() == args.len() + 2
            &&& all[args.len() - 1] == "--instance"@
            &&& all[args.len() as int] == decimal(index as nat)
            &&& all.last() == args.last()
            &&& all.take(args.len() - 1) == args.drop_last()
        }),
{
    let all = with_instance(args, Some(index));
    assert(all.take(args.len() - 1) =~= args.drop_last());
}

/// The packaged program is launched wherever it is there, the script's own interpreter wherever it
/// is there with the script alone, and `uv` only where both are missing.
pub proof fn law_preference(files: CliFiles)
    ensures
        command(files) matches Some(found) ==> {
            &&& files.exe_exists ==> found.program == files.exe@
            &&& !files.exe_exists && files.venv_python_exists ==> found.program
                == files.venv_python@
            &&& !files.exe_exists && !files.venv_python_exists ==> found.program == "uv"@
        },
        command(files) is None <==> !files.exe_exists && !files.script_exists,
{
}

/// Different instances are launched with different arguments.
pub proof fn law_instances_are_told_apart(args: Seq<Seq<char>>, a: usize, b: usize)
    requires
        with_instance(args, Some(a)) == with_instance(args, Some(b)),
    ensures
        a == b,
{
    let last = if args.len() > 0 {
        args.len() - 1
    } else {
        0
    };
    assert(with_instance(args, Some(a))[last + 1] == decimal(a as nat));
    assert(with_instance(args, Some(b))[last + 1] == decimal(b as nat));
    crate::text::law_decimals_differ(a as nat, b as nat);
}

/// The packaged program gets the one argument `run`, whatever its path and whatever else is there;
/// the script's own interpreter gets `-u`, the script and `run`; and `uv` gets `run --quiet python`
/// in front of that. Without program and script there is nothing to launch.
pub proof fn law_exact_commands(files: CliFiles)
    ensures
        files.exe_exists ==> command(files) == Some(
            CommandView { program: files.exe@, args: seq!["run"@] },
        ),
        !files.exe_exists && files.script_exists && files.venv_python_exists ==> command(files)
            == Some(
            CommandView { program: files.venv_python@, args: seq!["-u"@, files.script@, "run"@] },
        ),
        !files.exe_exists && files.script_exists && !files.venv_python_exists ==> command(files)
            == Some(
            CommandView {
                program: "uv"@,
                args: seq!["run"@, "--quiet"@, "python"@, "-u"@, files.script@, "run"@],
            },
        ),
        !files.exe_exists && !files.script_exists ==> command(files) is None,
{
}

/// Where the packaged program is there, script and interpreter do not matter; and `uv` is given what the
/// interpreter would have been given, behind `run --quiet python`.
pub proof fn law_commands_compared(a: CliFiles, b: CliFiles)
    requires
        a.exe@ == b.exe@,
        a.script@ == b.script@,
        a.exe_exists == b.exe_exists,
    ensures
        a.exe_exists ==> command(a) == command(b),
        !a.exe_exists && a.script_exists && b.script_exists && a.venv_python_exists
            && !b.venv_python_exists ==> command(b)->0.args == seq!["run"@, "--quiet"@, "python"@]
            + command(a)->0.args,
{
    if !a.exe_exists && a.script_exists && b.script_exists && a.venv_python_exists
        && !b.venv_python_exists {
        assert(command(b)->0.args =~= seq!["run"@, "--quiet"@, "python"@] + command(a)->0.args);
    }
}

/// Without the choice of an instance the arguments stay as they are; with it, to take the two
/// arguments out again gives back what was there, whatever it was.
pub proof fn law_instance_can_be_taken_out(args: Seq<Seq<char>>, index: usize)
    ensures
        with_instance(args, None) == args,
        args.len() == 0 ==> with_instance(args, Some(index)) == seq![
            "--instance"@,
            decimal(index as nat),
        ],
        args.len() > 0 ==> {
            let all = with_instance(args, Some(index));
            let at = args.len() - 1;
            &&& all.len() == args.len() + 2
            &&& all.remove(at).remove(at) == args
            &&& all[at] == "--instance"@
            &&& all[at + 1] == decimal(index as nat)
        },
{
    let all = with_instance(args, Some(index));
    if args.len() == 0 {
        assert(all =~= seq!["--instance"@, decimal(index as nat)]);
    } else {
        let at = args.len() - 1;
        assert(all.remove(at).remove(at) =~= args);
    }
}

/// The complaint about a directory names it behind a fixed text.
pub proof fn law_complaint_names_the_directory(cwd: Seq<char>)
    ensures
        not_found(cwd) == "Neither kkafio_cli.exe nor kkafio_cli.py found in "@ + cwd,
{
}

/// A list of pairs of texts has one pair for each pair of strings, and it is what they hold.
pub proof fn law_pair_texts(list: Seq<(String, String)>)
    ensures
        pair_texts(list).len() == list.len(),
        forall|i: int|
            0 <= i < list.len() ==> #[trigger] pair_texts(list)[i] == (list[i].0@, list[i].1@),
{
}

} // verus!
