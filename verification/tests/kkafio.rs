use mxu::child::{
    kkafio_is_running, kkafio_stop, ChildPoll, ConsoleStep, KkafioState, ReapEvent, ReapStep,
    StartEvent, StartStep, StopEvent, StopStep,
};
use mxu::cli::{
    insert_instance, kkafio_start, resolve_cli, venv_python_parts, CliFiles, CLI_EXE, CLI_SCRIPT,
};

fn files(exe: bool, script: bool, python: bool) -> CliFiles {
    CliFiles {
        exe: "D:/k/kkafio_cli.exe".to_string(),
        exe_exists: exe,
        script: "D:/k/kkafio_cli.py".to_string(),
        script_exists: script,
        venv_python: "D:/k/.venv/Scripts/python.exe".to_string(),
        venv_python_exists: python,
    }
}

#[test]
fn the_packaged_program_comes_first() {
    for (script, python) in [(true, true), (true, false), (false, false)] {
        let (program, args) = resolve_cli("D:/k", &files(true, script, python)).unwrap();
        assert_eq!(program, "D:/k/kkafio_cli.exe");
        assert_eq!(args, vec!["run"]);
    }
}

#[test]
fn the_script_by_its_own_interpreter() {
    let (program, args) = resolve_cli("D:/k", &files(false, true, true)).unwrap();
    assert_eq!(program, "D:/k/.venv/Scripts/python.exe");
    assert_eq!(args, vec!["-u", "D:/k/kkafio_cli.py", "run"]);
}

#[test]
fn the_script_by_uv() {
    let (program, args) = resolve_cli("D:/k", &files(false, true, false)).unwrap();
    assert_eq!(program, "uv");
    assert_eq!(args, vec!["run", "--quiet", "python", "-u", "D:/k/kkafio_cli.py", "run"]);
}

#[test]
fn nothing_to_launch_in_the_directory() {
    assert_eq!(
        resolve_cli("D:/k", &files(false, false, true)).unwrap_err(),
        "Neither kkafio_cli.exe nor kkafio_cli.py found in D:/k"
    );
    assert_eq!(
        kkafio_start("", &files(false, false, false), Some(1)).err().unwrap(),
        "Neither kkafio_cli.exe nor kkafio_cli.py found in "
    );
}

#[test]
fn the_interpreter_by_platform() {
    assert_eq!(venv_python_parts(true), vec![".venv", "Scripts", "python.exe"]);
    assert_eq!(venv_python_parts(false), vec![".venv", "bin", "python"]);
    assert_eq!((CLI_EXE, CLI_SCRIPT), ("kkafio_cli.exe", "kkafio_cli.py"));
}

#[test]
fn an_instance_goes_before_run() {
    let mut args: Vec<String> = vec!["-u".to_string(), "s".to_string(), "run".to_string()];
    insert_instance(&mut args, Some(12));
    assert_eq!(args, vec!["-u", "s", "--instance", "12", "run"]);
    insert_instance(&mut args, None);
    assert_eq!(args.len(), 5);
    let mut empty: Vec<String> = Vec::new();
    insert_instance(&mut empty, Some(0));
    assert_eq!(empty, vec!["--instance", "0"]);
}

#[test]
fn a_launch_plan() {
    let plan = kkafio_start("D:/k", &files(true, false, false), Some(3)).ok().unwrap();
    assert_eq!(plan.program, "D:/k/kkafio_cli.exe");
    assert_eq!(plan.args, vec!["--instance", "3", "run"]);
    assert_eq!(plan.cwd, "D:/k");
    assert_eq!(
        plan.env,
        vec![
            ("PYTHONIOENCODING".to_string(), "utf-8".to_string()),
            ("PYTHONUTF8".to_string(), "1".to_string()),
        ]
    );
    assert_eq!(plan.creation_flags, 0x0800_0000 | 0x0000_0200);
    assert!(plan.pipes_stdout && plan.pipes_stderr && !plan.through_uv);
    assert!(!kkafio_start("D:/k", &files(false, true, true), None).ok().unwrap().through_uv);
    let plain = kkafio_start("D:/k", &files(false, true, false), None).ok().unwrap();
    assert_eq!(plain.args.last().unwrap(), "run");
    assert_eq!(plain.args.len(), 6);
    assert!(plain.pipes_stdout && plain.pipes_stderr && plain.through_uv);
}

#[test]
fn a_start_replaces_the_child() {
    let mut state: KkafioState<u32> = KkafioState::new();
    assert_eq!(state.release(), None);
    assert!(state.adopt(Ok(7)).is_ok());
    assert_eq!(state.release(), Some(7));
    assert_eq!(
        state.adopt(Err("no such file".to_string())).unwrap_err(),
        "Failed to spawn KKAFIO CLI: no such file"
    );
    assert_eq!(state.child, None);
}

#[test]
fn the_old_child_goes_before_the_new_one() {
    let mut step = StartStep::begin(true);
    assert_eq!(step, StartStep::KillOld);
    step = step.next(StartEvent::Located { found: true });
    assert_eq!(step, StartStep::KillOld);
    step = step.next(StartEvent::OldGone);
    assert_eq!(step, StartStep::Locate);
    step = step.next(StartEvent::Located { found: true });
    assert_eq!(step, StartStep::Spawn);
    assert_eq!(
        step.next(StartEvent::Spawned { succeeded: false }),
        StartStep::Done { started: false }
    );
    step = step.next(StartEvent::Spawned { succeeded: true });
    assert_eq!(step, StartStep::Done { started: true });
    assert_eq!(
        StartStep::begin(false).next(StartEvent::Located { found: false }),
        StartStep::Done { started: false }
    );
}

#[test]
fn stopping_empties_the_slot() {
    let mut state: KkafioState<u32> = KkafioState::new();
    assert_eq!(kkafio_stop(&mut state), None);
    state.child = Some(4);
    assert_eq!(kkafio_stop(&mut state), Some((4, StopStep::Ask)));
    assert_eq!(kkafio_stop(&mut state), None);
}

#[test]
fn whether_the_child_runs() {
    let mut state: KkafioState<u32> = KkafioState::new();
    assert!(!kkafio_is_running(&mut state, ChildPoll::Running));
    state.child = Some(4);
    assert!(kkafio_is_running(&mut state, ChildPoll::Running));
    assert_eq!(state.child, Some(4));
    assert!(!kkafio_is_running(&mut state, ChildPoll::Unknown));
    assert_eq!(state.child, Some(4));
    assert!(!kkafio_is_running(&mut state, ChildPoll::Exited));
    assert_eq!(state.child, None);
    assert!(!kkafio_is_running(&mut state, ChildPoll::Running));
    state.child = Some(5);
    assert_eq!(kkafio_stop(&mut state), Some((5, StopStep::Ask)));
    assert!(!kkafio_is_running(&mut state, ChildPoll::Running));
}

#[test]
fn a_borrowed_console_is_given_back() {
    for sent in [true, false] {
        let mut step = ConsoleStep::Attach.next(true);
        assert_eq!(step, ConsoleStep::Ignore);
        step = step.next(false);
        assert_eq!(step, ConsoleStep::Send);
        step = step.next(sent);
        assert_eq!(step, ConsoleStep::Detach { sent });
        step = step.next(false);
        assert_eq!(step, ConsoleStep::Restore { sent });
        step = step.next(true);
        assert_eq!(step, ConsoleStep::Done { sent });
        assert_eq!(step.next(!sent), ConsoleStep::Done { sent });
    }
    assert_eq!(ConsoleStep::Attach.next(false), ConsoleStep::Done { sent: false });
}

#[test]
fn a_patient_stop() {
    let look = |poll: ChildPoll, elapsed_millis: u64| ReapEvent::Polled { poll, elapsed_millis };
    let mut step = ReapStep::begin(true);
    let mut looks = 0u64;
    while step == ReapStep::Poll {
        step = step.next(look(ChildPoll::Running, looks * 200));
        looks += 1;
        if step == (ReapStep::Rest { millis: 200 }) {
            step = step.next(ReapEvent::Over);
        }
    }
    assert_eq!(looks, 41);
    assert_eq!(step, ReapStep::Kill);
    step = step.next(ReapEvent::Over);
    assert_eq!(step, ReapStep::Wait);
    step = step.next(ReapEvent::Over);
    assert_eq!(step, ReapStep::Done { killed: true });
    assert_eq!(
        ReapStep::Poll.next(look(ChildPoll::Running, 7999)),
        ReapStep::Rest { millis: 200 }
    );
    assert_eq!(ReapStep::Poll.next(look(ChildPoll::Running, 8000)), ReapStep::Kill);
}

#[test]
fn other_ways_to_stop() {
    let look = |poll: ChildPoll| ReapEvent::Polled { poll, elapsed_millis: 9000 };
    assert_eq!(ReapStep::begin(false), ReapStep::Kill);
    assert_eq!(ReapStep::Poll.next(look(ChildPoll::Exited)), ReapStep::Done { killed: false });
    assert_eq!(ReapStep::Poll.next(look(ChildPoll::Unknown)), ReapStep::Kill);
    assert_eq!(ReapStep::Kill.next(look(ChildPoll::Exited)), ReapStep::Kill);
    assert_eq!(ReapStep::Poll.next(ReapEvent::Over), ReapStep::Poll);
}

#[test]
fn a_child_is_asked_before_anything_else() {
    let look = |poll: ChildPoll, elapsed_millis: u64| {
        StopEvent::Reaped(ReapEvent::Polled { poll, elapsed_millis })
    };
    let over = StopEvent::Reaped(ReapEvent::Over);
    let ask = StopStep::begin();
    assert_eq!(ask, StopStep::Ask);
    for event in [over, look(ChildPoll::Unknown, 9000)] {
        assert_eq!(ask.next(event), StopStep::Ask);
    }
    assert_eq!(ask.next(StopEvent::Asked { sent: false }), StopStep::Reap(ReapStep::Kill));
    let asked = ask.next(StopEvent::Asked { sent: true });
    assert_eq!(asked, StopStep::Reap(ReapStep::Poll));
    let resting = asked.next(look(ChildPoll::Running, 0));
    assert_eq!(resting, StopStep::Reap(ReapStep::Rest { millis: 200 }));
    let gone = resting.next(over).next(look(ChildPoll::Exited, 200));
    assert_eq!(gone, StopStep::Reap(ReapStep::Done { killed: false }));
    assert_eq!(gone.next(look(ChildPoll::Running, 9000)), gone);
    assert_eq!(asked.next(look(ChildPoll::Running, 8000)), StopStep::Reap(ReapStep::Kill));
}
