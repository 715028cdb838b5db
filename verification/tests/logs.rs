use std::collections::VecDeque;

use mxu::runtime_log::{
    append_runtime_log_line, clear_instance_logs, forget_instance, format_log_line, get_all_logs,
    log_file_name, log_to_stdout, push_log, runtime_log_path, safe_instance_id, stdout_lines, ClearStep,
    DebugDirError, InstanceLog, LogEntryDto, PushEvent, PushStep,
};

fn entry(log_type: &str, message: &str) -> LogEntryDto {
    LogEntryDto {
        timestamp: "12:00:00".to_string(),
        log_type: log_type.to_string(),
        message: message.to_string(),
    }
}

#[test]
fn file_names_of_instances() {
    assert_eq!(log_file_name("inst-1_A"), "runtime-inst-1_A.log");
    assert_eq!(log_file_name(""), "runtime-default.log");
    assert_eq!(log_file_name("../a b"), "runtime-___a_b.log");
    assert_eq!(log_file_name("\u{5b9e}\u{4f8b}"), "runtime-__.log");
    assert_eq!(safe_instance_id("C:\\x/y"), "C__x_y");
}

#[test]
fn safe_characters_are_those_of_std() {
    for code in 0u32..0x3000 {
        if let Some(c) = char::from_u32(code) {
            let kept = c.is_ascii_alphanumeric() || c == '-' || c == '_';
            let expected = if kept { c } else { '_' };
            assert_eq!(safe_instance_id(&c.to_string()), expected.to_string());
        }
    }
}

#[test]
fn safe_names_are_stable() {
    for id in ["", "a.b", "x-y", "/"] {
        let once = safe_instance_id(id);
        assert_eq!(safe_instance_id(&once), once);
    }
    assert_ne!(log_file_name("a-b"), log_file_name("a_b"));
}

#[test]
fn directories_that_are_missing() {
    assert_eq!(runtime_log_path("a", Ok(())), Ok("runtime-a.log".to_string()));
    assert_eq!(
        runtime_log_path("a", Err(DebugDirError::NoDataDir("no home".to_string()))),
        Err("no home".to_string())
    );
    assert_eq!(
        runtime_log_path("a", Err(DebugDirError::NotCreated("denied".to_string()))),
        Err("Cannot create debug dir: denied".to_string())
    );
}

#[test]
fn lines_on_disk() {
    assert_eq!(format_log_line("t", "INFO", "m"), "t [INFO] m\n");
    let line = |entry: LogEntryDto| append_runtime_log_line("a", &entry, Ok(())).ok().unwrap().line;
    assert_eq!(line(entry("warning", "low disk")), "12:00:00 [WARNING] low disk\n");
    assert_eq!(line(entry("stra\u{df}e", "")), "12:00:00 [STRASSE] \n");
    let append = append_runtime_log_line("a/b", &entry("info", "x"), Ok(())).ok().unwrap();
    assert_eq!(append.file_name, "runtime-a_b.log");
    assert_eq!(append.line, "12:00:00 [INFO] x\n");
    let denied = DebugDirError::NotCreated("denied".to_string());
    assert_eq!(
        append_runtime_log_line("a", &entry("info", "x"), Err(denied)).err().unwrap(),
        "Cannot create debug dir: denied"
    );
}

#[test]
fn the_buffer_decides_a_push() {
    for appended in [true, false] {
        for buffered in [true, false] {
            let mut step = PushStep::Append;
            step = push_log(step, PushEvent::Buffered { succeeded: true });
            assert_eq!(step, PushStep::Append);
            step = push_log(step, PushEvent::Appended { succeeded: appended });
            assert_eq!(step, PushStep::Buffer);
            step = push_log(step, PushEvent::Buffered { succeeded: buffered });
            assert_eq!(step, PushStep::Done { pushed: buffered });
        }
    }
}

fn log(instance_id: &str, messages: &[&str]) -> InstanceLog {
    InstanceLog {
        instance_id: instance_id.to_string(),
        entries: messages.iter().map(|m| entry("info", m)).collect(),
    }
}

fn names(logs: &Vec<InstanceLog>) -> Vec<&str> {
    logs.iter().map(|log| log.instance_id.as_str()).collect()
}

#[test]
fn a_cleared_log_loses_its_file() {
    let mut logs = vec![log("a", &["1"]), log("b", &["2", "3"]), log("c", &[])];
    match clear_instance_logs(&mut logs, "b", Ok(())) {
        ClearStep::RemoveFile { name } => {
            assert_eq!(name, "runtime-b.log");
            for removed in [true, false] {
                let step = ClearStep::RemoveFile { name: name.clone() };
                assert!(matches!(step.next(removed), ClearStep::Done { result: Ok(()) }));
            }
        }
        ClearStep::Done { .. } => panic!("the file is to go"),
    }
    assert_eq!(names(&logs), vec!["a", "c"]);
    assert_eq!(logs[0].entries[0].message, "1");
    clear_instance_logs(&mut logs, "missing", Ok(()));
    assert_eq!(names(&logs), vec!["a", "c"]);
    match clear_instance_logs(&mut logs, "a", Err("poisoned".to_string())) {
        ClearStep::Done { result } => assert_eq!(result, Err("poisoned".to_string())),
        ClearStep::RemoveFile { .. } => panic!("the file is to stay"),
    }
    assert_eq!(names(&logs), vec!["a", "c"]);
    forget_instance(&mut logs, "a");
    forget_instance(&mut logs, "c");
    assert!(logs.is_empty());
}

#[test]
fn all_logs_are_copied() {
    let mut first: VecDeque<LogEntryDto> = VecDeque::new();
    first.push_back(entry("info", "2"));
    first.push_back(entry("error", "3"));
    first.push_front(entry("info", "1"));
    let logs = vec![
        InstanceLog { instance_id: "a".to_string(), entries: first },
        InstanceLog { instance_id: "b".to_string(), entries: VecDeque::new() },
    ];
    let copies = get_all_logs(&logs);
    assert_eq!(copies.len(), 2);
    assert_eq!(copies[0].instance_id, "a");
    let messages: Vec<&str> = copies[0].entries.iter().map(|e| e.message.as_str()).collect();
    assert_eq!(messages, vec!["1", "2", "3"]);
    assert_eq!(copies[0].entries[2].log_type, "error");
    assert_eq!(copies[0].entries[2].timestamp, "12:00:00");
    assert_eq!(copies[1].instance_id, "b");
    assert!(copies[1].entries.is_empty());
    assert_eq!(logs[0].entries.len(), 3);
}

#[test]
fn lines_with_the_time_in_front() {
    assert_eq!(stdout_lines("T", "a\r\nb\n\nc"), vec!["[T] a", "[T] b", "[T] ", "[T] c"]);
    assert!(stdout_lines("T", "").is_empty());
}

#[test]
fn the_local_time_in_front() {
    let lines = log_to_stdout("one\ntwo");
    assert_eq!(lines.len(), 2);
    assert!(lines[0].ends_with("] one") && lines[1].ends_with("] two"));
    let stamp = &lines[0][1..lines[0].len() - "] one".len()];
    assert_eq!(stamp, &lines[1][1..lines[1].len() - "] two".len()]);
    let tail: Vec<char> = stamp.chars().skip(stamp.chars().count() - 19).collect();
    assert!(stamp.chars().count() >= 23);
    for (i, c) in tail.iter().enumerate() {
        match i {
            0 | 3 => assert_eq!(*c, '-'),
            6 => assert_eq!(*c, ' '),
            9 | 12 => assert_eq!(*c, ':'),
            15 => assert_eq!(*c, '.'),
            _ => assert!(c.is_ascii_digit()),
        }
    }
    let year: String = stamp.chars().take(stamp.chars().count() - 19).collect();
    assert!(year.parse::<u32>().unwrap() >= 1969);
    let two = |at: usize| tail[at..at + 2].iter().collect::<String>().parse::<u32>().unwrap();
    assert!((1..=12).contains(&two(1)) && (1..=31).contains(&two(4)));
    assert!(two(7) <= 23 && two(10) <= 59 && two(13) <= 60);
}
