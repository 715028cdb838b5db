use mxu::game::{
    detached_flags, find_first, game_executables, kkafio_run_game, kkafio_run_studio,
    launch_result, studio_executables,
};
use mxu::output::{emit_line, reader_step, LineRead, Stream};
use mxu::trash_job::{kkafio_trash, TrashEvent, TrashJob, TrashStage};

fn result(job: TrashJob) -> (bool, String) {
    match job.stage {
        TrashStage::Done { result } => (result.ok, result.error),
        _ => panic!("the job is not done"),
    }
}

fn failed(why: &str) -> TrashEvent {
    TrashEvent::Trashed(Err(why.to_string()))
}

#[test]
fn a_missing_target() {
    for delete_folder in [true, false] {
        let job = kkafio_trash("/x".to_string(), delete_folder).next(TrashEvent::Exists(false));
        assert_eq!(result(job), (false, "Path does not exist: /x".to_string()));
    }
}

#[test]
fn a_whole_folder() {
    let job = kkafio_trash("/x".to_string(), true).next(TrashEvent::Exists(true));
    assert!(matches!(job.stage, TrashStage::TrashTarget));
    assert_eq!(result(job.next(TrashEvent::Trashed(Ok(())))), (true, String::new()));
    let job = kkafio_trash("/x".to_string(), true).next(TrashEvent::Exists(true));
    assert_eq!(result(job.next(failed("busy"))), (false, "/x: busy".to_string()));
}

#[test]
fn a_file_without_its_folder() {
    let job = kkafio_trash("/x.txt".to_string(), false)
        .next(TrashEvent::Exists(true))
        .next(TrashEvent::IsDir(false));
    assert!(matches!(job.stage, TrashStage::TrashTarget));
    assert_eq!(result(job.next(failed("no"))), (false, "/x.txt: no".to_string()));
}

fn opened() -> TrashJob {
    let job = kkafio_trash("/x".to_string(), false)
        .next(TrashEvent::Exists(true))
        .next(TrashEvent::IsDir(true));
    assert!(matches!(job.stage, TrashStage::OpenDir));
    job.next(TrashEvent::Opened(Ok(())))
}

#[test]
fn the_contents_of_a_folder() {
    let entry = |name: &str| TrashEvent::Entry(Some(name.to_string()));
    let job = opened()
        .next(entry("/x/a"))
        .next(failed("busy"))
        .next(entry("/x/b"))
        .next(TrashEvent::Trashed(Ok(())))
        .next(TrashEvent::EntryUnreadable("bad block".to_string()))
        .next(entry("/x/c"))
        .next(failed("locked"))
        .next(TrashEvent::Entry(None));
    assert_eq!(result(job), (false, "/x/a: busy\nbad block\n/x/c: locked".to_string()));
    assert_eq!(result(opened().next(TrashEvent::Entry(None))), (true, String::new()));
    let job = opened()
        .next(TrashEvent::EntryUnreadable("bad block".to_string()))
        .next(TrashEvent::Entry(None));
    assert_eq!(result(job), (false, "bad block".to_string()));
}

#[test]
fn a_folder_that_cannot_be_listed() {
    let job = kkafio_trash("/x".to_string(), false)
        .next(TrashEvent::Exists(true))
        .next(TrashEvent::IsDir(true))
        .next(TrashEvent::Opened(Err("denied".to_string())));
    assert_eq!(result(job), (false, "denied".to_string()));
}

#[test]
fn an_event_out_of_turn_changes_nothing() {
    let job = kkafio_trash("/x".to_string(), false).next(TrashEvent::IsDir(true));
    assert!(matches!(job.stage, TrashStage::AskExists));
}

#[test]
fn candidates_by_game() {
    let party = vec![
        "Koikatsu Party.exe",
        "Koikatu.exe",
        "KoikatsuSunshine.exe",
        "Koikatsu Sunshine.exe",
    ];
    assert_eq!(game_executables(None), party);
    assert_eq!(game_executables(Some("KoikatsuParty")), party);
    assert_eq!(game_executables(Some("koikatsu")), party);
    assert_eq!(
        game_executables(Some("Koikatsu")),
        vec!["Koikatu.exe", "Koikatsu Party.exe", "KoikatsuSunshine.exe", "Koikatsu Sunshine.exe"]
    );
    assert_eq!(
        game_executables(Some("KoikatsuSunshine")),
        vec!["KoikatsuSunshine.exe", "Koikatsu Sunshine.exe", "Koikatsu Party.exe", "Koikatu.exe"]
    );
    assert_eq!(studio_executables(), vec!["CharaStudio.exe"]);
}

#[test]
fn the_first_that_is_there() {
    assert_eq!(find_first(&vec![]), None);
    assert_eq!(find_first(&vec![false, false]), None);
    assert_eq!(find_first(&vec![false, true, true]), Some(1));
    let pick = |found: Vec<bool>| kkafio_run_game("D:/g", Some("KoikatsuSunshine"), &found);
    let plan = pick(vec![false, true, true, false]).ok().unwrap();
    assert_eq!((plan.name.as_str(), plan.directory.as_str()), ("Koikatsu Sunshine.exe", "D:/g"));
    assert!(plan.args.is_empty());
    assert_eq!(plan.creation_flags, 0x208);
    assert_eq!(pick(vec![false, false, false, true]).ok().unwrap().name, "Koikatu.exe");
    let none = pick(vec![false; 4]).err().unwrap();
    assert!(!none.ok);
    assert_eq!(none.exe, "");
    assert_eq!(none.error, "No Koikatsu executable found in 'D:/g'");
}

#[test]
fn the_studio() {
    let plan = kkafio_run_studio("D:/g", true).ok().unwrap();
    assert_eq!((plan.name.as_str(), plan.directory.as_str()), ("CharaStudio.exe", "D:/g"));
    assert!(plan.args.is_empty());
    assert_eq!(plan.creation_flags, 0x208);
    let none = kkafio_run_studio("D:/g", false).err().unwrap();
    assert!(!none.ok);
    assert_eq!((none.exe.as_str(), none.error.as_str()), ("", "No CharaStudio executable found in 'D:/g'"));
}

#[test]
fn results_of_launches() {
    let good = launch_result("D:/g/Koikatu.exe".to_string(), Ok(()));
    assert!(good.ok);
    assert_eq!((good.exe.as_str(), good.error.as_str()), ("D:/g/Koikatu.exe", ""));
    let bad = launch_result("D:/g/Koikatu.exe".to_string(), Err("denied".to_string()));
    assert!(!bad.ok);
    assert_eq!((bad.exe.as_str(), bad.error.as_str()), ("", "denied"));
    assert_eq!(detached_flags(), 0x208);
}

#[test]
fn output_lines() {
    let line = |s: &str| LineRead::Line(s.to_string());
    let event = emit_line("stdout", "hello");
    assert_eq!((event.stream.as_str(), event.line.as_str()), ("stdout", "hello"));
    let step = reader_step(Stream::Stdout, line("  "));
    let event = step.event.unwrap();
    assert_eq!((event.stream.as_str(), event.line.as_str(), step.reads_on), ("stdout", "  ", true));
    for end in [LineRead::End, LineRead::Failed] {
        let step = reader_step(Stream::Stdout, end);
        assert!(!step.reads_on);
        let event = step.event.unwrap();
        assert_eq!(event.stream, "stdout");
        assert_eq!(event.line, "-".repeat(68));
    }
    for text in [" a", "", " \u{3000}\t", "b"] {
        let step = reader_step(Stream::Stderr, line(text));
        let event = step.event.unwrap();
        assert_eq!((event.stream.as_str(), event.line.as_str(), step.reads_on), ("stderr", text, true));
    }
    for end in [LineRead::End, LineRead::Failed] {
        let step = reader_step(Stream::Stderr, end);
        assert!(step.event.is_none() && !step.reads_on);
    }
}

#[test]
fn a_folder_without_its_contents_stays() {
    let mut job = opened();
    for event in [
        TrashEvent::Entry(Some("/x/a".to_string())),
        failed("busy"),
        TrashEvent::Exists(true),
        TrashEvent::IsDir(false),
        TrashEvent::Entry(None),
        TrashEvent::Trashed(Ok(())),
    ] {
        job = job.next(event);
        assert!(!matches!(job.stage, TrashStage::TrashTarget));
    }
    assert_eq!(result(job), (false, "/x/a: busy".to_string()));
}
