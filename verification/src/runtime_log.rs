//! The runtime logs of the instances: on disk, in memory and on the standard output.
use std::collections::VecDeque;

use vstd::prelude::*;

#[allow(unused_imports)]
use crate::text::{chars_of, joined, lines, lines_of, same_text, texts};

verus! {

/// One entry of a runtime log.
pub struct LogEntryDto {
    pub timestamp: String,
    pub log_type: String,
    pub message: String,
}

/// One entry of a runtime log, by its characters.
pub struct EntryView {
    pub timestamp: Seq<char>,
    pub log_type: Seq<char>,
    pub message: Seq<char>,
}

impl View for LogEntryDto {
    type V = EntryView;

    open spec fn view(&self) -> EntryView {
        EntryView {
            timestamp: self.timestamp@,
            log_type: self.log_type@,
            message: self.message@,
        }
    }
}

/// The characters of an instance's name that its file keeps.
pub open spec fn keeps(c: char) -> bool {
    ||| '0' <= c && c <= '9'
    ||| 'A' <= c && c <= 'Z'
    ||| 'a' <= c && c <= 'z'
    ||| c == '-'
    ||| c == '_'
}

/// The part of the file name that stands for an instance.
pub open spec fn safe_id(instance_id: Seq<char>) -> Seq<char> {
    if instance_id.len() == 0 {
        "default"@
    } else {
        instance_id.map_values(
            |c: char|
                if keeps(c) {
                    c
                } else {
                    '_'
                },
        )
    }
}

/// The name of the file that holds the runtime log of an instance.
pub open spec fn log_file(instance_id: Seq<char>) -> Seq<char> {
    "runtime-"@ + safe_id(instance_id) + ".log"@
}

/// The part of the file name that stands for an instance.
pub fn safe_instance_id(instance_id: &str) -> (r: String)
    ensures
        r@ == safe_id(instance_id@),
        r@.len() > 0,
{
    proof {
        law_log_files_stay_in_place(instance_id@);
    }
    let chars = chars_of(instance_id);
    if chars.len() == 0 {
        return "default".to_owned();
    }
    let mut out = String::new();
    let mut i: usize = 0;
    while i < chars.len()
        invariant
            i <= chars@.len(),
            chars@ == instance_id@,
            chars@.len() > 0,
            out@ == safe_id(instance_id@).take(i as int),
        decreases chars@.len() - i,
    {
        let c = chars[i];
        if ('0' <= c && c <= '9') || ('A' <= c && c <= 'Z') || ('a' <= c && c <= 'z') || c == '-'
            || c == '_' {
            out.push(c);
        } else {
            out.push('_');
        }
        i = i + 1;
        assert(out@ =~= safe_id(instance_id@).take(i as int));
    }
    assert(safe_id(instance_id@).take(i as int) =~= safe_id(instance_id@));
    out
}

/// The name of the file that holds the runtime log of an instance.
pub fn log_file_name(instance_id: &str) -> (r: String)
    ensures
        r@ == log_file(instance_id@),
{
    let mut out = joined("runtime-", safe_instance_id(instance_id).as_str());
    out.append(".log");
    out
}

/// Why there is no directory for the runtime logs.
pub enum DebugDirError {
    /// The directory of the application's data is not known, for this reason.
    NoDataDir(String),
    /// The directory could not be created, for this reason.
    NotCreated(String),
}

/// The complaint about a missing directory for the runtime logs.
pub open spec fn missing_dir(error: DebugDirError) -> Seq<char> {
    match error {
        DebugDirError::NoDataDir(why) => why@,
        DebugDirError::NotCreated(why) => "Cannot create debug dir: "@ + why@,
    }
}

/// The file that holds the runtime log of an instance, below the directory for such logs; or
/// why there is none.
pub fn runtime_log_path(instance_id: &str, debug_dir: Result<(), DebugDirError>) -> (r: Result<
    String,
    String,
>)
    ensures
        match debug_dir {
            Ok(_) => r matches Ok(name) && name@ == log_file(instance_id@),
            Err(error) => r matches Err(message) && message@ == missing_dir(error),
        },
{
    match debug_dir {
        Ok(_) => Ok(log_file_name(instance_id)),
        Err(DebugDirError::NoDataDir(why)) => Err(why),
        Err(DebugDirError::NotCreated(why)) => Err(
            joined("Cannot create debug dir: ", why.as_str()),
        ),
    }
}

proof fn lemma_default_is_safe()
    ensures
        forall|i: int| 0 <= i < "default"@.len() ==> keeps(#[trigger] "default"@[i]),
        "default"@.len() == 7,
{
    reveal_strlit("default");
}

/// Whatever the instance is called, its part of the file name is made of ASCII letters and digits,
/// hyphens and underscores, and is not empty; the name of the file holds no path separator and ends
/// in `.log`.
pub proof fn law_log_files_stay_in_place(instance_id: Seq<char>)
    ensures
        safe_id(instance_id).len() > 0,
        forall|i: int| 0 <= i < safe_id(instance_id).len() ==> keeps(#[trigger] safe_id(instance_id)[i]),
        forall|i: int|
            0 <= i < log_file(instance_id).len() ==> (#[trigger] log_file(instance_id)[i]) != '/'
                && log_file(instance_id)[i] != '\\' && log_file(instance_id)[i] != ':',
        log_file(instance_id).skip(log_file(instance_id).len() - 4) == ".log"@,
{
    lemma_default_is_safe();
    reveal_strlit("runtime-");
    reveal_strlit(".log");
    let id = safe_id(instance_id);
    let name = log_file(instance_id);
    assert forall|i: int| 0 <= i < id.len() implies keeps(#[trigger] id[i]) by {}
    assert forall|i: int| 0 <= i < name.len() implies (#[trigger] name[i]) != '/' && name[i] != '\\'
        && name[i] != ':' by {
        if 8 <= i < 8 + id.len() {
            assert(name[i] == id[i - 8]);
            assert(keeps(id[i - 8]));
        }
    }
    assert(name.skip(name.len() - 4) =~= ".log"@);
}

/// The part of the file name that stands for an instance stands for itself as well.
pub proof fn law_safe_id_is_stable(instance_id: Seq<char>)
    ensures
        safe_id(safe_id(instance_id)) == safe_id(instance_id),
{
    law_log_files_stay_in_place(instance_id);
    assert(safe_id(safe_id(instance_id)) =~= safe_id(instance_id));
}

/// Instances whose names are made of the characters that a file keeps, and are not empty, have
/// files of their own.
pub proof fn law_plain_names_have_their_own_files(a: Seq<char>, b: Seq<char>)
    requires
        a.len() > 0,
        b.len() > 0,
        forall|i: int| 0 <= i < a.len() ==> keeps(#[trigger] a[i]),
        forall|i: int| 0 <= i < b.len() ==> keeps(#[trigger] b[i]),
        log_file(a) == log_file(b),
    ensures
        a == b,
{
    assert(safe_id(a) =~= a);
    assert(safe_id(b) =~= b);
    let p = "runtime-"@.len() as int;
    assert(log_file(a).len() == p + a.len() + ".log"@.len());
    assert(log_file(b).len() == p + b.len() + ".log"@.len());
    assert(a =~= log_file(a).subrange(p, p + a.len()));
    assert(b =~= log_file(b).subrange(p, p + b.len()));
}

/// The upper-case form of a text, by the mapping of Unicode.
pub uninterp spec fn upper_case(s: Seq<char>) -> Seq<char>;

/// `str::to_uppercase`: the upper-case form of the text, which depends on the text alone.
#[verifier::external_body]
fn to_upper_case(s: &str) -> (r: String)
    ensures
        r@ == upper_case(s@),
{
    s.to_uppercase()
}

/// The line for an entry of the given time, kind and message.
pub open spec fn log_line(timestamp: Seq<char>, kind: Seq<char>, message: Seq<char>) -> Seq<char> {
    timestamp + " ["@ + kind + "] "@ + message + "\n"@
}

/// The line for an entry of the given time, kind and message.
pub fn format_log_line(timestamp: &str, kind: &str, message: &str) -> (r: String)
    ensures
        r@ == log_line(timestamp@, kind@, message@),
{
    let mut out = joined(timestamp, " [");
    out.append(kind);
    out.append("] ");
    out.append(message);
    out.append("\n");
    out
}

/// What goes to disk for an entry.
pub struct LogAppend {
    /// The file, below the directory for runtime logs.
    pub file_name: String,
    /// What is added at its end.
    pub line: String,
}

/// What an entry adds to the file of its instance, its kind in upper case; or why there is no such
/// file.
pub fn append_runtime_log_line(
    instance_id: &str,
    entry: &LogEntryDto,
    debug_dir: Result<(), DebugDirError>,
) -> (r: Result<LogAppend, String>)
    ensures
        match debug_dir {
            Ok(_) => {
                &&& r matches Ok(append)
                &&& append.file_name@ == log_file(instance_id@)
                &&& append.line@ == log_line(
                    entry@.timestamp,
                    upper_case(entry@.log_type),
                    entry@.message,
                )
            },
            Err(error) => r matches Err(message) && message@ == missing_dir(error),
        },
{
    match runtime_log_path(instance_id, debug_dir) {
        Ok(file_name) => {
            let kind = to_upper_case(entry.log_type.as_str());
            let line = format_log_line(
                entry.timestamp.as_str(),
                kind.as_str(),
                entry.message.as_str(),
            );
            Ok(LogAppend { file_name, line })
        },
        Err(message) => Err(message),
    }
}

/// What is to be done with an entry that is pushed.
#[derive(Clone, Copy, Debug, PartialEq, Eq)]
pub enum PushStep {
    /// Add its line to the file of its instance.
    Append,
    /// Add it to the buffer in memory.
    Buffer,
    /// Nothing more.
    Done { pushed: bool },
}

/// What came of it.
#[derive(Clone, Copy, Debug, PartialEq, Eq)]
pub enum PushEvent {
    Appended { succeeded: bool },
    Buffered { succeeded: bool },
}

impl PushStep {
    /// The step after an event. An event that nobody waits for changes nothing.
    pub open spec fn after(self, event: PushEvent) -> PushStep {
        match (self, event) {
            (PushStep::Append, PushEvent::Appended { .. }) => PushStep::Buffer,
            (PushStep::Buffer, PushEvent::Buffered { succeeded }) => PushStep::Done {
                pushed: succeeded,
            },
            _ => self,
        }
    }
}

/// The step after an event. The file comes first, and whatever becomes of it, the buffer follows.
pub fn push_log(step: PushStep, event: PushEvent) -> (r: PushStep)
    ensures
        r == step.after(event),
{
    match (step, event) {
        (PushStep::Append, PushEvent::Appended { .. }) => PushStep::Buffer,
        (PushStep::Buffer, PushEvent::Buffered { succeeded }) => PushStep::Done {
            pushed: succeeded,
        },
        _ => step,
    }
}

/// The step after the given events.
pub open spec fn push_run(events: Seq<PushEvent>) -> PushStep
    decreases events.len(),
{
    if events.len() == 0 {
        PushStep::Append
    } else {
        push_run(events.drop_last()).after(events.last())
    }
}

/// What becomes of the file never decides how a push goes on or ends.
pub proof fn law_disk_does_not_decide(a: Seq<PushEvent>, b: Seq<PushEvent>)
    requires
        a.len() == b.len(),
        forall|i: int|
            0 <= i < a.len() ==> #[trigger] a[i] == b[i] || (a[i] is Appended && b[i] is Appended),
    ensures
        push_run(a) == push_run(b),
    decreases a.len(),
{
    if a.len() > 0 {
        law_disk_does_not_decide(a.drop_last(), b.drop_last());
        assert(a[a.len() - 1] == a.last());
    }
}

/// A push ends with what became of the buffer, and is not over before that: until an entry was
/// offered to the file, the buffer is not touched.
pub proof fn law_buffer_decides(events: Seq<PushEvent>, appended: bool, buffered: bool)
    ensures
        push_run(seq![PushEvent::Appended { succeeded: appended }]) == PushStep::Buffer,
        push_run(
            seq![
                PushEvent::Appended { succeeded: appended },
                PushEvent::Buffered { succeeded: buffered },
            ],
        ) == (PushStep::Done { pushed: buffered }),
        (forall|i: int| 0 <= i < events.len() ==> events[i] is Buffered) ==> push_run(events)
            == PushStep::Append,
{
    reveal_with_fuel(push_run, 3);
    let first = seq![PushEvent::Appended { succeeded: appended }];
    let both = first.push(PushEvent::Buffered { succeeded: buffered });
    assert(both =~= seq![
        PushEvent::Appended { succeeded: appended },
        PushEvent::Buffered { succeeded: buffered },
    ]);
    assert(both.drop_last() =~= first);
    assert(first.drop_last() =~= Seq::empty());
    if forall|i: int| 0 <= i < events.len() ==> events[i] is Buffered {
        lemma_buffer_waits(events);
    }
}

proof fn lemma_buffer_waits(events: Seq<PushEvent>)
    requires
        forall|i: int| 0 <= i < events.len() ==> events[i] is Buffered,
    ensures
        push_run(events) == PushStep::Append,
    decreases events.len(),
{
    if events.len() > 0 {
        lemma_buffer_waits(events.drop_last());
    }
}

/// The log of one instance as it is kept in memory.
pub struct InstanceLog {
    pub instance_id: String,
    pub entries: VecDeque<LogEntryDto>,
}

/// The log of one instance as it is handed out.
pub struct InstanceLogCopy {
    pub instance_id: String,
    pub entries: Vec<LogEntryDto>,
}

/// The log of one instance, by its characters.
pub struct InstanceLogView {
    pub instance_id: Seq<char>,
    pub entries: Seq<EntryView>,
}

/// What a list of entries holds.
pub open spec fn entry_views(entries: Seq<LogEntryDto>) -> Seq<EntryView> {
    Seq::new(entries.len(), |i: int| entries[i]@)
}

impl View for InstanceLog {
    type V = InstanceLogView;

    open spec fn view(&self) -> InstanceLogView {
        InstanceLogView { instance_id: self.instance_id@, entries: entry_views(self.entries@) }
    }
}

impl View for InstanceLogCopy {
    type V = InstanceLogView;

    open spec fn view(&self) -> InstanceLogView {
        InstanceLogView { instance_id: self.instance_id@, entries: entry_views(self.entries@) }
    }
}

/// A copy of the log of one instance.
fn copy_log(log: &InstanceLog) -> (r: InstanceLogCopy)
    ensures
        r@ == log@,
{
    let mut entries: Vec<LogEntryDto> = Vec::new();
    let mut i: usize = 0;
    while i < log.entries.len()
        invariant
            i <= log.entries@.len(),
            entry_views(entries@) == entry_views(log.entries@).take(i as int),
        decreases log.entries@.len() - i,
    {
        let entry = &log.entries[i];
        let ghost before = entry_views(entries@);
        entries.push(
            LogEntryDto {
                timestamp: entry.timestamp.clone(),
                log_type: entry.log_type.clone(),
                message: entry.message.clone(),
            },
        );
        i = i + 1;
        assert(entry_views(entries@) =~= before.push(entry@));
        assert(entry_views(entries@) =~= entry_views(log.entries@).take(i as int));
    }
    assert(entry_views(log.entries@).take(i as int) =~= entry_views(log.entries@));
    InstanceLogCopy { instance_id: log.instance_id.clone(), entries }
}

/// What a list of logs holds.
pub open spec fn log_views(logs: Seq<InstanceLog>) -> Seq<InstanceLogView> {
    Seq::new(logs.len(), |i: int| logs[i]@)
}

/// What a list of copied logs holds.
pub open spec fn copy_views(logs: Seq<InstanceLogCopy>) -> Seq<InstanceLogView> {
    Seq::new(logs.len(), |i: int| logs[i]@)
}

/// Whether every instance has one log only.
pub open spec fn one_log_each(logs: Seq<InstanceLogView>) -> bool {
    forall|i: int, j: int|
        0 <= i < j < logs.len() ==> (#[trigger] logs[i]).instance_id != (
        #[trigger] logs[j]).instance_id
}

/// A copy of the logs of all instances: each entry of each instance, in its order.
pub fn get_all_logs(logs: &Vec<InstanceLog>) -> (r: Vec<InstanceLogCopy>)
    ensures
        copy_views(r@) == log_views(logs@),
        one_log_each(log_views(logs@)) ==> one_log_each(copy_views(r@)),
        r@.len() == logs@.len(),
        forall|i: int|
            0 <= i < logs@.len() ==> (#[trigger] r@[i]).instance_id@ == logs@[i].instance_id@
                && r@[i].entries@.len() == logs@[i].entries@.len(),
        forall|i: int, j: int|
            0 <= i < logs@.len() && 0 <= j < logs@[i].entries@.len() ==> {
                let copy = #[trigger] r@[i].entries@[j];
                let entry = logs@[i].entries@[j];
                &&& copy.timestamp@ == entry.timestamp@
                &&& copy.log_type@ == entry.log_type@
                &&& copy.message@ == entry.message@
            },
{
    let mut copies: Vec<InstanceLogCopy> = Vec::new();
    let mut i: usize = 0;
    while i < logs.len()
        invariant
            i <= logs@.len(),
            copies@.len() == i,
            forall|j: int| 0 <= j < i ==> (#[trigger] copies@[j])@ == logs@[j]@,
        decreases logs@.len() - i,
    {
        copies.push(copy_log(&logs[i]));
        i = i + 1;
    }
    assert(copy_views(copies@) =~= log_views(logs@));
    proof {
        assert forall|i: int| 0 <= i < logs@.len() implies (#[trigger] copies@[i]).instance_id@
            == logs@[i].instance_id@ && copies@[i].entries@.len() == logs@[i].entries@.len() by {
            assert(copies@[i]@ == logs@[i]@);
            assert(copies@[i]@.entries.len() == copies@[i].entries@.len());
            assert(logs@[i]@.entries.len() == logs@[i].entries@.len());
        }
        assert forall|i: int, j: int|
            0 <= i < logs@.len() && 0 <= j < logs@[i].entries@.len() implies {
            let copy = #[trigger] copies@[i].entries@[j];
            let entry = logs@[i].entries@[j];
            &&& copy.timestamp@ == entry.timestamp@
            &&& copy.log_type@ == entry.log_type@
            &&& copy.message@ == entry.message@
        } by {
            assert(copies@[i]@ == logs@[i]@);
            assert(copies@[i].entries@.len() == logs@[i].entries@.len());
            assert(copies@[i]@.entries[j] == copies@[i].entries@[j]@);
            assert(logs@[i]@.entries[j] == logs@[i].entries@[j]@);
        }
    }
    copies
}

/// The entries of every instance, by its name.
pub open spec fn by_instance(logs: Seq<InstanceLogView>) -> Map<Seq<char>, Seq<EntryView>>
    decreases logs.len(),
{
    if logs.len() == 0 {
        Map::empty()
    } else {
        by_instance(logs.drop_last()).insert(logs.last().instance_id, logs.last().entries)
    }
}

/// The logs of all instances but one, in their order.
pub open spec fn without_instance(
    logs: Seq<InstanceLogView>,
    instance_id: Seq<char>,
) -> Seq<InstanceLogView> {
    logs.filter(|log: InstanceLogView| log.instance_id != instance_id)
}

proof fn lemma_one_more_log(logs: Seq<InstanceLogView>, instance_id: Seq<char>)
    requires
        logs.len() > 0,
    ensures
        without_instance(logs, instance_id) == (if logs.last().instance_id != instance_id {
            without_instance(logs.drop_last(), instance_id).push(logs.last())
        } else {
            without_instance(logs.drop_last(), instance_id)
        }),
{
    reveal(Seq::filter);
}

/// Takes the log of an instance out of the logs; those of the others stay as they are, in their
/// order. Where every instance had one log only, this stays so.
pub fn forget_instance(logs: &mut Vec<InstanceLog>, instance_id: &str)
    ensures
        log_views(final(logs)@) == without_instance(log_views(old(logs)@), instance_id@),
        one_log_each(log_views(old(logs)@)) ==> one_log_each(log_views(final(logs)@)),
{
    let ghost all = log_views(logs@);
    let ghost mut seen: int = 0;
    let mut i: usize = 0;
    proof {
        reveal(Seq::filter);
        assert(all.take(0) =~= Seq::empty());
        assert(log_views(logs@) =~= without_instance(all.take(0), instance_id@) + all.skip(0));
    }
    while i < logs.len()
        invariant
            0 <= seen <= all.len(),
            log_views(logs@) == without_instance(all.take(seen), instance_id@) + all.skip(seen),
            i == without_instance(all.take(seen), instance_id@).len(),
        decreases logs@.len() - i,
    {
        let ghost before = log_views(logs@);
        let ghost kept = without_instance(all.take(seen), instance_id@);
        proof {
            assert(before.len() == logs@.len());
            assert(before[i as int] == logs@[i as int]@);
            assert(before[i as int] == all[seen]);
            assert(all.take(seen + 1).drop_last() =~= all.take(seen));
            lemma_one_more_log(all.take(seen + 1), instance_id@);
        }
        if same_text(logs[i].instance_id.as_str(), instance_id) {
            logs.remove(i);
            assert(log_views(logs@) =~= before.remove(i as int));
            assert(before.remove(i as int) =~= kept + all.skip(seen + 1));
        } else {
            i = i + 1;
            assert(log_views(logs@) =~= kept.push(all[seen]) + all.skip(seen + 1));
        }
        proof {
            seen = seen + 1;
        }
    }
    proof {
        assert(log_views(logs@).len() == logs@.len());
        assert(all.take(seen) =~= all);
        assert(log_views(logs@) =~= without_instance(all, instance_id@));
        if one_log_each(all) {
            law_clearing_keeps_one_log_each(all, instance_id@);
        }
    }
}

/// What is to be done once the log of an instance has been cleared in memory, or could not be.
pub enum ClearStep {
    /// Remove this file of the runtime logs.
    RemoveFile { name: String },
    /// Nothing more.
    Done { result: Result<(), String> },
}

/// What is to be done, by its characters; a result by the reason of its failure, if it is one.
pub enum ClearStepView {
    RemoveFile { name: Seq<char> },
    Done { failed: Option<Seq<char>> },
}

impl View for ClearStep {
    type V = ClearStepView;

    open spec fn view(&self) -> ClearStepView {
        match self {
            ClearStep::RemoveFile { name } => ClearStepView::RemoveFile { name: name@ },
            ClearStep::Done { result } => ClearStepView::Done {
                failed: match result {
                    Ok(_) => None,
                    Err(why) => Some(why@),
                },
            },
        }
    }
}

impl ClearStepView {
    /// The step after the file was removed, or could not be.
    pub open spec fn after(self, removed: bool) -> ClearStepView {
        match self {
            ClearStepView::RemoveFile { .. } => ClearStepView::Done { failed: None },
            ClearStepView::Done { .. } => self,
        }
    }
}

impl ClearStep {
    /// The step after the file was removed, or could not be.
    pub fn next(self, removed: bool) -> (r: ClearStep)
        ensures
            r@ == self@.after(removed),
    {
        match self {
            ClearStep::RemoveFile { .. } => ClearStep::Done { result: Ok(()) },
            ClearStep::Done { result } => ClearStep::Done { result },
        }
    }
}

/// What is to be done when the log of an instance is cleared: its file goes where the logs in memory
/// could be had, and stays where they could not.
pub open spec fn clearing(instance_id: Seq<char>, locked: Result<(), String>) -> ClearStepView {
    match locked {
        Ok(_) => ClearStepView::RemoveFile { name: log_file(instance_id) },
        Err(why) => ClearStepView::Done { failed: Some(why@) },
    }
}

/// The logs in memory after that of one instance was to be cleared.
pub open spec fn cleared(
    logs: Seq<InstanceLogView>,
    instance_id: Seq<char>,
    locked: Result<(), String>,
) -> Seq<InstanceLogView> {
    match locked {
        Ok(_) => without_instance(logs, instance_id),
        Err(_) => logs,
    }
}

/// Clears the log of an instance in memory, where the logs can be had; `locked` says whether they can.
pub fn clear_instance_logs(
    logs: &mut Vec<InstanceLog>,
    instance_id: &str,
    locked: Result<(), String>,
) -> (r: ClearStep)
    ensures
        r@ == clearing(instance_id@, locked),
        log_views(final(logs)@) == cleared(log_views(old(logs)@), instance_id@, locked),
        one_log_each(log_views(old(logs)@)) ==> one_log_each(log_views(final(logs)@)),
{
    match locked {
        Ok(_) => {
            forget_instance(logs, instance_id);
            ClearStep::RemoveFile { name: log_file_name(instance_id) }
        },
        Err(why) => ClearStep::Done { result: Err(why) },
    }
}

/// Clearing the log of an instance leaves no entry of it, and every entry of all others.
pub proof fn law_clearing_spares_the_others(logs: Seq<InstanceLogView>, instance_id: Seq<char>)
    ensures
        by_instance(without_instance(logs, instance_id)) == by_instance(logs).remove(instance_id),
    decreases logs.len(),
{
    if logs.len() == 0 {
        reveal(Seq::filter);
        assert(by_instance(logs).remove(instance_id) =~= Map::empty());
    } else {
        let before = logs.drop_last();
        law_clearing_spares_the_others(before, instance_id);
        lemma_one_more_log(logs, instance_id);
        let kept = without_instance(before, instance_id);
        if logs.last().instance_id != instance_id {
            assert(kept.push(logs.last()).drop_last() =~= kept);
        }
        assert(by_instance(without_instance(logs, instance_id)) =~= by_instance(logs).remove(
            instance_id,
        ));
    }
}

/// Where every instance has one log only, this stays so when one of them is cleared.
pub proof fn law_clearing_keeps_one_log_each(logs: Seq<InstanceLogView>, instance_id: Seq<char>)
    requires
        one_log_each(logs),
    ensures
        one_log_each(without_instance(logs, instance_id)),
    decreases logs.len(),
{
    lemma_kept_logs(logs, instance_id);
    if logs.len() == 0 {
        reveal(Seq::filter);
    } else {
        let before = logs.drop_last();
        law_clearing_keeps_one_log_each(before, instance_id);
        lemma_one_more_log(logs, instance_id);
        lemma_kept_logs(before, instance_id);
        let kept = without_instance(before, instance_id);
        let all = without_instance(logs, instance_id);
        assert forall|i: int, j: int| 0 <= i < j < all.len() implies (
        #[trigger] all[i]).instance_id != (#[trigger] all[j]).instance_id by {
            assert(all[i] == kept[i]);
            if j < kept.len() {
                assert(all[j] == kept[j]);
            } else {
                assert(before.contains(kept[i]));
                let k = choose|k: int| 0 <= k < before.len() && before[k] == kept[i];
                assert(logs[k].instance_id != logs[logs.len() - 1].instance_id);
            }
        }
    }
}

proof fn lemma_kept_logs(logs: Seq<InstanceLogView>, instance_id: Seq<char>)
    ensures
        forall|i: int|
            0 <= i < without_instance(logs, instance_id).len() ==> logs.contains(
                #[trigger] without_instance(logs, instance_id)[i],
            ),
    decreases logs.len(),
{
    if logs.len() == 0 {
        reveal(Seq::filter);
    } else {
        let before = logs.drop_last();
        lemma_kept_logs(before, instance_id);
        lemma_one_more_log(logs, instance_id);
        let kept = without_instance(before, instance_id);
        let all = without_instance(logs, instance_id);
        assert forall|i: int| 0 <= i < all.len() implies logs.contains(#[trigger] all[i]) by {
            if i < kept.len() {
                assert(all[i] == kept[i]);
                assert(before.contains(kept[i]));
                let k = choose|k: int| 0 <= k < before.len() && before[k] == kept[i];
                assert(logs[k] == all[i]);
            } else {
                assert(logs[logs.len() - 1] == all[i]);
            }
        }
    }
}

/// Whether the file could be removed does not decide: where the logs in memory could be had, clearing
/// succeeds, and where they could not, it fails with the reason for that, and no file is removed.
pub proof fn law_clearing_does_not_need_the_file(
    instance_id: Seq<char>,
    locked: Result<(), String>,
    removed: bool,
)
    ensures
        clearing(instance_id, locked).after(removed) == (ClearStepView::Done {
            failed: match locked {
                Ok(_) => None,
                Err(why) => Some(why@),
            },
        }),
        clearing(instance_id, locked) is RemoveFile <==> locked is Ok,
{
}

/// Whether `c` is an ASCII digit.
pub open spec fn is_digit(c: char) -> bool {
    '0' <= c && c <= '9'
}

/// The number that the two digits of a text from a place on stand for.
pub open spec fn two_digits(s: Seq<char>, at: int) -> int {
    (s[at] as int - '0' as int) * 10 + (s[at + 1] as int - '0' as int)
}

/// Whether a text is a year from 1969 on: four digits, or a plus sign and five digits at least.
pub open spec fn is_year(s: Seq<char>) -> bool {
    ||| s.len() == 4 && forall|i: int| 0 <= i < 4 ==> is_digit(#[trigger] s[i])
    ||| s.len() >= 6 && s[0] == '+' && forall|i: int| 1 <= i < s.len() ==> is_digit(#[trigger] s[i])
}

/// How many days a month has at most.
pub open spec fn longest(month: int) -> int {
    if month == 2 {
        29
    } else if month == 4 || month == 6 || month == 9 || month == 11 {
        30
    } else {
        31
    }
}

/// Whether a text is a year and, right behind it, the rest of a time like `-12-31 23:59:59.999`: month,
/// day, hour, minute and second in two digits each, in their ranges, and the milliseconds in three.
/// The second may be a leap second.
pub open spec fn is_clock_text(s: Seq<char>) -> bool {
    let t = s.skip(s.len() - 19);
    &&& s.len() >= 23
    &&& is_year(s.take(s.len() - 19))
    &&& t[0] == '-' && t[3] == '-' && t[6] == ' ' && t[9] == ':' && t[12] == ':' && t[15] == '.'
    &&& forall|i: int|
        0 <= i < 19 && i != 0 && i != 3 && i != 6 && i != 9 && i != 12 && i != 15 ==> is_digit(
            #[trigger] t[i],
        )
    &&& 1 <= two_digits(t, 1) <= 12
    &&& 1 <= two_digits(t, 4) <= longest(two_digits(t, 1))
    &&& two_digits(t, 7) <= 23
    &&& two_digits(t, 10) <= 59
    &&& two_digits(t, 13) <= 60
}

/// `chrono::Local::now` formatted by `DateTime::format`: the local time to the millisecond, as a year
/// of four digits, or of more behind a plus sign; month, day, hour, minute and second of two digits
/// each, each in its range; and milliseconds of three. Which time it is depends on the clock and the
/// time zone of the machine.
#[verifier::external_body]
fn local_timestamp() -> (r: String)
    ensures
        is_clock_text(r@),
{
    chrono::Local::now().format("%Y-%m-%d %H:%M:%S.%3f").to_string()
}

/// A line with the time in front.
pub open spec fn stamped(timestamp: Seq<char>, line: Seq<char>) -> Seq<char> {
    "["@ + timestamp + "] "@ + line
}

/// The lines of a message, each with the time in front.
pub fn stdout_lines(timestamp: &str, message: &str) -> (r: Vec<String>)
    ensures
        texts(r@) == lines(message@).map_values(|line: Seq<char>| stamped(timestamp@, line)),
{
    let parts = lines_of(message);
    let ghost all = lines(message@).map_values(|line: Seq<char>| stamped(timestamp@, line));
    let mut out: Vec<String> = Vec::new();
    let mut i: usize = 0;
    assert(parts@.len() == texts(parts@).len());
    while i < parts.len()
        invariant
            i <= parts@.len(),
            texts(parts@) == lines(message@),
            parts@.len() == lines(message@).len(),
            all == lines(message@).map_values(|line: Seq<char>| stamped(timestamp@, line)),
            texts(out@) == all.take(i as int),
        decreases parts@.len() - i,
    {
        let ghost before = texts(out@);
        let mut line = joined("[", timestamp);
        line.append("] ");
        line.append(parts[i].as_str());
        assert(texts(parts@)[i as int] == parts@[i as int]@);
        out.push(line);
        i = i + 1;
        assert(texts(out@) =~= before.push(line@));
        assert(texts(out@) =~= all.take(i as int));
    }
    assert(all.take(i as int) =~= all);
    out
}

/// The lines of a message as they go to the standard output, all with one and the same time in
/// front.
pub fn log_to_stdout(message: &str) -> (r: Vec<String>)
    ensures
        exists|timestamp: Seq<char>| #[trigger]
            is_clock_text(timestamp) && texts(r@) == lines(message@).map_values(
                |line: Seq<char>| stamped(timestamp, line),
            ),
{
    let timestamp = local_timestamp();
    let out = stdout_lines(timestamp.as_str(), message);
    assert(is_clock_text(timestamp@));
    out
}

/// The part of a file name that stands for an instance has a character for each of its name: an ASCII
/// letter or digit, a hyphen or an underscore stays, anything else becomes an underscore. A name
/// without characters is `default`.
pub proof fn law_what_a_file_keeps(instance_id: Seq<char>)
    ensures
        instance_id.len() == 0 ==> safe_id(instance_id) == "default"@,
        instance_id.len() > 0 ==> safe_id(instance_id).len() == instance_id.len(),
        instance_id.len() > 0 ==> forall|i: int|
            0 <= i < instance_id.len() ==> {
                let c = instance_id[i];
                #[trigger] safe_id(instance_id)[i] == (if ('0' <= c && c <= '9') || ('A' <= c && c
                    <= 'Z') || ('a' <= c && c <= 'z') || c == '-' || c == '_' {
                    c
                } else {
                    '_'
                })
            },
        log_file(instance_id) == "runtime-"@ + safe_id(instance_id) + ".log"@,
{
}

/// A name put together of two is kept part by part.
pub proof fn law_names_are_kept_part_by_part(a: Seq<char>, b: Seq<char>)
    requires
        a.len() > 0,
        b.len() > 0,
    ensures
        safe_id(a + b) == safe_id(a) + safe_id(b),
{
    assert(safe_id(a + b) =~= safe_id(a) + safe_id(b));
}

/// A line holds the time, the kind in brackets and the message, each as it is, and ends with a line
/// feed; a missing directory is complained about with the reason as it is; and a stamped line holds
/// the time in brackets and the line as it is.
pub proof fn law_what_lines_hold(
    timestamp: Seq<char>,
    kind: Seq<char>,
    message: Seq<char>,
    error: DebugDirError,
)
    ensures
        log_line(timestamp, kind, message) == timestamp + " ["@ + kind + "] "@ + message + "\n"@,
        error matches DebugDirError::NoDataDir(why) ==> missing_dir(error) == why@,
        error matches DebugDirError::NotCreated(why) ==> missing_dir(error)
            == "Cannot create debug dir: "@ + why@,
        stamped(timestamp, message) == "["@ + timestamp + "] "@ + message,
{
}

/// Which step follows which event of a push; an event that is not waited for leaves it where it is.
pub proof fn law_push_goes_on(succeeded: bool, pushed: bool)
    ensures
        PushStep::Append.after(PushEvent::Appended { succeeded }) is Buffer,
        PushStep::Append.after(PushEvent::Buffered { succeeded }) is Append,
        PushStep::Buffer.after(PushEvent::Buffered { succeeded }) == (PushStep::Done {
            pushed: succeeded,
        }),
        PushStep::Buffer.after(PushEvent::Appended { succeeded }) is Buffer,
        (PushStep::Done { pushed }).after(PushEvent::Appended { succeeded }) == (PushStep::Done {
            pushed,
        }),
        (PushStep::Done { pushed }).after(PushEvent::Buffered { succeeded }) == (PushStep::Done {
            pushed,
        }),
{
}

/// Rows of logs lose the log of an instance row by row: what is left of two rows is what is left of
/// each, in order. A log alone stays as it is unless it is that of the instance.
pub proof fn law_clearing_row_by_row(
    a: Seq<InstanceLogView>,
    b: Seq<InstanceLogView>,
    log: InstanceLogView,
    instance_id: Seq<char>,
)
    ensures
        without_instance(a + b, instance_id) == without_instance(a, instance_id) + without_instance(
            b,
            instance_id,
        ),
        without_instance(seq![log], instance_id) == (if log.instance_id == instance_id {
            Seq::<InstanceLogView>::empty()
        } else {
            seq![log]
        }),
    decreases b.len(),
{
    reveal(Seq::filter);
    lemma_one_more_log(seq![log], instance_id);
    assert(seq![log].drop_last() =~= Seq::empty());
    assert(without_instance(seq![log], instance_id) =~= (if log.instance_id == instance_id {
        Seq::<InstanceLogView>::empty()
    } else {
        seq![log]
    }));
    if b.len() == 0 {
        assert(a + b =~= a);
        assert(without_instance(a, instance_id) + without_instance(b, instance_id)
            =~= without_instance(a, instance_id));
    } else {
        law_clearing_row_by_row(a, b.drop_last(), log, instance_id);
        assert((a + b).drop_last() =~= a + b.drop_last());
        lemma_one_more_log(a + b, instance_id);
        lemma_one_more_log(b, instance_id);
        assert(without_instance(a + b, instance_id) =~= without_instance(a, instance_id)
            + without_instance(b, instance_id));
    }
}

/// Logs that cannot be had stay as they are, with the reason for that as the outcome; logs that can
/// lose that of the instance, and its file is to go.
pub proof fn law_what_clearing_does(
    logs: Seq<InstanceLogView>,
    instance_id: Seq<char>,
    locked: Result<(), String>,
)
    ensures
        locked matches Err(why) ==> cleared(logs, instance_id, locked) == logs && clearing(
            instance_id,
            locked,
        ) == (ClearStepView::Done { failed: Some(why@) }),
        locked is Ok ==> cleared(logs, instance_id, locked) == without_instance(logs, instance_id)
            && clearing(instance_id, locked) == (ClearStepView::RemoveFile {
            name: "runtime-"@ + safe_id(instance_id) + ".log"@,
        }),
{
}

/// Entries, logs and steps are seen as they are.
pub proof fn law_log_views(
    entry: LogEntryDto,
    log: InstanceLog,
    copy: InstanceLogCopy,
    logs: Seq<InstanceLog>,
    copies: Seq<InstanceLogCopy>,
    step: ClearStep,
)
    ensures
        entry@.timestamp == entry.timestamp@,
        entry@.log_type == entry.log_type@,
        entry@.message == entry.message@,
        log@.instance_id == log.instance_id@,
        log@.entries.len() == log.entries@.len(),
        forall|i: int| 0 <= i < log.entries@.len() ==> #[trigger] log@.entries[i] == log.entries@[i]@,
        copy@.instance_id == copy.instance_id@,
        copy@.entries.len() == copy.entries@.len(),
        forall|i: int|
            0 <= i < copy.entries@.len() ==> #[trigger] copy@.entries[i] == copy.entries@[i]@,
        log_views(logs).len() == logs.len(),
        forall|i: int| 0 <= i < logs.len() ==> #[trigger] log_views(logs)[i] == logs[i]@,
        copy_views(copies).len() == copies.len(),
        forall|i: int| 0 <= i < copies.len() ==> #[trigger] copy_views(copies)[i] == copies[i]@,
        step matches ClearStep::RemoveFile { name } ==> step@ == (ClearStepView::RemoveFile {
            name: name@,
        }),
        step matches ClearStep::Done { result: Ok(_) } ==> step@ == (ClearStepView::Done {
            failed: None,
        }),
        step matches ClearStep::Done { result: Err(why) } ==> step@ == (ClearStepView::Done {
            failed: Some(why@),
        }),
{
}

/// Every instance has one log only exactly where no name occurs twice among the logs.
pub proof fn law_one_log_each(logs: Seq<InstanceLogView>)
    ensures
        one_log_each(logs) <==> logs.map_values(
            |log: InstanceLogView| log.instance_id,
        ).no_duplicates(),
{
    let names = logs.map_values(|log: InstanceLogView| log.instance_id);
    if one_log_each(logs) {
        assert forall|i: int, j: int|
            0 <= i < names.len() && 0 <= j < names.len() && i != j implies names[i] != names[j] by {
            if i < j {
                assert(logs[i].instance_id != logs[j].instance_id);
            } else {
                assert(logs[j].instance_id != logs[i].instance_id);
            }
        }
    }
    if names.no_duplicates() {
        assert forall|i: int, j: int| 0 <= i < j < logs.len() implies (
        #[trigger] logs[i]).instance_id != (#[trigger] logs[j]).instance_id by {
            assert(names[i] != names[j]);
        }
    }
}

} // verus!
