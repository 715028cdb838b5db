//! Moving files to the recycle bin.
use vstd::prelude::*;

#[allow(unused_imports)]
use crate::text::{joined, separated, separated_text, texts};

verus! {

/// How moving something to the recycle bin ended; `error` is empty where it succeeded.
pub struct TrashResult {
    pub ok: bool,
    pub error: String,
}

/// How moving something to the recycle bin ended, by its characters.
pub struct TrashResultView {
    pub ok: bool,
    pub error: Seq<char>,
}

impl View for TrashResult {
    type V = TrashResultView;

    open spec fn view(&self) -> TrashResultView {
        TrashResultView { ok: self.ok, error: self.error@ }
    }
}

/// The result without an error.
pub open spec fn success() -> TrashResultView {
    TrashResultView { ok: true, error: Seq::empty() }
}

/// The result with an error.
pub open spec fn failure(error: Seq<char>) -> TrashResultView {
    TrashResultView { ok: false, error }
}

/// The complaint about one item that could not be moved.
pub open spec fn item_error(item: Seq<char>, reason: Seq<char>) -> Seq<char> {
    item + ": "@ + reason
}

/// Where the job stands, and with that what is to be done next.
pub enum TrashStage {
    /// Find out whether the target exists.
    AskExists,
    /// Find out whether the target is a directory.
    AskIsDir,
    /// Open the directory to list it.
    OpenDir,
    /// Fetch the next entry of the directory.
    NextEntry { errors: Vec<String> },
    /// Move this entry to the recycle bin.
    TrashEntry { item: String, errors: Vec<String> },
    /// Move the target itself to the recycle bin.
    TrashTarget,
    /// Nothing more.
    Done { result: TrashResult },
}

/// Where the job stands, by its characters.
pub enum TrashStageView {
    AskExists,
    AskIsDir,
    OpenDir,
    NextEntry { errors: Seq<Seq<char>> },
    TrashEntry { item: Seq<char>, errors: Seq<Seq<char>> },
    TrashTarget,
    Done { result: TrashResultView },
}

impl View for TrashStage {
    type V = TrashStageView;

    open spec fn view(&self) -> TrashStageView {
        match self {
            TrashStage::AskExists => TrashStageView::AskExists,
            TrashStage::AskIsDir => TrashStageView::AskIsDir,
            TrashStage::OpenDir => TrashStageView::OpenDir,
            TrashStage::NextEntry { errors } => TrashStageView::NextEntry { errors: texts(errors@) },
            TrashStage::TrashEntry { item, errors } => TrashStageView::TrashEntry {
                item: item@,
                errors: texts(errors@),
            },
            TrashStage::TrashTarget => TrashStageView::TrashTarget,
            TrashStage::Done { result } => TrashStageView::Done { result: result@ },
        }
    }
}

/// What came of the last step.
pub enum TrashEvent {
    Exists(bool),
    IsDir(bool),
    /// The directory was opened, or not for this reason.
    Opened(Result<(), String>),
    /// The next entry, as it is shown; none at the end of the directory.
    Entry(Option<String>),
    /// The next entry could not be read, for this reason; it stays where it is.
    EntryUnreadable(String),
    /// The item was moved, or not for this reason.
    Trashed(Result<(), String>),
}

/// What came of the last step, by its characters.
pub enum TrashEventView {
    Exists(bool),
    IsDir(bool),
    Opened(Option<Seq<char>>),
    Entry(Option<Seq<char>>),
    EntryUnreadable(Seq<char>),
    Trashed(Option<Seq<char>>),
}

/// The reason of a failure, none for a success.
pub open spec fn reason(outcome: Result<(), String>) -> Option<Seq<char>> {
    match outcome {
        Ok(_) => None,
        Err(text) => Some(text@),
    }
}

impl View for TrashEvent {
    type V = TrashEventView;

    open spec fn view(&self) -> TrashEventView {
        match self {
            TrashEvent::Exists(b) => TrashEventView::Exists(*b),
            TrashEvent::IsDir(b) => TrashEventView::IsDir(*b),
            TrashEvent::Opened(outcome) => TrashEventView::Opened(reason(*outcome)),
            TrashEvent::Entry(entry) => TrashEventView::Entry(
                match entry {
                    Some(item) => Some(item@),
                    None => None,
                },
            ),
            TrashEvent::EntryUnreadable(why) => TrashEventView::EntryUnreadable(why@),
            TrashEvent::Trashed(outcome) => TrashEventView::Trashed(reason(*outcome)),
        }
    }
}

/// The result of a job on the contents of a directory: the complaints line by line.
pub open spec fn contents_result(errors: Seq<Seq<char>>) -> TrashResultView {
    if errors.len() == 0 {
        success()
    } else {
        failure(separated(errors, "\n"@))
    }
}

/// The stage after an event. An event that nobody waits for changes nothing.
pub open spec fn stage_after(
    path: Seq<char>,
    delete_folder: bool,
    stage: TrashStageView,
    event: TrashEventView,
) -> TrashStageView {
    match (stage, event) {
        (TrashStageView::AskExists, TrashEventView::Exists(exists)) => if !exists {
            TrashStageView::Done { result: failure("Path does not exist: "@ + path) }
        } else if delete_folder {
            TrashStageView::TrashTarget
        } else {
            TrashStageView::AskIsDir
        },
        (TrashStageView::AskIsDir, TrashEventView::IsDir(is_dir)) => if is_dir {
            TrashStageView::OpenDir
        } else {
            TrashStageView::TrashTarget
        },
        (TrashStageView::OpenDir, TrashEventView::Opened(failed)) => match failed {
            Some(why) => TrashStageView::Done { result: failure(why) },
            None => TrashStageView::NextEntry { errors: Seq::empty() },
        },
        (TrashStageView::NextEntry { errors }, TrashEventView::Entry(entry)) => match entry {
            Some(item) => TrashStageView::TrashEntry { item, errors },
            None => TrashStageView::Done { result: contents_result(errors) },
        },
        (TrashStageView::NextEntry { errors }, TrashEventView::EntryUnreadable(why)) => {
            TrashStageView::NextEntry { errors: errors.push(why) }
        },
        (TrashStageView::TrashEntry { item, errors }, TrashEventView::Trashed(failed)) => {
            TrashStageView::NextEntry {
                errors: match failed {
                    Some(why) => errors.push(item_error(item, why)),
                    None => errors,
                },
            }
        },
        (TrashStageView::TrashTarget, TrashEventView::Trashed(failed)) => TrashStageView::Done {
            result: match failed {
                Some(why) => failure(item_error(path, why)),
                None => success(),
            },
        },
        _ => stage,
    }
}

/// A request to move something to the recycle bin.
pub struct TrashJob {
    pub path: String,
    /// Whether a directory goes itself, or only what it contains.
    pub delete_folder: bool,
    pub stage: TrashStage,
}

/// Starts to move a file or a directory, or the contents of a directory, to the recycle bin.
pub fn kkafio_trash(path: String, delete_folder: bool) -> (r: TrashJob)
    ensures
        r.path == path,
        r.delete_folder == delete_folder,
        r.stage@ == TrashStageView::AskExists,
{
    TrashJob { path, delete_folder, stage: TrashStage::AskExists }
}

/// The complaint about one item that could not be moved.
fn item_error_text(item: &str, why: &str) -> (r: String)
    ensures
        r@ == item_error(item@, why@),
{
    let mut out = joined(item, ": ");
    out.append(why);
    out
}

/// The result without an error.
fn success_result() -> (r: TrashResult)
    ensures
        r@ == success(),
{
    TrashResult { ok: true, error: String::new() }
}

impl TrashJob {
    /// Takes note of what came of the last step, and goes on to the next.
    pub fn next(self, event: TrashEvent) -> (r: TrashJob)
        ensures
            r.path == self.path,
            r.delete_folder == self.delete_folder,
            r.stage@ == stage_after(self.path@, self.delete_folder, self.stage@, event@),
    {
        let TrashJob { path, delete_folder, stage } = self;
        let next = match (stage, event) {
            (TrashStage::AskExists, TrashEvent::Exists(exists)) => if !exists {
                let error = joined("Path does not exist: ", path.as_str());
                TrashStage::Done { result: TrashResult { ok: false, error } }
            } else if delete_folder {
                TrashStage::TrashTarget
            } else {
                TrashStage::AskIsDir
            },
            (TrashStage::AskIsDir, TrashEvent::IsDir(is_dir)) => if is_dir {
                TrashStage::OpenDir
            } else {
                TrashStage::TrashTarget
            },
            (TrashStage::OpenDir, TrashEvent::Opened(outcome)) => match outcome {
                Ok(_) => {
                    let errors: Vec<String> = Vec::new();
                    assert(texts(errors@) =~= Seq::<Seq<char>>::empty());
                    TrashStage::NextEntry { errors }
                },
                Err(error) => TrashStage::Done { result: TrashResult { ok: false, error } },
            },
            (TrashStage::NextEntry { errors }, TrashEvent::Entry(entry)) => match entry {
                Some(item) => TrashStage::TrashEntry { item, errors },
                None => if errors.len() == 0 {
                    TrashStage::Done { result: success_result() }
                } else {
                    let error = separated_text(&errors, "\n");
                    TrashStage::Done { result: TrashResult { ok: false, error } }
                },
            },
            (TrashStage::NextEntry { errors }, TrashEvent::EntryUnreadable(why)) => {
                let ghost before = texts(errors@);
                let mut more = errors;
                more.push(why);
                assert(texts(more@) =~= before.push(why@));
                TrashStage::NextEntry { errors: more }
            },
            (TrashStage::TrashEntry { item, errors }, TrashEvent::Trashed(outcome)) => {
                match outcome {
                    Ok(_) => TrashStage::NextEntry { errors },
                    Err(why) => {
                        let ghost before = texts(errors@);
                        let mut more = errors;
                        let error = item_error_text(item.as_str(), why.as_str());
                        more.push(error);
                        assert(texts(more@) =~= before.push(error@));
                        TrashStage::NextEntry { errors: more }
                    },
                }
            },
            (TrashStage::TrashTarget, TrashEvent::Trashed(outcome)) => match outcome {
                Ok(_) => TrashStage::Done { result: success_result() },
                Err(why) => {
                    let error = item_error_text(path.as_str(), why.as_str());
                    TrashStage::Done { result: TrashResult { ok: false, error } }
                },
            },
            (unchanged, _) => unchanged,
        };
        TrashJob { path, delete_folder, stage: next }
    }
}

/// The stage of a job after the given events.
pub open spec fn trash_run(
    path: Seq<char>,
    delete_folder: bool,
    events: Seq<TrashEventView>,
) -> TrashStageView
    decreases events.len(),
{
    if events.len() == 0 {
        TrashStageView::AskExists
    } else {
        stage_after(
            path,
            delete_folder,
            trash_run(path, delete_folder, events.drop_last()),
            events.last(),
        )
    }
}

/// What became of one entry of a directory.
pub enum EntryOutcome {
    /// It was moved.
    Moved { item: Seq<char> },
    /// It could not be moved.
    Stuck { item: Seq<char>, why: Seq<char> },
    /// It could not even be read.
    Unreadable { why: Seq<char> },
}

/// The complaints about the entries that were not moved, in order.
pub open spec fn complaints(entries: Seq<EntryOutcome>) -> Seq<Seq<char>>
    decreases entries.len(),
{
    if entries.len() == 0 {
        Seq::empty()
    } else {
        let before = complaints(entries.drop_last());
        match entries.last() {
            EntryOutcome::Moved { .. } => before,
            EntryOutcome::Stuck { item, why } => before.push(item_error(item, why)),
            EntryOutcome::Unreadable { why } => before.push(why),
        }
    }
}

/// The events of a job on the contents of a directory, up to the last of the entries.
pub open spec fn contents_events(entries: Seq<EntryOutcome>) -> Seq<TrashEventView>
    decreases entries.len(),
{
    if entries.len() == 0 {
        seq![
            TrashEventView::Exists(true),
            TrashEventView::IsDir(true),
            TrashEventView::Opened(None),
        ]
    } else {
        let before = contents_events(entries.drop_last());
        match entries.last() {
            EntryOutcome::Moved { item } => before.push(TrashEventView::Entry(Some(item))).push(
                TrashEventView::Trashed(None),
            ),
            EntryOutcome::Stuck { item, why } => before.push(
                TrashEventView::Entry(Some(item)),
            ).push(TrashEventView::Trashed(Some(why))),
            EntryOutcome::Unreadable { why } => before.push(TrashEventView::EntryUnreadable(why)),
        }
    }
}

proof fn lemma_one_more(
    path: Seq<char>,
    delete_folder: bool,
    events: Seq<TrashEventView>,
    event: TrashEventView,
)
    ensures
        trash_run(path, delete_folder, events.push(event)) == stage_after(
            path,
            delete_folder,
            trash_run(path, delete_folder, events),
            event,
        ),
{
    assert(events.push(event).drop_last() =~= events);
}

proof fn lemma_contents_run(path: Seq<char>, entries: Seq<EntryOutcome>)
    ensures
        trash_run(path, false, contents_events(entries)) == (TrashStageView::NextEntry {
            errors: complaints(entries),
        }),
    decreases entries.len(),
{
    let events = contents_events(entries);
    if entries.len() == 0 {
        reveal_with_fuel(trash_run, 4);
        assert(events.drop_last().drop_last().drop_last() =~= Seq::empty());
        assert(events.drop_last().last() == TrashEventView::IsDir(true));
        assert(events.drop_last().drop_last().last() == TrashEventView::Exists(true));
    } else {
        lemma_contents_run(path, entries.drop_last());
        let before = contents_events(entries.drop_last());
        match entries.last() {
            EntryOutcome::Moved { item } => {
                let listed = TrashEventView::Entry(Some(item));
                lemma_one_more(path, false, before, listed);
                lemma_one_more(path, false, before.push(listed), TrashEventView::Trashed(None));
            },
            EntryOutcome::Stuck { item, why } => {
                let listed = TrashEventView::Entry(Some(item));
                lemma_one_more(path, false, before, listed);
                lemma_one_more(path, false, before.push(listed), TrashEventView::Trashed(Some(why)));
            },
            EntryOutcome::Unreadable { why } => {
                lemma_one_more(path, false, before, TrashEventView::EntryUnreadable(why));
            },
        }
    }
}

/// Every entry of the directory gets its turn, whatever became of those before it: the result
/// names all that were not moved, in order and one in a line, and is a success exactly where every
/// entry was moved.
pub proof fn law_contents_are_all_tried(path: Seq<char>, entries: Seq<EntryOutcome>)
    ensures
        trash_run(path, false, contents_events(entries).push(TrashEventView::Entry(None))) == (
        TrashStageView::Done { result: contents_result(complaints(entries)) }),
        contents_result(complaints(entries)).ok <==> forall|i: int|
            0 <= i < entries.len() ==> #[trigger] entries[i] is Moved,
{
    lemma_contents_run(path, entries);
    lemma_one_more(path, false, contents_events(entries), TrashEventView::Entry(None));
    lemma_complaints(entries);
}

proof fn lemma_complaints(entries: Seq<EntryOutcome>)
    ensures
        complaints(entries).len() == 0 <==> forall|i: int|
            0 <= i < entries.len() ==> #[trigger] entries[i] is Moved,
    decreases entries.len(),
{
    if entries.len() > 0 {
        let before = entries.drop_last();
        lemma_complaints(before);
        if complaints(entries).len() == 0 {
            assert forall|i: int| 0 <= i < entries.len() implies #[trigger] entries[i] is Moved by {
                if i < before.len() {
                    assert(before[i] == entries[i]);
                }
            }
        } else if complaints(before).len() == 0 {
            assert(!(entries[entries.len() - 1] is Moved));
        } else {
            let i = choose|i: int| 0 <= i < before.len() && !(#[trigger] before[i] is Moved);
            assert(!(entries[i] is Moved));
        }
    }
}

/// Nothing is moved where the target does not exist, and a target that goes as a whole is
/// moved in one go, without a look at what it contains.
pub proof fn law_whole_target(path: Seq<char>, failed: Option<Seq<char>>)
    ensures
        trash_run(path, true, seq![TrashEventView::Exists(false)]) == (TrashStageView::Done {
            result: failure("Path does not exist: "@ + path),
        }),
        trash_run(path, false, seq![TrashEventView::Exists(false)]) == (TrashStageView::Done {
            result: failure("Path does not exist: "@ + path),
        }),
        trash_run(path, true, seq![TrashEventView::Exists(true)]) == TrashStageView::TrashTarget,
        trash_run(path, true, seq![TrashEventView::Exists(true), TrashEventView::Trashed(failed)])
            == (TrashStageView::Done {
            result: match failed {
                Some(why) => failure(item_error(path, why)),
                None => success(),
            },
        }),
{
    reveal_with_fuel(trash_run, 3);
    let events = seq![TrashEventView::Exists(true), TrashEventView::Trashed(failed)];
    assert(events.drop_last() =~= seq![TrashEventView::Exists(true)]);
    assert(seq![TrashEventView::Exists(true)].drop_last() =~= Seq::empty());
    assert(seq![TrashEventView::Exists(false)].drop_last() =~= Seq::empty());
}

/// A success carries no error.
pub proof fn law_success_without_error(
    path: Seq<char>,
    delete_folder: bool,
    events: Seq<TrashEventView>,
)
    ensures
        trash_run(path, delete_folder, events) matches TrashStageView::Done { result } ==> (
        result.ok ==> result.error.len() == 0),
    decreases events.len(),
{
    if events.len() > 0 {
        law_success_without_error(path, delete_folder, events.drop_last());
    }
}

/// A directory of which only the contents are to go is never moved itself.
pub proof fn law_folder_stays(path: Seq<char>, events: Seq<TrashEventView>)
    requires
        events.len() >= 2,
        events[0] == TrashEventView::Exists(true),
        events[1] == TrashEventView::IsDir(true),
    ensures
        !(trash_run(path, false, events) is TrashTarget),
{
    lemma_folder_stays(path, events);
}

proof fn lemma_folder_stays(path: Seq<char>, events: Seq<TrashEventView>)
    requires
        events.len() >= 2,
        events[0] == TrashEventView::Exists(true),
        events[1] == TrashEventView::IsDir(true),
    ensures
        ({
            let stage = trash_run(path, false, events);
            !(stage is TrashTarget) && !(stage is AskExists) && !(stage is AskIsDir)
        }),
    decreases events.len(),
{
    if events.len() == 2 {
        reveal_with_fuel(trash_run, 3);
        assert(events.drop_last().drop_last() =~= Seq::empty());
    } else {
        lemma_folder_stays(path, events.drop_last());
    }
}

/// A target that exists but is no directory is to be moved itself, whatever its path and whether its
/// folder was to go or not; nothing but a report on that move ends the job, and a job that is done has
/// such a report that its success goes by.
pub proof fn law_file_is_moved_itself(
    path: Seq<char>,
    delete_folder: bool,
    events: Seq<TrashEventView>,
)
    requires
        events.len() >= 2,
        events[0] == TrashEventView::Exists(true),
        events[1] == TrashEventView::IsDir(false),
    ensures
        (forall|i: int| 2 <= i < events.len() ==> !(events[i] is Trashed)) ==> trash_run(
            path,
            delete_folder,
            events,
        ) is TrashTarget,
        trash_run(path, delete_folder, events) is TrashTarget || trash_run(
            path,
            delete_folder,
            events,
        ) is Done,
        trash_run(path, delete_folder, events) matches TrashStageView::Done { result } ==> exists|
            k: int,
        |
            {
                &&& 2 <= k < events.len()
                &&& #[trigger] events[k] matches TrashEventView::Trashed(failed)
                &&& result.ok <==> failed is None
            },
    decreases events.len(),
{
    reveal_with_fuel(trash_run, 3);
    let before = events.drop_last();
    if events.len() == 2 {
        assert(before.drop_last() =~= Seq::empty());
        assert(before.last() == TrashEventView::Exists(true));
        assert(events.last() == TrashEventView::IsDir(false));
    } else {
        law_file_is_moved_itself(path, delete_folder, before);
        let stage = trash_run(path, delete_folder, before);
        assert(events[events.len() - 1] == events.last());
        if forall|i: int| 2 <= i < events.len() ==> !(events[i] is Trashed) {
            assert forall|i: int| 2 <= i < before.len() implies !(before[i] is Trashed) by {
                assert(before[i] == events[i]);
            }
        }
        if let TrashStageView::Done { result } = stage {
            let k = choose|k: int|
                {
                    &&& 2 <= k < before.len()
                    &&& #[trigger] before[k] matches TrashEventView::Trashed(failed)
                    &&& result.ok <==> failed is None
                };
            assert(events[k] == before[k]);
        }
    }
}

/// A target that is to go as a whole is moved in one go, whatever it is and whatever its path; nothing
/// but the report on that move ends the job.
pub proof fn law_whole_target_is_moved_itself(path: Seq<char>, events: Seq<TrashEventView>)
    requires
        events.len() >= 1,
        events[0] == TrashEventView::Exists(true),
    ensures
        (forall|i: int| 1 <= i < events.len() ==> !(events[i] is Trashed)) ==> trash_run(
            path,
            true,
            events,
        ) is TrashTarget,
        trash_run(path, true, events) is TrashTarget || trash_run(path, true, events) is Done,
    decreases events.len(),
{
    reveal_with_fuel(trash_run, 2);
    let before = events.drop_last();
    if events.len() == 1 {
        assert(before =~= Seq::empty());
    } else {
        law_whole_target_is_moved_itself(path, before);
        assert(events[events.len() - 1] == events.last());
        if forall|i: int| 1 <= i < events.len() ==> !(events[i] is Trashed) {
            assert forall|i: int| 1 <= i < before.len() implies !(before[i] is Trashed) by {
                assert(before[i] == events[i]);
            }
        }
    }
}

/// Whether every report on a move that was asked for was good, and every entry could be read.
pub open spec fn all_went_well(
    path: Seq<char>,
    delete_folder: bool,
    events: Seq<TrashEventView>,
) -> bool {
    forall|k: int|
        0 <= k < events.len() ==> {
            let stage = #[trigger] trash_run(path, delete_folder, events.take(k));
            &&& (stage is TrashEntry || stage is TrashTarget) && events[k] is Trashed ==> events[k]
                == TrashEventView::Trashed(None)
            &&& stage is NextEntry ==> !(events[k] is EntryUnreadable)
        }
}

/// Whether the target was moved, or all that it contains was listed to the end.
pub open spec fn all_was_reached(
    path: Seq<char>,
    delete_folder: bool,
    events: Seq<TrashEventView>,
) -> bool {
    exists|k: int|
        0 <= k < events.len() && {
            let stage = #[trigger] trash_run(path, delete_folder, events.take(k));
            ||| stage is TrashTarget && events[k] == TrashEventView::Trashed(None)
            ||| stage is NextEntry && events[k] == TrashEventView::Entry(None)
        }
}

/// A job ends in success only after every move that it asked for was reported as done and every entry
/// could be read, and only where the target itself was moved or its contents were listed to the end.
pub proof fn law_success_needs_every_move(
    path: Seq<char>,
    delete_folder: bool,
    events: Seq<TrashEventView>,
)
    requires
        trash_run(path, delete_folder, events) matches TrashStageView::Done { result } && result.ok,
    ensures
        all_went_well(path, delete_folder, events),
        all_was_reached(path, delete_folder, events),
{
    lemma_no_complaint_so_far(path, delete_folder, events);
}

proof fn lemma_no_complaint_so_far(
    path: Seq<char>,
    delete_folder: bool,
    events: Seq<TrashEventView>,
)
    requires
        ({
            let stage = trash_run(path, delete_folder, events);
            &&& stage matches TrashStageView::NextEntry { errors } ==> errors.len() == 0
            &&& stage matches TrashStageView::TrashEntry { errors, .. } ==> errors.len() == 0
            &&& stage matches TrashStageView::Done { result } ==> result.ok
        }),
    ensures
        all_went_well(path, delete_folder, events),
        trash_run(path, delete_folder, events) is Done ==> all_was_reached(
            path,
            delete_folder,
            events,
        ),
    decreases events.len(),
{
    if events.len() > 0 {
        let before = events.drop_last();
        let at = events.len() - 1;
        let stage = trash_run(path, delete_folder, before);
        assert(events.take(at) =~= before);
        assert(events[at] == events.last());
        assert(trash_run(path, delete_folder, events.take(at)) == stage);
        lemma_no_complaint_so_far(path, delete_folder, before);
        assert forall|k: int| 0 <= k < events.len() implies {
            let stage = #[trigger] trash_run(path, delete_folder, events.take(k));
            &&& (stage is TrashEntry || stage is TrashTarget) && events[k] is Trashed ==> events[k]
                == TrashEventView::Trashed(None)
            &&& stage is NextEntry ==> !(events[k] is EntryUnreadable)
        } by {
            if k < at {
                assert(before.take(k) =~= events.take(k));
                assert(trash_run(path, delete_folder, before.take(k)) == trash_run(
                    path,
                    delete_folder,
                    events.take(k),
                ));
                assert(before[k] == events[k]);
            }
        }
        if stage is Done {
            let k = choose|k: int|
                0 <= k < before.len() && {
                    let stage = #[trigger] trash_run(path, delete_folder, before.take(k));
                    ||| stage is TrashTarget && before[k] == TrashEventView::Trashed(None)
                    ||| stage is NextEntry && before[k] == TrashEventView::Entry(None)
                };
            assert(before.take(k) =~= events.take(k));
            assert(before[k] == events[k]);
            assert(trash_run(path, delete_folder, events.take(k)) == trash_run(
                path,
                delete_folder,
                before.take(k),
            ));
        }
    }
}

/// An entry that was listed is moved next, under the name that it was listed by, and complaints are
/// never lost: a report only ever adds to them.
pub proof fn law_every_listed_entry_is_moved(
    path: Seq<char>,
    delete_folder: bool,
    errors: Seq<Seq<char>>,
    item: Seq<char>,
    why: Seq<char>,
)
    ensures
        stage_after(
            path,
            delete_folder,
            TrashStageView::NextEntry { errors },
            TrashEventView::Entry(Some(item)),
        ) == (TrashStageView::TrashEntry { item, errors }),
        stage_after(
            path,
            delete_folder,
            TrashStageView::TrashEntry { item, errors },
            TrashEventView::Trashed(None),
        ) == (TrashStageView::NextEntry { errors }),
        stage_after(
            path,
            delete_folder,
            TrashStageView::TrashEntry { item, errors },
            TrashEventView::Trashed(Some(why)),
        ) == (TrashStageView::NextEntry { errors: errors.push(item + ": "@ + why) }),
        stage_after(
            path,
            delete_folder,
            TrashStageView::NextEntry { errors },
            TrashEventView::EntryUnreadable(why),
        ) == (TrashStageView::NextEntry { errors: errors.push(why) }),
        stage_after(
            path,
            delete_folder,
            TrashStageView::NextEntry { errors },
            TrashEventView::Entry(None),
        ) == (TrashStageView::Done {
            result: TrashResultView {
                ok: errors.len() == 0,
                error: if errors.len() == 0 {
                    Seq::empty()
                } else {
                    separated(errors, "\n"@)
                },
            },
        }),
{
}

/// What a job does about its target: one that is not there is complained about; one that goes as a
/// whole, or is no directory, is moved; a directory is listed; and what comes of the move or the
/// listing is reported as it is.
pub proof fn law_what_becomes_of_the_target(path: Seq<char>, delete_folder: bool, why: Seq<char>)
    ensures
        stage_after(path, delete_folder, TrashStageView::AskExists, TrashEventView::Exists(false)) == (
        TrashStageView::Done {
            result: TrashResultView { ok: false, error: "Path does not exist: "@ + path },
        }),
        stage_after(path, true, TrashStageView::AskExists, TrashEventView::Exists(true))
            == TrashStageView::TrashTarget,
        stage_after(path, false, TrashStageView::AskExists, TrashEventView::Exists(true))
            == TrashStageView::AskIsDir,
        stage_after(path, delete_folder, TrashStageView::AskIsDir, TrashEventView::IsDir(true))
            == TrashStageView::OpenDir,
        stage_after(path, delete_folder, TrashStageView::AskIsDir, TrashEventView::IsDir(false))
            == TrashStageView::TrashTarget,
        stage_after(path, delete_folder, TrashStageView::OpenDir, TrashEventView::Opened(None)) == (
        TrashStageView::NextEntry { errors: Seq::empty() }),
        stage_after(path, delete_folder, TrashStageView::OpenDir, TrashEventView::Opened(Some(why)))
            == (TrashStageView::Done { result: TrashResultView { ok: false, error: why } }),
        stage_after(path, delete_folder, TrashStageView::TrashTarget, TrashEventView::Trashed(None))
            == (TrashStageView::Done { result: TrashResultView { ok: true, error: Seq::empty() } }),
        stage_after(
            path,
            delete_folder,
            TrashStageView::TrashTarget,
            TrashEventView::Trashed(Some(why)),
        ) == (TrashStageView::Done {
            result: TrashResultView { ok: false, error: path + ": "@ + why },
        }),
{
}

/// An event that the stage does not wait for leaves the job where it is; a job that is done stays so.
pub proof fn law_events_out_of_turn(
    path: Seq<char>,
    delete_folder: bool,
    stage: TrashStageView,
    event: TrashEventView,
)
    requires
        !(stage is AskExists && event is Exists),
        !(stage is AskIsDir && event is IsDir),
        !(stage is OpenDir && event is Opened),
        !(stage is NextEntry && (event is Entry || event is EntryUnreadable)),
        !((stage is TrashEntry || stage is TrashTarget) && event is Trashed),
    ensures
        stage_after(path, delete_folder, stage, event) == stage,
{
}

/// A stage, an event and a result are seen as they are.
pub proof fn law_trash_views(stage: TrashStage, event: TrashEvent, result: TrashResult)
    ensures
        result@.ok == result.ok,
        result@.error == result.error@,
        stage matches TrashStage::Done { result: r } ==> stage@ == (TrashStageView::Done { result: r@ }),
        stage matches TrashStage::TrashEntry { item, errors } ==> stage@ == (
        TrashStageView::TrashEntry { item: item@, errors: texts(errors@) }),
        stage matches TrashStage::NextEntry { errors } ==> stage@ == (TrashStageView::NextEntry {
            errors: texts(errors@),
        }),
        stage@ is AskExists <==> stage is AskExists,
        stage@ is AskIsDir <==> stage is AskIsDir,
        stage@ is OpenDir <==> stage is OpenDir,
        stage@ is TrashTarget <==> stage is TrashTarget,
        event matches TrashEvent::Exists(b) ==> event@ == TrashEventView::Exists(b),
        event matches TrashEvent::IsDir(b) ==> event@ == TrashEventView::IsDir(b),
        event matches TrashEvent::Opened(Ok(_)) ==> event@ == TrashEventView::Opened(None),
        event matches TrashEvent::Opened(Err(why)) ==> event@ == TrashEventView::Opened(Some(why@)),
        event matches TrashEvent::Entry(Some(item)) ==> event@ == TrashEventView::Entry(Some(item@)),
        event matches TrashEvent::Entry(None) ==> event@ == TrashEventView::Entry(None),
        event matches TrashEvent::EntryUnreadable(why) ==> event@ == TrashEventView::EntryUnreadable(
            why@,
        ),
        event matches TrashEvent::Trashed(Ok(_)) ==> event@ == TrashEventView::Trashed(None),
        event matches TrashEvent::Trashed(Err(why)) ==> event@ == TrashEventView::Trashed(Some(why@)),
{
}

} // verus!
