//! The running child process: holding it, asking after it and stopping it.
use vstd::prelude::*;

#[allow(unused_imports)]
use crate::text::joined;

verus! {

/// How long a child may take to exit after it was asked to, in milliseconds.
pub const GRACEFUL_STOP_MILLIS: u64 = 8000;

/// The rest between two looks at a child that was asked to exit, in milliseconds.
pub const POLL_REST_MILLIS: u64 = 200;

/// The slot for the child process: there is one at most.
pub struct KkafioState<C> {
    pub child: Option<C>,
}

/// What looking at a child shows.
#[derive(Clone, Copy, Debug, PartialEq, Eq)]
pub enum ChildPoll {
    Running,
    Exited,
    /// The look itself failed.
    Unknown,
}

impl<C> KkafioState<C> {
    /// No child.
    pub fn new() -> (r: KkafioState<C>)
        ensures
            r.child is None,
    {
        KkafioState { child: None }
    }

    /// Takes the child out of the slot, to be killed before another one is started.
    pub fn release(&mut self) -> (r: Option<C>)
        ensures
            r == old(self).child,
            final(self).child is None,
    {
        self.child.take()
    }

    /// Keeps a child that was started. Where the start failed, the slot stays as it is, and
    /// the failure is passed on.
    pub fn adopt(&mut self, spawned: Result<C, String>) -> (r: Result<(), String>)
        ensures
            match spawned {
                Ok(child) => r is Ok && final(self).child == Some(child),
                Err(reason) => {
                    &&& r matches Err(message)
                    &&& message@ == "Failed to spawn KKAFIO CLI: "@ + reason@
                    &&& final(self).child == old(self).child
                },
            },
    {
        match spawned {
            Ok(child) => {
                self.child = Some(child);
                Ok(())
            },
            Err(reason) => Err(joined("Failed to spawn KKAFIO CLI: ", reason.as_str())),
        }
    }
}

/// What is to be done to start a child.
#[derive(Clone, Copy, Debug, PartialEq, Eq)]
pub enum StartStep {
    /// Kill the child that is still there, and wait until it is gone.
    KillOld,
    /// Find out what is to be launched.
    Locate,
    /// Launch it, and have its output read.
    Spawn,
    /// Nothing more.
    Done { started: bool },
}

/// What came of it.
#[derive(Clone, Copy, Debug, PartialEq, Eq)]
pub enum StartEvent {
    /// The old child is gone.
    OldGone,
    Located { found: bool },
    Spawned { succeeded: bool },
}

impl StartStep {
    /// The first step: a child that is still there goes first.
    pub open spec fn first(held: bool) -> StartStep {
        if held {
            StartStep::KillOld
        } else {
            StartStep::Locate
        }
    }

    /// The step after an event. An event that nobody waits for changes nothing.
    pub open spec fn after(self, event: StartEvent) -> StartStep {
        match (self, event) {
            (StartStep::KillOld, StartEvent::OldGone) => StartStep::Locate,
            (StartStep::Locate, StartEvent::Located { found }) => if found {
                StartStep::Spawn
            } else {
                StartStep::Done { started: false }
            },
            (StartStep::Spawn, StartEvent::Spawned { succeeded }) => StartStep::Done {
                started: succeeded,
            },
            _ => self,
        }
    }

    /// The first step.
    pub fn begin(held: bool) -> (r: StartStep)
        ensures
            r == StartStep::first(held),
    {
        if held {
            StartStep::KillOld
        } else {
            StartStep::Locate
        }
    }

    /// The step after an event.
    pub fn next(self, event: StartEvent) -> (r: StartStep)
        ensures
            r == self.after(event),
    {
        match (self, event) {
            (StartStep::KillOld, StartEvent::OldGone) => StartStep::Locate,
            (StartStep::Locate, StartEvent::Located { found }) => if found {
                StartStep::Spawn
            } else {
                StartStep::Done { started: false }
            },
            (StartStep::Spawn, StartEvent::Spawned { succeeded }) => StartStep::Done {
                started: succeeded,
            },
            _ => self,
        }
    }
}

/// The step after the given events.
pub open spec fn start_run(held: bool, events: Seq<StartEvent>) -> StartStep
    decreases events.len(),
{
    if events.len() == 0 {
        StartStep::first(held)
    } else {
        start_run(held, events.drop_last()).after(events.last())
    }
}

/// A child that is still there is killed before anything else happens: as long as it is not gone,
/// nothing is located and nothing launched.
pub proof fn law_old_child_goes_first(events: Seq<StartEvent>)
    requires
        forall|i: int| 0 <= i < events.len() ==> events[i] != StartEvent::OldGone,
    ensures
        start_run(true, events) == StartStep::KillOld,
    decreases events.len(),
{
    if events.len() > 0 {
        law_old_child_goes_first(events.drop_last());
    }
}

/// A start succeeds only by a launch that succeeded, of something that was found.
pub proof fn law_start_needs_find_and_launch(held: bool, events: Seq<StartEvent>)
    ensures
        start_run(held, events) == (StartStep::Done { started: true }) ==> events.contains(
            StartEvent::Located { found: true },
        ) && events.contains(StartEvent::Spawned { succeeded: true }),
        start_run(held, events) == StartStep::Spawn ==> events.contains(
            StartEvent::Located { found: true },
        ),
    decreases events.len(),
{
    if events.len() > 0 {
        let before = events.drop_last();
        law_start_needs_find_and_launch(held, before);
        assert(events[events.len() - 1] == events.last());
        assert forall|e: StartEvent| before.contains(e) implies events.contains(e) by {
            let i = choose|i: int| 0 <= i < before.len() && before[i] == e;
            assert(events[i] == e);
        }
    }
}

/// Takes the child to be stopped, where there is one, with the first step to that end; from then on
/// none is held.
pub fn kkafio_stop<C>(state: &mut KkafioState<C>) -> (r: Option<(C, StopStep)>)
    ensures
        r == (match old(state).child {
            Some(child) => Some((child, StopStep::Ask)),
            None => None,
        }),
        final(state).child is None,
{
    match state.release() {
        Some(child) => Some((child, StopStep::begin())),
        None => None,
    }
}

/// Whether the child that is held counts as alive, `poll` being what a look at it showed.
pub open spec fn alive<C>(held: Option<C>, poll: ChildPoll) -> bool {
    held is Some && poll == ChildPoll::Running
}

/// The child that is held after a look: one that has exited is forgotten.
pub open spec fn kept<C>(held: Option<C>, poll: ChildPoll) -> Option<C> {
    if poll == ChildPoll::Exited {
        None
    } else {
        held
    }
}

/// Whether the child is alive, `poll` being what a look at it showed; without a child it is not
/// alive. A child that has exited is forgotten, one that cannot be looked at is kept.
pub fn kkafio_is_running<C>(state: &mut KkafioState<C>, poll: ChildPoll) -> (r: bool)
    ensures
        r == alive(old(state).child, poll),
        final(state).child == kept(old(state).child, poll),
        r <==> old(state).child is Some && poll is Running,
        poll is Exited ==> final(state).child is None,
        !(poll is Exited) ==> final(state).child == old(state).child,
{
    if state.child.is_none() {
        return false;
    }
    match poll {
        ChildPoll::Running => true,
        ChildPoll::Exited => {
            state.child = None;
            false
        },
        ChildPoll::Unknown => false,
    }
}

/// The child that is held after the given looks.
pub open spec fn kept_after<C>(held: Option<C>, polls: Seq<ChildPoll>) -> Option<C>
    decreases polls.len(),
{
    if polls.len() == 0 {
        held
    } else {
        kept(kept_after(held, polls.drop_last()), polls.last())
    }
}

/// A child that was stopped is not alive, and no look brings it back.
pub proof fn law_stopped_child_stays_stopped<C>(polls: Seq<ChildPoll>, later: ChildPoll)
    ensures
        kept_after(None::<C>, polls) is None,
        !alive(kept_after(None::<C>, polls), later),
    decreases polls.len(),
{
    if polls.len() > 0 {
        law_stopped_child_stays_stopped::<C>(polls.drop_last(), later);
    }
}

/// Looks lose a child exactly where one of them showed that it had exited; from then on it is not
/// alive.
pub proof fn law_exited_child_is_forgotten<C>(child: C, polls: Seq<ChildPoll>, later: ChildPoll)
    ensures
        kept_after(Some(child), polls) == (if polls.contains(ChildPoll::Exited) {
            None
        } else {
            Some(child)
        }),
        polls.contains(ChildPoll::Exited) ==> !alive(kept_after(Some(child), polls), later),
    decreases polls.len(),
{
    if polls.len() > 0 {
        let before = polls.drop_last();
        law_exited_child_is_forgotten(child, before, later);
        if polls.last() == ChildPoll::Exited {
            assert(polls[polls.len() - 1] == ChildPoll::Exited);
        } else if before.contains(ChildPoll::Exited) {
            let i = choose|i: int| 0 <= i < before.len() && before[i] == ChildPoll::Exited;
            assert(polls[i] == ChildPoll::Exited);
        } else if polls.contains(ChildPoll::Exited) {
            let i = choose|i: int| 0 <= i < polls.len() && polls[i] == ChildPoll::Exited;
            assert(before[i] == ChildPoll::Exited);
        }
    }
}

/// The next call to ask a child to exit through its own console on Windows.
#[derive(Clone, Copy, Debug, PartialEq, Eq)]
pub enum ConsoleStep {
    /// Borrow the child's console.
    Attach,
    /// Have this process ignore what is about to be sent.
    Ignore,
    /// Send the event to the child's process group.
    Send,
    /// Give the console back.
    Detach { sent: bool },
    /// Stop ignoring events.
    Restore { sent: bool },
    /// Nothing more; `sent` says whether the child was asked.
    Done { sent: bool },
}

impl ConsoleStep {
    /// The step after a call that succeeded or not.
    pub open spec fn after(self, succeeded: bool) -> ConsoleStep {
        match self {
            ConsoleStep::Attach => if succeeded {
                ConsoleStep::Ignore
            } else {
                ConsoleStep::Done { sent: false }
            },
            ConsoleStep::Ignore => ConsoleStep::Send,
            ConsoleStep::Send => ConsoleStep::Detach { sent: succeeded },
            ConsoleStep::Detach { sent } => ConsoleStep::Restore { sent },
            ConsoleStep::Restore { sent } => ConsoleStep::Done { sent },
            ConsoleStep::Done { sent } => ConsoleStep::Done { sent },
        }
    }

    /// The step after a call that succeeded or not.
    pub fn next(self, succeeded: bool) -> (r: ConsoleStep)
        ensures
            r == self.after(succeeded),
    {
        match self {
            ConsoleStep::Attach => if succeeded {
                ConsoleStep::Ignore
            } else {
                ConsoleStep::Done { sent: false }
            },
            ConsoleStep::Ignore => ConsoleStep::Send,
            ConsoleStep::Send => ConsoleStep::Detach { sent: succeeded },
            ConsoleStep::Detach { sent } => ConsoleStep::Restore { sent },
            ConsoleStep::Restore { sent } => ConsoleStep::Done { sent },
            ConsoleStep::Done { sent } => ConsoleStep::Done { sent },
        }
    }
}

/// The step after calls with the given outcomes.
pub open spec fn console_run(outcomes: Seq<bool>) -> ConsoleStep
    decreases outcomes.len(),
{
    if outcomes.len() == 0 {
        ConsoleStep::Attach
    } else {
        console_run(outcomes.drop_last()).after(outcomes.last())
    }
}

/// A console that could not be borrowed ends the attempt at once, with nothing sent.
pub proof fn law_console_without_attach(outcomes: Seq<bool>)
    requires
        outcomes.len() > 0,
        !outcomes[0],
    ensures
        console_run(outcomes) == (ConsoleStep::Done { sent: false }),
    decreases outcomes.len(),
{
    reveal_with_fuel(console_run, 2);
    if outcomes.len() > 1 {
        law_console_without_attach(outcomes.drop_last());
    }
}

/// A console that was borrowed is always given back and events are always heard again, in that
/// order, whether sending succeeded or not; the child counts as asked exactly where sending did.
pub proof fn law_console_is_given_back(outcomes: Seq<bool>)
    requires
        outcomes.len() >= 1,
        outcomes[0],
    ensures
        outcomes.len() == 1 ==> console_run(outcomes) == ConsoleStep::Ignore,
        outcomes.len() == 2 ==> console_run(outcomes) == ConsoleStep::Send,
        outcomes.len() == 3 ==> console_run(outcomes) == (ConsoleStep::Detach { sent: outcomes[2] }),
        outcomes.len() == 4 ==> console_run(outcomes) == (ConsoleStep::Restore { sent: outcomes[2] }),
        outcomes.len() >= 5 ==> console_run(outcomes) == (ConsoleStep::Done { sent: outcomes[2] }),
    decreases outcomes.len(),
{
    reveal_with_fuel(console_run, 2);
    if outcomes.len() > 1 {
        law_console_is_given_back(outcomes.drop_last());
    }
}

/// What is to be done with a child that is being stopped.
#[derive(Clone, Copy, Debug, PartialEq, Eq)]
pub enum ReapStep {
    /// Look whether it has exited.
    Poll,
    /// Rest before the next look.
    Rest { millis: u64 },
    /// Kill it.
    Kill,
    /// Wait until it is gone.
    Wait,
    /// Nothing more: it is gone, by itself or killed.
    Done { killed: bool },
}

/// What came of it.
#[derive(Clone, Copy, Debug, PartialEq, Eq)]
pub enum ReapEvent {
    /// A look showed this, so long after the child was asked to exit.
    Polled { poll: ChildPoll, elapsed_millis: u64 },
    /// The rest, the kill or the wait is over.
    Over,
}

impl ReapStep {
    /// The first step: a child that was asked to exit gets its time, any other is killed.
    pub open spec fn first(asked: bool) -> ReapStep {
        if asked {
            ReapStep::Poll
        } else {
            ReapStep::Kill
        }
    }

    /// The step after an event. An event that nobody waits for changes nothing.
    pub open spec fn after(self, event: ReapEvent) -> ReapStep {
        match (self, event) {
            (ReapStep::Poll, ReapEvent::Polled { poll, elapsed_millis }) => match poll {
                ChildPoll::Exited => ReapStep::Done { killed: false },
                ChildPoll::Running => if elapsed_millis >= GRACEFUL_STOP_MILLIS {
                    ReapStep::Kill
                } else {
                    ReapStep::Rest { millis: POLL_REST_MILLIS }
                },
                ChildPoll::Unknown => ReapStep::Kill,
            },
            (ReapStep::Rest { .. }, ReapEvent::Over) => ReapStep::Poll,
            (ReapStep::Kill, ReapEvent::Over) => ReapStep::Wait,
            (ReapStep::Wait, ReapEvent::Over) => ReapStep::Done { killed: true },
            _ => self,
        }
    }

    /// The first step.
    pub fn begin(asked: bool) -> (r: ReapStep)
        ensures
            r == ReapStep::first(asked),
    {
        if asked {
            ReapStep::Poll
        } else {
            ReapStep::Kill
        }
    }

    /// The step after an event.
    pub fn next(self, event: ReapEvent) -> (r: ReapStep)
        ensures
            r == self.after(event),
    {
        match (self, event) {
            (ReapStep::Poll, ReapEvent::Polled { poll, elapsed_millis }) => match poll {
                ChildPoll::Exited => ReapStep::Done { killed: false },
                ChildPoll::Running => if elapsed_millis >= GRACEFUL_STOP_MILLIS {
                    ReapStep::Kill
                } else {
                    ReapStep::Rest { millis: POLL_REST_MILLIS }
                },
                ChildPoll::Unknown => ReapStep::Kill,
            },
            (ReapStep::Rest { .. }, ReapEvent::Over) => ReapStep::Poll,
            (ReapStep::Kill, ReapEvent::Over) => ReapStep::Wait,
            (ReapStep::Wait, ReapEvent::Over) => ReapStep::Done { killed: true },
            _ => self,
        }
    }
}

/// The step after the given events.
pub open spec fn reap_run(asked: bool, events: Seq<ReapEvent>) -> ReapStep
    decreases events.len(),
{
    if events.len() == 0 {
        ReapStep::first(asked)
    } else {
        reap_run(asked, events.drop_last()).after(events.last())
    }
}

/// Whether the child was killed and waited for, in that order, in the course of the events.
pub open spec fn was_killed(asked: bool, events: Seq<ReapEvent>) -> bool {
    exists|k: int, w: int|
        0 <= k < w < events.len() && #[trigger] reap_run(asked, events.take(k)) == ReapStep::Kill
            && #[trigger] reap_run(asked, events.take(w)) == ReapStep::Wait
}

/// Whether an event is a look that shows that the child has exited.
pub open spec fn shows_exit(event: ReapEvent) -> bool {
    match event {
        ReapEvent::Polled { poll, .. } => poll == ChildPoll::Exited,
        ReapEvent::Over => false,
    }
}

/// Whether a look showed in the course of the events that the child had exited.
pub open spec fn was_seen_gone(asked: bool, events: Seq<ReapEvent>) -> bool {
    exists|k: int|
        0 <= k < events.len() && #[trigger] reap_run(asked, events.take(k)) == ReapStep::Poll
            && shows_exit(events[k])
}

proof fn lemma_longer_run(events: Seq<ReapEvent>, k: int)
    requires
        0 <= k <= events.len() - 1,
    ensures
        events.drop_last().take(k) == events.take(k),
{
    assert(events.drop_last().take(k) =~= events.take(k));
}

/// A child that has to be waited for has been killed before.
proof fn lemma_wait_follows_kill(asked: bool, events: Seq<ReapEvent>)
    requires
        reap_run(asked, events) == ReapStep::Wait,
    ensures
        exists|k: int|
            0 <= k < events.len() && #[trigger] reap_run(asked, events.take(k)) == ReapStep::Kill,
    decreases events.len(),
{
    let before = events.drop_last();
    let at = events.len() - 1;
    assert(events.take(at) =~= before);
    if reap_run(asked, before) == ReapStep::Kill {
        assert(reap_run(asked, events.take(at)) == ReapStep::Kill);
    } else {
        lemma_wait_follows_kill(asked, before);
        let k = choose|k: int|
            0 <= k < before.len() && #[trigger] reap_run(asked, before.take(k)) == ReapStep::Kill;
        lemma_longer_run(events, k);
        assert(reap_run(asked, events.take(k)) == ReapStep::Kill);
    }
}

/// Stopping ends only with a child that is gone: either a look showed that it had exited, or it
/// was killed and then waited for.
pub proof fn law_stop_terminates_the_child(asked: bool, events: Seq<ReapEvent>)
    ensures
        reap_run(asked, events) == (ReapStep::Done { killed: false }) ==> was_seen_gone(asked, events),
        reap_run(asked, events) == (ReapStep::Done { killed: true }) ==> was_killed(asked, events),
    decreases events.len(),
{
    if events.len() > 0 && reap_run(asked, events) is Done {
        let before = events.drop_last();
        let at = events.len() - 1;
        assert(events.take(at) =~= before);
        match reap_run(asked, before) {
            ReapStep::Done { killed } => {
                law_stop_terminates_the_child(asked, before);
                if killed {
                    let (k, w) = choose|k: int, w: int|
                        0 <= k < w < before.len() && #[trigger] reap_run(asked, before.take(k))
                            == ReapStep::Kill && #[trigger] reap_run(asked, before.take(w))
                            == ReapStep::Wait;
                    lemma_longer_run(events, k);
                    lemma_longer_run(events, w);
                    assert(reap_run(asked, events.take(k)) == ReapStep::Kill);
                    assert(reap_run(asked, events.take(w)) == ReapStep::Wait);
                } else {
                    let k = choose|k: int|
                        0 <= k < before.len() && #[trigger] reap_run(asked, before.take(k))
                            == ReapStep::Poll && shows_exit(before[k]);
                    lemma_longer_run(events, k);
                    assert(reap_run(asked, events.take(k)) == ReapStep::Poll);
                    assert(events[k] == before[k]);
                }
            },
            ReapStep::Wait => {
                lemma_wait_follows_kill(asked, before);
                let k = choose|k: int|
                    0 <= k < before.len() && #[trigger] reap_run(asked, before.take(k))
                        == ReapStep::Kill;
                lemma_longer_run(events, k);
                assert(reap_run(asked, events.take(k)) == ReapStep::Kill);
                assert(reap_run(asked, events.take(at)) == ReapStep::Wait);
            },
            _ => {
                assert(reap_run(asked, events.take(at)) == ReapStep::Poll);
            },
        }
    }
}

/// A child that was not asked to exit is never given time: it is killed first of all.
pub proof fn law_unasked_child_is_killed_at_once(events: Seq<ReapEvent>)
    ensures
        reap_run(false, events) is Kill || reap_run(false, events) is Wait || reap_run(false, events)
            == (ReapStep::Done { killed: true }),
    decreases events.len(),
{
    if events.len() > 0 {
        law_unasked_child_is_killed_at_once(events.drop_last());
    }
}

/// The events of looks that each show a running child, with the rests between them.
pub open spec fn fruitless_looks(elapsed: Seq<u64>) -> Seq<ReapEvent> {
    Seq::new(
        elapsed.len() * 2,
        |i: int|
            if i % 2 == 0 {
                ReapEvent::Polled { poll: ChildPoll::Running, elapsed_millis: elapsed[i / 2] }
            } else {
                ReapEvent::Over
            },
    )
}

proof fn lemma_fruitless_looks(elapsed: Seq<u64>)
    requires
        forall|i: int| 0 <= i < elapsed.len() ==> elapsed[i] < GRACEFUL_STOP_MILLIS,
    ensures
        reap_run(true, fruitless_looks(elapsed)) == ReapStep::Poll,
    decreases elapsed.len(),
{
    if elapsed.len() > 0 {
        let shorter = elapsed.drop_last();
        lemma_fruitless_looks(shorter);
        let events = fruitless_looks(elapsed);
        let once = events.drop_last();
        assert(once.drop_last() =~= fruitless_looks(shorter));
        assert(once.last() == (ReapEvent::Polled {
            poll: ChildPoll::Running,
            elapsed_millis: elapsed.last(),
        }));
        assert(events.last() == ReapEvent::Over);
        assert(reap_run(true, once) == (ReapStep::Rest { millis: POLL_REST_MILLIS }));
    }
}

/// A child that keeps running is looked at again as long as its time is not over; the first look
/// after that has it killed.
pub proof fn law_patience_ends(elapsed: Seq<u64>, late: u64)
    requires
        forall|i: int| 0 <= i < elapsed.len() ==> elapsed[i] < GRACEFUL_STOP_MILLIS,
        late >= GRACEFUL_STOP_MILLIS,
    ensures
        reap_run(true, fruitless_looks(elapsed)) == ReapStep::Poll,
        reap_run(
            true,
            fruitless_looks(elapsed).push(
                ReapEvent::Polled { poll: ChildPoll::Running, elapsed_millis: late },
            ),
        ) == ReapStep::Kill,
{
    lemma_fruitless_looks(elapsed);
    let last = ReapEvent::Polled { poll: ChildPoll::Running, elapsed_millis: late };
    assert(fruitless_looks(elapsed).push(last).drop_last() =~= fruitless_looks(elapsed));
}

/// Looks that are a full rest apart are at most forty before the child's time is over.
pub proof fn law_looks_are_bounded(elapsed: Seq<u64>)
    requires
        forall|i: int| 0 <= i < elapsed.len() ==> elapsed[i] < GRACEFUL_STOP_MILLIS,
        forall|i: int|
            #![trigger elapsed[i]]
            0 < i < elapsed.len() ==> elapsed[i] >= elapsed[i - 1] + POLL_REST_MILLIS,
    ensures
        elapsed.len() <= 40,
{
    if elapsed.len() > 0 {
        lemma_looks_add_up(elapsed, elapsed.len() - 1);
    }
}

proof fn lemma_looks_add_up(elapsed: Seq<u64>, i: int)
    requires
        0 <= i < elapsed.len(),
        forall|i: int|
            #![trigger elapsed[i]]
            0 < i < elapsed.len() ==> elapsed[i] >= elapsed[i - 1] + POLL_REST_MILLIS,
    ensures
        elapsed[i] >= POLL_REST_MILLIS * i,
    decreases i,
{
    if i > 0 {
        lemma_looks_add_up(elapsed, i - 1);
    }
}

/// A child that was gone by itself was never killed on the way, nor is it later.
pub proof fn law_child_gone_by_itself_is_not_killed(
    asked: bool,
    events: Seq<ReapEvent>,
    more: Seq<ReapEvent>,
    n: int,
)
    requires
        reap_run(asked, events) == (ReapStep::Done { killed: false }),
        0 <= n <= events.len(),
    ensures
        !(reap_run(asked, events.take(n)) is Kill) && !(reap_run(asked, events.take(n)) is Wait),
        reap_run(asked, events + more) == (ReapStep::Done { killed: false }),
    decreases more.len(),
{
    if more.len() > 0 {
        law_child_gone_by_itself_is_not_killed(asked, events, more.drop_last(), n);
        assert((events + more).drop_last() =~= events + more.drop_last());
    } else {
        assert(events + more =~= events);
        let step = reap_run(asked, events.take(n));
        if step is Kill || step is Wait {
            lemma_killed_for_good(asked, events, n);
        }
    }
}

/// A child that is to be killed does not count as gone by itself any more.
proof fn lemma_killed_for_good(asked: bool, events: Seq<ReapEvent>, n: int)
    requires
        0 <= n <= events.len(),
        reap_run(asked, events.take(n)) is Kill || reap_run(asked, events.take(n)) is Wait
            || reap_run(asked, events.take(n)) == (ReapStep::Done { killed: true }),
    ensures
        reap_run(asked, events) is Kill || reap_run(asked, events) is Wait || reap_run(asked, events)
            == (ReapStep::Done { killed: true }),
    decreases events.len(),
{
    if n < events.len() {
        lemma_longer_run(events, n);
        lemma_killed_for_good(asked, events.drop_last(), n);
    } else {
        assert(events.take(n) =~= events);
    }
}

/// A child that was asked and is seen to have exited before its time is over is not killed.
pub proof fn law_exit_in_time(elapsed: Seq<u64>, at: u64)
    requires
        forall|i: int| 0 <= i < elapsed.len() ==> elapsed[i] < GRACEFUL_STOP_MILLIS,
    ensures
        reap_run(
            true,
            fruitless_looks(elapsed).push(
                ReapEvent::Polled { poll: ChildPoll::Exited, elapsed_millis: at },
            ),
        ) == (ReapStep::Done { killed: false }),
{
    lemma_fruitless_looks(elapsed);
    let last = ReapEvent::Polled { poll: ChildPoll::Exited, elapsed_millis: at };
    assert(fruitless_looks(elapsed).push(last).drop_last() =~= fruitless_looks(elapsed));
}

/// What is to be done to stop a child.
#[derive(Clone, Copy, Debug, PartialEq, Eq)]
pub enum StopStep {
    /// Ask it to exit, by a signal that it can catch.
    Ask,
    /// See to it that it goes.
    Reap(ReapStep),
}

/// What came of it.
#[derive(Clone, Copy, Debug, PartialEq, Eq)]
pub enum StopEvent {
    /// Whether the signal could be sent.
    Asked { sent: bool },
    Reaped(ReapEvent),
}

impl StopStep {
    /// The step after an event: the child gets its time where it could be asked, and is killed where
    /// it could not. An event that nobody waits for changes nothing.
    pub open spec fn after(self, event: StopEvent) -> StopStep {
        match (self, event) {
            (StopStep::Ask, StopEvent::Asked { sent }) => StopStep::Reap(ReapStep::first(sent)),
            (StopStep::Reap(step), StopEvent::Reaped(reaped)) => StopStep::Reap(step.after(reaped)),
            _ => self,
        }
    }

    /// The first step: the child is asked.
    pub fn begin() -> (r: StopStep)
        ensures
            r == StopStep::Ask,
    {
        StopStep::Ask
    }

    /// The step after an event.
    pub fn next(self, event: StopEvent) -> (r: StopStep)
        ensures
            r == self.after(event),
    {
        match (self, event) {
            (StopStep::Ask, StopEvent::Asked { sent }) => StopStep::Reap(ReapStep::begin(sent)),
            (StopStep::Reap(step), StopEvent::Reaped(reaped)) => StopStep::Reap(step.next(reaped)),
            _ => self,
        }
    }
}

/// The step after the given events.
pub open spec fn stop_run(events: Seq<StopEvent>) -> StopStep
    decreases events.len(),
{
    if events.len() == 0 {
        StopStep::Ask
    } else {
        stop_run(events.drop_last()).after(events.last())
    }
}

/// Nothing is done to a child before it was asked to exit: as long as it was not, asking is what is
/// to be done, and it is neither killed nor waited for.
pub proof fn law_asking_comes_first(events: Seq<StopEvent>)
    requires
        forall|i: int| 0 <= i < events.len() ==> !(events[i] is Asked),
    ensures
        stop_run(events) == StopStep::Ask,
    decreases events.len(),
{
    if events.len() > 0 {
        law_asking_comes_first(events.drop_last());
    }
}

/// A child is to be killed exactly from where it could not be asked, from a look that still shows it
/// running when its time is over, or from a look that failed.
pub proof fn law_when_a_child_is_killed(step: StopStep, event: StopEvent)
    requires
        step != StopStep::Reap(ReapStep::Kill),
    ensures
        step.after(event) == StopStep::Reap(ReapStep::Kill) <==> {
            ||| step == StopStep::Ask && event == (StopEvent::Asked { sent: false })
            ||| step == StopStep::Reap(ReapStep::Poll) && (event matches StopEvent::Reaped(
                ReapEvent::Polled { poll, elapsed_millis },
            ) && (poll == ChildPoll::Unknown || (poll == ChildPoll::Running && elapsed_millis
                >= GRACEFUL_STOP_MILLIS)))
        },
{
}

/// The events of a stop in which the child was asked once, and then reaped.
pub open spec fn asked_then(sent: bool, events: Seq<ReapEvent>) -> Seq<StopEvent> {
    seq![StopEvent::Asked { sent }] + events.map_values(|e: ReapEvent| StopEvent::Reaped(e))
}

/// Once a child was asked, it is reaped by whether that succeeded: all that holds of reaping holds of
/// the rest of the stop.
pub proof fn law_reaping_follows_asking(sent: bool, events: Seq<ReapEvent>)
    ensures
        stop_run(asked_then(sent, events)) == StopStep::Reap(reap_run(sent, events)),
    decreases events.len(),
{
    let all = asked_then(sent, events);
    if events.len() == 0 {
        reveal_with_fuel(stop_run, 2);
        assert(all.drop_last() =~= Seq::empty());
        assert(all.last() == (StopEvent::Asked { sent }));
    } else {
        law_reaping_follows_asking(sent, events.drop_last());
        assert(all.drop_last() =~= asked_then(sent, events.drop_last()));
        assert(all.last() == StopEvent::Reaped(events.last()));
    }
}

/// Which step follows which event of a start, where the event is waited for; any other event leaves
/// the start where it is.
pub proof fn law_start_goes_on(step: StartStep, event: StartEvent, held: bool)
    ensures
        held ==> StartStep::first(held) is KillOld,
        !held ==> StartStep::first(held) is Locate,
        step is KillOld && event is OldGone ==> step.after(event) is Locate,
        step is Locate && event == (StartEvent::Located { found: true }) ==> step.after(event) is Spawn,
        step is Locate && event == (StartEvent::Located { found: false }) ==> step.after(event) == (
        StartStep::Done { started: false }),
        step is Spawn ==> (event matches StartEvent::Spawned { succeeded } ==> step.after(event) == (
        StartStep::Done { started: succeeded })),
        step is Done || (step is KillOld && !(event is OldGone)) || (step is Locate
            && !(event is Located)) || (step is Spawn && !(event is Spawned)) ==> step.after(event)
            == step,
{
}

/// A start in which everything succeeds ends with a child that was started, whether one had to go
/// before or not; and one step that fails ends it without.
pub proof fn law_how_a_start_ends(found: bool, succeeded: bool)
    ensures
        start_run(
            false,
            seq![StartEvent::Located { found }, StartEvent::Spawned { succeeded }],
        ) == (StartStep::Done { started: found && succeeded }),
        start_run(
            true,
            seq![
                StartEvent::OldGone,
                StartEvent::Located { found },
                StartEvent::Spawned { succeeded },
            ],
        ) == (StartStep::Done { started: found && succeeded }),
{
    reveal_with_fuel(start_run, 4);
    let two = seq![StartEvent::Located { found }, StartEvent::Spawned { succeeded }];
    let three = seq![
        StartEvent::OldGone,
        StartEvent::Located { found },
        StartEvent::Spawned { succeeded },
    ];
    assert(two.drop_last() =~= seq![StartEvent::Located { found }]);
    assert(two.drop_last().drop_last() =~= Seq::empty());
    assert(three.drop_last() =~= seq![StartEvent::OldGone, StartEvent::Located { found }]);
    assert(three.drop_last().drop_last() =~= seq![StartEvent::OldGone]);
    assert(three.drop_last().drop_last().drop_last() =~= Seq::empty());
}

/// A look at a slot finds a child alive exactly where there is one and it is running, and forgets it
/// exactly where it has exited.
pub proof fn law_what_a_look_does<C>(child: C, poll: ChildPoll)
    ensures
        alive(Some(child), poll) <==> poll is Running,
        !alive(None::<C>, poll),
        kept(Some(child), poll) == (if poll is Exited {
            None
        } else {
            Some(child)
        }),
        kept(None::<C>, poll) is None,
{
}

/// A child that was asked and still runs is given a rest of 200 milliseconds, however long it has been
/// asked, as long as that is less than eight seconds; from eight seconds on it is killed.
pub proof fn law_look_at_a_running_child(elapsed_millis: u64)
    ensures
        elapsed_millis < 8000 ==> ReapStep::Poll.after(
            ReapEvent::Polled { poll: ChildPoll::Running, elapsed_millis },
        ) == (ReapStep::Rest { millis: 200 }),
        elapsed_millis >= 8000 ==> ReapStep::Poll.after(
            ReapEvent::Polled { poll: ChildPoll::Running, elapsed_millis },
        ) == ReapStep::Kill,
{
}

/// Which step follows any other event of reaping, where it is waited for; an event that is not leaves
/// reaping where it is.
pub proof fn law_reaping_goes_on(step: ReapStep, event: ReapEvent, asked: bool)
    ensures
        asked ==> ReapStep::first(asked) is Poll,
        !asked ==> ReapStep::first(asked) is Kill,
        step is Poll ==> (event matches ReapEvent::Polled { poll: ChildPoll::Exited, .. }
            ==> step.after(event) == (ReapStep::Done { killed: false })),
        step is Poll ==> (event matches ReapEvent::Polled { poll: ChildPoll::Unknown, .. }
            ==> step.after(event) is Kill),
        step is Rest && event is Over ==> step.after(event) is Poll,
        step is Kill && event is Over ==> step.after(event) is Wait,
        step is Wait && event is Over ==> step.after(event) == (ReapStep::Done { killed: true }),
        step is Done || (step is Poll && event is Over) || (!(step is Poll) && event is Polled)
            ==> step.after(event) == step,
{
}

/// Whatever happens, every rest is one of 200 milliseconds.
pub proof fn law_every_rest_is_short(asked: bool, events: Seq<ReapEvent>)
    ensures
        reap_run(asked, events) matches ReapStep::Rest { millis } ==> millis == 200,
    decreases events.len(),
{
    if events.len() > 0 {
        law_every_rest_is_short(asked, events.drop_last());
    }
}

/// How long was rested in the course of the events, in milliseconds.
pub open spec fn rested(asked: bool, events: Seq<ReapEvent>) -> int
    decreases events.len(),
{
    if events.len() == 0 {
        0
    } else {
        let before = events.drop_last();
        rested(asked, before) + (match (reap_run(asked, before), events.last()) {
            (ReapStep::Rest { millis }, ReapEvent::Over) => millis as int,
            _ => 0,
        })
    }
}

/// By a clock that shows at every look at least the time that was rested before it, all rests
/// together stay below eight seconds and one more rest.
pub proof fn law_rests_come_to_an_end(asked: bool, events: Seq<ReapEvent>)
    requires
        forall|k: int|
            0 <= k < events.len() ==> (#[trigger] events[k] matches ReapEvent::Polled {
                elapsed_millis,
                ..
            } ==> elapsed_millis >= rested(asked, events.take(k))),
    ensures
        rested(asked, events) < 8200,
        reap_run(asked, events) is Rest ==> rested(asked, events) < 8000,
    decreases events.len(),
{
    if events.len() > 0 {
        let before = events.drop_last();
        let at = events.len() - 1;
        assert forall|k: int| 0 <= k < before.len() implies (#[trigger] before[k] matches
            ReapEvent::Polled { elapsed_millis, .. } ==> elapsed_millis >= rested(
            asked,
            before.take(k),
        )) by {
            lemma_longer_run(events, k);
            assert(before[k] == events[k]);
        }
        law_rests_come_to_an_end(asked, before);
        law_every_rest_is_short(asked, before);
        assert(events.take(at) =~= before);
        assert(events[at] == events.last());
    }
}

/// A stop that could ask the child gives it its time, one that could not kills it, and from then on
/// the stop goes on as reaping does; an event that is not waited for leaves it where it is.
pub proof fn law_stopping_goes_on(step: ReapStep, event: ReapEvent, sent: bool)
    ensures
        StopStep::Ask.after(StopEvent::Asked { sent }) == StopStep::Reap(
            if sent {
                ReapStep::Poll
            } else {
                ReapStep::Kill
            },
        ),
        StopStep::Reap(step).after(StopEvent::Reaped(event)) == StopStep::Reap(step.after(event)),
        StopStep::Ask.after(StopEvent::Reaped(event)) == StopStep::Ask,
        StopStep::Reap(step).after(StopEvent::Asked { sent }) == StopStep::Reap(step),
{
}

} // verus!
