//! One WebSocket connection: events go out to the client until either side is done.
use vstd::prelude::*;

verus! {

/// The time between two pings, in seconds.
pub const PING_INTERVAL_SECS: u64 = 30;

/// The JSON text of a value: none where it has no such form.
pub uninterp spec fn json_rendering(value: serde_json::Value) -> Option<Seq<char>>;

/// `serde_json::to_string` of a value: its JSON text, or nothing where it fails. It depends on the
/// value alone.
#[verifier::external_body]
fn render_json(value: &serde_json::Value) -> (r: Option<String>)
    ensures
        r is Some <==> json_rendering(*value) is Some,
        r matches Some(text) ==> Some(text@) == json_rendering(*value),
{
    serde_json::to_string(value).ok()
}

/// What is to be done for a connection.
pub enum WsStep {
    /// Wait for an event to pass on, for the time of a ping or for the client.
    Listen,
    /// Send this text to the client.
    SendText(String),
    /// Send a ping to the client.
    SendPing,
    /// Nothing more: the connection is over.
    Close,
}

/// What is to be done for a connection, by its characters.
pub enum WsStepView {
    Listen,
    SendText(Seq<char>),
    SendPing,
    Close,
}

impl View for WsStep {
    type V = WsStepView;

    open spec fn view(&self) -> WsStepView {
        match self {
            WsStep::Listen => WsStepView::Listen,
            WsStep::SendText(text) => WsStepView::SendText(text@),
            WsStep::SendPing => WsStepView::SendPing,
            WsStep::Close => WsStepView::Close,
        }
    }
}

/// What came of it.
pub enum WsEvent {
    /// An event to pass on.
    Broadcast(serde_json::Value),
    /// Events were lost because the client is slow.
    Lagged,
    /// There will be no more events to pass on.
    BroadcastClosed,
    /// It is time for a ping.
    PingDue,
    /// The client sent something that is no farewell.
    ClientMessage,
    /// The client said farewell.
    ClientClosed,
    /// The client is gone.
    ClientGone,
    /// The client cannot be heard any more.
    ClientFailed,
    /// Whether the sending succeeded.
    Sent(bool),
}

/// What came of it, by its characters; an event to pass on by its JSON text, none where it has none.
pub enum WsEventView {
    Broadcast(Option<Seq<char>>),
    Lagged,
    BroadcastClosed,
    PingDue,
    ClientMessage,
    ClientClosed,
    ClientGone,
    ClientFailed,
    Sent(bool),
}

impl View for WsEvent {
    type V = WsEventView;

    open spec fn view(&self) -> WsEventView {
        match self {
            WsEvent::Broadcast(event) => WsEventView::Broadcast(json_rendering(*event)),
            WsEvent::Lagged => WsEventView::Lagged,
            WsEvent::BroadcastClosed => WsEventView::BroadcastClosed,
            WsEvent::PingDue => WsEventView::PingDue,
            WsEvent::ClientMessage => WsEventView::ClientMessage,
            WsEvent::ClientClosed => WsEventView::ClientClosed,
            WsEvent::ClientGone => WsEventView::ClientGone,
            WsEvent::ClientFailed => WsEventView::ClientFailed,
            WsEvent::Sent(succeeded) => WsEventView::Sent(*succeeded),
        }
    }
}

/// The step after an event to pass on came in: its text is sent, and one without a text is passed
/// over.
pub open spec fn passed_on(text: Option<Seq<char>>) -> WsStepView {
    match text {
        Some(t) => WsStepView::SendText(t),
        None => WsStepView::Listen,
    }
}

/// The step after an event. An event that nobody waits for changes nothing.
pub open spec fn ws_after(step: WsStepView, event: WsEventView) -> WsStepView {
    match (step, event) {
        (WsStepView::Listen, WsEventView::Broadcast(text)) => passed_on(text),
        (WsStepView::Listen, WsEventView::PingDue) => WsStepView::SendPing,
        (WsStepView::Listen, WsEventView::BroadcastClosed) => WsStepView::Close,
        (WsStepView::Listen, WsEventView::ClientClosed) => WsStepView::Close,
        (WsStepView::Listen, WsEventView::ClientGone) => WsStepView::Close,
        (WsStepView::Listen, WsEventView::ClientFailed) => WsStepView::Close,
        (WsStepView::SendText(_), WsEventView::Sent(succeeded)) => if succeeded {
            WsStepView::Listen
        } else {
            WsStepView::Close
        },
        (WsStepView::SendPing, WsEventView::Sent(succeeded)) => if succeeded {
            WsStepView::Listen
        } else {
            WsStepView::Close
        },
        _ => step,
    }
}

/// The step after an event to pass on came in, given its text.
pub fn pass_on(text: Option<String>) -> (r: WsStep)
    ensures
        r@ == passed_on(
            match text {
                Some(t) => Some(t@),
                None => None,
            },
        ),
{
    match text {
        Some(t) => WsStep::SendText(t),
        None => WsStep::Listen,
    }
}

/// The step after an event. What is sent for an event to pass on is its JSON text.
pub fn handle_ws_connection(step: WsStep, event: WsEvent) -> (r: WsStep)
    ensures
        r@ == ws_after(step@, event@),
{
    match (step, event) {
        (WsStep::Listen, WsEvent::Broadcast(event)) => pass_on(render_json(&event)),
        (WsStep::Listen, WsEvent::PingDue) => WsStep::SendPing,
        (WsStep::Listen, WsEvent::BroadcastClosed) => WsStep::Close,
        (WsStep::Listen, WsEvent::ClientClosed) => WsStep::Close,
        (WsStep::Listen, WsEvent::ClientGone) => WsStep::Close,
        (WsStep::Listen, WsEvent::ClientFailed) => WsStep::Close,
        (WsStep::SendText(_), WsEvent::Sent(true)) => WsStep::Listen,
        (WsStep::SendText(_), WsEvent::Sent(false)) => WsStep::Close,
        (WsStep::SendPing, WsEvent::Sent(true)) => WsStep::Listen,
        (WsStep::SendPing, WsEvent::Sent(false)) => WsStep::Close,
        (unchanged, _) => unchanged,
    }
}

/// The step after the given events.
pub open spec fn ws_run(events: Seq<WsEventView>) -> WsStepView
    decreases events.len(),
{
    if events.len() == 0 {
        WsStepView::Listen
    } else {
        ws_after(ws_run(events.drop_last()), events.last())
    }
}

/// The texts that were sent in the course of the events, successfully or not.
pub open spec fn texts_sent(events: Seq<WsEventView>) -> Seq<Seq<char>>
    decreases events.len(),
{
    if events.len() == 0 {
        Seq::empty()
    } else {
        let before = texts_sent(events.drop_last());
        match (ws_run(events.drop_last()), events.last()) {
            (WsStepView::SendText(text), WsEventView::Sent(_)) => before.push(text),
            _ => before,
        }
    }
}

/// A connection that is over stays so.
pub proof fn law_closed_for_good(events: Seq<WsEventView>, more: Seq<WsEventView>)
    requires
        ws_run(events) == WsStepView::Close,
    ensures
        ws_run(events + more) == WsStepView::Close,
        texts_sent(events + more) == texts_sent(events),
    decreases more.len(),
{
    if more.len() == 0 {
        assert(events + more =~= events);
    } else {
        law_closed_for_good(events, more.drop_last());
        assert((events + more).drop_last() =~= events + more.drop_last());
    }
}

/// A connection ends only when there is nothing more to pass on, when the client leaves or fails, or
/// when something cannot be sent: never for lost events, an event without a text or what
/// the client says.
pub proof fn law_what_ends_a_connection(step: WsStepView, event: WsEventView)
    requires
        !(step is Close),
    ensures
        ws_after(step, event) is Close <==> {
            ||| step is Listen && (event is BroadcastClosed || event is ClientClosed
                || event is ClientGone || event is ClientFailed)
            ||| (step is SendText || step is SendPing) && event == WsEventView::Sent(false)
        },
{
}

/// What happens between the arrival of one event to pass on and that of the next: the event
/// with its text, if it has one, a ping, or something that is not passed on.
pub enum Passage {
    Event(Option<Seq<char>>),
    Ping,
    Lag,
    Message,
}

/// The events of passages in which every sending succeeds.
pub open spec fn passage_events(passages: Seq<Passage>) -> Seq<WsEventView>
    decreases passages.len(),
{
    if passages.len() == 0 {
        Seq::empty()
    } else {
        let before = passage_events(passages.drop_last());
        match passages.last() {
            Passage::Event(Some(text)) => before.push(WsEventView::Broadcast(Some(text))).push(
                WsEventView::Sent(true),
            ),
            Passage::Event(None) => before.push(WsEventView::Broadcast(None)),
            Passage::Ping => before.push(WsEventView::PingDue).push(WsEventView::Sent(true)),
            Passage::Lag => before.push(WsEventView::Lagged),
            Passage::Message => before.push(WsEventView::ClientMessage),
        }
    }
}

/// The texts of the events that have one.
pub open spec fn passage_texts(passages: Seq<Passage>) -> Seq<Seq<char>>
    decreases passages.len(),
{
    if passages.len() == 0 {
        Seq::empty()
    } else {
        let before = passage_texts(passages.drop_last());
        match passages.last() {
            Passage::Event(Some(text)) => before.push(text),
            _ => before,
        }
    }
}

proof fn lemma_one_more(events: Seq<WsEventView>, event: WsEventView)
    ensures
        ws_run(events.push(event)) == ws_after(ws_run(events), event),
        texts_sent(events.push(event)) == (match (ws_run(events), event) {
            (WsStepView::SendText(text), WsEventView::Sent(_)) => texts_sent(events).push(text),
            _ => texts_sent(events),
        }),
{
    assert(events.push(event).drop_last() =~= events);
}

/// As long as every sending succeeds and nobody leaves, every event that has a text is sent, once and
/// in order, and nothing else is; pings, lost events and what the client says do not
/// interfere.
pub proof fn law_events_are_passed_on(passages: Seq<Passage>)
    ensures
        ws_run(passage_events(passages)) == WsStepView::Listen,
        texts_sent(passage_events(passages)) == passage_texts(passages),
    decreases passages.len(),
{
    if passages.len() > 0 {
        law_events_are_passed_on(passages.drop_last());
        let before = passage_events(passages.drop_last());
        match passages.last() {
            Passage::Event(text) => {
                let came = before.push(WsEventView::Broadcast(text));
                lemma_one_more(before, WsEventView::Broadcast(text));
                if text is Some {
                    lemma_one_more(came, WsEventView::Sent(true));
                }
            },
            Passage::Ping => {
                lemma_one_more(before, WsEventView::PingDue);
                lemma_one_more(before.push(WsEventView::PingDue), WsEventView::Sent(true));
            },
            Passage::Lag => {
                lemma_one_more(before, WsEventView::Lagged);
            },
            Passage::Message => {
                lemma_one_more(before, WsEventView::ClientMessage);
            },
        }
    }
}

/// What happens when the given values come in to be passed on, one after the other.
pub open spec fn value_passages(values: Seq<serde_json::Value>) -> Seq<Passage> {
    values.map_values(|value: serde_json::Value| Passage::Event(json_rendering(value)))
}

/// The JSON texts of the values that have one, in order.
pub open spec fn renderings(values: Seq<serde_json::Value>) -> Seq<Seq<char>>
    decreases values.len(),
{
    if values.len() == 0 {
        Seq::empty()
    } else {
        let before = renderings(values.drop_last());
        match json_rendering(values.last()) {
            Some(text) => before.push(text),
            None => before,
        }
    }
}

/// Of the values that come in to be passed on, as long as every sending succeeds and nobody leaves,
/// exactly the JSON texts are sent, each once and in order.
pub proof fn law_values_are_sent_as_json(values: Seq<serde_json::Value>)
    ensures
        ws_run(passage_events(value_passages(values))) == WsStepView::Listen,
        texts_sent(passage_events(value_passages(values))) == renderings(values),
{
    law_events_are_passed_on(value_passages(values));
    lemma_value_passages(values);
}

proof fn lemma_value_passages(values: Seq<serde_json::Value>)
    ensures
        passage_texts(value_passages(values)) == renderings(values),
    decreases values.len(),
{
    if values.len() > 0 {
        lemma_value_passages(values.drop_last());
        assert(value_passages(values).drop_last() =~= value_passages(values.drop_last()));
        assert(value_passages(values).last() == Passage::Event(json_rendering(values.last())));
    }
}

/// What a connection does while it listens: an event with a text has exactly that text sent, one
/// without is passed over; a ping is sent when it is due; the end of the events and the end of the
/// client close it; lost events and what the client says leave it listening.
pub proof fn law_what_a_connection_hears(text: Seq<char>)
    ensures
        ws_after(WsStepView::Listen, WsEventView::Broadcast(Some(text))) == WsStepView::SendText(text),
        ws_after(WsStepView::Listen, WsEventView::Broadcast(None)) is Listen,
        ws_after(WsStepView::Listen, WsEventView::PingDue) is SendPing,
        ws_after(WsStepView::Listen, WsEventView::BroadcastClosed) is Close,
        ws_after(WsStepView::Listen, WsEventView::ClientClosed) is Close,
        ws_after(WsStepView::Listen, WsEventView::ClientGone) is Close,
        ws_after(WsStepView::Listen, WsEventView::ClientFailed) is Close,
        ws_after(WsStepView::Listen, WsEventView::Lagged) is Listen,
        ws_after(WsStepView::Listen, WsEventView::ClientMessage) is Listen,
{
}

/// What was sent, whatever it was, has the connection listen again; what could not be sent closes it.
/// While something is to be sent nothing else matters, and once closed nothing does.
pub proof fn law_what_sending_does(text: Seq<char>, event: WsEventView)
    ensures
        ws_after(WsStepView::SendText(text), WsEventView::Sent(true)) is Listen,
        ws_after(WsStepView::SendText(text), WsEventView::Sent(false)) is Close,
        ws_after(WsStepView::SendPing, WsEventView::Sent(true)) is Listen,
        ws_after(WsStepView::SendPing, WsEventView::Sent(false)) is Close,
        !(event is Sent) ==> ws_after(WsStepView::SendText(text), event) == WsStepView::SendText(text),
        !(event is Sent) ==> ws_after(WsStepView::SendPing, event) is SendPing,
        event is Sent ==> ws_after(WsStepView::Listen, event) is Listen,
        ws_after(WsStepView::Close, event) is Close,
{
}

/// Nothing is ever sent but the text of an event that came in: whenever a text is to be sent, an event
/// with that text came in before.
pub proof fn law_only_events_are_sent(events: Seq<WsEventView>, text: Seq<char>)
    requires
        ws_run(events) == WsStepView::SendText(text),
    ensures
        events.contains(WsEventView::Broadcast(Some(text))),
    decreases events.len(),
{
    let before = events.drop_last();
    if ws_run(before) == WsStepView::SendText(text) {
        law_only_events_are_sent(before, text);
        let i = choose|i: int|
            0 <= i < before.len() && before[i] == WsEventView::Broadcast(Some(text));
        assert(events[i] == before[i]);
    } else {
        assert(events[events.len() - 1] == WsEventView::Broadcast(Some(text)));
    }
}

/// Steps and events are seen as they are, and an event to pass on by its JSON text.
pub proof fn law_connection_views(step: WsStep, event: WsEvent)
    ensures
        step matches WsStep::SendText(text) ==> step@ == WsStepView::SendText(text@),
        step@ is Listen <==> step is Listen,
        step@ is SendPing <==> step is SendPing,
        step@ is Close <==> step is Close,
        event matches WsEvent::Broadcast(value) ==> event@ == WsEventView::Broadcast(
            json_rendering(value),
        ),
        event matches WsEvent::Sent(succeeded) ==> event@ == WsEventView::Sent(succeeded),
        event@ is Lagged <==> event is Lagged,
        event@ is BroadcastClosed <==> event is BroadcastClosed,
        event@ is PingDue <==> event is PingDue,
        event@ is ClientMessage <==> event is ClientMessage,
        event@ is ClientClosed <==> event is ClientClosed,
        event@ is ClientGone <==> event is ClientGone,
        event@ is ClientFailed <==> event is ClientFailed,
{
}

/// A client is sent a ping every thirty seconds.
pub proof fn law_time_between_pings()
    ensures
        PING_INTERVAL_SECS == 30,
{
}

} // verus!
