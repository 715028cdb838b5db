//! Starting the web server: where it listens and what it serves.
use vstd::prelude::*;

#[allow(unused_imports)]
use crate::text::{decimal, decimal_text, texts};

verus! {

/// How many ports are tried at most, the wanted one included.
pub const MAX_PORT_ATTEMPTS: u16 = 10;

/// How often the wanted port is tried before the next ones are.
pub const WANTED_PORT_ATTEMPTS: u16 = 3;

/// The rest after each failure on the wanted port, in milliseconds.
pub const BIND_REST_MILLIS: u64 = 1000;

/// The port of an attempt, the attempts being counted from zero: the wanted port first, as often
/// as it is retried, then the ports above it one by one, as far as there are any and the
/// limit allows.
pub open spec fn attempt_port(wanted: u16, attempt: int) -> Option<u16> {
    if attempt < WANTED_PORT_ATTEMPTS {
        Some(wanted)
    } else {
        let offset = attempt - WANTED_PORT_ATTEMPTS + 1;
        if offset < MAX_PORT_ATTEMPTS && wanted + offset <= u16::MAX {
            Some((wanted + offset) as u16)
        } else {
            None
        }
    }
}

/// The port of an attempt, the attempts being counted from zero.
pub fn port_of_attempt(wanted: u16, attempt: u16) -> (r: Option<u16>)
    ensures
        r == attempt_port(wanted, attempt as int),
{
    if attempt < WANTED_PORT_ATTEMPTS {
        Some(wanted)
    } else {
        let skipped: u16 = attempt - WANTED_PORT_ATTEMPTS;
        if skipped < MAX_PORT_ATTEMPTS - 1 {
            wanted.checked_add(skipped + 1)
        } else {
            None
        }
    }
}

/// What is to be done next to get the server listening.
#[derive(Clone, Copy, Debug, PartialEq, Eq)]
pub enum BindAction {
    /// Try to listen on this port.
    Bind { port: u16 },
    /// Wait this long.
    Rest { millis: u64 },
    /// Serve on this port, which is bound.
    Serve { port: u16 },
    /// Do without the server: no port is left to try.
    GiveUp,
}

/// What came of it.
#[derive(Clone, Copy, Debug, PartialEq, Eq)]
pub enum BindEvent {
    Bound,
    Failed,
    Rested,
}

/// Where the search for a port stands.
#[derive(Clone, Copy, Debug, PartialEq, Eq)]
pub enum BindStage {
    Binding,
    Resting,
    Serving,
    Exhausted,
}

/// The search for a port to listen on, by what decides its course.
pub struct BindView {
    pub wanted: u16,
    /// How many attempts have failed.
    pub failed: nat,
    pub stage: BindStage,
}

impl BindView {
    /// Whether a search can stand like this.
    pub open spec fn wf(self) -> bool {
        match self.stage {
            BindStage::Binding | BindStage::Serving => attempt_port(
                self.wanted,
                self.failed as int,
            ) is Some,
            BindStage::Resting => 0 < self.failed <= WANTED_PORT_ATTEMPTS,
            BindStage::Exhausted => attempt_port(self.wanted, self.failed as int) is None,
        }
    }

    /// The search from here on with the next attempt, where there is one.
    pub open spec fn onward(self) -> BindView {
        BindView {
            stage: if attempt_port(self.wanted, self.failed as int) is Some {
                BindStage::Binding
            } else {
                BindStage::Exhausted
            },
            ..self
        }
    }

    /// The search after an event: a bound port ends it, a failure on the wanted port is followed by a
    /// rest, one on a later port by the next attempt. An event that nobody waits for changes
    /// nothing.
    pub open spec fn after(self, event: BindEvent) -> BindView {
        match (self.stage, event) {
            (BindStage::Binding, BindEvent::Bound) => BindView { stage: BindStage::Serving, ..self },
            (BindStage::Binding, BindEvent::Failed) => {
                let counted = BindView { failed: self.failed + 1, ..self };
                if self.failed < WANTED_PORT_ATTEMPTS {
                    BindView { stage: BindStage::Resting, ..counted }
                } else {
                    counted.onward()
                }
            },
            (BindStage::Resting, BindEvent::Rested) => self.onward(),
            _ => self,
        }
    }

    /// What is to be done.
    pub open spec fn action(self) -> BindAction {
        match self.stage {
            BindStage::Binding => BindAction::Bind {
                port: attempt_port(self.wanted, self.failed as int)->0,
            },
            BindStage::Resting => BindAction::Rest { millis: BIND_REST_MILLIS },
            BindStage::Serving => BindAction::Serve {
                port: attempt_port(self.wanted, self.failed as int)->0,
            },
            BindStage::Exhausted => BindAction::GiveUp,
        }
    }
}

/// The search for a port to listen on.
#[derive(Clone, Copy, Debug)]
pub struct BindRun {
    wanted: u16,
    failed: u16,
    stage: BindStage,
}

impl View for BindRun {
    type V = BindView;

    closed spec fn view(&self) -> BindView {
        BindView { wanted: self.wanted, failed: self.failed as nat, stage: self.stage }
    }
}

impl BindRun {
    #[verifier::type_invariant]
    spec fn valid(self) -> bool {
        self@.wf()
    }

    /// The search with the next attempt after so many failed ones, where there is one.
    fn go_on(wanted: u16, failed: u16) -> (r: BindRun)
        ensures
            r@ == (BindView { wanted, failed: failed as nat, stage: BindStage::Resting }).onward(),
    {
        if port_of_attempt(wanted, failed).is_some() {
            BindRun { wanted, failed, stage: BindStage::Binding }
        } else {
            BindRun { wanted, failed, stage: BindStage::Exhausted }
        }
    }

    /// What is to be done.
    pub fn next_action(&self) -> (r: BindAction)
        ensures
            r == self@.action(),
    {
        proof {
            use_type_invariant(self);
        }
        let port = port_of_attempt(self.wanted, self.failed);
        match self.stage {
            BindStage::Binding => BindAction::Bind { port: port.unwrap() },
            BindStage::Resting => BindAction::Rest { millis: BIND_REST_MILLIS },
            BindStage::Serving => BindAction::Serve { port: port.unwrap() },
            BindStage::Exhausted => BindAction::GiveUp,
        }
    }

    /// Takes note of what came of the last action.
    pub fn note(&mut self, event: BindEvent)
        ensures
            final(self)@ == old(self)@.after(event),
    {
        proof {
            use_type_invariant(&*self);
        }
        let next = match (self.stage, event) {
            (BindStage::Binding, BindEvent::Bound) => BindRun {
                wanted: self.wanted,
                failed: self.failed,
                stage: BindStage::Serving,
            },
            (BindStage::Binding, BindEvent::Failed) => if self.failed < WANTED_PORT_ATTEMPTS {
                BindRun {
                    wanted: self.wanted,
                    failed: self.failed + 1,
                    stage: BindStage::Resting,
                }
            } else {
                BindRun::go_on(self.wanted, self.failed + 1)
            },
            (BindStage::Resting, BindEvent::Rested) => BindRun::go_on(self.wanted, self.failed),
            _ => *self,
        };
        *self = next;
    }
}

/// The search at its start: the first attempt is to be made, on the wanted port.
pub open spec fn bind_start(wanted: u16) -> BindView {
    BindView { wanted, failed: 0, stage: BindStage::Binding }
}

/// Starts to look for a port to listen on.
pub fn start_web_server(port: u16) -> (r: BindRun)
    ensures
        r@ == bind_start(port),
{
    BindRun { wanted: port, failed: 0, stage: BindStage::Binding }
}

/// The search after one attempt and the rest that may follow it.
pub open spec fn attempted(run: BindView, bound: bool) -> BindView {
    let next = run.after(
        if bound {
            BindEvent::Bound
        } else {
            BindEvent::Failed
        },
    );
    next.after(BindEvent::Rested)
}

/// The search after attempts with the given outcomes.
pub open spec fn bind_run(wanted: u16, outcomes: Seq<bool>) -> BindView
    decreases outcomes.len(),
{
    if outcomes.len() == 0 {
        bind_start(wanted)
    } else {
        attempted(bind_run(wanted, outcomes.drop_last()), outcomes.last())
    }
}

/// While every attempt fails, the next one is made on the port whose turn it is; the search is
/// given up exactly when there is no such port.
pub proof fn law_failed_attempts(wanted: u16, outcomes: Seq<bool>)
    requires
        forall|i: int| 0 <= i < outcomes.len() ==> !outcomes[i],
        outcomes.len() > 0 ==> attempt_port(wanted, outcomes.len() - 1) is Some,
    ensures
        bind_run(wanted, outcomes).wf(),
        bind_run(wanted, outcomes).action() == (match attempt_port(wanted, outcomes.len() as int) {
            Some(port) => BindAction::Bind { port },
            None => BindAction::GiveUp,
        }),
        bind_run(wanted, outcomes).failed == outcomes.len(),
    decreases outcomes.len(),
{
    if outcomes.len() > 0 {
        law_failed_attempts(wanted, outcomes.drop_last());
    }
}

/// However the attempts end, the search stands as one can stand.
pub proof fn law_every_search_is_valid(wanted: u16, outcomes: Seq<bool>)
    ensures
        bind_run(wanted, outcomes).wf(),
    decreases outcomes.len(),
{
    if outcomes.len() > 0 {
        law_every_search_is_valid(wanted, outcomes.drop_last());
    }
}

/// The first attempt that succeeds decides: the server serves on the port of that attempt, whatever
/// is reported later.
pub proof fn law_first_success_serves(wanted: u16, outcomes: Seq<bool>, first: int)
    requires
        0 <= first < outcomes.len(),
        outcomes[first],
        forall|i: int| 0 <= i < first ==> !outcomes[i],
        attempt_port(wanted, first) is Some,
    ensures
        bind_run(wanted, outcomes).action() == (BindAction::Serve {
            port: attempt_port(wanted, first)->0,
        }),
    decreases outcomes.len(),
{
    if first < outcomes.len() - 1 {
        law_first_success_serves(wanted, outcomes.drop_last(), first);
        assert(bind_run(wanted, outcomes.drop_last()).stage is Serving);
    } else {
        law_failed_attempts(wanted, outcomes.drop_last());
    }
}

/// Every attempt is made on a port from the wanted one on, at most nine above it; no later attempt
/// is made on a lower port; and there are twelve attempts at most.
pub proof fn law_ports_tried(wanted: u16, attempt: int)
    requires
        attempt >= 0,
    ensures
        attempt_port(wanted, attempt) matches Some(port) ==> {
            &&& wanted <= port < wanted + MAX_PORT_ATTEMPTS
            &&& attempt < WANTED_PORT_ATTEMPTS + MAX_PORT_ATTEMPTS - 1
            &&& forall|earlier: int|
                0 <= earlier <= attempt ==> (#[trigger] attempt_port(wanted, earlier) matches Some(p)
                    && p <= port)
        },
{
}

/// A search in which every attempt fails is given up after twelve of them at the latest.
pub proof fn law_search_ends(wanted: u16, outcomes: Seq<bool>)
    requires
        outcomes.len() >= WANTED_PORT_ATTEMPTS + MAX_PORT_ATTEMPTS - 1,
        forall|i: int| 0 <= i < outcomes.len() ==> !outcomes[i],
    ensures
        bind_run(wanted, outcomes).action() == BindAction::GiveUp,
{
    lemma_failing_search(wanted, outcomes);
}

proof fn lemma_failing_search(wanted: u16, outcomes: Seq<bool>)
    requires
        forall|i: int| 0 <= i < outcomes.len() ==> !outcomes[i],
    ensures
        ({
            let run = bind_run(wanted, outcomes);
            &&& run.stage is Binding || run.stage is Exhausted
            &&& run.stage is Binding ==> run.failed == outcomes.len() && attempt_port(
                wanted,
                outcomes.len() as int,
            ) is Some
            &&& run.wanted == wanted
        }),
    decreases outcomes.len(),
{
    if outcomes.len() > 0 {
        lemma_failing_search(wanted, outcomes.drop_last());
    }
}

/// The host part of the address to listen on.
pub open spec fn host(allow_lan_access: bool) -> Seq<char> {
    if allow_lan_access {
        "0.0.0.0"@
    } else {
        "127.0.0.1"@
    }
}

/// The host part of the address to listen on: all interfaces only where the local network is let in.
pub fn bind_host(allow_lan_access: bool) -> (r: &'static str)
    ensures
        r@ == host(allow_lan_access),
{
    if allow_lan_access {
        "0.0.0.0"
    } else {
        "127.0.0.1"
    }
}

/// The address to listen on, as `host:port`.
pub open spec fn address(allow_lan_access: bool, port: u16) -> Seq<char> {
    host(allow_lan_access) + ":"@ + decimal(port as nat)
}

/// The address to listen on, as `host:port`.
pub fn bind_address(allow_lan_access: bool, port: u16) -> (r: String)
    ensures
        r@ == address(allow_lan_access, port),
{
    let mut out = bind_host(allow_lan_access).to_owned();
    out.append(":");
    out.append(decimal_text(port as u64).as_str());
    out
}

/// The address of the attempt that is to be made next, none where none is.
pub open spec fn target(run: BindView, allow_lan_access: bool) -> Option<Seq<char>> {
    match run.action() {
        BindAction::Bind { port } => Some(address(allow_lan_access, port)),
        _ => None,
    }
}

/// The address of the attempt that is to be made next, none where none is.
pub fn bind_target(run: &BindRun, allow_lan_access: bool) -> (r: Option<String>)
    ensures
        r is Some <==> target(run@, allow_lan_access) is Some,
        r matches Some(text) ==> Some(text@) == target(run@, allow_lan_access),
{
    match run.next_action() {
        BindAction::Bind { port } => Some(bind_address(allow_lan_access, port)),
        _ => None,
    }
}

/// Without access from the local network, every attempt of every search is made on the loopback
/// address; with it, on all interfaces.
pub proof fn law_host_of_every_attempt(wanted: u16, outcomes: Seq<bool>, allow_lan_access: bool)
    ensures
        target(bind_run(wanted, outcomes), allow_lan_access) matches Some(text) ==> {
            let host = if allow_lan_access {
                "0.0.0.0:"@
            } else {
                "127.0.0.1:"@
            };
            text.len() >= host.len() && text.take(host.len() as int) == host
        },
{
    reveal_strlit("0.0.0.0");
    reveal_strlit("127.0.0.1");
    reveal_strlit("0.0.0.0:");
    reveal_strlit("127.0.0.1:");
    reveal_strlit(":");
    if let Some(text) = target(bind_run(wanted, outcomes), allow_lan_access) {
        if allow_lan_access {
            assert(text.take(8) =~= "0.0.0.0:"@);
        } else {
            assert(text.take(10) =~= "127.0.0.1:"@);
        }
    }
}

/// The last port that a search for the wanted one can come to.
pub fn last_port(wanted: u16) -> (r: u16)
    ensures
        r == if wanted + MAX_PORT_ATTEMPTS - 1 <= u16::MAX {
            wanted + MAX_PORT_ATTEMPTS - 1
        } else {
            u16::MAX as int
        },
        exists|attempt: int| attempt >= 0 && #[trigger] attempt_port(wanted, attempt) == Some(r),
{
    let above: u16 = u16::MAX - wanted;
    let last: u16 = if above < MAX_PORT_ATTEMPTS - 1 {
        u16::MAX
    } else {
        wanted + (MAX_PORT_ATTEMPTS - 1)
    };
    proof {
        let offset = last - wanted;
        let attempt = if offset == 0 {
            0
        } else {
            offset + WANTED_PORT_ATTEMPTS - 1
        };
        assert(attempt_port(wanted, attempt) == Some(last));
    }
    last
}

/// Where the pages of the user interface come from.
#[derive(Clone, Copy, Debug, PartialEq, Eq)]
pub enum Frontend {
    /// The development server.
    DevServer,
    /// The directory `dist` beside the executable.
    ExternalDist,
    /// The files built into the executable.
    Embedded,
}

/// Where the pages come from: from the development server in a debug build, else from the directory
/// `dist` beside the executable where that is known to exist, else from the executable itself.
pub fn frontend_source(debug_build: bool, dist_exists: Option<bool>) -> (r: Frontend)
    ensures
        debug_build ==> r == Frontend::DevServer,
        !debug_build && dist_exists == Some(true) ==> r == Frontend::ExternalDist,
        !debug_build && dist_exists != Some(true) ==> r == Frontend::Embedded,
{
    if debug_build {
        Frontend::DevServer
    } else if dist_exists.unwrap_or(false) {
        Frontend::ExternalDist
    } else {
        Frontend::Embedded
    }
}

/// Which other pages may use the API.
pub struct CorsPolicy {
    /// Whether pages of any origin may read the answers.
    pub any_origin: bool,
    /// Whether requests may have any headers.
    pub any_header: bool,
    /// The methods that are offered.
    pub methods: Vec<String>,
}

/// Which other pages may use the API: all of them in a debug build, none in any other. The methods that
/// are offered are the same in both.
pub fn cors_policy(debug_build: bool) -> (r: CorsPolicy)
    ensures
        r.any_origin == debug_build,
        r.any_header == debug_build,
        texts(r.methods@) == seq!["GET"@, "POST"@, "PUT"@, "DELETE"@],
{
    let mut methods: Vec<String> = Vec::new();
    methods.push("GET".to_owned());
    methods.push("POST".to_owned());
    methods.push("PUT".to_owned());
    methods.push("DELETE".to_owned());
    assert(texts(methods@) =~= seq!["GET"@, "POST"@, "PUT"@, "DELETE"@]);
    CorsPolicy { any_origin: debug_build, any_header: debug_build, methods }
}

/// What is known of the running web server.
pub struct ServerStatus {
    /// The port that it listens on, zero before it does.
    pub actual_port: u16,
    /// The address in the local network, once it has been looked for: none where there is none.
    pub lan_ip: Option<Option<String>>,
}

impl ServerStatus {
    /// Nothing is known yet.
    pub fn new() -> (r: ServerStatus)
        ensures
            r.actual_port == 0,
            r.lan_ip is None,
    {
        ServerStatus { actual_port: 0, lan_ip: None }
    }

    /// Takes note of how the search for a port stands: a port that is served on is remembered.
    pub fn note_bind(&mut self, run: &BindRun)
        ensures
            final(self).actual_port == (match run@.action() {
                BindAction::Serve { port } => port,
                _ => old(self).actual_port,
            }),
            final(self).lan_ip == old(self).lan_ip,
    {
        match run.next_action() {
            BindAction::Serve { port } => {
                self.actual_port = port;
            },
            _ => {},
        }
    }
}

/// The port that the web server listens on, zero before it does.
pub fn get_actual_port(status: &ServerStatus) -> (r: u16)
    ensures
        r == status.actual_port,
{
    status.actual_port
}

/// The address in the local network. It is looked for once, by `detect`: what that first
/// call found is kept, also where it found nothing.
pub fn get_local_ip<F: FnOnce() -> Option<String>>(status: &mut ServerStatus, detect: F) -> (r:
    Option<&str>)
    requires
        detect.requires(()),
    ensures
        match old(status).lan_ip {
            Some(known) => final(status).lan_ip == Some(known),
            None => exists|found: Option<String>| #[trigger]
                detect.ensures((), found) && final(status).lan_ip == Some(found),
        },
        final(status).actual_port == old(status).actual_port,
        final(status).lan_ip matches Some(ip) && (r is Some <==> ip is Some) && (r matches Some(text)
            ==> text@ == ip->0@),
{
    if status.lan_ip.is_none() {
        let found = detect();
        status.lan_ip = Some(found);
    }
    match &status.lan_ip {
        Some(Some(ip)) => Some(ip.as_str()),
        _ => None,
    }
}

/// The wanted port is tried three times, then each of the nine above it once, in order, as far as there
/// are ports; then nothing more.
pub proof fn law_exact_ports(wanted: u16, attempt: int)
    requires
        attempt >= 0,
    ensures
        attempt < 3 ==> attempt_port(wanted, attempt) == Some(wanted),
        3 <= attempt < 12 && wanted + (attempt - 2) <= 65535 ==> (attempt_port(
            wanted,
            attempt,
        ) matches Some(port) && port == wanted + (attempt - 2)),
        3 <= attempt < 12 && wanted + (attempt - 2) > 65535 ==> attempt_port(wanted, attempt) is None,
        attempt >= 12 ==> attempt_port(wanted, attempt) is None,
{
}

/// Searches for different ports try ports that lie as far apart as the wanted ones, attempt by attempt.
pub proof fn law_searches_compared(a: u16, b: u16, attempt: int)
    requires
        attempt_port(a, attempt) is Some,
        attempt_port(b, attempt) is Some,
    ensures
        attempt_port(a, attempt)->0 - a == attempt_port(b, attempt)->0 - b,
{
}

/// A failure on the wanted port is followed by a rest of one second, whatever the port and whichever of
/// its three attempts it was; a failure on a later port by the next attempt at once, or by giving up;
/// and every rest by the next attempt.
pub proof fn law_when_the_search_rests(run: BindView)
    requires
        run.wf(),
    ensures
        run.stage is Binding && run.failed < 3 ==> run.after(BindEvent::Failed).action() == (
        BindAction::Rest { millis: 1000 }),
        run.stage is Binding && run.failed >= 3 ==> run.after(BindEvent::Failed).action() == (
        match attempt_port(run.wanted, run.failed as int + 1) {
            Some(port) => BindAction::Bind { port },
            None => BindAction::GiveUp,
        }),
        run.stage is Resting ==> run.action() == (BindAction::Rest { millis: 1000 })
            && run.after(BindEvent::Rested).action() == (match attempt_port(
            run.wanted,
            run.failed as int,
        ) {
            Some(port) => BindAction::Bind { port },
            None => BindAction::GiveUp,
        }),
{
}

/// What is bound is what is served: a port that was to be tried and is bound is served from then on,
/// and no event changes that, nor that a search was given up.
pub proof fn law_what_is_bound_is_served(run: BindView, event: BindEvent, port: u16)
    requires
        run.wf(),
    ensures
        run.action() == (BindAction::Bind { port }) ==> run.after(BindEvent::Bound).action() == (
        BindAction::Serve { port }),
        run.action() == (BindAction::Serve { port }) ==> run.after(event).action() == (
        BindAction::Serve { port }),
        run.action() is GiveUp ==> run.after(event).action() is GiveUp,
        run.after(event).wanted == run.wanted,
        run.after(event).wf(),
{
}

/// An event that the search does not wait for leaves it where it is; a failure counts as one more.
pub proof fn law_bind_events(run: BindView, event: BindEvent)
    ensures
        !(run.stage is Binding && (event is Bound || event is Failed)) && !(run.stage is Resting
            && event is Rested) ==> run.after(event) == run,
        run.stage is Binding && event is Failed ==> run.after(event).failed == run.failed + 1,
        !(run.stage is Binding && event is Failed) ==> run.after(event).failed == run.failed,
        run.stage is Binding && event is Bound ==> run.after(event).stage is Serving,
{
}

/// An address is the host, a colon and the port in decimal digits: the loopback host unless the local
/// network is let in, and all interfaces where it is.
pub proof fn law_exact_addresses(port: u16, run: BindView, allow_lan_access: bool)
    ensures
        address(false, port) == "127.0.0.1"@ + ":"@ + decimal(port as nat),
        address(true, port) == "0.0.0.0"@ + ":"@ + decimal(port as nat),
        target(run, allow_lan_access) is Some <==> run.action() is Bind,
        run.action() == (BindAction::Bind { port }) ==> target(run, false) == Some(
            "127.0.0.1"@ + ":"@ + decimal(port as nat),
        ),
        run.action() == (BindAction::Bind { port }) ==> target(run, true) == Some(
            "0.0.0.0"@ + ":"@ + decimal(port as nat),
        ),
{
}

/// Different ports have different addresses on the same host.
pub proof fn law_addresses_differ(allow_lan_access: bool, a: u16, b: u16)
    requires
        address(allow_lan_access, a) == address(allow_lan_access, b),
    ensures
        a == b,
{
    let n = host(allow_lan_access).len() + ":"@.len();
    assert(address(allow_lan_access, a).skip(n as int) =~= decimal(a as nat));
    assert(address(allow_lan_access, b).skip(n as int) =~= decimal(b as nat));
    crate::text::law_decimals_differ(a as nat, b as nat);
}

} // verus!
