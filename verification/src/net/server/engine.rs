//! What the engine decides.
//!
//! The program binds the listener, waits for connections and disconnects,
//! and starts the session tasks. It reports every event to the engine, which
//! keeps the registry of sessions and answers with the signals to publish
//! and the other things to do.

use std::collections::HashMap;
use vstd::prelude::*;
use vstd::string::StringExecFns;

verus! {

use crate::net::server::{Engine, EngineModel, EnginePhase, ServerSignal, SignalModel};
use crate::pk2::errors::Error;

broadcast use vstd::std_specs::hash::group_hash_axioms;

/// The host an engine binds to where no option names another.
pub const DEFAULT_HOST: &'static str = "0.0.0.0";

/// The port an engine binds to where no option names another.
pub const DEFAULT_PORT: u16 = 8080;

/// A setting of an engine.
#[derive(Debug, PartialEq, Eq)]
pub enum EngineOption {
    /// The host to bind to.
    Host(String),
    /// The port to bind to.
    Port(u16),
}

/// A setting as a mathematical value.
pub ghost enum OptionModel {
    Host(Seq<char>),
    Port(u16),
}

impl View for EngineOption {
    type V = OptionModel;

    open spec fn view(&self) -> OptionModel {
        match self {
            EngineOption::Host(host) => OptionModel::Host(host@),
            EngineOption::Port(port) => OptionModel::Port(*port),
        }
    }
}

/// The settings of a sequence as mathematical values.
pub open spec fn spec_options(opts: Seq<EngineOption>) -> Seq<OptionModel> {
    opts.map_values(|o: EngineOption| o@)
}

/// The host that settings name: the last one named, or the default.
pub open spec fn spec_host(opts: Seq<OptionModel>) -> Seq<char>
    decreases opts.len(),
{
    if opts.len() == 0 {
        DEFAULT_HOST@
    } else {
        match opts.last() {
            OptionModel::Host(host) => host,
            OptionModel::Port(_) => spec_host(opts.drop_last()),
        }
    }
}

/// The port that settings name: the last one named, or the default.
pub open spec fn spec_port(opts: Seq<OptionModel>) -> u16
    decreases opts.len(),
{
    if opts.len() == 0 {
        DEFAULT_PORT
    } else {
        match opts.last() {
            OptionModel::Port(port) => port,
            OptionModel::Host(_) => spec_port(opts.drop_last()),
        }
    }
}

/// What the program is asked to do for the engine.
#[derive(Debug, PartialEq, Eq)]
pub enum EngineAction {
    /// Send the signal to the control channel, waiting for room.
    Publish(ServerSignal),
    /// Start a session with this identifier on the connection that was
    /// accepted, and report its channels.
    StartSession(u128),
    /// Set the gauge of sessions to this number.
    SetSessionsGauge(usize),
    /// Add one to the counter of failed accepts.
    CountFailedAccept,
    /// Close the control channel, and end the supervising task.
    CloseControl,
}

/// An action as a mathematical value.
pub ghost enum ActionModel {
    Publish(SignalModel),
    StartSession(u128),
    SetSessionsGauge(usize),
    CountFailedAccept,
    CloseControl,
}

impl View for EngineAction {
    type V = ActionModel;

    open spec fn view(&self) -> ActionModel {
        match self {
            EngineAction::Publish(signal) => ActionModel::Publish(signal@),
            EngineAction::StartSession(id) => ActionModel::StartSession(*id),
            EngineAction::SetSessionsGauge(n) => ActionModel::SetSessionsGauge(*n),
            EngineAction::CountFailedAccept => ActionModel::CountFailedAccept,
            EngineAction::CloseControl => ActionModel::CloseControl,
        }
    }
}

/// The actions of a sequence as mathematical values.
pub open spec fn spec_actions(actions: Seq<EngineAction>) -> Seq<ActionModel> {
    actions.map_values(|a: EngineAction| a@)
}

/// What the program reports to the engine.
pub ghost enum EngineEvent<H> {
    /// The listener was bound, or binding failed for this cause.
    Bind(Option<Seq<char>>),
    /// A connection was accepted and given this identifier.
    Accepted(u128),
    /// The session with this identifier was started; these are its channels.
    SessionStarted(u128, H),
    /// Accepting a connection failed for this cause.
    AcceptFailed(Seq<char>),
    /// The session with this identifier has ended.
    Disconnected(u128),
}

/// The engine that settings describe, before it is started.
pub open spec fn spec_created<H>(opts: Seq<OptionModel>) -> EngineModel<H> {
    EngineModel {
        host: spec_host(opts),
        port: spec_port(opts),
        sessions: Map::empty(),
        phase: EnginePhase::Created,
    }
}

/// The engine after an event, and what it asks for.
///
/// - When the listener is bound the engine runs and signals that it has
///   started; when binding fails it ends without a signal.
/// - An accepted connection is announced under its identifier, and its
///   session is to be started.
/// - A started session is registered, and the gauge is set.
/// - A failed accept is signalled as shutdown; the control channel is closed,
///   the failure is counted, and the engine ends.
/// - A disconnect is signalled as closed connection; the session leaves the
///   registry and the gauge is set.
///
/// An event that the engine does not wait for changes nothing.
pub open spec fn spec_engine_step<H>(m: EngineModel<H>, event: EngineEvent<H>) -> (
    EngineModel<H>,
    Seq<ActionModel>,
) {
    match event {
        EngineEvent::Bind(failure) => if m.phase != EnginePhase::Created {
            (m, Seq::empty())
        } else if failure is Some {
            (EngineModel { phase: EnginePhase::Stopped, ..m }, Seq::empty())
        } else {
            (
                EngineModel { phase: EnginePhase::Running, ..m },
                seq![ActionModel::Publish(SignalModel::Started)],
            )
        },
        EngineEvent::Accepted(id) => if m.phase != EnginePhase::Running {
            (m, Seq::empty())
        } else {
            (
                EngineModel { phase: EnginePhase::Starting(id), ..m },
                seq![
                    ActionModel::Publish(SignalModel::NewConnection(id)),
                    ActionModel::StartSession(id),
                ],
            )
        },
        EngineEvent::SessionStarted(id, channels) => if m.phase != EnginePhase::Starting(id) {
            (m, Seq::empty())
        } else {
            let sessions = m.sessions.insert(id, channels);
            (
                EngineModel { phase: EnginePhase::Running, sessions, ..m },
                seq![ActionModel::SetSessionsGauge(sessions.len() as usize)],
            )
        },
        EngineEvent::AcceptFailed(cause) => if m.phase != EnginePhase::Running {
            (m, Seq::empty())
        } else {
            (
                EngineModel { phase: EnginePhase::Stopped, ..m },
                seq![
                    ActionModel::Publish(SignalModel::Shutdown(cause)),
                    ActionModel::CloseControl,
                    ActionModel::CountFailedAccept,
                ],
            )
        },
        EngineEvent::Disconnected(id) => if m.phase != EnginePhase::Running {
            (m, Seq::empty())
        } else {
            let sessions = m.sessions.remove(id);
            (
                EngineModel { sessions, ..m },
                seq![
                    ActionModel::Publish(SignalModel::ClosedConnection(id)),
                    ActionModel::SetSessionsGauge(sessions.len() as usize),
                ],
            )
        },
    }
}

/// The engine after a run of events, and all it asked for, in order.
pub open spec fn spec_engine_run<H>(m: EngineModel<H>, events: Seq<EngineEvent<H>>) -> (
    EngineModel<H>,
    Seq<ActionModel>,
)
    decreases events.len(),
{
    if events.len() == 0 {
        (m, Seq::empty())
    } else {
        let (before, asked) = spec_engine_run(m, events.drop_last());
        let (after, more) = spec_engine_step(before, events.last());
        (after, asked + more)
    }
}

/// The sessions that are live after a run of actions: those announced as new
/// connections and not since as closed.
pub open spec fn spec_live(actions: Seq<ActionModel>) -> Set<u128>
    decreases actions.len(),
{
    if actions.len() == 0 {
        Set::empty()
    } else {
        let before = spec_live(actions.drop_last());
        match actions.last() {
            ActionModel::Publish(SignalModel::NewConnection(id)) => before.insert(id),
            ActionModel::Publish(SignalModel::ClosedConnection(id)) => before.remove(id),
            _ => before,
        }
    }
}

/// The signals among a run of actions, in order.
pub open spec fn spec_signals(actions: Seq<ActionModel>) -> Seq<SignalModel> {
    actions.filter(|a: ActionModel| a is Publish).map_values(|a: ActionModel| a->Publish_0)
}

/// The sessions that the engine answers for: those in its registry, and the
/// one that is being started.
pub open spec fn spec_answered<H>(m: EngineModel<H>) -> Set<u128> {
    match m.phase {
        EnginePhase::Starting(id) => m.sessions.dom().insert(id),
        _ => m.sessions.dom(),
    }
}

/// The sessions that are live after two runs of actions, one after the
/// other: those live after the first, changed by the second.
pub proof fn lemma_live_single(before: Seq<ActionModel>, action: ActionModel)
    ensures
        spec_live(before.push(action)) == match action {
            ActionModel::Publish(SignalModel::NewConnection(id)) => spec_live(before).insert(id),
            ActionModel::Publish(SignalModel::ClosedConnection(id)) => spec_live(before).remove(
                id,
            ),
            _ => spec_live(before),
        },
{
    assert(before.push(action).drop_last() =~= before);
}

/// One step keeps the registry in line with the signals: if before the step
/// the engine answers for the sessions that are live, it does so after.
pub proof fn lemma_step_keeps_live<H>(
    m: EngineModel<H>,
    event: EngineEvent<H>,
    asked: Seq<ActionModel>,
)
    requires
        spec_answered(m) == spec_live(asked),
    ensures
        spec_answered(spec_engine_step(m, event).0) == spec_live(
            asked + spec_engine_step(m, event).1,
        ),
{
    let (after, more) = spec_engine_step(m, event);
    if more.len() == 0 {
        assert(asked + more =~= asked);
    } else if more.len() == 1 {
        assert(asked + more =~= asked.push(more[0]));
        lemma_live_single(asked, more[0]);
        match event {
            EngineEvent::SessionStarted(id, channels) => {
                assert(m.sessions.insert(id, channels).dom() =~= m.sessions.dom().insert(id));
            },
            _ => {},
        }
    } else if more.len() == 2 {
        assert(asked + more =~= asked.push(more[0]).push(more[1]));
        lemma_live_single(asked, more[0]);
        lemma_live_single(asked.push(more[0]), more[1]);
        match event {
            EngineEvent::Disconnected(id) => {
                assert(m.sessions.remove(id).dom() =~= m.sessions.dom().remove(id));
            },
            _ => {},
        }
    } else {
        assert(asked + more =~= asked.push(more[0]).push(more[1]).push(more[2]));
        lemma_live_single(asked, more[0]);
        lemma_live_single(asked.push(more[0]), more[1]);
        lemma_live_single(asked.push(more[0]).push(more[1]), more[2]);
    }
}

/// At every point of a run the engine answers for exactly the sessions that
/// are live: those it has announced as new connections and not since as
/// closed. Between two events it waits for, its registry holds exactly those
/// sessions, and as many.
pub proof fn lemma_registry_is_live<H>(opts: Seq<OptionModel>, events: Seq<EngineEvent<H>>)
    ensures
        ({
            let (m, asked) = spec_engine_run(spec_created::<H>(opts), events);
            &&& spec_answered(m) == spec_live(asked)
            &&& m.sessions.dom().finite()
            &&& !(m.phase is Starting) ==> m.sessions.dom() == spec_live(asked)
                && m.sessions.len() == spec_live(asked).len()
        }),
    decreases events.len(),
{
    let start = spec_created::<H>(opts);
    if events.len() > 0 {
        lemma_registry_is_live(opts, events.drop_last());
        let (before, asked) = spec_engine_run(start, events.drop_last());
        lemma_step_keeps_live(before, events.last(), asked);
        match events.last() {
            EngineEvent::SessionStarted(id, channels) => {
                assert(before.sessions.insert(id, channels).dom() =~= before.sessions.dom().insert(
                    id,
                ));
            },
            EngineEvent::Disconnected(id) => {
                assert(before.sessions.remove(id).dom() =~= before.sessions.dom().remove(id));
            },
            _ => {},
        }
    }
}

/// What the engine has signalled at any point of a run begins with the
/// signal that it has started, and a shutdown is the last signal: once the
/// engine has ended it asks for nothing.
pub proof fn lemma_signal_order<H>(opts: Seq<OptionModel>, events: Seq<EngineEvent<H>>)
    ensures
        ({
            let (m, asked) = spec_engine_run(spec_created::<H>(opts), events);
            let signals = spec_signals(asked);
            &&& m.phase is Created ==> asked.len() == 0
            &&& signals.len() > 0 ==> signals[0] == SignalModel::Started
            &&& forall|i: int|
                0 <= i < signals.len() && (#[trigger] signals[i]) is Shutdown ==> i == signals.len()
                    - 1 && m.phase is Stopped
            &&& (m.phase is Running || m.phase is Starting) ==> signals.len() > 0
        }),
    decreases events.len(),
{
    reveal_with_fuel(Seq::filter, 4);
    let start = spec_created::<H>(opts);
    let keep = |a: ActionModel| a is Publish;
    let signal = |a: ActionModel| a->Publish_0;
    if events.len() == 0 {
        assert(Seq::<ActionModel>::empty().filter(keep).len() == 0);
    } else {
        lemma_signal_order(opts, events.drop_last());
        let (before, asked) = spec_engine_run(start, events.drop_last());
        let (after, more) = spec_engine_step(before, events.last());
        Seq::filter_distributes_over_add(asked, more, keep);
        let old_signals = spec_signals(asked);
        let new_signals = spec_signals(more);
        assert(spec_signals(asked + more) =~= old_signals + new_signals);
        if more.len() == 0 {
            assert(more.filter(keep).len() == 0);
        } else if more.len() == 1 {
            assert(more.drop_last() =~= Seq::<ActionModel>::empty());
        } else if more.len() == 2 {
            assert(more.drop_last().drop_last() =~= Seq::<ActionModel>::empty());
            assert(more.drop_last().last() == more[0]);
        } else {
            assert(more.drop_last().drop_last().drop_last() =~= Seq::<ActionModel>::empty());
            assert(more.drop_last().last() == more[1]);
            assert(more.drop_last().drop_last().last() == more[0]);
        }
    }
}

/// The life of one connection, as the engine signals it: a running engine
/// that is told of an accepted connection, of its started session and of the
/// session's end announces the connection once and reports it closed once,
/// in this order, and holds the session in its registry no longer.
pub proof fn lemma_connection_signals<H>(m: EngineModel<H>, id: u128, channels: H)
    requires
        m.phase is Running,
    ensures
        ({
            let events = seq![
                EngineEvent::Accepted(id),
                EngineEvent::SessionStarted(id, channels),
                EngineEvent::Disconnected(id),
            ];
            let (end, asked) = spec_engine_run(m, events);
            &&& spec_signals(asked) == seq![
                SignalModel::NewConnection(id),
                SignalModel::ClosedConnection(id),
            ]
            &&& end.phase is Running
            &&& end.sessions == m.sessions.remove(id)
            &&& asked[1] == ActionModel::StartSession(id)
        }),
{
    reveal_with_fuel(spec_engine_run, 4);
    reveal_with_fuel(Seq::filter, 6);
    let events = seq![
        EngineEvent::Accepted(id),
        EngineEvent::SessionStarted(id, channels),
        EngineEvent::Disconnected(id),
    ];
    let two = events.drop_last();
    let one = two.drop_last();
    assert(one.drop_last() =~= Seq::<EngineEvent<H>>::empty());
    assert(two.last() == events[1] && one.last() == events[0]);
    let (end, asked) = spec_engine_run(m, events);
    let registered = m.sessions.insert(id, channels);
    let expected = seq![
        ActionModel::Publish(SignalModel::NewConnection(id)),
        ActionModel::StartSession(id),
        ActionModel::SetSessionsGauge(registered.len() as usize),
        ActionModel::Publish(SignalModel::ClosedConnection(id)),
        ActionModel::SetSessionsGauge(registered.remove(id).len() as usize),
    ];
    assert(asked =~= expected);
    assert(registered.remove(id) =~= m.sessions.remove(id));
    let keep = |a: ActionModel| a is Publish;
    let a4 = expected.drop_last();
    let a3 = a4.drop_last();
    let a2 = a3.drop_last();
    let a1 = a2.drop_last();
    assert(a1.drop_last() =~= Seq::<ActionModel>::empty());
    assert(a1.filter(keep) =~= seq![expected[0]]);
    assert(a2.filter(keep) =~= seq![expected[0]]);
    assert(a3.filter(keep) =~= seq![expected[0]]);
    assert(a4.filter(keep) =~= seq![expected[0], expected[3]]);
    assert(expected.filter(keep) =~= seq![expected[0], expected[3]]);
    assert(spec_signals(asked) =~= seq![
        SignalModel::NewConnection(id),
        SignalModel::ClosedConnection(id),
    ]);
}

/// The decimal digit of a number below ten.
pub open spec fn spec_digit(d: nat) -> char
    recommends
        d < 10,
{
    if d == 0 {
        '0'
    } else if d == 1 {
        '1'
    } else if d == 2 {
        '2'
    } else if d == 3 {
        '3'
    } else if d == 4 {
        '4'
    } else if d == 5 {
        '5'
    } else if d == 6 {
        '6'
    } else if d == 7 {
        '7'
    } else if d == 8 {
        '8'
    } else {
        '9'
    }
}

/// A number in decimal digits, without leading zeros.
pub open spec fn spec_decimal(n: nat) -> Seq<char>
    decreases n,
{
    if n < 10 {
        seq![spec_digit(n)]
    } else {
        spec_decimal(n / 10).push(spec_digit(n % 10))
    }
}

/// The address to bind to: host, colon, port in decimal digits.
pub open spec fn spec_bind_address(host: Seq<char>, port: u16) -> Seq<char> {
    host + seq![':'] + spec_decimal(port as nat)
}

/// The text of a decimal digit.
fn digit_text(d: u16) -> (text: &'static str)
    requires
        d < 10,
    ensures
        text@ == seq![spec_digit(d as nat)],
{
    proof {
        reveal_strlit("0");
        reveal_strlit("1");
        reveal_strlit("2");
        reveal_strlit("3");
        reveal_strlit("4");
        reveal_strlit("5");
        reveal_strlit("6");
        reveal_strlit("7");
        reveal_strlit("8");
        reveal_strlit("9");
    }
    let text: &'static str = if d == 0 {
        "0"
    } else if d == 1 {
        "1"
    } else if d == 2 {
        "2"
    } else if d == 3 {
        "3"
    } else if d == 4 {
        "4"
    } else if d == 5 {
        "5"
    } else if d == 6 {
        "6"
    } else if d == 7 {
        "7"
    } else if d == 8 {
        "8"
    } else {
        "9"
    };
    assert(text@ =~= seq![spec_digit(d as nat)]);
    text
}

/// Appends a number in decimal digits to a text.
fn append_decimal(text: &mut String, n: u16)
    ensures
        final(text)@ == old(text)@ + spec_decimal(n as nat),
    decreases n,
{
    if n >= 10 {
        append_decimal(text, n / 10);
    }
    let ghost before = text@;
    text.append(digit_text(n % 10));
    proof {
        if n >= 10 {
            assert(text@ =~= old(text)@ + spec_decimal(n as nat / 10).push(
                spec_digit(n as nat % 10),
            ));
        }
    }
}

/// Whether a number has the version and variant bits of a random UUID.
pub open spec fn spec_random_id(id: u128) -> bool {
    id & 0x0000_0000_0000_f000_c000_0000_0000_0000 == 0x0000_0000_0000_4000_8000_0000_0000_0000
}

/// A fresh random identifier, from `Uuid::new_v4` of the `uuid` crate. Each
/// call may give another one; all that is said of the result is what that
/// function fixes in every identifier it makes, the version and variant bits
/// of a random UUID. The function panics where the operating system gives no
/// random bytes.
#[verifier::external_body]
fn new_session_id() -> (id: u128)
    ensures
        spec_random_id(id),
{
    uuid::Uuid::new_v4().as_u128()
}

impl<H> Engine<H> {
    /// Creates a new engine with the given settings. Of settings that name
    /// the same thing the last one counts; host and port default to
    /// `0.0.0.0` and 8080. Binding is left to [Engine::start].
    pub fn new(opts: Vec<EngineOption>) -> (engine: Engine<H>)
        ensures
            engine@ == spec_created::<H>(spec_options(opts@)),
    {
        let mut host: String = DEFAULT_HOST.to_owned();
        let mut port: u16 = DEFAULT_PORT;
        let ghost all = spec_options(opts@);
        let mut i: usize = 0;
        assert(all.subrange(0, 0) =~= Seq::<OptionModel>::empty());
        while i < opts.len()
            invariant
                i <= opts@.len(),
                all == spec_options(opts@),
                host@ == spec_host(all.subrange(0, i as int)),
                port == spec_port(all.subrange(0, i as int)),
            decreases opts@.len() - i,
        {
            proof {
                let grown = all.subrange(0, i + 1);
                assert(grown.drop_last() =~= all.subrange(0, i as int));
                assert(grown.last() == opts@[i as int]@);
            }
            match &opts[i] {
                EngineOption::Host(name) => {
                    host = name.clone();
                },
                EngineOption::Port(number) => {
                    port = *number;
                },
            }
            i = i + 1;
        }
        assert(all.subrange(0, opts@.len() as int) =~= all);
        Engine { bind_host: host, bind_port: port, sessions: HashMap::new(), phase: EnginePhase::Created }
    }

    /// The address to bind the listener to.
    pub fn bind_address(&self) -> (address: String)
        ensures
            address@ == spec_bind_address(self@.host, self@.port),
    {
        proof {
            reveal_strlit(":");
        }
        let mut address: String = self.bind_host.clone();
        address.append(":");
        assert(":"@ =~= seq![':']);
        append_decimal(&mut address, self.bind_port);
        address
    }

    /// The number of registered sessions.
    pub fn session_count(&self) -> (n: usize)
        ensures
            n == self@.sessions.len(),
    {
        self.sessions.len()
    }

    /// Starts the handling of incoming connections, given how binding the
    /// listener went: `Ok`, or the cause of the failure.
    ///
    /// When binding has failed the failure is returned and nothing is to be
    /// signalled, now or later.
    pub fn start(&mut self, bound: Result<(), String>) -> (r: Result<Vec<EngineAction>, Error>)
        ensures
            ({
                let failure = match bound {
                    Ok(_) => None::<Seq<char>>,
                    Err(cause) => Some(cause@),
                };
                let (after, asked) = spec_engine_step(old(self)@, EngineEvent::Bind(failure));
                &&& final(self)@ == after
                &&& if old(self).phase is Created && bound is Err {
                    &&& r is Err
                    &&& r->Err_0 is IO
                    &&& r->Err_0->IO_0@ == bound->Err_0@
                } else {
                    &&& r is Ok
                    &&& spec_actions(r->Ok_0@) == asked
                }
            }),
    {
        let mut asked: Vec<EngineAction> = Vec::new();
        match self.phase {
            EnginePhase::Created => {
                match bound {
                    Ok(_) => {
                        self.phase = EnginePhase::Running;
                        asked.push(EngineAction::Publish(ServerSignal::Started));
                        assert(spec_actions(asked@) =~= seq![
                            ActionModel::Publish(SignalModel::Started),
                        ]);
                        Ok(asked)
                    },
                    Err(cause) => {
                        self.phase = EnginePhase::Stopped;
                        Err(Error::IO(cause))
                    },
                }
            },
            _ => {
                assert(spec_actions(asked@) =~= Seq::<ActionModel>::empty());
                Ok(asked)
            },
        }
    }

    /// A connection was accepted: it is given a fresh random identifier and
    /// announced under it (see [Engine::announce]).
    pub fn accept(&mut self) -> (asked: Vec<EngineAction>)
        ensures
            exists|id: u128|
                spec_random_id(id) && (final(self)@, spec_actions(asked@))
                    == #[trigger] spec_engine_step(old(self)@, EngineEvent::Accepted(id)),
    {
        let id: u128 = new_session_id();
        self.announce(id)
    }

    /// A connection was accepted and given the identifier `id`: it is
    /// announced, and its session is to be started.
    pub fn announce(&mut self, id: u128) -> (asked: Vec<EngineAction>)
        ensures
            (final(self)@, spec_actions(asked@)) == spec_engine_step(
                old(self)@,
                EngineEvent::Accepted(id),
            ),
    {
        let mut asked: Vec<EngineAction> = Vec::new();
        match self.phase {
            EnginePhase::Running => {
                self.phase = EnginePhase::Starting(id);
                asked.push(EngineAction::Publish(ServerSignal::NewConnection(id)));
                asked.push(EngineAction::StartSession(id));
                assert(spec_actions(asked@) =~= seq![
                    ActionModel::Publish(SignalModel::NewConnection(id)),
                    ActionModel::StartSession(id),
                ]);
            },
            _ => {
                assert(spec_actions(asked@) =~= Seq::<ActionModel>::empty());
            },
        }
        asked
    }

    /// The session with the identifier `id` was started, and `channels` lead
    /// to it: it is registered.
    pub fn register(&mut self, id: u128, channels: H) -> (asked: Vec<EngineAction>)
        ensures
            (final(self)@, spec_actions(asked@)) == spec_engine_step(
                old(self)@,
                EngineEvent::SessionStarted(id, channels),
            ),
    {
        let mut asked: Vec<EngineAction> = Vec::new();
        let awaited_this: bool = match self.phase {
            EnginePhase::Starting(awaited) => awaited == id,
            _ => false,
        };
        if awaited_this {
            self.sessions.insert(id, channels);
            self.phase = EnginePhase::Running;
            asked.push(EngineAction::SetSessionsGauge(self.sessions.len()));
            assert(spec_actions(asked@) =~= seq![
                ActionModel::SetSessionsGauge(self@.sessions.len() as usize),
            ]);
        } else {
            assert(spec_actions(asked@) =~= Seq::<ActionModel>::empty());
        }
        asked
    }

    /// Accepting a connection failed for the given cause: the engine signals
    /// its shutdown and ends.
    pub fn accept_failed(&mut self, cause: String) -> (asked: Vec<EngineAction>)
        ensures
            (final(self)@, spec_actions(asked@)) == spec_engine_step(
                old(self)@,
                EngineEvent::AcceptFailed(cause@),
            ),
    {
        let mut asked: Vec<EngineAction> = Vec::new();
        match self.phase {
            EnginePhase::Running => {
                self.phase = EnginePhase::Stopped;
                let ghost text = cause@;
                asked.push(EngineAction::Publish(ServerSignal::Shutdown(cause)));
                asked.push(EngineAction::CloseControl);
                asked.push(EngineAction::CountFailedAccept);
                assert(spec_actions(asked@) =~= seq![
                    ActionModel::Publish(SignalModel::Shutdown(text)),
                    ActionModel::CloseControl,
                    ActionModel::CountFailedAccept,
                ]);
            },
            _ => {
                assert(spec_actions(asked@) =~= Seq::<ActionModel>::empty());
            },
        }
        asked
    }

    /// The session with the identifier `id` has ended: the engine signals
    /// the closed connection and takes the session out of the registry.
    pub fn disconnected(&mut self, id: u128) -> (asked: Vec<EngineAction>)
        ensures
            (final(self)@, spec_actions(asked@)) == spec_engine_step(
                old(self)@,
                EngineEvent::Disconnected(id),
            ),
    {
        let mut asked: Vec<EngineAction> = Vec::new();
        match self.phase {
            EnginePhase::Running => {
                self.sessions.remove(&id);
                asked.push(EngineAction::Publish(ServerSignal::ClosedConnection(id)));
                asked.push(EngineAction::SetSessionsGauge(self.sessions.len()));
                assert(spec_actions(asked@) =~= seq![
                    ActionModel::Publish(SignalModel::ClosedConnection(id)),
                    ActionModel::SetSessionsGauge(self@.sessions.len() as usize),
                ]);
            },
            _ => {
                assert(spec_actions(asked@) =~= Seq::<ActionModel>::empty());
            },
        }
        asked
    }
}

} // verus!
