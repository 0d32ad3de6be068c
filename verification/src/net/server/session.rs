//! What a session decides.
//!
//! A session waits for the first of three things: an interrupt, bytes from
//! its peer, or a frame to send to its peer. The program reports what came,
//! and how the sending and publishing it was asked for went; the session
//! answers with what to do next. However a session ends, it asks exactly once
//! that its identifier be reported as disconnected.

use vstd::prelude::*;

verus! {

/// Size in bytes of a frame.
pub const BUFFER_SIZE: usize = 4096;

/// Number of frames a session's outbound queue holds.
pub const OUTGOING_CHANNEL_SIZE: usize = 32;

/// Number of interrupts a session's interrupt channel holds.
pub const INTERRUPT_CHANNEL_SIZE: usize = 1;

/// Where a session stands.
#[derive(Debug, Clone, Copy, PartialEq, Eq, Structural)]
pub enum SessionPhase {
    /// Waiting for an interrupt, bytes from the peer or a frame to send.
    Idle,
    /// A frame with this many bytes from the peer is being published.
    Publishing(usize),
    /// A frame is being written to the peer.
    Writing,
    /// The session has ended and has asked to be reported as disconnected.
    Closed,
}

/// An identified TCP client session
#[derive(Debug, Clone, Copy, PartialEq, Eq, Structural)]
pub struct Session {
    pub id: u128,
    pub phase: SessionPhase,
}

/// A frame read from a peer: the buffer that was read into, the number of
/// bytes at its start that the peer sent, and the session it belongs to.
#[derive(Debug, Clone, Copy, PartialEq, Eq)]
pub struct Inbound {
    pub id: u128,
    pub frame: [u8; 4096],
    pub len: usize,
}

/// What the program is asked to do for a session.
#[derive(Debug, Clone, Copy, PartialEq, Eq)]
pub enum SessionAction {
    /// Send the frame to the inbound queue, waiting for room.
    Publish(Inbound),
    /// Add to the counter of received bytes.
    CountReceived(u64),
    /// Write all bytes of the frame to the peer.
    Write([u8; 4096]),
    /// Add to the counter of sent bytes.
    CountSent(u64),
    /// Close the session's outbound queue.
    CloseOutgoing,
    /// Report the session as disconnected, and end its task.
    Disconnect(u128),
}

/// What the program reports to a session.
#[derive(Debug, Clone, Copy, PartialEq, Eq)]
pub enum SessionEvent {
    /// The interrupt channel gave a value, or was closed.
    Interrupted,
    /// A read gave this many bytes at the start of the buffer.
    Read([u8; 4096], usize),
    /// A read failed.
    ReadFailed,
    /// The frame was published, or could not be.
    Published(bool),
    /// The outbound queue gave a frame, or was closed.
    Outgoing(Option<[u8; 4096]>),
    /// The frame was written, or could not be.
    Written(bool),
}

/// A session that has just been created.
pub open spec fn spec_new_session(id: u128) -> Session {
    Session { id, phase: SessionPhase::Idle }
}

/// The session after it has ended, and what it asks for then. A session that
/// had ended before asks for nothing.
pub open spec fn spec_close(s: Session) -> (Session, Seq<SessionAction>) {
    if s.phase == SessionPhase::Closed {
        (s, Seq::empty())
    } else {
        (Session { phase: SessionPhase::Closed, ..s }, seq![SessionAction::Disconnect(s.id)])
    }
}

/// The session after an event, and what it asks for.
///
/// - An interrupt ends the session.
/// - A read of no bytes, or a failed read, ends the session; a read of some
///   bytes has the frame published.
/// - After a frame was published its bytes are counted; a frame that could
///   not be published ends the session.
/// - A frame from the outbound queue is written; the closed queue ends the
///   session.
/// - After a frame was written its bytes are counted; a frame that could not
///   be written closes the outbound queue and ends the session.
///
/// An event that the session does not wait for changes nothing.
pub open spec fn spec_session_step(s: Session, event: SessionEvent) -> (Session, Seq<SessionAction>) {
    match event {
        SessionEvent::Interrupted => if s.phase == SessionPhase::Idle {
            spec_close(s)
        } else {
            (s, Seq::empty())
        },
        SessionEvent::Read(frame, len) => if s.phase != SessionPhase::Idle || len > 4096 {
            (s, Seq::empty())
        } else if len == 0 {
            spec_close(s)
        } else {
            (
                Session { phase: SessionPhase::Publishing(len), ..s },
                seq![SessionAction::Publish(Inbound { id: s.id, frame, len })],
            )
        },
        SessionEvent::ReadFailed => if s.phase == SessionPhase::Idle {
            spec_close(s)
        } else {
            (s, Seq::empty())
        },
        SessionEvent::Published(sent) => match s.phase {
            SessionPhase::Publishing(len) => if sent {
                (
                    Session { phase: SessionPhase::Idle, ..s },
                    seq![SessionAction::CountReceived(len as u64)],
                )
            } else {
                spec_close(s)
            },
            _ => (s, Seq::empty()),
        },
        SessionEvent::Outgoing(frame) => if s.phase != SessionPhase::Idle {
            (s, Seq::empty())
        } else {
            match frame {
                Some(frame) => (
                    Session { phase: SessionPhase::Writing, ..s },
                    seq![SessionAction::Write(frame)],
                ),
                None => spec_close(s),
            }
        },
        SessionEvent::Written(done) => if s.phase != SessionPhase::Writing {
            (s, Seq::empty())
        } else if done {
            (Session { phase: SessionPhase::Idle, ..s }, seq![SessionAction::CountSent(4096)])
        } else {
            (
                Session { phase: SessionPhase::Closed, ..s },
                seq![SessionAction::CloseOutgoing, SessionAction::Disconnect(s.id)],
            )
        },
    }
}

/// The session after a run of events, and all it asked for, in order.
pub open spec fn spec_session_run(s: Session, events: Seq<SessionEvent>) -> (
    Session,
    Seq<SessionAction>,
)
    decreases events.len(),
{
    if events.len() == 0 {
        (s, Seq::empty())
    } else {
        let (before, asked) = spec_session_run(s, events.drop_last());
        let (after, more) = spec_session_step(before, events.last());
        (after, asked + more)
    }
}

/// How often a run of actions asks to report a disconnect.
pub open spec fn spec_disconnects(actions: Seq<SessionAction>) -> nat {
    actions.filter(|a: SessionAction| a is Disconnect).len()
}

/// The bytes from the peer that a run of actions has published: of every
/// published frame the bytes that the peer sent, one frame after the other.
pub open spec fn spec_published_bytes(actions: Seq<SessionAction>) -> Seq<u8>
    decreases actions.len(),
{
    if actions.len() == 0 {
        Seq::empty()
    } else {
        let before = spec_published_bytes(actions.drop_last());
        match actions.last() {
            SessionAction::Publish(inbound) => before + inbound.frame@.subrange(
                0,
                inbound.len as int,
            ),
            _ => before,
        }
    }
}

/// The events of a peer that sends chunks of bytes, each of which is read
/// into a frame and published, and then closes the connection: the last
/// read, into the buffer `last`, gives no bytes.
pub open spec fn spec_peer_events(reads: Seq<([u8; 4096], usize)>, last: [u8; 4096]) -> Seq<
    SessionEvent,
>
    decreases reads.len(),
{
    if reads.len() == 0 {
        seq![SessionEvent::Read(last, 0)]
    } else {
        seq![
            SessionEvent::Read(reads.first().0, reads.first().1),
            SessionEvent::Published(true),
        ] + spec_peer_events(reads.drop_first(), last)
    }
}

/// The bytes a peer has sent in a run of reads.
pub open spec fn spec_read_bytes(reads: Seq<([u8; 4096], usize)>) -> Seq<u8>
    decreases reads.len(),
{
    if reads.len() == 0 {
        Seq::empty()
    } else {
        reads.first().0@.subrange(0, reads.first().1 as int) + spec_read_bytes(reads.drop_first())
    }
}

/// A run of events after another run: the second continues where the first
/// ended.
pub proof fn lemma_session_run_append(s: Session, first: Seq<SessionEvent>, second: Seq<SessionEvent>)
    ensures
        spec_session_run(s, first + second) == ({
            let (mid, asked) = spec_session_run(s, first);
            let (end, more) = spec_session_run(mid, second);
            (end, asked + more)
        }),
    decreases second.len(),
{
    let (mid, asked) = spec_session_run(s, first);
    if second.len() == 0 {
        assert(first + second =~= first);
        assert(asked + Seq::<SessionAction>::empty() =~= asked);
    } else {
        lemma_session_run_append(s, first, second.drop_last());
        assert((first + second).drop_last() =~= first + second.drop_last());
        assert((first + second).last() == second.last());
        let (before, some) = spec_session_run(mid, second.drop_last());
        let (end, more) = spec_session_step(before, second.last());
        assert((asked + some) + more =~= asked + (some + more));
    }
}

/// The published bytes of two runs of actions, one after the other.
pub proof fn lemma_published_bytes_append(first: Seq<SessionAction>, second: Seq<SessionAction>)
    ensures
        spec_published_bytes(first + second) == spec_published_bytes(first) + spec_published_bytes(
            second,
        ),
    decreases second.len(),
{
    if second.len() == 0 {
        assert(first + second =~= first);
        assert(spec_published_bytes(first) + Seq::<u8>::empty() =~= spec_published_bytes(first));
    } else {
        lemma_published_bytes_append(first, second.drop_last());
        assert((first + second).drop_last() =~= first + second.drop_last());
        assert((first + second).last() == second.last());
        let a = spec_published_bytes(first);
        let b = spec_published_bytes(second.drop_last());
        match second.last() {
            SessionAction::Publish(inbound) => {
                let c = inbound.frame@.subrange(0, inbound.len as int);
                assert((a + b) + c =~= a + (b + c));
            },
            _ => {},
        }
    }
}

/// How often two runs of actions, one after the other, ask to report a
/// disconnect.
pub proof fn lemma_disconnects_append(first: Seq<SessionAction>, second: Seq<SessionAction>)
    ensures
        spec_disconnects(first + second) == spec_disconnects(first) + spec_disconnects(second),
{
    Seq::filter_distributes_over_add(first, second, |a: SessionAction| a is Disconnect);
}

/// What one step asks for: a disconnect at most once, and exactly when the
/// step ends the session.
pub proof fn lemma_step_disconnects(s: Session, event: SessionEvent)
    ensures
        ({
            let (after, asked) = spec_session_step(s, event);
            &&& after.id == s.id
            &&& s.phase == SessionPhase::Closed ==> after.phase == SessionPhase::Closed
            &&& spec_disconnects(asked) == if s.phase != SessionPhase::Closed && after.phase
                == SessionPhase::Closed {
                1nat
            } else {
                0nat
            }
        }),
{
    reveal_with_fuel(Seq::filter, 3);
    let (after, asked) = spec_session_step(s, event);
    let keep = |a: SessionAction| a is Disconnect;
    if asked.len() == 1 {
        assert(asked.drop_last() =~= Seq::<SessionAction>::empty());
    } else if asked.len() == 2 {
        assert(asked.drop_last().drop_last() =~= Seq::<SessionAction>::empty());
        assert(asked.drop_last().last() == asked[0]);
    }
}

/// However a session runs, it asks at most once to be reported as
/// disconnected: exactly once if it has ended, and not before.
pub proof fn lemma_disconnects_once(id: u128, events: Seq<SessionEvent>)
    ensures
        ({
            let (end, asked) = spec_session_run(spec_new_session(id), events);
            &&& end.id == id
            &&& spec_disconnects(asked) == if end.phase == SessionPhase::Closed {
                1nat
            } else {
                0nat
            }
        }),
    decreases events.len(),
{
    reveal_with_fuel(Seq::filter, 1);
    if events.len() == 0 {
        assert(Seq::<SessionAction>::empty().filter(|a: SessionAction| a is Disconnect).len() == 0);
    } else {
        lemma_disconnects_once(id, events.drop_last());
        let (before, asked) = spec_session_run(spec_new_session(id), events.drop_last());
        let (after, more) = spec_session_step(before, events.last());
        lemma_step_disconnects(before, events.last());
        lemma_disconnects_append(asked, more);
    }
}

/// Whether every frame to publish and every disconnect to report among
/// actions carries the identifier `id`.
pub open spec fn spec_tagged(actions: Seq<SessionAction>, id: u128) -> bool {
    forall|i: int|
        0 <= i < actions.len() ==> match #[trigger] actions[i] {
            SessionAction::Publish(inbound) => inbound.id == id,
            SessionAction::Disconnect(reported) => reported == id,
            _ => true,
        }
}

/// Whatever a session asks to publish or to report carries the session's
/// identifier.
pub proof fn lemma_session_tagged(id: u128, events: Seq<SessionEvent>)
    ensures
        spec_session_run(spec_new_session(id), events).0.id == id,
        spec_tagged(spec_session_run(spec_new_session(id), events).1, id),
    decreases events.len(),
{
    if events.len() > 0 {
        lemma_session_tagged(id, events.drop_last());
        let (before, asked) = spec_session_run(spec_new_session(id), events.drop_last());
        let (after, more) = spec_session_step(before, events.last());
        let all = asked + more;
        assert forall|i: int| 0 <= i < all.len() implies match #[trigger] all[i] {
            SessionAction::Publish(inbound) => inbound.id == id,
            SessionAction::Disconnect(reported) => reported == id,
            _ => true,
        } by {
            if i < asked.len() {
                assert(all[i] == asked[i]);
            } else {
                assert(all[i] == more[i - asked.len()]);
            }
        }
    }
}

/// A peer that sends its bytes in chunks and closes the connection: the
/// session publishes the chunks as they were read, so that the published
/// bytes are the bytes the peer sent, and then asks once to be reported as
/// disconnected.
pub proof fn lemma_session_delivers(s: Session, reads: Seq<([u8; 4096], usize)>, last: [u8; 4096])
    requires
        s.phase == SessionPhase::Idle,
        forall|i: int| 0 <= i < reads.len() ==> 0 < (#[trigger] reads[i]).1 <= 4096,
    ensures
        ({
            let (end, asked) = spec_session_run(s, spec_peer_events(reads, last));
            &&& end == Session { phase: SessionPhase::Closed, ..s }
            &&& spec_published_bytes(asked) == spec_read_bytes(reads)
            &&& spec_disconnects(asked) == 1
            &&& asked.last() == SessionAction::Disconnect(s.id)
        }),
    decreases reads.len(),
{
    reveal_with_fuel(spec_session_run, 3);
    reveal_with_fuel(spec_published_bytes, 3);
    reveal_with_fuel(Seq::filter, 3);
    if reads.len() == 0 {
        let events = seq![SessionEvent::Read(last, 0)];
        assert(events.drop_last() =~= Seq::<SessionEvent>::empty());
        let asked = seq![SessionAction::Disconnect(s.id)];
        assert(Seq::<SessionAction>::empty() + asked =~= asked);
        assert(asked.drop_last() =~= Seq::<SessionAction>::empty());
    } else {
        let frame = reads.first().0;
        let len = reads.first().1;
        assert(reads[0] == reads.first());
        let head = seq![SessionEvent::Read(frame, len), SessionEvent::Published(true)];
        let rest = reads.drop_first();
        assert forall|i: int| 0 <= i < rest.len() implies 0 < (#[trigger] rest[i]).1 <= 4096 by {
            assert(rest[i] == reads[i + 1]);
        }
        lemma_session_delivers(s, rest, last);
        lemma_session_run_append(s, head, spec_peer_events(rest, last));
        // The two events of the first read.
        assert(head.drop_last() =~= seq![SessionEvent::Read(frame, len)]);
        assert(head.drop_last().drop_last() =~= Seq::<SessionEvent>::empty());
        let first = seq![
            SessionAction::Publish(Inbound { id: s.id, frame, len }),
            SessionAction::CountReceived(len as u64),
        ];
        let (mid, asked) = spec_session_run(s, head);
        assert(asked =~= first);
        assert(mid == s);
        assert(first.drop_last() =~= seq![SessionAction::Publish(Inbound { id: s.id, frame, len })]);
        assert(first.drop_last().drop_last() =~= Seq::<SessionAction>::empty());
        assert(spec_published_bytes(first) =~= frame@.subrange(0, len as int));
        assert(spec_disconnects(first) == 0);
        let (end, more) = spec_session_run(s, spec_peer_events(rest, last));
        lemma_published_bytes_append(first, more);
        lemma_disconnects_append(first, more);
        assert(more.len() > 0) by {
            if more.len() == 0 {
                assert(more.filter(|a: SessionAction| a is Disconnect).len() == 0);
            }
        }
        assert((first + more).last() == more.last());
    }
}

impl Session {
    /// Creates a new session given its identifier
    pub fn new(id: u128) -> (s: Session)
        ensures
            s == spec_new_session(id),
    {
        Session { id, phase: SessionPhase::Idle }
    }

    /// Takes an event and answers with what the program is to do next.
    pub fn step(&mut self, event: SessionEvent) -> (asked: Vec<SessionAction>)
        ensures
            (*final(self), asked@) == spec_session_step(*old(self), event),
    {
        match event {
            SessionEvent::Interrupted => self.interrupted(),
            SessionEvent::Read(frame, len) => self.read(frame, len),
            SessionEvent::ReadFailed => self.read_failed(),
            SessionEvent::Published(sent) => self.published(sent),
            SessionEvent::Outgoing(frame) => self.outgoing(frame),
            SessionEvent::Written(done) => self.written(done),
        }
    }

    /// Whether the session has ended.
    pub fn is_closed(&self) -> (r: bool)
        ensures
            r == (self.phase == SessionPhase::Closed),
    {
        match self.phase {
            SessionPhase::Closed => true,
            _ => false,
        }
    }

    /// Ends the session.
    fn close(&mut self) -> (asked: Vec<SessionAction>)
        ensures
            (*final(self), asked@) == spec_close(*old(self)),
    {
        let mut asked: Vec<SessionAction> = Vec::new();
        if !self.is_closed() {
            self.phase = SessionPhase::Closed;
            asked.push(SessionAction::Disconnect(self.id));
        }
        assert(asked@ =~= spec_close(*old(self)).1);
        asked
    }

    /// The interrupt channel gave a value, or was closed.
    pub fn interrupted(&mut self) -> (asked: Vec<SessionAction>)
        ensures
            (*final(self), asked@) == spec_session_step(*old(self), SessionEvent::Interrupted),
    {
        match self.phase {
            SessionPhase::Idle => self.close(),
            _ => Vec::new(),
        }
    }

    /// A read gave `len` bytes at the start of `frame`. A read of no bytes
    /// means that the peer has closed the connection.
    pub fn read(&mut self, frame: [u8; 4096], len: usize) -> (asked: Vec<SessionAction>)
        ensures
            (*final(self), asked@) == spec_session_step(*old(self), SessionEvent::Read(frame, len)),
    {
        match self.phase {
            SessionPhase::Idle => {
                if len > BUFFER_SIZE {
                    Vec::new()
                } else if len == 0 {
                    self.close()
                } else {
                    self.phase = SessionPhase::Publishing(len);
                    let mut asked: Vec<SessionAction> = Vec::new();
                    asked.push(SessionAction::Publish(Inbound { id: self.id, frame, len }));
                    assert(asked@ =~= seq![
                        SessionAction::Publish(Inbound { id: self.id, frame, len }),
                    ]);
                    asked
                }
            },
            _ => Vec::new(),
        }
    }

    /// A read failed.
    pub fn read_failed(&mut self) -> (asked: Vec<SessionAction>)
        ensures
            (*final(self), asked@) == spec_session_step(*old(self), SessionEvent::ReadFailed),
    {
        match self.phase {
            SessionPhase::Idle => self.close(),
            _ => Vec::new(),
        }
    }

    /// The frame was published (`sent`), or the inbound queue took it no
    /// more.
    pub fn published(&mut self, sent: bool) -> (asked: Vec<SessionAction>)
        ensures
            (*final(self), asked@) == spec_session_step(*old(self), SessionEvent::Published(sent)),
    {
        match self.phase {
            SessionPhase::Publishing(len) => {
                if sent {
                    self.phase = SessionPhase::Idle;
                    let mut asked: Vec<SessionAction> = Vec::new();
                    asked.push(SessionAction::CountReceived(len as u64));
                    assert(asked@ =~= seq![SessionAction::CountReceived(len as u64)]);
                    asked
                } else {
                    self.close()
                }
            },
            _ => Vec::new(),
        }
    }

    /// The outbound queue gave a frame, or was closed (`None`).
    pub fn outgoing(&mut self, frame: Option<[u8; 4096]>) -> (asked: Vec<SessionAction>)
        ensures
            (*final(self), asked@) == spec_session_step(*old(self), SessionEvent::Outgoing(frame)),
    {
        match self.phase {
            SessionPhase::Idle => {
                match frame {
                    Some(frame) => {
                        self.phase = SessionPhase::Writing;
                        let mut asked: Vec<SessionAction> = Vec::new();
                        asked.push(SessionAction::Write(frame));
                        assert(asked@ =~= seq![SessionAction::Write(frame)]);
                        asked
                    },
                    None => self.close(),
                }
            },
            _ => Vec::new(),
        }
    }

    /// The frame was written (`done`), or the write failed.
    pub fn written(&mut self, done: bool) -> (asked: Vec<SessionAction>)
        ensures
            (*final(self), asked@) == spec_session_step(*old(self), SessionEvent::Written(done)),
    {
        match self.phase {
            SessionPhase::Writing => {
                let mut asked: Vec<SessionAction> = Vec::new();
                if done {
                    self.phase = SessionPhase::Idle;
                    asked.push(SessionAction::CountSent(BUFFER_SIZE as u64));
                    assert(asked@ =~= seq![SessionAction::CountSent(4096)]);
                } else {
                    self.phase = SessionPhase::Closed;
                    asked.push(SessionAction::CloseOutgoing);
                    asked.push(SessionAction::Disconnect(self.id));
                    assert(asked@ =~= seq![
                        SessionAction::CloseOutgoing,
                        SessionAction::Disconnect(self.id),
                    ]);
                }
                asked
            },
            _ => Vec::new(),
        }
    }
}

} // verus!
