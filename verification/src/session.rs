//! Session fabric decisions: the broker's registry of per-stream
//! channels and triggers, and the ingest connection's state machine.
//! The channel plumbing itself (mailboxes, broadcasts, timeouts) runs
//! outside the library and carries these decisions out.

use vstd::prelude::*;
use crate::options::{Codec, Message, Packet};
use crate::ts::demuxer::DemuxerEvent;
use crate::ts::stream_type::StreamType;

verus! {

/// The id of the first entry named `name`, if any.
pub open spec fn spec_find_session(s: Seq<(String, u64)>, name: Seq<char>) -> Option<u64>
    decreases s.len(),
{
    if s.len() == 0 {
        None
    } else if s[0].0@ == name {
        Some(s[0].1)
    } else {
        spec_find_session(s.drop_first(), name)
    }
}

/// One request consumed from the broker's mailbox.
pub enum Request {
    Create(String),
    Release(String),
    Join(String),
    RegisterTrigger(u64),
}

/// One action the mailbox runner must carry out.
#[derive(Clone, Copy, PartialEq, Eq, Debug, Structural)]
pub enum Action {
    /// Answer the creator with the new channel's id.
    ReplyHandle(u64),
    /// Hand the named trigger a subscription to the new channel.
    NotifyTrigger(u64, u64),
    /// Answer a join with the channel's id.
    ReplyJoin(u64),
}

/// The broker's registry: named channels and the create-session
/// triggers, with a counter handing out channel ids.
pub struct SessionTable {
    pub channels: Vec<(String, u64)>,
    pub triggers: Vec<u64>,
    pub next_id: u64,
}

impl SessionTable {
    pub fn new() -> (r: SessionTable)
        ensures
            r.channels@.len() == 0,
            r.triggers@.len() == 0,
            r.next_id == 0,
    {
        SessionTable { channels: Vec::new(), triggers: Vec::new(), next_id: 0 }
    }

    /// Consume one request: a creation registers the channel, notifies
    /// every trigger and answers the creator; a release forgets the
    /// channel; a join answers with the channel when it exists; a
    /// trigger registration appends the trigger.
    #[verifier::loop_isolation(false)]
    pub fn process_request(&mut self, req: Request) -> (r: Vec<Action>)
        requires
            old(self).next_id < u64::MAX,
        ensures
            match req {
                Request::Create(name) => {
                    &&& final(self).channels@ == old(self).channels@.push(
                        (name, old(self).next_id),
                    )
                    &&& final(self).triggers@ == old(self).triggers@
                    &&& final(self).next_id == old(self).next_id + 1
                    &&& r@.len() == old(self).triggers@.len() + 1
                    &&& (forall|i: int|
                        0 <= i < old(self).triggers@.len() ==> r@[i] == Action::NotifyTrigger(
                            old(self).triggers@[i],
                            old(self).next_id,
                        ))
                    &&& r@.last() == Action::ReplyHandle(old(self).next_id)
                },
                Request::Release(name) => {
                    &&& final(self).triggers@ == old(self).triggers@
                    &&& final(self).next_id == old(self).next_id
                    &&& spec_find_session(final(self).channels@, name@) is None
                    &&& r@.len() == 0
                },
                Request::Join(name) => {
                    &&& *final(self) == *old(self)
                    &&& (match spec_find_session(old(self).channels@, name@) {
                        Some(id) => r@ == seq![Action::ReplyJoin(id)],
                        None => r@.len() == 0,
                    })
                },
                Request::RegisterTrigger(t) => {
                    &&& final(self).channels@ == old(self).channels@
                    &&& final(self).triggers@ == old(self).triggers@.push(t)
                    &&& final(self).next_id == old(self).next_id
                    &&& r@.len() == 0
                },
            },
    {
        let mut actions: Vec<Action> = Vec::new();
        match req {
            Request::Create(name) => {
                let id = self.next_id;
                let n = self.triggers.len();
                let mut i: usize = 0;
                while i < n
                    invariant
                        i <= n,
                        actions@.len() == i,
                        forall|j: int|
                            0 <= j < i ==> actions@[j] == Action::NotifyTrigger(
                                self.triggers@[j],
                                id,
                            ),
                    decreases n - i,
                {
                    actions.push(Action::NotifyTrigger(self.triggers[i], id));
                    i = i + 1;
                }
                actions.push(Action::ReplyHandle(id));
                self.channels.push((name, id));
                self.next_id = self.next_id + 1;
            },
            Request::Release(name) => {
                self.remove_session(&name);
            },
            Request::Join(name) => {
                match self.find_session(&name) {
                    Some(id) => {
                        actions.push(Action::ReplyJoin(id));
                        proof {
                            assert(actions@ =~= seq![Action::ReplyJoin(id)]);
                        }
                    },
                    None => {},
                }
            },
            Request::RegisterTrigger(t) => {
                self.triggers.push(t);
            },
        }
        actions
    }

    /// The channel registered under a name.
    #[verifier::loop_isolation(false)]
    pub fn find_session(&self, name: &String) -> (r: Option<u64>)
        ensures
            r == spec_find_session(self.channels@, name@),
    {
        let n = self.channels.len();
        let mut i: usize = 0;
        proof {
            assert(self.channels@.skip(0) =~= self.channels@);
        }
        while i < n
            invariant
                i <= n,
                spec_find_session(self.channels@, name@) == spec_find_session(
                    self.channels@.skip(i as int),
                    name@,
                ),
            decreases n - i,
        {
            proof {
                assert(self.channels@.skip(i as int)[0] == self.channels@[i as int]);
                assert(self.channels@.skip(i as int).drop_first() =~= self.channels@.skip(i + 1));
            }
            if self.channels[i].0.eq(name) {
                return Some(self.channels[i].1);
            }
            i = i + 1;
        }
        proof {
            assert(self.channels@.skip(n as int) =~= Seq::<(String, u64)>::empty());
        }
        None
    }

    /// Forget every channel registered under a name.
    #[verifier::loop_isolation(false)]
    fn remove_session(&mut self, name: &String)
        ensures
            final(self).triggers@ == old(self).triggers@,
            final(self).next_id == old(self).next_id,
            spec_find_session(final(self).channels@, name@) is None,
    {
        let mut kept: Vec<(String, u64)> = Vec::new();
        proof {
            assert(spec_find_session(kept@, name@) is None);
        }
        let n = self.channels.len();
        let mut i: usize = 0;
        while i < n
            invariant
                i <= n,
                n == self.channels@.len(),
                self.channels@ == old(self).channels@,
                self.triggers@ == old(self).triggers@,
                self.next_id == old(self).next_id,
                spec_find_session(kept@, name@) is None,
            decreases n - i,
        {
            if !self.channels[i].0.eq(name) {
                let id = self.channels[i].1;
                let entry_name = self.channels[i].0.clone();
                proof {
                    lemma_find_session_push(kept@, (entry_name, id), name@);
                }
                kept.push((entry_name, id));
            }
            i = i + 1;
        }
        self.channels = kept;
    }
}

proof fn lemma_find_session_push(s: Seq<(String, u64)>, e: (String, u64), k: Seq<char>)
    requires
        spec_find_session(s, k) is None,
        e.0@ != k,
    ensures
        spec_find_session(s.push(e), k) is None,
    decreases s.len(),
{
    if s.len() == 0 {
        assert(s.push(e)[0] == e);
        assert(s.push(e).drop_first() =~= Seq::<(String, u64)>::empty());
        assert(spec_find_session(Seq::<(String, u64)>::empty(), k) is None);
    } else {
        assert(s.push(e)[0] == s[0]);
        assert(s.push(e).drop_first() =~= s.drop_first().push(e));
        lemma_find_session_push(s.drop_first(), e, k);
    }
}

/// The ingest connection's state.
#[derive(Clone, Copy, PartialEq, Eq, Debug, Structural)]
pub enum ConnState {
    Initializing,
    Publishing(u64),
    Disconnecting,
}

/// What the connection runner must do with one demultiplexed event.
pub enum IngestAction {
    /// Ask the broker to create the session channel.
    CreateSession,
    /// Publish a message into the session.
    Publish(Message),
    /// Nothing.
    Ignore,
}

/// Decide one event: stream details ask for a session; video and audio
/// payloads with a presentation timestamp are published while the
/// connection publishes; clock references are forwarded likewise.
pub fn handle_event(state: &ConnState, event: DemuxerEvent) -> (r: IngestAction)
    ensures
        match event {
            DemuxerEvent::StreamDetails(_) => r is CreateSession,
            DemuxerEvent::ClockRef(pcr) => {
                if state is Publishing {
                    r matches IngestAction::Publish(m) && m matches Message::ClockRef(p) && p
                        == pcr
                } else {
                    r is Ignore
                }
            },
            DemuxerEvent::Video(st, data, pts, dts) => {
                if state is Publishing && (st == StreamType::H264 || st == StreamType::H265)
                    && pts is Some {
                    r matches IngestAction::Publish(m) && m matches Message::Packet(p) && p.codec
                        == (if st == StreamType::H264 {
                        Codec::H264
                    } else {
                        Codec::H265
                    }) && p.data@ == data@ && p.pts == pts->Some_0 && p.dts == dts
                } else {
                    r is Ignore
                }
            },
            DemuxerEvent::Audio(_, data, pts) => {
                if state is Publishing && pts is Some {
                    r matches IngestAction::Publish(m) && m matches Message::Packet(p) && p.codec
                        == Codec::AAC && p.data@ == data@ && p.pts == pts->Some_0 && p.dts
                        is None
                } else {
                    r is Ignore
                }
            },
        },
{
    match event {
        DemuxerEvent::StreamDetails(_) => IngestAction::CreateSession,
        DemuxerEvent::ClockRef(pcr) => {
            if matches!(state, ConnState::Publishing(_)) {
                IngestAction::Publish(Message::ClockRef(pcr))
            } else {
                IngestAction::Ignore
            }
        },
        DemuxerEvent::Video(st, data, pts, dts) => {
            if matches!(state, ConnState::Publishing(_)) && (st == StreamType::H264 || st
                == StreamType::H265) {
                match pts {
                    Some(p) => IngestAction::Publish(
                        Message::Packet(
                            Packet {
                                codec: if st == StreamType::H264 {
                                    Codec::H264
                                } else {
                                    Codec::H265
                                },
                                data,
                                pts: p,
                                dts,
                            },
                        ),
                    ),
                    None => IngestAction::Ignore,
                }
            } else {
                IngestAction::Ignore
            }
        },
        DemuxerEvent::Audio(_, data, pts) => {
            if matches!(state, ConnState::Publishing(_)) {
                match pts {
                    Some(p) => IngestAction::Publish(
                        Message::Packet(Packet { codec: Codec::AAC, data, pts: p, dts: None }),
                    ),
                    None => IngestAction::Ignore,
                }
            } else {
                IngestAction::Ignore
            }
        },
    }
}

/// The session channel was granted: the connection starts publishing.
pub fn session_created(state: &ConnState, channel: u64) -> (r: ConnState)
    ensures
        state is Initializing ==> r == ConnState::Publishing(channel),
        !(state is Initializing) ==> r == *state,
{
    match state {
        ConnState::Initializing => ConnState::Publishing(channel),
        ConnState::Publishing(c) => ConnState::Publishing(*c),
        ConnState::Disconnecting => ConnState::Disconnecting,
    }
}

/// A timeout or transport close: the connection disconnects, and the
/// session is released exactly when one was being published.
pub fn disconnect(state: &ConnState) -> (r: (ConnState, bool))
    ensures
        r.0 == ConnState::Disconnecting,
        r.1 == (state is Publishing),
{
    match state {
        ConnState::Publishing(_) => (ConnState::Disconnecting, true),
        _ => (ConnState::Disconnecting, false),
    }
}

/// The blocking-reload poll gives up after one hundred rounds of its
/// 150-millisecond wait, per the delivery policy.
pub fn reload_gives_up(count: u64) -> (r: bool)
    ensures
        r == (count > 100),
{
    count > 100
}

} // verus!
