//! The session hub: the registry of connected sessions together with one
//! outbound message queue per session, and the broadcast fan-out that keeps
//! every member in sync.
//!
//! Every operation touches each session's queue independently: a queue's
//! new content never depends on any other queue, so one slow peer cannot
//! stall another (its delivery task simply drains a longer queue later).
//!
//! Queue policy, chosen deliberately: a session's outbound queue is
//! unbounded, so a broadcast never blocks and never drops a message; the
//! memory held by an unresponsive peer's backlog is reclaimed by tearing
//! that one session down ([`SessionHub::disconnect`]) when its delivery
//! fails, leaving every other session untouched.

use crate::message::{AsciiFrame, FrameV, Message, MessageV};
use crate::user::{
    now_rfc3339, spec_has_user, spec_info, spec_roster, spec_user_index, UserManager, UserV,
};
use vstd::prelude::*;
use vstd::string::StringExecFns;

verus! {

/// Mathematical value of an [`Outbox`].
#[verifier::ext_equal]
pub struct OutboxV {
    pub id: u64,
    pub msgs: Seq<MessageV>,
}

/// One session's outbound queue: ordered, FIFO, drained by that session's
/// delivery task alone.
pub struct Outbox {
    pub id: u64,
    pub msgs: Vec<Message>,
}

impl View for Outbox {
    type V = OutboxV;

    open spec fn view(&self) -> OutboxV {
        OutboxV { id: self.id, msgs: self.msgs@.map_values(|m: Message| m@) }
    }
}

/// Mathematical value of a [`SessionHub`].
#[verifier::ext_equal]
pub struct HubV {
    pub users: Seq<UserV>,
    pub queues: Seq<OutboxV>,
    pub next_id: u64,
}

impl HubV {
    /// Queues line up with the registry: one per session, under the same id,
    /// and ids are unique.
    pub open spec fn wf(self) -> bool {
        &&& self.queues.len() == self.users.len()
        &&& forall|i: int| 0 <= i < self.users.len() ==> (#[trigger] self.queues[i]).id
            == self.users[i].id
        &&& forall|i: int, j: int|
            #![trigger self.users[i], self.users[j]]
            0 <= i < j < self.users.len() ==> self.users[i].id < self.users[j].id
        &&& forall|i: int| 0 <= i < self.users.len() ==> (#[trigger] self.users[i]).id
            < self.next_id
    }
}

/// Every queue with one more message at its tail.
pub open spec fn spec_push_all(qs: Seq<OutboxV>, m: MessageV) -> Seq<OutboxV> {
    Seq::new(qs.len(), |i: int| OutboxV { id: qs[i].id, msgs: qs[i].msgs.push(m) })
}

/// Every queue but the excluded session's with one more message at its tail.
pub open spec fn spec_push_except(qs: Seq<OutboxV>, m: MessageV, except_id: u64) -> Seq<OutboxV> {
    Seq::new(
        qs.len(),
        |i: int|
            if qs[i].id == except_id {
                qs[i]
            } else {
                OutboxV { id: qs[i].id, msgs: qs[i].msgs.push(m) }
            },
    )
}

/// The greeting sent back to a joining user.
pub open spec fn spec_welcome(username: Seq<char>) -> Seq<char> {
    "Welcome, "@ + username + "!"@
}

/// The hub after a join: the user is registered under the next free id; the
/// newcomer's queue starts with the acknowledgment; the new roster goes to
/// everyone (newcomer included); the joined-notice goes to everyone else.
pub open spec fn spec_join(h: HubV, username: Seq<char>, connected_at: Seq<char>) -> HubV {
    let id = h.next_id;
    let user = UserV { id, username, connected_at, last_frame: Option::<FrameV>::None };
    let users2 = h.users.push(user);
    let roster = spec_roster(users2);
    let ack = MessageV::Ack { success: true, message: spec_welcome(username) };
    let queues1 = h.queues.push(OutboxV { id, msgs: seq![ack] });
    let queues2 = spec_push_all(queues1, MessageV::UserList(roster));
    let queues3 = spec_push_except(queues2, MessageV::UserJoined { user_id: id, username }, id);
    HubV { users: users2, queues: queues3, next_id: (id + 1) as u64 }
}

/// The hub after a frame submission: from a joined session the frame is
/// recorded as that session's latest and goes, tagged with the sender, to
/// every session's queue (the sender's own included); from an unknown
/// session it changes nothing.
pub open spec fn spec_submit_frame(h: HubV, session_id: u64, f: FrameV) -> HubV {
    if spec_has_user(h.users, session_id) {
        let i = spec_user_index(h.users, session_id);
        let user = h.users[i];
        let m = MessageV::Frame { user_id: session_id, username: user.username, frame: f };
        HubV {
            users: h.users.update(i, UserV { last_frame: Option::Some(f), ..user }),
            queues: spec_push_all(h.queues, m),
            next_id: h.next_id,
        }
    } else {
        h
    }
}

/// The hub after a chat submission: from a joined session the line goes,
/// tagged with the sender, to every session's queue; from an unknown session
/// it changes nothing.
pub open spec fn spec_submit_chat(h: HubV, session_id: u64, content: Seq<char>) -> HubV {
    if spec_has_user(h.users, session_id) {
        let i = spec_user_index(h.users, session_id);
        let m = MessageV::Chat {
            user_id: session_id,
            username: h.users[i].username,
            content,
        };
        HubV { users: h.users, queues: spec_push_all(h.queues, m), next_id: h.next_id }
    } else {
        h
    }
}

/// The hub after a disconnect: the session and its queue are dropped, the
/// remaining sessions hear that the peer left and then get the refreshed
/// roster. Disconnecting an unknown id is a no-op.
pub open spec fn spec_disconnect(h: HubV, session_id: u64) -> HubV {
    if spec_has_user(h.users, session_id) {
        let i = spec_user_index(h.users, session_id);
        let username = h.users[i].username;
        let users2 = h.users.remove(i);
        let queues1 = h.queues.remove(i);
        let left = MessageV::UserLeft { user_id: session_id, username };
        let queues2 = spec_push_all(queues1, left);
        let queues3 = spec_push_all(queues2, MessageV::UserList(spec_roster(users2)));
        HubV { users: users2, queues: queues3, next_id: h.next_id }
    } else {
        h
    }
}

/// The central coordination point: the authoritative session registry plus
/// one outbound queue per session.
pub struct SessionHub {
    pub manager: UserManager,
    pub outboxes: Vec<Outbox>,
}

impl View for SessionHub {
    type V = HubV;

    open spec fn view(&self) -> HubV {
        HubV {
            users: self.manager@,
            queues: self.outboxes@.map_values(|q: Outbox| q@),
            next_id: self.manager.next_id,
        }
    }
}

impl SessionHub {
    /// A hub with no sessions.
    pub fn new() -> (h: SessionHub)
        ensures
            h@.wf(),
            h@.users == Seq::<UserV>::empty(),
            h@.queues == Seq::<OutboxV>::empty(),
            h@.next_id == 0,
    {
        let h = SessionHub { manager: UserManager::new(), outboxes: Vec::new() };
        proof {
            assert(h@.queues =~= Seq::<OutboxV>::empty());
        }
        h
    }

    /// Append a copy of the message to every session's queue. No queue's new
    /// content depends on any other queue.
    fn broadcast_to_all(&mut self, message: &Message)
        ensures
            final(self).manager == old(self).manager,
            final(self)@.queues == spec_push_all(old(self)@.queues, message@),
    {
        let n = self.outboxes.len();
        let mut k: usize = 0;
        while k < n
            invariant
                n == self.outboxes.len(),
                old(self)@.queues.len() == n,
                self@.queues.len() == n,
                0 <= k <= n,
                self.manager == old(self).manager,
                forall|i: int| #![trigger self@.queues[i]] k <= i < n ==> self@.queues[i]
                    == old(self)@.queues[i],
                forall|i: int| #![trigger self@.queues[i]] 0 <= i < k ==> self@.queues[i]
                    == spec_push_all(
                    old(self)@.queues,
                    message@,
                )[i],
            decreases n - k,
        {
            let ghost pre = self@.queues;
            let ghost preout = self.outboxes@;
            proof {
                assert(pre[k as int] == old(self)@.queues[k as int]);
            }
            let copy = message.duplicate();
            self.outboxes[k].msgs.push(copy);
            proof {
                assert forall|i: int| #![trigger self@.queues[i]] 0 <= i < n && i != k implies self@.queues[i]
                    == pre[i] by {
                    assert(self.outboxes@[i] == preout.update(k as int, self.outboxes@[k as int])[i]);
                };
                assert(self@.queues[k as int].msgs =~= pre[k as int].msgs.push(message@));
                assert(self@.queues[k as int] == spec_push_all(old(self)@.queues, message@)[k as int]);
            }
            k = k + 1;
        }
        proof {
            assert(final(self)@.queues =~= spec_push_all(old(self)@.queues, message@));
        }
    }

    /// Append a copy of the message to every queue but the excluded
    /// session's.
    fn broadcast_except(&mut self, message: &Message, except_id: u64)
        ensures
            final(self).manager == old(self).manager,
            final(self)@.queues == spec_push_except(old(self)@.queues, message@, except_id),
    {
        let n = self.outboxes.len();
        let mut k: usize = 0;
        while k < n
            invariant
                n == self.outboxes.len(),
                old(self)@.queues.len() == n,
                self@.queues.len() == n,
                0 <= k <= n,
                self.manager == old(self).manager,
                forall|i: int| #![trigger self@.queues[i]] k <= i < n ==> self@.queues[i]
                    == old(self)@.queues[i],
                forall|i: int| #![trigger self@.queues[i]] 0 <= i < k ==> self@.queues[i]
                    == spec_push_except(
                    old(self)@.queues,
                    message@,
                    except_id,
                )[i],
            decreases n - k,
        {
            let ghost pre = self@.queues;
            let ghost preout = self.outboxes@;
            proof {
                assert(pre[k as int] == old(self)@.queues[k as int]);
            }
            if self.outboxes[k].id != except_id {
                let copy = message.duplicate();
                self.outboxes[k].msgs.push(copy);
                proof {
                    assert forall|i: int| #![trigger self@.queues[i]] 0 <= i < n && i != k implies self@.queues[i]
                        == pre[i] by {
                        assert(self.outboxes@[i] == preout.update(
                            k as int,
                            self.outboxes@[k as int],
                        )[i]);
                    };
                    assert(self@.queues[k as int].msgs =~= pre[k as int].msgs.push(message@));
                    assert(self@.queues[k as int] == spec_push_except(
                        old(self)@.queues,
                        message@,
                        except_id,
                    )[k as int]);
                }
            } else {
                proof {
                    assert(self@.queues[k as int] == spec_push_except(
                        old(self)@.queues,
                        message@,
                        except_id,
                    )[k as int]);
                }
            }
            k = k + 1;
        }
        proof {
            assert(final(self)@.queues =~= spec_push_except(
                old(self)@.queues,
                message@,
                except_id,
            ));
        }
    }

    /// Answer a keep-alive: a ping is echoed as a pong, directly to the
    /// requester, never broadcast.
    pub fn keepalive(&self) -> (r: Message)
        ensures
            r@ == MessageV::Pong,
    {
        Message::Pong
    }

    /// Register a session under the given display name and timestamp: the
    /// newcomer is acknowledged and gets the roster; every prior member gets
    /// the roster and then the joined-notice. Returns the fresh session id.
    pub fn join_at(&mut self, username: String, connected_at: String) -> (id: u64)
        requires
            old(self)@.wf(),
            old(self)@.next_id < u64::MAX,
        ensures
            final(self)@.wf(),
            id == old(self)@.next_id,
            final(self)@ == spec_join(old(self)@, username@, connected_at@),
    {
        let ghost h0 = self@;
        let uname = username.clone();
        let info = self.manager.add_user(username, connected_at);
        let id = info.user_id;
        let welcome = String::from_str("Welcome, ").concat(uname.as_str()).concat("!");
        let ack = Message::Ack { success: true, message: welcome };
        let mut first: Vec<Message> = Vec::new();
        first.push(ack);
        self.outboxes.push(Outbox { id, msgs: first });
        let ghost h1queues = self@.queues;
        proof {
            let ackv = MessageV::Ack { success: true, message: spec_welcome(uname@) };
            assert(h1queues =~= h0.queues.push(OutboxV { id, msgs: seq![ackv] })) by {
                assert forall|i: int| 0 <= i < h0.queues.len() implies h1queues[i] == h0.queues[i]
                    by {
                    assert(self.outboxes@[i] == old(self).outboxes@[i]);
                };
                assert(h1queues[h0.queues.len() as int].msgs =~= seq![ackv]);
            };
        }
        let list = self.manager.get_user_list();
        let list_msg = Message::UserList(list);
        self.broadcast_to_all(&list_msg);
        let joined = Message::UserJoined { user_id: id, username: uname };
        self.broadcast_except(&joined, id);
        proof {
            let hj = spec_join(h0, uname@, info.connected_at@);
            assert(self@.users == hj.users);
            assert(self@.queues =~= hj.queues);
            assert(self@ == hj);
            assert forall|i: int| 0 <= i < self@.users.len() implies (#[trigger] self@.queues[i]).id
                == self@.users[i].id by {
                if i < h0.users.len() {
                    assert(h0.queues[i].id == h0.users[i].id);
                }
            };
        }
        id
    }

    /// Register a session with the clock's timestamp (see [`Self::join_at`]).
    pub fn join(&mut self, username: String) -> (id: u64)
        requires
            old(self)@.wf(),
            old(self)@.next_id < u64::MAX,
        ensures
            final(self)@.wf(),
            id == old(self)@.next_id,
            exists|ts: Seq<char>| final(self)@ == spec_join(old(self)@, username@, ts),
    {
        let now = now_rfc3339();
        let ghost ts = now@;
        let id = self.join_at(username, now);
        proof {
            assert(final(self)@ == spec_join(old(self)@, username@, ts));
        }
        id
    }

    /// Record and broadcast a frame from a joined session; a frame from an
    /// unknown session is dropped with no observable effect.
    pub fn submit_frame(&mut self, session_id: u64, frame: AsciiFrame)
        requires
            old(self)@.wf(),
        ensures
            final(self)@.wf(),
            final(self)@ == spec_submit_frame(old(self)@, session_id, frame@),
    {
        let ghost h0 = self@;
        let fcopy = frame.duplicate();
        let found = self.manager.update_user_frame(session_id, frame);
        match found {
            Option::Some(name) => {
                let m = Message::Frame { user_id: session_id, username: name, frame: fcopy };
                self.broadcast_to_all(&m);
                proof {
                    let hj = spec_submit_frame(h0, session_id, frame@);
                    assert(self@.users == hj.users);
                    assert(self@.queues =~= hj.queues);
                    assert(self@ == hj);
                    assert forall|i: int|
                        0 <= i < self@.users.len() implies (#[trigger] self@.queues[i]).id
                        == self@.users[i].id by {
                        assert(h0.queues[i].id == h0.users[i].id);
                        assert(self@.users[i].id == h0.users[i].id);
                    };
                    assert forall|i: int, j: int|
                        #![trigger self@.users[i], self@.users[j]]
                        0 <= i < j < self@.users.len() implies self@.users[i].id
                        < self@.users[j].id by {
                        assert(self@.users[i].id == h0.users[i].id);
                        assert(self@.users[j].id == h0.users[j].id);
                    };
                    assert forall|i: int|
                        0 <= i < self@.users.len() implies (#[trigger] self@.users[i]).id
                        < self@.next_id by {
                        assert(self@.users[i].id == h0.users[i].id);
                    };
                }
            },
            Option::None => {
                proof {
                    assert(self@ == h0);
                }
            },
        }
    }

    /// Broadcast a chat line from a joined session, tagged with the sender;
    /// a line from an unknown session is dropped with no observable effect.
    pub fn submit_chat(&mut self, session_id: u64, content: String)
        requires
            old(self)@.wf(),
        ensures
            final(self)@.wf(),
            final(self)@ == spec_submit_chat(old(self)@, session_id, content@),
    {
        let ghost h0 = self@;
        let name_opt: Option<String> = match self.manager.get_user(session_id) {
            Option::Some(u) => Option::Some(u.username.clone()),
            Option::None => Option::None,
        };
        match name_opt {
            Option::Some(name) => {
                let m = Message::Chat { user_id: session_id, username: name, content };
                self.broadcast_to_all(&m);
                proof {
                    let hj = spec_submit_chat(h0, session_id, content@);
                    assert(self@.queues =~= hj.queues);
                    assert(self@ == hj);
                }
            },
            Option::None => {
                proof {
                    assert(self@ == h0);
                }
            },
        }
    }

    /// Remove a session: its queue is dropped, the remaining sessions hear
    /// that the peer left and then get the refreshed roster. Disconnecting
    /// an unknown id is a no-op.
    pub fn disconnect(&mut self, session_id: u64)
        requires
            old(self)@.wf(),
        ensures
            final(self)@.wf(),
            final(self)@ == spec_disconnect(old(self)@, session_id),
    {
        let ghost h0 = self@;
        let removed = self.manager.remove_user(session_id);
        match removed {
            Option::Some(user) => {
                let ghost t = spec_user_index(h0.users, session_id);
                proof {
                    assert(0 <= t < h0.users.len() && h0.users[t].id == session_id);
                    assert(h0.queues[t].id == session_id);
                }
                let n = self.outboxes.len();
                let mut k: usize = 0;
                while k < n
                    invariant
                        h0 == old(self)@,
                        h0.wf(),
                        spec_has_user(h0.users, session_id),
                        t == spec_user_index(h0.users, session_id),
                        0 <= t < h0.users.len(),
                        h0.users[t].id == session_id,
                        user@ == h0.users[t],
                        self@.users == h0.users.remove(t),
                        self@.queues == h0.queues,
                        self@.next_id == h0.next_id,
                        self.manager.wf(),
                        n == self.outboxes.len(),
                        n == h0.queues.len(),
                        0 <= k <= t,
                        forall|i: int| 0 <= i < k ==> (#[trigger] h0.queues[i]).id != session_id,
                    decreases n - k,
                {
                    if self.outboxes[k].id == session_id {
                        proof {
                            assert(h0.queues[k as int].id == session_id);
                            assert(k as int == t) by {
                                if k as int != t {
                                    assert(h0.users[k as int].id != h0.users[t].id);
                                    assert(h0.queues[k as int].id == h0.users[k as int].id);
                                }
                            };
                        }
                        let ghost preout = self.outboxes@;
                        self.outboxes.remove(k);
                        proof {
                            assert(self@.queues =~= h0.queues.remove(t));
                        }
                        let left = Message::UserLeft {
                            user_id: session_id,
                            username: user.username,
                        };
                        self.broadcast_to_all(&left);
                        let list = self.manager.get_user_list();
                        let list_msg = Message::UserList(list);
                        self.broadcast_to_all(&list_msg);
                        proof {
                            let hd = spec_disconnect(h0, session_id);
                            assert(self@.users == hd.users);
                            assert(left@ == (MessageV::UserLeft {
                                user_id: session_id,
                                username: h0.users[t].username,
                            }));
                            assert(list_msg@ == MessageV::UserList(spec_roster(hd.users)));
                            assert(self@.queues =~= hd.queues);
                            assert(self@ == hd);
                            assert forall|i: int|
                                0 <= i < self@.users.len() implies (#[trigger] self@.queues[i]).id
                                == self@.users[i].id by {
                                assert(self@.users[i] == if i < t {
                                    h0.users[i]
                                } else {
                                    h0.users[i + 1]
                                });
                                assert(self@.queues[i].id == h0.queues.remove(t)[i].id);
                                assert(h0.queues.remove(t)[i] == if i < t {
                                    h0.queues[i]
                                } else {
                                    h0.queues[i + 1]
                                });
                            };
                        }
                        return ;
                    }
                    proof {
                        assert(h0.queues[k as int].id != session_id);
                        assert(k as int != t);
                    }
                    k = k + 1;
                }
                proof {
                    assert(false);
                }
            },
            Option::None => {
                proof {
                    assert(self@ == h0);
                }
            },
        }
    }

    /// Drain a session's queue for delivery: the pending messages come out
    /// in order and the queue is left empty. An unknown id yields nothing.
    pub fn take_outbox(&mut self, session_id: u64) -> (msgs: Vec<Message>)
        requires
            old(self)@.wf(),
        ensures
            final(self)@.wf(),
            final(self)@.users == old(self)@.users,
            final(self)@.next_id == old(self)@.next_id,
            spec_has_user(old(self)@.users, session_id) ==> {
                let i = spec_user_index(old(self)@.users, session_id);
                &&& msgs@.map_values(|m: Message| m@) == old(self)@.queues[i].msgs
                &&& final(self)@.queues == old(self)@.queues.update(
                    i,
                    OutboxV { id: session_id, msgs: Seq::<MessageV>::empty() },
                )
            },
            !spec_has_user(old(self)@.users, session_id) ==> msgs@.len() == 0 && final(self)@
                == old(self)@,
    {
        let ghost h0 = self@;
        let n = self.outboxes.len();
        let mut k: usize = 0;
        while k < n
            invariant
                h0 == old(self)@,
                h0.wf(),
                self@ == h0,
                *self == *old(self),
                n == self.outboxes.len(),
                0 <= k <= n,
                forall|i: int| 0 <= i < k ==> (#[trigger] h0.queues[i]).id != session_id,
            decreases n - k,
        {
            if self.outboxes[k].id == session_id {
                proof {
                    assert(h0.queues[k as int].id == session_id);
                    assert(h0.users[k as int].id == session_id);
                    assert(spec_has_user(h0.users, session_id));
                    assert(spec_user_index(h0.users, session_id) == k as int) by {
                        let j = spec_user_index(h0.users, session_id);
                        assert(0 <= j < h0.users.len() && h0.users[j].id == session_id);
                        if j != k as int {
                            assert(h0.users[j].id != h0.users[k as int].id);
                        }
                    };
                }
                let taken = self.outboxes.remove(k);
                self.outboxes.insert(k, Outbox { id: session_id, msgs: Vec::new() });
                proof {
                    assert(self@.queues =~~= h0.queues.update(
                        k as int,
                        OutboxV { id: session_id, msgs: Seq::<MessageV>::empty() },
                    ));
                    assert forall|i: int|
                        0 <= i < self@.users.len() implies (#[trigger] self@.queues[i]).id
                        == self@.users[i].id by {
                        assert(h0.queues[i].id == h0.users[i].id);
                    };
                }
                return taken.msgs;
            }
            k = k + 1;
        }
        proof {
            assert(!spec_has_user(h0.users, session_id)) by {
                if spec_has_user(h0.users, session_id) {
                    let j = choose|j: int|
                        0 <= j < h0.users.len() && (#[trigger] h0.users[j]).id == session_id;
                    assert(h0.queues[j].id == session_id);
                }
            };
        }
        Vec::new()
    }

    /// Drive one inbound message through the connection state machine: a
    /// join names the session; a frame or chat from a joined session is
    /// recorded and broadcast and from an unnamed one ignored; a ping is
    /// answered directly; any other inbound message is ignored.
    pub fn handle_inbound(&mut self, session: Option<u64>, msg: Message, now: String) -> (r: (
        Option<u64>,
        Option<Message>,
    ))
        requires
            old(self)@.wf(),
            old(self)@.next_id < u64::MAX,
        ensures
            final(self)@.wf(),
            match msg@ {
                MessageV::Join { username } => {
                    &&& r.0 == Option::Some(old(self)@.next_id)
                    &&& r.1 is None
                    &&& final(self)@ == spec_join(old(self)@, username, now@)
                },
                MessageV::Frame { frame, .. } => {
                    &&& r.0 == session
                    &&& r.1 is None
                    &&& match session {
                        Option::Some(s) => final(self)@ == spec_submit_frame(old(self)@, s, frame),
                        Option::None => final(self)@ == old(self)@,
                    }
                },
                MessageV::Chat { content, .. } => {
                    &&& r.0 == session
                    &&& r.1 is None
                    &&& match session {
                        Option::Some(s) => final(self)@ == spec_submit_chat(old(self)@, s, content),
                        Option::None => final(self)@ == old(self)@,
                    }
                },
                MessageV::Ping => {
                    &&& r.0 == session
                    &&& match r.1 {
                        Option::Some(m) => m@ == MessageV::Pong,
                        Option::None => false,
                    }
                    &&& final(self)@ == old(self)@
                },
                _ => r.0 == session && r.1 is None && final(self)@ == old(self)@,
            },
    {
        match msg {
            Message::Join { username } => {
                let id = self.join_at(username, now);
                (Some(id), None)
            },
            Message::Frame { frame, .. } => {
                match session {
                    Option::Some(s) => {
                        self.submit_frame(s, frame);
                    },
                    Option::None => {},
                }
                (session, None)
            },
            Message::Chat { content, .. } => {
                match session {
                    Option::Some(s) => {
                        self.submit_chat(s, content);
                    },
                    Option::None => {},
                }
                (session, None)
            },
            Message::Ping => (session, Some(self.keepalive())),
            _ => (session, None),
        }
    }

    /// Drive one inbound message with the clock's timestamp for any join it
    /// carries (see [`Self::handle_inbound`]).
    pub fn handle_inbound_now(&mut self, session: Option<u64>, msg: Message) -> (r: (
        Option<u64>,
        Option<Message>,
    ))
        requires
            old(self)@.wf(),
            old(self)@.next_id < u64::MAX,
        ensures
            final(self)@.wf(),
            match msg@ {
                MessageV::Join { username } => {
                    &&& r.0 == Option::Some(old(self)@.next_id)
                    &&& r.1 is None
                    &&& exists|ts: Seq<char>| final(self)@ == spec_join(old(self)@, username, ts)
                },
                MessageV::Frame { frame, .. } => {
                    &&& r.0 == session
                    &&& r.1 is None
                    &&& match session {
                        Option::Some(s) => final(self)@ == spec_submit_frame(old(self)@, s, frame),
                        Option::None => final(self)@ == old(self)@,
                    }
                },
                MessageV::Chat { content, .. } => {
                    &&& r.0 == session
                    &&& r.1 is None
                    &&& match session {
                        Option::Some(s) => final(self)@ == spec_submit_chat(old(self)@, s, content),
                        Option::None => final(self)@ == old(self)@,
                    }
                },
                MessageV::Ping => {
                    &&& r.0 == session
                    &&& match r.1 {
                        Option::Some(m) => m@ == MessageV::Pong,
                        Option::None => false,
                    }
                    &&& final(self)@ == old(self)@
                },
                _ => r.0 == session && r.1 is None && final(self)@ == old(self)@,
            },
    {
        let now = now_rfc3339();
        let ghost ts = now@;
        let r = self.handle_inbound(session, msg, now);
        proof {
            if msg@ is Join {
                assert(final(self)@ == spec_join(old(self)@, msg@.arrow_Join_username(), ts));
            }
        }
        r
    }
}


/// A session that never joined can submit frames or chat with no observable
/// effect: the registry and every queue stay exactly as they were.
pub proof fn lemma_unjoined_no_effect(h: HubV, session_id: u64, f: FrameV, content: Seq<char>)
    requires
        !spec_has_user(h.users, session_id),
    ensures
        spec_submit_frame(h, session_id, f) == h,
        spec_submit_chat(h, session_id, content) == h,
{
}

/// Joining appends exactly one roster update and then exactly one
/// joined-notice to every current member's queue, and hands the joiner an
/// acknowledgment followed by that same roster — the joiner sees the roster
/// exactly once.
pub proof fn lemma_join_broadcasts(h: HubV, username: Seq<char>, connected_at: Seq<char>)
    requires
        h.wf(),
        h.next_id < u64::MAX,
    ensures
        ({
            let h2 = spec_join(h, username, connected_at);
            let roster = spec_roster(h2.users);
            let notice = MessageV::UserJoined { user_id: h.next_id, username };
            &&& h2.queues.len() == h.queues.len() + 1
            &&& forall|i: int|
                0 <= i < h.queues.len() ==> (#[trigger] h2.queues[i]).msgs == h.queues[i].msgs
                    + seq![MessageV::UserList(roster), notice]
            &&& h2.queues[h.queues.len() as int].msgs == seq![
                MessageV::Ack { success: true, message: spec_welcome(username) },
                MessageV::UserList(roster),
            ]
        }),
{
    let h2 = spec_join(h, username, connected_at);
    let roster = spec_roster(h2.users);
    let notice = MessageV::UserJoined { user_id: h.next_id, username };
    assert forall|i: int| 0 <= i < h.queues.len() implies (#[trigger] h2.queues[i]).msgs
        == h.queues[i].msgs + seq![MessageV::UserList(roster), notice] by {
        assert(h.queues[i].id == h.users[i].id);
        assert(h.users[i].id < h.next_id);
        assert(h2.queues[i].msgs =~= h.queues[i].msgs + seq![MessageV::UserList(roster), notice]);
    };
    assert(h2.queues[h.queues.len() as int].msgs =~= seq![
        MessageV::Ack { success: true, message: spec_welcome(username) },
        MessageV::UserList(roster),
    ]);
}

/// Frames submitted by one session reach every queue (the sender's own
/// included) tagged with that session, in the order they were submitted.
pub proof fn lemma_frame_order(h: HubV, session_id: u64, f1: FrameV, f2: FrameV)
    requires
        h.wf(),
        spec_has_user(h.users, session_id),
    ensures
        ({
            let h2 = spec_submit_frame(spec_submit_frame(h, session_id, f1), session_id, f2);
            let name = h.users[spec_user_index(h.users, session_id)].username;
            &&& h2.queues.len() == h.queues.len()
            &&& forall|i: int|
                0 <= i < h.queues.len() ==> (#[trigger] h2.queues[i]).msgs == h.queues[i].msgs
                    + seq![
                    MessageV::Frame { user_id: session_id, username: name, frame: f1 },
                    MessageV::Frame { user_id: session_id, username: name, frame: f2 },
                ]
        }),
{
    let t = spec_user_index(h.users, session_id);
    assert(0 <= t < h.users.len() && h.users[t].id == session_id);
    let h1 = spec_submit_frame(h, session_id, f1);
    assert(h1.users[t].id == session_id);
    assert(spec_has_user(h1.users, session_id));
    assert(spec_user_index(h1.users, session_id) == t) by {
        let j = spec_user_index(h1.users, session_id);
        assert(0 <= j < h1.users.len() && h1.users[j].id == session_id);
        if j != t {
            assert(h.users[j].id == h1.users[j].id);
            assert(h.users[j].id != h.users[t].id);
        }
    };
    let h2 = spec_submit_frame(h1, session_id, f2);
    let name = h.users[t].username;
    assert(h1.users[t].username == name);
    assert forall|i: int| 0 <= i < h.queues.len() implies (#[trigger] h2.queues[i]).msgs
        == h.queues[i].msgs + seq![
        MessageV::Frame { user_id: session_id, username: name, frame: f1 },
        MessageV::Frame { user_id: session_id, username: name, frame: f2 },
    ] by {
        assert(h2.queues[i].msgs =~= h.queues[i].msgs + seq![
            MessageV::Frame { user_id: session_id, username: name, frame: f1 },
            MessageV::Frame { user_id: session_id, username: name, frame: f2 },
        ]);
    };
}

/// Disconnecting a session delivers, to every remaining session's queue, a
/// peer-left notice followed by a roster that no longer carries the
/// disconnected id.
pub proof fn lemma_disconnect_notices(h: HubV, session_id: u64)
    requires
        h.wf(),
        spec_has_user(h.users, session_id),
    ensures
        ({
            let h2 = spec_disconnect(h, session_id);
            let t = spec_user_index(h.users, session_id);
            let name = h.users[t].username;
            let roster = spec_roster(h2.users);
            &&& h2.users == h.users.remove(t)
            &&& h2.queues.len() == h.queues.len() - 1
            &&& forall|i: int|
                0 <= i < h2.queues.len() ==> (#[trigger] h2.queues[i]).msgs == h.queues.remove(
                    t,
                )[i].msgs + seq![
                    MessageV::UserLeft { user_id: session_id, username: name },
                    MessageV::UserList(roster),
                ]
            &&& forall|k: int| 0 <= k < roster.len() ==> (#[trigger] roster[k]).user_id
                != session_id
        }),
{
    let h2 = spec_disconnect(h, session_id);
    let t = spec_user_index(h.users, session_id);
    assert(0 <= t < h.users.len() && h.users[t].id == session_id);
    let name = h.users[t].username;
    let roster = spec_roster(h2.users);
    assert forall|i: int| 0 <= i < h2.queues.len() implies (#[trigger] h2.queues[i]).msgs
        == h.queues.remove(t)[i].msgs + seq![
        MessageV::UserLeft { user_id: session_id, username: name },
        MessageV::UserList(roster),
    ] by {
        assert(h2.queues[i].msgs =~= h.queues.remove(t)[i].msgs + seq![
            MessageV::UserLeft { user_id: session_id, username: name },
            MessageV::UserList(roster),
        ]);
    };
    assert forall|k: int| 0 <= k < roster.len() implies (#[trigger] roster[k]).user_id
        != session_id by {
        assert(roster[k] == spec_info(h2.users[k]));
        assert(h2.users[k] == if k < t {
            h.users[k]
        } else {
            h.users[k + 1]
        });
        if k < t {
            assert(h.users[k].id != h.users[t].id);
        } else {
            assert(h.users[k + 1].id != h.users[t].id);
        }
    };
}

/// Fan-out isolation: what a frame submission puts into one session's queue
/// depends only on that queue and the registry, never on any other queue —
/// a slow peer's backlog cannot change what another peer is sent.
pub proof fn lemma_fanout_isolation(h1: HubV, h2: HubV, session_id: u64, f: FrameV, i: int)
    requires
        h1.users == h2.users,
        h1.queues.len() == h2.queues.len(),
        0 <= i < h1.queues.len(),
        h1.queues[i] == h2.queues[i],
    ensures
        spec_submit_frame(h1, session_id, f).queues[i] == spec_submit_frame(
            h2,
            session_id,
            f,
        ).queues[i],
{
}

} // verus!
