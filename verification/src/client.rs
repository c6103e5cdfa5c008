//! The client-side aggregator: from the stream of inbound broadcast
//! messages it maintains the roster, the latest frame per user and the chat
//! log, and builds the outbound messages the user sends.

use crate::message::{AsciiFrame, FrameV, Message, MessageV, UserInfoV};
use vstd::prelude::*;

verus! {

/// Mathematical value of a [`TermIOClient`].
#[verifier::ext_equal]
pub struct ClientV {
    pub username: Seq<char>,
    pub user_id: u64,
    pub server_url: Seq<char>,
    pub connected_users: Seq<Seq<char>>,
    pub last_frames: Seq<(Seq<char>, FrameV)>,
    pub chat_messages: Seq<(Seq<char>, Seq<char>)>,
}

/// The names shown in a roster message, in roster order.
pub open spec fn spec_names_of(users: Seq<UserInfoV>) -> Seq<Seq<char>> {
    users.map_values(|u: UserInfoV| u.username)
}

/// Whether the frame table has an entry under the given name.
pub open spec fn spec_frames_has(m: Seq<(Seq<char>, FrameV)>, name: Seq<char>) -> bool {
    exists|i: int| 0 <= i < m.len() && (#[trigger] m[i]).0 == name
}

/// The index of the entry under the given name (unique when keys are).
pub open spec fn spec_frames_index(m: Seq<(Seq<char>, FrameV)>, name: Seq<char>) -> int {
    choose|i: int| 0 <= i < m.len() && (#[trigger] m[i]).0 == name
}

/// The frame table after a frame arrives: the last write under each name
/// wins; a new name is appended.
pub open spec fn spec_frames_put(m: Seq<(Seq<char>, FrameV)>, name: Seq<char>, f: FrameV) -> Seq<
    (Seq<char>, FrameV),
> {
    if spec_frames_has(m, name) {
        m.update(spec_frames_index(m, name), (name, f))
    } else {
        m.push((name, f))
    }
}

/// The aggregator after one inbound message: a roster message replaces the
/// user list wholesale, a frame message overwrites that sender's entry, a
/// chat message is appended to the log; everything else changes nothing.
pub open spec fn spec_apply(c: ClientV, m: MessageV) -> ClientV {
    match m {
        MessageV::UserList(users) => ClientV { connected_users: spec_names_of(users), ..c },
        MessageV::Frame { username, frame, .. } => ClientV {
            last_frames: spec_frames_put(c.last_frames, username, frame),
            ..c
        },
        MessageV::Chat { username, content, .. } => ClientV {
            chat_messages: c.chat_messages.push((username, content)),
            ..c
        },
        _ => c,
    }
}

/// Client state for one connection: the local identity plus the three
/// projections of hub broadcasts (roster, latest frame per user, chat log).
pub struct TermIOClient {
    pub username: String,
    pub user_id: u64,
    pub server_url: String,
    pub connected_users: Vec<String>,
    pub last_frames: Vec<(String, AsciiFrame)>,
    pub chat_messages: Vec<(String, String)>,
}

impl View for TermIOClient {
    type V = ClientV;

    open spec fn view(&self) -> ClientV {
        ClientV {
            username: self.username@,
            user_id: self.user_id,
            server_url: self.server_url@,
            connected_users: self.connected_users@.map_values(|s: String| s@),
            last_frames: self.last_frames@.map_values(|p: (String, AsciiFrame)| (p.0@, p.1@)),
            chat_messages: self.chat_messages@.map_values(
                |p: (String, String)| (p.0@, p.1@),
            ),
        }
    }
}

impl TermIOClient {
    /// Frame-table names are unique, so the last write under a name is the
    /// one the table shows.
    pub open spec fn wf(self) -> bool {
        forall|i: int, j: int|
            #![trigger self@.last_frames[i], self@.last_frames[j]]
            0 <= i < j < self@.last_frames.len() ==> self@.last_frames[i].0
                != self@.last_frames[j].0
    }

    /// A fresh client for the given identity and server address, with
    /// nothing aggregated yet.
    pub fn new(username: String, server_url: String) -> (c: TermIOClient)
        ensures
            c.wf(),
            c@ == (ClientV {
                username: username@,
                user_id: 0,
                server_url: server_url@,
                connected_users: Seq::<Seq<char>>::empty(),
                last_frames: Seq::<(Seq<char>, FrameV)>::empty(),
                chat_messages: Seq::<(Seq<char>, Seq<char>)>::empty(),
            }),
    {
        let c = TermIOClient {
            username,
            user_id: 0,
            server_url,
            connected_users: Vec::new(),
            last_frames: Vec::new(),
            chat_messages: Vec::new(),
        };
        proof {
            assert(c@.connected_users =~= Seq::<Seq<char>>::empty());
            assert(c@.last_frames =~= Seq::<(Seq<char>, FrameV)>::empty());
            assert(c@.chat_messages =~= Seq::<(Seq<char>, Seq<char>)>::empty());
        }
        c
    }

    /// Digest one inbound message into the three projections. Duplicate or
    /// out-of-order roster and frame messages cannot corrupt the state: the
    /// last message received for a key always wins.
    pub fn apply(&mut self, msg: Message)
        requires
            old(self).wf(),
        ensures
            final(self).wf(),
            final(self)@ == spec_apply(old(self)@, msg@),
    {
        match msg {
            Message::UserList(users) => {
                self.connected_users = Vec::new();
                let n = users.len();
                let mut k: usize = 0;
                while k < n
                    invariant
                        n == users.len(),
                        0 <= k <= n,
                        self.username == old(self).username,
                        self.user_id == old(self).user_id,
                        self.server_url == old(self).server_url,
                        self.last_frames == old(self).last_frames,
                        self.chat_messages == old(self).chat_messages,
                        self.connected_users@.len() == k,
                        forall|i: int|
                            0 <= i < k ==> (#[trigger] self.connected_users@[i])@
                                == users@[i]@.username,
                    decreases n - k,
                {
                    self.connected_users.push(users[k].username.clone());
                    k = k + 1;
                }
                proof {
                    assert(self@.connected_users =~= spec_names_of(
                        crate::message::infos_view(users@),
                    ));
                    assert(self@ =~= spec_apply(old(self)@, Message::UserList(users)@));
                }
            },
            Message::Frame { user_id, username, frame } => {
                proof {
                    assert(msg@ == (MessageV::Frame {
                        user_id,
                        username: username@,
                        frame: frame@,
                    }));
                }
                let n = self.last_frames.len();
                let mut k: usize = 0;
                while k < n
                    invariant
                        old(self).wf(),
                        *self == *old(self),
                        msg@ == (MessageV::Frame { user_id, username: username@, frame: frame@ }),
                        n == self.last_frames.len(),
                        0 <= k <= n,
                        forall|i: int|
                            0 <= i < k ==> (#[trigger] self@.last_frames[i]).0 != username@,
                    decreases n - k,
                {
                    if self.last_frames[k].0 == username {
                        proof {
                            assert(old(self)@.last_frames[k as int].0 == username@);
                            assert(spec_frames_has(old(self)@.last_frames, username@));
                            assert(spec_frames_index(old(self)@.last_frames, username@)
                                == k as int) by {
                                let j = spec_frames_index(old(self)@.last_frames, username@);
                                assert(0 <= j < old(self)@.last_frames.len()
                                    && old(self)@.last_frames[j].0 == username@);
                                if j != k as int {
                                    assert(old(self)@.last_frames[j].0
                                        != old(self)@.last_frames[k as int].0);
                                }
                            };
                        }
                        let entry = self.last_frames.remove(k);
                        self.last_frames.insert(k, (entry.0, frame));
                        proof {
                            assert(self@.last_frames =~= old(self)@.last_frames.update(
                                k as int,
                                (username@, frame@),
                            ));
                            assert(self@ =~= (ClientV {
                                last_frames: spec_frames_put(
                                    old(self)@.last_frames,
                                    username@,
                                    frame@,
                                ),
                                ..old(self)@
                            }));
                            assert forall|i: int, j: int|
                                #![trigger self@.last_frames[i], self@.last_frames[j]]
                                0 <= i < j < self@.last_frames.len() implies self@.last_frames[i].0
                                != self@.last_frames[j].0 by {
                                assert(self@.last_frames[i].0 == old(self)@.last_frames[i].0);
                                assert(self@.last_frames[j].0 == old(self)@.last_frames[j].0);
                            };
                        }
                        return ;
                    }
                    k = k + 1;
                }
                proof {
                    assert(!spec_frames_has(self@.last_frames, username@)) by {
                        if spec_frames_has(self@.last_frames, username@) {
                            let j = choose|j: int|
                                0 <= j < self@.last_frames.len()
                                    && (#[trigger] self@.last_frames[j]).0 == username@;
                            assert(self@.last_frames[j].0 != username@);
                        }
                    };
                }
                let ghost pre = self@.last_frames;
                self.last_frames.push((username, frame));
                proof {
                    assert(self@.last_frames =~= pre.push((username@, frame@)));
                    assert(self@ =~= (ClientV {
                        last_frames: spec_frames_put(old(self)@.last_frames, username@, frame@),
                        ..old(self)@
                    }));
                    assert forall|i: int, j: int|
                        #![trigger self@.last_frames[i], self@.last_frames[j]]
                        0 <= i < j < self@.last_frames.len() implies self@.last_frames[i].0
                        != self@.last_frames[j].0 by {
                        if j < self@.last_frames.len() - 1 {
                            assert(self@.last_frames[i] == pre[i]);
                            assert(self@.last_frames[j] == pre[j]);
                        } else {
                            assert(self@.last_frames[i] == pre[i]);
                            assert(pre[i].0 != username@);
                        }
                    };
                }
            },
            Message::Chat { user_id, username, content } => {
                proof {
                    assert(msg@ == (MessageV::Chat {
                        user_id,
                        username: username@,
                        content: content@,
                    }));
                }
                let ghost pre = self@.chat_messages;
                self.chat_messages.push((username, content));
                proof {
                    assert(self@.chat_messages =~= pre.push((username@, content@)));
                }
            },
            _ => {},
        }
    }

    /// The chat message that sends the given text under this client's
    /// identity.
    pub fn make_chat(&self, content: String) -> (r: Message)
        ensures
            r@ == (MessageV::Chat {
                user_id: self@.user_id,
                username: self@.username,
                content: content@,
            }),
    {
        Message::Chat { user_id: self.user_id, username: self.username.clone(), content }
    }

    /// The join message that announces this client to the hub.
    pub fn make_join(&self) -> (r: Message)
        ensures
            r@ == (MessageV::Join { username: self@.username }),
    {
        Message::Join { username: self.username.clone() }
    }

    /// The last `n` chat lines, oldest first: what a bounded chat pane
    /// shows.
    pub fn recent_chat(&self, n: usize) -> (r: Vec<(String, String)>)
        ensures
            r@.map_values(|p: (String, String)| (p.0@, p.1@)) == self@.chat_messages.subrange(
                self@.chat_messages.len() - (if n < self@.chat_messages.len() {
                    n as int
                } else {
                    self@.chat_messages.len() as int
                }),
                self@.chat_messages.len() as int,
            ),
    {
        let len = self.chat_messages.len();
        let start: usize = if n < len {
            len - n
        } else {
            0
        };
        let mut r: Vec<(String, String)> = Vec::new();
        let mut k: usize = start;
        while k < len
            invariant
                len == self.chat_messages.len(),
                start <= k <= len,
                r@.len() == k - start,
                forall|i: int|
                    0 <= i < r@.len() ==> (#[trigger] r@[i]).0@ == self@.chat_messages[start
                        + i].0 && r@[i].1@ == self@.chat_messages[start + i].1,
            decreases len - k,
        {
            let line = (self.chat_messages[k].0.clone(), self.chat_messages[k].1.clone());
            r.push(line);
            k = k + 1;
        }
        proof {
            assert(r@.map_values(|p: (String, String)| (p.0@, p.1@)) =~= self@.chat_messages
                .subrange(
                self@.chat_messages.len() - (if n < self@.chat_messages.len() {
                    n as int
                } else {
                    self@.chat_messages.len() as int
                }),
                self@.chat_messages.len() as int,
            ));
        }
        r
    }
}

} // verus!
