//! The session registry: connected users, each with a unique id, a display
//! name, a join timestamp and the last frame they sent.

use crate::message::{infos_view, AsciiFrame, FrameV, UserInfo, UserInfoV};
use vstd::prelude::*;

verus! {

/// Mathematical value of a [`User`].
#[verifier::ext_equal]
pub struct UserV {
    pub id: u64,
    pub username: Seq<char>,
    pub connected_at: Seq<char>,
    pub last_frame: Option<FrameV>,
}

/// A connected user. Ids are allocated by the registry and never reused, so
/// they are unique for the registry's whole life.
pub struct User {
    pub id: u64,
    pub username: String,
    pub connected_at: String,
    pub last_frame: Option<AsciiFrame>,
}

impl View for User {
    type V = UserV;

    open spec fn view(&self) -> UserV {
        UserV {
            id: self.id,
            username: self.username@,
            connected_at: self.connected_at@,
            last_frame: match self.last_frame {
                Option::Some(f) => Option::Some(f@),
                Option::None => Option::None,
            },
        }
    }
}

/// The roster entry that describes a user.
pub open spec fn spec_info(u: UserV) -> UserInfoV {
    UserInfoV { user_id: u.id, username: u.username, connected_at: u.connected_at }
}

/// The current time as an RFC 3339 timestamp.
///
/// Relies on `chrono::Utc::now` for the current instant and
/// `chrono::DateTime::to_rfc3339` to render it; the result depends on the
/// clock, so nothing is promised of it.
#[verifier::external_body]
pub(crate) fn now_rfc3339() -> String {
    chrono::Utc::now().to_rfc3339()
}

impl User {
    /// A fresh user with no frame yet; the caller supplies the unique id and
    /// the join timestamp.
    pub fn new(id: u64, username: String, connected_at: String) -> (u: User)
        ensures
            u@ == (UserV {
                id,
                username: username@,
                connected_at: connected_at@,
                last_frame: Option::<FrameV>::None,
            }),
    {
        User { id, username, connected_at, last_frame: Option::None }
    }

    /// This user's roster entry.
    pub fn info(&self) -> (i: UserInfo)
        ensures
            i@ == spec_info(self@),
    {
        UserInfo {
            user_id: self.id,
            username: self.username.clone(),
            connected_at: self.connected_at.clone(),
        }
    }

    /// Replace the user's latest frame.
    pub fn update_frame(&mut self, frame: AsciiFrame)
        ensures
            final(self)@ == (UserV { last_frame: Option::Some(frame@), ..old(self)@ }),
    {
        self.last_frame = Option::Some(frame);
    }

    /// The user's latest frame, if any was sent.
    pub fn get_frame(&self) -> (f: Option<&AsciiFrame>)
        ensures
            match f {
                Option::Some(fr) => self@.last_frame == Option::Some(fr@),
                Option::None => self@.last_frame is None,
            },
    {
        self.last_frame.as_ref()
    }
}

/// Whether some user in the sequence has the given id.
pub open spec fn spec_has_user(s: Seq<UserV>, id: u64) -> bool {
    exists|i: int| 0 <= i < s.len() && (#[trigger] s[i]).id == id
}

/// The index of the user with the given id (unique under [`UserManager::wf`]).
pub open spec fn spec_user_index(s: Seq<UserV>, id: u64) -> int {
    choose|i: int| 0 <= i < s.len() && (#[trigger] s[i]).id == id
}

/// The roster derived from a registry: every user's entry, in registry
/// order.
pub open spec fn spec_roster(s: Seq<UserV>) -> Seq<UserInfoV> {
    s.map_values(|u: UserV| spec_info(u))
}

/// Manages all connected users, in join order.
pub struct UserManager {
    pub users: Vec<User>,
    pub next_id: u64,
}

impl View for UserManager {
    type V = Seq<UserV>;

    open spec fn view(&self) -> Seq<UserV> {
        self.users@.map_values(|u: User| u@)
    }
}

impl UserManager {
    /// Ids grow strictly along the registry and stay below the next free
    /// one, so every id occurs at most once.
    pub open spec fn wf(self) -> bool {
        &&& forall|i: int, j: int|
            #![trigger self@[i], self@[j]]
            0 <= i < j < self@.len() ==> self@[i].id < self@[j].id
        &&& forall|i: int| 0 <= i < self@.len() ==> (#[trigger] self@[i]).id < self.next_id
    }

    /// An empty registry.
    pub fn new() -> (m: UserManager)
        ensures
            m@ == Seq::<UserV>::empty(),
            m.wf(),
            m.next_id == 0,
    {
        let m = UserManager { users: Vec::new(), next_id: 0 };
        proof {
            assert(m@ =~= Seq::<UserV>::empty());
        }
        m
    }

    /// Register a new user under a fresh id; the id counter must not be
    /// exhausted.
    pub fn add_user(&mut self, username: String, connected_at: String) -> (u: UserInfo)
        requires
            old(self).wf(),
            old(self).next_id < u64::MAX,
        ensures
            final(self).wf(),
            u@ == (UserInfoV {
                user_id: old(self).next_id,
                username: username@,
                connected_at: connected_at@,
            }),
            final(self)@ == old(self)@.push(
                UserV {
                    id: old(self).next_id,
                    username: username@,
                    connected_at: connected_at@,
                    last_frame: Option::<FrameV>::None,
                },
            ),
            final(self).next_id == old(self).next_id + 1,
            !spec_has_user(old(self)@, old(self).next_id),
    {
        let id = self.next_id;
        let info = UserInfo {
            user_id: id,
            username: username.clone(),
            connected_at: connected_at.clone(),
        };
        let user = User::new(id, username, connected_at);
        self.users.push(user);
        self.next_id = id + 1;
        proof {
            assert(self@ =~= old(self)@.push(
                UserV {
                    id,
                    username: info.username@,
                    connected_at: info.connected_at@,
                    last_frame: Option::<FrameV>::None,
                },
            ));
        }
        info
    }

    /// Remove the user with the given id; absent ids leave the registry
    /// untouched.
    pub fn remove_user(&mut self, user_id: u64) -> (r: Option<User>)
        requires
            old(self).wf(),
        ensures
            final(self).wf(),
            final(self).next_id == old(self).next_id,
            spec_has_user(old(self)@, user_id) ==> {
                let i = spec_user_index(old(self)@, user_id);
                &&& r is Some
                &&& r.unwrap()@ == old(self)@[i]
                &&& final(self)@ == old(self)@.remove(i)
            },
            !spec_has_user(old(self)@, user_id) ==> r is None && final(self)@ == old(self)@,
    {
        let n = self.users.len();
        let mut k: usize = 0;
        while k < n
            invariant
                old(self).wf(),
                *self == *old(self),
                n == self.users.len(),
                0 <= k <= n,
                forall|i: int| 0 <= i < k ==> (#[trigger] self@[i]).id != user_id,
            decreases n - k,
        {
            if self.users[k].id == user_id {
                proof {
                    assert(old(self)@[k as int].id == user_id);
                    assert(spec_has_user(old(self)@, user_id));
                }
                let removed = self.users.remove(k);
                proof {
                    assert(self@ =~= old(self)@.remove(k as int));
                    assert(spec_user_index(old(self)@, user_id) == k as int) by {
                        let j = spec_user_index(old(self)@, user_id);
                        assert(0 <= j < old(self)@.len() && old(self)@[j].id == user_id);
                        if j != k as int {
                            assert(old(self)@[j].id != old(self)@[k as int].id);
                        }
                    };
                    assert forall|i: int, j: int|
                        #![trigger self@[i], self@[j]]
                        0 <= i < j < self@.len() implies self@[i].id < self@[j].id by {
                        assert(self@[i] == if i < k as int {
                            old(self)@[i]
                        } else {
                            old(self)@[i + 1]
                        });
                        assert(self@[j] == if j < k as int {
                            old(self)@[j]
                        } else {
                            old(self)@[j + 1]
                        });
                    };
                    assert forall|i: int| 0 <= i < self@.len() implies (#[trigger] self@[i]).id
                        < self.next_id by {
                        assert(self@[i] == if i < k as int {
                            old(self)@[i]
                        } else {
                            old(self)@[i + 1]
                        });
                    };
                }
                return Some(removed);
            }
            k = k + 1;
        }
        proof {
            assert(!spec_has_user(old(self)@, user_id)) by {
                if spec_has_user(old(self)@, user_id) {
                    let j = choose|j: int|
                        0 <= j < old(self)@.len() && (#[trigger] old(self)@[j]).id == user_id;
                    assert(self@[j].id != user_id);
                }
            };
        }
        None
    }

    /// Record a frame as the latest of the user with the given id and hand
    /// back that user's name; an absent id changes nothing.
    pub fn update_user_frame(&mut self, user_id: u64, frame: AsciiFrame) -> (r: Option<String>)
        requires
            old(self).wf(),
        ensures
            final(self).wf(),
            final(self).next_id == old(self).next_id,
            spec_has_user(old(self)@, user_id) ==> {
                let i = spec_user_index(old(self)@, user_id);
                &&& r is Some
                &&& r.unwrap()@ == old(self)@[i].username
                &&& final(self)@ == old(self)@.update(
                    i,
                    UserV { last_frame: Option::Some(frame@), ..old(self)@[i] },
                )
            },
            !spec_has_user(old(self)@, user_id) ==> r is None && final(self)@ == old(self)@,
    {
        let n = self.users.len();
        let mut k: usize = 0;
        while k < n
            invariant
                old(self).wf(),
                *self == *old(self),
                n == self.users.len(),
                0 <= k <= n,
                forall|i: int| 0 <= i < k ==> (#[trigger] self@[i]).id != user_id,
            decreases n - k,
        {
            if self.users[k].id == user_id {
                proof {
                    assert(old(self)@[k as int].id == user_id);
                    assert(spec_has_user(old(self)@, user_id));
                    assert(spec_user_index(old(self)@, user_id) == k as int) by {
                        let j = spec_user_index(old(self)@, user_id);
                        assert(0 <= j < old(self)@.len() && old(self)@[j].id == user_id);
                        if j != k as int {
                            assert(old(self)@[j].id != old(self)@[k as int].id);
                        }
                    };
                }
                let name = self.users[k].username.clone();
                let ghost preusers = self.users@;
                self.users[k].update_frame(frame);
                proof {
                    assert forall|i: int| 0 <= i < n && i != k implies self@[i] == old(self)@[i] by {
                        assert(self.users@[i] == preusers.update(k as int, self.users@[k as int])[i]);
                    };
                    assert(self@ =~= old(self)@.update(
                        k as int,
                        UserV {
                            last_frame: Option::Some(frame@),
                            ..old(self)@[k as int]
                        },
                    ));
                    assert forall|i: int, j: int|
                        #![trigger self@[i], self@[j]]
                        0 <= i < j < self@.len() implies self@[i].id < self@[j].id by {
                        assert(self@[i].id == old(self)@[i].id);
                        assert(self@[j].id == old(self)@[j].id);
                    };
                    assert forall|i: int| 0 <= i < self@.len() implies (#[trigger] self@[i]).id
                        < self.next_id by {
                        assert(self@[i].id == old(self)@[i].id);
                    };
                }
                return Some(name);
            }
            k = k + 1;
        }
        proof {
            assert(!spec_has_user(old(self)@, user_id)) by {
                if spec_has_user(old(self)@, user_id) {
                    let j = choose|j: int|
                        0 <= j < old(self)@.len() && (#[trigger] old(self)@[j]).id == user_id;
                    assert(self@[j].id != user_id);
                }
            };
        }
        None
    }

    /// Borrow the user with the given id.
    pub fn get_user(&self, user_id: u64) -> (r: Option<&User>)
        requires
            self.wf(),
        ensures
            spec_has_user(self@, user_id) ==> r is Some && r.unwrap()@ == self@[spec_user_index(
                self@,
                user_id,
            )],
            !spec_has_user(self@, user_id) ==> r is None,
    {
        let n = self.users.len();
        let mut k: usize = 0;
        while k < n
            invariant
                self.wf(),
                n == self.users.len(),
                0 <= k <= n,
                forall|i: int| 0 <= i < k ==> (#[trigger] self@[i]).id != user_id,
            decreases n - k,
        {
            if self.users[k].id == user_id {
                proof {
                    assert(self@[k as int].id == user_id);
                    assert(spec_has_user(self@, user_id));
                    assert(spec_user_index(self@, user_id) == k as int) by {
                        let j = spec_user_index(self@, user_id);
                        assert(0 <= j < self@.len() && self@[j].id == user_id);
                        if j != k as int {
                            assert(self@[j].id != self@[k as int].id);
                        }
                    };
                }
                return Some(&self.users[k]);
            }
            k = k + 1;
        }
        proof {
            assert(!spec_has_user(self@, user_id)) by {
                if spec_has_user(self@, user_id) {
                    let j = choose|j: int|
                        0 <= j < self@.len() && (#[trigger] self@[j]).id == user_id;
                    assert(self@[j].id != user_id);
                }
            };
        }
        None
    }

    /// Roster entries of every user but the excluded one, in registry order.
    pub open spec fn spec_infos_except(s: Seq<UserV>, exclude_id: u64) -> Seq<UserInfoV>
        decreases s.len(),
    {
        if s.len() == 0 {
            Seq::empty()
        } else {
            Self::spec_infos_except(s.drop_last(), exclude_id) + (if s.last().id != exclude_id {
                seq![spec_info(s.last())]
            } else {
                Seq::empty()
            })
        }
    }

    /// Every user's roster entry except the one with the given id, for
    /// broadcasts that skip their subject.
    pub fn get_other_users(&self, exclude_id: u64) -> (r: Vec<UserInfo>)
        ensures
            infos_view(r@) == Self::spec_infos_except(self@, exclude_id),
    {
        let n = self.users.len();
        let mut r: Vec<UserInfo> = Vec::new();
        let mut k: usize = 0;
        proof {
            assert(infos_view(r@) =~= Self::spec_infos_except(self@.subrange(0, 0), exclude_id));
        }
        while k < n
            invariant
                n == self.users.len(),
                0 <= k <= n,
                infos_view(r@) == Self::spec_infos_except(self@.subrange(0, k as int), exclude_id),
            decreases n - k,
        {
            let ghost prefix = self@.subrange(0, k as int);
            if self.users[k].id != exclude_id {
                let info = self.users[k].info();
                r.push(info);
            }
            proof {
                assert(self@.subrange(0, k + 1int).drop_last() =~= prefix);
                assert(self@.subrange(0, k + 1int).last() == self@[k as int]);
                if self@[k as int].id != exclude_id {
                    assert(infos_view(r@) =~= Self::spec_infos_except(prefix, exclude_id).push(
                        spec_info(self@[k as int]),
                    ));
                    assert(Self::spec_infos_except(self@.subrange(0, k + 1int), exclude_id)
                        =~= Self::spec_infos_except(prefix, exclude_id).push(
                        spec_info(self@[k as int]),
                    ));
                } else {
                    assert(Self::spec_infos_except(self@.subrange(0, k + 1int), exclude_id)
                        =~= Self::spec_infos_except(prefix, exclude_id));
                }
            }
            k = k + 1;
        }
        proof {
            assert(self@.subrange(0, n as int) =~= self@);
        }
        r
    }

    /// Borrow all connected users, in join order.
    pub fn get_all_users(&self) -> (r: &Vec<User>)
        ensures
            r@.map_values(|u: User| u@) == self@,
    {
        &self.users
    }

    /// The roster: every user's entry, in registry order.
    pub fn get_user_list(&self) -> (r: Vec<UserInfo>)
        ensures
            infos_view(r@) == spec_roster(self@),
    {
        let n = self.users.len();
        let mut r: Vec<UserInfo> = Vec::new();
        let mut k: usize = 0;
        while k < n
            invariant
                n == self.users.len(),
                0 <= k <= n,
                r@.len() == k,
                forall|i: int| 0 <= i < k ==> infos_view(r@)[i] == spec_info(self@[i]),
            decreases n - k,
        {
            let info = self.users[k].info();
            let ghost pre = r@;
            r.push(info);
            proof {
                assert forall|i: int| 0 <= i < k + 1 implies infos_view(r@)[i] == spec_info(
                    self@[i],
                ) by {
                    if i < k {
                        assert(r@[i] == pre[i]);
                        assert(infos_view(pre)[i] == spec_info(self@[i]));
                    } else {
                        assert(r@[i] == info);
                    }
                };
            }
            k = k + 1;
        }
        proof {
            assert(infos_view(r@) =~= spec_roster(self@));
        }
        r
    }

    /// Whether a user with the given id is connected.
    pub fn user_exists(&self, user_id: u64) -> (r: bool)
        ensures
            r == spec_has_user(self@, user_id),
    {
        let n = self.users.len();
        let mut k: usize = 0;
        while k < n
            invariant
                n == self.users.len(),
                0 <= k <= n,
                forall|i: int| 0 <= i < k ==> (#[trigger] self@[i]).id != user_id,
            decreases n - k,
        {
            if self.users[k].id == user_id {
                proof {
                    assert(self@[k as int].id == user_id);
                }
                return true;
            }
            k = k + 1;
        }
        proof {
            assert(!spec_has_user(self@, user_id)) by {
                if spec_has_user(self@, user_id) {
                    let j = choose|j: int|
                        0 <= j < self@.len() && (#[trigger] self@[j]).id == user_id;
                    assert(self@[j].id != user_id);
                }
            };
        }
        false
    }

    /// How many users are connected.
    pub fn count(&self) -> (n: usize)
        ensures
            n == self@.len(),
    {
        self.users.len()
    }
}

impl Default for UserManager {
    /// The default registry is empty.
    fn default() -> (m: UserManager)
        ensures
            m@ == Seq::<UserV>::empty(),
            m.wf(),
            m.next_id == 0,
    {
        UserManager::new()
    }
}

} // verus!
