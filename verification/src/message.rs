//! The wire protocol: colored ASCII frames, user descriptions, and the
//! message envelope that every component exchanges.

use vstd::prelude::*;

verus! {

/// Mathematical value of an [`AsciiFrame`]: the dimensions and the packed
/// cell bytes.
#[verifier::ext_equal]
pub struct FrameV {
    pub width: u16,
    pub height: u16,
    pub data: Seq<u8>,
}

impl FrameV {
    /// A frame holds exactly `width * height` cells of four bytes each.
    pub open spec fn well_formed(self) -> bool {
        self.data.len() == self.width * self.height * 4
    }

    /// The four bytes of the cell at `(x, y)`: glyph, red, green, blue.
    pub open spec fn cell(self, x: int, y: int) -> (u8, u8, u8, u8) {
        let i = (y * self.width + x) * 4;
        (self.data[i], self.data[i + 1], self.data[i + 2], self.data[i + 3])
    }
}

/// A frame of ASCII video data: each cell is packed as four bytes
/// `[glyph, r, g, b]`, row-major.
pub struct AsciiFrame {
    pub width: u16,
    pub height: u16,
    /// Packed cells: `[glyph_byte, r, g, b]` per cell.
    pub data: Vec<u8>,
}

impl View for AsciiFrame {
    type V = FrameV;

    open spec fn view(&self) -> FrameV {
        FrameV { width: self.width, height: self.height, data: self.data@ }
    }
}

impl AsciiFrame {
    /// A fresh all-zero frame of the given dimensions.
    pub fn new(width: u16, height: u16) -> (f: AsciiFrame)
        requires
            width * height * 4 <= usize::MAX,
        ensures
            f@.width == width,
            f@.height == height,
            f@.data == Seq::new((width * height * 4) as nat, |i: int| 0u8),
            f@.well_formed(),
    {
        let n: usize = width as usize * height as usize * 4;
        let data: Vec<u8> = vec![0u8; n];
        proof {
            assert(data@ =~= Seq::new((width * height * 4) as nat, |i: int| 0u8));
        }
        AsciiFrame { width, height, data }
    }

    /// Set the cell at `(x, y)` to a glyph and an RGB color; a position
    /// outside the frame is left alone.
    pub fn set_cell(&mut self, x: u16, y: u16, ch: char, r: u8, g: u8, b: u8)
        requires
            ch as u32 <= 255,
        ensures
            final(self)@.width == old(self)@.width,
            final(self)@.height == old(self)@.height,
            x < old(self).width && y < old(self).height && (y * old(self).width + x) * 4 + 3 < old(
                self,
            )@.data.len() ==> final(self)@.data == old(self)@.data.update(
                (y * old(self).width + x) * 4,
                ch as u8,
            ).update((y * old(self).width + x) * 4 + 1, r).update(
                (y * old(self).width + x) * 4 + 2,
                g,
            ).update((y * old(self).width + x) * 4 + 3, b),
            !(x < old(self).width && y < old(self).height && (y * old(self).width + x) * 4 + 3
                < old(self)@.data.len()) ==> final(self)@ == old(self)@,
    {
        proof {
            vstd::arithmetic::mul::lemma_mul_upper_bound(y as int, 65535, self.width as int, 65535);
        }
        let idx64: u64 = (y as u64 * self.width as u64 + x as u64) * 4;
        if x < self.width && y < self.height && idx64 + 3 < self.data.len() as u64 {
            let idx: usize = idx64 as usize;
            self.data[idx] = ch as u8;
            self.data[idx + 1] = r;
            self.data[idx + 2] = g;
            self.data[idx + 3] = b;
        }
    }

    /// Read the cell at `(x, y)`; a position outside the frame is absent,
    /// never a panic.
    pub fn get_cell(&self, x: u16, y: u16) -> (c: Option<(char, u8, u8, u8)>)
        ensures
            x < self.width && y < self.height && (y * self.width + x) * 4 + 3 < self@.data.len()
                ==> c == Some(
                (
                    self@.data[((y * self.width + x) * 4) as int] as char,
                    self@.data[((y * self.width + x) * 4 + 1) as int],
                    self@.data[((y * self.width + x) * 4 + 2) as int],
                    self@.data[((y * self.width + x) * 4 + 3) as int],
                ),
            ),
            !(x < self.width && y < self.height && (y * self.width + x) * 4 + 3
                < self@.data.len()) ==> c is None,
    {
        proof {
            vstd::arithmetic::mul::lemma_mul_upper_bound(y as int, 65535, self.width as int, 65535);
        }
        let idx64: u64 = (y as u64 * self.width as u64 + x as u64) * 4;
        if x < self.width && y < self.height && idx64 + 3 < self.data.len() as u64 {
            let idx: usize = idx64 as usize;
            Some((self.data[idx] as char, self.data[idx + 1], self.data[idx + 2], self.data[idx + 3]))
        } else {
            None
        }
    }
}

/// A fresh vector holding the same bytes.
pub fn clone_bytes(v: &Vec<u8>) -> (r: Vec<u8>)
    ensures
        r@ == v@,
{
    let mut r: Vec<u8> = Vec::new();
    let n = v.len();
    let mut k: usize = 0;
    while k < n
        invariant
            n == v.len(),
            0 <= k <= n,
            r@ == v@.subrange(0, k as int),
        decreases n - k,
    {
        r.push(v[k]);
        proof {
            assert(r@ =~= v@.subrange(0, k + 1int));
        }
        k = k + 1;
    }
    proof {
        assert(v@.subrange(0, n as int) =~= v@);
    }
    r
}

impl AsciiFrame {
    /// A frame with the same value.
    pub fn duplicate(&self) -> (r: AsciiFrame)
        ensures
            r@ == self@,
    {
        AsciiFrame { width: self.width, height: self.height, data: clone_bytes(&self.data) }
    }
}

/// Mathematical value of a [`UserInfo`].
#[verifier::ext_equal]
pub struct UserInfoV {
    pub user_id: u64,
    pub username: Seq<char>,
    pub connected_at: Seq<char>,
}

/// Information about a connected user.
pub struct UserInfo {
    pub user_id: u64,
    pub username: String,
    pub connected_at: String,
}

impl View for UserInfo {
    type V = UserInfoV;

    open spec fn view(&self) -> UserInfoV {
        UserInfoV {
            user_id: self.user_id,
            username: self.username@,
            connected_at: self.connected_at@,
        }
    }
}

/// Mathematical value of a [`Message`].
#[verifier::ext_equal]
pub enum MessageV {
    Join { username: Seq<char> },
    Frame { user_id: u64, username: Seq<char>, frame: FrameV },
    Chat { user_id: u64, username: Seq<char>, content: Seq<char> },
    UserList(Seq<UserInfoV>),
    UserLeft { user_id: u64, username: Seq<char> },
    UserJoined { user_id: u64, username: Seq<char> },
    Ack { success: bool, message: Seq<char> },
    Ping,
    Pong,
}

/// The message envelope of the protocol: everything a peer and the hub
/// exchange is one of these.
pub enum Message {
    /// A client joins the server with a username.
    Join { username: String },
    /// A frame of ASCII video from a user.
    Frame { user_id: u64, username: String, frame: AsciiFrame },
    /// A chat line from a user.
    Chat { user_id: u64, username: String, content: String },
    /// The list of currently connected users.
    UserList(Vec<UserInfo>),
    /// A user has disconnected.
    UserLeft { user_id: u64, username: String },
    /// A user has connected.
    UserJoined { user_id: u64, username: String },
    /// Acknowledgment or error reply.
    Ack { success: bool, message: String },
    /// Keep-alive request.
    Ping,
    /// Keep-alive answer.
    Pong,
}

/// The view of a roster: each entry's mathematical value, in order.
pub open spec fn infos_view(users: Seq<UserInfo>) -> Seq<UserInfoV> {
    users.map_values(|u: UserInfo| u@)
}

impl UserInfo {
    /// An entry with the same value.
    pub fn duplicate(&self) -> (r: UserInfo)
        ensures
            r@ == self@,
    {
        UserInfo {
            user_id: self.user_id,
            username: self.username.clone(),
            connected_at: self.connected_at.clone(),
        }
    }
}

/// A fresh vector holding the same roster entries.
pub fn clone_infos(v: &Vec<UserInfo>) -> (r: Vec<UserInfo>)
    ensures
        infos_view(r@) == infos_view(v@),
        r@.len() == v@.len(),
{
    let mut r: Vec<UserInfo> = Vec::new();
    let n = v.len();
    let mut k: usize = 0;
    while k < n
        invariant
            n == v.len(),
            0 <= k <= n,
            r@.len() == k,
            forall|i: int| 0 <= i < k ==> (#[trigger] r@[i])@ == v@[i]@,
        decreases n - k,
    {
        r.push(v[k].duplicate());
        k = k + 1;
    }
    proof {
        assert(infos_view(r@) =~= infos_view(v@));
    }
    r
}

impl Message {
    /// A message with the same value.
    pub fn duplicate(&self) -> (r: Message)
        ensures
            r@ == self@,
    {
        match self {
            Message::Join { username } => Message::Join { username: username.clone() },
            Message::Frame { user_id, username, frame } => Message::Frame {
                user_id: *user_id,
                username: username.clone(),
                frame: frame.duplicate(),
            },
            Message::Chat { user_id, username, content } => Message::Chat {
                user_id: *user_id,
                username: username.clone(),
                content: content.clone(),
            },
            Message::UserList(users) => {
                let r = Message::UserList(clone_infos(users));
                proof {
                    assert(r@ == self@);
                }
                r
            },
            Message::UserLeft { user_id, username } => Message::UserLeft {
                user_id: *user_id,
                username: username.clone(),
            },
            Message::UserJoined { user_id, username } => Message::UserJoined {
                user_id: *user_id,
                username: username.clone(),
            },
            Message::Ack { success, message } => Message::Ack {
                success: *success,
                message: message.clone(),
            },
            Message::Ping => Message::Ping,
            Message::Pong => Message::Pong,
        }
    }
}

impl View for Message {
    type V = MessageV;

    open spec fn view(&self) -> MessageV {
        match self {
            Message::Join { username } => MessageV::Join { username: username@ },
            Message::Frame { user_id, username, frame } => MessageV::Frame {
                user_id: *user_id,
                username: username@,
                frame: frame@,
            },
            Message::Chat { user_id, username, content } => MessageV::Chat {
                user_id: *user_id,
                username: username@,
                content: content@,
            },
            Message::UserList(users) => MessageV::UserList(infos_view(users@)),
            Message::UserLeft { user_id, username } => MessageV::UserLeft {
                user_id: *user_id,
                username: username@,
            },
            Message::UserJoined { user_id, username } => MessageV::UserJoined {
                user_id: *user_id,
                username: username@,
            },
            Message::Ack { success, message } => MessageV::Ack {
                success: *success,
                message: message@,
            },
            Message::Ping => MessageV::Ping,
            Message::Pong => MessageV::Pong,
        }
    }
}

} // verus!
