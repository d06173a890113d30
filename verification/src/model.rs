//! The bot's own picture of Discord users and messages.

use vstd::prelude::*;

verus! {

/// A Discord user, reduced to what the bot looks at.
#[derive(Debug, Clone)]
pub struct User {
    pub id: u64,
    pub name: String,
    pub discriminator: u16,
    pub bot: bool,
}

/// A Discord message, reduced to what the bot looks at.
#[derive(Debug, Clone)]
pub struct Message {
    pub id: u64,
    pub channel_id: u64,
    pub content: String,
    pub author: User,
}

/// A remembered message together with the earlier versions it replaced.
///
/// Two remembered messages are the same message when they share the message
/// id and the channel id; contents and history do not matter.
#[derive(Debug)]
pub struct SkyNetMsg {
    pub msg: Message,
    pub history: Vec<SkyNetMsg>,
}

/// A remembered user.  Two of them are the same user when they share the user
/// id and the discriminator.
#[derive(Debug, Clone)]
pub struct SkyNetUsr {
    pub usr: User,
}

/// The key under which a message is remembered: (message id, channel id).
pub open spec fn msg_key(m: SkyNetMsg) -> (u64, u64) {
    (m.msg.id, m.msg.channel_id)
}

/// The key under which a user is remembered: (user id, discriminator).
pub open spec fn usr_key(u: SkyNetUsr) -> (u64, u16) {
    (u.usr.id, u.usr.discriminator)
}

/// The author that stands in for an unknown one.
pub open spec fn is_placeholder_author(u: User) -> bool {
    &&& u.id == 123
    &&& u.name@ == Seq::<char>::empty()
    &&& u.discriminator == 1
    &&& !u.bot
}

impl User {
    /// The author that stands in for an unknown one: id 123, no name,
    /// discriminator 1, not a bot.
    pub fn placeholder() -> (u: User)
        ensures
            is_placeholder_author(u),
    {
        User { id: 123, name: String::new(), discriminator: 1, bot: false }
    }

    /// A copy of this user.
    pub fn duplicate(&self) -> (u: User)
        ensures
            u == *self,
    {
        User { id: self.id, name: self.name.clone(), discriminator: self.discriminator, bot: self.bot }
    }
}

impl Message {
    /// A copy of this message.
    pub fn duplicate(&self) -> (m: Message)
        ensures
            m == *self,
    {
        Message {
            id: self.id,
            channel_id: self.channel_id,
            content: self.content.clone(),
            author: self.author.duplicate(),
        }
    }
}

impl Default for SkyNetMsg {
    /// An empty remembered message: message 0 in channel 0, no content, the
    /// placeholder author and no history.
    fn default() -> (d: SkyNetMsg)
        ensures
            d.msg.id == 0,
            d.msg.channel_id == 0,
            d.msg.content@ == Seq::<char>::empty(),
            is_placeholder_author(d.msg.author),
            d.history@ == Seq::<SkyNetMsg>::empty(),
    {
        SkyNetMsg {
            msg: Message { id: 0, channel_id: 0, content: String::new(), author: User::placeholder() },
            history: Vec::new(),
        }
    }
}

impl SkyNetMsg {
    /// The key under which this message is remembered.
    pub fn key(&self) -> (k: (u64, u64))
        ensures
            k == msg_key(*self),
    {
        (self.msg.id, self.msg.channel_id)
    }

    /// A remembered message with no history yet.
    pub fn fresh(msg: Message) -> (m: SkyNetMsg)
        ensures
            m.msg == msg,
            m.history@ == Seq::<SkyNetMsg>::empty(),
    {
        SkyNetMsg { msg, history: Vec::new() }
    }
}

/// `a` is a copy of `b`: the same message, and a history that is, version by
/// version and all the way down, a copy of the history of `b`.
pub open spec fn is_copy(a: SkyNetMsg, b: SkyNetMsg) -> bool
    decreases b, 1int,
{
    &&& a.msg == b.msg
    &&& are_copies(a.history@, b.history@)
}

/// Each of `xs` is a copy of the one of `ys` at the same position, and there
/// are as many of them.
pub open spec fn are_copies(xs: Seq<SkyNetMsg>, ys: Seq<SkyNetMsg>) -> bool
    decreases ys, 0int,
{
    &&& xs.len() == ys.len()
    &&& ys.len() > 0 ==> {
        &&& is_copy(xs.last(), ys.last())
        &&& are_copies(xs.drop_last(), ys.drop_last())
    }
}

impl SkyNetMsg {
    /// A copy of this message and of its whole history.
    pub fn copy(&self) -> (r: SkyNetMsg)
        ensures
            is_copy(r, *self),
        decreases *self,
    {
        let n = self.history.len();
        let mut history: Vec<SkyNetMsg> = Vec::new();
        let mut i: usize = 0;
        assert(self.history@.take(0) =~= Seq::<SkyNetMsg>::empty());
        while i < n
            invariant
                n == self.history@.len(),
                i <= n,
                are_copies(history@, self.history@.take(i as int)),
            decreases n - i,
        {
            proof {
                assert(decreases_to!(*self => self.history@[i as int]));
            }
            let h = self.history[i].copy();
            let ghost before = history@;
            history.push(h);
            proof {
                assert(history@.drop_last() =~= before);
                assert(self.history@.take(i + 1).drop_last() =~= self.history@.take(i as int));
                assert(self.history@.take(i + 1).last() == self.history@[i as int]);
            }
            i = i + 1;
        }
        assert(self.history@.take(n as int) =~= self.history@);
        let r = SkyNetMsg { msg: self.msg.duplicate(), history };
        r
    }
}

impl Clone for SkyNetMsg {
    /// A copy of this message and of its whole history.
    fn clone(&self) -> (r: SkyNetMsg)
        ensures
            is_copy(r, *self),
    {
        self.copy()
    }
}

impl PartialEq for SkyNetMsg {
    fn eq(&self, other: &SkyNetMsg) -> (r: bool) {
        self.msg.id == other.msg.id && self.msg.channel_id == other.msg.channel_id
    }
}

impl vstd::std_specs::cmp::PartialEqSpecImpl for SkyNetMsg {
    open spec fn obeys_eq_spec() -> bool {
        true
    }

    open spec fn eq_spec(&self, other: &SkyNetMsg) -> bool {
        msg_key(*self) == msg_key(*other)
    }
}

impl Eq for SkyNetMsg {}

impl SkyNetUsr {
    /// The key under which this user is remembered.
    pub fn key(&self) -> (k: (u64, u16))
        ensures
            k == usr_key(*self),
    {
        (self.usr.id, self.usr.discriminator)
    }
}

impl PartialEq for SkyNetUsr {
    fn eq(&self, other: &SkyNetUsr) -> (r: bool) {
        self.usr.id == other.usr.id && self.usr.discriminator == other.usr.discriminator
    }
}

impl vstd::std_specs::cmp::PartialEqSpecImpl for SkyNetUsr {
    open spec fn obeys_eq_spec() -> bool {
        true
    }

    open spec fn eq_spec(&self, other: &SkyNetUsr) -> bool {
        usr_key(*self) == usr_key(*other)
    }
}

impl Eq for SkyNetUsr {}

} // verus!
