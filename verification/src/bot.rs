//! The bot's decisions: for each gateway event, what to remember and what to
//! do on Discord.

use vstd::prelude::*;
use vstd::string::*;
use crate::model::{Message, SkyNetMsg, SkyNetUsr, User, usr_key};
use crate::store::{
    MessageMemory, MsgEntry, UsrCache, cache_ok, holds_key, key_index, remembered, timed_entries,
    timed_get, timed_lifespan, timed_new, timed_set, touched,
};
use crate::memes::{MemeIndex, MemeEntryView, lookup, texts};
use crate::replies::{
    Command, PREFIX, chat_reply, chat_reply_string, command_of, cut_after, deleted_string,
    deleted_text, edited_string, edited_text, help_text, lucky_string, lucky_text, nickname_text,
    no_power_string, no_power_text, parse_command, text_after, unknown_string, unknown_text,
    warning_text,
};
use crate::text::{decimal, decimal_string, has_prefix, starts_with};
use crate::chance::{
    drawn_below, lemma_drawn, lemma_shuffled, random_below, shuffled, shuffled_into,
};

verus! {

/// How many messages each message memory holds.
pub const MESSAGE_MEMORY: usize = 65536;

/// How many seconds a deletion is held against its author.
pub const DELETION_MEMORY_SECS: u64 = 10;

/// How many private warnings a repeated deleter gets.
pub const WARNINGS: usize = 10;

/// The users allowed to give the privileged commands, by decimal user id.
pub struct HyperUsers {
    pub hypers: Vec<String>,
}

/// `id`, written in decimal, is one of the listed ids.
pub open spec fn is_hyper(hypers: Seq<String>, id: u64) -> bool {
    exists|i: int| 0 <= i < hypers.len() && #[trigger] hypers[i]@ == decimal(id as nat)
}

impl HyperUsers {
    /// Whether the user with this id is a trusted one.
    pub fn contains_user(&self, id: u64) -> (r: bool)
        ensures
            r == is_hyper(self.hypers@, id),
    {
        let name = decimal_string(id);
        let n = self.hypers.len();
        let mut i: usize = 0;
        while i < n
            invariant
                n == self.hypers@.len(),
                i <= n,
                name@ == decimal(id as nat),
                forall|j: int| 0 <= j < i ==> #[trigger] self.hypers@[j]@ != decimal(id as nat),
            decreases n - i,
        {
            if self.hypers[i] == name {
                return true;
            }
            i = i + 1;
        }
        false
    }
}

/// Something the bot does on Discord.
#[derive(Debug)]
pub enum Action {
    /// Post `text` in a channel.
    Send { channel_id: u64, text: String },
    /// Delete a message.
    Delete { channel_id: u64, message_id: u64 },
    /// Look up the server the bot serves (the first one it is a member of);
    /// the member edits that follow apply there.
    SelectServer,
    /// Change a member's nickname.
    SetNickname { user_id: u64, nickname: String },
    /// Deafen a member.
    Deafen { user_id: u64 },
    /// Open a private channel with a user; the private posts that follow go there.
    OpenPrivateChannel { user_id: u64 },
    /// Post `text` in the private channel opened last.
    SendPrivate { text: String },
    /// Upload a file to a channel.
    SendFile { channel_id: u64, path: String },
}

/// An action as plain values.
pub enum ActionView {
    Send(u64, Seq<char>),
    Delete(u64, u64),
    SelectServer,
    SetNickname(u64, Seq<char>),
    Deafen(u64),
    OpenPrivateChannel(u64),
    SendPrivate(Seq<char>),
    SendFile(u64, Seq<char>),
}

impl View for Action {
    type V = ActionView;

    open spec fn view(&self) -> ActionView {
        match self {
            Action::Send { channel_id, text } => ActionView::Send(*channel_id, text@),
            Action::Delete { channel_id, message_id } => ActionView::Delete(*channel_id, *message_id),
            Action::SelectServer => ActionView::SelectServer,
            Action::SetNickname { user_id, nickname } => ActionView::SetNickname(*user_id, nickname@),
            Action::Deafen { user_id } => ActionView::Deafen(*user_id),
            Action::OpenPrivateChannel { user_id } => ActionView::OpenPrivateChannel(*user_id),
            Action::SendPrivate { text } => ActionView::SendPrivate(text@),
            Action::SendFile { channel_id, path } => ActionView::SendFile(*channel_id, path@),
        }
    }
}

/// A list of actions as plain values.
pub open spec fn acts(v: Seq<Action>) -> Seq<ActionView> {
    v.map_values(|a: Action| a@)
}

/// Why the handling of an event stops short.  Each reason marks a point
/// where the bot cannot carry on: the caller performs the actions returned so
/// far and then crashes the connection's task (a panic), after which the
/// supervisor starts a new one.
#[derive(Debug, PartialEq, Eq, Structural, Clone, Copy)]
pub enum Abort {
    /// A remembered message was edited but the new version could not be fetched.
    RefetchFailed,
    /// The text after a command word does not start on a character boundary.
    CommandTextCut,
    /// The roulette found nobody to pick.
    NoCandidates,
    /// No memes are filed under the requested keyword.
    UnknownMemeKeyword,
    /// The requested keyword has no files.
    EmptyMemeFolder,
}

/// What happens after an event has been handled.
#[derive(Debug, PartialEq, Eq, Structural, Clone, Copy)]
pub enum Outcome {
    /// Wait for the next event.
    Continue,
    /// The gateway closed: stop listening.
    Stop,
    /// Give up, for the reason given: the caller panics after performing
    /// the actions.
    Abort(Abort),
}

/// The bot's answer to an event: the actions to perform, in order, then what
/// happens next.
#[derive(Debug)]
pub struct Reaction {
    pub actions: Vec<Action>,
    pub outcome: Outcome,
}

/// A gateway event, as far as the bot cares.
#[derive(Debug)]
pub enum Event {
    /// A new message.
    MessageCreate(Message),
    /// A message was edited; `fetched` is its new version as fetched from
    /// Discord, or `None` when fetching failed.
    MessageUpdate { id: u64, channel_id: u64, fetched: Option<Message> },
    /// A message was deleted.
    MessageDelete { channel_id: u64, message_id: u64 },
    /// The gateway closed the connection.
    Closed,
    /// Any other event, or a receive error.
    Ignored,
}

/// Everything the bot remembers.
pub struct BotState {
    messages: MessageMemory,
    bot_messages: MessageMemory,
    deleters: UsrCache,
    last_cleaned: u64,
    hypers: HyperUsers,
    memes: MemeIndex,
}

/// The users who wrote the messages, each once, in the order they first
/// appear; users are told apart by id and discriminator.
pub open spec fn distinct_authors(ms: Seq<Message>) -> Seq<User>
    decreases ms.len(),
{
    if ms.len() == 0 {
        Seq::empty()
    } else {
        let before = distinct_authors(ms.drop_last());
        let u = ms.last().author;
        if exists|j: int|
            0 <= j < before.len() && (#[trigger] before[j]).id == u.id && before[j].discriminator
                == u.discriminator {
            before
        } else {
            before.push(u)
        }
    }
}

/// The deletions asked for by a clean-up: every message written by a bot, in order.
pub open spec fn cleanup_actions(ms: Seq<Message>) -> Seq<ActionView>
    decreases ms.len(),
{
    if ms.len() == 0 {
        Seq::empty()
    } else {
        let before = cleanup_actions(ms.drop_last());
        if ms.last().author.bot {
            before.push(ActionView::Delete(ms.last().channel_id, ms.last().id))
        } else {
            before
        }
    }
}

/// The id of the last message written by a bot, or `dflt` when there is none.
pub open spec fn last_bot_message(ms: Seq<Message>, dflt: u64) -> u64
    decreases ms.len(),
{
    if ms.len() == 0 {
        dflt
    } else if ms.last().author.bot {
        ms.last().id
    } else {
        last_bot_message(ms.drop_last(), dflt)
    }
}

/// The messages remembered in a cache, most recent first.
pub open spec fn messages_of(s: Seq<MsgEntry>) -> Seq<Message> {
    s.map_values(|e: MsgEntry| e.1.msg)
}

/// The private warnings for a repeated deleter.
pub open spec fn warnings(user_id: u64) -> Seq<ActionView> {
    seq![ActionView::OpenPrivateChannel(user_id)] + Seq::new(
        WARNINGS as nat,
        |i: int| ActionView::SendPrivate(warning_text()),
    )
}

/// The actions of a roulette that picked `lucky`.
pub open spec fn roulette_actions(channel_id: u64, lucky: u64) -> Seq<ActionView> {
    seq![
        ActionView::SelectServer,
        ActionView::Send(channel_id, lucky_text(lucky)),
        ActionView::SetNickname(lucky, nickname_text()),
        ActionView::Deafen(lucky),
    ]
}

impl BotState {
    /// The remembered messages of people, most recently used first.
    pub closed spec fn messages(&self) -> Seq<MsgEntry> {
        self.messages.entries()
    }

    /// The remembered messages of bots, most recently used first.
    pub closed spec fn bot_messages(&self) -> Seq<MsgEntry> {
        self.bot_messages.entries()
    }

    /// The users who deleted a message recently, by (user id, discriminator).
    pub closed spec fn deleters(&self) -> Map<(u64, u16), SkyNetUsr> {
        timed_entries(self.deleters)
    }

    /// The id of the last bot message a clean-up deleted (0 before any).
    pub closed spec fn last_cleaned(&self) -> u64 {
        self.last_cleaned
    }

    /// How many seconds a deleter stays remembered.
    pub closed spec fn deletion_window(&self) -> nat {
        timed_lifespan(self.deleters)
    }

    /// The trusted users.
    pub closed spec fn hypers(&self) -> Seq<String> {
        self.hypers.hypers@
    }

    /// The meme library.
    pub closed spec fn memes(&self) -> Seq<MemeEntryView> {
        self.memes@
    }

    /// The memories are consistent: at most `MESSAGE_MEMORY` messages each,
    /// every message under its own key, every deleter under their own key.
    pub closed spec fn wf(&self) -> bool {
        &&& self.messages.wf()
        &&& self.bot_messages.wf()
        &&& self.messages.capacity() == MESSAGE_MEMORY as nat
        &&& self.bot_messages.capacity() == MESSAGE_MEMORY as nat
        &&& forall|k: (u64, u16)| #[trigger]
            timed_entries(self.deleters).contains_key(k) ==> usr_key(timed_entries(self.deleters)[k])
                == k
        &&& self.memes.wf()
        &&& timed_lifespan(self.deleters) == DELETION_MEMORY_SECS
    }

    /// A bot that remembers nothing yet.
    pub fn new(hypers: HyperUsers, memes: MemeIndex) -> (s: BotState)
        requires
            memes.wf(),
        ensures
            s.wf(),
            s.messages() == Seq::<MsgEntry>::empty(),
            s.bot_messages() == Seq::<MsgEntry>::empty(),
            s.deleters().is_empty(),
            s.deletion_window() == DELETION_MEMORY_SECS,
            s.last_cleaned() == 0,
            s.hypers() == hypers.hypers@,
            s.memes() == memes@,
    {
        BotState {
            messages: MessageMemory::new(MESSAGE_MEMORY),
            bot_messages: MessageMemory::new(MESSAGE_MEMORY),
            deleters: timed_new(DELETION_MEMORY_SECS),
            last_cleaned: 0,
            hypers,
            memes,
        }
    }
}


/// An empty list of actions.
fn no_actions() -> (v: Vec<Action>)
    ensures
        v@.len() == 0,
        acts(v@) == Seq::<ActionView>::empty(),
{
    let v: Vec<Action> = Vec::new();
    assert(acts(v@) =~= Seq::<ActionView>::empty());
    v
}

/// Appends one action.
fn push_action(v: &mut Vec<Action>, a: Action)
    ensures
        acts(final(v)@) == acts(old(v)@).push(a@),
{
    v.push(a);
    assert(acts(v@) =~= acts(old(v)@).push(a@));
}

/// Appends the private warnings for a repeated deleter.
fn push_warnings(v: &mut Vec<Action>, user_id: u64)
    ensures
        acts(final(v)@) == acts(old(v)@) + warnings(user_id),
{
    let ghost start = acts(v@);
    push_action(v, Action::OpenPrivateChannel { user_id });
    let mut i: usize = 0;
    while i < WARNINGS
        invariant
            i <= WARNINGS,
            acts(v@) == start + seq![ActionView::OpenPrivateChannel(user_id)] + Seq::new(
                i as nat,
                |j: int| ActionView::SendPrivate(warning_text()),
            ),
        decreases WARNINGS - i,
    {
        let ghost before = acts(v@);
        push_action(v, Action::SendPrivate { text: String::from_str("Silme Hayvan!") });
        i = i + 1;
        assert(acts(v@) =~= start + seq![ActionView::OpenPrivateChannel(user_id)] + Seq::new(
            i as nat,
            |j: int| ActionView::SendPrivate(warning_text()),
        ));
    }
    assert(acts(v@) =~= start + warnings(user_id));
}

/// The re-post of a deleted bot message: only the message the last clean-up
/// deleted is posted again.
pub open spec fn resend_actions(bot_msgs: Seq<MsgEntry>, k: (u64, u64), last_cleaned: u64) -> Seq<ActionView> {
    if holds_key(bot_msgs, k) {
        let d = bot_msgs[key_index(bot_msgs, k)].1.msg;
        if d.id == last_cleaned {
            seq![ActionView::Send(d.channel_id, d.content@)]
        } else {
            Seq::empty()
        }
    } else {
        Seq::empty()
    }
}

/// The remembered message of a person under key `k`, if any.
pub open spec fn human_message(msgs: Seq<MsgEntry>, k: (u64, u64)) -> Option<Message> {
    if holds_key(msgs, k) && !msgs[key_index(msgs, k)].1.msg.author.bot {
        Some(msgs[key_index(msgs, k)].1.msg)
    } else {
        None
    }
}

/// The key of a message's author in the deleter memory.
pub open spec fn author_key(m: Message) -> (u64, u16) {
    (m.author.id, m.author.discriminator)
}

/// How the bot reacts to the deletion of message `message_id` in channel
/// `channel_id`.
pub open spec fn delete_reaction(
    pre: BotState,
    post: BotState,
    channel_id: u64,
    message_id: u64,
    a: Seq<ActionView>,
    o: Outcome,
) -> bool {
    let k = (message_id, channel_id);
    let resend = resend_actions(pre.bot_messages(), k, pre.last_cleaned());
    &&& o == Outcome::Continue
    &&& post.hypers() == pre.hypers()
    &&& post.memes() == pre.memes()
    &&& post.last_cleaned() == pre.last_cleaned()
    &&& post.bot_messages() == touched(pre.bot_messages(), k)
    &&& post.messages() == touched(pre.messages(), k)
    &&& match human_message(pre.messages(), k) {
        None => a == resend && post.deleters() == pre.deleters(),
        Some(m) => {
            let uk = author_key(m);
            let report = seq![ActionView::Send(m.channel_id, deleted_text(m.author.id, m.content@))];
            &&& (a == resend + report || pre.deleters().contains_key(uk) && a == resend + warnings(
                m.author.id,
            ) + report)
            &&& (a == resend + report ==> post.deleters()[uk] == (SkyNetUsr { usr: m.author }))
            &&& post.deleters().contains_key(uk)
            &&& post.deleters().remove(uk) == pre.deleters().remove(uk)
            &&& (post.deleters()[uk] == pre.deleters()[uk] || post.deleters()[uk] == (SkyNetUsr {
                usr: m.author,
            }))
            &&& (!pre.deleters().contains_key(uk) ==> post.deleters()[uk] == (SkyNetUsr {
                usr: m.author,
            }))
        },
    }
}

/// How the bot reacts to the edit of message `id` in channel `channel_id`,
/// whose new version was `fetched` (`None` when fetching failed).
pub open spec fn update_reaction(
    pre: BotState,
    post: BotState,
    id: u64,
    channel_id: u64,
    fetched: Option<Message>,
    a: Seq<ActionView>,
    o: Outcome,
) -> bool {
    let k = (id, channel_id);
    let s = pre.messages();
    &&& post.hypers() == pre.hypers()
    &&& post.memes() == pre.memes()
    &&& post.last_cleaned() == pre.last_cleaned()
    &&& post.bot_messages() == pre.bot_messages()
    &&& post.deleters() == pre.deleters()
    &&& if !holds_key(s, k) {
        a.len() == 0 && o == Outcome::Continue && post.messages() == s
    } else if fetched is None {
        a.len() == 0 && o == Outcome::Abort(Abort::RefetchFailed) && post.messages() == s.remove(
            key_index(s, k),
        )
    } else {
        let i = key_index(s, k);
        &&& o == Outcome::Continue
        &&& a == edit_report(s[i].1.msg, fetched->0)
        &&& exists|e: SkyNetMsg|
            {
                &&& e.msg == fetched->0
                &&& e.history@ == seq![s[i].1]
                &&& post.messages() == #[trigger] remembered(s.remove(i), MESSAGE_MEMORY as nat, e)
            }
    }
}

/// The actions for the deletion of a message `m` written by a person,
/// after the re-post actions `resend`: when the lookup of its author among the
/// recent deleters found `first`, that user gets the private warnings; then
/// the message is reported in its channel.
pub fn deletion_actions(resend: Vec<Action>, first: Option<SkyNetUsr>, m: &Message) -> (r: Vec<Action>)
    ensures
        acts(r@) == acts(resend@) + (match first {
            Some(u) => warnings(u.usr.id),
            None => Seq::empty(),
        }) + seq![ActionView::Send(m.channel_id, deleted_text(m.author.id, m.content@))],
{
    let mut actions = resend;
    let ghost start = acts(actions@);
    match first {
        Some(dumb) => {
            push_warnings(&mut actions, dumb.usr.id);
        },
        None => {
            assert(start + Seq::<ActionView>::empty() =~= start);
        },
    }
    let text = deleted_string(m.author.id, m.content.as_str());
    push_action(&mut actions, Action::Send { channel_id: m.channel_id, text });
    actions
}

impl BotState {
    /// Handles the deletion of a message.
    ///
    /// A deleted bot message is posted again when it is the one the last
    /// clean-up deleted.  A deleted message of a person is reported in its
    /// channel with its text; a person who deleted one shortly before (and is
    /// still remembered for it) is also warned privately, ten times.  The
    /// person is then remembered as a recent deleter, unless they still are.
    /// Both message memories count the lookup as a use.
    pub fn on_message_delete(&mut self, channel_id: u64, message_id: u64) -> (r: Reaction)
        requires
            old(self).wf(),
        ensures
            final(self).wf(),
            delete_reaction(*old(self), *final(self), channel_id, message_id, acts(r.actions@), r.outcome),
    {
        let k = (message_id, channel_id);
        let ghost old_bot = self.bot_messages.entries();
        let ghost old_msgs = self.messages.entries();
        let ghost old_del = timed_entries(self.deleters);
        let mut actions: Vec<Action> = Vec::new();
        let bot_hit = self.bot_messages.look_up(k);
        match bot_hit {
            Some(d) => {
                if self.last_cleaned == d.id {
                    push_action(&mut actions, Action::Send { channel_id: d.channel_id, text: d.content });
                }
            },
            None => {},
        }
        assert(acts(actions@) == resend_actions(old_bot, k, self.last_cleaned));
        let hit = self.messages.look_up(k);
        match hit {
            Some(m) => {
                if !m.author.bot {
                    let uk = (m.author.id, m.author.discriminator);
                    let ghost resend = acts(actions@);
                    let first = timed_get(&mut self.deleters, uk);
                    let again = timed_get(&mut self.deleters, uk);
                    if again.is_none() {
                        timed_set(&mut self.deleters, uk, SkyNetUsr { usr: m.author.duplicate() });
                    }
                    proof {
                        if first is Some {
                            assert(first->0.usr.id == m.author.id);
                        }
                    }
                    let ghost first_v = first;
                    actions = deletion_actions(actions, first, &m);
                    proof {
                        let report = seq![ActionView::Send(m.channel_id, deleted_text(m.author.id, m.content@))];
                        if first_v is Some {
                            assert(acts(actions@) == resend + warnings(m.author.id) + report);
                            assert(acts(actions@).len() == resend.len() + 12);
                            assert(acts(actions@) != resend + report);
                        } else {
                            assert(acts(actions@) =~= resend + report);
                        }
                        assert(timed_entries(self.deleters).remove(uk) =~= old_del.remove(uk));
                    }
                }
            },
            None => {},
        }
        Reaction { actions, outcome: Outcome::Continue }
    }
}


/// The report of an edit, if one is due: the author is a person and the text
/// changed.
pub open spec fn edit_report(old_m: Message, new_m: Message) -> Seq<ActionView> {
    if !old_m.author.bot && old_m.content@ != new_m.content@ {
        seq![ActionView::Send(old_m.channel_id, edited_text(old_m.author.id, old_m.content@))]
    } else {
        Seq::empty()
    }
}

impl BotState {
    /// Handles the edit of a message.
    ///
    /// Only remembered messages of people matter.  The edited message is
    /// replaced in memory by its new version, fetched from Discord, which
    /// keeps the remembered one as its history; when the author is a person
    /// and the text changed, the old text is reported in the channel.  When
    /// fetching failed for a remembered message, the message is forgotten and
    /// the bot gives up.
    pub fn on_message_update(&mut self, id: u64, channel_id: u64, fetched: Option<Message>) -> (r: Reaction)
        requires
            old(self).wf(),
        ensures
            final(self).wf(),
            update_reaction(*old(self), *final(self), id, channel_id, fetched, acts(r.actions@), r.outcome),
    {
        let k = (id, channel_id);
        let ghost s = self.messages.entries();
        let hit = self.messages.look_up(k);
        let old_msg = match hit {
            None => {
                return Reaction { actions: Vec::new(), outcome: Outcome::Continue };
            },
            Some(m) => m,
        };
        let ghost i = key_index(s, k);
        let ghost t = self.messages.entries();
        proof {
            assert(t =~= seq![s[i]] + s.remove(i));
            crate::store::lemma_key_index(t, k, 0);
        }
        let removed = self.messages.take(k);
        proof {
            assert(t.remove(0) =~= s.remove(i));
        }
        let new_msg = match fetched {
            None => {
                return Reaction {
                    actions: no_actions(),
                    outcome: Outcome::Abort(Abort::RefetchFailed),
                };
            },
            Some(m) => m,
        };
        let removed = removed.unwrap();
        let mut actions: Vec<Action> = Vec::new();
        if !old_msg.author.bot && !(old_msg.content == new_msg.content) {
            let text = edited_string(old_msg.author.id, old_msg.content.as_str());
            push_action(&mut actions, Action::Send { channel_id: old_msg.channel_id, text });
        }
        assert(acts(actions@) =~= edit_report(s[i].1.msg, new_msg));
        let mut history: Vec<SkyNetMsg> = Vec::new();
        history.push(removed);
        let entry = SkyNetMsg { msg: new_msg, history };
        assert(entry.history@ =~= seq![s[i].1]);
        self.messages.remember(entry);
        Reaction { actions, outcome: Outcome::Continue }
    }
}


/// Nothing the bot remembers changed.
pub open spec fn same_memory(pre: BotState, post: BotState) -> bool {
    &&& post.messages() == pre.messages()
    &&& post.bot_messages() == pre.bot_messages()
    &&& post.deleters() == pre.deleters()
    &&& post.last_cleaned() == pre.last_cleaned()
    &&& post.hypers() == pre.hypers()
    &&& post.memes() == pre.memes()
}

/// Nothing the bot remembers changed but the last cleaned-up message.
pub open spec fn same_memory_but_cleaned(pre: BotState, post: BotState) -> bool {
    &&& post.messages() == pre.messages()
    &&& post.bot_messages() == pre.bot_messages()
    &&& post.deleters() == pre.deleters()
    &&& post.hypers() == pre.hypers()
    &&& post.memes() == pre.memes()
}

/// How the bot reacts to the clean-up command `m`.
pub open spec fn cleanup_reaction(pre: BotState, post: BotState, m: Message, a: Seq<ActionView>, o: Outcome) -> bool {
    &&& o == Outcome::Continue
    &&& if is_hyper(pre.hypers(), m.author.id) {
        let ms = messages_of(pre.bot_messages());
        &&& same_memory_but_cleaned(pre, post)
        &&& post.last_cleaned() == last_bot_message(ms, pre.last_cleaned())
        &&& a == cleanup_actions(ms)
    } else {
        &&& same_memory(pre, post)
        &&& a == seq![ActionView::Send(m.channel_id, no_power_text(m.author.id))]
    }
}

/// How the bot reacts to the say command `m`: the command disappears and its
/// text is posted in its place.
pub open spec fn say_reaction(m: Message, a: Seq<ActionView>, o: Outcome) -> bool {
    let del = seq![ActionView::Delete(m.channel_id, m.id)];
    match cut_after(m.content@, 12) {
        Some(t) => a == del + seq![ActionView::Send(m.channel_id, t)] && o == Outcome::Continue,
        None => a == del && o == Outcome::Abort(Abort::CommandTextCut),
    }
}

/// How the bot reacts to the roulette command `m`: a trusted user makes the
/// bot pick one of the authors it remembers, announce them, rename them and
/// deafen them.  With nobody remembered there is nobody to pick: nothing is
/// done and the bot gives up (`Abort(NoCandidates)`, a crash of the
/// connection's task).
pub open spec fn roulette_reaction(pre: BotState, post: BotState, m: Message, a: Seq<ActionView>, o: Outcome) -> bool {
    &&& same_memory(pre, post)
    &&& if is_hyper(pre.hypers(), m.author.id) {
        let cands = distinct_authors(messages_of(pre.messages()));
        if cands.len() == 0 {
            a.len() == 0 && o == Outcome::Abort(Abort::NoCandidates)
        } else {
            &&& o == Outcome::Continue
            &&& exists|v: Vec<usize>, r: Vec<usize>|
                #[trigger] shuffled_into(v, r)
                && v@ == Seq::new(cands.len(), |k: int| k as usize)
                && r@.len() > 0
                && r@.last() < cands.len()
                && a == roulette_actions(m.channel_id, cands[r@.last() as int].id)
        }
    } else {
        a == seq![ActionView::Send(m.channel_id, no_power_text(m.author.id))] && o == Outcome::Continue
    }
}

/// How the bot reacts to the meme command `m`: the command disappears and
/// one of the files filed under the keyword after the command word is
/// uploaded in its place.
pub open spec fn meme_reaction(pre: BotState, m: Message, a: Seq<ActionView>, o: Outcome) -> bool {
    let del = seq![ActionView::Delete(m.channel_id, m.id)];
    match cut_after(m.content@, 13) {
        None => a == del && o == Outcome::Abort(Abort::CommandTextCut),
        Some(kw) => match lookup(pre.memes(), kw) {
            None => a == del && o == Outcome::Abort(Abort::UnknownMemeKeyword),
            Some(files) => if files.len() == 0 {
                a == del && o == Outcome::Abort(Abort::EmptyMemeFolder)
            } else {
                &&& o == Outcome::Continue
                &&& exists|d: usize|
                    #[trigger] drawn_below(files.len() as usize, d)
                    && d < files.len()
                    && a == del + seq![ActionView::SendFile(m.channel_id, files[d as int])]
            },
        },
    }
}

/// How the bot reacts to a command message `m` (one that starts with the prefix).
pub open spec fn command_reaction(pre: BotState, post: BotState, m: Message, a: Seq<ActionView>, o: Outcome) -> bool {
    match command_of(m.content@) {
        Command::Stalk => same_memory(pre, post) && a.len() == 0 && o == Outcome::Continue,
        Command::CleanMe => cleanup_reaction(pre, post, m, a, o),
        Command::Say => same_memory(pre, post) && say_reaction(m, a, o),
        Command::Roulette => roulette_reaction(pre, post, m, a, o),
        Command::Meme => same_memory(pre, post) && meme_reaction(pre, m, a, o),
        Command::Help => same_memory(pre, post) && a == seq![ActionView::Send(m.channel_id, help_text())]
            && o == Outcome::Continue,
        Command::Unknown => same_memory(pre, post) && a == seq![
            ActionView::Send(m.channel_id, unknown_text(m.content@)),
        ] && o == Outcome::Continue,
    }
}

/// The authors of the messages, each once, in the order they first appear.
pub fn distinct_authors_of(ms: &Vec<Message>) -> (r: Vec<User>)
    ensures
        r@ == distinct_authors(ms@),
{
    let mut out: Vec<User> = Vec::new();
    let n = ms.len();
    let mut i: usize = 0;
    assert(ms@.take(0) =~= Seq::<Message>::empty());
    while i < n
        invariant
            n == ms@.len(),
            i <= n,
            out@ == distinct_authors(ms@.take(i as int)),
        decreases n - i,
    {
        let u = &ms[i].author;
        let ghost before = out@;
        assert(ms@.take(i + 1).drop_last() =~= ms@.take(i as int));
        let m = out.len();
        let mut j: usize = 0;
        let mut seen = false;
        while j < m
            invariant
                m == out@.len(),
                j <= m,
                seen == exists|l: int|
                    0 <= l < j && (#[trigger] out@[l]).id == u.id && out@[l].discriminator
                        == u.discriminator,
            decreases m - j,
        {
            if out[j].id == u.id && out[j].discriminator == u.discriminator {
                seen = true;
            }
            j = j + 1;
            assert(seen == exists|l: int|
                0 <= l < j && (#[trigger] out@[l]).id == u.id && out@[l].discriminator
                    == u.discriminator) by {
                if out@[j - 1].id == u.id && out@[j - 1].discriminator == u.discriminator {
                    assert(out@[j - 1].id == u.id);
                }
            }
        }
        if !seen {
            out.push(u.duplicate());
        }
        i = i + 1;
    }
    assert(ms@.take(n as int) =~= ms@);
    out
}

/// The actions of a roulette in channel `channel_id` whose candidates were
/// put in the random order `order` (positions into `cands`): the candidate
/// at the last position of that order is picked.
pub fn roulette_pick_actions(channel_id: u64, cands: &Vec<User>, order: &Vec<usize>) -> (r: Vec<Action>)
    requires
        order@.len() > 0,
        order@.last() < cands@.len(),
    ensures
        acts(r@) == roulette_actions(channel_id, cands@[order@.last() as int].id),
{
    let pick = order[order.len() - 1];
    let lucky = cands[pick].id;
    let mut actions = no_actions();
    push_action(&mut actions, Action::SelectServer);
    push_action(&mut actions, Action::Send { channel_id, text: lucky_string(lucky) });
    push_action(&mut actions, Action::SetNickname { user_id: lucky, nickname: String::from_str("EZIK") });
    push_action(&mut actions, Action::Deafen { user_id: lucky });
    assert(acts(actions@) =~= roulette_actions(channel_id, lucky));
    actions
}

/// The actions of a meme command `m` for which file number `drawn` of the
/// keyword's files was drawn: the command disappears and that file is
/// uploaded in its place.
pub fn meme_pick_actions(m: &Message, files: &Vec<String>, drawn: usize) -> (r: Vec<Action>)
    requires
        drawn < files@.len(),
    ensures
        acts(r@) == seq![
            ActionView::Delete(m.channel_id, m.id),
            ActionView::SendFile(m.channel_id, files@[drawn as int]@),
        ],
{
    let mut actions = no_actions();
    push_action(&mut actions, Action::Delete { channel_id: m.channel_id, message_id: m.id });
    push_action(&mut actions, Action::SendFile { channel_id: m.channel_id, path: files[drawn].clone() });
    assert(acts(actions@) =~= seq![
        ActionView::Delete(m.channel_id, m.id),
        ActionView::SendFile(m.channel_id, files@[drawn as int]@),
    ]);
    actions
}

impl BotState {
    /// The clean-up command: a trusted user makes the bot delete every bot
    /// message it remembers, most recently used first, remembering the last
    /// one deleted; anybody else is told off.
    fn clean_up(&mut self, m: &Message) -> (r: Reaction)
        requires
            old(self).wf(),
        ensures
            final(self).wf(),
            cleanup_reaction(*old(self), *final(self), *m, acts(r.actions@), r.outcome),
    {
        let mut actions = no_actions();
        if !self.hypers.contains_user(m.author.id) {
            push_action(&mut actions, Action::Send { channel_id: m.channel_id, text: no_power_string(m.author.id) });
            return Reaction { actions, outcome: Outcome::Continue };
        }
        let ghost start = self.last_cleaned;
        let mut last = self.last_cleaned;
        let ms = self.bot_messages.recent_messages();
        assert(ms@ =~= messages_of(self.bot_messages.entries()));
        let n = ms.len();
        let mut i: usize = 0;
        assert(ms@.take(0) =~= Seq::<Message>::empty());
        while i < n
            invariant
                n == ms@.len(),
                i <= n,
                acts(actions@) == cleanup_actions(ms@.take(i as int)),
                last == last_bot_message(ms@.take(i as int), start),
            decreases n - i,
        {
            assert(ms@.take(i + 1).drop_last() =~= ms@.take(i as int));
            if ms[i].author.bot {
                last = ms[i].id;
                push_action(&mut actions, Action::Delete { channel_id: ms[i].channel_id, message_id: ms[i].id });
            }
            i = i + 1;
        }
        assert(ms@.take(n as int) =~= ms@);
        self.last_cleaned = last;
        Reaction { actions, outcome: Outcome::Continue }
    }

    /// The say command.
    fn say(&self, m: &Message) -> (r: Reaction)
        ensures
            say_reaction(*m, acts(r.actions@), r.outcome),
    {
        let mut actions = no_actions();
        push_action(&mut actions, Action::Delete { channel_id: m.channel_id, message_id: m.id });
        match text_after(m.content.as_str(), 12) {
            Some(t) => {
                let ghost tv = t@;
                push_action(&mut actions, Action::Send { channel_id: m.channel_id, text: t });
                assert(acts(actions@) =~= seq![ActionView::Delete(m.channel_id, m.id)] + seq![
                    ActionView::Send(m.channel_id, tv),
                ]);
                Reaction { actions, outcome: Outcome::Continue }
            },
            None => Reaction { actions, outcome: Outcome::Abort(Abort::CommandTextCut) },
        }
    }

    /// The roulette command.
    fn roulette(&mut self, m: &Message) -> (r: Reaction)
        requires
            old(self).wf(),
        ensures
            final(self).wf(),
            roulette_reaction(*old(self), *final(self), *m, acts(r.actions@), r.outcome),
    {
        let mut actions = no_actions();
        if !self.hypers.contains_user(m.author.id) {
            push_action(&mut actions, Action::Send { channel_id: m.channel_id, text: no_power_string(m.author.id) });
            return Reaction { actions, outcome: Outcome::Continue };
        }
        let ms = self.messages.recent_messages();
        assert(ms@ =~= messages_of(self.messages.entries()));
        let cands = distinct_authors_of(&ms);
        let n = cands.len();
        if n == 0 {
            return Reaction { actions, outcome: Outcome::Abort(Abort::NoCandidates) };
        }
        let mut order: Vec<usize> = Vec::new();
        let mut i: usize = 0;
        while i < n
            invariant
                i <= n,
                order@ == Seq::new(i as nat, |k: int| k as usize),
            decreases n - i,
        {
            order.push(i);
            i = i + 1;
            assert(order@ =~= Seq::new(i as nat, |k: int| k as usize));
        }
        let ghost before = order;
        let order = shuffled(order);
        proof {
            lemma_shuffled(before, order);
            before@.to_multiset_ensures();
            order@.to_multiset_ensures();
            assert(order@.len() == n);
            let pick = order@[order@.len() - 1];
            assert(order@.contains(pick));
            assert(order@.to_multiset().count(pick) > 0);
            assert(before@.to_multiset().count(pick) > 0);
            assert(before@.contains(pick));
        }
        let actions = roulette_pick_actions(m.channel_id, &cands, &order);
        Reaction { actions, outcome: Outcome::Continue }
    }

    /// The meme command.
    fn meme(&self, m: &Message) -> (r: Reaction)
        requires
            self.wf(),
        ensures
            meme_reaction(*self, *m, acts(r.actions@), r.outcome),
    {
        let mut actions = no_actions();
        push_action(&mut actions, Action::Delete { channel_id: m.channel_id, message_id: m.id });
        let kw = match text_after(m.content.as_str(), 13) {
            Some(t) => t,
            None => {
                return Reaction { actions, outcome: Outcome::Abort(Abort::CommandTextCut) };
            },
        };
        let files = match self.memes.get(&kw) {
            Some(f) => f,
            None => {
                return Reaction { actions, outcome: Outcome::Abort(Abort::UnknownMemeKeyword) };
            },
        };
        if files.len() == 0 {
            return Reaction { actions, outcome: Outcome::Abort(Abort::EmptyMemeFolder) };
        }
        let j = random_below(files.len());
        let actions = meme_pick_actions(m, files, j);
        proof {
            lemma_drawn(files.len(), j);
            let fs = texts(files@);
            assert(fs.len() as usize == files.len());
            assert(drawn_below(fs.len() as usize, j));
            assert(fs[j as int] == files@[j as int]@);
            assert(acts(actions@) =~= seq![ActionView::Delete(m.channel_id, m.id)] + seq![
                ActionView::SendFile(m.channel_id, fs[j as int]),
            ]);
        }
        Reaction { actions, outcome: Outcome::Continue }
    }

    /// Handles a message that starts with the command prefix.
    fn on_command(&mut self, m: &Message) -> (r: Reaction)
        requires
            old(self).wf(),
        ensures
            final(self).wf(),
            command_reaction(*old(self), *final(self), *m, acts(r.actions@), r.outcome),
    {
        match parse_command(m.content.as_str()) {
            Command::Stalk => Reaction { actions: no_actions(), outcome: Outcome::Continue },
            Command::CleanMe => self.clean_up(m),
            Command::Say => self.say(m),
            Command::Roulette => self.roulette(m),
            Command::Meme => self.meme(m),
            Command::Help => {
                let mut actions = no_actions();
                push_action(&mut actions, Action::Send { channel_id: m.channel_id, text: String::from_str("You can use stalk command") });
                Reaction { actions, outcome: Outcome::Continue }
            },
            Command::Unknown => {
                let mut actions = no_actions();
                push_action(&mut actions, Action::Send { channel_id: m.channel_id, text: unknown_string(m.content.as_str()) });
                Reaction { actions, outcome: Outcome::Continue }
            },
        }
    }
}


/// `e` is message `m` freshly remembered, with no history.
pub open spec fn fresh_entry(e: SkyNetMsg, m: Message) -> bool {
    e.msg == m && e.history@.len() == 0
}

/// How the bot reacts to a chat message `m` (one without the command
/// prefix): it may answer, and it remembers the message, in the bot memory
/// when a bot wrote it and in the people memory otherwise.
pub open spec fn chat_reaction(pre: BotState, post: BotState, m: Message, a: Seq<ActionView>, o: Outcome) -> bool {
    &&& o == Outcome::Continue
    &&& a == match chat_reply(m.content@, m.author.bot) {
        Some(t) => seq![ActionView::Send(m.channel_id, t)],
        None => Seq::empty(),
    }
    &&& post.deleters() == pre.deleters()
    &&& post.last_cleaned() == pre.last_cleaned()
    &&& post.hypers() == pre.hypers()
    &&& post.memes() == pre.memes()
    &&& exists|e: SkyNetMsg|
        #[trigger] fresh_entry(e, m) && if m.author.bot {
            &&& post.bot_messages() == remembered(pre.bot_messages(), MESSAGE_MEMORY as nat, e)
            &&& post.messages() == pre.messages()
        } else {
            &&& post.messages() == remembered(pre.messages(), MESSAGE_MEMORY as nat, e)
            &&& post.bot_messages() == pre.bot_messages()
        }
}

/// How the bot reacts to a new message `m`.
pub open spec fn create_reaction(pre: BotState, post: BotState, m: Message, a: Seq<ActionView>, o: Outcome) -> bool {
    if starts_with(m.content@, "!skynet"@) {
        command_reaction(pre, post, m, a, o)
    } else {
        chat_reaction(pre, post, m, a, o)
    }
}

/// How the bot reacts to a gateway event.
pub open spec fn event_reaction(pre: BotState, post: BotState, ev: Event, a: Seq<ActionView>, o: Outcome) -> bool {
    match ev {
        Event::MessageCreate(m) => create_reaction(pre, post, m, a, o),
        Event::MessageUpdate { id, channel_id, fetched } => update_reaction(
            pre,
            post,
            id,
            channel_id,
            fetched,
            a,
            o,
        ),
        Event::MessageDelete { channel_id, message_id } => delete_reaction(
            pre,
            post,
            channel_id,
            message_id,
            a,
            o,
        ),
        Event::Closed => same_memory(pre, post) && a.len() == 0 && o == Outcome::Stop,
        Event::Ignored => same_memory(pre, post) && a.len() == 0 && o == Outcome::Continue,
    }
}

impl BotState {
    /// Handles a chat message: a message without the command prefix.
    fn on_chat(&mut self, m: Message) -> (r: Reaction)
        requires
            old(self).wf(),
        ensures
            final(self).wf(),
            chat_reaction(*old(self), *final(self), m, acts(r.actions@), r.outcome),
    {
        let ghost mv = m;
        let mut actions = no_actions();
        match chat_reply_string(m.content.as_str(), m.author.bot) {
            Some(t) => {
                let ghost tv = t@;
                push_action(&mut actions, Action::Send { channel_id: m.channel_id, text: t });
                assert(acts(actions@) =~= seq![ActionView::Send(mv.channel_id, tv)]);
            },
            None => {},
        }
        let from_bot = m.author.bot;
        let entry = SkyNetMsg::fresh(m);
        assert(fresh_entry(entry, mv));
        if from_bot {
            self.bot_messages.remember(entry);
        } else {
            self.messages.remember(entry);
        }
        Reaction { actions, outcome: Outcome::Continue }
    }

    /// Handles a new message: commands are obeyed, other messages may be
    /// answered and are remembered.
    pub fn on_message_create(&mut self, m: Message) -> (r: Reaction)
        requires
            old(self).wf(),
        ensures
            final(self).wf(),
            create_reaction(*old(self), *final(self), m, acts(r.actions@), r.outcome),
    {
        if has_prefix(m.content.as_str(), PREFIX) {
            self.on_command(&m)
        } else {
            self.on_chat(m)
        }
    }

    /// Handles a gateway event.
    pub fn handle(&mut self, ev: Event) -> (r: Reaction)
        requires
            old(self).wf(),
        ensures
            final(self).wf(),
            event_reaction(*old(self), *final(self), ev, acts(r.actions@), r.outcome),
    {
        match ev {
            Event::MessageCreate(m) => self.on_message_create(m),
            Event::MessageUpdate { id, channel_id, fetched } => self.on_message_update(id, channel_id, fetched),
            Event::MessageDelete { channel_id, message_id } => self.on_message_delete(channel_id, message_id),
            Event::Closed => Reaction { actions: no_actions(), outcome: Outcome::Stop },
            Event::Ignored => Reaction { actions: no_actions(), outcome: Outcome::Continue },
        }
    }
}


impl BotState {
    /// Starts a new connection with what the bot remembered on the previous
    /// one: the message and deleter memories stay, the meme library is the
    /// freshly loaded one, and no clean-up has happened yet on this
    /// connection.
    pub fn reconnect(&mut self, memes: MemeIndex)
        requires
            old(self).wf(),
            memes.wf(),
        ensures
            final(self).wf(),
            final(self).messages() == old(self).messages(),
            final(self).bot_messages() == old(self).bot_messages(),
            final(self).deleters() == old(self).deleters(),
            final(self).hypers() == old(self).hypers(),
            final(self).memes() == memes@,
            final(self).last_cleaned() == 0,
    {
        self.memes = memes;
        self.last_cleaned = 0;
    }

    /// What a consistent state guarantees of its message memories.
    pub proof fn lemma_memories_ok(&self)
        requires
            self.wf(),
        ensures
            cache_ok(self.messages(), MESSAGE_MEMORY as nat),
            cache_ok(self.bot_messages(), MESSAGE_MEMORY as nat),
            crate::memes::distinct_kws(self.memes()),
            self.deletion_window() == DELETION_MEMORY_SECS,
    {
    }
}

} // verus!
