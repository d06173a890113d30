//! Properties of the bot that span several operations.

use vstd::prelude::*;
use crate::model::{Message, SkyNetMsg, msg_key};
use crate::store::{
    MsgEntry, cache_ok, evicted, has_key_at, holds_key, key_index, lemma_key_index,
    lemma_removed_ok, lemma_stored_fresh_ok, lemma_touched_ok, remembered,
};
use crate::memes::{MemeEntryView, add_meme, add_memes, distinct_kws, files_kw_at, has_kw, kw_index, lookup};
use crate::bot::{
    ActionView, BotState, MESSAGE_MEMORY, author_key, chat_reaction, cleanup_reaction,
    create_reaction, command_reaction, delete_reaction, fresh_entry, human_message, is_hyper,
    last_bot_message, messages_of, same_memory, update_reaction, distinct_authors, cleanup_actions,
    edit_report, roulette_actions, roulette_reaction, warnings, Outcome,
};
use crate::replies::{Command, command_of, deleted_text, no_power_text, reply_for, chat_reply, edited_text};
use crate::text::{occurs_at, occurs_in, starts_with};

verus! {

/// Remembering a message puts its key at the front of the memory.  A new
/// message is stored as given; for a known key the version remembered
/// earlier stays.  The memory stays well kept.
pub proof fn law_remember_front(s: Seq<MsgEntry>, cap: nat, m: SkyNetMsg)
    requires
        cache_ok(s, cap),
        cap > 0,
    ensures
        cache_ok(remembered(s, cap, m), cap),
        remembered(s, cap, m).len() > 0,
        remembered(s, cap, m)[0].0 == msg_key(m),
        !holds_key(s, msg_key(m)) ==> remembered(s, cap, m)[0].1 == m,
        holds_key(s, msg_key(m)) ==> remembered(s, cap, m)[0].1 == s[key_index(s, msg_key(m))].1,
{
    let k = msg_key(m);
    if holds_key(s, k) {
        lemma_touched_ok(s, cap, k);
        let i = key_index(s, k);
        assert(has_key_at(s, k, i));
    } else {
        lemma_stored_fresh_ok(s, cap, m);
    }
}

/// Remembering a message a second time changes nothing: the store is a
/// memo, and the message is already the most recently used one.
pub proof fn law_remember_twice(s: Seq<MsgEntry>, cap: nat, m1: SkyNetMsg, m2: SkyNetMsg)
    requires
        cache_ok(s, cap),
        cap > 0,
        msg_key(m1) == msg_key(m2),
    ensures
        remembered(remembered(s, cap, m1), cap, m2) == remembered(s, cap, m1),
{
    let t = remembered(s, cap, m1);
    law_remember_front(s, cap, m1);
    lemma_key_index(t, msg_key(m2), 0);
    assert(seq![t[0]] + t.remove(0) =~= t);
}

/// Forgetting a message just remembered undoes the remembering, when the
/// message was new and the memory had room for it.
pub proof fn law_forget_undoes_remember(s: Seq<MsgEntry>, cap: nat, m: SkyNetMsg)
    requires
        cache_ok(s, cap),
        s.len() < cap,
        !holds_key(s, msg_key(m)),
    ensures
        holds_key(remembered(s, cap, m), msg_key(m)),
        key_index(remembered(s, cap, m), msg_key(m)) == 0,
        remembered(s, cap, m)[0].1 == m,
        remembered(s, cap, m).remove(0) == s,
{
    lemma_stored_fresh_ok(s, cap, m);
    let t = remembered(s, cap, m);
    lemma_key_index(t, msg_key(m), 0);
    assert(t.remove(0) =~= s);
}

/// An edit of a remembered message replaces it, at the front of the memory,
/// by the fetched version, whose history is the version remembered before;
/// the other messages keep their order.
pub proof fn law_edit_replaces(
    pre: BotState,
    post: BotState,
    fetched: Message,
    a: Seq<ActionView>,
    o: crate::bot::Outcome,
)
    requires
        pre.wf(),
        holds_key(pre.messages(), (fetched.id, fetched.channel_id)),
        update_reaction(pre, post, fetched.id, fetched.channel_id, Some(fetched), a, o),
    ensures
        ({
            let s = pre.messages();
            let i = key_index(s, (fetched.id, fetched.channel_id));
            &&& post.messages().len() == s.len()
            &&& post.messages()[0].0 == (fetched.id, fetched.channel_id)
            &&& post.messages()[0].1.msg == fetched
            &&& post.messages()[0].1.history@ == seq![s[i].1]
            &&& post.messages().drop_first() == s.remove(i)
        }),
{
    pre.lemma_memories_ok();
    let s = pre.messages();
    let k = (fetched.id, fetched.channel_id);
    let i = key_index(s, k);
    assert(has_key_at(s, k, i));
    let e = choose|e: SkyNetMsg|
        {
            &&& e.msg == fetched
            &&& e.history@ == seq![s[i].1]
            &&& post.messages() == #[trigger] remembered(s.remove(i), MESSAGE_MEMORY as nat, e)
        };
    lemma_removed_ok(s, MESSAGE_MEMORY as nat, i);
    assert(msg_key(e) == k);
    lemma_stored_fresh_ok(s.remove(i), MESSAGE_MEMORY as nat, e);
    assert(evicted(s.remove(i), MESSAGE_MEMORY as nat) == s.remove(i));
    assert((seq![(k, e)] + s.remove(i)).drop_first() =~= s.remove(i));
}

/// Commands are never remembered: obeying one leaves both message memories
/// as they were.
pub proof fn law_commands_not_remembered(
    pre: BotState,
    post: BotState,
    m: Message,
    a: Seq<ActionView>,
    o: crate::bot::Outcome,
)
    requires
        starts_with(m.content@, "!skynet"@),
        create_reaction(pre, post, m, a, o),
    ensures
        post.messages() == pre.messages(),
        post.bot_messages() == pre.bot_messages(),
{
    assert(command_reaction(pre, post, m, a, o));
}

/// A chat message becomes the most recently used message of the memory that
/// matches its author: the bot memory for bots, the people memory otherwise.
pub proof fn law_chat_remembered(
    pre: BotState,
    post: BotState,
    m: Message,
    a: Seq<ActionView>,
    o: crate::bot::Outcome,
)
    requires
        pre.wf(),
        !starts_with(m.content@, "!skynet"@),
        create_reaction(pre, post, m, a, o),
    ensures
        m.author.bot ==> post.bot_messages().len() > 0 && post.bot_messages()[0].0 == (
            m.id,
            m.channel_id,
        ) && post.messages() == pre.messages(),
        !m.author.bot ==> post.messages().len() > 0 && post.messages()[0].0 == (m.id, m.channel_id)
            && post.bot_messages() == pre.bot_messages(),
        !m.author.bot && !holds_key(pre.messages(), (m.id, m.channel_id)) ==> post.messages()[0].1.msg
            == m,
{
    pre.lemma_memories_ok();
    assert(chat_reaction(pre, post, m, a, o));
    let e = choose|e: SkyNetMsg|
        #[trigger] fresh_entry(e, m) && if m.author.bot {
            &&& post.bot_messages() == remembered(pre.bot_messages(), MESSAGE_MEMORY as nat, e)
            &&& post.messages() == pre.messages()
        } else {
            &&& post.messages() == remembered(pre.messages(), MESSAGE_MEMORY as nat, e)
            &&& post.bot_messages() == pre.bot_messages()
        };
    if m.author.bot {
        law_remember_front(pre.bot_messages(), MESSAGE_MEMORY as nat, e);
    } else {
        law_remember_front(pre.messages(), MESSAGE_MEMORY as nat, e);
    }
}

/// The last bot message is the one at the last position that holds a bot message.
proof fn lemma_last_bot_message(ms: Seq<Message>, dflt: u64, j: int)
    requires
        0 <= j < ms.len(),
        ms[j].author.bot,
        forall|l: int| j < l < ms.len() ==> !(#[trigger] ms[l]).author.bot,
    ensures
        last_bot_message(ms, dflt) == ms[j].id,
    decreases ms.len(),
{
    if j < ms.len() - 1 {
        assert(!ms[ms.len() - 1].author.bot);
        let t = ms.drop_last();
        assert forall|l: int| j < l < t.len() implies !(#[trigger] t[l]).author.bot by {
            assert(t[l] == ms[l]);
        }
        lemma_last_bot_message(t, dflt, j);
    }
}

/// After a clean-up by a trusted user, deleting the last bot message it
/// deleted makes the bot post that message again, first thing.
pub proof fn law_cleanup_then_delete_resends(
    pre: BotState,
    mid: BotState,
    post: BotState,
    m: Message,
    j: int,
    a1: Seq<ActionView>,
    o1: crate::bot::Outcome,
    a2: Seq<ActionView>,
    o2: crate::bot::Outcome,
)
    requires
        pre.wf(),
        is_hyper(pre.hypers(), m.author.id),
        cleanup_reaction(pre, mid, m, a1, o1),
        0 <= j < pre.bot_messages().len(),
        pre.bot_messages()[j].1.msg.author.bot,
        forall|l: int|
            j < l < pre.bot_messages().len() ==> !(#[trigger] pre.bot_messages()[l]).1.msg.author.bot,
        delete_reaction(
            mid,
            post,
            pre.bot_messages()[j].1.msg.channel_id,
            pre.bot_messages()[j].1.msg.id,
            a2,
            o2,
        ),
    ensures
        a2.len() > 0,
        a2[0] == ActionView::Send(
            pre.bot_messages()[j].1.msg.channel_id,
            pre.bot_messages()[j].1.msg.content@,
        ),
{
    pre.lemma_memories_ok();
    let b = pre.bot_messages();
    let ms = messages_of(b);
    assert forall|l: int| j < l < ms.len() implies !(#[trigger] ms[l]).author.bot by {
        assert(ms[l] == b[l].1.msg);
    }
    lemma_last_bot_message(ms, pre.last_cleaned(), j);
    let d = b[j].1.msg;
    let k = (d.id, d.channel_id);
    assert(b[j].0 == msg_key(b[j].1));
    lemma_key_index(b, k, j);
}

/// Filing a file under a keyword appends it to that keyword's files (a new
/// keyword gets a list of its own) and leaves every other keyword alone.
pub proof fn law_add_meme(idx: Seq<MemeEntryView>, kw: Seq<char>, path: Seq<char>, other: Seq<char>)
    requires
        distinct_kws(idx),
    ensures
        distinct_kws(add_meme(idx, kw, path)),
        lookup(add_meme(idx, kw, path), kw) == Some(
            match lookup(idx, kw) {
                Some(files) => files.push(path),
                None => seq![path],
            },
        ),
        other != kw ==> lookup(add_meme(idx, kw, path), other) == lookup(idx, other),
{
    let t = add_meme(idx, kw, path);
    if has_kw(idx, kw) {
        let i = kw_index(idx, kw);
        assert(files_kw_at(idx, kw, i));
        assert forall|a: int| 0 <= a < t.len() implies #[trigger] t[a].0 == idx[a].0 by {}
        assert(files_kw_at(t, kw, i));
        let ti = kw_index(t, kw);
        assert(files_kw_at(t, kw, ti));
        if has_kw(idx, other) {
            let oi = kw_index(idx, other);
            assert(files_kw_at(idx, other, oi));
            assert(files_kw_at(t, other, oi));
            let toi = kw_index(t, other);
            assert(files_kw_at(t, other, toi));
        }
        if has_kw(t, other) {
            let toi = kw_index(t, other);
            assert(files_kw_at(idx, other, toi));
        }
    } else {
        assert(files_kw_at(t, kw, idx.len() as int));
        let ti = kw_index(t, kw);
        assert(files_kw_at(t, kw, ti));
        if ti < idx.len() {
            assert(files_kw_at(idx, kw, ti));
        }
        if has_kw(idx, other) {
            let oi = kw_index(idx, other);
            assert(files_kw_at(idx, other, oi));
            assert(files_kw_at(t, other, oi));
            let toi = kw_index(t, other);
            assert(files_kw_at(t, other, toi));
        }
        if has_kw(t, other) && other != kw {
            let toi = kw_index(t, other);
            assert(files_kw_at(idx, other, toi));
        }
        assert forall|a: int, b: int| 0 <= a < t.len() && 0 <= b < t.len() && a != b implies t[a].0
            != t[b].0 by {
            if a == idx.len() {
                assert(!files_kw_at(idx, kw, b));
            }
            if b == idx.len() {
                assert(!files_kw_at(idx, kw, a));
            }
        }
    }
}

/// The bot never remembers more than `MESSAGE_MEMORY` messages of each kind.
pub proof fn law_memory_bounded(st: BotState)
    requires
        st.wf(),
    ensures
        st.messages().len() <= MESSAGE_MEMORY,
        st.bot_messages().len() <= MESSAGE_MEMORY,
{
    st.lemma_memories_ok();
}

/// The deletion of a remembered message of a person always ends with a
/// report of its text in its channel, and its author is then remembered as a
/// recent deleter.
pub proof fn law_deletion_reported(
    pre: BotState,
    post: BotState,
    channel_id: u64,
    message_id: u64,
    a: Seq<ActionView>,
    o: crate::bot::Outcome,
)
    requires
        delete_reaction(pre, post, channel_id, message_id, a, o),
        human_message(pre.messages(), (message_id, channel_id)) is Some,
    ensures
        ({
            let m = human_message(pre.messages(), (message_id, channel_id))->0;
            &&& a.len() > 0
            &&& a.last() == ActionView::Send(m.channel_id, deleted_text(m.author.id, m.content@))
            &&& post.deleters().contains_key(author_key(m))
        }),
{
}

/// Only trusted users may clean up or spin the roulette: anybody else is
/// told off and nothing else happens.
pub proof fn law_untrusted_told_off(
    pre: BotState,
    post: BotState,
    m: Message,
    a: Seq<ActionView>,
    o: crate::bot::Outcome,
)
    requires
        starts_with(m.content@, "!skynet"@),
        command_of(m.content@) == Command::CleanMe || command_of(m.content@) == Command::Roulette,
        !is_hyper(pre.hypers(), m.author.id),
        create_reaction(pre, post, m, a, o),
    ensures
        same_memory(pre, post),
        a == seq![ActionView::Send(m.channel_id, no_power_text(m.author.id))],
        o == crate::bot::Outcome::Continue,
{
    assert(command_reaction(pre, post, m, a, o));
}

/// Filing a list of files under a keyword appends them all, in order, to the
/// files already there (a new keyword gets exactly the list), and leaves every
/// other keyword alone; so after loading, a keyword holds as many files as
/// were filed under it.
pub proof fn law_add_memes(idx: Seq<MemeEntryView>, kw: Seq<char>, paths: Seq<Seq<char>>, other: Seq<char>)
    requires
        distinct_kws(idx),
    ensures
        distinct_kws(add_memes(idx, kw, paths)),
        paths.len() > 0 ==> lookup(add_memes(idx, kw, paths), kw) == Some(
            match lookup(idx, kw) {
                Some(files) => files + paths,
                None => paths,
            },
        ),
        paths.len() == 0 ==> add_memes(idx, kw, paths) == idx,
        other != kw ==> lookup(add_memes(idx, kw, paths), other) == lookup(idx, other),
    decreases paths.len(),
{
    if paths.len() > 0 {
        let before = paths.drop_last();
        law_add_memes(idx, kw, before, other);
        let mid = add_memes(idx, kw, before);
        law_add_meme(mid, kw, paths.last(), other);
        let base = match lookup(idx, kw) {
            Some(files) => files,
            None => Seq::<Seq<char>>::empty(),
        };
        if before.len() > 0 {
            assert(lookup(mid, kw) == Some(base + before)) by {
                if lookup(idx, kw) is None {
                    assert(base + before =~= before);
                }
            }
        }
        assert((base + before).push(paths.last()) =~= base + paths);
        if lookup(idx, kw) is None {
            assert(base + paths =~= paths);
            if before.len() == 0 {
                assert(seq![paths.last()] =~= paths);
            } else {
                assert(before.push(paths.last()) =~= paths);
            }
        } else if before.len() == 0 {
            assert(base.push(paths.last()) =~= base + paths);
        }
    }
}


/// The chat rules, read character by character: the "09" answer goes only to
/// a text whose first two characters are '0' and '9', and every such text
/// gets it unless its upper-case form begins with the order to the bot; the
/// order to the bot is answered exactly when the upper-case form begins with
/// it; a text that matches none of the three rules gets no answer.
pub proof fn law_chat_rules(c: Seq<char>, u: Seq<char>, l: Seq<char>, from_bot: bool)
    ensures
        reply_for(c, u, l, from_bot) == Some("HADİ SİK ONU GÖTÜNDEN"@) ==> c.len() >= 2 && c[0]
            == '0' && c[1] == '9',
        c.len() >= 2 && c[0] == '0' && c[1] == '9' && !(u.len() >= 18 && u.subrange(0, 18)
            == "YAPAY ZEKA DEVREYE"@) ==> reply_for(c, u, l, from_bot) == Some(
            "HADİ SİK ONU GÖTÜNDEN"@,
        ),
        reply_for(c, u, l, from_bot) == Some("tamam abi"@) <==> (u.len() >= 18 && u.subrange(0, 18)
            == "YAPAY ZEKA DEVREYE"@),
        reply_for(c, u, l, from_bot) == Some("Evet ironik bir malsın"@) ==> !from_bot,
        !(u.len() >= 18 && u.subrange(0, 18) == "YAPAY ZEKA DEVREYE"@) && !(c.len() >= 2 && c[0]
            == '0' && c[1] == '9') && (from_bot || (forall|i: int|
            0 <= i && i + 5 <= l.len() ==> #[trigger] l.subrange(i, i + 5) != "ironi"@) && (forall|
            i: int|
            0 <= i && i + 5 <= u.len() ==> #[trigger] u.subrange(i, i + 5) != "IRONI"@)) ==> reply_for(
            c,
            u,
            l,
            from_bot,
        ) is None,
{
    reveal_strlit("HADİ SİK ONU GÖTÜNDEN");
    reveal_strlit("tamam abi");
    reveal_strlit("Evet ironik bir malsın");
    reveal_strlit("YAPAY ZEKA DEVREYE");
    reveal_strlit("09");
    reveal_strlit("ironi");
    reveal_strlit("IRONI");
    let hadi = "HADİ SİK ONU GÖTÜNDEN"@;
    let tamam = "tamam abi"@;
    let evet = "Evet ironik bir malsın"@;
    assert(hadi.len() != tamam.len());
    assert(hadi[0] != evet[0]);
    assert(tamam.len() != evet.len());
    assert(hadi != tamam);
    assert(hadi != evet);
    assert(tamam != evet);
    if c.len() >= 2 {
        if c[0] == '0' && c[1] == '9' {
            assert(c.subrange(0, 2) =~= "09"@);
        }
        if c.subrange(0, 2) == "09"@ {
            assert(c.subrange(0, 2)[0] == c[0]);
            assert(c.subrange(0, 2)[1] == c[1]);
        }
    }
    if occurs_in(l, "ironi"@) {
        let i = choose|i: int| occurs_at(l, "ironi"@, i);
        assert(l.subrange(i, i + 5) == "ironi"@);
    }
    if occurs_in(u, "IRONI"@) {
        let i = choose|i: int| occurs_at(u, "IRONI"@, i);
        assert(u.subrange(i, i + 5) == "IRONI"@);
    }
}

/// A person's chat message is answered with the "09" answer only when its
/// first two characters are '0' and '9'.
pub proof fn law_09_answer_needs_09_start(
    pre: BotState,
    post: BotState,
    m: Message,
    a: Seq<ActionView>,
    o: Outcome,
)
    requires
        !starts_with(m.content@, "!skynet"@),
        create_reaction(pre, post, m, a, o),
        a.contains(ActionView::Send(m.channel_id, "HADİ SİK ONU GÖTÜNDEN"@)),
    ensures
        m.content@.len() >= 2,
        m.content@[0] == '0',
        m.content@[1] == '9',
{
    assert(chat_reaction(pre, post, m, a, o));
    let k = choose|k: int| 0 <= k < a.len() && a[k] == ActionView::Send(m.channel_id, "HADİ SİK ONU GÖTÜNDEN"@);
    assert(chat_reply(m.content@, m.author.bot) is Some);
    law_chat_rules(
        m.content@,
        crate::text::uppercase_of(m.content@),
        crate::text::lowercase_of(m.content@),
        m.author.bot,
    );
}

/// An edit report is due exactly when the remembered message is a person's
/// and the new text differs from the old one, whatever the difference.
pub proof fn law_edit_report(old_m: Message, new_m: Message)
    ensures
        edit_report(old_m, new_m).len() > 0 <==> (!old_m.author.bot && old_m.content@
            != new_m.content@),
        edit_report(old_m, new_m).len() <= 1,
{
}

/// The edit of a remembered message is reported, once and with the old text,
/// exactly when its author is a person and the fetched text differs from the
/// remembered one.
pub proof fn law_edit_reported_iff_changed(
    pre: BotState,
    post: BotState,
    id: u64,
    channel_id: u64,
    fetched: Message,
    a: Seq<ActionView>,
    o: Outcome,
)
    requires
        holds_key(pre.messages(), (id, channel_id)),
        update_reaction(pre, post, id, channel_id, Some(fetched), a, o),
    ensures
        ({
            let om = pre.messages()[key_index(pre.messages(), (id, channel_id))].1.msg;
            &&& a.len() > 0 <==> (!om.author.bot && om.content@ != fetched.content@)
            &&& a.len() > 0 ==> a == seq![
                ActionView::Send(om.channel_id, edited_text(om.author.id, om.content@)),
            ]
        }),
{
}

/// A deleted bot message is posted again only when it is the one the last
/// clean-up deleted: the deletion of any other message re-posts nothing, so
/// it gives no action at all for a message of a bot (or an unknown one), and
/// for a person's message only its report, after warnings if any.
pub proof fn law_only_last_cleaned_resent(
    pre: BotState,
    post: BotState,
    channel_id: u64,
    message_id: u64,
    a: Seq<ActionView>,
    o: Outcome,
)
    requires
        pre.wf(),
        delete_reaction(pre, post, channel_id, message_id, a, o),
        message_id != pre.last_cleaned(),
    ensures
        human_message(pre.messages(), (message_id, channel_id)) is None ==> a.len() == 0,
        human_message(pre.messages(), (message_id, channel_id)) matches Some(m) ==> {
            let report = seq![ActionView::Send(m.channel_id, deleted_text(m.author.id, m.content@))];
            a == report || a == warnings(m.author.id) + report
        },
{
    pre.lemma_memories_ok();
    let b = pre.bot_messages();
    let k = (message_id, channel_id);
    if holds_key(b, k) {
        let i = key_index(b, k);
        assert(has_key_at(b, k, i));
        assert(b[i].0 == msg_key(b[i].1));
    }
    assert(crate::bot::resend_actions(b, k, pre.last_cleaned()) =~= Seq::<ActionView>::empty());
    if human_message(pre.messages(), k) is Some {
        let m = human_message(pre.messages(), k)->0;
        let report = seq![ActionView::Send(m.channel_id, deleted_text(m.author.id, m.content@))];
        assert(Seq::<ActionView>::empty() + report =~= report);
        assert(Seq::<ActionView>::empty() + warnings(m.author.id) + report =~= warnings(m.author.id)
            + report);
    }
}

/// The roulette's candidates are the remembered authors: every author of a
/// message has a candidate with its id and discriminator, and every
/// candidate is the author of some message.
pub proof fn law_roulette_candidates(ms: Seq<Message>)
    ensures
        forall|i: int|
            0 <= i < ms.len() ==> exists|j: int|
                0 <= j < distinct_authors(ms).len() && (#[trigger] distinct_authors(ms)[j]).id
                    == (#[trigger] ms[i]).author.id && distinct_authors(ms)[j].discriminator
                    == ms[i].author.discriminator,
        forall|j: int|
            0 <= j < distinct_authors(ms).len() ==> exists|i: int|
                0 <= i < ms.len() && #[trigger] distinct_authors(ms)[j] == (#[trigger] ms[i]).author,
    decreases ms.len(),
{
    if ms.len() > 0 {
        let p = ms.drop_last();
        law_roulette_candidates(p);
        let before = distinct_authors(p);
        let d = distinct_authors(ms);
        let u = ms.last().author;
        assert forall|i: int| 0 <= i < ms.len() implies exists|j: int|
            0 <= j < d.len() && (#[trigger] d[j]).id == (#[trigger] ms[i]).author.id
                && d[j].discriminator == ms[i].author.discriminator by {
            if i < ms.len() - 1 {
                assert(ms[i] == p[i]);
                let j = choose|j: int|
                    0 <= j < before.len() && (#[trigger] before[j]).id == (#[trigger] p[i]).author.id
                        && before[j].discriminator == p[i].author.discriminator;
                assert(d[j] == before[j]);
            } else if exists|j: int|
                0 <= j < before.len() && (#[trigger] before[j]).id == u.id && before[j].discriminator
                    == u.discriminator {
                let j = choose|j: int|
                    0 <= j < before.len() && (#[trigger] before[j]).id == u.id
                        && before[j].discriminator == u.discriminator;
                assert(d[j] == before[j]);
            } else {
                assert(d[before.len() as int] == u);
            }
        }
        assert forall|j: int| 0 <= j < d.len() implies exists|i: int|
            0 <= i < ms.len() && #[trigger] d[j] == (#[trigger] ms[i]).author by {
            if j < before.len() {
                assert(d[j] == before[j]);
                let i = choose|i: int| 0 <= i < p.len() && #[trigger] before[j] == (#[trigger] p[i]).author;
                assert(p[i] == ms[i]);
            } else {
                assert(d[j] == ms[ms.len() - 1].author);
            }
        }
    }
}

/// A roulette spun by a trusted user while some message of a person is
/// remembered goes on, and picks the author of one of the remembered messages.
pub proof fn law_roulette_picks_remembered_author(
    pre: BotState,
    post: BotState,
    m: Message,
    a: Seq<ActionView>,
    o: Outcome,
)
    requires
        is_hyper(pre.hypers(), m.author.id),
        pre.messages().len() > 0,
        roulette_reaction(pre, post, m, a, o),
    ensures
        o == Outcome::Continue,
        exists|i: int|
            0 <= i < pre.messages().len() && a == roulette_actions(
                m.channel_id,
                (#[trigger] pre.messages()[i]).1.msg.author.id,
            ),
{
    let ms = messages_of(pre.messages());
    law_roulette_candidates(ms);
    let cands = distinct_authors(ms);
    assert(ms[0] == ms[0]);
    assert(cands.len() > 0);
    let (v, r) = choose|v: Vec<usize>, r: Vec<usize>|
        #[trigger] crate::chance::shuffled_into(v, r) && v@ == Seq::new(
            cands.len(),
            |k: int| k as usize,
        ) && r@.len() > 0 && r@.last() < cands.len() && a == roulette_actions(
            m.channel_id,
            cands[r@.last() as int].id,
        );
    let j = r@.last() as int;
    let i = choose|i: int| 0 <= i < ms.len() && #[trigger] cands[j] == (#[trigger] ms[i]).author;
    assert(ms[i] == pre.messages()[i].1.msg);
}

/// A clean-up deletes exactly the bot messages: each message written by a
/// bot, whatever its text, is deleted, and every deletion is of one of them.
pub proof fn law_cleanup_deletes_bot_messages(ms: Seq<Message>)
    ensures
        forall|i: int|
            0 <= i < ms.len() && (#[trigger] ms[i]).author.bot ==> cleanup_actions(ms).contains(
                ActionView::Delete(ms[i].channel_id, ms[i].id),
            ),
        forall|j: int|
            0 <= j < cleanup_actions(ms).len() ==> exists|i: int|
                0 <= i < ms.len() && (#[trigger] ms[i]).author.bot && #[trigger] cleanup_actions(ms)[j]
                    == ActionView::Delete(ms[i].channel_id, ms[i].id),
    decreases ms.len(),
{
    if ms.len() > 0 {
        let p = ms.drop_last();
        law_cleanup_deletes_bot_messages(p);
        let before = cleanup_actions(p);
        let c = cleanup_actions(ms);
        assert forall|i: int| 0 <= i < ms.len() && (#[trigger] ms[i]).author.bot implies c.contains(
            ActionView::Delete(ms[i].channel_id, ms[i].id),
        ) by {
            if i < ms.len() - 1 {
                assert(ms[i] == p[i]);
                assert(before.contains(ActionView::Delete(p[i].channel_id, p[i].id)));
                let k = choose|k: int| 0 <= k < before.len() && before[k] == ActionView::Delete(p[i].channel_id, p[i].id);
                assert(c[k] == before[k]);
            } else {
                assert(c[before.len() as int] == ActionView::Delete(ms[i].channel_id, ms[i].id));
            }
        }
        assert forall|j: int| 0 <= j < c.len() implies exists|i: int|
            0 <= i < ms.len() && (#[trigger] ms[i]).author.bot && #[trigger] c[j]
                == ActionView::Delete(ms[i].channel_id, ms[i].id) by {
            if j < before.len() {
                assert(c[j] == before[j]);
                let i = choose|i: int|
                    0 <= i < p.len() && (#[trigger] p[i]).author.bot && #[trigger] before[j]
                        == ActionView::Delete(p[i].channel_id, p[i].id);
                assert(p[i] == ms[i]);
            } else {
                assert(ms[ms.len() - 1] == ms[ms.len() - 1]);
            }
        }
    }
}

/// A clean-up by a trusted user deletes every remembered bot message.
pub proof fn law_cleanup_deletes_every_bot_message(
    pre: BotState,
    post: BotState,
    m: Message,
    a: Seq<ActionView>,
    o: Outcome,
    i: int,
)
    requires
        is_hyper(pre.hypers(), m.author.id),
        cleanup_reaction(pre, post, m, a, o),
        0 <= i < pre.bot_messages().len(),
        pre.bot_messages()[i].1.msg.author.bot,
    ensures
        a.contains(
            ActionView::Delete(pre.bot_messages()[i].1.msg.channel_id, pre.bot_messages()[i].1.msg.id),
        ),
{
    let ms = messages_of(pre.bot_messages());
    law_cleanup_deletes_bot_messages(ms);
    assert(ms[i] == pre.bot_messages()[i].1.msg);
}

} // verus!
