use skynet::bot::{deletion_actions, meme_pick_actions, roulette_pick_actions, Abort, Action, BotState, Event, HyperUsers, Outcome, Reaction};
use skynet::memes::{load, MemeFolder, MemeIndex};
use skynet::model::{Message, SkyNetUsr, User};

const BOSS: u64 = 548224010916331520;

fn user(id: u64, bot: bool) -> User {
    User { id, name: format!("u{}", id), discriminator: 1, bot }
}

fn message(id: u64, channel_id: u64, content: &str, author: User) -> Message {
    Message { id, channel_id, content: content.to_string(), author }
}

fn state() -> BotState {
    let hypers = HyperUsers { hypers: vec!["548224010916331520".to_string(), "243377404125380608".to_string()] };
    let folders = vec![
        MemeFolder { keyword: Some("kedi".to_string()), files: vec!["memes/kedi/a.png".to_string(), "memes/kedi/b.png".to_string()] },
    ];
    BotState::new(hypers, load(MemeIndex::new(), folders))
}

fn create(st: &mut BotState, m: Message) -> Reaction {
    st.handle(Event::MessageCreate(m))
}

fn shown(r: &Reaction) -> String {
    format!("{:?}", r.actions)
}

#[test]
fn help_and_unknown_commands() {
    let mut st = state();
    let r = create(&mut st, message(1, 10, "!skynet help", user(5, false)));
    assert_eq!(shown(&r), "[Send { channel_id: 10, text: \"You can use stalk command\" }]");
    assert_eq!(r.outcome, Outcome::Continue);
    let r = create(&mut st, message(2, 10, "!skynet dance", user(5, false)));
    assert_eq!(shown(&r), "[Send { channel_id: 10, text: \"Unknown command !skynet dance, type !skynet help to see help\" }]");
    let r = create(&mut st, message(3, 10, "!skynet stalk @x", user(5, false)));
    assert!(r.actions.is_empty());
}

#[test]
fn say_replaces_the_command() {
    let mut st = state();
    let r = create(&mut st, message(7, 10, "!skynet say selam millet", user(5, false)));
    assert_eq!(
        shown(&r),
        "[Delete { channel_id: 10, message_id: 7 }, Send { channel_id: 10, text: \"selam millet\" }]"
    );
    assert_eq!(r.outcome, Outcome::Continue);
    let r = create(&mut st, message(8, 10, "!skynet say", user(5, false)));
    assert_eq!(shown(&r), "[Delete { channel_id: 10, message_id: 8 }]");
    assert_eq!(r.outcome, Outcome::Abort(Abort::CommandTextCut));
}

#[test]
fn chat_messages_are_answered_and_remembered() {
    let mut st = state();
    let r = create(&mut st, message(1, 10, "yapay zeka devreye!", user(5, false)));
    assert_eq!(shown(&r), "[Send { channel_id: 10, text: \"tamam abi\" }]");
    let r = create(&mut st, message(2, 10, "ironi", user(6, true)));
    assert!(r.actions.is_empty());
    // The person's message is remembered: deleting it reports it.
    let r = st.handle(Event::MessageDelete { channel_id: 10, message_id: 1 });
    assert_eq!(shown(&r), "[Send { channel_id: 10, text: \"<@!5> dedi ki:\\nyapay zeka devreye!\" }]");
}

#[test]
fn commands_are_not_remembered() {
    let mut st = state();
    create(&mut st, message(1, 10, "!skynet help", user(5, false)));
    let r = st.handle(Event::MessageDelete { channel_id: 10, message_id: 1 });
    assert!(r.actions.is_empty());
}

#[test]
fn repeated_deleters_are_warned() {
    let mut st = state();
    create(&mut st, message(1, 10, "bir", user(5, false)));
    create(&mut st, message(2, 10, "iki", user(5, false)));
    let r = st.handle(Event::MessageDelete { channel_id: 10, message_id: 1 });
    assert_eq!(r.actions.len(), 1);
    let r = st.handle(Event::MessageDelete { channel_id: 10, message_id: 2 });
    assert_eq!(r.actions.len(), 12);
    assert!(matches!(r.actions[0], Action::OpenPrivateChannel { user_id: 5 }));
    for i in 1..11 {
        assert!(matches!(&r.actions[i], Action::SendPrivate { text } if text == "Silme Hayvan!"));
    }
    assert!(matches!(&r.actions[11], Action::Send { channel_id: 10, text } if text == "<@!5> dedi ki:\niki"));
}

#[test]
fn unknown_deletions_are_ignored() {
    let mut st = state();
    let r = st.handle(Event::MessageDelete { channel_id: 10, message_id: 99 });
    assert!(r.actions.is_empty());
    assert_eq!(r.outcome, Outcome::Continue);
}

#[test]
fn edits_are_reported_with_the_old_text() {
    let mut st = state();
    create(&mut st, message(1, 10, "eski", user(5, false)));
    let r = st.handle(Event::MessageUpdate { id: 1, channel_id: 10, fetched: Some(message(1, 10, "yeni", user(5, false))) });
    assert_eq!(shown(&r), "[Send { channel_id: 10, text: \"<@!5> editleyip dedi ki:\\neski\\neski\" }]");
    // The new version is remembered now.
    let r = st.handle(Event::MessageDelete { channel_id: 10, message_id: 1 });
    assert_eq!(shown(&r), "[Send { channel_id: 10, text: \"<@!5> dedi ki:\\nyeni\" }]");
}

#[test]
fn unchanged_edits_are_quiet() {
    let mut st = state();
    create(&mut st, message(1, 10, "ayni", user(5, false)));
    let r = st.handle(Event::MessageUpdate { id: 1, channel_id: 10, fetched: Some(message(1, 10, "ayni", user(5, false))) });
    assert!(r.actions.is_empty());
    let r = st.handle(Event::MessageUpdate { id: 9, channel_id: 10, fetched: None });
    assert!(r.actions.is_empty());
    assert_eq!(r.outcome, Outcome::Continue);
}

#[test]
fn failed_refetch_gives_up() {
    let mut st = state();
    create(&mut st, message(1, 10, "eski", user(5, false)));
    let r = st.handle(Event::MessageUpdate { id: 1, channel_id: 10, fetched: None });
    assert!(r.actions.is_empty());
    assert_eq!(r.outcome, Outcome::Abort(Abort::RefetchFailed));
    // The message was forgotten before giving up.
    let r = st.handle(Event::MessageDelete { channel_id: 10, message_id: 1 });
    assert!(r.actions.is_empty());
}

#[test]
fn cleanup_needs_a_trusted_user() {
    let mut st = state();
    let r = create(&mut st, message(1, 10, "!skynet cleanmebeybi", user(5, false)));
    assert_eq!(shown(&r), "[Send { channel_id: 10, text: \"You have no power here <@!5> ( ︶︿︶)_╭∩╮\" }]");
}

#[test]
fn cleanup_deletes_bot_messages_and_resends_the_last() {
    let mut st = state();
    create(&mut st, message(1, 10, "bip", user(6, true)));
    create(&mut st, message(2, 11, "bop", user(6, true)));
    let r = create(&mut st, message(3, 10, "!skynet cleanmebeybi", user(BOSS, false)));
    assert_eq!(
        shown(&r),
        "[Delete { channel_id: 11, message_id: 2 }, Delete { channel_id: 10, message_id: 1 }]"
    );
    // The last one deleted comes back when Discord reports its deletion.
    let r = st.handle(Event::MessageDelete { channel_id: 11, message_id: 2 });
    assert!(r.actions.is_empty());
    let r = st.handle(Event::MessageDelete { channel_id: 10, message_id: 1 });
    assert_eq!(shown(&r), "[Send { channel_id: 10, text: \"bip\" }]");
}

#[test]
fn roulette_picks_a_remembered_author() {
    let mut st = state();
    let r = create(&mut st, message(1, 10, "!skynet rulet", user(BOSS, false)));
    assert!(r.actions.is_empty());
    assert_eq!(r.outcome, Outcome::Abort(Abort::NoCandidates));
    let mut st = state();
    create(&mut st, message(1, 10, "a", user(5, false)));
    create(&mut st, message(2, 10, "b", user(6, false)));
    create(&mut st, message(3, 10, "c", user(5, false)));
    let r = create(&mut st, message(4, 10, "!skynet rulet", user(BOSS, false)));
    assert_eq!(r.outcome, Outcome::Continue);
    assert_eq!(r.actions.len(), 4);
    assert!(matches!(r.actions[0], Action::SelectServer));
    let lucky = match &r.actions[3] {
        Action::Deafen { user_id } => *user_id,
        _ => panic!("expected a deafening"),
    };
    assert!(lucky == 5 || lucky == 6);
    assert!(matches!(&r.actions[1], Action::Send { channel_id: 10, text } if *text == format!("Günün şanslısı sen seçildin <@!{}> ⊂(◉‿◉)つ", lucky)));
    assert!(matches!(&r.actions[2], Action::SetNickname { user_id, nickname } if *user_id == lucky && nickname == "EZIK"));
    let r = create(&mut st, message(5, 10, "!skynet rulet", user(5, false)));
    assert_eq!(shown(&r), "[Send { channel_id: 10, text: \"You have no power here <@!5> ( ︶︿︶)_╭∩╮\" }]");
}

#[test]
fn meme_uploads_a_filed_image() {
    let mut st = state();
    let r = create(&mut st, message(1, 10, "!skynet meme kedi", user(5, false)));
    assert_eq!(r.outcome, Outcome::Continue);
    assert_eq!(r.actions.len(), 2);
    assert!(matches!(r.actions[0], Action::Delete { channel_id: 10, message_id: 1 }));
    assert!(matches!(&r.actions[1], Action::SendFile { channel_id: 10, path } if path == "memes/kedi/a.png" || path == "memes/kedi/b.png"));
    let r = create(&mut st, message(2, 10, "!skynet meme kopek", user(5, false)));
    assert_eq!(r.outcome, Outcome::Abort(Abort::UnknownMemeKeyword));
    assert_eq!(shown(&r), "[Delete { channel_id: 10, message_id: 2 }]");
    let r = create(&mut st, message(3, 10, "!skynet meme", user(5, false)));
    assert_eq!(r.outcome, Outcome::Abort(Abort::CommandTextCut));
}

#[test]
fn closing_stops_and_other_events_are_ignored() {
    let mut st = state();
    let r = st.handle(Event::Closed);
    assert!(r.actions.is_empty());
    assert_eq!(r.outcome, Outcome::Stop);
    let r = st.handle(Event::Ignored);
    assert!(r.actions.is_empty());
    assert_eq!(r.outcome, Outcome::Continue);
}

#[test]
fn trusted_users_are_recognised() {
    let hypers = HyperUsers { hypers: vec!["548224010916331520".to_string()] };
    assert!(hypers.contains_user(BOSS));
    assert!(!hypers.contains_user(5));
}

#[test]
fn deletion_actions_follow_the_lookup() {
    let m = message(4, 10, "gitti", user(5, false));
    let plain = deletion_actions(Vec::new(), None, &m);
    assert_eq!(format!("{:?}", plain), "[Send { channel_id: 10, text: \"<@!5> dedi ki:\\ngitti\" }]");
    let warned = deletion_actions(Vec::new(), Some(SkyNetUsr { usr: user(5, false) }), &m);
    assert_eq!(warned.len(), 12);
    assert!(matches!(warned[0], Action::OpenPrivateChannel { user_id: 5 }));
    assert!(matches!(&warned[10], Action::SendPrivate { text } if text == "Silme Hayvan!"));
}

#[test]
fn picks_follow_the_draw() {
    let cands = vec![user(5, false), user(6, false), user(7, false)];
    let r = roulette_pick_actions(10, &cands, &vec![2, 0, 1]);
    assert_eq!(
        format!("{:?}", r),
        "[SelectServer, Send { channel_id: 10, text: \"Günün şanslısı sen seçildin <@!6> ⊂(◉‿◉)つ\" }, SetNickname { user_id: 6, nickname: \"EZIK\" }, Deafen { user_id: 6 }]"
    );
    let files = vec!["a.png".to_string(), "b.png".to_string()];
    let m = message(3, 10, "!skynet meme kedi", user(5, false));
    let r = meme_pick_actions(&m, &files, 1);
    assert_eq!(
        format!("{:?}", r),
        "[Delete { channel_id: 10, message_id: 3 }, SendFile { channel_id: 10, path: \"b.png\" }]"
    );
}

#[test]
fn reconnecting_keeps_the_memories() {
    let mut st = state();
    create(&mut st, message(1, 10, "kal", user(5, false)));
    st.reconnect(MemeIndex::new());
    let r = st.handle(Event::MessageDelete { channel_id: 10, message_id: 1 });
    assert_eq!(shown(&r), "[Send { channel_id: 10, text: \"<@!5> dedi ki:\\nkal\" }]");
    let r = create(&mut st, message(2, 10, "!skynet meme kedi", user(5, false)));
    assert_eq!(r.outcome, Outcome::Abort(Abort::UnknownMemeKeyword));
}
