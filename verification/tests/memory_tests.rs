use skynet::model::{Message, SkyNetMsg, SkyNetUsr, User};
use skynet::store::MessageMemory;
use skynet::memes::{load, MemeFolder, MemeIndex};

fn user(id: u64, bot: bool) -> User {
    User { id, name: format!("u{}", id), discriminator: 1, bot }
}

fn message(id: u64, channel_id: u64, content: &str, author: User) -> Message {
    Message { id, channel_id, content: content.to_string(), author }
}

#[test]
fn default_message_is_placeholder() {
    let d = SkyNetMsg::default();
    assert_eq!(d.msg.id, 0);
    assert_eq!(d.msg.channel_id, 0);
    assert_eq!(d.msg.content, "");
    assert_eq!(d.msg.author.id, 123);
    assert_eq!(d.msg.author.name, "");
    assert_eq!(d.msg.author.discriminator, 1);
    assert!(!d.msg.author.bot);
    assert!(d.history.is_empty());
}

#[test]
fn messages_are_the_same_by_ids() {
    let a = SkyNetMsg::fresh(message(1, 2, "a", user(5, false)));
    let b = SkyNetMsg::fresh(message(1, 2, "b", user(6, true)));
    let c = SkyNetMsg::fresh(message(1, 3, "a", user(5, false)));
    assert!(a == b);
    assert!(a != c);
    assert_eq!(a.key(), (1, 2));
}

#[test]
fn users_are_the_same_by_id_and_discriminator() {
    let a = SkyNetUsr { usr: User { id: 9, name: "x".to_string(), discriminator: 4, bot: false } };
    let b = SkyNetUsr { usr: User { id: 9, name: "y".to_string(), discriminator: 4, bot: true } };
    let c = SkyNetUsr { usr: User { id: 9, name: "x".to_string(), discriminator: 5, bot: false } };
    assert!(a == b);
    assert!(a != c);
    assert_eq!(a.key(), (9, 4));
}

#[test]
fn remembering_keeps_the_first_version() {
    let mut c = MessageMemory::new(4);
    c.remember(SkyNetMsg::fresh(message(1, 1, "first", user(5, false))));
    c.remember(SkyNetMsg::fresh(message(1, 1, "second", user(5, false))));
    let ms = c.recent_messages();
    assert_eq!(ms.len(), 1);
    assert_eq!(ms[0].content, "first");
}

#[test]
fn least_recently_used_is_evicted() {
    let mut c = MessageMemory::new(2);
    c.remember(SkyNetMsg::fresh(message(1, 1, "a", user(5, false))));
    c.remember(SkyNetMsg::fresh(message(2, 1, "b", user(5, false))));
    assert_eq!(c.keys(), vec![(2, 1), (1, 1)]);
    // Looking up message 1 makes it the most recently used one.
    assert_eq!(c.look_up((1, 1)).map(|m| m.content), Some("a".to_string()));
    assert_eq!(c.keys(), vec![(1, 1), (2, 1)]);
    c.remember(SkyNetMsg::fresh(message(3, 1, "c", user(5, false))));
    assert_eq!(c.keys(), vec![(3, 1), (1, 1)]);
    assert!(c.look_up((2, 1)).is_none());
}

#[test]
fn reading_in_order_keeps_the_order() {
    let mut c = MessageMemory::new(8);
    for i in 1..=5u64 {
        c.remember(SkyNetMsg::fresh(message(i, 1, &format!("m{}", i), user(5, false))));
    }
    let before = c.keys();
    let ms = c.recent_messages();
    let ids: Vec<u64> = ms.iter().map(|m| m.id).collect();
    assert_eq!(ids, vec![5, 4, 3, 2, 1]);
    assert_eq!(c.keys(), before);
}

#[test]
fn taking_forgets() {
    let mut c = MessageMemory::new(3);
    c.remember(SkyNetMsg::fresh(message(1, 1, "a", user(5, false))));
    c.remember(SkyNetMsg::fresh(message(2, 1, "b", user(5, false))));
    let gone = c.take((1, 1)).unwrap();
    assert_eq!(gone.msg.content, "a");
    assert!(c.take((1, 1)).is_none());
    assert_eq!(c.keys(), vec![(2, 1)]);
}

#[test]
fn memes_are_filed_by_folder() {
    let folders = vec![
        MemeFolder { keyword: Some("kedi".to_string()), files: vec!["memes/kedi/a.png".to_string(), "memes/kedi/b.png".to_string()] },
        MemeFolder { keyword: None, files: vec!["memes/bad/x.png".to_string()] },
        MemeFolder { keyword: Some("kopek".to_string()), files: vec![] },
        MemeFolder { keyword: Some("kedi".to_string()), files: vec!["memes/kedi/c.png".to_string()] },
    ];
    let idx = load(MemeIndex::new(), folders);
    assert_eq!(
        idx.get(&"kedi".to_string()).cloned(),
        Some(vec!["memes/kedi/a.png".to_string(), "memes/kedi/b.png".to_string(), "memes/kedi/c.png".to_string()])
    );
    assert!(idx.get(&"kopek".to_string()).is_none());
    assert!(idx.get(&"bad".to_string()).is_none());
}

#[test]
fn adding_a_meme_appends() {
    let mut idx = MemeIndex::new();
    idx.add("a".to_string(), "1".to_string());
    idx.add("b".to_string(), "2".to_string());
    idx.add("a".to_string(), "3".to_string());
    assert_eq!(idx.get(&"a".to_string()).cloned(), Some(vec!["1".to_string(), "3".to_string()]));
    assert_eq!(idx.get(&"b".to_string()).cloned(), Some(vec!["2".to_string()]));
}

#[test]
fn forgetting_undoes_remembering() {
    let mut c = MessageMemory::new(4);
    c.remember(SkyNetMsg::fresh(message(1, 1, "a", user(5, false))));
    c.remember(SkyNetMsg::fresh(message(2, 1, "b", user(5, false))));
    let before = c.keys();
    c.remember(SkyNetMsg::fresh(message(3, 1, "c", user(5, false))));
    assert_eq!(c.keys()[0], (3, 1));
    let back = c.take((3, 1)).unwrap();
    assert_eq!(back.msg.content, "c");
    assert_eq!(c.keys(), before);
}

#[test]
fn cloning_copies_the_history() {
    let old = SkyNetMsg::fresh(message(1, 1, "eski", user(5, false)));
    let mut newer = SkyNetMsg::fresh(message(1, 1, "yeni", user(5, false)));
    newer.history.push(old);
    let copy = newer.clone();
    assert_eq!(copy.msg.content, "yeni");
    assert_eq!(copy.history.len(), 1);
    assert_eq!(copy.history[0].msg.content, "eski");
}

#[test]
fn cloning_copies_nested_histories() {
    let oldest = SkyNetMsg::fresh(message(1, 1, "ilk", user(5, false)));
    let mut old = SkyNetMsg::fresh(message(1, 1, "eski", user(5, false)));
    old.history.push(oldest);
    let mut newer = SkyNetMsg::fresh(message(1, 1, "yeni", user(5, false)));
    newer.history.push(old);
    let copy = newer.copy();
    assert_eq!(copy.history.len(), 1);
    assert_eq!(copy.history[0].history.len(), 1);
    assert_eq!(copy.history[0].history[0].msg.content, "ilk");
    assert_eq!(copy.history[0].history[0].history.len(), 0);
}

#[test]
fn loading_keeps_every_file() {
    let folders = vec![
        MemeFolder { keyword: Some("a".to_string()), files: vec!["1".to_string(), "2".to_string(), "3".to_string()] },
        MemeFolder { keyword: Some("b".to_string()), files: vec!["4".to_string()] },
    ];
    let mut start = MemeIndex::new();
    start.add("a".to_string(), "0".to_string());
    let idx = load(start, folders);
    assert_eq!(idx.get(&"a".to_string()).map(|v| v.len()), Some(4));
    assert_eq!(idx.get(&"b".to_string()).cloned(), Some(vec!["4".to_string()]));
}
