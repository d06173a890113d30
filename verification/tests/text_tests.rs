use skynet::text::{decimal_string, has_infix, has_prefix};
use skynet::replies::{
    chat_reply_string, reply_to_chat, deleted_string, edited_string, lucky_string, mention_string, no_power_string,
    parse_command, text_after, unknown_string, Command,
};

#[test]
fn decimal_matches_to_string() {
    for n in [0u64, 7, 10, 42, 123, 1000, 548224010916331520, u64::MAX] {
        assert_eq!(decimal_string(n), n.to_string());
    }
}

#[test]
fn prefixes_and_infixes() {
    assert!(has_prefix("!skynet help", "!skynet"));
    assert!(has_prefix("abc", ""));
    assert!(!has_prefix("!sky", "!skynet"));
    assert!(!has_prefix("?skynet", "!skynet"));
    assert!(has_infix("bu çok ironik", "ironi"));
    assert!(has_infix("ironi", "ironi"));
    assert!(has_infix("x", ""));
    assert!(!has_infix("iron", "ironi"));
    assert!(!has_infix("IRONI", "ironi"));
}

#[test]
fn texts_are_rendered() {
    assert_eq!(mention_string(42), "<@!42>");
    assert_eq!(no_power_string(42), "You have no power here <@!42> ( ︶︿︶)_╭∩╮");
    assert_eq!(lucky_string(7), "Günün şanslısı sen seçildin <@!7> ⊂(◉‿◉)つ");
    assert_eq!(edited_string(3, "eski"), "<@!3> editleyip dedi ki:\neski\neski");
    assert_eq!(deleted_string(3, "silindi"), "<@!3> dedi ki:\nsilindi");
    assert_eq!(
        unknown_string("!skynet dance"),
        "Unknown command !skynet dance, type !skynet help to see help"
    );
}

#[test]
fn chat_replies() {
    assert_eq!(chat_reply_string("yapay zeka devreye gir", false), Some("tamam abi".to_string()));
    assert_eq!(chat_reply_string("Yapay Zeka Devreye", true), Some("tamam abi".to_string()));
    assert_eq!(chat_reply_string("09 olsun", false), Some("HADİ SİK ONU GÖTÜNDEN".to_string()));
    assert_eq!(chat_reply_string("bu bir IRONI", false), Some("Evet ironik bir malsın".to_string()));
    assert_eq!(chat_reply_string("ironi", true), None);
    assert_eq!(chat_reply_string("merhaba", false), None);
    assert_eq!(chat_reply_string("", false), None);
    // Only the upper-case mapping makes these match.
    assert_eq!(chat_reply_string("yapay zeka DEVREYE", false), Some("tamam abi".to_string()));
    assert_eq!(chat_reply_string("çok ıronik değil mi", false), Some("Evet ironik bir malsın".to_string()));
}

#[test]
fn commands_are_told_apart() {
    assert_eq!(parse_command("!skynet stalk @x"), Command::Stalk);
    assert_eq!(parse_command("!skynet cleanmebeybi"), Command::CleanMe);
    assert_eq!(parse_command("!skynet say hi"), Command::Say);
    assert_eq!(parse_command("!skynet rulet"), Command::Roulette);
    assert_eq!(parse_command("!skynet meme kedi"), Command::Meme);
    assert_eq!(parse_command("!skynet help"), Command::Help);
    assert_eq!(parse_command("!skynet"), Command::Unknown);
    assert_eq!(parse_command("!skynetsay"), Command::Unknown);
}

#[test]
fn text_after_a_command_word() {
    assert_eq!(text_after("!skynet say merhaba", 12), Some("merhaba".to_string()));
    assert_eq!(text_after("!skynet say ", 12), Some(String::new()));
    assert_eq!(text_after("!skynet sayx", 12), Some(String::new()));
    assert_eq!(text_after("!skynet say", 12), None);
    assert_eq!(text_after("!skynet sayé", 12), None);
    assert_eq!(text_after("!skynet meme kedi", 13), Some("kedi".to_string()));
    assert_eq!(text_after("héllo", 0), Some("héllo".to_string()));
}

#[test]
fn text_after_counts_bytes() {
    assert_eq!(text_after("é!", 2), Some("!".to_string()));
    assert_eq!(text_after("é!", 1), None);
    assert_eq!(text_after("é!", 3), Some(String::new()));
    assert_eq!(text_after("é!", 4), None);
    assert_eq!(text_after("ab", 1), Some("b".to_string()));
}

#[test]
fn reply_reads_the_given_case_forms() {
    // The forms handed in decide, whatever the message itself says.
    assert_eq!(reply_to_chat("x", "YAPAY ZEKA DEVREYE", "x", false), Some("tamam abi".to_string()));
    assert_eq!(reply_to_chat("yapay zeka devreye", "X", "x", false), None);
    assert_eq!(reply_to_chat("09", "09", "09", true), Some("HADİ SİK ONU GÖTÜNDEN".to_string()));
    assert_eq!(reply_to_chat("x", "X", "ironi", false), Some("Evet ironik bir malsın".to_string()));
    assert_eq!(reply_to_chat("x", "IRONI", "x", false), Some("Evet ironik bir malsın".to_string()));
    assert_eq!(reply_to_chat("x", "IRONI", "ironi", true), None);
}
