use feedback_ledger::keys::u64_to_dec;
use feedback_ledger::types::{Config, FeedbackChannel, MessageInfo, OpenMessage};
use feedback_ledger::workflow::{decide_message, is_participating, MessageKind};

fn config() -> Config {
    Config {
        client_id: 99,
        channels: vec![FeedbackChannel { guild: 1, channel: 2 }],
        min_msg_len: 20,
        permission_timeout_days: 5,
    }
}

fn message(author: u64, content: &str) -> MessageInfo {
    MessageInfo {
        author,
        id: 1000,
        guild: Some(1),
        channel: 2,
        content: String::from(content),
        attachment_urls: Vec::new(),
        is_inline_reply: false,
        referenced: None,
    }
}

#[test]
fn decimal_rendering() {
    assert_eq!(u64_to_dec(0).as_str(), "0");
    assert_eq!(u64_to_dec(7).as_str(), "7");
    assert_eq!(u64_to_dec(86400).as_str(), "86400");
    assert_eq!(u64_to_dec(u64::MAX).as_str(), "18446744073709551615");
}

#[test]
fn store_keys() {
    let ch = FeedbackChannel { guild: 10, channel: 20 };
    assert_eq!(ch.to_string().as_str(), "fc_10,20");
}

#[test]
fn open_message_from_message() {
    let msg = message(5, "hello");
    let e = OpenMessage::new(&msg);
    assert_eq!(e, OpenMessage { user: 5, msg: 1000 });
}

#[test]
fn participation_gate() {
    let cfg = config();
    assert!(is_participating(&cfg, 1, 2));
    assert!(!is_participating(&cfg, 1, 3));
    assert!(!is_participating(&cfg, 2, 2));
}

#[test]
fn out_of_scope_messages_are_ignored() {
    let cfg = config();
    let own = message(99, "https://example.com/x");
    assert!(decide_message(&cfg, &own).is_none());

    let mut no_guild = message(5, "https://example.com/x");
    no_guild.guild = None;
    assert!(decide_message(&cfg, &no_guild).is_none());

    let mut elsewhere = message(5, "https://example.com/x");
    elsewhere.channel = 3;
    assert!(decide_message(&cfg, &elsewhere).is_none());
}

#[test]
fn in_scope_messages_are_classified() {
    let cfg = config();

    let ping = message(5, "ping");
    let d = decide_message(&cfg, &ping).unwrap();
    assert!(d.pong);
    assert_eq!(d.kind, MessageKind::Neither);

    let request = message(5, "https://soundcloud.com/x/y");
    let d = decide_message(&cfg, &request).unwrap();
    assert!(!d.pong);
    assert_eq!(d.kind, MessageKind::Request);

    let mut reply = message(6, "this is a long and thoughtful piece of feedback");
    reply.is_inline_reply = true;
    reply.referenced = Some(Box::new(message(5, "https://soundcloud.com/x/y")));
    let d = decide_message(&cfg, &reply).unwrap();
    assert_eq!(d.kind, MessageKind::Reply);
}
