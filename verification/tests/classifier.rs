use feedback_ledger::classify::{find_link, is_feedback_reply, is_feedback_request};
use feedback_ledger::types::MessageInfo;

fn plain_message(author: u64, content: &str) -> MessageInfo {
    MessageInfo {
        author,
        id: 1000,
        guild: Some(1),
        channel: 2,
        content: String::from(content),
        attachment_urls: Vec::new(),
        is_inline_reply: false,
        referenced: None,
    }
}

#[test]
fn regex() {
    assert!(find_link("https://www.youtube.com/watch?v=dQw4w9WgXcQ"));
}

#[test]
fn link_patterns() {
    assert!(find_link("http://a.b"));
    assert!(find_link("see https://example.com/track and tell me"));
    assert!(find_link("https://sub-domain.example.org"));
    assert!(!find_link(""));
    assert!(!find_link("no link here"));
    assert!(!find_link("ftp://example.com"));
    assert!(!find_link("http://"));
    assert!(!find_link("http://nodot"));
    assert!(!find_link("HTTP://example.com"));
}

#[test]
fn audio_attachments() {
    let mut msg = plain_message(7, "listen to this");
    assert!(!is_feedback_request(&msg));
    msg.attachment_urls.push(String::from("https://cdn.example.com/track.mp3"));
    assert!(is_feedback_request(&msg));
    msg.attachment_urls.clear();
    msg.attachment_urls.push(String::from("https://cdn.example.com/take.wav"));
    assert!(is_feedback_request(&msg));
    msg.attachment_urls.clear();
    msg.attachment_urls.push(String::from("cover.png"));
    assert!(!is_feedback_request(&msg));
}

#[test]
fn classifier_round_trip() {
    let request = plain_message(1, "check out https://example.com/track");
    assert!(is_feedback_request(&request));

    let mut reply = plain_message(2, "this is a long and thoughtful piece of feedback");
    reply.is_inline_reply = true;
    reply.referenced = Some(Box::new(plain_message(1, "check out https://example.com/track")));
    assert!(is_feedback_reply(&reply, 20));

    let mut self_reply = plain_message(1, "this is a long and thoughtful piece of feedback");
    self_reply.is_inline_reply = true;
    self_reply.referenced = Some(Box::new(plain_message(
        1,
        "check out https://example.com/track",
    )));
    assert!(!is_feedback_reply(&self_reply, 20));
}

#[test]
fn reply_needs_length_and_reference() {
    let mut reply = plain_message(2, "short");
    reply.is_inline_reply = true;
    reply.referenced = Some(Box::new(plain_message(1, "https://example.com/a")));
    assert!(!is_feedback_reply(&reply, 20));

    let mut no_ref = plain_message(2, "this is a long and thoughtful piece of feedback");
    no_ref.is_inline_reply = true;
    assert!(!is_feedback_reply(&no_ref, 20));

    let mut not_inline = plain_message(2, "this is a long and thoughtful piece of feedback");
    not_inline.referenced = Some(Box::new(plain_message(1, "https://example.com/a")));
    assert!(!is_feedback_reply(&not_inline, 20));

    let mut to_plain = plain_message(2, "this is a long and thoughtful piece of feedback");
    to_plain.is_inline_reply = true;
    to_plain.referenced = Some(Box::new(plain_message(1, "no request in here")));
    assert!(!is_feedback_reply(&to_plain, 20));
}

#[test]
fn reply_length_counts_bytes() {
    // twelve two-byte characters: 24 bytes, over a threshold of 20
    let mut reply = plain_message(2, &"\u{e9}".repeat(12));
    reply.is_inline_reply = true;
    reply.referenced = Some(Box::new(plain_message(1, "https://example.com/a")));
    assert!(is_feedback_reply(&reply, 20));
    // eight of them: 16 bytes, under the threshold
    let mut short = plain_message(2, &"\u{e9}".repeat(8));
    short.is_inline_reply = true;
    short.referenced = Some(Box::new(plain_message(1, "https://example.com/a")));
    assert!(!is_feedback_reply(&short, 20));
}

#[test]
fn boundary_is_ascii() {
    // the word boundary is judged on ASCII word characters alone, so a
    // non-ASCII letter right after the top-level segment ends the link
    assert!(find_link("http://a.b\u{e9}"));
    assert!(!find_link("http://a.bX"));
}
