use dashium_core::request::DeleteForm;
use dashium_core::siblings::{
    delete_list_plan, delete_message_targets, gjp2_matches, join_pipe, posts_response,
    set_sender_flags, user_list_response, users_response, Message,
};

fn delete_form(message_ids: &str, message_id: i32, is_sender: i16) -> DeleteForm {
    DeleteForm {
        user_id: 9,
        gjp2: String::new(),
        message_ids: message_ids.to_string(),
        message_id,
        is_sender,
        game_version: 22,
        binary_version: 45,
        secret: String::new(),
        uuid: String::new(),
        udid: String::new(),
    }
}

fn message() -> Message {
    Message {
        message_id: 5,
        user_id: 9,
        subject: "hey".to_string(),
        body: "yo".to_string(),
        username: "alice".to_string(),
        is_read: 1,
        is_sender: 0,
        target_id: 12,
        age: "2 days".to_string(),
    }
}

#[test]
fn message_record_layout() {
    assert_eq!(
        Message::to_gd(message()),
        "1:5:2:9:3:9:4:hey:5:yo:6:alice:7:2 days:8:1:9:0"
    );
}

#[test]
fn downloaded_message_is_read_receiver_side() {
    let mut m = message();
    m.is_read = 0;
    m.is_sender = 1;
    m.mark_downloaded();
    assert_eq!(m.is_read, 1);
    assert_eq!(m.is_sender, 0);
}

#[test]
fn listings_set_the_sender_flag() {
    let mut msgs = vec![message(), message()];
    set_sender_flags(&mut msgs, 1);
    assert!(msgs.iter().all(|m| m.is_sender == 1));
}

#[test]
fn single_message_deletion_targets() {
    assert_eq!(delete_message_targets(&delete_form("", 42, 0)), vec![(42, false)]);
    assert_eq!(delete_message_targets(&delete_form("", 42, 1)), vec![(42, true)]);
    assert_eq!(delete_message_targets(&delete_form("", 42, 7)), Vec::<(i32, bool)>::new());
}

#[test]
fn bulk_message_deletion_targets() {
    assert_eq!(
        delete_message_targets(&delete_form("1,junk,3", 42, 1)),
        vec![(1, true), (3, true)]
    );
}

#[test]
fn user_search_response_joins_and_paginates() {
    let encoded = vec!["u1".to_string(), "u2".to_string()];
    let mut out = users_response(&encoded, 1);
    assert_eq!(out, "u1|u2#2:10:10");
    out = users_response(&Vec::new(), 0);
    assert_eq!(out, "-2");
}

#[test]
fn post_listing_keeps_bare_footer_when_empty() {
    assert_eq!(posts_response(&Vec::new(), 0), "#0:0:10");
    let encoded = vec!["p1".to_string(), "p2".to_string(), "p3".to_string()];
    assert_eq!(posts_response(&encoded, 2), "p1|p2|p3#3:20:10");
}

#[test]
fn friend_listing_appends_relation_suffix() {
    let encoded = vec!["u1".to_string(), "u2".to_string()];
    assert_eq!(user_list_response(0, &encoded), "u1:41:1|u2:41:1");
    assert_eq!(user_list_response(1, &encoded), "u1|u2");
    assert_eq!(user_list_response(0, &Vec::new()), "-2");
}

#[test]
fn list_deletion_gate() {
    let (go, reply) = delete_list_plan(true);
    assert!(go);
    assert_eq!(reply, "1");
    let (go2, reply2) = delete_list_plan(false);
    assert!(!go2);
    assert_eq!(reply2, "-1");
}

#[test]
fn credential_comparison_is_exact() {
    assert!(gjp2_matches("abc123", "abc123"));
    assert!(!gjp2_matches("abc123", "abc124"));
}

#[test]
fn join_pipe_has_no_trailing_separator() {
    assert_eq!(join_pipe(&vec!["a".to_string()]), "a");
    assert_eq!(join_pipe(&Vec::new()), "");
}
