//! The executor: routing, replies, the spatial resolver and the client's
//! compute parts.

use statusbot::bot::{
    help_reply,
    lock_failure_reply,
    missing_desk_reply,
    request_failed_reply,
    sent_home_reply,
    Bot,
    Dispatch,
    Reply,
};
use statusbot::consts::{EMPTY_STATUS, HELP_TEXT, MISSING_DESK};
use statusbot::emoji::ZulipEmoji;
use statusbot::rc::{
    basic_auth_header,
    dec_string,
    find_desk,
    no_open_position_text,
    placement_action,
    response_too_large,
    update_bot_error_text,
    update_desk_error_text,
    Avatar,
    Desk,
    EntityType,
    GetDesksResponse,
    PlacementAction,
    MAX_RESPONSE_BYTES,
};
use statusbot::secret::Secret;
use statusbot::status::Status;
use statusbot::surrounding_positions;
use statusbot::timestamp::Timestamp;
use statusbot::zulip::{
    ContentType,
    DisplayRecipient,
    Message,
    MessageType,
    OutgoingWebhook,
    Trigger,
};
use statusbot::Position;

fn test_bot() -> Bot {
    let mut emojis = ZulipEmoji::new();
    emojis.insert("apple".to_string(), ":apple:".to_string());
    emojis.insert("octopus".to_string(), ":octopus:".to_string());
    Bot::new(emojis, Secret::new("sekret".to_string()), Position { x: 5, y: 5 })
}

fn owned_desk(id: usize, x: usize, y: usize, owner: &str) -> Desk {
    Desk {
        id,
        kind: EntityType::Desk,
        pos: Position { x, y },
        color: "light-orange".to_string(),
        emoji: None,
        status: None,
        expires_at: None,
        profile_url: None,
        owner: Some(Avatar { id: 1, name: owner.to_string(), image_url: String::new() }),
    }
}

fn webhook(trigger: Trigger, data: &str, sender: &str) -> OutgoingWebhook {
    OutgoingWebhook {
        bot_email: "status-bot@chat".to_string(),
        bot_full_name: "Status Bot".to_string(),
        data: data.to_string(),
        trigger,
        token: "sekret".to_string(),
        message: Message {
            avatar_url: None,
            client: "website".to_string(),
            content: data.to_string(),
            content_type: ContentType::Markdown,
            display_recipient: DisplayRecipient::Stream("general".to_string()),
            id: 11,
            is_me_message: false,
            last_edit_timestamp: 0,
            recipient_id: 20,
            sender_email: "person@chat".to_string(),
            sender_full_name: sender.to_string(),
            sender_id: 5,
            sender_realm_str: "office".to_string(),
            stream_id: None,
            subject: String::new(),
            timestamp: 1_700_000_000,
            kind: MessageType::Private,
            rendered_content: String::new(),
        },
    }
}

fn content_of(r: &Reply) -> &str {
    match r {
        Reply::Content { content } => content,
        Reply::ResponseNotRequired { .. } => panic!("expected a content reply"),
    }
}

/* Spatial placement resolver */

#[test]
fn test_surrounding_positions_at_origin() {
    let candidates = surrounding_positions(&Position { x: 0, y: 0 });
    assert_eq!(candidates.len(), 8);
    for p in &candidates {
        assert!(p.x <= 169, "x must be clamped into the grid");
        assert!(p.y <= 109, "y must be clamped into the grid");
    }
    // left is clamped onto the origin and listed before top
    assert_eq!(candidates[0], Position { x: 0, y: 0 });
    assert_eq!(candidates[1], Position { x: 1, y: 0 });
    assert_eq!(candidates[2], Position { x: 0, y: 0 });
}

#[test]
fn test_surrounding_positions_interior_order() {
    let candidates = surrounding_positions(&Position { x: 10, y: 20 });
    assert_eq!(
        candidates,
        vec![
            Position { x: 9, y: 20 },
            Position { x: 11, y: 20 },
            Position { x: 10, y: 19 },
            Position { x: 9, y: 19 },
            Position { x: 11, y: 19 },
            Position { x: 10, y: 21 },
            Position { x: 9, y: 21 },
            Position { x: 11, y: 21 },
        ]
    );
}

#[test]
fn test_surrounding_positions_at_far_corner() {
    let candidates = surrounding_positions(&Position { x: 169, y: 109 });
    for p in &candidates {
        assert!(p.x <= 169 && p.y <= 109);
    }
    assert_eq!(candidates[1], Position { x: 169, y: 109 });
}

/* Routing */

#[test]
fn test_mention_needs_no_response() {
    let mut bot = test_bot();
    let d = bot.respond(&webhook(Trigger::Mention, "help", "Jacob Young"));
    assert_eq!(d, Dispatch::NoResponse);
}

#[test]
fn test_missing_desk_reply_for_unknown_sender() {
    let mut bot = test_bot();
    let d = bot.respond(&webhook(Trigger::DirectMessage, "help", "Jacob Young"));
    match d {
        Dispatch::Finished(r) => assert_eq!(content_of(&r), MISSING_DESK),
        other => panic!("expected a finished reply, got {other:?}"),
    }
}

fn bot_with_desk(owner: &str, id: usize, x: usize, y: usize) -> Bot {
    let mut bot = test_bot();
    bot.cache_desk_owners(Ok(vec![owned_desk(id, x, y, owner)]));
    bot
}

#[test]
fn test_help_reply_for_known_sender() {
    let mut bot = bot_with_desk("Jacob Young", 7, 10, 20);
    let d = bot.respond(&webhook(Trigger::DirectMessage, "help", "Jacob Young (he/him)"));
    match d {
        Dispatch::Finished(r) => assert_eq!(content_of(&r), HELP_TEXT),
        other => panic!("expected the help text, got {other:?}"),
    }
}

#[test]
fn test_clear_and_feedback_answer_help() {
    let mut bot = bot_with_desk("Jacob Young", 7, 10, 20);
    for line in ["clear", "feedback the bot is slow"] {
        let d = bot.respond(&webhook(Trigger::DirectMessage, line, "Jacob Young"));
        match d {
            Dispatch::Finished(r) => assert_eq!(content_of(&r), HELP_TEXT),
            other => panic!("expected the help text, got {other:?}"),
        }
    }
}

#[test]
fn test_show_dispatches_a_fetch() {
    let mut bot = bot_with_desk("Jacob Young", 7, 10, 20);
    let d = bot.respond(&webhook(Trigger::DirectMessage, "show", "Jacob Young"));
    assert_eq!(d, Dispatch::FetchAndShow { desk_id: 7 });
}

#[test]
fn test_status_dispatches_an_update() {
    let mut bot = bot_with_desk("Jacob Young", 7, 10, 20);
    let d = bot.respond(&webhook(
        Trigger::DirectMessage,
        "status :apple: at the keyboard",
        "Jacob Young",
    ));
    match d {
        Dispatch::UpdateStatus { desk_id, desk_pos, status } => {
            assert_eq!(desk_id, 7);
            assert_eq!(desk_pos, Position { x: 10, y: 20 });
            assert_eq!(status.emoji, Some(emojic::flat::RED_APPLE.grapheme.to_string()));
            assert_eq!(status.status, Some("at the keyboard".to_string()));
            assert_eq!(status.expires_at, None);
        },
        other => panic!("expected an update dispatch, got {other:?}"),
    }
}

#[test]
fn test_set_name_then_lookup_succeeds() {
    let mut bot = bot_with_desk("jyoung", 42, 9, 9);
    let sender = "Jacob Young (he/him)";
    let missing = bot.respond(&webhook(Trigger::DirectMessage, "show", sender));
    match missing {
        Dispatch::Finished(r) => assert_eq!(content_of(&r), MISSING_DESK),
        other => panic!("expected the missing-desk text, got {other:?}"),
    }
    // without a desk, set_name itself is answered with the missing-desk text,
    // so declare the correction directly and retry
    bot.directory.set_correction(sender, "jyoung".to_string());
    let d = bot.respond(&webhook(Trigger::DirectMessage, "show", sender));
    assert_eq!(d, Dispatch::FetchAndShow { desk_id: 42 });
}

#[test]
fn test_set_name_command_confirms() {
    let mut bot = bot_with_desk("Jacob Young", 7, 10, 20);
    let d = bot.respond(&webhook(Trigger::DirectMessage, "set_name jyoung", "Jacob Young"));
    match d {
        Dispatch::Finished(r) => {
            assert_eq!(content_of(&r), "Set your Virtual RC username to 'jyoung'")
        },
        other => panic!("expected a confirmation, got {other:?}"),
    }
    assert_eq!(bot.directory.correction_of("Jacob Young"), "jyoung");
}

#[test]
fn test_clear_name_command_reports_both_ways() {
    let mut bot = bot_with_desk("Jacob Young", 7, 10, 20);
    let none = bot.respond(&webhook(Trigger::DirectMessage, "clear_name", "Jacob Young"));
    match none {
        Dispatch::Finished(r) => assert_eq!(
            content_of(&r),
            "There was not a corrected Virtual RC username associated with your Zulip account. Did you `set_name` already?"
        ),
        other => panic!("expected the no-correction text, got {other:?}"),
    }
    // a correction that still resolves to the sender's own desk
    bot.directory.set_correction("Jacob Young", "Jacob Young".to_string());
    let some = bot.respond(&webhook(Trigger::DirectMessage, "clear_name", "Jacob Young"));
    match some {
        Dispatch::Finished(r) => assert_eq!(
            content_of(&r),
            "Removed your corrected Virtual RC username 'Jacob Young'"
        ),
        other => panic!("expected the removal text, got {other:?}"),
    }
}

#[test]
fn test_send_home_dispatch_and_request() {
    let mut bot = bot_with_desk("Jacob Young", 7, 10, 20);
    let d = bot.respond(&webhook(Trigger::DirectMessage, "test_send_home", "Jacob Young"));
    assert_eq!(d, Dispatch::SendHome);
    let req = bot.home_request();
    assert_eq!(req.x, Some(5));
    assert_eq!(req.y, Some(5));
    assert!(req.name.is_none() && req.emoji.is_none());
}

#[test]
fn test_token_matches() {
    let bot = test_bot();
    assert!(bot.token_matches("sekret"));
    assert!(!bot.token_matches("other"));
}

/* Reply builders */

#[test]
fn test_show_reply_substitutes_alias_and_renders() {
    let bot = test_bot();
    let mut desk = owned_desk(7, 10, 20, "Jacob Young");
    desk.emoji = Some(emojic::flat::RED_APPLE.grapheme.to_string());
    desk.status = Some("eating lunch".to_string());
    desk.expires_at = Some(Timestamp {
        year: 2025,
        month: 1,
        day: 1,
        hour: 13,
        minute: 0,
        second: 0,
        offset_minutes: -240,
    });
    let r = bot.show_reply(Ok(desk));
    assert_eq!(
        content_of(&r),
        ":apple: eating lunch <time:2025-01-01T13:00:00-04:00>"
    );
}

#[test]
fn test_show_reply_keeps_unknown_grapheme() {
    let bot = test_bot();
    let mut desk = owned_desk(7, 10, 20, "Jacob Young");
    desk.emoji = Some("\u{1f980}".to_string());
    let r = bot.show_reply(Ok(desk));
    assert_eq!(content_of(&r), "\u{1f980}");
}

#[test]
fn test_show_reply_empty_status_message() {
    let bot = test_bot();
    let desk = owned_desk(7, 10, 20, "Jacob Young");
    let r = bot.show_reply(Ok(desk));
    assert_eq!(content_of(&r), EMPTY_STATUS);
}

#[test]
fn test_show_reply_surfaces_fetch_failure() {
    let bot = test_bot();
    let r = bot.show_reply(Err("Did not find a Virtual RC desk with id = 7".to_string()));
    assert_eq!(content_of(&r), "Did not find a Virtual RC desk with id = 7");
}

#[test]
fn test_status_updated_reply() {
    let bot = test_bot();
    let mut desk = owned_desk(7, 10, 20, "Jacob Young");
    desk.emoji = Some(emojic::flat::RED_APPLE.grapheme.to_string());
    desk.status = Some("eating lunch".to_string());
    let r = bot.status_updated_reply(&desk);
    assert_eq!(
        content_of(&r),
        "**:check: Updated your status**: :apple: eating lunch"
    );
}

#[test]
fn test_static_replies() {
    assert_eq!(content_of(&help_reply()), HELP_TEXT);
    assert_eq!(content_of(&missing_desk_reply()), MISSING_DESK);
    assert!(content_of(&lock_failure_reply()).starts_with("Failed to set your corrected username"));
    assert_eq!(
        content_of(&request_failed_reply(&"boom".to_string())),
        "Status Bot failed to perform your request :(\nPlease report this error to the Status Bot maintainer(s)\nError: boom"
    );
    assert_eq!(content_of(&sent_home_reply(Ok(()))), "Sent bot home");
    assert_eq!(
        content_of(&sent_home_reply(Err("no route".to_string()))),
        "Failed to to send bot home: no route"
    );
}

#[test]
fn test_lookup_desk_diagnostic_report() {
    let mut bot = bot_with_desk("jyoung", 42, 9, 9);
    bot.directory.set_correction("Jacob Young (he/him)", "jyoung".to_string());
    let d = bot.respond(&webhook(
        Trigger::DirectMessage,
        "test_lookup_desk Jacob Young (he/him)",
        "jyoung",
    ));
    match d {
        Dispatch::Finished(r) => {
            let text = content_of(&r).to_string();
            assert!(text.contains("* Parsed Zulup username: `\"Jacob Young\"`"), "{text}");
            assert!(text.contains("* Virtual RC username match: `\"jyoung\"`"), "{text}");
            assert!(text.contains("* Virtual RC desk id: `Some(42)`"), "{text}");
        },
        other => panic!("expected a report, got {other:?}"),
    }
}

/* Client compute parts */

#[test]
fn test_find_desk() {
    let desks = GetDesksResponse(vec![
        owned_desk(1, 0, 0, "a"),
        owned_desk(7, 10, 20, "b"),
    ]);
    let found = find_desk(&desks, 7).expect("desk 7 is listed");
    assert_eq!(found.id, 7);
    let err = find_desk(&desks, 9).expect_err("desk 9 is not listed");
    assert_eq!(err, "Did not find a Virtual RC desk with id = 9");
}

#[test]
fn test_dec_string() {
    assert_eq!(dec_string(0), "0");
    assert_eq!(dec_string(7), "7");
    assert_eq!(dec_string(42), "42");
    assert_eq!(dec_string(100500), "100500");
}

#[test]
fn test_update_error_texts() {
    assert_eq!(
        update_desk_error_text(422),
        "The request had an invalid JSON body and the Virtual RC API rejected it"
    );
    assert_eq!(
        update_desk_error_text(400),
        "The request was invalid in some way and the Vritual RC API rejected it"
    );
    assert_eq!(
        update_desk_error_text(500),
        "The Virtual RC API fell over becuase of our request"
    );
    assert_eq!(
        update_desk_error_text(404),
        "The Vritual RC API returned an unkown HTTP header value: 404"
    );
    assert_eq!(update_bot_error_text(422), "Must not be in a block");
    assert_eq!(update_bot_error_text(500), "Unknown error while trying to update bot");
}

#[test]
fn test_placement_action_walks_candidates_then_gives_up() {
    let desk_pos = Position { x: 10, y: 20 };
    let candidates = surrounding_positions(&desk_pos);
    assert_eq!(
        placement_action(&candidates, 0, 7, &desk_pos),
        PlacementAction::MoveTo(Position { x: 9, y: 20 })
    );
    assert_eq!(
        placement_action(&candidates, 7, 7, &desk_pos),
        PlacementAction::MoveTo(Position { x: 11, y: 21 })
    );
    assert_eq!(
        placement_action(&candidates, 8, 7, &desk_pos),
        PlacementAction::GiveUp(
            "Bot was unable to find an open grid position next to desk (id = 7, x = 10, y = 20)"
                .to_string()
        )
    );
}

#[test]
fn test_no_open_position_text() {
    assert_eq!(
        no_open_position_text(7, &Position { x: 10, y: 20 }),
        "Bot was unable to find an open grid position next to desk (id = 7, x = 10, y = 20)"
    );
}

#[test]
fn test_response_size_limit() {
    assert!(!response_too_large(MAX_RESPONSE_BYTES));
    assert!(response_too_large(MAX_RESPONSE_BYTES + 1));
}

#[test]
fn test_basic_auth_header() {
    let header = basic_auth_header(
        &Secret::new("user".to_string()),
        &Secret::new("pass".to_string()),
    );
    let expected = format!(
        "Basic {}",
        data_encoding::BASE64URL.encode("user:pass".as_bytes())
    );
    assert_eq!(header, expected);
    assert_eq!(header, "Basic dXNlcjpwYXNz");
}
