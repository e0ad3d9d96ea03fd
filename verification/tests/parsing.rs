//! Command, username, status and timestamp parsing.

use statusbot::bot::Bot;
use statusbot::command::Command;
use statusbot::emoji::ZulipEmoji;
use statusbot::secret::Secret;
use statusbot::status::Status;
use statusbot::timestamp::Timestamp;
use statusbot::username::normalize_username;
use statusbot::Position;

fn test_bot() -> Bot {
    let mut emojis = ZulipEmoji::new();
    emojis.insert("apple".to_string(), ":apple:".to_string());
    emojis.insert("octopus".to_string(), ":octopus:".to_string());
    emojis.insert("call_me".to_string(), ":no_such_alias:,:call_me_hand:".to_string());
    emojis.insert("flag_european_union".to_string(), ":eu:".to_string());
    emojis.insert("smile".to_string(), ":smile:".to_string());
    Bot::new(emojis, Secret::new("token".to_string()), Position { x: 5, y: 5 })
}

fn ts(year: u16, month: u8, day: u8, hour: u8, minute: u8, second: u8, offset_minutes: i32) -> Timestamp {
    Timestamp { year, month, day, hour, minute, second, offset_minutes }
}

/* Command splitting */

#[test]
fn test_status_command_empty_gives_help() {
    let bot = test_bot();
    assert_eq!(bot.parse_cmd("status"), Command::Help);
}

#[test]
fn test_status_command_full() {
    let bot = test_bot();
    let cmd = bot.parse_cmd("status :apple: watching the Apple keynote <time:2025-01-01T13:00:00-04:00>");
    assert_eq!(
        cmd,
        Command::Status(Status {
            emoji: Some(emojic::flat::RED_APPLE.grapheme.to_string()),
            status: Some("watching the Apple keynote".to_string()),
            expires_at: Some(ts(2025, 1, 1, 13, 0, 0, -240)),
        })
    );
}

#[test]
fn test_help_command() {
    let bot = test_bot();
    assert_eq!(bot.parse_cmd("help"), Command::Help);
}

#[test]
fn test_show_command() {
    let bot = test_bot();
    assert_eq!(bot.parse_cmd("show"), Command::Show);
}

#[test]
fn test_feedback_empty_gives_help() {
    let bot = test_bot();
    assert_eq!(bot.parse_cmd("feedback"), Command::Help);
}

#[test]
fn test_feedback_collects_remainder() {
    let bot = test_bot();
    assert_eq!(
        bot.parse_cmd("feedback this bot  is great"),
        Command::Feedback("this bot is great".to_string())
    );
}

#[test]
fn test_clear_command() {
    let bot = test_bot();
    assert_eq!(bot.parse_cmd("clear"), Command::Clear);
}

#[test]
fn test_invalid_command_gives_help() {
    let bot = test_bot();
    assert_eq!(bot.parse_cmd("random"), Command::Help);
}

#[test]
fn test_empty_input_gives_help() {
    let bot = test_bot();
    assert_eq!(bot.parse_cmd(""), Command::Help);
}

#[test]
fn test_whitespace_input_gives_help() {
    let bot = test_bot();
    assert_eq!(bot.parse_cmd(" \t\n  "), Command::Help);
}

#[test]
fn test_keywords_are_case_sensitive() {
    let bot = test_bot();
    assert_eq!(bot.parse_cmd("Help"), Command::Help);
    assert_eq!(bot.parse_cmd("SHOW"), Command::Help);
}

#[test]
fn test_set_name_collects_remainder() {
    let bot = test_bot();
    assert_eq!(
        bot.parse_cmd("set_name Jacob Young"),
        Command::SetName("Jacob Young".to_string())
    );
    // an empty remainder is accepted and stored as the empty name
    assert_eq!(bot.parse_cmd("set_name"), Command::SetName(String::new()));
}

#[test]
fn test_clear_name_and_diagnostics() {
    let bot = test_bot();
    assert_eq!(bot.parse_cmd("clear_name"), Command::ClearName);
    assert_eq!(bot.parse_cmd("test_missing_desk"), Command::TestMissingDesk);
    assert_eq!(
        bot.parse_cmd("test_lookup_desk Jacob Young"),
        Command::TestLookupDesk("Jacob Young".to_string())
    );
    assert_eq!(bot.parse_cmd("test_send_home"), Command::TestSendHome);
}

/* Username normalization */

#[test]
fn test_simple_username() {
    assert_eq!(normalize_username("Jacob Young"), "Jacob Young");
}

#[test]
fn test_simple_username_with_spaces() {
    assert_eq!(normalize_username(" Jacob Young  "), "Jacob Young");
}

#[test]
fn test_username_with_additional_characters() {
    assert_eq!(
        normalize_username("Ni'ck Berg.son-Shilcock"),
        "Ni'ck Berg.son-Shilcock"
    );
}

#[test]
fn test_username_no_last_name() {
    assert_eq!(normalize_username("Jacob -"), "Jacob -");
}

#[test]
fn test_username_pseudonym_with_whitespace() {
    assert_eq!(normalize_username("pseudonym  "), "pseudonym");
}

#[test]
fn test_single_pronoun() {
    assert_eq!(normalize_username("Jacob Young (he)"), "Jacob Young");
}

#[test]
fn test_double_pronoun() {
    assert_eq!(normalize_username("Jacob Young (they/them)"), "Jacob Young");
}

#[test]
fn test_triple_pronoun() {
    assert_eq!(normalize_username("Jacob Young (he/they/them)"), "Jacob Young");
}

#[test]
fn test_quad_pronoun() {
    assert_eq!(
        normalize_username("Jacob Young (he/him/they/them)"),
        "Jacob Young"
    );
}

#[test]
fn test_batches() {
    assert_eq!(normalize_username("Jacob Young (W1'19)"), "Jacob Young");
    assert_eq!(normalize_username("Jacob Young (m'20)"), "Jacob Young");
    assert_eq!(normalize_username("Jacob Young (Sp1'20)"), "Jacob Young");
    assert_eq!(normalize_username("Jacob Young (SP1'20)"), "Jacob Young");
    assert_eq!(normalize_username("Jacob Young (SP'20)"), "Jacob Young");
    assert_eq!(normalize_username("Jacob Young (F2'23)"), "Jacob Young");
    assert_eq!(normalize_username("Jacob Young (S2'16)"), "Jacob Young");
}

#[test]
fn test_pronoun_and_batch() {
    assert_eq!(
        normalize_username("Jacob Young (he/him/they/them) (S2'16)"),
        "Jacob Young"
    );
}

#[test]
fn test_pronoun_then_batch_exact() {
    assert_eq!(
        normalize_username("Jacob Young (he/him) (S2'16)"),
        "Jacob Young"
    );
}

#[test]
fn test_batch_then_pronoun() {
    assert_eq!(normalize_username("Jacob Young (S2'16) (he/him)"), "Jacob Young");
}

#[test]
fn test_nickname_parenthetical_preserved() {
    assert_eq!(
        normalize_username("Jacob (Jake) Young (Youngie)"),
        "Jacob (Jake) Young (Youngie)"
    );
}

#[test]
fn test_nickname_with_unicode_characters() {
    assert_eq!(
        normalize_username("Jac\u{f6}b (J\u{e0}ke) Young (Young\u{ef}e)"),
        "Jac\u{f6}b (J\u{e0}ke) Young (Young\u{ef}e)"
    );
}

#[test]
fn test_normalize_is_idempotent_on_samples() {
    for s in [
        "Jacob Young (he/him) (S2'16)",
        "  padded  ",
        "(they/them)",
        "Jacob (Jake) Young",
        "",
    ] {
        let once = normalize_username(s);
        let twice = normalize_username(&once);
        assert_eq!(once, twice);
    }
}

/* Status sub-parser */

fn parse_parts(bot: &Bot, emoji: &str, status: &str, expires_at: &str) -> Status {
    let input = format!("{emoji} {status} {expires_at}");
    bot.parse_status(&input)
}

#[test]
fn test_empty_status() {
    let bot = test_bot();
    assert_eq!(
        parse_parts(&bot, "", "", ""),
        Status { emoji: None, status: None, expires_at: None }
    );
}

#[test]
fn test_single_valid_emoji_apple() {
    let bot = test_bot();
    assert_eq!(
        parse_parts(&bot, ":apple:", "", ""),
        Status {
            emoji: Some(emojic::flat::RED_APPLE.grapheme.to_string()),
            status: None,
            expires_at: None
        }
    );
}

#[test]
fn test_single_valid_emoji_call_me() {
    let bot = test_bot();
    assert_eq!(
        parse_parts(&bot, ":call_me:", "", ""),
        Status {
            emoji: Some(emojic::flat::CALL_ME_HAND.grapheme.to_string()),
            status: None,
            expires_at: None
        }
    );
}

#[test]
fn test_single_valid_emoji_flag_european_union() {
    let bot = test_bot();
    assert_eq!(
        parse_parts(&bot, ":flag_european_union:", "", ""),
        Status {
            emoji: Some(emojic::flat::FLAG_EUROPEAN_UNION.grapheme.to_string()),
            status: None,
            expires_at: None
        }
    );
}

#[test]
fn test_invalid_emoji_shortcode() {
    let bot = test_bot();
    assert_eq!(
        parse_parts(&bot, ":this_shortcode_does_not_exist:", "", ""),
        Status { emoji: None, status: None, expires_at: None }
    );
}

#[test]
fn test_custom_emoji_shortcode_is_soft_miss() {
    let bot = test_bot();
    assert_eq!(
        parse_parts(&bot, ":custom_zulip_emoji_like_sadparrot:", "", ""),
        Status { emoji: None, status: None, expires_at: None }
    );
}

#[test]
fn test_bare_word_is_never_emoji() {
    let bot = test_bot();
    assert_eq!(
        bot.parse_status("apple"),
        Status { emoji: None, status: Some("apple".to_string()), expires_at: None }
    );
}

#[test]
fn test_empty_emoji_shortcode_is_text() {
    let bot = test_bot();
    assert_eq!(
        bot.parse_status("::"),
        Status { emoji: None, status: Some("::".to_string()), expires_at: None }
    );
}

#[test]
fn test_simple_text_status() {
    let bot = test_bot();
    let text = "hey I'm setting my status at RC successfully";
    assert_eq!(
        parse_parts(&bot, text, "", ""),
        Status { emoji: None, status: Some(text.to_string()), expires_at: None }
    );
}

#[test]
fn test_status_with_punctuation() {
    let bot = test_bot();
    let text = "this - status . has \\ lots of punctuation?!+_#@%^)(!%^)";
    assert_eq!(
        parse_parts(&bot, text, "", ""),
        Status { emoji: None, status: Some(text.to_string()), expires_at: None }
    );
}

#[test]
fn test_status_non_english_language() {
    let bot = test_bot();
    let text = "\u{5e9}\u{5de}\u{5df} \u{5da}\u{5df} \u{5e9}\u{5d2}\u{5d9} \u{5e9}\u{5da} \u{5df}\u{5e9}\u{5d9}";
    assert_eq!(
        parse_parts(&bot, text, "", ""),
        Status { emoji: None, status: Some(text.to_string()), expires_at: None }
    );
}

#[test]
fn test_basic_datetime() {
    let bot = test_bot();
    assert_eq!(
        parse_parts(&bot, "", "", "<time:2023-11-29T20:00:00-05:00>"),
        Status {
            emoji: None,
            status: None,
            expires_at: Some(ts(2023, 11, 29, 20, 0, 0, -300))
        }
    );
}

#[test]
fn test_malformed_time_degrades_to_none() {
    let bot = test_bot();
    assert_eq!(
        parse_parts(&bot, "", "", "<time:>"),
        Status { emoji: None, status: None, expires_at: None }
    );
}

#[test]
fn test_date_only_time_degrades_to_none() {
    let bot = test_bot();
    assert_eq!(
        parse_parts(&bot, "", "", "<time:2023-11-29>"),
        Status { emoji: None, status: None, expires_at: None }
    );
}

#[test]
fn test_no_time_keyword() {
    let bot = test_bot();
    assert_eq!(
        parse_parts(&bot, "", "", "<>"),
        Status { emoji: None, status: None, expires_at: None }
    );
}

#[test]
fn test_emoji_and_text() {
    let bot = test_bot();
    assert_eq!(
        parse_parts(&bot, ":octopus:", "Octopass is the best checkin project!", ""),
        Status {
            emoji: Some(emojic::flat::OCTOPUS.grapheme.to_string()),
            status: Some("Octopass is the best checkin project!".to_string()),
            expires_at: None
        }
    );
}

#[test]
fn test_emoji_and_time() {
    let bot = test_bot();
    assert_eq!(
        parse_parts(&bot, ":octopus:", "", "<time:2023-11-29T20:00:00-05:00>"),
        Status {
            emoji: Some(emojic::flat::OCTOPUS.grapheme.to_string()),
            status: None,
            expires_at: Some(ts(2023, 11, 29, 20, 0, 0, -300))
        }
    );
}

#[test]
fn test_emoji_text_and_time() {
    let bot = test_bot();
    assert_eq!(
        parse_parts(
            &bot,
            ":octopus:",
            "Octopass is the best checkin project!",
            "<time:2023-11-29T20:00:00-05:00>"
        ),
        Status {
            emoji: Some(emojic::flat::OCTOPUS.grapheme.to_string()),
            status: Some("Octopass is the best checkin project!".to_string()),
            expires_at: Some(ts(2023, 11, 29, 20, 0, 0, -300))
        }
    );
}

#[test]
fn test_text_and_time() {
    let bot = test_bot();
    assert_eq!(
        parse_parts(
            &bot,
            "",
            "Octopass is the best checkin project!",
            "<time:2023-11-29T20:00:00-05:00>"
        ),
        Status {
            emoji: None,
            status: Some("Octopass is the best checkin project!".to_string()),
            expires_at: Some(ts(2023, 11, 29, 20, 0, 0, -300))
        }
    );
}

#[test]
fn test_keynote_example() {
    let bot = test_bot();
    let st = bot.parse_status(":apple: watching the keynote <time:2025-01-01T13:00:00-04:00>");
    assert_eq!(st.emoji, Some("\u{1f34e}".to_string()));
    assert_eq!(st.status, Some("watching the keynote".to_string()));
    assert_eq!(st.expires_at, Some(ts(2025, 1, 1, 13, 0, 0, -240)));
}

#[test]
fn test_parse_emoji_alias_resolution() {
    let bot = test_bot();
    assert_eq!(
        bot.parse_emoji("apple"),
        Some(emojic::flat::RED_APPLE.grapheme.to_string())
    );
    // candidates are tried in order; the first resolvable one wins
    assert_eq!(
        bot.parse_emoji("call_me"),
        Some(emojic::flat::CALL_ME_HAND.grapheme.to_string())
    );
    assert_eq!(bot.parse_emoji("unknown_alias"), None);
}

/* Timestamp text form */

#[test]
fn test_iso_zulu_offset() {
    let bot = test_bot();
    let st = bot.parse_status("<time:2024-06-30T08:05:09Z>");
    assert_eq!(st.expires_at, Some(ts(2024, 6, 30, 8, 5, 9, 0)));
}

#[test]
fn test_iso_fractional_seconds_are_accepted_and_ignored() {
    let bot = test_bot();
    assert_eq!(
        bot.parse_status("<time:2023-11-29T20:00:00.123-05:00>").expires_at,
        Some(ts(2023, 11, 29, 20, 0, 0, -300))
    );
    assert_eq!(
        bot.parse_status("<time:2024-06-30T08:05:09.5Z>").expires_at,
        Some(ts(2024, 6, 30, 8, 5, 9, 0))
    );
    assert_eq!(
        bot.parse_status("<time:2024-06-30T08:05:09.000000000Z>").expires_at,
        Some(ts(2024, 6, 30, 8, 5, 9, 0))
    );
    // a dot with no digit behind it is no fraction
    assert_eq!(bot.parse_status("<time:2024-06-30T08:05:09.Z>").expires_at, None);
    // a fraction with no offset designator is incomplete
    assert_eq!(bot.parse_status("<time:2024-06-30T08:05:09.5>").expires_at, None);
}

#[test]
fn test_iso_rejects_invalid_calendar_dates() {
    let bot = test_bot();
    // February 30th does not exist; 2023 is not a leap year
    assert_eq!(bot.parse_status("<time:2023-02-30T10:00:00Z>").expires_at, None);
    assert_eq!(bot.parse_status("<time:2023-02-29T10:00:00Z>").expires_at, None);
    // 2024 is a leap year
    assert_eq!(
        bot.parse_status("<time:2024-02-29T10:00:00Z>").expires_at,
        Some(ts(2024, 2, 29, 10, 0, 0, 0))
    );
    // out-of-range clock fields
    assert_eq!(bot.parse_status("<time:2023-11-29T24:00:00Z>").expires_at, None);
    assert_eq!(bot.parse_status("<time:2023-13-01T10:00:00Z>").expires_at, None);
}

#[test]
fn test_text_stops_at_angle_bracket() {
    let bot = test_bot();
    let st = bot.parse_status("before < after");
    assert_eq!(st.status, Some("before".to_string()));
    assert_eq!(st.emoji, None);
    assert_eq!(st.expires_at, None);
}

#[test]
fn test_time_group_first_leaves_text_empty() {
    let bot = test_bot();
    let st = bot.parse_status("<time:2023-11-29T20:00:00-05:00> hello");
    assert_eq!(st.status, None);
    assert_eq!(st.expires_at, Some(ts(2023, 11, 29, 20, 0, 0, -300)));
}

/* Status rendering */

#[test]
fn test_display_empty_status() {
    let st = Status { emoji: None, status: None, expires_at: None };
    assert_eq!(st.render(), "");
}

#[test]
fn test_display_single_emoji_status() {
    let st = Status {
        emoji: Some(emojic::flat::RED_APPLE.grapheme.to_string()),
        status: None,
        expires_at: None,
    };
    assert_eq!(st.render(), "\u{1f34e}");
}

#[test]
fn test_display_only_text_status() {
    let st = Status {
        emoji: None,
        status: Some("Setting my status via Status Bot".to_string()),
        expires_at: None,
    };
    assert_eq!(st.render(), "Setting my status via Status Bot");
}

#[test]
fn test_display_only_expires_at_status() {
    let st = Status {
        emoji: None,
        status: None,
        expires_at: Some(ts(2023, 11, 15, 14, 0, 0, -300)),
    };
    assert_eq!(st.render(), "<time:2023-11-15T14:00:00-05:00>");
}

#[test]
fn test_display_emoji_and_expires_at_status() {
    let st = Status {
        emoji: Some(emojic::flat::RED_APPLE.grapheme.to_string()),
        status: None,
        expires_at: Some(ts(2023, 11, 15, 14, 0, 0, -300)),
    };
    assert_eq!(st.render(), "\u{1f34e} <time:2023-11-15T14:00:00-05:00>");
}

#[test]
fn test_display_full_status() {
    let st = Status {
        emoji: Some(emojic::flat::RED_APPLE.grapheme.to_string()),
        status: Some("Setting my status via Status Bot".to_string()),
        expires_at: Some(ts(2023, 11, 15, 14, 0, 0, -300)),
    };
    assert_eq!(
        st.render(),
        "\u{1f34e} Setting my status via Status Bot <time:2023-11-15T14:00:00-05:00>"
    );
}

/* Round trip */

#[test]
fn test_status_round_trip_through_rendered_form() {
    let bot = test_bot();
    let st = Status {
        emoji: Some(":apple:".to_string()),
        status: Some("watching the keynote".to_string()),
        expires_at: Some(ts(2025, 1, 1, 13, 0, 0, -240)),
    };
    let rendered = st.render();
    assert_eq!(
        rendered,
        ":apple: watching the keynote <time:2025-01-01T13:00:00-04:00>"
    );
    let reparsed = bot.parse_status(&rendered);
    assert_eq!(reparsed.emoji, Some(emojic::flat::RED_APPLE.grapheme.to_string()));
    assert_eq!(reparsed.status, st.status);
    assert_eq!(reparsed.expires_at, st.expires_at);
}

/* Clock-answer conversion */

#[test]
fn test_clock_to_timestamp_keeps_valid_fields() {
    assert_eq!(
        statusbot::timestamp::clock_to_timestamp(2026, 10, 11, 12, 30, 0),
        Some(ts(2026, 10, 11, 12, 30, 0, 0))
    );
}

#[test]
fn test_clock_to_timestamp_rejects_out_of_range_fields() {
    // years outside the four-digit range
    assert_eq!(statusbot::timestamp::clock_to_timestamp(-1, 1, 1, 0, 0, 0), None);
    assert_eq!(statusbot::timestamp::clock_to_timestamp(10000, 1, 1, 0, 0, 0), None);
    // a day the month does not have
    assert_eq!(statusbot::timestamp::clock_to_timestamp(2023, 2, 30, 0, 0, 0), None);
    // an out-of-range clock field
    assert_eq!(statusbot::timestamp::clock_to_timestamp(2023, 1, 1, 24, 0, 0), None);
}

/* Outbound default expiration */

#[test]
fn test_with_default_expiry_is_exact() {
    let default = Some(ts(2030, 5, 6, 7, 8, 9, 0));
    // text without expiration takes the default
    let st = Status { emoji: None, status: Some("hello".to_string()), expires_at: None };
    assert_eq!(st.with_default_expiry(default).expires_at, default);
    // a declared expiration is kept
    let when = ts(2031, 1, 2, 3, 4, 5, 60);
    let st = Status { emoji: None, status: Some("hello".to_string()), expires_at: Some(when) };
    assert_eq!(st.with_default_expiry(default).expires_at, Some(when));
    // a textless status is never given an expiration
    let st = Status { emoji: Some("\u{1f34e}".to_string()), status: None, expires_at: None };
    assert_eq!(st.with_default_expiry(default).expires_at, None);
}

#[test]
fn test_outbound_assigns_default_expiration_to_text() {
    let st = Status {
        emoji: None,
        status: Some("hello".to_string()),
        expires_at: None,
    };
    let out = st.outbound();
    assert_eq!(out.status, st.status);
    assert_eq!(out.emoji, None);
    let exp = out.expires_at.expect("a text status gets a default expiration");
    assert_eq!(exp.offset_minutes, 0);
    assert!(exp.year >= 2026);
    assert!((1..=12).contains(&exp.month));
    assert!((1..=31).contains(&exp.day));
}

#[test]
fn test_outbound_keeps_declared_expiration() {
    let when = ts(2030, 5, 6, 7, 8, 9, 60);
    let st = Status {
        emoji: None,
        status: Some("hello".to_string()),
        expires_at: Some(when),
    };
    assert_eq!(st.outbound().expires_at, Some(when));
}

#[test]
fn test_outbound_leaves_textless_status_alone() {
    let st = Status { emoji: Some("\u{1f34e}".to_string()), status: None, expires_at: None };
    assert_eq!(st.outbound().expires_at, None);
}
