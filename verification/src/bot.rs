//! The bot engine: routing an inbound chat event to a typed intent, running
//! the local commands, and rendering every user-facing reply.
//!
//! Remote work (fetching desks, moving the avatar, updating a desk) is
//! described by the dispatch value this module returns; the surrounding
//! program performs it and hands the outcome back to the reply builders here.

use vstd::prelude::*;
use vstd::string::StringExecFns;
use vstd::string::StrSliceExecFns;

use crate::command::{parse_line, parse_matches, Command};
use crate::consts::{EMPTY_STATUS, HELP_TEXT, MISSING_DESK};
use crate::directory::{table_get, Directory, DirectoryFetchError};
use crate::emoji::{assoc, opt_view, resolve_alias_spec, ZulipEmoji, invert_from};
use crate::grid::Position;
use crate::rc::{dec_digits, dec_string, Desk, UpdateBotRequest};
use crate::secret::Secret;
use crate::status::{render_status_spec, Status};
use crate::text::to_chars;
use crate::timestamp::Timestamp;
use crate::username::{normalize_spec, normalize_username};
use crate::zulip::{OutgoingWebhook, Trigger};

verus! {

/// The bot's reply to the chat: either no reply is owed, or one formatted
/// text.
#[derive(Debug, PartialEq, Eq)]
pub enum Reply {
    ResponseNotRequired { response_not_required: bool },
    Content { content: String },
}

/// `r` is a content reply carrying exactly `text`.
pub open spec fn reply_content(r: Reply, text: Seq<char>) -> bool {
    r matches Reply::Content { content } && content@ == text
}

/// What the surrounding program must do with an inbound event.
#[derive(Debug, PartialEq, Eq)]
pub enum Dispatch {
    /// A mention: acknowledge without replying.
    NoResponse,
    /// The reply is fully determined locally.
    Finished(Reply),
    /// Fetch the sender's desk and render its status with `show_reply`.
    FetchAndShow { desk_id: usize },
    /// Move the avatar next to the desk, send the update, and render the
    /// outcome with `status_updated_reply` or the failure texts.
    UpdateStatus { desk_id: usize, desk_pos: Position, status: Status },
    /// Send the avatar to its home position and report with
    /// `sent_home_reply`.
    SendHome,
}

/// `r` finishes the event with a content reply carrying exactly `text`.
pub open spec fn finished_content(r: Dispatch, text: Seq<char>) -> bool {
    r matches Dispatch::Finished(rep) && reply_content(rep, text)
}

/// The confirmation after a declared username correction.
pub open spec fn set_name_msg(name: Seq<char>) -> Seq<char> {
    "Set your Virtual RC username to '"@ + name + "'"@
}

/// The confirmation after a removed username correction.
pub open spec fn removed_name_msg(prev: Seq<char>) -> Seq<char> {
    "Removed your corrected Virtual RC username '"@ + prev + "'"@
}

/// The reply when no correction was declared.
pub open spec fn no_correction_msg() -> Seq<char> {
    "There was not a corrected Virtual RC username associated with your Zulip account. Did you `set_name` already?"@
}

/// The apologetic reply around a remote failure.
pub open spec fn request_failed_msg(e: Seq<char>) -> Seq<char> {
    "Status Bot failed to perform your request :(\nPlease report this error to the Status Bot maintainer(s)\nError: "@
        + e
}

/// The pictograph swapped for its chat alias, where the inverse table knows
/// one.
pub open spec fn subst_emoji_spec(inv: Seq<(String, String)>, e: Seq<char>) -> Seq<char> {
    match assoc(inv, e) {
        Some(alias) => alias,
        None => e,
    }
}

/// A stored expiration is kept only when it is a well-formed timestamp.
pub open spec fn sanitize_expires(x: Option<Timestamp>) -> Option<Timestamp> {
    match x {
        Some(t) => if t.wf() {
            Some(t)
        } else {
            None
        },
        None => None,
    }
}

/// How a desk's status reads in a reply: the pictograph is swapped for its
/// chat alias where the inverse table knows one, and the segments are joined
/// as the status renderer does.
pub open spec fn desk_status_display(inv: Seq<(String, String)>, desk: Desk) -> Seq<char> {
    let emoji = match desk.emoji {
        Some(e) => Some(subst_emoji_spec(inv, e@)),
        None => None,
    };
    render_status_spec(emoji, opt_view(&desk.status), sanitize_expires(desk.expires_at))
}

/// The diagnostic report of a desk lookup: the normalized name, the canonical
/// name actually looked up, and the desk id found for it.
pub open spec fn lookup_report_msg(dir: Directory, name: Seq<char>) -> Seq<char> {
    let corrected = match table_get(dir.corrections_view(), name) {
        Some(c) => c@,
        None => name,
    };
    let canonical = normalize_spec(corrected);
    let id_str = match table_get(dir.entries_view(), canonical) {
        Some(entry) => "Some("@ + dec_digits(entry.0 as int) + ")"@,
        None => "None"@,
    };
    "**Looking up your Virtual RC desk:**\n* Parsed Zulup username: `\""@ + normalize_spec(name)
        + "\"`\n* Virtual RC username match: `\""@ + canonical + "\"`\n* Virtual RC desk id: `"@
        + id_str + "`"@
}

/// The status bot: the alias tables, the identity directory, the webhook
/// token and the avatar's home position.
pub struct Bot {
    /// Chat emoji alias to standard alias candidates.
    pub emojis: ZulipEmoji,
    /// Pictograph grapheme back to colon-fenced chat alias.
    pub emojis_inv: ZulipEmoji,
    /// Canonical owner name to desk, and the correction table.
    pub directory: Directory,
    /// The shared secret that authenticates inbound webhooks.
    pub api_token: Secret,
    /// Where the avatar goes when its work is done.
    pub home: Position,
}

impl Bot {
    /// The inverse table is exactly the inversion of the alias table, and the
    /// directory's correction table is duplicate-free.
    pub open spec fn wf(self) -> bool {
        &&& self.directory.wf()
        &&& self.emojis_inv.pairs@.len() == invert_from(self.emojis.pairs@, 0).len()
        &&& forall|j: int|
            0 <= j < self.emojis_inv.pairs@.len() ==> (
            #[trigger] self.emojis_inv.pairs@[j].0@,
            self.emojis_inv.pairs@[j].1@,
            ) == invert_from(self.emojis.pairs@, 0)[j]
    }

    /// A fresh bot: the inverse alias table is computed from the alias table,
    /// and the directory is empty until the first refresh.
    pub fn new(emojis: ZulipEmoji, api_token: Secret, home: Position) -> (r: Bot)
        ensures
            r.wf(),
            r.emojis == emojis,
            r.directory.entries_view().len() == 0,
            r.directory.corrections_view().len() == 0,
            r.api_token == api_token,
            r.home == home,
    {
        let emojis_inv = emojis.inverse();
        Bot { emojis, emojis_inv, directory: Directory::new(), api_token, home }
    }

    /// Whether the webhook token is the bot's own. A mismatch is worth a log
    /// line, but does not fail the request.
    pub fn token_matches(&self, token: &str) -> (r: bool)
        ensures
            r == (self.api_token.0@ == token@),
    {
        self.api_token.matches(token)
    }

    /// Strips pronoun and cohort decorations from a chat display name.
    pub fn parse_zulip_username(&self, zulip_username: &str) -> (r: String)
        ensures
            r@ == normalize_spec(zulip_username@),
    {
        normalize_username(zulip_username)
    }

    /// Parses one line of free text into exactly one command.
    pub fn parse_cmd(&self, message: &str) -> (c: Command)
        ensures
            parse_matches(c, self.emojis.pairs@, message@),
    {
        parse_line(&self.emojis, message)
    }

    /// Parses the argument string of a `status` command.
    pub fn parse_status(&self, input: &str) -> (st: Status)
        ensures
            crate::status::status_matches(st, self.emojis.pairs@, input@),
            st.wf(),
    {
        crate::status::parse_status_text(&self.emojis, input)
    }

    /// Resolves a chat emoji alias (without colons) to a pictograph.
    pub fn parse_emoji(&self, maybe_alias: &str) -> (r: Option<String>)
        ensures
            opt_view(&r) == resolve_alias_spec(self.emojis.pairs@, maybe_alias@),
    {
        let chars = to_chars(maybe_alias);
        self.emojis.resolve_alias(&chars)
    }

    /// Looks the sender's desk up: correction table, then normalizer, then
    /// the desk table.
    pub fn lookup_desk_id(&self, zulip_username: &str) -> (r: Option<(usize, Position)>)
        ensures
            r == self.directory.lookup_spec(zulip_username@),
    {
        self.directory.lookup(zulip_username)
    }

    /// Applies the outcome of a directory fetch: success replaces the desk
    /// table wholesale, failure is skipped and the previous table stays
    /// authoritative.
    pub fn cache_desk_owners(&mut self, fetched: Result<Vec<Desk>, DirectoryFetchError>)
        ensures
            fetched is Err ==> final(self).directory == old(self).directory,
            fetched matches Ok(desks) ==> (final(self).directory.entries_view()
                == crate::directory::rebuilt_entries(desks@, desks@.len() as int)
                && final(self).directory.corrections_view()
                == old(self).directory.corrections_view()),
            old(self).wf() ==> final(self).wf(),
            final(self).emojis == old(self).emojis,
            final(self).emojis_inv == old(self).emojis_inv,
            final(self).api_token == old(self).api_token,
            final(self).home == old(self).home,
    {
        self.directory.apply_refresh(fetched);
    }

    /// The request that sends the avatar to its home position.
    pub fn home_request(&self) -> (r: UpdateBotRequest)
        ensures
            r.x == Some(self.home.x),
            r.y == Some(self.home.y),
            r.name is None,
            r.emoji is None,
            r.direction is None,
            r.can_be_mentioned is None,
    {
        UpdateBotRequest {
            name: None,
            emoji: None,
            x: Some(self.home.x),
            y: Some(self.home.y),
            direction: None,
            can_be_mentioned: None,
        }
    }
}

/// What an inbound event leaves behind: the state change and the dispatch,
/// by command. The desk lookup comes first; without a desk, every command is
/// answered with the missing-desk text.
pub open spec fn respond_spec(
    pre: Bot,
    post: Bot,
    cmd: Command,
    sender: Seq<char>,
    r: Dispatch,
) -> bool {
    match pre.directory.lookup_spec(sender) {
        None => post == pre && finished_content(r, MISSING_DESK@),
        Some(entry) => match cmd {
            Command::Help => post == pre && finished_content(r, HELP_TEXT@),
            Command::Clear => post == pre && finished_content(r, HELP_TEXT@),
            Command::Feedback(_) => post == pre && finished_content(r, HELP_TEXT@),
            Command::Show => post == pre && r == (Dispatch::FetchAndShow { desk_id: entry.0 }),
            Command::Status(st) => post == pre && (r matches Dispatch::UpdateStatus {
                desk_id,
                desk_pos,
                status,
            } && desk_id == entry.0 && desk_pos == entry.1 && status == st),
            Command::SetName(n) => {
                &&& table_get(post.directory.corrections_view(), sender) == Some(n)
                &&& forall|u: Seq<char>|
                    u != sender ==> #[trigger] table_get(post.directory.corrections_view(), u)
                        == table_get(pre.directory.corrections_view(), u)
                &&& post.directory.entries_view() == pre.directory.entries_view()
                &&& post.emojis == pre.emojis
                &&& post.emojis_inv == pre.emojis_inv
                &&& post.api_token == pre.api_token
                &&& post.home == pre.home
                &&& finished_content(r, set_name_msg(n@))
            },
            Command::ClearName => {
                &&& table_get(post.directory.corrections_view(), sender) is None
                &&& forall|u: Seq<char>|
                    u != sender ==> #[trigger] table_get(post.directory.corrections_view(), u)
                        == table_get(pre.directory.corrections_view(), u)
                &&& post.directory.entries_view() == pre.directory.entries_view()
                &&& post.emojis == pre.emojis
                &&& post.emojis_inv == pre.emojis_inv
                &&& post.api_token == pre.api_token
                &&& post.home == pre.home
                &&& match table_get(pre.directory.corrections_view(), sender) {
                    Some(prev) => finished_content(r, removed_name_msg(prev@)),
                    None => finished_content(r, no_correction_msg()),
                }
            },
            Command::TestMissingDesk => post == pre && finished_content(r, MISSING_DESK@),
            Command::TestLookupDesk(name) => post == pre && finished_content(
                r,
                lookup_report_msg(pre.directory, name@),
            ),
            Command::TestSendHome => post == pre && r == Dispatch::SendHome,
        },
    }
}

impl Bot {
    /// Routes an inbound webhook: a mention needs no response; a direct
    /// message is parsed into a command, the sender's desk is looked up, the
    /// local commands run to completion, and the remote ones come back as
    /// work for the surrounding program.
    pub fn respond(&mut self, webhook: &OutgoingWebhook) -> (r: Dispatch)
        requires
            old(self).wf(),
        ensures
            final(self).wf(),
            webhook.trigger == Trigger::Mention ==> r == Dispatch::NoResponse && *final(self)
                == *old(self),
            webhook.trigger == Trigger::DirectMessage ==> exists|cmd: Command|
                #[trigger] parse_matches(cmd, old(self).emojis.pairs@, webhook.data@)
                    && respond_spec(
                    *old(self),
                    *final(self),
                    cmd,
                    webhook.message.sender_full_name@,
                    r,
                ),
    {
        if webhook.trigger == Trigger::Mention {
            return Dispatch::NoResponse;
        }
        let command = self.parse_cmd(webhook.data.as_str());
        let sender = &webhook.message.sender_full_name;
        let entry = self.lookup_desk_id(sender.as_str());
        let ghost cmd_g = command;
        let ghost pre = *self;
        let r = match entry {
            None => Dispatch::Finished(missing_desk_reply()),
            Some((desk_id, desk_pos)) => match command {
                Command::Help => Dispatch::Finished(help_reply()),
                Command::Clear => Dispatch::Finished(help_reply()),
                Command::Feedback(_) => Dispatch::Finished(help_reply()),
                Command::Show => Dispatch::FetchAndShow { desk_id },
                Command::Status(status) => Dispatch::UpdateStatus { desk_id, desk_pos, status },
                Command::SetName(rc_username) => {
                    let reply = self.cmd_set_name(sender.as_str(), rc_username);
                    Dispatch::Finished(reply)
                },
                Command::ClearName => {
                    let reply = self.cmd_clear_name(sender.as_str());
                    Dispatch::Finished(reply)
                },
                Command::TestMissingDesk => Dispatch::Finished(missing_desk_reply()),
                Command::TestLookupDesk(name) => {
                    let reply = self.cmd_test_lookup_desk(name.as_str());
                    Dispatch::Finished(reply)
                },
                Command::TestSendHome => Dispatch::SendHome,
            },
        };
        proof {
            assert(respond_spec(pre, *self, cmd_g, webhook.message.sender_full_name@, r));
        }
        r
    }

    /// `set_name`: declares the sender's office username and confirms it.
    fn cmd_set_name(&mut self, zulip_username: &str, rc_username: String) -> (r: Reply)
        requires
            old(self).wf(),
        ensures
            final(self).wf(),
            table_get(final(self).directory.corrections_view(), zulip_username@) == Some(
                rc_username,
            ),
            forall|u: Seq<char>|
                u != zulip_username@ ==> #[trigger] table_get(
                    final(self).directory.corrections_view(),
                    u,
                ) == table_get(old(self).directory.corrections_view(), u),
            final(self).directory.entries_view() == old(self).directory.entries_view(),
            final(self).emojis == old(self).emojis,
            final(self).emojis_inv == old(self).emojis_inv,
            final(self).api_token == old(self).api_token,
            final(self).home == old(self).home,
            reply_content(r, set_name_msg(rc_username@)),
    {
        let mut content = String::from_str("Set your Virtual RC username to '");
        content.append(rc_username.as_str());
        content.append("'");
        proof {
            assert(content@ =~= set_name_msg(rc_username@));
        }
        self.directory.set_correction(zulip_username, rc_username);
        Reply::Content { content }
    }

    /// `clear_name`: removes the sender's declared office username and
    /// reports whether one existed.
    fn cmd_clear_name(&mut self, zulip_username: &str) -> (r: Reply)
        requires
            old(self).wf(),
        ensures
            final(self).wf(),
            table_get(final(self).directory.corrections_view(), zulip_username@) is None,
            forall|u: Seq<char>|
                u != zulip_username@ ==> #[trigger] table_get(
                    final(self).directory.corrections_view(),
                    u,
                ) == table_get(old(self).directory.corrections_view(), u),
            final(self).directory.entries_view() == old(self).directory.entries_view(),
            final(self).emojis == old(self).emojis,
            final(self).emojis_inv == old(self).emojis_inv,
            final(self).api_token == old(self).api_token,
            final(self).home == old(self).home,
            match table_get(old(self).directory.corrections_view(), zulip_username@) {
                Some(prev) => reply_content(r, removed_name_msg(prev@)),
                None => reply_content(r, no_correction_msg()),
            },
    {
        match self.directory.clear_correction(zulip_username) {
            Some(prev) => {
                let mut content = String::from_str("Removed your corrected Virtual RC username '");
                content.append(prev.as_str());
                content.append("'");
                proof {
                    assert(content@ =~= removed_name_msg(prev@));
                }
                Reply::Content { content }
            },
            None => Reply::Content {
                content: String::from_str(
                    "There was not a corrected Virtual RC username associated with your Zulip account. Did you `set_name` already?",
                ),
            },
        }
    }

    /// Diagnostic: reports the steps of the desk lookup for a name.
    fn cmd_test_lookup_desk(&self, name: &str) -> (r: Reply)
        ensures
            reply_content(r, lookup_report_msg(self.directory, name@)),
    {
        let parsed = normalize_username(name);
        let mut content = String::from_str("**Looking up your Virtual RC desk:**\n* Parsed Zulup username: `\"");
        content.append(parsed.as_str());
        content.append("\"`\n* Virtual RC username match: `\"");
        let corrected = self.directory.correction_of(name);
        let canonical = normalize_username(corrected.as_str());
        content.append(canonical.as_str());
        content.append("\"`\n* Virtual RC desk id: `");
        match self.directory.lookup(name) {
            Some((desk_id, _pos)) => {
                content.append("Some(");
                let num = dec_string(desk_id);
                content.append(num.as_str());
                content.append(")");
            },
            None => {
                content.append("None");
            },
        }
        content.append("`");
        proof {
            assert(content@ =~= lookup_report_msg(self.directory, name@));
        }
        Reply::Content { content }
    }

    /// Rebuilds a status from desk fields, swapping the pictograph for its
    /// chat alias where the inverse table knows one, and dropping a stored
    /// expiration that is not a well-formed timestamp.
    fn desk_status(&self, desk: &Desk) -> (st: Status)
        ensures
            opt_view(&st.emoji) == (match desk.emoji {
                Some(e) => Some(subst_emoji_spec(self.emojis_inv.pairs@, e@)),
                None => None::<Seq<char>>,
            }),
            st.status == desk.status,
            st.expires_at == sanitize_expires(desk.expires_at),
            st.wf(),
    {
        let emoji: Option<String> = match &desk.emoji {
            Some(e) => {
                let echars = to_chars(e.as_str());
                match self.emojis_inv.get_value(&echars) {
                    Some(alias) => Some(alias),
                    None => Some(e.clone()),
                }
            },
            None => None,
        };
        let status = match &desk.status {
            Some(s) => Some(s.clone()),
            None => None,
        };
        let expires_at = match desk.expires_at {
            Some(t) => if crate::timestamp::timestamp_wf(&t) {
                Some(t)
            } else {
                None
            },
            None => None,
        };
        Status { emoji, status, expires_at }
    }

    /// The confirmation after a successful desk update: the confirmed status,
    /// re-rendered from the platform's answer, with the chat-side alias
    /// swapped in for the pictograph.
    pub fn status_updated_reply(&self, desk: &Desk) -> (r: Reply)
        ensures
            reply_content(
                r,
                "**:check: Updated your status**: "@ + desk_status_display(
                    self.emojis_inv.pairs@,
                    *desk,
                ),
            ),
    {
        let st = self.desk_status(desk);
        let rendered = st.render();
        let mut content = String::from_str("**:check: Updated your status**: ");
        content.append(rendered.as_str());
        Reply::Content { content }
    }

    /// The `show` reply: the desk's status as a reply text, a wholly-empty
    /// status as the distinct empty-status message, and a fetch failure as
    /// its own text.
    pub fn show_reply(&self, fetched: Result<Desk, String>) -> (r: Reply)
        ensures
            match fetched {
                Ok(desk) => reply_content(
                    r,
                    if desk_status_display(self.emojis_inv.pairs@, desk).len() == 0 {
                        EMPTY_STATUS@
                    } else {
                        desk_status_display(self.emojis_inv.pairs@, desk)
                    },
                ),
                Err(e) => reply_content(r, e@),
            },
    {
        match fetched {
            Ok(desk) => {
                let st = self.desk_status(&desk);
                let rendered = st.render();
                if rendered.as_str().unicode_len() == 0 {
                    Reply::Content { content: String::from_str(EMPTY_STATUS) }
                } else {
                    Reply::Content { content: rendered }
                }
            },
            Err(e) => Reply::Content { content: e },
        }
    }
}

/// The reply carrying the help text.
pub fn help_reply() -> (r: Reply)
    ensures
        reply_content(r, HELP_TEXT@),
{
    Reply::Content { content: String::from_str(HELP_TEXT) }
}

/// The reply when no desk matches the sender's chat username.
pub fn missing_desk_reply() -> (r: Reply)
    ensures
        reply_content(r, MISSING_DESK@),
{
    Reply::Content { content: String::from_str(MISSING_DESK) }
}

/// The apologetic reply around a remote failure.
pub fn request_failed_reply(e: &String) -> (r: Reply)
    ensures
        reply_content(r, request_failed_msg(e@)),
{
    let mut content = String::from_str(
        "Status Bot failed to perform your request :(\nPlease report this error to the Status Bot maintainer(s)\nError: ",
    );
    content.append(e.as_str());
    proof {
        assert(content@ =~= request_failed_msg(e@));
    }
    Reply::Content { content }
}

/// The reply after the diagnostic send-home command.
pub fn sent_home_reply(outcome: Result<(), String>) -> (r: Reply)
    ensures
        match outcome {
            Ok(()) => reply_content(r, "Sent bot home"@),
            Err(e) => reply_content(r, "Failed to to send bot home: "@ + e@),
        },
{
    match outcome {
        Ok(()) => Reply::Content { content: String::from_str("Sent bot home") },
        Err(e) => {
            let mut content = String::from_str("Failed to to send bot home: ");
            content.append(e.as_str());
            proof {
                assert(content@ =~= "Failed to to send bot home: "@ + e@);
            }
            Reply::Content { content }
        },
    }
}

/// The reply when the correction table is transiently unavailable for
/// writing.
pub fn lock_failure_reply() -> (r: Reply)
    ensures
        reply_content(
            r,
            "Failed to set your corrected username. So sorry! Please try again. If this persists, then it is a bug. Please write a message to one of the StatusBot maintainers"@,
        ),
{
    Reply::Content {
        content: String::from_str(
            "Failed to set your corrected username. So sorry! Please try again. If this persists, then it is a bug. Please write a message to one of the StatusBot maintainers",
        ),
    }
}

} // verus!
