//! Entities and request/response shapes of the virtual-office platform, and
//! the verified compute parts of the client that talks to it: credential
//! encoding, response classification, desk lookup and error texts.
//!
//! The HTTP transport itself lives outside the library.

use vstd::prelude::*;
use vstd::string::StringExecFns;

use crate::grid::Position;
use crate::text::chars_to_string;
use crate::timestamp::{digit_char, digit_char_exec, Timestamp};

verus! {

/// The application behind a bot.
#[derive(Debug, Clone)]
pub struct App {
    pub name: String,
    pub id: usize,
}

/// What kind of block an entity is.
#[derive(Debug, Clone, Copy, PartialEq, Eq, Structural)]
pub enum EntityType {
    /// A person using the office.
    Avatar,
    /// Like an avatar, but controlled by an app rather than a person.
    Bot,
    /// A plain block.
    Wall,
    /// A block where notes can be left.
    Note,
    /// A block that can hold a hyperlink.
    Link,
    /// A block that belongs to an avatar and carries its owner's status.
    Desk,
    /// A block that joins users into a video meeting.
    ZoomLink,
    /// Someone in a meeting who could not be matched to an avatar.
    UnknownAvatar,
    /// An area where users share an audio call.
    AudioRoom,
    /// A block that configures audio rooms.
    AudioBlock,
    /// A block that shows calendar events.
    RcCalendar,
}

/// Where a bot can face.
#[derive(Debug, Clone, Copy, PartialEq, Eq, Structural)]
pub enum Direction {
    Up,
    Down,
    Left,
    Right,
}

/// The circular representation of a person.
#[derive(Debug, Clone)]
pub struct Avatar {
    pub id: usize,
    pub name: String,
    pub image_url: String,
}

/// A desk block: the carrier of a person's status.
#[derive(Debug, Clone)]
pub struct Desk {
    /// The desk id.
    pub id: usize,
    /// The entity kind, here always a desk.
    pub kind: EntityType,
    /// The grid coordinates of the desk.
    pub pos: Position,
    /// The desk color; the platform fixes it.
    pub color: String,
    /// The pictograph of the status.
    pub emoji: Option<String>,
    /// The text of the status.
    pub status: Option<String>,
    /// When the status expires.
    pub expires_at: Option<Timestamp>,
    /// The directory profile of the owner.
    pub profile_url: Option<String>,
    /// The owner, where the desk has one.
    pub owner: Option<Avatar>,
}

/// A message shown above a bot.
#[derive(Debug, Clone)]
pub struct Message {
    pub text: String,
    pub sent_at: String,
    pub mentioned_agent_ids: Vec<usize>,
}

/// The bot entity as the platform reports it.
#[derive(Debug)]
pub struct Bot {
    pub id: usize,
    pub kind: String,
    pub name: String,
    pub display_name: String,
    pub emoji: String,
    pub direction: String,
    pub can_be_mentioned: bool,
    pub pos: Position,
    pub app: App,
    /// The last message this bot sent; this bot sends none.
    pub message: Option<Message>,
}

/// A request body for updating the bot's attributes or position. Absent
/// fields are left unchanged by the platform.
#[derive(Debug, Default)]
pub struct UpdateBotRequest {
    pub name: Option<String>,
    pub emoji: Option<String>,
    pub x: Option<usize>,
    pub y: Option<usize>,
    pub direction: Option<Direction>,
    pub can_be_mentioned: Option<bool>,
}

/// The response to a desk listing: every desk in the office.
#[derive(Debug)]
pub struct GetDesksResponse(pub Vec<Desk>);

/// The response to a bot update: the updated bot entity.
#[derive(Debug)]
pub struct UpdateBotResponse(pub Bot);

/// The response to a desk update: the updated desk entity.
#[derive(Debug)]
pub struct UpdateDeskResponse(pub Desk);

/// A field-for-field copy of a desk.
pub fn clone_desk(d: &Desk) -> (r: Desk)
    ensures
        r == *d,
{
    Desk {
        id: d.id,
        kind: d.kind,
        pos: d.pos,
        color: d.color.clone(),
        emoji: match &d.emoji {
            Some(e) => Some(e.clone()),
            None => None,
        },
        status: match &d.status {
            Some(s) => Some(s.clone()),
            None => None,
        },
        expires_at: d.expires_at,
        profile_url: match &d.profile_url {
            Some(p) => Some(p.clone()),
            None => None,
        },
        owner: match &d.owner {
            Some(a) => Some(Avatar { id: a.id, name: a.name.clone(), image_url: a.image_url.clone() }),
            None => None,
        },
    }
}

/// The decimal digits of `n`, most significant first.
pub open spec fn dec_digits(n: int) -> Seq<char>
    decreases n,
{
    if n < 10 {
        seq![digit_char(n)]
    } else {
        dec_digits(n / 10).push(digit_char(n % 10))
    }
}

fn push_dec(out: &mut Vec<char>, n: usize)
    ensures
        final(out)@ == old(out)@ + dec_digits(n as int),
    decreases n,
{
    if n < 10 {
        out.push(digit_char_exec(n as u32));
        proof {
            assert(final(out)@ =~= old(out)@ + dec_digits(n as int));
        }
    } else {
        push_dec(out, n / 10);
        out.push(digit_char_exec((n % 10) as u32));
        proof {
            assert(final(out)@ =~= old(out)@ + dec_digits(n as int));
        }
    }
}

/// `n` written in decimal.
pub fn dec_string(n: usize) -> (r: String)
    ensures
        r@ == dec_digits(n as int),
{
    let mut out: Vec<char> = Vec::new();
    push_dec(&mut out, n);
    proof {
        assert(out@ =~= dec_digits(n as int));
    }
    chars_to_string(&out)
}

/// The first desk with the given id, if the listing holds one.
pub open spec fn find_desk_spec(desks: Seq<Desk>, desk_id: usize) -> Option<Desk>
    decreases desks.len(),
{
    if desks.len() == 0 {
        None
    } else if desks[0].id == desk_id {
        Some(desks[0])
    } else {
        find_desk_spec(desks.drop_first(), desk_id)
    }
}

/// The failure text when no desk carries the id.
pub open spec fn missing_desk_id_msg(desk_id: usize) -> Seq<char> {
    "Did not find a Virtual RC desk with id = "@ + dec_digits(desk_id as int)
}

proof fn lemma_find_desk_at(desks: Seq<Desk>, desk_id: usize, i: int)
    requires
        0 <= i < desks.len(),
        desks[i].id == desk_id,
        forall|j: int| 0 <= j < i ==> #[trigger] desks[j].id != desk_id,
    ensures
        find_desk_spec(desks, desk_id) == Some(desks[i]),
    decreases i,
{
    if i > 0 {
        lemma_find_desk_at(desks.drop_first(), desk_id, i - 1);
    }
}

proof fn lemma_find_desk_miss(desks: Seq<Desk>, desk_id: usize)
    requires
        forall|j: int| 0 <= j < desks.len() ==> #[trigger] desks[j].id != desk_id,
    ensures
        find_desk_spec(desks, desk_id) == None::<Desk>,
    decreases desks.len(),
{
    if desks.len() > 0 {
        lemma_find_desk_miss(desks.drop_first(), desk_id);
    }
}

/// Picks the desk with the given id out of a desk listing; a listing without
/// it yields the failure text naming the id.
pub fn find_desk(desks: &GetDesksResponse, desk_id: usize) -> (r: Result<Desk, String>)
    ensures
        match r {
            Ok(d) => find_desk_spec(desks.0@, desk_id) == Some(d),
            Err(e) => find_desk_spec(desks.0@, desk_id) is None && e@ == missing_desk_id_msg(
                desk_id,
            ),
        },
{
    let mut i: usize = 0;
    while i < desks.0.len()
        invariant
            i <= desks.0@.len(),
            forall|j: int| 0 <= j < i ==> #[trigger] desks.0@[j].id != desk_id,
        decreases desks.0@.len() - i,
    {
        if desks.0[i].id == desk_id {
            proof {
                lemma_find_desk_at(desks.0@, desk_id, i as int);
            }
            return Ok(clone_desk(&desks.0[i]));
        }
        i = i + 1;
    }
    proof {
        lemma_find_desk_miss(desks.0@, desk_id);
    }
    let mut msg = String::from_str("Did not find a Virtual RC desk with id = ");
    let num = dec_string(desk_id);
    msg.append(num.as_str());
    Err(msg)
}

/// What base64url encoding (with padding) of the bytes gives; the result
/// depends on the bytes alone.
pub uninterp spec fn base64url_of(bytes: Seq<u8>) -> Seq<char>;

/// Relies on data-encoding's `BASE64URL.encode`: the padded base64url form of
/// the bytes.
#[verifier::external_body]
fn base64url_encode(bytes: &[u8]) -> (r: String)
    ensures
        r@ == base64url_of(bytes@),
{
    data_encoding::BASE64URL.encode(bytes)
}

/// The HTTP basic-authorization header value for the platform credentials:
/// `Basic ` followed by the base64url form of `app_id:secret`.
pub open spec fn basic_auth_spec(app_id: Seq<char>, secret: Seq<char>) -> Seq<char> {
    "Basic "@ + base64url_of(
        vstd::utf8::encode_utf8(app_id + seq![':'] + secret),
    )
}

/// Builds the basic-authorization header value from the two credentials.
pub fn basic_auth_header(app_id: &crate::secret::Secret, secret: &crate::secret::Secret) -> (r:
    String)
    ensures
        r@ == basic_auth_spec(app_id.0@, secret.0@),
{
    let mut credentials = app_id.value().clone();
    credentials.append(":");
    credentials.append(secret.value().as_str());
    proof {
        reveal_strlit(":");
        assert(":"@ =~= seq![':']);
        assert(credentials@ =~= app_id.0@ + seq![':'] + secret.0@);
    }
    let encoded = base64url_encode(credentials.as_str().as_bytes());
    let mut r = String::from_str("Basic ");
    r.append(encoded.as_str());
    proof {
        assert(r@ =~= basic_auth_spec(app_id.0@, secret.0@));
    }
    r
}

/// The next move of the placement loop that runs before a desk update.
#[derive(Debug, PartialEq, Eq)]
pub enum PlacementAction {
    /// Move the bot to this candidate position and, if the platform accepts
    /// the move, send the desk update from there.
    MoveTo(Position),
    /// All candidates were rejected: the update fails with this text.
    GiveUp(String),
}

/// Decides the next step of the placement loop: with `rejected` candidates
/// already turned down, try the next one, clamped duplicates included; once
/// all are exhausted, give up with the failure text naming the desk.
pub fn placement_action(
    candidates: &Vec<Position>,
    rejected: usize,
    desk_id: usize,
    desk_pos: &Position,
) -> (r: PlacementAction)
    ensures
        rejected < candidates@.len() ==> r == PlacementAction::MoveTo(
            candidates@[rejected as int],
        ),
        rejected >= candidates@.len() ==> (r matches PlacementAction::GiveUp(msg) && msg@
            == no_open_position_spec(desk_id, *desk_pos)),
{
    if rejected < candidates.len() {
        PlacementAction::MoveTo(candidates[rejected])
    } else {
        PlacementAction::GiveUp(no_open_position_text(desk_id, desk_pos))
    }
}

/// The largest response body the client accepts.
pub const MAX_RESPONSE_BYTES: u64 = 284701 * 16;

/// Whether a response of this length must be rejected before parsing.
pub fn response_too_large(content_length: u64) -> (r: bool)
    ensures
        r == (content_length > MAX_RESPONSE_BYTES),
{
    content_length > MAX_RESPONSE_BYTES
}

/// The outcome of a desk update, classified by the HTTP status code of the
/// platform's answer. A `200` means the updated desk in the body counts; any
/// other code maps to a failure text.
pub open spec fn update_desk_error_spec(code: u16) -> Seq<char> {
    if code == 422 {
        "The request had an invalid JSON body and the Virtual RC API rejected it"@
    } else if code == 400 {
        "The request was invalid in some way and the Vritual RC API rejected it"@
    } else if code == 500 {
        "The Virtual RC API fell over becuase of our request"@
    } else {
        "The Vritual RC API returned an unkown HTTP header value: "@ + dec_digits(code as int)
    }
}

/// The failure text for a desk update that the platform answered with the
/// given non-`200` status code.
pub fn update_desk_error_text(code: u16) -> (r: String)
    requires
        code != 200,
    ensures
        r@ == update_desk_error_spec(code),
{
    if code == 422 {
        String::from_str("The request had an invalid JSON body and the Virtual RC API rejected it")
    } else if code == 400 {
        String::from_str("The request was invalid in some way and the Vritual RC API rejected it")
    } else if code == 500 {
        String::from_str("The Virtual RC API fell over becuase of our request")
    } else {
        let mut msg = String::from_str("The Vritual RC API returned an unkown HTTP header value: ");
        let num = dec_string(code as usize);
        msg.append(num.as_str());
        proof {
            assert(msg@ =~= update_desk_error_spec(code));
        }
        msg
    }
}

/// The failure text for a bot update, from the HTTP status code: the platform
/// refuses a position inside a block with `422`.
pub open spec fn update_bot_error_spec(code: u16) -> Seq<char> {
    if code == 422 {
        "Must not be in a block"@
    } else {
        "Unknown error while trying to update bot"@
    }
}

pub fn update_bot_error_text(code: u16) -> (r: String)
    requires
        code != 200,
    ensures
        r@ == update_bot_error_spec(code),
{
    if code == 422 {
        String::from_str("Must not be in a block")
    } else {
        String::from_str("Unknown error while trying to update bot")
    }
}

/// The failure text when none of the eight positions adjacent to the desk
/// accepted the bot.
pub open spec fn no_open_position_spec(desk_id: usize, pos: Position) -> Seq<char> {
    "Bot was unable to find an open grid position next to desk (id = "@ + dec_digits(
        desk_id as int,
    ) + ", x = "@ + dec_digits(pos.x as int) + ", y = "@ + dec_digits(pos.y as int) + ")"@
}

pub fn no_open_position_text(desk_id: usize, pos: &Position) -> (r: String)
    ensures
        r@ == no_open_position_spec(desk_id, *pos),
{
    let mut msg = String::from_str(
        "Bot was unable to find an open grid position next to desk (id = ",
    );
    let num = dec_string(desk_id);
    msg.append(num.as_str());
    msg.append(", x = ");
    let xs = dec_string(pos.x);
    msg.append(xs.as_str());
    msg.append(", y = ");
    let ys = dec_string(pos.y);
    msg.append(ys.as_str());
    msg.append(")");
    proof {
        assert(msg@ =~= no_open_position_spec(desk_id, *pos));
    }
    msg
}

} // verus!
