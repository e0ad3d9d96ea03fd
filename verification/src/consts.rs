//! Fixed texts and configuration constants of the bot.

use vstd::prelude::*;

verus! {

/// How often the identity directory is refreshed, in seconds.
pub const DESKS_INTERVAL: u64 = 60;

/// The reply when the user's status is entirely empty.
pub const EMPTY_STATUS: &'static str = "Your status is empty";

/// The reply when no desk could be matched to the sender's chat username.
pub const MISSING_DESK: &'static str = "**Unable to a find a desk in Vritual RC asssociated with your username**\n* Make sure you have [claimed a desk](https://recurse.notion.site/RC-Together-User-Guide-695cc163c76c47449347bd97a6842c3b) in Virutal RC\n* If your Zulip username does not match your Virtual RC username... (ignoring the (pronouns) and (batch) parentheticals)\n  * Fix username mismatch between Zulip <-> Virtual RC by using command `set_name {name}` with Status Bot\n  * `set_name {name}` Tell Status Bot your Virtual RC username\n* If Status Bot still cannot find your desk in Virtual RC, please [create an issue](https://github.com/jryio/statusbot/issues/new) on Github\n";

/// The help text: every command the bot understands.
pub const HELP_TEXT: &'static str = "**How to use Status Bot**:\n* `status {emoji} {text} {expires_at}` Set your status\n  * `{emoji}` (optional) - A unicode emoji\n    * Custom emojis are not supported (:sadparrot:)\n  * `{status}` (optional) - Status message for others to see\n    * Cannot contain `<` or `>` characters\n  * `{expires_at}` optional - The expiration time for the status (default 30m)\n    * Expiration should be set using zulip's [<time> selector](https://zulip.com/help/global-times)\n    * Choose a time in the future!\n  * `status :crab: Rewriting Status Bot in Rust <time:2025-01-01T10:00:00-04:00>`\n* `show` Display your current status\n* `help` Print help message\n\nNote: Status Bot uses your Zulip username to match your Virtual RC username. If you're having\ntrouble setting your status you can tell Status Bot what your Virtual RC name is with the\ncommand `set_name {name}`\n\nBug with Status Bot? Please [create an issue](https://github.com/jryio/statusbot/issues/new) on Github\n";

} // verus!
