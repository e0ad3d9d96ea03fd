//! The command parser: one line of free text becomes exactly one command.
//!
//! The line is split on Unicode whitespace. The first token selects the
//! command by exact, case-sensitive match against the keyword set; anything
//! else, and the empty line, yields the help command. Commands that take an
//! argument receive the remaining tokens re-joined with single spaces.

use vstd::prelude::*;

use crate::emoji::ZulipEmoji;
use crate::status::{parse_status_text, status_matches, Status};
use crate::text::{
    chars_to_string,
    copy_range,
    join_tokens,
    join_tokens_from,
    lemma_skip_spaces_bounds,
    lemma_token_end_bounds,
    lemma_tokens_nonempty,
    lemma_tokens_skip,
    lemma_tokens_step,
    skip_spaces_exec,
    str_eq_chars,
    to_chars,
    token_end_exec,
    tokens_from,
    tokens_of,
};

verus! {

/// A command the bot knows about. Parsing any input line yields exactly one
/// of these; unrecognized or empty input always yields `Help`.
#[derive(Debug, PartialEq, Eq)]
pub enum Command {
    /// Set the sender's status.
    Status(Status),
    /// Show the sender's current status.
    Show,
    /// Clear the sender's status.
    Clear,
    /// Send feedback to the maintainers; the text is mandatory.
    Feedback(String),
    /// Declare the sender's office username; an empty name is accepted and
    /// stored as given.
    SetName(String),
    /// Remove the sender's declared office username.
    ClearName,
    /// Show the help text.
    Help,
    /// Diagnostic: show the missing-desk text.
    TestMissingDesk,
    /// Diagnostic: report the desk lookup steps for a name.
    TestLookupDesk(String),
    /// Diagnostic: send the bot avatar home.
    TestSendHome,
}

/// The keywords the parser recognizes as first tokens.
pub open spec fn is_command_keyword(t: Seq<char>) -> bool {
    ||| t == "help"@
    ||| t == "show"@
    ||| t == "clear"@
    ||| t == "feedback"@
    ||| t == "status"@
    ||| t == "set_name"@
    ||| t == "clear_name"@
    ||| t == "test_missing_desk"@
    ||| t == "test_lookup_desk"@
    ||| t == "test_send_home"@
}

/// `c` is exactly what parsing `line` against the alias table `ps` yields:
/// the first token selects the command, the re-joined remainder is its
/// argument, and `status` hands its remainder to the status sub-parser.
pub open spec fn parse_matches(c: Command, ps: Seq<(String, String)>, line: Seq<char>) -> bool {
    let toks = tokens_of(line);
    if toks.len() == 0 {
        c == Command::Help
    } else {
        let first = toks[0];
        let rest = join_tokens(toks.drop_first());
        if first == "help"@ {
            c == Command::Help
        } else if first == "show"@ {
            c == Command::Show
        } else if first == "clear"@ {
            c == Command::Clear
        } else if first == "feedback"@ {
            if rest.len() == 0 {
                c == Command::Help
            } else {
                c matches Command::Feedback(f) && f@ == rest
            }
        } else if first == "status"@ {
            if rest.len() == 0 {
                c == Command::Help
            } else {
                c matches Command::Status(st) && status_matches(st, ps, rest) && st.wf()
            }
        } else if first == "set_name"@ {
            c matches Command::SetName(n) && n@ == rest
        } else if first == "clear_name"@ {
            c == Command::ClearName
        } else if first == "test_missing_desk"@ {
            c == Command::TestMissingDesk
        } else if first == "test_lookup_desk"@ {
            c matches Command::TestLookupDesk(n) && n@ == rest
        } else if first == "test_send_home"@ {
            c == Command::TestSendHome
        } else {
            c == Command::Help
        }
    }
}

/// Unrecognized input always yields the help command: a line that is empty or
/// whitespace-only, and a line whose first token is no keyword, both parse to
/// `Help`.
pub proof fn lemma_unrecognized_is_help(c: Command, ps: Seq<(String, String)>, line: Seq<char>)
    requires
        parse_matches(c, ps, line),
        tokens_of(line).len() == 0 || !is_command_keyword(tokens_of(line)[0]),
    ensures
        c == Command::Help,
{
}

/// Parses one line of free text into exactly one command. Parsing never
/// fails.
pub fn parse_line(table: &ZulipEmoji, message: &str) -> (c: Command)
    ensures
        parse_matches(c, table.pairs@, message@),
{
    let v = to_chars(message);
    let ghost s = v@;
    let i0 = skip_spaces_exec(&v, 0);
    proof {
        lemma_skip_spaces_bounds(s, 0);
        lemma_tokens_skip(s, 0);
    }
    if i0 == v.len() {
        return Command::Help;
    }
    let j0 = token_end_exec(&v, i0);
    proof {
        lemma_token_end_bounds(s, i0 as int);
        lemma_tokens_step(s, i0 as int);
        lemma_tokens_nonempty(s, 0);
        assert(tokens_of(s)[0] == s.subrange(i0 as int, j0 as int));
        assert(tokens_of(s).drop_first() =~= tokens_from(s, j0 as int));
    }
    let first = copy_range(&v, i0, j0);
    let rest = join_tokens_from(&v, j0);
    let ghost rest_spec = join_tokens(tokens_of(s).drop_first());
    proof {
        assert(rest@ == rest_spec);
    }
    if str_eq_chars("help", &first) {
        Command::Help
    } else if str_eq_chars("show", &first) {
        Command::Show
    } else if str_eq_chars("clear", &first) {
        Command::Clear
    } else if str_eq_chars("feedback", &first) {
        if rest.len() == 0 {
            Command::Help
        } else {
            Command::Feedback(chars_to_string(&rest))
        }
    } else if str_eq_chars("status", &first) {
        if rest.len() == 0 {
            Command::Help
        } else {
            let input = chars_to_string(&rest);
            Command::Status(parse_status_text(table, input.as_str()))
        }
    } else if str_eq_chars("set_name", &first) {
        Command::SetName(chars_to_string(&rest))
    } else if str_eq_chars("clear_name", &first) {
        Command::ClearName
    } else if str_eq_chars("test_missing_desk", &first) {
        Command::TestMissingDesk
    } else if str_eq_chars("test_lookup_desk", &first) {
        Command::TestLookupDesk(chars_to_string(&rest))
    } else if str_eq_chars("test_send_home", &first) {
        Command::TestSendHome
    } else {
        Command::Help
    }
}

} // verus!
