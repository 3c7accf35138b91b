//! Parsing of prompt input: variable assignments `name = value`, calls
//! `authz(v1, v2, ...)`, the quit command, and everything else.
//!
//! A variable name is one letter or underscore followed by letters, digits
//! and underscores. The argument list of `authz(...)` may hold only word
//! characters, whitespace and commas, and every comma-separated piece must
//! trim to a valid variable name.

use vstd::prelude::*;
use vstd::string::*;

use crate::text::find_char;
use crate::text::find_char_in;
use crate::text::is_alpha;
use crate::text::is_space;
use crate::text::is_space_char;
use crate::text::is_word;
use crate::text::is_word_char;
use crate::text::lemma_find_char_bounds;
use crate::text::spec_trim;
use crate::text::split_trim;
use crate::text::split_trimmed;
use crate::text::trim_str;

verus! {

/// A valid variable name: a letter or underscore, then word characters.
pub open spec fn is_var_name(s: Seq<char>) -> bool {
    &&& s.len() > 0
    &&& (is_alpha(s[0]) || s[0] == '_')
    &&& forall|i: int| 0 < i < s.len() ==> is_word(#[trigger] s[i])
}

/// Whether `s` is a valid variable name.
pub fn is_valid_var_name(s: &str) -> (r: bool)
    ensures
        r == is_var_name(s@),
{
    let len = s.unicode_len();
    if len == 0 {
        return false;
    }
    let first = s.get_char(0);
    if !(('a' <= first && first <= 'z') || ('A' <= first && first <= 'Z') || first == '_') {
        return false;
    }
    let mut i: usize = 1;
    while i < len
        invariant
            1 <= i <= len,
            len == s@.len(),
            forall|j: int| 0 < j < i ==> is_word(#[trigger] s@[j]),
        decreases len - i,
    {
        if !is_word_char(s.get_char(i)) {
            return false;
        }
        i = i + 1;
    }
    true
}

/// What `name = value` parses to: the text before the first `=` must trim to
/// a variable name; the trimmed remainder is the value.
pub open spec fn var_assignment(input: Seq<char>) -> Option<(Seq<char>, Seq<char>)> {
    let i = find_char(input, '=');
    if i == -1 {
        None
    } else {
        let name = spec_trim(input.take(i));
        let value = spec_trim(input.skip(i + 1));
        if is_var_name(name) {
            Some((name, value))
        } else {
            None
        }
    }
}

/// Parses a variable assignment `name = value`.
pub fn parse_variable_assignment(input: &str) -> (r: Option<(String, String)>)
    ensures
        r matches Some(p) ==> var_assignment(input@) == Some((p.0@, p.1@)),
        r is None ==> var_assignment(input@) is None,
{
    let len = input.unicode_len();
    match find_char_in(input, '=') {
        None => None,
        Some(i) => {
            proof {
                lemma_find_char_bounds(input@, '=');
            }
            let name = trim_str(input.substring_char(0, i));
            let value = trim_str(input.substring_char(i + 1, len));
            proof {
                assert(input@.subrange(0, i as int) =~= input@.take(i as int));
                assert(input@.subrange(i + 1, len as int) =~= input@.skip(i + 1));
            }
            if is_valid_var_name(name.as_str()) {
                Some((name, value))
            } else {
                None
            }
        },
    }
}

pub open spec fn authz_prefix() -> Seq<char> {
    seq!['a', 'u', 't', 'h', 'z', '(']
}

/// What `authz(v1, v2, ...)` parses to: between the prefix and the closing
/// parenthesis only word characters, whitespace and commas may stand, and
/// every comma-separated piece must trim to a variable name.
pub open spec fn authz_args(input: Seq<char>) -> Option<Seq<Seq<char>>> {
    if input.len() >= 8 && input.take(6) == authz_prefix() && input.last() == ')' && (forall|j: int|
        6 <= j < input.len() - 1 ==> is_word(#[trigger] input[j]) || is_space(input[j])
            || input[j] == ',') {
        let parts = split_trim(input.subrange(6, input.len() - 1), ',');
        if forall|k: int| 0 <= k < parts.len() ==> is_var_name(#[trigger] parts[k]) {
            Some(parts)
        } else {
            None
        }
    } else {
        None
    }
}

/// Parses an `authz(v1, v2, ...)` call into its argument names.
pub fn parse_authz(input: &str) -> (r: Option<Vec<String>>)
    ensures
        r matches Some(v) ==> authz_args(input@) == Some(v.deep_view()),
        r is None ==> authz_args(input@) is None,
{
    let len = input.unicode_len();
    if len < 8 {
        return None;
    }
    let prefix_ok = input.get_char(0) == 'a' && input.get_char(1) == 'u' && input.get_char(2)
        == 't' && input.get_char(3) == 'h' && input.get_char(4) == 'z' && input.get_char(5) == '(';
    proof {
        assert forall|j: int| 0 <= j < 6 implies #[trigger] input@.take(6)[j] == input@[j] by {}
    }
    if !prefix_ok {
        proof {
            assert(input@.take(6) != authz_prefix());
        }
        return None;
    }
    assert(input@.take(6) =~= authz_prefix());
    if input.get_char(len - 1) != ')' {
        return None;
    }
    let mut j: usize = 6;
    while j < len - 1
        invariant
            6 <= j <= len - 1,
            len == input@.len(),
            len >= 8,
            forall|t: int|
                6 <= t < j ==> is_word(#[trigger] input@[t]) || is_space(input@[t]) || input@[t]
                    == ',',
        decreases len - j,
    {
        let c = input.get_char(j);
        if !(is_word_char(c) || is_space_char(c) || c == ',') {
            return None;
        }
        j = j + 1;
    }
    let body = input.substring_char(6, len - 1);
    proof {
        assert(body@ =~= input@.subrange(6, input@.len() - 1));
    }
    let parts = split_trimmed(body, ',');
    let ghost parts_view = parts.deep_view();
    let n = parts.len();
    let mut k: usize = 0;
    while k < n
        invariant
            0 <= k <= n,
            n == parts.len(),
            parts.deep_view() == parts_view,
            parts_view == split_trim(input@.subrange(6, input@.len() - 1), ','),
            forall|t: int| 0 <= t < k ==> is_var_name(#[trigger] parts_view[t]),
        decreases n - k,
    {
        if !is_valid_var_name(parts[k].as_str()) {
            assert(!is_var_name(parts_view[k as int]));
            return None;
        }
        k = k + 1;
    }
    Some(parts)
}

/// A command read from the prompt.
pub enum ParsedCommand {
    Quit,
    UnknownCommand(String),
    VariableAssignment(String, String),
    NoOp,
    FnAuthz(Vec<String>),
}

/// The mathematical shape of a parsed command.
pub enum CommandV {
    Quit,
    UnknownCommand(Seq<char>),
    VariableAssignment(Seq<char>, Seq<char>),
    NoOp,
    FnAuthz(Seq<Seq<char>>),
}

impl View for ParsedCommand {
    type V = CommandV;

    open spec fn view(&self) -> CommandV {
        match self {
            ParsedCommand::Quit => CommandV::Quit,
            ParsedCommand::UnknownCommand(s) => CommandV::UnknownCommand(s@),
            ParsedCommand::VariableAssignment(n, v) => CommandV::VariableAssignment(n@, v@),
            ParsedCommand::NoOp => CommandV::NoOp,
            ParsedCommand::FnAuthz(args) => CommandV::FnAuthz(args.deep_view()),
        }
    }
}

pub open spec fn quit_command() -> Seq<char> {
    seq!['q', 'u', 'i', 't', '(', ')']
}

/// What any prompt input parses to. An `authz(...)` call wins over a variable
/// assignment, which wins over `quit()`; empty input is a no-op; everything
/// else is an unknown command carrying the raw input.
pub open spec fn parse_cmd_spec(input: Seq<char>) -> CommandV {
    if authz_args(input) is Some {
        CommandV::FnAuthz(authz_args(input)->Some_0)
    } else if var_assignment(input) is Some {
        CommandV::VariableAssignment(
            var_assignment(input)->Some_0.0,
            var_assignment(input)->Some_0.1,
        )
    } else if input == quit_command() {
        CommandV::Quit
    } else if input.len() == 0 {
        CommandV::NoOp
    } else {
        CommandV::UnknownCommand(input)
    }
}

/// Parses one line of prompt input.
pub fn parse_cmd(input: &str) -> (r: ParsedCommand)
    ensures
        r@ == parse_cmd_spec(input@),
{
    if let Some(args) = parse_authz(input) {
        return ParsedCommand::FnAuthz(args);
    }
    if let Some((name, value)) = parse_variable_assignment(input) {
        return ParsedCommand::VariableAssignment(name, value);
    }
    let len = input.unicode_len();
    let is_quit = len == 6 && input.get_char(0) == 'q' && input.get_char(1) == 'u'
        && input.get_char(2) == 'i' && input.get_char(3) == 't' && input.get_char(4) == '('
        && input.get_char(5) == ')';
    if is_quit {
        proof {
            assert(input@ =~= quit_command());
        }
        return ParsedCommand::Quit;
    }
    proof {
        if input@ == quit_command() {
            assert(input@[0] == 'q' && input@[1] == 'u' && input@[2] == 'i' && input@[3] == 't'
                && input@[4] == '(' && input@[5] == ')');
        }
    }
    if len == 0 {
        ParsedCommand::NoOp
    } else {
        ParsedCommand::UnknownCommand(String::from_str(input))
    }
}

} // verus!
