//! Slash commands typed by the local user. The input splits on blanks; the
//! first word names the command. `connect <designator>` dials a peer over
//! the default transport; anything else is unrecognized and reported with
//! its arguments.

use vstd::prelude::*;
use vstd::string::StrSliceExecFns;
use crate::ident::ChannelId;
use crate::locator::Locator;

verus! {

/// Whether `c` is a blank that separates words: space, tab, or a line end.
pub open spec fn is_space(c: char) -> bool {
    c == ' ' || c == '\t' || c == '\n' || c == '\r'
}

/// The first index at or after `i` holding a non-blank, or the end.
pub open spec fn skip_spaces(s: Seq<char>, i: int) -> int
    decreases s.len() - i,
{
    if 0 <= i < s.len() && is_space(s[i]) {
        skip_spaces(s, i + 1)
    } else {
        i
    }
}

/// The first index at or after `i` holding a blank, or the end.
pub open spec fn token_end(s: Seq<char>, i: int) -> int
    decreases s.len() - i,
{
    if 0 <= i < s.len() && !is_space(s[i]) {
        token_end(s, i + 1)
    } else {
        i
    }
}

/// Skipping blanks and taking a word never move backwards and stay in
/// bounds.
pub proof fn lemma_scan_bounds(s: Seq<char>, i: int)
    requires
        0 <= i <= s.len(),
    ensures
        i <= skip_spaces(s, i) <= s.len(),
        i <= token_end(s, i) <= s.len(),
        skip_spaces(s, i) < s.len() ==> !is_space(s[skip_spaces(s, i)]),
        token_end(s, i) < s.len() ==> is_space(s[token_end(s, i)]),
        0 <= i < s.len() && !is_space(s[i]) ==> token_end(s, i) > i,
    decreases s.len() - i,
{
    if i < s.len() {
        lemma_scan_bounds(s, i + 1);
    }
}

/// The words of `s` from `i` on, in order.
pub open spec fn spec_tokens_from(s: Seq<char>, i: int) -> Seq<Seq<char>>
    decreases s.len() - i,
    when 0 <= i <= s.len()
    via spec_tokens_from_decreases
{
    let j = skip_spaces(s, i);
    if j >= s.len() {
        Seq::empty()
    } else {
        seq![s.subrange(j, token_end(s, j))] + spec_tokens_from(s, token_end(s, j))
    }
}

#[via_fn]
proof fn spec_tokens_from_decreases(s: Seq<char>, i: int) {
    lemma_scan_bounds(s, i);
    let j = skip_spaces(s, i);
    if j < s.len() {
        lemma_scan_bounds(s, j);
    }
}

/// The words of `s`.
pub open spec fn spec_tokens(s: Seq<char>) -> Seq<Seq<char>> {
    spec_tokens_from(s, 0)
}

/// What a command can fail to parse as.
#[derive(Debug)]
pub enum CommandError {
    /// The command word is not one we know; carries the word and its
    /// arguments.
    Unrecognized(String, Vec<String>),
    /// The arguments do not fit the command; carries the word and its
    /// arguments.
    InvalidArguments(String, Vec<String>),
    /// A required argument is missing; carries the word and the argument's
    /// name.
    MissingArgument(String, &'static str),
}

/// A parsed command.
#[derive(Debug)]
pub enum Command {
    /// Send `msg` on the channel `channel_id`.
    SendMessage { channel_id: ChannelId, msg: String },
    /// Dial the peer the locator names.
    Connect(Locator),
}

/// What parsing a command line comes to: the first word chooses the
/// command, the following words are its arguments.
pub open spec fn command_parse_post(s: Seq<char>, r: Result<Command, CommandError>) -> bool {
    let toks = spec_tokens(s);
    if toks.len() == 0 {
        r matches Err(CommandError::Unrecognized(c, rest)) && c@ == Seq::<char>::empty()
            && rest@.len() == 0
    } else if toks[0] == "connect"@ {
        if toks.len() >= 2 {
            r matches Ok(Command::Connect(loc)) && loc.designator@ == toks[1] && loc.transport@
                == "tcpip"@
        } else {
            r matches Err(CommandError::MissingArgument(c, a)) && c@ == toks[0] && a@
                == "designator"@
        }
    } else {
        r matches Err(CommandError::Unrecognized(c, rest)) && c@ == toks[0] && rest@.len()
            == toks.len() - 1 && (forall|t: int|
            0 <= t < rest@.len() ==> #[trigger] rest@[t]@ == toks[t + 1])
    }
}

/// Whether `c` is a blank.
fn is_space_exec(c: char) -> (r: bool)
    ensures
        r == is_space(c),
{
    c == ' ' || c == '\t' || c == '\n' || c == '\r'
}

/// The first non-blank index at or after `i`.
fn skip_spaces_exec(st: &str, i: usize) -> (r: usize)
    requires
        i <= st@.len(),
    ensures
        r == skip_spaces(st@, i as int),
        i <= r <= st@.len(),
{
    let n = st.unicode_len();
    let mut j = i;
    while j < n && is_space_exec(st.get_char(j))
        invariant
            i <= j <= n,
            n == st@.len(),
            skip_spaces(st@, i as int) == skip_spaces(st@, j as int),
        decreases n - j,
    {
        j = j + 1;
    }
    j
}

/// The first blank index at or after `i`.
fn token_end_exec(st: &str, i: usize) -> (r: usize)
    requires
        i <= st@.len(),
    ensures
        r == token_end(st@, i as int),
        i <= r <= st@.len(),
{
    let n = st.unicode_len();
    let mut j = i;
    while j < n && !is_space_exec(st.get_char(j))
        invariant
            i <= j <= n,
            n == st@.len(),
            token_end(st@, i as int) == token_end(st@, j as int),
        decreases n - j,
    {
        j = j + 1;
    }
    j
}

impl Command {
    /// Parses a typed command: the first word chooses the command, the
    /// following words are its arguments. `connect` takes a designator and
    /// dials it over the `tcpip` transport; an unknown word is reported
    /// with its arguments, and input without any word is unrecognized too.
    pub fn from_str(s: &String) -> (r: Result<Command, CommandError>)
        ensures
            command_parse_post(s@, r),
    {
        let st = s.as_str();
        let n = st.unicode_len();
        let start0 = skip_spaces_exec(st, 0);
        if start0 >= n {
            proof {
                assert(spec_tokens(s@).len() == 0);
            }
            return Err(CommandError::Unrecognized(String::new(), Vec::new()));
        }
        let end0 = token_end_exec(st, start0);
        proof {
            lemma_scan_bounds(s@, start0 as int);
            assert(spec_tokens(s@) == seq![s@.subrange(start0 as int, end0 as int)]
                + spec_tokens_from(s@, end0 as int));
        }
        let cmd = st.substring_char(start0, end0).to_owned();
        let connect_word = String::new().concat("connect");
        proof {
            assert(connect_word@ =~= "connect"@);
        }
        if cmd.eq(&connect_word) {
            let start1 = skip_spaces_exec(st, end0);
            if start1 >= n {
                proof {
                    assert(spec_tokens_from(s@, end0 as int).len() == 0);
                    assert(spec_tokens(s@).len() == 1);
                }
                return Err(CommandError::MissingArgument(cmd, "designator"));
            }
            let end1 = token_end_exec(st, start1);
            proof {
                lemma_scan_bounds(s@, start1 as int);
                assert(spec_tokens_from(s@, end0 as int) == seq![
                    s@.subrange(start1 as int, end1 as int),
                ] + spec_tokens_from(s@, end1 as int));
                assert(spec_tokens(s@)[1] == s@.subrange(start1 as int, end1 as int));
            }
            let designator = st.substring_char(start1, end1).to_owned();
            let transport = String::new().concat("tcpip");
            proof {
                assert(transport@ =~= "tcpip"@);
            }
            return Ok(Command::Connect(Locator::new(designator, transport)));
        }
        let mut rest: Vec<String> = Vec::new();
        let mut pos = end0;
        proof {
            assert(seq![s@.subrange(start0 as int, end0 as int)] + rest@.map_values(
                |x: String| x@,
            ) + spec_tokens_from(s@, pos as int) =~= spec_tokens(s@));
        }
        loop
            invariant
                pos <= s@.len(),
                st@ == s@,
                n == s@.len(),
                seq![s@.subrange(start0 as int, end0 as int)] + rest@.map_values(|x: String| x@)
                    + spec_tokens_from(s@, pos as int) == spec_tokens(s@),
            ensures
                pos <= s@.len(),
                seq![s@.subrange(start0 as int, end0 as int)] + rest@.map_values(|x: String| x@)
                    + spec_tokens_from(s@, pos as int) == spec_tokens(s@),
                spec_tokens_from(s@, pos as int) == Seq::<Seq<char>>::empty(),
            decreases s@.len() - pos,
        {
            let start = skip_spaces_exec(st, pos);
            if start >= n {
                proof {
                    assert(spec_tokens_from(s@, pos as int) =~= Seq::<Seq<char>>::empty());
                }
                break ;
            }
            let end = token_end_exec(st, start);
            proof {
                lemma_scan_bounds(s@, start as int);
                lemma_scan_bounds(s@, pos as int);
                assert(spec_tokens_from(s@, pos as int) == seq![
                    s@.subrange(start as int, end as int),
                ] + spec_tokens_from(s@, end as int));
            }
            let word = st.substring_char(start, end).to_owned();
            let ghost rest0 = rest@;
            rest.push(word);
            proof {
                assert(rest@.map_values(|x: String| x@) =~= rest0.map_values(|x: String| x@).push(
                    s@.subrange(start as int, end as int),
                ));
                assert(seq![s@.subrange(start0 as int, end0 as int)] + rest@.map_values(
                    |x: String| x@,
                ) + spec_tokens_from(s@, end as int) =~= spec_tokens(s@));
            }
            pos = end;
        }
        proof {
            let toks = spec_tokens(s@);
            assert(seq![s@.subrange(start0 as int, end0 as int)] + rest@.map_values(
                |x: String| x@,
            ) =~= toks);
            assert forall|t: int| 0 <= t < rest@.len() implies #[trigger] rest@[t]@ == toks[t
                + 1] by {
                assert(rest@.map_values(|x: String| x@)[t] == rest@[t]@);
            }
        }
        Err(CommandError::Unrecognized(cmd, rest))
    }
}

/// What one typed line means.
#[derive(Debug)]
pub enum InputLine {
    /// The line opened with a slash and at least one more character: a
    /// command, parsed from what follows the slash.
    Dispatch(Result<Command, CommandError>),
    /// Anything else: a message body to send where the user is talking.
    Say(String),
}

/// Reads one line of user input: a line opening with `/` and holding more
/// than the slash is a command; every other line is said as a message.
pub fn interpret_line(s: &String) -> (r: InputLine)
    ensures
        s@.len() > 1 && s@[0] == '/' ==> (r matches InputLine::Dispatch(c)
            && command_parse_post(s@.subrange(1, s@.len() as int), c)),
        !(s@.len() > 1 && s@[0] == '/') ==> (r matches InputLine::Say(m) && m@ == s@),
{
    let st = s.as_str();
    let n = st.unicode_len();
    if n > 1 && st.get_char(0) == '/' {
        let tail = st.substring_char(1, n).to_owned();
        InputLine::Dispatch(Command::from_str(&tail))
    } else {
        InputLine::Say(s.clone())
    }
}

} // verus!
