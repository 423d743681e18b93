//! Requests of the protocol, the ways a buffer can fail to be one, and the
//! parser that tells them apart.
use vstd::prelude::*;

use crate::text::{
    chars_of, equals_word, find_char, first_index, is_first_at, lemma_first_index_is,
    lemma_first_index_none, trim, trim_bounds,
};

verus! {

/// A request read from one line.
#[derive(Debug, PartialEq, Eq)]
pub enum Command {
    /// Store the payload, already trimmed of surrounding whitespace.
    Publish(String),
    /// Ask for the last stored payload.
    Retrieve,
}

/// Why a buffer is not a request.
#[derive(Debug, Clone, Copy, PartialEq, Eq, Structural)]
pub enum Error {
    /// The verb is neither `RETRIEVE` nor `PUBLISH`, and not empty.
    UnknownVerb,
    /// `RETRIEVE` is followed by a space and more text.
    UnexpectedPayload,
    /// `PUBLISH` stands alone, with no space after it.
    MissingPayload,
    /// The verb is empty, or whitespace only.
    EmptyMessage,
    /// No `\n` yet: the line is not complete, and more input may make it one.
    IncompleteMessage,
}

/// A request as a mathematical value: the payload is its characters.
pub enum CommandView {
    Publish(Seq<char>),
    Retrieve,
}

impl View for Command {
    type V = CommandView;

    open spec fn view(&self) -> CommandView {
        match self {
            Command::Publish(p) => CommandView::Publish(p@),
            Command::Retrieve => CommandView::Retrieve,
        }
    }
}

/// The value of a parse result, with the payload as characters.
pub open spec fn outcome(r: Result<Command, Error>) -> Result<CommandView, Error> {
    match r {
        Ok(c) => Ok(c@),
        Err(e) => Err(e),
    }
}

/// The verb that asks for the last stored payload.
pub open spec fn retrieve_verb() -> Seq<char> {
    "RETRIEVE"@
}

/// The verb that stores a payload.
pub open spec fn publish_verb() -> Seq<char> {
    "PUBLISH"@
}

/// The effective line of `s`: what comes before its first `\n`, if it has one.
pub open spec fn line_of(s: Seq<char>) -> Option<Seq<char>> {
    match first_index(s, '\n') {
        Some(p) => Some(s.subrange(0, p)),
        None => None,
    }
}

/// The verb of a line: what comes before its first space, or all of it.
pub open spec fn verb_of(line: Seq<char>) -> Seq<char> {
    match first_index(line, ' ') {
        Some(q) => line.subrange(0, q),
        None => line,
    }
}

/// What follows the first space of a line; `None` where it has no space.
pub open spec fn rest_of(line: Seq<char>) -> Option<Seq<char>> {
    match first_index(line, ' ') {
        Some(q) => Some(line.subrange(q + 1, line.len() as int)),
        None => None,
    }
}

/// The meaning of one effective line.
pub open spec fn interpret_line(line: Seq<char>) -> Result<CommandView, Error> {
    let verb = trim(verb_of(line));
    if verb == retrieve_verb() {
        match rest_of(line) {
            None => Ok(CommandView::Retrieve),
            Some(_) => Err(Error::UnexpectedPayload),
        }
    } else if verb == publish_verb() {
        match rest_of(line) {
            Some(rest) => Ok(CommandView::Publish(trim(rest))),
            None => Err(Error::MissingPayload),
        }
    } else if verb.len() == 0 {
        Err(Error::EmptyMessage)
    } else {
        Err(Error::UnknownVerb)
    }
}

/// The meaning of a buffer: its effective line's, or `IncompleteMessage`.
pub open spec fn parse_spec(s: Seq<char>) -> Result<CommandView, Error> {
    match line_of(s) {
        Some(line) => interpret_line(line),
        None => Err(Error::IncompleteMessage),
    }
}

/// Reads the first `\n`-terminated line of `input` as a request.
///
/// Everything from the first `\n` on is left alone. The verb is what comes
/// before the line's first space, trimmed; the payload is what comes after
/// that space, trimmed. `"PUBLISH \n"` therefore has a payload, the empty
/// one, and gives `Publish("")`: a space after the verb is what makes a
/// payload present, not the text after it.
pub fn parse(input: &str) -> (r: Result<Command, Error>)
    ensures
        outcome(r) == parse_spec(input@),
        (forall|i: int| 0 <= i < input@.len() ==> input@[i] != '\n') ==> r
            == Err::<Command, Error>(Error::IncompleteMessage),
{
    let cs = chars_of(input);
    assert(cs@.subrange(0, cs@.len() as int) =~= input@);
    let p = match find_char(&cs, cs.len(), '\n') {
        Some(p) => p,
        None => {
            return Err(Error::IncompleteMessage);
        },
    };
    let ghost line = input@.subrange(0, p as int);
    let space = find_char(&cs, p, ' ');
    let verb_end = match space {
        Some(q) => q,
        None => p,
    };
    assert(line.subrange(0, verb_end as int) =~= input@.subrange(0, verb_end as int));
    let (a, b) = trim_bounds(&cs, 0, verb_end);
    if equals_word(&cs, a, b, "RETRIEVE") {
        match space {
            None => Ok(Command::Retrieve),
            Some(_) => Err(Error::UnexpectedPayload),
        }
    } else if equals_word(&cs, a, b, "PUBLISH") {
        match space {
            Some(q) => {
                assert(line.subrange(q + 1, line.len() as int) =~= input@.subrange(
                    q + 1,
                    p as int,
                ));
                let (c, d) = trim_bounds(&cs, q + 1, p);
                let payload = input.substring_char(c, d);
                Ok(Command::Publish(String::from_str(payload)))
            },
            None => Err(Error::MissingPayload),
        }
    } else if a == b {
        Err(Error::EmptyMessage)
    } else {
        Err(Error::UnknownVerb)
    }
}

/// A buffer that holds no `\n` is an incomplete message, whatever else it
/// holds.
pub proof fn lemma_no_newline_is_incomplete(s: Seq<char>)
    requires
        forall|i: int| 0 <= i < s.len() ==> s[i] != '\n',
    ensures
        parse_spec(s) == Err::<CommandView, Error>(Error::IncompleteMessage),
{
    lemma_first_index_none(s, '\n');
}

/// The result depends on the effective line alone: two buffers that are
/// complete and agree before their first `\n` parse alike, whatever follows.
pub proof fn lemma_same_line_same_result(s: Seq<char>, t: Seq<char>)
    requires
        line_of(s) is Some,
        line_of(s) == line_of(t),
    ensures
        parse_spec(s) == parse_spec(t),
{
}

/// Parsing again the first `\n`-terminated segment of a buffer, alone, gives
/// what parsing the whole buffer gave.
pub proof fn lemma_reparse_segment(s: Seq<char>, p: int)
    requires
        first_index(s, '\n') == Some(p),
    ensures
        parse_spec(s.subrange(0, p + 1)) == parse_spec(s),
{
    let seg = s.subrange(0, p + 1);
    assert(is_first_at(s, '\n', p));
    assert(is_first_at(seg, '\n', p));
    lemma_first_index_is(seg, '\n', p);
    assert(seg.subrange(0, p) =~= s.subrange(0, p));
    lemma_same_line_same_result(seg, s);
}

} // verus!
