//! The protocol commands and the function that parses a message to a
//! command. The protocol has two commands: `PUBLISH`, which carries data, and
//! `RETRIEVE`, which carries none.

use crate::chars::{spec_is_whitespace, CharClass};
use crate::text::{
    chars_of, drop_bytes, first_line, first_token, is_blank, scan, skip_bytes, spells, trim_start,
    utf8_len,
};
use crate::text::{
    lemma_drop_bytes, lemma_drop_bytes_at_boundary, lemma_first_line, lemma_first_token,
    lemma_run_length, lemma_run_length_unique,
};
use vstd::prelude::*;
use vstd::utf8::is_ascii_chars_encode_utf8;

verus! {

/// A protocol command.
#[derive(Debug, PartialEq, Eq, Clone)]
pub enum Command {
    /// Publish command containing data.
    Publish {
        /// Data that is to be published. May be empty.
        data: String,
    },
    /// Retrieve command.
    Retrieve,
}

/// What a `Command` stands for: its variant and the characters of its data.
pub enum CommandView {
    /// A publish command and the characters of its data.
    Publish { data: Seq<char> },
    /// A retrieve command.
    Retrieve,
}

impl View for Command {
    type V = CommandView;

    open spec fn view(&self) -> CommandView {
        match self {
            Command::Publish { data } => CommandView::Publish { data: data@ },
            Command::Retrieve => CommandView::Retrieve,
        }
    }
}

/// Why a message is no command.
#[derive(Debug, PartialEq, Eq, Clone, Copy, Structural)]
pub enum ParseCommandError {
    /// The first token is neither keyword.
    NoCommand,
    /// The message holds no line feed.
    NoNewline,
    /// The message holds nothing but white space.
    Empty,
}

impl ParseCommandError {
    /// The sentence that describes the error.
    pub open spec fn spec_description(self) -> Seq<char> {
        match self {
            ParseCommandError::NoCommand => {
                "No valid command found in message. Command must be either 'PUBLISH' or 'RETRIEVE'."
                    .view()
            },
            ParseCommandError::NoNewline => {
                "No newline found in message. Command must end with '\\n'."@
            },
            ParseCommandError::Empty => "Empty message."@,
        }
    }

    /// Describes why this error has occurred.
    pub fn description(&self) -> (text: String)
        ensures
            text@ == self.spec_description(),
    {
        match *self {
            ParseCommandError::NoCommand => {
                "No valid command found in message. Command must be either 'PUBLISH' or 'RETRIEVE'."
                    .to_string()
            },
            ParseCommandError::NoNewline => {
                "No newline found in message. Command must end with '\\n'.".to_string()
            },
            ParseCommandError::Empty => "Empty message.".to_string(),
        }
    }
}

/// What a message parses to, as a plain value: the view of a command, or an
/// error.
pub type Outcome = Result<CommandView, ParseCommandError>;

/// The keyword of the publish command.
pub const PUBLISH: &'static str = "PUBLISH";

/// The keyword of the retrieve command.
pub const RETRIEVE: &'static str = "RETRIEVE";

/// What `message` parses to. A message is turned down for one of three
/// reasons, and the first of them that holds decides:
///
/// - A message without a token, that is one of white space alone, is `Empty`.
/// - A message without a line feed is `NoNewline`.
/// - A message whose first token is neither keyword is `NoCommand`. The
///   keywords are matched as whole tokens and in capital letters.
///
/// `RETRIEVE` gives `Retrieve`, whatever follows it. `PUBLISH` gives `Publish`.
/// Its data is cut from the first line of the message: the line loses as many
/// bytes of its UTF-8 encoding as the keyword takes, and then its leading
/// white space; white space at its end stays. In a message that begins with
/// the keyword this is what follows the keyword on its line. White space
/// before the keyword is not skipped: it is among the bytes that the line
/// loses, and as much of the keyword stays in the data.
pub open spec fn spec_parse(message: Seq<char>) -> Outcome {
    let token = first_token(message);
    if token.len() == 0 {
        Err(ParseCommandError::Empty)
    } else if !message.contains('\n') {
        Err(ParseCommandError::NoNewline)
    } else if token == PUBLISH@ {
        Ok(
            CommandView::Publish {
                data: trim_start(drop_bytes(first_line(message), utf8_len(PUBLISH@))),
            },
        )
    } else if token == RETRIEVE@ {
        Ok(CommandView::Retrieve)
    } else {
        Err(ParseCommandError::NoCommand)
    }
}

/// What a result of `parse` stands for: the view of the command, or the
/// error.
pub open spec fn outcome(result: Result<Command, ParseCommandError>) -> Outcome {
    match result {
        Ok(command) => Ok(command@),
        Err(error) => Err(error),
    }
}

/// Parses a message to a `Publish` or `Retrieve` command, or says why it is
/// none. Every text is either the one or the other, as `spec_parse` lays
/// down.
pub fn parse(message: &str) -> (result: Result<Command, ParseCommandError>)
    ensures
        outcome(result) == spec_parse(message@),
{
    let chars: Vec<char> = chars_of(message);
    let len: usize = chars.len();
    let start: usize = scan(chars.as_slice(), 0, len, CharClass::Whitespace);
    assert(message@.subrange(0, len as int) == message@);
    if start == len {
        return Err(ParseCommandError::Empty);
    }
    let end: usize = scan(chars.as_slice(), start, len, CharClass::NonWhitespace);
    let newline: usize = scan(chars.as_slice(), 0, len, CharClass::NonNewline);
    proof {
        lemma_run_length(message@, CharClass::Whitespace);
        lemma_run_length(message@, CharClass::NonNewline);
        assert(message@.subrange(start as int, len as int) == trim_start(message@));
        assert(first_token(message@) == message@.subrange(start as int, end as int));
    }
    if newline == len {
        return Err(ParseCommandError::NoNewline);
    }
    if spells(chars.as_slice(), start, end, PUBLISH) {
        let body: usize = skip_bytes(chars.as_slice(), 0, newline, PUBLISH.len());
        let data_start: usize = scan(chars.as_slice(), body, newline, CharClass::Whitespace);
        let data: String = message.substring_char(data_start, newline).to_owned();
        proof {
            lemma_keywords();
            assert(message@.subrange(0, newline as int) == first_line(message@));
            assert(data@ == trim_start(message@.subrange(body as int, newline as int)));
        }
        Ok(Command::Publish { data })
    } else if spells(chars.as_slice(), start, end, RETRIEVE) {
        Ok(Command::Retrieve)
    } else {
        Err(ParseCommandError::NoCommand)
    }
}

/// Whether `c` is a capital letter of the Latin alphabet.
pub open spec fn is_capital(c: char) -> bool {
    'A' <= c <= 'Z'
}

/// The keywords are words of seven and eight capital letters, of one byte
/// each.
pub proof fn lemma_keywords()
    ensures
        PUBLISH@.len() == 7,
        RETRIEVE@.len() == 8,
        forall|i: int| 0 <= i < 7 ==> is_capital(#[trigger] PUBLISH@[i]),
        forall|i: int| 0 <= i < 8 ==> is_capital(#[trigger] RETRIEVE@[i]),
        utf8_len(PUBLISH@) == 7,
        utf8_len(RETRIEVE@) == 8,
{
    reveal_strlit("PUBLISH");
    reveal_strlit("RETRIEVE");
    is_ascii_chars_encode_utf8(PUBLISH@);
    is_ascii_chars_encode_utf8(RETRIEVE@);
}

/// Whether `message` begins with `keyword` and goes on with a white-space
/// character, such as the line feed.
pub open spec fn begins_with_keyword(message: Seq<char>, keyword: Seq<char>) -> bool {
    &&& keyword.len() < message.len()
    &&& message.take(keyword.len() as int) == keyword
    &&& spec_is_whitespace(message[keyword.len() as int])
}

/// A message that holds a line feed and begins with a keyword, followed by
/// white space or by the end of the line, parses to that keyword's command.
/// The data of `PUBLISH` is then what follows the keyword on the first line,
/// without its leading white space.
pub proof fn lemma_keyword_message_parses(message: Seq<char>)
    requires
        message.contains('\n'),
    ensures
        begins_with_keyword(message, PUBLISH@) ==> spec_parse(message) == Outcome::Ok(
            CommandView::Publish {
                data: trim_start(first_line(message).skip(PUBLISH@.len() as int)),
            },
        ),
        begins_with_keyword(message, RETRIEVE@) ==> spec_parse(message) == Outcome::Ok(
            CommandView::Retrieve,
        ),
{
    lemma_keywords();
    lemma_first_token(message);
    lemma_first_line(message);
    if begins_with_keyword(message, PUBLISH@) {
        lemma_keyword_is_first_token(message, PUBLISH@);
        let line = first_line(message);
        if line.len() < 7 {
            assert(message[line.len() as int] == message.take(7)[line.len() as int]);
        }
        assert(line.take(7) == PUBLISH@);
        lemma_drop_bytes_at_boundary(line, 7);
    }
    if begins_with_keyword(message, RETRIEVE@) {
        lemma_keyword_is_first_token(message, RETRIEVE@);
    }
}

/// A keyword without white space, at the very start and followed by white
/// space, is the first token.
proof fn lemma_keyword_is_first_token(message: Seq<char>, keyword: Seq<char>)
    requires
        begins_with_keyword(message, keyword),
        keyword.len() > 0,
        forall|i: int| 0 <= i < keyword.len() ==> !spec_is_whitespace(#[trigger] keyword[i]),
    ensures
        first_token(message) == keyword,
{
    assert forall|i: int| 0 <= i < keyword.len() implies !spec_is_whitespace(
        #[trigger] message[i],
    ) by {
        assert(message[i] == message.take(keyword.len() as int)[i]);
    }
    lemma_run_length_unique(message, CharClass::Whitespace, 0);
    assert(trim_start(message) == message);
    lemma_run_length_unique(message, CharClass::NonWhitespace, keyword.len() as int);
}

/// The errors come in a fixed order of priority. A blank message is `Empty`,
/// with or without a line feed. One that is not blank and holds no line feed
/// is `NoNewline`, whatever its first token. Only then does the first token
/// decide.
pub proof fn lemma_error_priority(message: Seq<char>)
    ensures
        spec_parse(message) == Outcome::Err(ParseCommandError::Empty) <==> is_blank(message),
        spec_parse(message) == Outcome::Err(ParseCommandError::NoNewline) <==> {
            &&& !is_blank(message)
            &&& !message.contains('\n')
        },
        spec_parse(message) == Outcome::Err(ParseCommandError::NoCommand) <==> {
            &&& !is_blank(message)
            &&& message.contains('\n')
            &&& first_token(message) != PUBLISH@
            &&& first_token(message) != RETRIEVE@
        },
        spec_parse(message) is Ok <==> {
            &&& !is_blank(message)
            &&& message.contains('\n')
            &&& (first_token(message) == PUBLISH@ || first_token(message) == RETRIEVE@)
        },
{
    lemma_first_token(message);
}

/// The data of a publish command is the end of the first line of the
/// message. It holds no line feed, and it does not begin with white space.
pub proof fn lemma_publish_data(message: Seq<char>)
    ensures
        spec_parse(message) matches Ok(CommandView::Publish { data }) ==> {
            &&& data.is_suffix_of(first_line(message))
            &&& !data.contains('\n')
            &&& data.len() > 0 ==> !spec_is_whitespace(data[0])
        },
{
    let line = first_line(message);
    let rest = drop_bytes(line, utf8_len(PUBLISH@));
    let data = trim_start(rest);
    lemma_first_line(message);
    lemma_drop_bytes(line, utf8_len(PUBLISH@));
    lemma_run_length(rest, CharClass::Whitespace);
    assert(data.is_suffix_of(line));
    assert forall|i: int| 0 <= i < data.len() implies data[i] != '\n' by {
        assert(data[i] == line[line.len() - data.len() + i]);
    }
}

/// Two calls of `parse` on texts of the same characters give equal results.
pub proof fn lemma_parse_deterministic(
    first: &str,
    second: &str,
    a: Result<Command, ParseCommandError>,
    b: Result<Command, ParseCommandError>,
)
    requires
        first@ == second@,
        call_ensures(parse, (first,), a),
        call_ensures(parse, (second,), b),
    ensures
        outcome(a) == outcome(b),
{
}

} // verus!
