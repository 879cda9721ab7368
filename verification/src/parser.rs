//! The parser of the blocking request path. It reads a command from the
//! bytes of one line, and writes responses as bytes.
use vstd::prelude::*;
use vstd::string::StringExecFns;
use vstd::utf8::{decode_utf8, encode_utf8, valid_utf8};
use crate::error::{Cause, ErrorKind, IMAPError};
use crate::text::{
    chars_of, occupied, pieces, split, string_or_empty, text_or_empty, utf8, views,
};

verus! {

/// The message for a line without a tag.
pub const TAG_MISSING: &'static str = "Tag not provided. Expected <tag SPACE command [arguments]>";

/// The message for a tag that is not text.
pub const TAG_INVALID: &'static str =
    "Tag is not a valid UTF-8 string. Expected <tag SPACE command [arguments]>";

/// The message for a line without a command.
pub const COMMAND_MISSING: &'static str =
    "Command not provided. Expected <tag SPACE command [arguments]>";

/// The message for a command that is not text.
pub const COMMAND_INVALID: &'static str = "Provided command is not a valid UTF-8 string";

/// What a command holds.
pub struct CommandView {
    pub tag: Seq<u8>,
    pub command: Seq<char>,
    pub args: Seq<Seq<u8>>,
}

/// A command as the parser reads it: the tag and the arguments as bytes, the
/// name of the command in lower case.
#[derive(Debug)]
pub struct Command {
    pub tag: Vec<u8>,
    pub command: String,
    pub args: Vec<Vec<u8>>,
}

/// The views of a sequence of byte strings, in order.
pub open spec fn byte_views(v: Seq<Vec<u8>>) -> Seq<Seq<u8>> {
    Seq::new(v.len(), |i: int| v[i]@)
}

impl View for Command {
    type V = CommandView;

    open spec fn view(&self) -> CommandView {
        CommandView { tag: self.tag@, command: self.command@, args: byte_views(self.args@) }
    }
}

/// What a failure of the parser holds.
pub struct FailureView {
    pub tag: Seq<u8>,
    pub message: Seq<char>,
}

/// The words of a line: the pieces between its spaces that are not empty.
pub open spec fn words(input: Seq<u8>) -> Seq<Seq<u8>> {
    split(input, 32u8).filter(occupied::<u8>())
}

/// Whether a word is nothing but the end of the line.
pub open spec fn is_line_end(word: Seq<u8>) -> bool {
    word == seq![10u8] || word == seq![13u8, 10u8]
}

/// The test that keeps the words which are arguments.
pub open spec fn is_argument() -> spec_fn(Seq<u8>) -> bool {
    |word: Seq<u8>| !is_line_end(word)
}

/// The first argument among the words that is not text, if there is one.
pub open spec fn first_invalid(words: Seq<Seq<u8>>) -> Option<Seq<u8>>
    decreases words.len(),
{
    if words.len() == 0 {
        None
    } else if !is_line_end(words[0]) && !valid_utf8(words[0]) {
        Some(words[0])
    } else {
        first_invalid(words.skip(1))
    }
}

/// The ASCII lower-case form of one character; every other character is
/// itself.
pub open spec fn lower_char(c: char) -> char {
    if 'A' <= c && c <= 'Z' {
        ((c as u8) + 32) as char
    } else {
        c
    }
}

/// A text with each of its characters in ASCII lower case.
pub open spec fn lower(s: Seq<char>) -> Seq<char> {
    Seq::new(s.len(), |i: int| lower_char(s[i]))
}

/// A text without the line feed at its end, where it has one.
pub open spec fn chomp(s: Seq<char>) -> Seq<char> {
    if s.len() > 0 && s.last() == '\n' {
        s.drop_last()
    } else {
        s
    }
}

/// The character of a hexadecimal digit, in lower case.
pub open spec fn hex_digit(n: nat) -> char {
    if n < 10 {
        ((48 + n) as u8) as char
    } else {
        ((87 + n) as u8) as char
    }
}

/// A byte as two hexadecimal digits.
pub open spec fn hex_byte(b: u8) -> Seq<char> {
    seq![hex_digit((b / 16) as nat), hex_digit((b % 16) as nat)]
}

/// Bytes as hexadecimal digits, two for each, with a comma and a space
/// between each two bytes.
pub open spec fn hex_items(bytes: Seq<u8>) -> Seq<char>
    decreases bytes.len(),
{
    if bytes.len() == 0 {
        Seq::empty()
    } else if bytes.len() == 1 {
        hex_byte(bytes[0])
    } else {
        hex_items(bytes.drop_last()) + ", "@ + hex_byte(bytes.last())
    }
}

/// The message for an argument that is not text, which shows its bytes.
pub open spec fn argument_invalid(arg: Seq<u8>) -> Seq<char> {
    "Provided arg ["@ + hex_items(arg) + "] is not a valid UTF-8 string"@
}

/// What the parser makes of a line. The first word is the tag and must be
/// text, or the failure has no tag. The second word is the name of the
/// command: it must be text, loses a line feed at its end and is put in
/// lower case. The other words are the arguments, but for those that are
/// nothing but the end of the line; each must be text. A failure behind the
/// tag carries the tag.
pub open spec fn parsed(input: Seq<u8>) -> Result<CommandView, FailureView> {
    let w = words(input);
    if w.len() == 0 {
        Err(FailureView { tag: Seq::empty(), message: TAG_MISSING@ })
    } else if !valid_utf8(w[0]) {
        Err(FailureView { tag: Seq::empty(), message: TAG_INVALID@ })
    } else if w.len() == 1 {
        Err(FailureView { tag: w[0], message: COMMAND_MISSING@ })
    } else if !valid_utf8(w[1]) {
        Err(FailureView { tag: w[0], message: COMMAND_INVALID@ })
    } else {
        match first_invalid(w.skip(2)) {
            Some(arg) => Err(FailureView { tag: w[0], message: argument_invalid(arg) }),
            None => Ok(
                CommandView {
                    tag: w[0],
                    command: lower(chomp(decode_utf8(w[1]))),
                    args: w.skip(2).filter(is_argument()),
                },
            ),
        }
    }
}

/// Whether an error is the failure that the parser describes: an invalid
/// input with the failure's tag and message.
pub open spec fn fails_with(error: IMAPError, failure: FailureView) -> bool {
    &&& error.tag@ == failure.tag
    &&& error.cause.kind_spec() == ErrorKind::InvalidInput
    &&& error.cause.message() == failure.message
}

/// The words of a line.
pub fn split_words(input: &Vec<u8>) -> (r: Vec<Vec<u8>>)
    ensures
        byte_views(r@) == words(input@),
{
    let r = pieces(input, 32u8, false);
    assert(byte_views(r@) =~= views(r@));
    r
}

/// One character in ASCII lower case.
pub fn to_lower_char(c: char) -> (r: char)
    ensures
        r == lower_char(c),
{
    if 'A' <= c && c <= 'Z' {
        ((c as u8) + 32) as char
    } else {
        c
    }
}

/// The name of a command as it is held: without a line feed at its end, in
/// lower case.
pub fn normalize(name: &str) -> (r: String)
    ensures
        r@ == lower(chomp(name@)),
{
    let chars = chars_of(name);
    let mut n = chars.len();
    if n > 0 && chars[n - 1] == '\n' {
        n = n - 1;
    }
    let ghost want = lower(chomp(name@));
    let mut out = String::new();
    let mut i: usize = 0;
    while i < n
        invariant
            chars@ == name@,
            n == chomp(name@).len(),
            n <= chars.len(),
            want == lower(chomp(name@)),
            i <= n,
            out@ == want.take(i as int),
        decreases n - i,
    {
        out.push(to_lower_char(chars[i]));
        i += 1;
        assert(out@ =~= want.take(i as int));
    }
    assert(want.take(i as int) =~= want);
    out
}

/// The character of a hexadecimal digit.
fn to_hex_digit(n: u8) -> (r: char)
    requires
        n < 16,
    ensures
        r == hex_digit(n as nat),
{
    if n < 10 {
        (48 + n) as char
    } else {
        (87 + n) as char
    }
}

/// The bytes of an argument in hexadecimal, as the message for an argument
/// that is not text shows them.
pub fn hex(bytes: &[u8]) -> (r: String)
    ensures
        r@ == hex_items(bytes@),
{
    let mut out = String::new();
    let mut i: usize = 0;
    proof {
        assert(bytes@.take(0) =~= Seq::<u8>::empty());
    }
    while i < bytes.len()
        invariant
            i <= bytes.len(),
            out@ == hex_items(bytes@.take(i as int)),
        decreases bytes.len() - i,
    {
        let b = bytes[i];
        proof {
            let next = bytes@.take(i + 1);
            assert(next.drop_last() =~= bytes@.take(i as int));
            assert(next.last() == b);
        }
        if i > 0 {
            out.append(", ");
        }
        out.push(to_hex_digit(b / 16));
        out.push(to_hex_digit(b % 16));
        i += 1;
        proof {
            let next = bytes@.take(i as int);
            if i == 1 {
                assert(out@ =~= hex_byte(b));
            } else {
                assert(out@ =~= hex_items(next.drop_last()) + ", "@ + hex_byte(b));
            }
        }
    }
    assert(bytes@.take(i as int) =~= bytes@);
    out
}

/// The parser. It holds nothing.
pub struct Parser {}

/// How a command ended.
#[derive(Debug, Clone, Copy, PartialEq, Eq, Structural)]
pub enum CompletionStatus {
    OK,
    NO,
    BAD,
}

impl CompletionStatus {
    /// The word that stands for a status on the wire.
    pub open spec fn word(self) -> Seq<char> {
        match self {
            CompletionStatus::OK => "OK"@,
            CompletionStatus::BAD => "BAD"@,
            CompletionStatus::NO => "NO"@,
        }
    }

    /// The status as its word.
    pub fn to_string(&self) -> (r: String)
        ensures
            r@ == self.word(),
    {
        match self {
            CompletionStatus::OK => String::from_str("OK"),
            CompletionStatus::BAD => String::from_str("BAD"),
            CompletionStatus::NO => String::from_str("NO"),
        }
    }
}

/// What a response holds.
pub struct ResponseView {
    pub status: CompletionStatus,
    pub tag: Seq<char>,
    pub response: Seq<char>,
}

/// One line that the server sends. An empty tag stands for an untagged
/// line.
#[derive(Debug)]
pub struct Response {
    status: CompletionStatus,
    tag: String,
    response: String,
}

impl View for Response {
    type V = ResponseView;

    closed spec fn view(&self) -> ResponseView {
        ResponseView { status: self.status, tag: self.tag@, response: self.response@ }
    }
}

impl ResponseView {
    /// The line on the wire: the tag, or `*` for an empty one, the status
    /// word and the text, with one space between them and a line feed at
    /// the end.
    pub open spec fn line(self) -> Seq<char> {
        (if self.tag.len() == 0 {
            "*"@
        } else {
            self.tag
        }) + " "@ + self.status.word() + " "@ + self.response + "\n"@
    }
}

impl Response {
    /// A response from its parts.
    pub fn new(status: CompletionStatus, tag: String, response: String) -> (r: Response)
        ensures
            r@ == (ResponseView { status, tag: tag@, response: response@ }),
    {
        return Response { status: status, tag: tag, response: response };
    }

    /// A response for a tag that came as bytes. A tag that is not text
    /// counts as no tag.
    pub fn from(status: CompletionStatus, tag: &[u8], response: &str) -> (r: Response)
        ensures
            r@ == (ResponseView { status, tag: text_or_empty(tag@), response: response@ }),
    {
        return Response {
            status: status,
            tag: string_or_empty(tag),
            response: response.to_owned(),
        };
    }

    /// The line on the wire.
    pub fn line(&self) -> (r: String)
        ensures
            r@ == self@.line(),
    {
        let mut out = if self.tag.as_str().is_empty() {
            String::from_str("*")
        } else {
            self.tag.clone()
        };
        out.append(" ");
        out.append(self.status.to_string().as_str());
        out.append(" ");
        out.append(self.response.as_str());
        out.append("\n");
        out
    }

    /// Writes the line behind what the output holds.
    pub fn respond(&self, output: &mut Vec<u8>)
        ensures
            final(output)@ == old(output)@ + encode_utf8(self@.line()),
    {
        let line = self.line();
        output.extend_from_slice(line.as_str().as_bytes());
    }
}

impl Parser {
    /// A parser.
    pub fn new() -> Parser {
        return Parser {  };
    }

    /// Reads a command from the bytes of one line.
    pub fn parse(&self, input: Vec<u8>) -> (r: Result<Command, IMAPError>)
        ensures
            match r {
                Ok(command) => parsed(input@) == Ok::<CommandView, FailureView>(command@),
                Err(error) => parsed(input@) is Err && fails_with(error, parsed(input@)->Err_0),
            },
    {
        let split_input = split_words(&input);
        let n = split_input.len();
        let first = if n > 0 {
            Some(split_input[0].as_slice())
        } else {
            None
        };
        let input_tag = match self.get_tag(first) {
            Ok(tag) => tag,
            Err(e) => return Err(e),
        };
        let second = if n > 1 {
            Some(split_input[1].as_slice())
        } else {
            None
        };
        let input_command = match self.get_command(&input_tag, second) {
            Ok(command) => command,
            Err(e) => return Err(e),
        };
        let input_args = match self.get_args(&input_tag, &split_input, 2) {
            Ok(args) => args,
            Err(e) => return Err(e),
        };
        let mut args: Vec<Vec<u8>> = Vec::new();
        let ghost want = words(input@).skip(2).filter(is_argument());
        let mut i: usize = 0;
        while i < input_args.len()
            invariant
                i <= input_args.len(),
                input_args.len() == want.len(),
                forall|k: int|
                    0 <= k < input_args.len() ==> encode_utf8(#[trigger] input_args[k]@)
                        == want[k],
                byte_views(args@) == want.take(i as int),
            decreases input_args.len() - i,
        {
            let bytes = input_args[i].as_str().as_bytes_vec();
            proof {
                assert(byte_views(args@.push(bytes)) =~= byte_views(args@).push(bytes@));
                assert(want.take(i + 1) =~= want.take(i as int).push(want[i as int]));
            }
            args.push(bytes);
            i += 1;
        }
        assert(want.take(i as int) =~= want);
        return Ok(
            Command { tag: input_tag.as_str().as_bytes_vec(), command: input_command, args: args },
        );
    }

    /// The tag: the first word, which must be there and be text.
    fn get_tag(&self, bytes: Option<&[u8]>) -> (r: Result<String, IMAPError>)
        ensures
            match r {
                Ok(tag) => bytes matches Some(word) && valid_utf8(word@) && encode_utf8(tag@)
                    == word@,
                Err(error) => fails_with(
                    error,
                    FailureView {
                        tag: Seq::empty(),
                        message: if bytes is None {
                            TAG_MISSING@
                        } else {
                            TAG_INVALID@
                        },
                    },
                ) && (bytes matches Some(word) ==> !valid_utf8(word@)),
            },
    {
        let word = match bytes {
            Some(bytes) => bytes,
            None => {
                return Err(
                    IMAPError::new(Vec::new(), Cause::new(ErrorKind::InvalidInput, TAG_MISSING)),
                )
            },
        };
        match utf8(word) {
            Some(tag) => Ok(tag.to_owned()),
            None => {
                return Err(
                    IMAPError::new(Vec::new(), Cause::new(ErrorKind::InvalidInput, TAG_INVALID)),
                )
            },
        }
    }

    /// The name of the command: the second word, which must be there and be
    /// text.
    fn get_command(&self, tag: &String, bytes: Option<&[u8]>) -> (r: Result<String, IMAPError>)
        ensures
            match r {
                Ok(command) => bytes matches Some(word) && valid_utf8(word@) && command@ == lower(
                    chomp(decode_utf8(word@)),
                ),
                Err(error) => fails_with(
                    error,
                    FailureView {
                        tag: encode_utf8(tag@),
                        message: if bytes is None {
                            COMMAND_MISSING@
                        } else {
                            COMMAND_INVALID@
                        },
                    },
                ) && (bytes matches Some(word) ==> !valid_utf8(word@)),
            },
    {
        match bytes {
            Some(bytes) => match utf8(bytes) {
                Some(s) => Ok(normalize(s)),
                None => {
                    return Err(
                        IMAPError::new(
                            tag.as_str().as_bytes_vec(),
                            Cause::new(ErrorKind::InvalidInput, COMMAND_INVALID),
                        ),
                    )
                },
            },
            None => Err(
                IMAPError::new(
                    tag.as_str().as_bytes_vec(),
                    Cause::new(ErrorKind::InvalidInput, COMMAND_MISSING),
                ),
            ),
        }
    }

    /// The arguments: the words from a position on, without those that are
    /// nothing but the end of the line. Each must be text; the first that is
    /// not makes the failure.
    fn get_args(&self, tag: &String, arguments: &Vec<Vec<u8>>, from: usize) -> (r: Result<
        Vec<String>,
        IMAPError,
    >)
        requires
            from <= arguments.len(),
        ensures
            ({
                let rest = byte_views(arguments@).skip(from as int);
                match r {
                    Ok(args) => first_invalid(rest) is None && args.len() == rest.filter(
                        is_argument(),
                    ).len() && forall|k: int|
                        0 <= k < args.len() ==> encode_utf8(#[trigger] args[k]@) == rest.filter(
                            is_argument(),
                        )[k],
                    Err(error) => first_invalid(rest) matches Some(arg) && fails_with(
                        error,
                        FailureView { tag: encode_utf8(tag@), message: argument_invalid(arg) },
                    ),
                }
            }),
    {
        let mut args: Vec<String> = Vec::new();
        let ghost all = byte_views(arguments@);
        let ghost rest = all.skip(from as int);
        let mut i: usize = from;
        let ghost begin = from as int;
        proof {
            assert(rest =~= all.skip(begin));
            assert(all.subrange(begin, begin) =~= Seq::<Seq<u8>>::empty());
            reveal(Seq::filter);
        }
        while i < arguments.len()
            invariant
                0 <= begin <= i <= arguments.len(),
                begin == from,
                all == byte_views(arguments@),
                rest == all.skip(begin),
                first_invalid(rest) == first_invalid(all.skip(i as int)),
                args.len() == all.subrange(begin, i as int).filter(is_argument()).len(),
                forall|k: int|
                    0 <= k < args.len() ==> encode_utf8(#[trigger] args[k]@) == all.subrange(
                        begin,
                        i as int,
                    ).filter(is_argument())[k],
            decreases arguments.len() - i,
        {
            let arg = arguments[i].as_slice();
            proof {
                let tail = all.skip(i as int);
                assert(all[i as int] == arguments@[i as int]@);
                assert(tail[0] == arg@);
                assert(tail.skip(1) =~= all.skip(i + 1));
                let seen = all.subrange(begin, i as int);
                assert(all.subrange(begin, i as int + 1) =~= seen.push(arg@));
                seen.lemma_filter_push(arg@, is_argument());
            }
            let line_end = (arg.len() == 1 && arg[0] == 10u8) || (arg.len() == 2 && arg[0] == 13u8
                && arg[1] == 10u8);
            proof {
                if line_end {
                    if arg.len() == 1 {
                        assert(arg@ =~= seq![10u8]);
                    } else {
                        assert(arg@ =~= seq![13u8, 10u8]);
                    }
                } else {
                    if arg@ == seq![10u8] {
                        assert(arg@.len() == 1 && arg@[0] == 10u8);
                    }
                    if arg@ == seq![13u8, 10u8] {
                        assert(arg@.len() == 2 && arg@[0] == 13u8 && arg@[1] == 10u8);
                    }
                }
                assert(line_end == is_line_end(arg@));
            }
            if !line_end {
                match utf8(arg) {
                    Some(text) => {
                        args.push(text.to_owned());
                    },
                    None => {
                        proof {
                            assert(first_invalid(all.skip(i as int)) == Some(arg@));
                        }
                        let mut message = String::from_str("Provided arg [");
                        message.append(hex(arg).as_str());
                        message.append("] is not a valid UTF-8 string");
                        return Err(
                            IMAPError::new(
                                tag.as_str().as_bytes_vec(),
                                Cause::new(ErrorKind::InvalidInput, message.as_str()),
                            ),
                        );
                    },
                }
            }
            i += 1;
        }
        proof {
            assert(all.subrange(begin, i as int) =~= rest);
            assert(all.skip(i as int).len() == 0);
        }
        Ok(args)
    }
}

} // verus!
