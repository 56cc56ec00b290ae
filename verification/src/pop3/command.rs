//! Client commands and the parser that reads them from a frame.
//!
//! A frame is one line of bytes ending in CRLF. Without the terminator it is
//! cut at every space into tokens; the first token is the verb, matched
//! without regard to ASCII case, and the others are its arguments.

use crate::buffer::{as_slice, bytes_seq, from_vec, same_bytes, slice};
use crate::pop3::err::{CommandErrView, POP3CommandErr, ParseError};
use bytes::Bytes;
use vstd::prelude::*;
use vstd::std_specs::convert::TryFromSpecImpl;
use vstd::string::StringSliceAdditionalSpecFns;

verus! {

/// The ASCII space, which separates the tokens of a frame.
pub const SPACE: u8 = 32;

/// The carriage return, first byte of the line terminator.
pub const CR: u8 = 13;

/// The line feed, second byte of the line terminator.
pub const LF: u8 = 10;

#[allow(inconsistent_fields)]
#[derive(PartialEq, Debug)]
pub enum POP3Command {
    /// `QUIT`; If issued during the AUTHORIZATION  state, then close the
    /// connection. If issued during the TRANSACTION state, delete all
    /// messages marked as deleted.
    Quit,
    /// `STAT`; Return the number of messages and the their summative length
    /// in octets.
    Stat,
    /// `LIST`; List the messages in the mailbox and their sizes. If the
    /// `message_number` field is `Some`, then return the information for
    /// the specified message.
    List { message_number: Option<usize> },
    /// `RETR`; Retrieve the content of the requested message to the client.
    Retrieve { message_number: usize },
    /// `DELE`; Mark the specified message as deleted from the server.
    Delete { message_number: usize },
    /// `NOOP`; Reply with a positive response.
    NoOp,
    /// `RSET`; Unmark all messages that have been marked as deleted.
    Reset,
    /// `CAPA`; List the extensions supported by this server.
    Capabilities,
    /// `TOP`; Get the header and first `n` lines of the specified message.
    Top { message_number: usize, n: usize },
    /// `UIDL`; Return the "unique-id listing" of the specified message.
    UniqueIDListing { message_number: Option<usize> },
    /// `USER`; Login to the specified mailbox. Only allowed in
    /// AUTHORIZATION state. Must be followed by `PASS` command.
    Username { username: Bytes },
    /// `PASS`; Supply the password to the mailbox. Only allowed in
    /// AUTHORIZATION state. Must be preceeded by `USER` command.
    Password { password: Bytes },
    /// `APOP`; A more secure authentication method.
    APop { username: Bytes, md5_digest: Bytes },
}

/// A command with the bytes of each raw argument in place of its buffer.
#[allow(inconsistent_fields)]
pub enum CommandView {
    Quit,
    Stat,
    List { message_number: Option<usize> },
    Retrieve { message_number: usize },
    Delete { message_number: usize },
    NoOp,
    Reset,
    Capabilities,
    Top { message_number: usize, n: usize },
    UniqueIDListing { message_number: Option<usize> },
    Username { username: Seq<u8> },
    Password { password: Seq<u8> },
    APop { username: Seq<u8>, md5_digest: Seq<u8> },
}

impl View for POP3Command {
    type V = CommandView;

    open spec fn view(&self) -> CommandView {
        match *self {
            POP3Command::Quit => CommandView::Quit,
            POP3Command::Stat => CommandView::Stat,
            POP3Command::List { message_number } => CommandView::List { message_number },
            POP3Command::Retrieve { message_number } => CommandView::Retrieve { message_number },
            POP3Command::Delete { message_number } => CommandView::Delete { message_number },
            POP3Command::NoOp => CommandView::NoOp,
            POP3Command::Reset => CommandView::Reset,
            POP3Command::Capabilities => CommandView::Capabilities,
            POP3Command::Top { message_number, n } => CommandView::Top { message_number, n },
            POP3Command::UniqueIDListing { message_number } => CommandView::UniqueIDListing {
                message_number,
            },
            POP3Command::Username { username } => CommandView::Username {
                username: bytes_seq(username),
            },
            POP3Command::Password { password } => CommandView::Password {
                password: bytes_seq(password),
            },
            POP3Command::APop { username, md5_digest } => CommandView::APop {
                username: bytes_seq(username),
                md5_digest: bytes_seq(md5_digest),
            },
        }
    }
}

/// The view of a parser's result, on either side.
pub open spec fn parsed_view(r: Result<POP3Command, POP3CommandErr>) -> Result<
    CommandView,
    CommandErrView,
> {
    match r {
        Ok(command) => Ok(command@),
        Err(e) => Err(e@),
    }
}

// ---------------------------------------------------------------------------
// Tokens
// ---------------------------------------------------------------------------

/// The number of bytes before the first space of `line`, or its length if
/// it holds no space.
pub open spec fn token_len(line: Seq<u8>) -> nat
    decreases line.len(),
{
    if line.len() == 0 || line[0] == SPACE {
        0
    } else {
        1 + token_len(line.skip(1))
    }
}

/// The tokens of `line`: the runs of bytes that its spaces separate, in
/// order. Two spaces in a row enclose an empty token, and so does a space at
/// the start; nothing follows a space at the end.
pub open spec fn tokens(line: Seq<u8>) -> Seq<Seq<u8>>
    decreases line.len(),
{
    if line.len() == 0 {
        Seq::empty()
    } else {
        let n = token_len(line) as int;
        if n >= line.len() {
            seq![line]
        } else {
            seq![line.take(n)] + tokens(line.skip(n + 1))
        }
    }
}

/// The bytes held by each buffer of `args`.
pub open spec fn arg_views(args: Seq<Bytes>) -> Seq<Seq<u8>> {
    args.map_values(|b: Bytes| bytes_seq(b))
}

/// `token_len` is `k` where the first `k` bytes hold no space and a space,
/// or the end, follows them.
proof fn lemma_token_len(line: Seq<u8>, k: int)
    requires
        0 <= k <= line.len(),
        forall|j: int| 0 <= j < k ==> line[j] != SPACE,
        k == line.len() || line[k] == SPACE,
    ensures
        token_len(line) == k,
    decreases k,
{
    if k > 0 {
        lemma_token_len(line.skip(1), k - 1);
    }
}

/// Cut a line, given without its terminator, into its tokens.
pub fn split_args(line: &Bytes) -> (args: Vec<Bytes>)
    ensures
        arg_views(args@) == tokens(bytes_seq(*line)),
{
    let raw = as_slice(line);
    let n = raw.len();
    let mut args: Vec<Bytes> = Vec::new();
    let mut last_space: usize = 0;
    let mut i: usize = 0;
    assert(raw@.skip(0) =~= raw@);
    assert(arg_views(args@) + tokens(raw@) =~= tokens(raw@));
    while i < n
        invariant
            raw@ == bytes_seq(*line),
            n == raw.len(),
            last_space <= i <= n,
            forall|j: int| last_space <= j < i ==> raw@[j] != SPACE,
            tokens(raw@) == arg_views(args@) + tokens(raw@.skip(last_space as int)),
        decreases n - i,
    {
        if raw[i] == SPACE {
            let token = slice(line, last_space, i);
            proof {
                let rest = raw@.skip(last_space as int);
                lemma_token_len(rest, i - last_space);
                assert(rest.take(i - last_space) =~= raw@.subrange(last_space as int, i as int));
                assert(rest.skip(i - last_space + 1) =~= raw@.skip(i + 1));
                assert(arg_views(args@.push(token)) =~= arg_views(args@).push(bytes_seq(token)));
                assert(arg_views(args@).push(bytes_seq(token)) + tokens(raw@.skip(i + 1))
                    =~= arg_views(args@) + (seq![bytes_seq(token)] + tokens(raw@.skip(i + 1))));
            }
            args.push(token);
            last_space = i + 1;
        }
        i += 1;
    }
    if last_space < n {
        let token = slice(line, last_space, n);
        proof {
            let rest = raw@.skip(last_space as int);
            lemma_token_len(rest, n - last_space);
            assert(rest =~= raw@.subrange(last_space as int, n as int));
            assert(arg_views(args@.push(token)) =~= arg_views(args@).push(bytes_seq(token)));
            assert(arg_views(args@).push(bytes_seq(token)) =~= arg_views(args@) + seq![
                bytes_seq(token),
            ]);
        }
        args.push(token);
    } else {
        assert(arg_views(args@) + tokens(raw@.skip(last_space as int)) =~= arg_views(args@));
    }
    args
}

// ---------------------------------------------------------------------------
// Numbers
// ---------------------------------------------------------------------------

/// Whether `b` is one of the ASCII digits `0` to `9`.
pub open spec fn is_digit(b: u8) -> bool {
    48 <= b <= 57
}

/// Whether every byte of `s` is an ASCII digit.
pub open spec fn all_digits(s: Seq<u8>) -> bool {
    forall|i: int| 0 <= i < s.len() ==> is_digit(#[trigger] s[i])
}

/// The number that the digit `b` stands for.
pub open spec fn digit_value(b: u8) -> nat {
    if b >= 48 {
        (b - 48) as nat
    } else {
        0
    }
}

/// The number that the digits of `s` denote in base ten, the first digit
/// being the most significant one.
pub open spec fn decimal_value(s: Seq<u8>) -> nat
    decreases s.len(),
{
    if s.len() == 0 {
        0
    } else {
        10 * decimal_value(s.drop_last()) + digit_value(s.last())
    }
}

/// The number that the token `s` denotes: it is made of one digit or more,
/// digits only, and its value fits the machine word. Leading zeros count
/// for nothing.
pub open spec fn uint_of(s: Seq<u8>) -> Option<usize> {
    if s.len() > 0 && all_digits(s) && decimal_value(s) <= usize::MAX {
        Some(decimal_value(s) as usize)
    } else {
        None
    }
}

/// More digits never denote a smaller number.
pub proof fn lemma_decimal_prefix(s: Seq<u8>, k: int)
    requires
        0 <= k <= s.len(),
    ensures
        decimal_value(s.take(k)) <= decimal_value(s),
    decreases s.len() - k,
{
    if k < s.len() {
        lemma_decimal_prefix(s.drop_last(), k);
        assert(s.drop_last().take(k) =~= s.take(k));
    } else {
        assert(s.take(k) =~= s);
    }
}

/// Parse a token into an unsigned integer. A token that is empty, holds
/// anything but digits, or denotes a number beyond `usize::MAX` is an error.
pub fn bytes_to_uint(bytes: &Bytes) -> (r: Result<usize, ParseError>)
    ensures
        r == match uint_of(bytes_seq(*bytes)) {
            Some(n) => Ok::<usize, ParseError>(n),
            None => Err::<usize, ParseError>(ParseError),
        },
{
    let raw = as_slice(bytes);
    if raw.len() == 0 {
        return Err(ParseError);
    }
    let mut out: usize = 0;
    let mut i: usize = 0;
    assert(raw@.take(0) =~= Seq::<u8>::empty());
    while i < raw.len()
        invariant
            raw@ == bytes_seq(*bytes),
            0 < raw.len(),
            i <= raw.len(),
            all_digits(raw@.take(i as int)),
            out == decimal_value(raw@.take(i as int)),
        decreases raw.len() - i,
    {
        let c = raw[i];
        if c < 48 || c > 57 {
            assert(!is_digit(raw@[i as int]));
            return Err(ParseError);
        }
        let digit: usize = (c - 48) as usize;
        proof {
            let next = raw@.take(i + 1);
            assert(next.drop_last() =~= raw@.take(i as int));
            assert(next.last() == c);
            assert(decimal_value(next) == 10 * out + digit);
            lemma_decimal_prefix(raw@, i + 1);
            assert forall|j: int| 0 <= j < next.len() implies is_digit(#[trigger] next[j]) by {
                if j < i {
                    assert(next[j] == raw@.take(i as int)[j]);
                }
            }
        }
        let shifted = match out.checked_mul(10) {
            Some(v) => v,
            None => {
                return Err(ParseError);
            },
        };
        out = match shifted.checked_add(digit) {
            Some(v) => v,
            None => {
                return Err(ParseError);
            },
        };
        i += 1;
    }
    assert(raw@.take(i as int) =~= raw@);
    Ok(out)
}

/// The digits of `n` in base ten, most significant first, without leading
/// zeros; zero is the single digit `0`.
pub open spec fn decimal_digits(n: nat) -> Seq<u8>
    decreases n,
{
    if n < 10 {
        seq![(48 + n) as u8]
    } else {
        decimal_digits(n / 10).push((48 + n % 10) as u8)
    }
}

/// Reading undoes writing: the digits of a number are a token that denotes
/// that number.
pub proof fn lemma_decimal_digits(n: nat)
    ensures
        decimal_digits(n).len() > 0,
        all_digits(decimal_digits(n)),
        decimal_value(decimal_digits(n)) == n,
    decreases n,
{
    if n < 10 {
        let s = decimal_digits(n);
        assert(s.drop_last() =~= Seq::<u8>::empty());
        assert(decimal_value(s) == 10 * decimal_value(s.drop_last()) + digit_value(s.last()));
    } else {
        lemma_decimal_digits(n / 10);
        let s = decimal_digits(n);
        assert(s.drop_last() =~= decimal_digits(n / 10));
        assert(decimal_value(s) == 10 * decimal_value(s.drop_last()) + digit_value(s.last()));
    }
}

/// Every machine word is read back from its digits.
pub proof fn lemma_uint_of_digits(n: usize)
    ensures
        uint_of(decimal_digits(n as nat)) == Some(n),
{
    lemma_decimal_digits(n as nat);
}

/// Append the decimal digits of `n` to `out`.
pub fn push_decimal(out: &mut Vec<u8>, n: usize)
    ensures
        final(out)@ == old(out)@ + decimal_digits(n as nat),
    decreases n,
{
    if n >= 10 {
        push_decimal(out, n / 10);
    }
    let digit: u8 = 48 + (n % 10) as u8;
    out.push(digit);
    assert(out@ =~= old(out)@ + decimal_digits(n as nat));
}

// ---------------------------------------------------------------------------
// Verbs
// ---------------------------------------------------------------------------

/// The upper-case form of an ASCII lower-case letter; any other byte itself.
pub open spec fn upper_byte(b: u8) -> u8 {
    if 97 <= b <= 122 {
        (b - 32) as u8
    } else {
        b
    }
}

/// `s` with each ASCII lower-case letter replaced by its upper-case form.
pub open spec fn to_upper(s: Seq<u8>) -> Seq<u8> {
    s.map_values(|b: u8| upper_byte(b))
}

/// Fold the ASCII letters of a buffer to upper case.
pub fn uppercase(bytes: &Bytes) -> (upper: Bytes)
    ensures
        bytes_seq(upper) == to_upper(bytes_seq(*bytes)),
{
    let raw = as_slice(bytes);
    let mut out: Vec<u8> = Vec::new();
    let mut i: usize = 0;
    while i < raw.len()
        invariant
            i <= raw.len(),
            out@ == to_upper(raw@.take(i as int)),
        decreases raw.len() - i,
    {
        let c = raw[i];
        let folded: u8 = if 97 <= c && c <= 122 {
            c - 32
        } else {
            c
        };
        proof {
            assert(raw@.take(i + 1) =~= raw@.take(i as int).push(c));
            assert(to_upper(raw@.take(i as int).push(c)) =~= to_upper(raw@.take(i as int)).push(
                upper_byte(c),
            ));
        }
        out.push(folded);
        i += 1;
    }
    assert(raw@.take(i as int) =~= raw@);
    from_vec(out)
}

// ---------------------------------------------------------------------------
// Commands
// ---------------------------------------------------------------------------

/// Whether `token` spells `verb` once its letters are folded to upper case.
pub open spec fn is_verb(token: Seq<u8>, verb: &str) -> bool {
    to_upper(token) == verb.spec_bytes()
}

/// The number at place `index` of `args`, if that token is there and
/// denotes one.
pub open spec fn numeric_arg_of(args: Seq<Seq<u8>>, index: int) -> Option<usize> {
    if 0 <= index < args.len() {
        uint_of(args[index])
    } else {
        None
    }
}

/// The command that a list of tokens spells; the first token is the verb.
///
/// `RETR`, `DELE` and `TOP` need their numbers, `USER`, `PASS` and `APOP`
/// their raw tokens. `LIST` and `UIDL` take a number if one is given and
/// readable, and none otherwise. Whatever follows the arguments of a verb
/// is ignored.
pub open spec fn command_of(args: Seq<Seq<u8>>) -> Result<CommandView, CommandErrView>
    recommends
        args.len() > 0,
{
    let verb = args[0];
    if is_verb(verb, "QUIT") {
        Ok(CommandView::Quit)
    } else if is_verb(verb, "STAT") {
        Ok(CommandView::Stat)
    } else if is_verb(verb, "LIST") {
        Ok(CommandView::List { message_number: numeric_arg_of(args, 1) })
    } else if is_verb(verb, "RETR") {
        match numeric_arg_of(args, 1) {
            Some(message_number) => Ok(CommandView::Retrieve { message_number }),
            None => Err(CommandErrView::InvalidArguments),
        }
    } else if is_verb(verb, "DELE") {
        match numeric_arg_of(args, 1) {
            Some(message_number) => Ok(CommandView::Delete { message_number }),
            None => Err(CommandErrView::InvalidArguments),
        }
    } else if is_verb(verb, "NOOP") {
        Ok(CommandView::NoOp)
    } else if is_verb(verb, "RSET") {
        Ok(CommandView::Reset)
    } else if is_verb(verb, "CAPA") {
        Ok(CommandView::Capabilities)
    } else if is_verb(verb, "TOP") {
        match (numeric_arg_of(args, 1), numeric_arg_of(args, 2)) {
            (Some(message_number), Some(n)) => Ok(CommandView::Top { message_number, n }),
            _ => Err(CommandErrView::InvalidArguments),
        }
    } else if is_verb(verb, "UIDL") {
        Ok(CommandView::UniqueIDListing { message_number: numeric_arg_of(args, 1) })
    } else if is_verb(verb, "USER") {
        if args.len() > 1 {
            Ok(CommandView::Username { username: args[1] })
        } else {
            Err(CommandErrView::InvalidArguments)
        }
    } else if is_verb(verb, "PASS") {
        if args.len() > 1 {
            Ok(CommandView::Password { password: args[1] })
        } else {
            Err(CommandErrView::InvalidArguments)
        }
    } else if is_verb(verb, "APOP") {
        if args.len() > 2 {
            Ok(CommandView::APop { username: args[1], md5_digest: args[2] })
        } else {
            Err(CommandErrView::InvalidArguments)
        }
    } else {
        Err(CommandErrView::UnknownCommand(verb))
    }
}

/// Whether `frame` ends in the line terminator.
pub open spec fn is_complete_frame(frame: Seq<u8>) -> bool {
    frame.len() >= 2 && frame[frame.len() - 2] == CR && frame[frame.len() - 1] == LF
}

/// What a frame parses to.
///
/// A frame that does not end in CRLF is incomplete. A frame that is the
/// terminator alone has no verb, which is a syntax error. Any other frame is
/// read by [`command_of`] from the tokens before its terminator.
pub open spec fn parse_frame(frame: Seq<u8>) -> Result<CommandView, CommandErrView> {
    if !is_complete_frame(frame) {
        Err(CommandErrView::IncompleteResponse)
    } else {
        let args = tokens(frame.take(frame.len() - 2));
        if args.len() == 0 {
            Err(CommandErrView::InvalidSyntax)
        } else {
            command_of(args)
        }
    }
}

/// A command comes only from a frame that ends in the line terminator.
pub proof fn lemma_command_needs_terminator(frame: Seq<u8>)
    ensures
        parse_frame(frame) is Ok ==> is_complete_frame(frame),
{
}

/// The raw token at place `index`, which a command requires.
fn bytes_arg(args: &Vec<Bytes>, index: usize) -> (r: Result<Bytes, POP3CommandErr>)
    ensures
        index < args.len() ==> r is Ok && bytes_seq(r->Ok_0) == arg_views(args@)[index as int],
        index >= args.len() ==> r == Err::<Bytes, POP3CommandErr>(POP3CommandErr::InvalidArguments),
{
    if index < args.len() {
        Ok(args[index].clone())
    } else {
        Err(POP3CommandErr::InvalidArguments)
    }
}

/// The number at place `index`, which a command requires.
fn numeric_arg(args: &Vec<Bytes>, index: usize) -> (r: Result<usize, POP3CommandErr>)
    ensures
        r == match numeric_arg_of(arg_views(args@), index as int) {
            Some(n) => Ok::<usize, POP3CommandErr>(n),
            None => Err::<usize, POP3CommandErr>(POP3CommandErr::InvalidArguments),
        },
{
    if index < args.len() {
        match bytes_to_uint(&args[index]) {
            Ok(n) => Ok(n),
            Err(_) => Err(POP3CommandErr::InvalidArguments),
        }
    } else {
        Err(POP3CommandErr::InvalidArguments)
    }
}

/// The number at place `index`, where a command can do without one.
fn optional_numeric_arg(args: &Vec<Bytes>, index: usize) -> (r: Option<usize>)
    ensures
        r == numeric_arg_of(arg_views(args@), index as int),
{
    match numeric_arg(args, index) {
        Ok(n) => Some(n),
        Err(_) => None,
    }
}

/// Whether the folded verb `upper` spells `verb`.
fn spells(upper: &Bytes, verb: &str) -> (yes: bool)
    ensures
        yes == (bytes_seq(*upper) == verb.spec_bytes()),
{
    same_bytes(as_slice(upper), verb.as_bytes())
}

impl POP3Command {
    /// Read a command from a frame.
    pub fn parse(bytes: Bytes) -> (r: Result<Self, POP3CommandErr>)
        ensures
            parsed_view(r) == parse_frame(bytes_seq(bytes)),
    {
        Self::try_from(bytes)
    }
}

impl TryFrom<Bytes> for POP3Command {
    type Error = POP3CommandErr;

    /// Attempt to convert a frame to a command. The result is the one that
    /// [`parse_frame`] gives for the bytes of the frame.
    fn try_from(bytes: Bytes) -> (r: Result<Self, POP3CommandErr>)
        ensures
            parsed_view(r) == parse_frame(bytes_seq(bytes)),
    {
        let len = bytes.len();
        if len < 2 {
            return Err(POP3CommandErr::IncompleteResponse);
        }
        // Make sure the command ends with a CRLF pair
        let raw = as_slice(&bytes);
        if raw[len - 2] != CR || raw[len - 1] != LF {
            return Err(POP3CommandErr::IncompleteResponse);
        }
        let line = slice(&bytes, 0, len - 2);
        assert(bytes_seq(line) =~= bytes_seq(bytes).take(len - 2));

        let args = split_args(&line);
        if args.len() == 0 {
            return Err(POP3CommandErr::InvalidSyntax);
        }
        let ghost views = arg_views(args@);
        assert(views[0] == bytes_seq(args@[0]));
        let verb = uppercase(&args[0]);

        if spells(&verb, "QUIT") {
            Ok(POP3Command::Quit)
        } else if spells(&verb, "STAT") {
            Ok(POP3Command::Stat)
        } else if spells(&verb, "LIST") {
            Ok(POP3Command::List { message_number: optional_numeric_arg(&args, 1) })
        } else if spells(&verb, "RETR") {
            match numeric_arg(&args, 1) {
                Ok(message_number) => Ok(POP3Command::Retrieve { message_number }),
                Err(e) => Err(e),
            }
        } else if spells(&verb, "DELE") {
            match numeric_arg(&args, 1) {
                Ok(message_number) => Ok(POP3Command::Delete { message_number }),
                Err(e) => Err(e),
            }
        } else if spells(&verb, "NOOP") {
            Ok(POP3Command::NoOp)
        } else if spells(&verb, "RSET") {
            Ok(POP3Command::Reset)
        } else if spells(&verb, "CAPA") {
            Ok(POP3Command::Capabilities)
        } else if spells(&verb, "TOP") {
            let message_number = match numeric_arg(&args, 1) {
                Ok(n) => n,
                Err(e) => {
                    return Err(e);
                },
            };
            match numeric_arg(&args, 2) {
                Ok(n) => Ok(POP3Command::Top { message_number, n }),
                Err(e) => Err(e),
            }
        } else if spells(&verb, "UIDL") {
            Ok(POP3Command::UniqueIDListing { message_number: optional_numeric_arg(&args, 1) })
        } else if spells(&verb, "USER") {
            match bytes_arg(&args, 1) {
                Ok(username) => Ok(POP3Command::Username { username }),
                Err(e) => Err(e),
            }
        } else if spells(&verb, "PASS") {
            match bytes_arg(&args, 1) {
                Ok(password) => Ok(POP3Command::Password { password }),
                Err(e) => Err(e),
            }
        } else if spells(&verb, "APOP") {
            let username = match bytes_arg(&args, 1) {
                Ok(token) => token,
                Err(e) => {
                    return Err(e);
                },
            };
            match bytes_arg(&args, 2) {
                Ok(md5_digest) => Ok(POP3Command::APop { username, md5_digest }),
                Err(e) => Err(e),
            }
        } else {
            Err(POP3CommandErr::UnknownCommand(args[0].clone()))
        }
    }
}

/// The conversion states its result on the method itself, over the bytes of
/// the frame; buffers are opaque, so no value of the type can be named here.
impl TryFromSpecImpl<Bytes> for POP3Command {
    open spec fn obeys_try_from_spec() -> bool {
        false
    }

    open spec fn try_from_spec(v: Bytes) -> Result<Self, POP3CommandErr> {
        Err(POP3CommandErr::IncompleteResponse)
    }
}

} // verus!
