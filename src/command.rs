use vstd::prelude::*;
use vstd::utf8::{valid_utf8, decode_utf8};

verus! {

/// A request of the control connection, parsed out of one CRLF-terminated line.
#[derive(Clone, Debug, PartialEq, Eq)]
pub enum Command {
    /// `PORT h1,h2,h3,h4,p1,p2`: the client's IPv4 address and port for an active transfer.
    Port([u8; 4], u16),
    /// `LIST [path]`; a bare `LIST` lists `./`.
    List(String),
    /// `RETR path`
    Retr(String),
    /// `USER name`
    User(String),
    /// `PASS password`
    Password(String),
    /// `PWD`
    CurrentDirectory,
    /// `STOR path`
    Store(String),
    /// `PASV`
    Passive,
    /// `MKD path`
    Mkdir(String),
    /// `DELE path`
    Delete(String),
    /// `RMD path`
    RemoveDirectory(String),
    /// `CWD path`
    ChangeDirectory(String),
    /// `RNFR path`
    RenameFrom(String),
    /// `RNTO path`
    RenameTo(String),
    /// `QUIT`
    Quit,
}

/// What a command is, with its text arguments as characters.
pub enum CommandView {
    Port(Seq<u8>, u16),
    List(Seq<char>),
    Retr(Seq<char>),
    User(Seq<char>),
    Password(Seq<char>),
    CurrentDirectory,
    Store(Seq<char>),
    Passive,
    Mkdir(Seq<char>),
    Delete(Seq<char>),
    RemoveDirectory(Seq<char>),
    ChangeDirectory(Seq<char>),
    RenameFrom(Seq<char>),
    RenameTo(Seq<char>),
    Quit,
}

impl CommandView {
    /// Whether the command may only run once the session has logged in:
    /// all but `USER`, `PASS` and `QUIT`.
    pub open spec fn needs_auth(self) -> bool {
        !(self is User || self is Password || self is Quit)
    }
}

impl View for Command {
    type V = CommandView;

    open spec fn view(&self) -> CommandView {
        match self {
            Command::Port(ip, port) => CommandView::Port(ip@, *port),
            Command::List(p) => CommandView::List(p@),
            Command::Retr(p) => CommandView::Retr(p@),
            Command::User(p) => CommandView::User(p@),
            Command::Password(p) => CommandView::Password(p@),
            Command::CurrentDirectory => CommandView::CurrentDirectory,
            Command::Store(p) => CommandView::Store(p@),
            Command::Passive => CommandView::Passive,
            Command::Mkdir(p) => CommandView::Mkdir(p@),
            Command::Delete(p) => CommandView::Delete(p@),
            Command::RemoveDirectory(p) => CommandView::RemoveDirectory(p@),
            Command::ChangeDirectory(p) => CommandView::ChangeDirectory(p@),
            Command::RenameFrom(p) => CommandView::RenameFrom(p@),
            Command::RenameTo(p) => CommandView::RenameTo(p@),
            Command::Quit => CommandView::Quit,
        }
    }
}

/// Why a request line was not understood.
#[derive(Clone, Copy, Debug, PartialEq, Eq, Structural)]
pub enum ParseError {
    TooShort,
    MissingCrlf,
    InvalidLength,
    InvalidCommand,
    ExpectedSpace,
    NotUtf8,
    NotQuit,
    NotList,
    UnknownCommand,
    NotRetrOrRmd,
    BadLength,
    NotPassOrPasv,
    NotPort,
    InvalidIp,
    InvalidPort,
    BadPortFormat,
    NotUser,
    UnknownVerb,
}

impl ParseError {
    /// The text that a reply carries for this error.
    pub open spec fn spec_message(&self) -> &'static str {
        match self {
            ParseError::TooShort => "Command is too short",
            ParseError::MissingCrlf => "All commands should finish with slash r slash n",
            ParseError::InvalidLength => "invalid command length",
            ParseError::InvalidCommand => "Invalid command",
            ParseError::ExpectedSpace => "Expected space in between command and the rest.",
            ParseError::NotUtf8 => "expected utf8 string",
            ParseError::NotQuit => "Invalid command, did you mean `QUIT`?",
            ParseError::NotList => "Invalid command, maybe you meant: `LIST`?",
            ParseError::UnknownCommand => "Unknown command",
            ParseError::NotRetrOrRmd => "Unknown command, maybe you meant 'RETR' or 'RMD'?",
            ParseError::BadLength => "Bad command length",
            ParseError::NotPassOrPasv => "Unknown command, maybe you meant 'PASS' or 'PASV'",
            ParseError::NotPort => "Invalid command, maybe you meant: `PORT`?",
            ParseError::InvalidIp => "Invalid IPv4 address",
            ParseError::InvalidPort => "Invalid port number",
            ParseError::BadPortFormat => "Bad format of the `PORT` command",
            ParseError::NotUser => "Invalid command, maybe you meant: `USER`?",
            ParseError::UnknownVerb => "invalid command",
        }
    }

    /// The text that a reply carries for this error.
    #[verifier::when_used_as_spec(spec_message)]
    pub fn message(&self) -> (r: &'static str)
        ensures
            r == self.spec_message(),
    {
        match self {
            ParseError::TooShort => "Command is too short",
            ParseError::MissingCrlf => "All commands should finish with slash r slash n",
            ParseError::InvalidLength => "invalid command length",
            ParseError::InvalidCommand => "Invalid command",
            ParseError::ExpectedSpace => "Expected space in between command and the rest.",
            ParseError::NotUtf8 => "expected utf8 string",
            ParseError::NotQuit => "Invalid command, did you mean `QUIT`?",
            ParseError::NotList => "Invalid command, maybe you meant: `LIST`?",
            ParseError::UnknownCommand => "Unknown command",
            ParseError::NotRetrOrRmd => "Unknown command, maybe you meant 'RETR' or 'RMD'?",
            ParseError::BadLength => "Bad command length",
            ParseError::NotPassOrPasv => "Unknown command, maybe you meant 'PASS' or 'PASV'",
            ParseError::NotPort => "Invalid command, maybe you meant: `PORT`?",
            ParseError::InvalidIp => "Invalid IPv4 address",
            ParseError::InvalidPort => "Invalid port number",
            ParseError::BadPortFormat => "Bad format of the `PORT` command",
            ParseError::NotUser => "Invalid command, maybe you meant: `USER`?",
            ParseError::UnknownVerb => "invalid command",
        }
    }
}

/// Relies on std::str::from_utf8: it succeeds exactly on valid UTF-8, and
/// then holds the characters that the bytes encode.
#[verifier::external_body]
fn utf8_text(bytes: &[u8]) -> (r: Option<String>)
    ensures
        r.is_some() <==> valid_utf8(bytes@),
        r matches Some(s) ==> s@ == decode_utf8(bytes@),
{
    match std::str::from_utf8(bytes) {
        Ok(s) => Some(s.to_string()),
        Err(_) => None,
    }
}

fn expects_byte(byte: u8, expected_byte: u8, msg: ParseError) -> (r: Result<(), ParseError>)
    ensures
        r == (if byte == expected_byte { Ok::<(), ParseError>(()) } else { Err(msg) }),
{
    if byte != expected_byte {
        return Err(msg);
    }
    Ok(())
}

/// The value of a run of ASCII decimal digits.
pub open spec fn digits_value(s: Seq<u8>) -> int
    decreases s.len(),
{
    if s.len() == 0 {
        0
    } else {
        digits_value(s.drop_last()) * 10 + (s.last() - 48)
    }
}

pub open spec fn is_digit(c: u8) -> bool {
    48 <= c <= 57
}

/// A field of one to three decimal digits whose value fits in a byte.
pub open spec fn byte_field(s: Seq<u8>) -> Option<u8> {
    if 1 <= s.len() <= 3 && (forall|i: int| 0 <= i < s.len() ==> is_digit(#[trigger] s[i]))
        && digits_value(s) <= 255 {
        Some(digits_value(s) as u8)
    } else {
        None
    }
}

fn ascii_to_u8(buff: &[u8]) -> (r: Option<u8>)
    ensures
        r == byte_field(buff@),
{
    if buff.len() > 3 || buff.len() == 0 {
        return None;
    }
    let mut n: u16 = 0;
    let mut i: usize = 0;
    while i < buff.len()
        invariant
            1 <= buff@.len() <= 3,
            0 <= i <= buff@.len(),
            forall|j: int| 0 <= j < i ==> is_digit(#[trigger] buff@[j]),
            n as int == digits_value(buff@.subrange(0, i as int)),
            n <= 999,
        decreases buff@.len() - i,
    {
        let byte = buff[i];
        if byte < 48 || byte > 57 {
            return None;
        }
        proof {
            let s = buff@.subrange(0, i as int + 1);
            assert(s.drop_last() =~= buff@.subrange(0, i as int));
            assert(i < 3);
            assert(n <= 99) by {
                lemma_digits_bound(buff@.subrange(0, i as int));
            }
        }
        n = n * 10 + (byte - 48) as u16;
        i = i + 1;
    }
    assert(buff@.subrange(0, i as int) =~= buff@);
    if n > 255 {
        return None;
    }
    Some(n as u8)
}

proof fn lemma_digits_bound(s: Seq<u8>)
    requires
        s.len() <= 2,
        forall|j: int| 0 <= j < s.len() ==> is_digit(#[trigger] s[j]),
    ensures
        0 <= digits_value(s) <= if s.len() == 0 { 0int } else if s.len() == 1 { 9int } else { 99int },
    decreases s.len(),
{
    if s.len() > 0 {
        assert(is_digit(s[s.len() - 1]));
        lemma_digits_bound(s.drop_last());
    }
}


/// Where the search for the next comma, from `from`, stops: at the comma
/// itself, or at `stop` (the carriage return that ends the line).
pub open spec fn next_comma(b: Seq<u8>, from: int, stop: int) -> int
    decreases stop - from,
{
    if from >= stop || b[from] == 44 {
        from
    } else {
        next_comma(b, from + 1, stop)
    }
}

/// Where the `i`-th field of a `PORT` argument starts.
pub open spec fn field_start(b: Seq<u8>, stop: int, i: nat) -> int
    decreases i,
{
    if i == 0 {
        5
    } else {
        next_comma(b, field_start(b, stop, (i - 1) as nat), stop) + 1
    }
}

/// The `i`-th field of a `PORT` argument, if it is there and is a byte.
pub open spec fn field_value(b: Seq<u8>, stop: int, i: nat) -> Option<u8> {
    let s = field_start(b, stop, i);
    if s > stop {
        None
    } else {
        byte_field(b.subrange(s, next_comma(b, s, stop)))
    }
}

/// The argument of `PORT h1,h2,h3,h4,p1,p2\r\n`, read from byte 5 on.
pub open spec fn port_arg(b: Seq<u8>) -> Result<CommandView, ParseError> {
    let stop = b.len() - 2;
    if field_value(b, stop, 0) is None || field_value(b, stop, 1) is None
        || field_value(b, stop, 2) is None || field_value(b, stop, 3) is None {
        Err(ParseError::InvalidIp)
    } else if field_value(b, stop, 4) is None || field_value(b, stop, 5) is None {
        Err(ParseError::InvalidPort)
    } else if field_start(b, stop, 6) != b.len() - 1 {
        Err(ParseError::BadPortFormat)
    } else {
        Ok(
            CommandView::Port(
                seq![
                    field_value(b, stop, 0).unwrap(),
                    field_value(b, stop, 1).unwrap(),
                    field_value(b, stop, 2).unwrap(),
                    field_value(b, stop, 3).unwrap(),
                ],
                (field_value(b, stop, 4).unwrap() * 256 + field_value(b, stop, 5).unwrap()) as u16,
            ),
        )
    }
}

fn parse_port(command: &[u8]) -> (r: Result<Command, ParseError>)
    requires
        command@.len() >= 7,
    ensures
        parsed(r) == port_arg(command@),
{
    let ghost b = command@;
    let n = command.len();
    let stop = n - 2;
    let ghost gstop = stop as int;
    let mut fields: Vec<u8> = Vec::new();
    let mut byte_idx: usize = 5;
    let mut i: usize = 0;
    while i < 6
        invariant
            b == command@,
            n == b.len(),
            stop == n - 2,
            gstop == stop,
            0 <= i <= 6,
            byte_idx as int == field_start(b, gstop, i as nat),
            byte_idx <= stop + 1,
            fields@.len() == i,
            forall|k: nat|
                k < i ==> #[trigger] field_value(b, gstop, k) == Some(fields@[k as int]),
        decreases 6 - i,
    {
        let prev = byte_idx;
        if prev > stop {
            assert(field_value(b, gstop, i as nat) is None);
            return Err(if i < 4 { ParseError::InvalidIp } else { ParseError::InvalidPort });
        }
        while byte_idx < stop && command[byte_idx] != 44
            invariant
                b == command@,
                n == b.len(),
                stop == n - 2,
                gstop == stop,
                prev <= byte_idx <= stop,
                next_comma(b, byte_idx as int, gstop) == next_comma(b, prev as int, gstop),
            decreases stop - byte_idx,
        {
            byte_idx = byte_idx + 1;
        }
        let v = ascii_to_u8(&command[prev..byte_idx]);
        assert(command@.subrange(prev as int, byte_idx as int) == b.subrange(
            prev as int,
            next_comma(b, prev as int, gstop),
        ));
        match v {
            None => {
                assert(field_value(b, gstop, i as nat) is None);
                return Err(if i < 4 { ParseError::InvalidIp } else { ParseError::InvalidPort });
            },
            Some(x) => {
                fields.push(x);
            },
        }
        byte_idx = byte_idx + 1;
        i = i + 1;
    }
    if byte_idx != n - 1 {
        assert(field_value(b, gstop, 5) is Some);
        return Err(ParseError::BadPortFormat);
    }
    let ip: [u8; 4] = [fields[0], fields[1], fields[2], fields[3]];
    let port: u16 = fields[4] as u16 * 256 + fields[5] as u16;
    proof {
        assert(ip@ =~= seq![fields@[0], fields@[1], fields@[2], fields@[3]]);
        assert(field_value(b, gstop, 0) == Some(fields@[0]));
        assert(field_value(b, gstop, 1) == Some(fields@[1]));
        assert(field_value(b, gstop, 2) == Some(fields@[2]));
        assert(field_value(b, gstop, 3) == Some(fields@[3]));
        assert(field_value(b, gstop, 4) == Some(fields@[4]));
        assert(field_value(b, gstop, 5) == Some(fields@[5]));
    }
    Ok(Command::Port(ip, port))
}

/// The view of a parse result.
pub open spec fn parsed(r: Result<Command, ParseError>) -> Result<CommandView, ParseError> {
    match r {
        Ok(c) => Ok(c@),
        Err(e) => Err(e),
    }
}


/// The text between `lo` and `hi`, if those bytes are UTF-8.
pub open spec fn text_of(b: Seq<u8>, lo: int, hi: int) -> Result<Seq<char>, ParseError> {
    if valid_utf8(b.subrange(lo, hi)) {
        Ok(decode_utf8(b.subrange(lo, hi)))
    } else {
        Err(ParseError::NotUtf8)
    }
}

/// The path of a request `<verb> <path>\r\n`, where `b[start..end]` must be
/// `verb` and a space must follow it.
pub open spec fn path_arg(b: Seq<u8>, verb: Seq<u8>, start: int, end: int) -> Result<
    Seq<char>,
    ParseError,
> {
    if b.len() <= 6 {
        Err(ParseError::InvalidLength)
    } else if b.subrange(start, end) != verb {
        Err(ParseError::InvalidCommand)
    } else if b[end] != 32 {
        Err(ParseError::ExpectedSpace)
    } else {
        text_of(b, end + 1, b.len() - 2)
    }
}

pub open spec fn with_text(
    r: Result<Seq<char>, ParseError>,
    f: spec_fn(Seq<char>) -> CommandView,
) -> Result<CommandView, ParseError> {
    match r {
        Ok(t) => Ok(f(t)),
        Err(e) => Err(e),
    }
}

pub open spec fn text_view(r: Result<String, ParseError>) -> Result<Seq<char>, ParseError> {
    match r {
        Ok(s) => Ok(s@),
        Err(e) => Err(e),
    }
}

/// What a request line means: the command, or why it is refused.
pub open spec fn parse_request(b: Seq<u8>) -> Result<CommandView, ParseError> {
    let n = b.len();
    if n <= 2 {
        Err(ParseError::TooShort)
    } else if b[n - 1] != 10 || b[n - 2] != 13 {
        Err(ParseError::MissingCrlf)
    } else if b[0] == 67 {
        // CWD
        with_text(path_arg(b, seq![87u8, 68u8], 1, 3), |t| CommandView::ChangeDirectory(t))
    } else if b[0] == 68 {
        // DELE
        with_text(path_arg(b, seq![69u8, 76u8, 69u8], 1, 4), |t| CommandView::Delete(t))
    } else if b[0] == 77 {
        // MKD
        with_text(path_arg(b, seq![75u8, 68u8], 1, 3), |t| CommandView::Mkdir(t))
    } else if b[0] == 81 {
        // QUIT
        if n <= 4 || b.subrange(1, 4) != seq![85u8, 73u8, 84u8] {
            Err(ParseError::NotQuit)
        } else {
            Ok(CommandView::Quit)
        }
    } else if b[0] == 76 {
        // LIST
        if n <= 5 {
            Err(ParseError::InvalidLength)
        } else if b.subrange(1, 4) != seq![73u8, 83u8, 84u8] {
            Err(ParseError::NotList)
        } else if n == 6 {
            Ok(CommandView::List(seq!['.', '/']))
        } else if b[4] != 32 {
            Err(ParseError::ExpectedSpace)
        } else {
            with_text(text_of(b, 5, n - 2), |t| CommandView::List(t))
        }
    } else if b[0] == 82 {
        if b[1] == 69 {
            // RETR
            with_text(path_arg(b, seq![84u8, 82u8], 2, 4), |t| CommandView::Retr(t))
        } else if b[1] == 77 {
            // RMD
            with_text(path_arg(b, seq![68u8], 2, 3), |t| CommandView::RemoveDirectory(t))
        } else if b[1] == 78 {
            if b[2] == 70 {
                // RNFR
                with_text(path_arg(b, seq![82u8], 3, 4), |t| CommandView::RenameFrom(t))
            } else if b[2] == 84 {
                // RNTO
                with_text(path_arg(b, seq![79u8], 3, 4), |t| CommandView::RenameTo(t))
            } else {
                Err(ParseError::UnknownCommand)
            }
        } else {
            Err(ParseError::NotRetrOrRmd)
        }
    } else if b[0] == 83 {
        // STOR
        with_text(path_arg(b, seq![84u8, 79u8, 82u8], 1, 4), |t| CommandView::Store(t))
    } else if b[0] == 80 {
        if b[1] == 87 {
            // PWD
            if b[2] != 68 || n != 5 {
                Err(ParseError::UnknownCommand)
            } else {
                Ok(CommandView::CurrentDirectory)
            }
        } else if b[1] == 65 && b[2] == 83 && b[3] == 86 {
            // PASV
            if n != 6 {
                Err(ParseError::BadLength)
            } else {
                Ok(CommandView::Passive)
            }
        } else if b[1] == 65 && b[2] == 83 && b[3] == 83 {
            // PASS
            if b[4] != 32 {
                Err(ParseError::ExpectedSpace)
            } else {
                with_text(text_of(b, 5, n - 2), |t| CommandView::Password(t))
            }
        } else if b[1] == 65 {
            Err(ParseError::NotPassOrPasv)
        } else if b[1] == 79 {
            // PORT
            if n <= 6 {
                Err(ParseError::InvalidLength)
            } else if b.subrange(2, 4) != seq![82u8, 84u8] {
                Err(ParseError::NotPort)
            } else if b[4] != 32 {
                Err(ParseError::ExpectedSpace)
            } else {
                port_arg(b)
            }
        } else {
            Err(ParseError::UnknownCommand)
        }
    } else if b[0] == 85 {
        // USER
        if n <= 6 {
            Err(ParseError::InvalidLength)
        } else if b.subrange(1, 4) != seq![83u8, 69u8, 82u8] {
            Err(ParseError::NotUser)
        } else if b[4] != 32 {
            Err(ParseError::ExpectedSpace)
        } else {
            with_text(text_of(b, 5, n - 2), |t| CommandView::User(t))
        }
    } else {
        Err(ParseError::UnknownVerb)
    }
}

/// Whether `b[start..start + verb.len()]` holds `verb`.
fn bytes_at(b: &[u8], start: usize, verb: &[u8]) -> (r: bool)
    requires
        start + verb@.len() <= b@.len(),
    ensures
        r == (b@.subrange(start as int, start + verb@.len()) == verb@),
{
    let bl = b.len();
    let mut i: usize = 0;
    while i < verb.len()
        invariant
            0 <= i <= verb@.len(),
            bl == b@.len(),
            start + verb@.len() <= bl,
            forall|j: int| 0 <= j < i ==> b@[start + j] == verb@[j],
        decreases verb@.len() - i,
    {
        if b[start + i] != verb[i] {
            assert(b@.subrange(start as int, start + verb@.len())[i as int] != verb@[i as int]);
            return false;
        }
        i = i + 1;
    }
    assert(b@.subrange(start as int, start + verb@.len()) =~= verb@);
    true
}

fn text_between(command: &[u8], lo: usize, hi: usize) -> (r: Result<String, ParseError>)
    requires
        lo <= hi <= command@.len(),
    ensures
        text_view(r) == text_of(command@, lo as int, hi as int),
{
    match utf8_text(&command[lo..hi]) {
        Some(s) => Ok(s),
        None => Err(ParseError::NotUtf8),
    }
}

/// Parses the path out of `<verb> <path>\r\n`.
fn parse_path(command: &[u8], expected_command: &[u8], range_command: (usize, usize)) -> (r:
    Result<String, ParseError>)
    requires
        command@.len() >= 3,
        command@[command@.len() - 2] == 13,
        1 <= range_command.0 <= range_command.1 <= 4,
        range_command.1 - range_command.0 == expected_command@.len(),
    ensures
        text_view(r) == path_arg(
            command@,
            expected_command@,
            range_command.0 as int,
            range_command.1 as int,
        ),
{
    if command.len() <= 6 {
        return Err(ParseError::InvalidLength);
    }
    if !bytes_at(command, range_command.0, expected_command) {
        return Err(ParseError::InvalidCommand);
    }
    expects_byte(command[range_command.1], 32, ParseError::ExpectedSpace)?;
    text_between(command, range_command.1 + 1, command.len() - 2)
}

impl Command {
    /// Whether the command may only run once the session has logged in.
    pub open spec fn spec_is_auth_command(&self) -> bool {
        self@.needs_auth()
    }

    /// Returns whether this command needs authentication.
    pub fn is_auth_command(&self) -> (r: bool)
        ensures
            r == self.spec_is_auth_command(),
    {
        match self {
            Command::Port(_, _)
            | Command::List(_)
            | Command::Retr(_)
            | Command::Mkdir(_)
            | Command::Store(_)
            | Command::Delete(_)
            | Command::RemoveDirectory(_)
            | Command::CurrentDirectory
            | Command::ChangeDirectory(_)
            | Command::RenameTo(_)
            | Command::RenameFrom(_)
            | Command::Passive => true,
            _ => false,
        }
    }

    /// Parses one request line, which ends in CRLF.
    pub fn try_from(command: &[u8]) -> (r: Result<Command, ParseError>)
        ensures
            parsed(r) == parse_request(command@),
    {
        let n = command.len();
        if n <= 2 {
            return Err(ParseError::TooShort);
        }
        expects_byte(command[n - 1], 10, ParseError::MissingCrlf)?;
        expects_byte(command[n - 2], 13, ParseError::MissingCrlf)?;
        let first = command[0];
        proof {
            assert(seq![87u8, 68u8] =~= [87u8, 68u8]@);
            assert(seq![69u8, 76u8, 69u8] =~= [69u8, 76u8, 69u8]@);
            assert(seq![75u8, 68u8] =~= [75u8, 68u8]@);
            assert(seq![85u8, 73u8, 84u8] =~= [85u8, 73u8, 84u8]@);
            assert(seq![73u8, 83u8, 84u8] =~= [73u8, 83u8, 84u8]@);
            assert(seq![84u8, 82u8] =~= [84u8, 82u8]@);
            assert(seq![68u8] =~= [68u8]@);
            assert(seq![82u8] =~= [82u8]@);
            assert(seq![79u8] =~= [79u8]@);
            assert(seq![84u8, 79u8, 82u8] =~= [84u8, 79u8, 82u8]@);
            assert(seq![82u8, 84u8] =~= [82u8, 84u8]@);
            assert(seq![83u8, 69u8, 82u8] =~= [83u8, 69u8, 82u8]@);
        }
        if first == 67 {
            return match parse_path(command, &[87u8, 68u8], (1, 3)) {
                Ok(p) => Ok(Command::ChangeDirectory(p)),
                Err(e) => Err(e),
            };
        }
        if first == 68 {
            return match parse_path(command, &[69u8, 76u8, 69u8], (1, 4)) {
                Ok(p) => Ok(Command::Delete(p)),
                Err(e) => Err(e),
            };
        }
        if first == 77 {
            return match parse_path(command, &[75u8, 68u8], (1, 3)) {
                Ok(p) => Ok(Command::Mkdir(p)),
                Err(e) => Err(e),
            };
        }
        if first == 81 {
            if n <= 4 || !bytes_at(command, 1, &[85u8, 73u8, 84u8]) {
                return Err(ParseError::NotQuit);
            }
            return Ok(Command::Quit);
        }
        if first == 76 {
            if n <= 5 {
                return Err(ParseError::InvalidLength);
            }
            if !bytes_at(command, 1, &[73u8, 83u8, 84u8]) {
                return Err(ParseError::NotList);
            }
            if n == 6 {
                let here = "./".to_owned();
                proof {
                    reveal_strlit("./");
                    assert(here@ =~= seq!['.', '/']);
                }
                return Ok(Command::List(here));
            }
            expects_byte(command[4], 32, ParseError::ExpectedSpace)?;
            return match text_between(command, 5, n - 2) {
                Ok(p) => Ok(Command::List(p)),
                Err(e) => Err(e),
            };
        }
        if first == 82 {
            let second = command[1];
            if second == 69 {
                return match parse_path(command, &[84u8, 82u8], (2, 4)) {
                    Ok(p) => Ok(Command::Retr(p)),
                    Err(e) => Err(e),
                };
            }
            if second == 77 {
                return match parse_path(command, &[68u8], (2, 3)) {
                    Ok(p) => Ok(Command::RemoveDirectory(p)),
                    Err(e) => Err(e),
                };
            }
            if second == 78 {
                let third = command[2];
                if third == 70 {
                    return match parse_path(command, &[82u8], (3, 4)) {
                        Ok(p) => Ok(Command::RenameFrom(p)),
                        Err(e) => Err(e),
                    };
                }
                if third == 84 {
                    return match parse_path(command, &[79u8], (3, 4)) {
                        Ok(p) => Ok(Command::RenameTo(p)),
                        Err(e) => Err(e),
                    };
                }
                return Err(ParseError::UnknownCommand);
            }
            return Err(ParseError::NotRetrOrRmd);
        }
        if first == 83 {
            return match parse_path(command, &[84u8, 79u8, 82u8], (1, 4)) {
                Ok(p) => Ok(Command::Store(p)),
                Err(e) => Err(e),
            };
        }
        if first == 80 {
            let second = command[1];
            if second == 87 {
                if command[2] != 68 || n != 5 {
                    return Err(ParseError::UnknownCommand);
                }
                return Ok(Command::CurrentDirectory);
            }
            if second == 65 {
                if command[2] == 83 {
                    let fourth = command[3];
                    if fourth == 86 {
                        if n != 6 {
                            return Err(ParseError::BadLength);
                        }
                        return Ok(Command::Passive);
                    }
                    if fourth == 83 {
                        expects_byte(command[4], 32, ParseError::ExpectedSpace)?;
                        return match text_between(command, 5, n - 2) {
                            Ok(p) => Ok(Command::Password(p)),
                            Err(e) => Err(e),
                        };
                    }
                }
                return Err(ParseError::NotPassOrPasv);
            }
            if second == 79 {
                if n <= 6 {
                    return Err(ParseError::InvalidLength);
                }
                if !bytes_at(command, 2, &[82u8, 84u8]) {
                    return Err(ParseError::NotPort);
                }
                expects_byte(command[4], 32, ParseError::ExpectedSpace)?;
                return parse_port(command);
            }
            return Err(ParseError::UnknownCommand);
        }
        if first == 85 {
            if n <= 6 {
                return Err(ParseError::InvalidLength);
            }
            if !bytes_at(command, 1, &[83u8, 69u8, 82u8]) {
                return Err(ParseError::NotUser);
            }
            expects_byte(command[4], 32, ParseError::ExpectedSpace)?;
            return match text_between(command, 5, n - 2) {
                Ok(p) => Ok(Command::User(p)),
                Err(e) => Err(e),
            };
        }
        Err(ParseError::UnknownVerb)
    }
}

} // verus!
