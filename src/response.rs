use vstd::prelude::*;
use vstd::string::StringSliceAdditionalSpecFns;

verus! {

/// A three-digit FTP reply code.
#[derive(Clone, Copy, Debug)]
pub struct ResponseCode(pub u16);

/// Replies keep the short name under which the codes are built.
pub type Response = ResponseCode;

/// The first digit of a reply code: how the command went.
#[derive(Debug, PartialEq, Eq, Structural, Copy, Clone)]
pub enum CodeFirst {
    PositivePreliminary,
    Positive,
    PositiveIntermediate,
    TransientNegativeCompletion,
    PermanentNegativeCompletion,
}

/// The second digit of a reply code: what the reply is about.
#[derive(Debug, PartialEq, Eq, Structural, Copy, Clone)]
pub enum CodeSecond {
    Syntax,
    Information,
    Connections,
    AuthenticationAndAccounting,
    Unspecified,
    FileSystem,
}

impl CodeFirst {
    pub open spec fn spec_value(self) -> u16 {
        match self {
            CodeFirst::PositivePreliminary => 100,
            CodeFirst::Positive => 200,
            CodeFirst::PositiveIntermediate => 300,
            CodeFirst::TransientNegativeCompletion => 400,
            CodeFirst::PermanentNegativeCompletion => 500,
        }
    }

    /// The hundreds that this category adds to a code.
    pub fn value(self) -> (r: u16)
        ensures
            r == self.spec_value(),
    {
        match self {
            CodeFirst::PositivePreliminary => 100,
            CodeFirst::Positive => 200,
            CodeFirst::PositiveIntermediate => 300,
            CodeFirst::TransientNegativeCompletion => 400,
            CodeFirst::PermanentNegativeCompletion => 500,
        }
    }
}

impl CodeSecond {
    pub open spec fn spec_value(self) -> u16 {
        match self {
            CodeSecond::Syntax => 0,
            CodeSecond::Information => 10,
            CodeSecond::Connections => 20,
            CodeSecond::AuthenticationAndAccounting => 30,
            CodeSecond::Unspecified => 40,
            CodeSecond::FileSystem => 50,
        }
    }

    /// The tens that this subject adds to a code.
    pub fn value(self) -> (r: u16)
        ensures
            r == self.spec_value(),
    {
        match self {
            CodeSecond::Syntax => 0,
            CodeSecond::Information => 10,
            CodeSecond::Connections => 20,
            CodeSecond::AuthenticationAndAccounting => 30,
            CodeSecond::Unspecified => 40,
            CodeSecond::FileSystem => 50,
        }
    }
}

/// The code that a category, a subject and a last digit add up to.
pub open spec fn code_of(first: CodeFirst, second: CodeSecond, last_digit: u8) -> u16 {
    (first.spec_value() + second.spec_value() + last_digit) as u16
}

/// A code in the range that a reply line may carry.
pub open spec fn valid_code(code: u16) -> bool {
    100 <= code <= 599
}

impl ResponseCode {
    pub fn new_from_enums(first: CodeFirst, second: CodeSecond, last_digit: u8) -> (r: Self)
        ensures
            r.0 as int == first.spec_value() as int + second.spec_value() as int + last_digit as int,
            r.0 == code_of(first, second, last_digit),
    {
        ResponseCode(first.value() + second.value() + last_digit as u16)
    }

    /// 220
    pub fn service_ready() -> (r: ResponseCode)
        ensures
            r.0 == 220,
    {
        ResponseCode::new_from_enums(CodeFirst::Positive, CodeSecond::Connections, 0)
    }

    /// 201
    pub fn success_transfering_file() -> (r: ResponseCode)
        ensures
            r.0 == 201,
    {
        ResponseCode::new_from_enums(CodeFirst::Positive, CodeSecond::Syntax, 1)
    }

    /// 226
    pub fn success_uploading_file() -> (r: ResponseCode)
        ensures
            r.0 == 226,
    {
        ResponseCode::new_from_enums(CodeFirst::Positive, CodeSecond::Connections, 6)
    }

    /// 226
    pub fn closing_data_connection() -> (r: ResponseCode)
        ensures
            r.0 == 226,
    {
        ResponseCode::new_from_enums(CodeFirst::Positive, CodeSecond::Connections, 6)
    }

    /// 553
    pub fn file_action_not_taken() -> (r: ResponseCode)
        ensures
            r.0 == 553,
    {
        ResponseCode::new_from_enums(
            CodeFirst::PermanentNegativeCompletion,
            CodeSecond::FileSystem,
            3,
        )
    }

    /// 200
    pub fn command_okay() -> (r: ResponseCode)
        ensures
            r.0 == 200,
    {
        ResponseCode::new_from_enums(CodeFirst::Positive, CodeSecond::Syntax, 0)
    }

    /// 503
    pub fn bad_sequence_of_commands() -> (r: ResponseCode)
        ensures
            r.0 == 503,
    {
        ResponseCode::new_from_enums(
            CodeFirst::PermanentNegativeCompletion,
            CodeSecond::Syntax,
            3,
        )
    }

    /// 230
    pub fn login_success() -> (r: ResponseCode)
        ensures
            r.0 == 230,
    {
        ResponseCode::new_from_enums(
            CodeFirst::Positive,
            CodeSecond::AuthenticationAndAccounting,
            0,
        )
    }

    /// 530
    pub fn unauthorized() -> (r: ResponseCode)
        ensures
            r.0 == 530,
    {
        ResponseCode::new_from_enums(
            CodeFirst::PermanentNegativeCompletion,
            CodeSecond::AuthenticationAndAccounting,
            0,
        )
    }

    /// 331
    pub fn username_okay() -> (r: ResponseCode)
        ensures
            r.0 == 331,
    {
        ResponseCode::new_from_enums(
            CodeFirst::PositiveIntermediate,
            CodeSecond::AuthenticationAndAccounting,
            1,
        )
    }

    /// 227
    pub fn passive_ok() -> (r: ResponseCode)
        ensures
            r.0 == 227,
    {
        ResponseCode::new_from_enums(CodeFirst::Positive, CodeSecond::Connections, 7)
    }

    /// 541
    pub fn all_ports_taken() -> (r: ResponseCode)
        ensures
            r.0 == 541,
    {
        ResponseCode::new_from_enums(
            CodeFirst::PermanentNegativeCompletion,
            CodeSecond::Unspecified,
            1,
        )
    }

    /// 221
    pub fn closing_control_connection_success() -> (r: ResponseCode)
        ensures
            r.0 == 221,
    {
        ResponseCode::new_from_enums(CodeFirst::Positive, CodeSecond::Connections, 1)
    }

    /// 550
    pub fn file_unavailable() -> (r: ResponseCode)
        ensures
            r.0 == 550,
    {
        ResponseCode::new_from_enums(
            CodeFirst::PermanentNegativeCompletion,
            CodeSecond::FileSystem,
            0,
        )
    }

    /// 450
    pub fn file_busy() -> (r: ResponseCode)
        ensures
            r.0 == 450,
    {
        ResponseCode::new_from_enums(
            CodeFirst::TransientNegativeCompletion,
            CodeSecond::FileSystem,
            0,
        )
    }

    /// 150
    pub fn file_status_okay() -> (r: ResponseCode)
        ensures
            r.0 == 150,
    {
        ResponseCode::new_from_enums(CodeFirst::PositivePreliminary, CodeSecond::FileSystem, 0)
    }

    /// 250
    pub fn file_action_okay() -> (r: ResponseCode)
        ensures
            r.0 == 250,
    {
        ResponseCode::new_from_enums(CodeFirst::Positive, CodeSecond::FileSystem, 0)
    }

    /// 350
    pub fn file_action_pending() -> (r: ResponseCode)
        ensures
            r.0 == 350,
    {
        ResponseCode::new_from_enums(CodeFirst::PositiveIntermediate, CodeSecond::FileSystem, 0)
    }

    /// 257
    pub fn directory_action_okay() -> (r: ResponseCode)
        ensures
            r.0 == 257,
    {
        ResponseCode::new_from_enums(CodeFirst::Positive, CodeSecond::FileSystem, 7)
    }

    /// 425
    pub fn cant_open_data_connection() -> (r: ResponseCode)
        ensures
            r.0 == 425,
    {
        ResponseCode::new_from_enums(
            CodeFirst::TransientNegativeCompletion,
            CodeSecond::Connections,
            5,
        )
    }
}

/// The ASCII decimal digits of `n`, most significant first.
pub open spec fn decimal(n: nat) -> Seq<u8>
    decreases n,
{
    if n < 10 {
        seq![(48 + n) as u8]
    } else {
        decimal(n / 10).push((48 + n % 10) as u8)
    }
}

/// The reply line `"<code> <message>\r\n"` as bytes.
pub open spec fn reply_line(code: u16, message: Seq<u8>) -> Seq<u8> {
    decimal(code as nat) + seq![32u8] + message + seq![13u8, 10u8]
}

pub fn push_decimal(out: &mut Vec<u8>, n: u16)
    ensures
        final(out)@ == old(out)@ + decimal(n as nat),
    decreases n,
{
    if n >= 10 {
        push_decimal(out, n / 10);
    }
    out.push(48u8 + (n % 10) as u8);
    proof {
        assert(final(out)@ =~= old(out)@ + decimal(n as nat));
    }
}

/// Appends the bytes of `tail` to `out`.
pub fn push_bytes(out: &mut Vec<u8>, tail: &[u8])
    ensures
        final(out)@ == old(out)@ + tail@,
{
    let mut i: usize = 0;
    while i < tail.len()
        invariant
            0 <= i <= tail@.len(),
            out@ == old(out)@ + tail@.subrange(0, i as int),
        decreases tail@.len() - i,
    {
        out.push(tail[i]);
        i = i + 1;
        proof {
            assert(out@ =~= old(out)@ + tail@.subrange(0, i as int));
        }
    }
    proof {
        assert(tail@.subrange(0, tail@.len() as int) =~= tail@);
    }
}

/// Whether `m` holds no carriage return and no line feed.
pub open spec fn one_line(m: Seq<u8>) -> bool {
    forall|i: int| 0 <= i < m.len() ==> #[trigger] m[i] != 13 && m[i] != 10
}

/// `m` with each carriage return and line feed written as a space, so that
/// a reply stays on one line whatever text it echoes.
pub open spec fn flatten(m: Seq<u8>) -> Seq<u8> {
    Seq::new(m.len(), |i: int| if m[i] == 13 || m[i] == 10 { 32u8 } else { m[i] })
}

/// A reply line `ddd message\r\n` whose code lies between 100 and 599 and
/// whose message holds no line break.
pub open spec fn is_reply_line(b: Seq<u8>) -> bool {
    exists|code: u16, message: Seq<u8>|
        valid_code(code) && one_line(message) && b == #[trigger] reply_line(code, message)
}

/// Every code built from a category, a subject and a last digit up to 9
/// lies between 100 and 599, so that its reply lines are well formed.
pub proof fn lemma_code_in_range(first: CodeFirst, second: CodeSecond, last_digit: u8)
    requires
        last_digit <= 9,
    ensures
        valid_code(code_of(first, second, last_digit)),
{
}

/// A reply line is three decimal digits that spell a code between 100 and
/// 599, a space, a message without line breaks and CRLF: one line.
pub proof fn lemma_reply_line_shape(line: Seq<u8>)
    requires
        is_reply_line(line),
    ensures
        line.len() >= 6,
        forall|i: int| 0 <= i < 3 ==> 48 <= #[trigger] line[i] <= 57,
        valid_code(((line[0] - 48) * 100 + (line[1] - 48) * 10 + (line[2] - 48)) as u16),
        line[3] == 32,
        forall|i: int| 4 <= i < line.len() - 2 ==> #[trigger] line[i] != 13 && line[i] != 10,
        line[line.len() - 2] == 13,
        line[line.len() - 1] == 10,
{
    let (code, message) = choose|code: u16, message: Seq<u8>|
        valid_code(code) && one_line(message) && line == #[trigger] reply_line(code, message);
    let n = code as nat;
    assert(decimal(n) == decimal(n / 10).push((48 + n % 10) as u8));
    assert(decimal(n / 10) == decimal(n / 100).push((48 + (n / 10) % 10) as u8));
    assert(decimal(n / 100) == seq![(48 + n / 100) as u8]);
    assert((line[0] - 48) * 100 + (line[1] - 48) * 10 + (line[2] - 48) == code);
    assert forall|i: int| 4 <= i < line.len() - 2 implies #[trigger] line[i] != 13 && line[i] != 10 by {
        assert(line[i] == message[i - 4]);
    }
}

/// Formats a reply from message bytes: the code in decimal, a space, the
/// message with its line breaks written as spaces, CRLF.
pub fn create_reply(response_code: ResponseCode, message: &[u8]) -> (r: Vec<u8>)
    ensures
        r@ == reply_line(response_code.0, flatten(message@)),
        valid_code(response_code.0) ==> is_reply_line(r@),
{
    let mut out: Vec<u8> = Vec::new();
    push_decimal(&mut out, response_code.0);
    out.push(32u8);
    let ghost start = out@;
    let mut i: usize = 0;
    while i < message.len()
        invariant
            0 <= i <= message@.len(),
            out@ == start + flatten(message@).subrange(0, i as int),
        decreases message@.len() - i,
    {
        let b = message[i];
        if b == 13 || b == 10 {
            out.push(32u8);
        } else {
            out.push(b);
        }
        i = i + 1;
        proof {
            assert(out@ =~= start + flatten(message@).subrange(0, i as int));
        }
    }
    out.push(13u8);
    out.push(10u8);
    proof {
        assert(flatten(message@).subrange(0, message@.len() as int) =~= flatten(message@));
        assert(out@ =~= reply_line(response_code.0, flatten(message@)));
        if valid_code(response_code.0) {
            assert(one_line(flatten(message@)));
            assert(valid_code(response_code.0) && one_line(flatten(message@)) && out@ == reply_line(
                response_code.0,
                flatten(message@),
            ));
        }
    }
    out
}

/// Formats a reply: the code in decimal, a space, the message with its
/// line breaks written as spaces, CRLF.
pub fn create_response(response_code: ResponseCode, message: &str) -> (r: Vec<u8>)
    ensures
        r@ == reply_line(response_code.0, flatten(message.spec_bytes())),
        valid_code(response_code.0) ==> is_reply_line(r@),
{
    create_reply(response_code, message.as_bytes())
}

} // verus!
