//! Requests of an application to send or withdraw mail.

use crate::common::text::{decimal, decimal_text};
use std::collections::HashMap;
use vstd::prelude::*;
use vstd::string::*;

verus! {

/// A request to send mail.
#[derive(Debug)]
pub struct MailSendParam {
    pub to: Vec<String>,
    pub tpl: String,
    pub data: HashMap<String, String>,
    pub reply: Option<String>,
    pub send_time: Option<String>,
    pub max_try: Option<u8>,
}

/// A request to withdraw mail, by the ids that sending answered with.
#[derive(Debug)]
pub struct MailCancelParam {
    pub snid_data: Vec<String>,
}

/// Why a text is no number.
#[derive(Clone, Copy, Debug, PartialEq, Eq, Structural)]
pub enum NumberError {
    Empty,
    InvalidDigit,
    PosOverflow,
}

impl NumberError {
    /// The error in words.
    pub fn description(self) -> (out: &'static str)
        ensures
            out@ == match self {
                NumberError::Empty => "cannot parse integer from empty string"@,
                NumberError::InvalidDigit => "invalid digit found in string"@,
                NumberError::PosOverflow => "number too large to fit in target type"@,
            },
    {
        match self {
            NumberError::Empty => "cannot parse integer from empty string",
            NumberError::InvalidDigit => "invalid digit found in string",
            NumberError::PosOverflow => "number too large to fit in target type",
        }
    }
}

/// Whether `c` is one of the digits from 0 to 9.
pub open spec fn is_digit(c: char) -> bool {
    '0' <= c <= '9'
}

/// The number that the digits `s` write in base ten.
pub open spec fn digits_value(s: Seq<char>) -> nat
    decreases s.len(),
{
    if s.len() == 0 {
        0
    } else {
        digits_value(s.drop_last()) * 10 + (s.last() as nat - '0' as nat) as nat
    }
}

/// The digits of a number's text: the text without the plus sign that may
/// stand before them.
pub open spec fn digits_of(s: Seq<char>) -> Seq<char> {
    if s.len() > 0 && s[0] == '+' {
        s.skip(1)
    } else {
        s
    }
}

/// What reading the digits `s` from the left comes to: the number that
/// they write, or the error of the first place at which a character is no
/// digit or the number has grown past 64 bits.
pub open spec fn read_digits(s: Seq<char>) -> Result<nat, NumberError>
    decreases s.len(),
{
    if s.len() == 0 {
        Ok(0)
    } else {
        match read_digits(s.drop_last()) {
            Err(e) => Err(e),
            Ok(v) => if !is_digit(s.last()) {
                Err(NumberError::InvalidDigit)
            } else if v * 10 + (s.last() as nat - '0' as nat) > u64::MAX {
                Err(NumberError::PosOverflow)
            } else {
                Ok((v * 10 + (s.last() as nat - '0' as nat)) as nat)
            },
        }
    }
}

/// What reading `s` as an unsigned number of 64 bits comes to.
pub open spec fn number_of(s: Seq<char>) -> Result<u64, NumberError> {
    if s.len() == 0 {
        Err(NumberError::Empty)
    } else if digits_of(s).len() == 0 {
        Err(NumberError::InvalidDigit)
    } else {
        match read_digits(digits_of(s)) {
            Ok(v) => Ok(v as u64),
            Err(e) => Err(e),
        }
    }
}

/// A text that is read as a number consists of digits, after a plus sign
/// or without one, and the number is the one that they write in base ten.
pub proof fn lemma_number_value(s: Seq<char>)
    requires
        read_digits(s) is Ok,
    ensures
        forall|i: int| 0 <= i < s.len() ==> is_digit(#[trigger] s[i]),
        read_digits(s) == Ok::<nat, NumberError>(digits_value(s)),
        digits_value(s) <= u64::MAX,
    decreases s.len(),
{
    if s.len() > 0 {
        lemma_number_value(s.drop_last());
        assert forall|i: int| 0 <= i < s.len() implies is_digit(#[trigger] s[i]) by {
            if i < s.len() - 1 {
                assert(s.drop_last()[i] == s[i]);
            }
        }
    }
}

/// Once reading has failed, what follows changes nothing.
proof fn lemma_read_prefix(s: Seq<char>, n: int)
    requires
        0 <= n <= s.len(),
    ensures
        read_digits(s.take(n)) is Err ==> read_digits(s) == read_digits(s.take(n)),
    decreases s.len() - n,
{
    if n < s.len() {
        lemma_read_prefix(s, n + 1);
        assert(s.take(n + 1).drop_last() =~= s.take(n));
    } else {
        assert(s.take(n) =~= s);
    }
}

/// Reads a number in base ten, as it stands in a request.
pub fn parse_number(text: &str) -> (out: Result<u64, NumberError>)
    ensures
        out == number_of(text@),
{
    let len = text.unicode_len();
    if len == 0 {
        return Err(NumberError::Empty);
    }
    let start: usize = if text.get_char(0) == '+' {
        1
    } else {
        0
    };
    let ghost digits = digits_of(text@);
    assert(digits =~= text@.skip(start as int));
    if start == len {
        return Err(NumberError::InvalidDigit);
    }
    let mut value: u64 = 0;
    let mut j: usize = start;
    proof {
        assert(digits.take(0) =~= Seq::empty());
    }
    while j < len
        invariant
            start <= j <= len,
            start < len,
            len == text@.len(),
            digits == text@.skip(start as int),
            digits == digits_of(text@),
            read_digits(digits.take(j - start)) == Ok::<nat, NumberError>(value as nat),
        decreases len - j,
    {
        let c = text.get_char(j);
        proof {
            assert(digits[j - start] == c);
            assert(digits.take(j - start + 1).drop_last() =~= digits.take(j - start));
            assert(digits.take(j - start + 1).last() == c);
            lemma_read_prefix(digits, j - start + 1);
        }
        if !('0' <= c && c <= '9') {
            return Err(NumberError::InvalidDigit);
        }
        let d: u64 = (c as u32 - '0' as u32) as u64;
        if value > (u64::MAX - d) / 10 {
            return Err(NumberError::PosOverflow);
        }
        value = value * 10 + d;
        j += 1;
    }
    proof {
        assert(digits.take(len - start) =~= digits);
    }
    Ok(value)
}

/// The ids that a request to withdraw names, or the error of the first
/// text among them that is no number.
pub open spec fn cancel_ids_of(snid_data: Seq<String>) -> Result<Seq<u64>, NumberError>
    decreases snid_data.len(),
{
    if snid_data.len() == 0 {
        Ok(Seq::empty())
    } else {
        match cancel_ids_of(snid_data.drop_last()) {
            Err(e) => Err(e),
            Ok(ids) => match number_of(snid_data.last()@) {
                Ok(id) => Ok(ids.push(id)),
                Err(e) => Err(e),
            },
        }
    }
}

/// Reads the ids of a request to withdraw.
pub fn cancel_ids(param: &MailCancelParam) -> (out: Result<Vec<u64>, NumberError>)
    ensures
        match out {
            Ok(ids) => cancel_ids_of(param.snid_data@) == Ok::<Seq<u64>, NumberError>(ids@),
            Err(e) => cancel_ids_of(param.snid_data@) == Err::<Seq<u64>, NumberError>(e),
        },
{
    let mut ids: Vec<u64> = Vec::new();
    let mut i: usize = 0;
    proof {
        assert(param.snid_data@.take(0) =~= Seq::empty());
    }
    while i < param.snid_data.len()
        invariant
            i <= param.snid_data@.len(),
            cancel_ids_of(param.snid_data@.take(i as int)) == Ok::<Seq<u64>, NumberError>(ids@),
        decreases param.snid_data@.len() - i,
    {
        proof {
            assert(param.snid_data@.take(i + 1).drop_last() =~= param.snid_data@.take(i as int));
            lemma_ids_prefix(param.snid_data@, i + 1);
        }
        match parse_number(param.snid_data[i].as_str()) {
            Ok(id) => {
                ids.push(id);
            },
            Err(e) => {
                return Err(e);
            },
        }
        i += 1;
    }
    proof {
        assert(param.snid_data@.take(i as int) =~= param.snid_data@);
    }
    Ok(ids)
}

/// The error of a prefix of the texts is that of all of them.
proof fn lemma_ids_prefix(snid_data: Seq<String>, n: int)
    requires
        0 <= n <= snid_data.len(),
    ensures
        cancel_ids_of(snid_data.take(n)) is Err ==> cancel_ids_of(snid_data) == cancel_ids_of(
            snid_data.take(n),
        ),
    decreases snid_data.len() - n,
{
    if n < snid_data.len() {
        lemma_ids_prefix(snid_data, n + 1);
        assert(snid_data.take(n + 1).drop_last() =~= snid_data.take(n));
    } else {
        assert(snid_data.take(n) =~= snid_data);
    }
}

/// The id of a stored record as a request's answer shows it.
pub fn snid_text(id: u64) -> (out: String)
    ensures
        out@ == decimal(id),
{
    decimal_text(id)
}

/// What the answer to a withdrawal shows as the status of one record, given
/// whether the withdrawal went on to the store and whether an error came
/// back.
pub fn cancel_status(forwarded: bool, failed: bool) -> (status: bool)
    ensures
        status == (!forwarded && !failed),
{
    !forwarded && !failed
}

} // verus!
