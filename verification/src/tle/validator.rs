//! Line-level TLE validation: length, ASCII, line number and the modulo-10
//! checksum in the last column.
use vstd::prelude::*;
use vstd::string::*;
use crate::text::{decimal, digit_char, digit_value, is_digit, owned, push_decimal};
use super::TleError;

verus! {

/// Length of every TLE data line, in bytes.
pub const TLE_LINE_LENGTH: usize = 69;

/// What one character contributes to the TLE checksum: its value when it is
/// a decimal digit, one for a minus sign, zero otherwise.
pub open spec fn checksum_weight(c: char) -> nat {
    if is_digit(c) {
        digit_value(c) as nat
    } else if c == '-' {
        1
    } else {
        0
    }
}

/// Sum of the checksum weights of all characters.
pub open spec fn checksum_total(s: Seq<char>) -> nat
    decreases s.len(),
{
    if s.len() == 0 {
        0
    } else {
        checksum_total(s.drop_last()) + checksum_weight(s.last())
    }
}

/// The TLE checksum of a payload: the weight sum modulo ten.
pub open spec fn checksum_of(s: Seq<char>) -> nat {
    checksum_total(s) % 10
}

/// Byte length of a text in UTF-8.
pub open spec fn byte_len(s: Seq<char>) -> nat {
    vstd::utf8::encode_utf8(s).len()
}

/// Whether every character is ASCII.
pub open spec fn all_ascii(s: Seq<char>) -> bool {
    vstd::utf8::is_ascii_chars(s)
}

/// The character a line numbered `n` must start with.
pub open spec fn line_number_char(n: u8) -> char {
    digit_char(n as nat)
}

/// The decimal value of the checksum column of a well-formed line, or `None`
/// when that column is not a digit.
pub open spec fn checksum_column(s: Seq<char>) -> Option<nat> {
    if is_digit(s[68]) {
        Some(digit_value(s[68]) as nat)
    } else {
        None
    }
}

/// Whether `line` is a valid TLE line numbered `n`.
pub open spec fn line_valid(line: Seq<char>, n: u8) -> bool {
    &&& byte_len(line) == 69
    &&& all_ascii(line)
    &&& line[0] == line_number_char(n)
    &&& checksum_column(line) == Some(checksum_of(line.take(68)))
}

/// Whether `e` is the error `validate_line` reports for `line` numbered `n`
/// (meaningful when the line is not valid).
pub open spec fn line_error(line: Seq<char>, n: u8, e: TleError) -> bool {
    if byte_len(line) != 69 {
        e == TleError::InvalidLineLength(byte_len(line) as usize)
    } else if !all_ascii(line) {
        e matches TleError::InvalidField { field, message } && field@ == "line"@ + decimal(n as nat)
            && message@ == "TLE lines must be ASCII"@
    } else if line[0] != line_number_char(n) {
        e == TleError::InvalidLineNumber { expected: n, found: line[0] }
    } else {
        let computed = checksum_of(line.take(68)) as u8;
        match checksum_column(line) {
            None => e == TleError::ChecksumMismatch { line: n, expected: 255, computed },
            Some(d) => e == TleError::ChecksumMismatch { line: n, expected: d as u8, computed },
        }
    }
}

proof fn lemma_checksum_step(s: Seq<char>, i: int, acc: nat)
    requires
        0 <= i < s.len(),
        acc == checksum_total(s.take(i)) % 10,
    ensures
        (acc + checksum_weight(s[i])) % 10 == checksum_total(s.take(i + 1)) % 10,
{
    assert(s.take(i + 1).drop_last() =~= s.take(i));
    vstd::arithmetic::div_mod::lemma_add_mod_noop(
        checksum_total(s.take(i)) as int,
        checksum_weight(s[i]) as int,
        10,
    );
    vstd::arithmetic::div_mod::lemma_mod_twice(checksum_weight(s[i]) as int, 10);
    vstd::arithmetic::div_mod::lemma_add_mod_noop(acc as int, checksum_weight(s[i]) as int, 10);
    vstd::arithmetic::div_mod::lemma_mod_twice(checksum_total(s.take(i)) as int, 10);
}

/// The TLE checksum of `payload`: digits count their value, `-` counts one,
/// everything else counts zero, modulo ten.
pub fn compute_checksum(payload: &str) -> (r: u8)
    ensures
        r as nat == checksum_of(payload@),
        r < 10,
{
    let v = crate::text::chars_of(payload);
    let mut sum: u32 = 0;
    for i in 0..v.len()
        invariant
            v@ == payload@,
            sum < 10,
            sum as nat == checksum_total(v@.take(i as int)) % 10,
    {
        let c = v[i];
        let w: u32 = if '0' <= c && c <= '9' {
            c as u32 - 48
        } else if c == '-' {
            1
        } else {
            0
        };
        proof {
            lemma_checksum_step(v@, i as int, sum as nat);
        }
        sum = (sum + w) % 10;
    }
    assert(v@.take(v.len() as int) =~= v@);
    sum as u8
}

/// Validates one TLE line: 69 bytes, ASCII, starting with the line number,
/// and a checksum column that matches the checksum of the first 68 columns.
pub fn validate_line(line: &str, expected_number: u8) -> (r: Result<(), TleError>)
    requires
        byte_len(line@) == TLE_LINE_LENGTH && all_ascii(line@) ==> expected_number <= 207,
    ensures
        r is Ok <==> line_valid(line@, expected_number),
        r matches Err(e) ==> line_error(line@, expected_number, e),
{
    let len = line.as_bytes().len();
    if len != TLE_LINE_LENGTH {
        return Err(TleError::InvalidLineLength(len));
    }
    if !line.is_ascii() {
        let mut field = owned("line");
        push_decimal(&mut field, expected_number as u64);
        let message = owned("TLE lines must be ASCII");
        assert(field@ == "line"@ + decimal(expected_number as nat));
        assert(message@ == "TLE lines must be ASCII"@);
        return Err(TleError::InvalidField { field, message });
    }
    proof {
        broadcast use is_ascii_spec_bytes;

        assert(line.spec_bytes().len() == line@.len());
    }
    let first = line.get_char(0);
    let expected_char = crate::text::digit(expected_number as u64);
    if first != expected_char {
        return Err(TleError::InvalidLineNumber { expected: expected_number, found: first });
    }
    let payload = line.substring_ascii(0, TLE_LINE_LENGTH - 1);
    let computed = compute_checksum(payload);
    let last = line.get_char(TLE_LINE_LENGTH - 1);
    if !('0' <= last && last <= '9') {
        return Err(TleError::ChecksumMismatch { line: expected_number, expected: 255, computed });
    }
    let expected = (last as u32 - 48) as u8;
    if expected != computed {
        return Err(TleError::ChecksumMismatch { line: expected_number, expected, computed });
    }
    Ok(())
}

} // verus!
