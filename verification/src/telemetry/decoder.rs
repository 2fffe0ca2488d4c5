//! AX.25 address decoding from a hex-encoded frame: the destination and
//! source callsigns are the first two seven-byte address fields, each
//! character shifted left by one bit.
use vstd::prelude::*;
use vstd::string::*;
use crate::text::{chars_of, is_whitespace, is_ws, owned, push_char, push_str, string_of, trim_end};
use super::TelemetryError;

verus! {

/// Characters of a callsign inside an address field.
pub const AX25_CALLSIGN_LEN: usize = 6;

/// Bytes of one address field (callsign plus SSID byte).
pub const AX25_ADDRESS_LEN: usize = 7;

/// Bytes of the destination and source address fields together.
pub const AX25_MIN_DEST_SOURCE_LEN: usize = 14;

/// `s` without its whitespace characters.
pub open spec fn remove_ws(s: Seq<char>) -> Seq<char>
    decreases s.len(),
{
    if s.len() == 0 {
        s
    } else if is_ws(s.last()) {
        remove_ws(s.drop_last())
    } else {
        remove_ws(s.drop_last()).push(s.last())
    }
}

/// The value of a hexadecimal digit (either case), if `c` is one.
pub open spec fn hex_val(c: char) -> Option<nat> {
    if '0' <= c <= '9' {
        Some(((c as u32) - 48) as nat)
    } else if 'a' <= c <= 'f' {
        Some(((c as u32) - 87) as nat)
    } else if 'A' <= c <= 'F' {
        Some(((c as u32) - 55) as nat)
    } else {
        None
    }
}

/// Decodes consecutive digit pairs into bytes, high digit first, stopping
/// when fewer than two characters remain; the error is the first character
/// that is not a hexadecimal digit.
pub open spec fn decode_pairs(s: Seq<char>) -> Result<Seq<u8>, char>
    decreases s.len(),
{
    if s.len() < 2 {
        Ok(Seq::<u8>::empty())
    } else {
        match (hex_val(s[0]), hex_val(s[1])) {
            (None, _) => Err(s[0]),
            (Some(_), None) => Err(s[1]),
            (Some(h), Some(l)) => match decode_pairs(s.skip(2)) {
                Ok(rest) => Ok(seq![(h * 16 + l) as u8] + rest),
                Err(c) => Err(c),
            },
        }
    }
}

/// The bytes a hex frame decodes to, or the message of its parse error.
pub open spec fn hex_frame(s: Seq<char>) -> Result<Seq<u8>, Seq<char>> {
    let compact = remove_ws(s);
    if vstd::utf8::encode_utf8(compact).len() % 2 != 0 {
        Err("hex frame has odd length"@)
    } else {
        match decode_pairs(compact) {
            Ok(b) => Ok(b),
            Err(c) => Err("invalid hex digit '"@ + seq![c] + "'"@),
        }
    }
}

/// The callsign of an address field: the first six bytes shifted right by
/// one bit, trailing whitespace removed.
pub open spec fn callsign_of(address: Seq<u8>) -> Seq<char> {
    let n = if address.len() < 6 {
        address.len()
    } else {
        6
    };
    trim_end(Seq::new(n, |i: int| (address[i] >> 1u8) as char))
}

fn hex_digit_value(c: char) -> (r: Option<u32>)
    ensures
        match hex_val(c) {
            Some(v) => r == Some(v as u32) && v < 16,
            None => r is None,
        },
{
    if '0' <= c && c <= '9' {
        Some(c as u32 - 48)
    } else if 'a' <= c && c <= 'f' {
        Some(c as u32 - 87)
    } else if 'A' <= c && c <= 'F' {
        Some(c as u32 - 55)
    } else {
        None
    }
}

fn invalid_digit(c: char) -> (e: TelemetryError)
    ensures
        e matches TelemetryError::Parse(m) && m@ == "invalid hex digit '"@ + seq![c] + "'"@,
{
    let mut m = owned("invalid hex digit '");
    push_char(&mut m, c);
    push_str(&mut m, "'");
    TelemetryError::Parse(m)
}

proof fn lemma_decode_pairs_step(s: Seq<char>, i: int, acc: Seq<u8>)
    requires
        0 <= i,
        i + 2 <= s.len(),
        hex_val(s[i]) is Some,
        hex_val(s[i + 1]) is Some,
        decode_pairs(s) == (match decode_pairs(s.skip(i)) {
            Ok(rest) => Ok(acc + rest),
            Err(c) => Err(c),
        }),
    ensures
        decode_pairs(s) == (match decode_pairs(s.skip(i + 2)) {
            Ok(rest) => Ok(acc.push(((hex_val(s[i])->Some_0 * 16 + hex_val(s[i + 1])->Some_0) as u8)) + rest),
            Err(c) => Err(c),
        }),
{
    let t = s.skip(i);
    assert(t[0] == s[i]);
    assert(t[1] == s[i + 1]);
    assert(t.skip(2) =~= s.skip(i + 2));
    let b = ((hex_val(s[i])->Some_0 * 16 + hex_val(s[i + 1])->Some_0) as u8);
    match decode_pairs(s.skip(i + 2)) {
        Ok(rest) => {
            assert(acc + (seq![b] + rest) =~= acc.push(b) + rest);
        },
        Err(c) => {},
    }
}

proof fn lemma_remove_ws_step(s: Seq<char>, i: int)
    requires
        0 <= i < s.len(),
    ensures
        remove_ws(s.take(i + 1)) == if is_ws(s[i]) {
            remove_ws(s.take(i))
        } else {
            remove_ws(s.take(i)).push(s[i])
        },
{
    assert(s.take(i + 1).drop_last() =~= s.take(i));
}

/// Decodes a hex frame, ignoring whitespace.
pub fn hex_to_bytes(frame_hex: &str) -> (r: Result<Vec<u8>, TelemetryError>)
    ensures
        match hex_frame(frame_hex@) {
            Ok(b) => r matches Ok(v) && v@ == b,
            Err(m) => r matches Err(TelemetryError::Parse(msg)) && msg@ == m,
        },
{
    let chars = chars_of(frame_hex);
    let mut compact: Vec<char> = Vec::new();
    for i in 0..chars.len()
        invariant
            chars@ == frame_hex@,
            compact@ == remove_ws(chars@.take(i as int)),
    {
        proof {
            lemma_remove_ws_step(chars@, i as int);
        }
        if !is_whitespace(chars[i]) {
            compact.push(chars[i]);
        }
    }
    assert(chars@.take(chars.len() as int) =~= chars@);
    let compact_text = string_of(&compact);
    if compact_text.as_str().as_bytes().len() % 2 != 0 {
        return Err(TelemetryError::Parse(owned("hex frame has odd length")));
    }
    let mut bytes: Vec<u8> = Vec::new();
    let mut i: usize = 0;
    assert(compact@.skip(0) =~= compact@);
    while i < compact.len() && compact.len() - i >= 2
        invariant
            i <= compact@.len(),
            compact@ == remove_ws(frame_hex@),
            vstd::utf8::encode_utf8(compact@).len() % 2 == 0,
            decode_pairs(compact@) == (match decode_pairs(compact@.skip(i as int)) {
                Ok(rest) => Ok(bytes@ + rest),
                Err(c) => Err(c),
            }),
        decreases compact.len() - i,
    {
        let high = match hex_digit_value(compact[i]) {
            Some(h) => h,
            None => {
                assert(compact@.skip(i as int).len() >= 2);
                assert(compact@.skip(i as int)[0] == compact@[i as int]);
                return Err(invalid_digit(compact[i]));
            },
        };
        let low = match hex_digit_value(compact[i + 1]) {
            Some(l) => l,
            None => {
                assert(compact@.skip(i as int).len() >= 2);
                assert(compact@.skip(i as int)[0] == compact@[i as int]);
                assert(compact@.skip(i as int)[1] == compact@[i + 1]);
                return Err(invalid_digit(compact[i + 1]));
            },
        };
        proof {
            lemma_decode_pairs_step(compact@, i as int, bytes@);
        }
        bytes.push(((high << 4) | low) as u8);
        assert(((high << 4) | low) as u8 == (high * 16 + low) as u8) by (bit_vector)
            requires
                high < 16,
                low < 16,
        ;
        i = i + 2;
    }
    assert(compact@.skip(i as int).len() < 2);
    assert(decode_pairs(compact@.skip(i as int)) == Ok::<Seq<u8>, char>(Seq::<u8>::empty()));
    assert(bytes@ + Seq::<u8>::empty() =~= bytes@);
    Ok(bytes)
}

/// The callsign of an address field.
pub fn decode_callsign(address: &[u8]) -> (s: String)
    ensures
        s@ == callsign_of(address@),
{
    let n = if address.len() < AX25_CALLSIGN_LEN {
        address.len()
    } else {
        AX25_CALLSIGN_LEN
    };
    let mut v: Vec<char> = Vec::new();
    for i in 0..n
        invariant
            n <= address@.len(),
            v@ == Seq::new(i as nat, |k: int| (address@[k] >> 1u8) as char),
    {
        v.push((address[i] >> 1) as char);
        assert(v@ =~= Seq::new((i + 1) as nat, |k: int| (address@[k] >> 1u8) as char));
    }
    let mut hi = v.len();
    assert(v@.take(v@.len() as int) =~= v@);
    while hi > 0 && is_whitespace(v[hi - 1])
        invariant
            hi <= v@.len(),
            trim_end(v@) == trim_end(v@.take(hi as int)),
        decreases hi,
    {
        proof {
            crate::text::lemma_trim_end_drop(v@.take(hi as int));
            assert(v@.take(hi as int).drop_last() =~= v@.take(hi - 1));
        }
        hi = hi - 1;
    }
    proof {
        crate::text::lemma_trim_end_keep(v@.take(hi as int));
        assert(v@.take(v@.len() as int) =~= v@);
    }
    let mut out: Vec<char> = Vec::new();
    for k in 0..hi
        invariant
            hi <= v@.len(),
            out@ == v@.take(k as int),
    {
        out.push(v[k]);
        assert(v@.take(k as int).push(v@[k as int]) =~= v@.take(k + 1));
    }
    string_of(&out)
}

/// The destination and source callsigns of a hex-encoded AX.25 frame, or
/// `None` when it is shorter than the two address fields.
pub fn decode_ax25_callsigns_from_hex(frame_hex: &str) -> (r: Result<Option<(String, String)>, TelemetryError>)
    ensures
        match hex_frame(frame_hex@) {
            Err(m) => r matches Err(TelemetryError::Parse(msg)) && msg@ == m,
            Ok(b) => if b.len() < 14 {
                r matches Ok(None)
            } else {
                r matches Ok(Some((d, s))) && d@ == callsign_of(b.subrange(0, 7)) && s@
                    == callsign_of(b.subrange(7, 14))
            },
        },
{
    let bytes = hex_to_bytes(frame_hex)?;
    if bytes.len() < AX25_MIN_DEST_SOURCE_LEN {
        return Ok(None);
    }
    let slice = bytes.as_slice();
    let destination = decode_callsign(crate::text::sub_bytes(slice, 0, AX25_ADDRESS_LEN));
    let source = decode_callsign(crate::text::sub_bytes(slice, AX25_ADDRESS_LEN, AX25_MIN_DEST_SOURCE_LEN));
    Ok(Some((destination, source)))
}

/// Upper-case hexadecimal digit of a value below sixteen.
pub open spec fn hex_upper_digit(v: nat) -> char {
    if v < 10 {
        ((v + 48) as u32) as char
    } else {
        ((v + 55) as u32) as char
    }
}

/// Upper-case two-digit hexadecimal rendering of bytes (as `{:02X}`).
pub open spec fn hex_upper(b: Seq<u8>) -> Seq<char>
    decreases b.len(),
{
    if b.len() == 0 {
        Seq::<char>::empty()
    } else {
        seq![hex_upper_digit((b[0] / 16) as nat), hex_upper_digit((b[0] % 16) as nat)] + hex_upper(
            b.drop_first(),
        )
    }
}

proof fn lemma_hex_digit(v: nat)
    requires
        v < 16,
    ensures
        hex_val(hex_upper_digit(v)) == Some(v),
        !is_ws(hex_upper_digit(v)),
        '\0' <= hex_upper_digit(v) <= '\u{7f}',
{
}

proof fn lemma_hex_upper_pairs(b: Seq<u8>)
    ensures
        decode_pairs(hex_upper(b)) == Ok::<Seq<u8>, char>(b),
        hex_upper(b).len() == 2 * b.len(),
        forall|k: int|
            0 <= k < hex_upper(b).len() ==> !is_ws(#[trigger] hex_upper(b)[k]) && '\0'
                <= hex_upper(b)[k] <= '\u{7f}',
    decreases b.len(),
{
    if b.len() > 0 {
        lemma_hex_upper_pairs(b.drop_first());
        let h = hex_upper(b);
        let hi = (b[0] / 16) as nat;
        let lo = (b[0] % 16) as nat;
        lemma_hex_digit(hi);
        lemma_hex_digit(lo);
        assert(h[0] == hex_upper_digit(hi));
        assert(h[1] == hex_upper_digit(lo));
        assert(h.skip(2) =~= hex_upper(b.drop_first()));
        assert((hi * 16 + lo) as u8 == b[0]);
        assert(seq![b[0]] + b.drop_first() =~= b);
        assert forall|k: int| 0 <= k < h.len() implies !is_ws(#[trigger] h[k]) && '\0' <= h[k]
            <= '\u{7f}' by {
            if k >= 2 {
                assert(h[k] == hex_upper(b.drop_first())[k - 2]);
            }
        }
        assert(h.len() >= 2);
        assert(decode_pairs(h) == Ok::<Seq<u8>, char>(seq![b[0]] + b.drop_first()));
    } else {
        assert(b =~= Seq::<u8>::empty());
    }
}

proof fn lemma_remove_ws_noop(s: Seq<char>)
    requires
        forall|k: int| 0 <= k < s.len() ==> !is_ws(#[trigger] s[k]),
    ensures
        remove_ws(s) == s,
    decreases s.len(),
{
    if s.len() > 0 {
        lemma_remove_ws_noop(s.drop_last());
        assert(s.drop_last().push(s.last()) =~= s);
    }
}

/// Upper-case hex text of any bytes decodes back to exactly those bytes.
pub proof fn hex_round_trip(b: Seq<u8>)
    ensures
        hex_frame(hex_upper(b)) == Ok::<Seq<u8>, Seq<char>>(b),
{
    lemma_hex_upper_pairs(b);
    let h = hex_upper(b);
    lemma_remove_ws_noop(h);
    assert(vstd::utf8::is_ascii_chars(h));
    vstd::utf8::is_ascii_chars_encode_utf8(h);
}


proof fn lemma_remove_ws_concat(x: Seq<char>, y: Seq<char>)
    ensures
        remove_ws(x + y) == remove_ws(x) + remove_ws(y),
    decreases y.len(),
{
    if y.len() == 0 {
        assert(x + y =~= x);
        assert(remove_ws(x) + remove_ws(y) =~= remove_ws(x));
    } else {
        lemma_remove_ws_concat(x, y.drop_last());
        assert((x + y).drop_last() =~= x + y.drop_last());
        assert((x + y).last() == y.last());
        if !is_ws(y.last()) {
            assert(remove_ws(x) + remove_ws(y.drop_last()).push(y.last()) =~= (remove_ws(x)
                + remove_ws(y.drop_last())).push(y.last()));
        }
    }
}

proof fn lemma_remove_ws_all_ws(w: Seq<char>)
    requires
        forall|k: int| 0 <= k < w.len() ==> is_ws(#[trigger] w[k]),
    ensures
        remove_ws(w) == Seq::<char>::empty(),
    decreases w.len(),
{
    if w.len() > 0 {
        lemma_remove_ws_all_ws(w.drop_last());
    }
}

proof fn lemma_remove_ws_ascii(s: Seq<char>)
    requires
        vstd::utf8::is_ascii_chars(s),
    ensures
        vstd::utf8::is_ascii_chars(remove_ws(s)),
    decreases s.len(),
{
    if s.len() > 0 {
        lemma_remove_ws_ascii(s.drop_last());
    }
}

/// Whether `b` is `a` with some hexadecimal digits written in the other
/// case: the same length, and each character the same or a hexadecimal
/// digit of the same value.
pub open spec fn hex_case_variant(a: Seq<char>, b: Seq<char>) -> bool {
    &&& a.len() == b.len()
    &&& forall|k: int|
        0 <= k < a.len() ==> #[trigger] a[k] == b[k] || (hex_val(a[k]) is Some && hex_val(b[k])
            == hex_val(a[k]))
}

proof fn lemma_variant_remove_ws(a: Seq<char>, b: Seq<char>)
    requires
        hex_case_variant(a, b),
    ensures
        hex_case_variant(remove_ws(a), remove_ws(b)),
    decreases a.len(),
{
    if a.len() > 0 {
        assert(hex_case_variant(a.drop_last(), b.drop_last())) by {
            assert forall|k: int| 0 <= k < a.drop_last().len() implies #[trigger] a.drop_last()[k]
                == b.drop_last()[k] || (hex_val(a.drop_last()[k]) is Some && hex_val(
                b.drop_last()[k],
            ) == hex_val(a.drop_last()[k])) by {
                assert(a[k] == b[k] || (hex_val(a[k]) is Some && hex_val(b[k]) == hex_val(a[k])));
            }
        }
        lemma_variant_remove_ws(a.drop_last(), b.drop_last());
        let la = a.last();
        let lb = b.last();
        assert(la == lb || (hex_val(la) is Some && hex_val(lb) == hex_val(la))) by {
            assert(a[a.len() - 1] == b[a.len() - 1] || (hex_val(a[a.len() - 1]) is Some && hex_val(
                b[a.len() - 1],
            ) == hex_val(a[a.len() - 1])));
        }
        assert(is_ws(la) == is_ws(lb));
        if !is_ws(la) {
            let ra = remove_ws(a.drop_last());
            let rb = remove_ws(b.drop_last());
            assert forall|k: int| 0 <= k < ra.push(la).len() implies #[trigger] ra.push(la)[k]
                == rb.push(lb)[k] || (hex_val(ra.push(la)[k]) is Some && hex_val(rb.push(lb)[k])
                == hex_val(ra.push(la)[k])) by {
                if k < ra.len() {
                    assert(ra[k] == rb[k] || (hex_val(ra[k]) is Some && hex_val(rb[k]) == hex_val(
                        ra[k],
                    )));
                }
            }
        }
    }
}

proof fn lemma_variant_decode_pairs(a: Seq<char>, b: Seq<char>)
    requires
        hex_case_variant(a, b),
    ensures
        decode_pairs(a) == decode_pairs(b),
    decreases a.len(),
{
    if a.len() >= 2 {
        assert(a[0] == b[0] || (hex_val(a[0]) is Some && hex_val(b[0]) == hex_val(a[0])));
        assert(a[1] == b[1] || (hex_val(a[1]) is Some && hex_val(b[1]) == hex_val(a[1])));
        assert(hex_case_variant(a.skip(2), b.skip(2))) by {
            assert forall|k: int| 0 <= k < a.skip(2).len() implies #[trigger] a.skip(2)[k] == b.skip(
                2,
            )[k] || (hex_val(a.skip(2)[k]) is Some && hex_val(b.skip(2)[k]) == hex_val(
                a.skip(2)[k],
            )) by {
                assert(a[k + 2] == b[k + 2] || (hex_val(a[k + 2]) is Some && hex_val(b[k + 2])
                    == hex_val(a[k + 2])));
            }
        }
        lemma_variant_decode_pairs(a.skip(2), b.skip(2));
    }
}

/// Hex frames are read without regard to whitespace: inserting any run of
/// whitespace anywhere into a frame decodes the same, bytes or error.
pub proof fn whitespace_is_ignored(s: Seq<char>, i: int, w: Seq<char>)
    requires
        0 <= i <= s.len(),
        forall|k: int| 0 <= k < w.len() ==> is_ws(#[trigger] w[k]),
    ensures
        hex_frame(s.take(i) + w + s.skip(i)) == hex_frame(s),
{
    lemma_remove_ws_concat(s.take(i) + w, s.skip(i));
    lemma_remove_ws_concat(s.take(i), w);
    lemma_remove_ws_concat(s.take(i), s.skip(i));
    lemma_remove_ws_all_ws(w);
    assert(s.take(i) + s.skip(i) =~= s);
    assert(remove_ws(s.take(i)) + Seq::<char>::empty() =~= remove_ws(s.take(i)));
    assert(remove_ws(s.take(i) + w + s.skip(i)) == remove_ws(s));
}

/// Hex frames are read without regard to letter case: an ASCII frame with
/// any of its hexadecimal letters written in the other case decodes the
/// same, bytes or error.
pub proof fn letter_case_is_ignored(a: Seq<char>, b: Seq<char>)
    requires
        vstd::utf8::is_ascii_chars(a),
        hex_case_variant(a, b),
    ensures
        hex_frame(b) == hex_frame(a),
{
    lemma_variant_remove_ws(a, b);
    let ca = remove_ws(a);
    let cb = remove_ws(b);
    lemma_variant_decode_pairs(ca, cb);
    lemma_remove_ws_ascii(a);
    assert(vstd::utf8::is_ascii_chars(b)) by {
        assert forall|k: int| 0 <= k < b.len() implies '\0' <= #[trigger] b[k] <= '\u{7f}' by {
            assert(a[k] == b[k] || (hex_val(a[k]) is Some && hex_val(b[k]) == hex_val(a[k])));
            assert('\0' <= a[k] <= '\u{7f}');
        }
    }
    lemma_remove_ws_ascii(b);
    vstd::utf8::is_ascii_chars_encode_utf8(ca);
    vstd::utf8::is_ascii_chars_encode_utf8(cb);
}

proof fn lemma_decode_pairs_concat(c: Seq<char>, t: Seq<char>, x: Seq<u8>)
    requires
        c.len() % 2 == 0,
        decode_pairs(c) == Ok::<Seq<u8>, char>(x),
    ensures
        decode_pairs(c + t) == (match decode_pairs(t) {
            Ok(y) => Ok::<Seq<u8>, char>(x + y),
            Err(e) => Err(e),
        }),
    decreases c.len(),
{
    if c.len() == 0 {
        assert(c + t =~= t);
        assert(x =~= Seq::<u8>::empty());
        match decode_pairs(t) {
            Ok(y) => assert(x + y =~= y),
            Err(_) => {},
        }
    } else {
        let h = hex_val(c[0])->Some_0;
        let l = hex_val(c[1])->Some_0;
        let rest = decode_pairs(c.skip(2))->Ok_0;
        assert((c + t)[0] == c[0] && (c + t)[1] == c[1]);
        assert((c + t).skip(2) =~= c.skip(2) + t);
        lemma_decode_pairs_concat(c.skip(2), t, rest);
        match decode_pairs(t) {
            Ok(y) => assert(seq![(h * 16 + l) as u8] + (rest + y) =~= x + y),
            Err(_) => {},
        }
    }
}

proof fn lemma_decode_hex_digits(t: Seq<char>)
    requires
        forall|k: int| 0 <= k < t.len() ==> #[trigger] hex_val(t[k]) is Some,
    ensures
        decode_pairs(t) is Ok,
    decreases t.len(),
{
    if t.len() >= 2 {
        assert(hex_val(t[0]) is Some && hex_val(t[1]) is Some);
        assert forall|k: int| 0 <= k < t.skip(2).len() implies #[trigger] hex_val(t.skip(2)[k]) is Some by {
            assert(hex_val(t[k + 2]) is Some);
        }
        lemma_decode_hex_digits(t.skip(2));
    }
}

/// Once an ASCII frame holds both address fields, appending an even number
/// of hexadecimal digits leaves the frame readable and both callsigns as
/// they were.
pub proof fn appended_digits_keep_callsigns(s: Seq<char>, t: Seq<char>)
    requires
        vstd::utf8::is_ascii_chars(s),
        hex_frame(s) matches Ok(b) && b.len() >= 14,
        t.len() % 2 == 0,
        forall|k: int| 0 <= k < t.len() ==> #[trigger] hex_val(t[k]) is Some,
    ensures
        hex_frame(s + t) matches Ok(b2) && b2.len() >= 14 && callsign_of(b2.subrange(0, 7))
            == callsign_of(hex_frame(s)->Ok_0.subrange(0, 7)) && callsign_of(b2.subrange(7, 14))
            == callsign_of(hex_frame(s)->Ok_0.subrange(7, 14)),
{
    let b = hex_frame(s)->Ok_0;
    let c = remove_ws(s);
    assert forall|k: int| 0 <= k < t.len() implies !is_ws(#[trigger] t[k]) && '\0' <= t[k]
        <= '\u{7f}' by {
        assert(hex_val(t[k]) is Some);
    }
    lemma_remove_ws_noop(t);
    lemma_remove_ws_concat(s, t);
    lemma_remove_ws_ascii(s);
    vstd::utf8::is_ascii_chars_encode_utf8(c);
    assert(vstd::utf8::is_ascii_chars(c + t)) by {
        assert forall|k: int| 0 <= k < (c + t).len() implies '\0' <= #[trigger] (c + t)[k]
            <= '\u{7f}' by {
            if k < c.len() {
                assert((c + t)[k] == c[k]);
            } else {
                assert((c + t)[k] == t[k - c.len()]);
            }
        }
    }
    vstd::utf8::is_ascii_chars_encode_utf8(c + t);
    assert(decode_pairs(c) == Ok::<Seq<u8>, char>(b));
    lemma_decode_hex_digits(t);
    lemma_decode_pairs_concat(c, t, b);
    let y = decode_pairs(t)->Ok_0;
    assert(hex_frame(s + t) == Ok::<Seq<u8>, Seq<char>>(b + y));
    assert((b + y).subrange(0, 7) =~= b.subrange(0, 7));
    assert((b + y).subrange(7, 14) =~= b.subrange(7, 14));
}


/// Lower-case hexadecimal digit of a value below sixteen.
pub open spec fn hex_lower_digit(v: nat) -> char {
    if v < 10 {
        ((v + 48) as u32) as char
    } else {
        ((v - 10 + 97) as u32) as char
    }
}

/// Lower-case two-digit hexadecimal rendering of bytes (as `{:02x}`).
pub open spec fn hex_lower(b: Seq<u8>) -> Seq<char>
    decreases b.len(),
{
    if b.len() == 0 {
        Seq::<char>::empty()
    } else {
        seq![hex_lower_digit((b[0] / 16) as nat), hex_lower_digit((b[0] % 16) as nat)] + hex_lower(
            b.drop_first(),
        )
    }
}

/// Each hexadecimal letter means the same in either case: `a`..`f` and
/// `A`..`F` are the values ten to fifteen, in order.
pub proof fn hex_letters_ignore_case(k: nat)
    requires
        k < 6,
    ensures
        hex_val(((97 + k) as u32) as char) == Some((10 + k) as nat),
        hex_val(((65 + k) as u32) as char) == Some((10 + k) as nat),
{
}

proof fn lemma_hex_lower_digit(v: nat)
    requires
        v < 16,
    ensures
        hex_val(hex_lower_digit(v)) == Some(v),
        !is_ws(hex_lower_digit(v)),
        '\0' <= hex_lower_digit(v) <= '\u{7f}',
{
    if v >= 10 {
        hex_letters_ignore_case((v - 10) as nat);
    }
}

proof fn lemma_hex_lower_pairs(b: Seq<u8>)
    ensures
        decode_pairs(hex_lower(b)) == Ok::<Seq<u8>, char>(b),
        hex_lower(b).len() == 2 * b.len(),
        forall|k: int|
            0 <= k < hex_lower(b).len() ==> !is_ws(#[trigger] hex_lower(b)[k]) && '\0'
                <= hex_lower(b)[k] <= '\u{7f}',
    decreases b.len(),
{
    if b.len() > 0 {
        lemma_hex_lower_pairs(b.drop_first());
        let h = hex_lower(b);
        let hi = (b[0] / 16) as nat;
        let lo = (b[0] % 16) as nat;
        lemma_hex_lower_digit(hi);
        lemma_hex_lower_digit(lo);
        assert(h[0] == hex_lower_digit(hi));
        assert(h[1] == hex_lower_digit(lo));
        assert(h.skip(2) =~= hex_lower(b.drop_first()));
        assert((hi * 16 + lo) as u8 == b[0]);
        assert(seq![b[0]] + b.drop_first() =~= b);
        assert forall|k: int| 0 <= k < h.len() implies !is_ws(#[trigger] h[k]) && '\0' <= h[k]
            <= '\u{7f}' by {
            if k >= 2 {
                assert(h[k] == hex_lower(b.drop_first())[k - 2]);
            }
        }
        assert(h.len() >= 2);
        assert(decode_pairs(h) == Ok::<Seq<u8>, char>(seq![b[0]] + b.drop_first()));
    } else {
        assert(b =~= Seq::<u8>::empty());
    }
}

/// Lower-case hex text of any bytes (as `{:02x}` writes it) decodes back to
/// exactly those bytes, as the upper-case text does.
pub proof fn lowercase_hex_round_trip(b: Seq<u8>)
    ensures
        hex_frame(hex_lower(b)) == Ok::<Seq<u8>, Seq<char>>(b),
        hex_frame(hex_lower(b)) == hex_frame(hex_upper(b)),
{
    lemma_hex_lower_pairs(b);
    let h = hex_lower(b);
    lemma_remove_ws_noop(h);
    assert(vstd::utf8::is_ascii_chars(h));
    vstd::utf8::is_ascii_chars_encode_utf8(h);
    hex_round_trip(b);
}

} // verus!
