//! The template codec shared by every data-driven rotor protocol: template
//! parsing, printf-style number padding, command rendering and readout
//! decoding. Number formatting and parsing of floating-point values happen
//! outside; this module works on the decimal texts.
use vstd::prelude::*;
use super::spec::ProtocolTemplates;
use vstd::utf8::{decode_utf8, valid_utf8};
use crate::text::{
    chars_of, concat, decimal, decimal_int, digit_value, is_digit, owned, push_all, push_char, push_decimal,
    push_repeat, push_str, same_text, string_of_range,
};

verus! {

/// Failure of template parsing, rendering or readout decoding.
#[derive(Debug, Clone, PartialEq, Eq)]
pub enum ProtocolError {
    UnknownField(String),
    BadFormatSpec(String),
    UnterminatedToken,
    MissingPosition,
    ParseFailed(String),
    NotUtf8,
}

/// The axis a template token stands for.
#[derive(Debug, Clone, Copy, PartialEq, Eq, Structural)]
pub enum Field {
    Az,
    El,
}

/// The field a token name denotes.
pub open spec fn field_named(name: Seq<char>) -> Option<Field> {
    if name == "az"@ {
        Some(Field::Az)
    } else if name == "el"@ {
        Some(Field::El)
    } else {
        None
    }
}

impl Field {
    /// The field named `name` (`az` or `el`).
    pub fn parse(name: &str) -> (r: Result<Field, ProtocolError>)
        ensures
            match field_named(name@) {
                Some(f) => r matches Ok(g) && g == f,
                None => r matches Err(ProtocolError::UnknownField(s)) && s@ == name@,
            },
    {
        if same_text(name, "az") {
            Ok(Field::Az)
        } else if same_text(name, "el") {
            Ok(Field::El)
        } else {
            Err(ProtocolError::UnknownField(owned(name)))
        }
    }
}

/// One piece of a parsed template: literal text or a `{field|fmt}` token.
#[derive(Debug, Clone, PartialEq, Eq)]
pub enum Segment {
    Literal(String),
    Token { field: Field, fmt: Option<String> },
}

/// The mathematical content of a segment.
pub enum Piece {
    Literal(Seq<char>),
    Token(Field, Option<Seq<char>>),
}

/// The characters of an optional string.
pub open spec fn opt_text(o: Option<String>) -> Option<Seq<char>> {
    match o {
        Some(s) => Some(s@),
        None => None,
    }
}

/// The piece a segment denotes.
pub open spec fn piece_of(s: Segment) -> Piece {
    match s {
        Segment::Literal(t) => Piece::Literal(t@),
        Segment::Token { field, fmt } => Piece::Token(field, opt_text(fmt)),
    }
}

/// The pieces a segment list denotes.
pub open spec fn pieces(segs: Seq<Segment>) -> Seq<Piece> {
    segs.map_values(|s: Segment| piece_of(s))
}

/// Why a template does not parse.
pub enum TemplateFault {
    Unterminated,
    UnknownField(Seq<char>),
}

/// Whether `e` is the error that reports `f`.
pub open spec fn fault_is(e: ProtocolError, f: TemplateFault) -> bool {
    match f {
        TemplateFault::Unterminated => e is UnterminatedToken,
        TemplateFault::UnknownField(n) => e matches ProtocolError::UnknownField(s) && s@ == n,
    }
}

/// Index of the first `c` in `s` at or after `from`, or `s.len()` when none.
pub open spec fn find_from(s: Seq<char>, c: char, from: int) -> int
    decreases s.len() - from,
{
    if from >= s.len() {
        s.len() as int
    } else if s[from] == c {
        from
    } else {
        find_from(s, c, from + 1)
    }
}

/// `find_from` lies in `[from, s.len()]`, skips no `c`, and stops on one.
pub proof fn lemma_find_from(s: Seq<char>, c: char, from: int)
    requires
        0 <= from <= s.len(),
    ensures
        from <= find_from(s, c, from) <= s.len(),
        forall|m: int| from <= m < find_from(s, c, from) ==> s[m] != c,
        find_from(s, c, from) < s.len() ==> s[find_from(s, c, from)] == c,
    decreases s.len() - from,
{
    if from < s.len() && s[from] != c {
        lemma_find_from(s, c, from + 1);
    }
}

/// Prepends `front` to a successful parse.
pub open spec fn prefixed(front: Seq<Piece>, r: Result<Seq<Piece>, TemplateFault>) -> Result<
    Seq<Piece>,
    TemplateFault,
> {
    match r {
        Ok(rest) => Ok(front + rest),
        Err(f) => Err(f),
    }
}

/// The template `t[i..]` split into literal runs and `{name|fmt}` tokens: a
/// token ends at the first `}`, its name ends at the first `|`, and its name
/// must be `az` or `el`.
pub open spec fn parse_spec(t: Seq<char>, i: int) -> Result<Seq<Piece>, TemplateFault>
    decreases t.len() - i,
{
    if i < 0 || i >= t.len() {
        Ok(Seq::empty())
    } else if t[i] != '{' {
        let k = find_from(t, '{', i);
        proof {
            lemma_find_from(t, '{', i);
        }
        prefixed(seq![Piece::Literal(t.subrange(i, k))], parse_spec(t, k))
    } else {
        let j = find_from(t, '}', i + 1);
        proof {
            lemma_find_from(t, '}', i + 1);
        }
        if j >= t.len() {
            Err(TemplateFault::Unterminated)
        } else {
            let inner = t.subrange(i + 1, j);
            let bar = find_from(inner, '|', 0);
            let name = inner.take(bar);
            let fmt = if bar < inner.len() {
                Some(inner.skip(bar + 1))
            } else {
                None
            };
            match field_named(name) {
                None => Err(TemplateFault::UnknownField(name)),
                Some(f) => prefixed(seq![Piece::Token(f, fmt)], parse_spec(t, j + 1)),
            }
        }
    }
}

/// Splits a template into literal and `{field|fmt}` token segments.
pub fn parse_template(template: &str) -> (r: Result<Vec<Segment>, ProtocolError>)
    ensures
        match parse_spec(template@, 0) {
            Ok(p) => r matches Ok(segs) && pieces(segs@) == p,
            Err(f) => r matches Err(e) && fault_is(e, f),
        },
{
    let t = chars_of(template);
    let n = t.len();
    let mut segs: Vec<Segment> = Vec::new();
    let mut i: usize = 0;
    assert(pieces(segs@) =~= Seq::<Piece>::empty());
    assert(prefixed(Seq::<Piece>::empty(), parse_spec(t@, 0)) =~= parse_spec(t@, 0)) by {
        match parse_spec(t@, 0) {
            Ok(p) => assert(Seq::<Piece>::empty() + p =~= p),
            Err(_) => {},
        }
    }
    while i < n
        invariant
            t@ == template@,
            n == t@.len(),
            i <= n,
            parse_spec(t@, 0) == prefixed(pieces(segs@), parse_spec(t@, i as int)),
        decreases n - i,
    {
        let ghost old_segs = segs@;
        if t[i] != '{' {
            let mut k = i;
            while k < n && t[k] != '{'
                invariant
                    i <= k <= n,
                    n == t@.len(),
                    forall|m: int| i <= m < k ==> t@[m] != '{',
                decreases n - k,
            {
                k = k + 1;
            }
            proof {
                lemma_find_from(t@, '{', i as int);
            }
            assert(find_from(t@, '{', i as int) == k);
            let lit = string_of_range(&t, i, k);
            segs.push(Segment::Literal(lit));
            proof {
                let front = seq![Piece::Literal(t@.subrange(i as int, k as int))];
                assert(pieces(segs@) =~= pieces(old_segs) + front);
                match parse_spec(t@, k as int) {
                    Ok(rest) => assert(pieces(old_segs) + (front + rest) =~= (pieces(old_segs)
                        + front) + rest),
                    Err(_) => {},
                }
            }
            i = k;
        } else {
            let mut j = i + 1;
            while j < n && t[j] != '}'
                invariant
                    i < j <= n,
                    n == t@.len(),
                    forall|m: int| i + 1 <= m < j ==> t@[m] != '}',
                decreases n - j,
            {
                j = j + 1;
            }
            proof {
                lemma_find_from(t@, '}', i + 1);
            }
            assert(find_from(t@, '}', i + 1) == j);
            if j >= n {
                return Err(ProtocolError::UnterminatedToken);
            }
            let mut b = i + 1;
            while b < j && t[b] != '|'
                invariant
                    i < b <= j < n,
                    n == t@.len(),
                    forall|m: int| i + 1 <= m < b ==> t@[m] != '|',
                decreases j - b,
            {
                b = b + 1;
            }
            let ghost inner = t@.subrange(i + 1, j as int);
            proof {
                lemma_find_from(inner, '|', 0);
                assert forall|m: int| 0 <= m < b - (i + 1) implies inner[m] != '|' by {
                    assert(inner[m] == t@[i + 1 + m]);
                }
                if b < j {
                    assert(inner[b - (i + 1)] == t@[b as int]);
                }
            }
            assert(find_from(inner, '|', 0) == b - (i + 1));
            let name = string_of_range(&t, i + 1, b);
            assert(name@ =~= inner.take(b - (i + 1)));
            let fmt = if b < j {
                let f = string_of_range(&t, b + 1, j);
                assert(f@ =~= inner.skip(b - (i + 1) + 1));
                Some(f)
            } else {
                None
            };
            let field = match Field::parse(name.as_str()) {
                Ok(f) => f,
                Err(e) => {
                    return Err(e);
                },
            };
            segs.push(Segment::Token { field, fmt });
            proof {
                let front = seq![Piece::Token(field, opt_text(fmt))];
                assert(pieces(segs@) =~= pieces(old_segs) + front);
                match parse_spec(t@, j + 1) {
                    Ok(rest) => assert(pieces(old_segs) + (front + rest) =~= (pieces(old_segs)
                        + front) + rest),
                    Err(_) => {},
                }
            }
            i = j + 1;
        }
    }
    proof {
        match parse_spec(t@, 0) {
            Ok(p) => assert(pieces(segs@) + Seq::<Piece>::empty() =~= pieces(segs@)),
            Err(_) => {},
        }
    }
    Ok(segs)
}

/// Parsed `%[0][+][width][.prec]f` number format.
#[derive(Debug, Clone, Copy, PartialEq, Eq, Structural)]
pub struct FormatSpec {
    /// Pad with zeros (after the sign) instead of spaces (before it).
    pub zero: bool,
    /// Show `+` on non-negative values.
    pub plus: bool,
    /// Minimum width of the rendered number.
    pub width: usize,
    /// Digits after the decimal point.
    pub prec: usize,
}

/// End of the run of `0`/`+` flag characters of `s` starting at `i`.
pub open spec fn flag_end(s: Seq<char>, i: int) -> int
    decreases s.len() - i,
{
    if i < 0 || i >= s.len() {
        i
    } else if s[i] == '0' || s[i] == '+' {
        flag_end(s, i + 1)
    } else {
        i
    }
}

/// End of the run of ASCII digits of `s` starting at `i`.
pub open spec fn digit_end(s: Seq<char>, i: int) -> int
    decreases s.len() - i,
{
    if i < 0 || i >= s.len() {
        i
    } else if is_digit(s[i]) {
        digit_end(s, i + 1)
    } else {
        i
    }
}

/// The decimal value of a run of ASCII digits.
pub open spec fn digits_value(s: Seq<char>) -> nat
    decreases s.len(),
{
    if s.len() == 0 {
        0
    } else {
        (digits_value(s.drop_last()) * 10 + digit_value(s.last())) as nat
    }
}

/// Whether `c` occurs among the first `upto` characters of `s`.
pub open spec fn has_char(s: Seq<char>, c: char, upto: int) -> bool {
    exists|m: int| 0 <= m < upto && #[trigger] s[m] == c
}

/// The characters between the leading `%` and the trailing `f` of a spec.
pub open spec fn fmt_body(s: Seq<char>) -> Seq<char> {
    s.subrange(1, s.len() - 1)
}

/// Whether a spec starts with `%` and ends with `f`.
pub open spec fn fmt_shape_ok(s: Seq<char>) -> bool {
    s.len() >= 2 && s[0] == '%' && s.last() == 'f'
}

/// The format a `%[0][+][width][.prec]f` spec denotes, or `None` when it is
/// malformed (a `.` must be followed by at least one digit).
pub open spec fn fmt_spec(s: Seq<char>) -> Option<(bool, bool, nat, nat)> {
    if !fmt_shape_ok(s) {
        None
    } else {
        let b = fmt_body(s);
        let f = flag_end(b, 0);
        let w = digit_end(b, f);
        let zero = has_char(b, '0', f);
        let plus = has_char(b, '+', f);
        let width = digits_value(b.subrange(f, w));
        if w < b.len() && b[w] == '.' {
            let p = digit_end(b, w + 1);
            if p == w + 1 || p != b.len() {
                None
            } else {
                Some((zero, plus, width, digits_value(b.subrange(w + 1, p))))
            }
        } else if w != b.len() {
            None
        } else {
            Some((zero, plus, width, 0))
        }
    }
}

/// Whether the width and precision digit runs of a spec fit in `usize`
/// (the digits are accumulated in a `usize`).
pub open spec fn fmt_fits(s: Seq<char>) -> bool {
    fmt_shape_ok(s) ==> {
        let b = fmt_body(s);
        let f = flag_end(b, 0);
        let w = digit_end(b, f);
        &&& digits_value(b.subrange(f, w)) <= usize::MAX
        &&& (w < b.len() && b[w] == '.') ==> digits_value(b.subrange(w + 1, digit_end(b, w + 1)))
            <= usize::MAX
    }
}

/// `flag_end` and `digit_end` stay within `[i, s.len()]` and cover only
/// matching characters.
pub proof fn lemma_run_ends(s: Seq<char>, i: int)
    requires
        0 <= i <= s.len(),
    ensures
        i <= flag_end(s, i) <= s.len(),
        i <= digit_end(s, i) <= s.len(),
        forall|m: int| i <= m < flag_end(s, i) ==> s[m] == '0' || s[m] == '+',
        forall|m: int| i <= m < digit_end(s, i) ==> is_digit(s[m]),
        flag_end(s, i) < s.len() ==> !(s[flag_end(s, i)] == '0' || s[flag_end(s, i)] == '+'),
        digit_end(s, i) < s.len() ==> !is_digit(s[digit_end(s, i)]),
    decreases s.len() - i,
{
    if i < s.len() {
        lemma_run_ends(s, i + 1);
    }
}

/// A longer digit run has a value at least as large.
pub proof fn lemma_digits_value_prefix(s: Seq<char>, a: int, k: int, e: int)
    requires
        0 <= a <= k <= e <= s.len(),
        forall|m: int| a <= m < e ==> is_digit(s[m]),
    ensures
        digits_value(s.subrange(a, k)) <= digits_value(s.subrange(a, e)),
    decreases e - k,
{
    if k < e {
        lemma_digits_value_prefix(s, a, k, e - 1);
        assert(s.subrange(a, e).drop_last() =~= s.subrange(a, e - 1));
    }
}

/// Appending a digit to a run multiplies its value by ten and adds the digit.
pub proof fn lemma_digits_value_step(s: Seq<char>, a: int, i: int)
    requires
        0 <= a <= i < s.len(),
        is_digit(s[i]),
    ensures
        digits_value(s.subrange(a, i + 1)) == digits_value(s.subrange(a, i)) * 10 + digit_value(
            s[i],
        ),
{
    assert(s.subrange(a, i + 1).drop_last() =~= s.subrange(a, i));
}

/// The bad-spec error for `spec`.
fn bad_format(spec: &str) -> (e: ProtocolError)
    ensures
        e matches ProtocolError::BadFormatSpec(s) && s@ == spec@,
{
    ProtocolError::BadFormatSpec(owned(spec))
}

/// Parses a `%[0][+][width][.prec]f` spec.
pub fn parse_fmt(spec: &str) -> (r: Result<FormatSpec, ProtocolError>)
    requires
        fmt_fits(spec@),
    ensures
        match fmt_spec(spec@) {
            Some(v) => r matches Ok(fs) && fs.zero == v.0 && fs.plus == v.1 && fs.width == v.2
                && fs.prec == v.3,
            None => r matches Err(ProtocolError::BadFormatSpec(s)) && s@ == spec@,
        },
{
    let c = chars_of(spec);
    let n = c.len();
    if n < 2 || c[0] != '%' || c[n - 1] != 'f' {
        return Err(bad_format(spec));
    }
    let ghost b = fmt_body(c@);
    let end = n - 1;
    proof {
        assert(b.len() == end - 1);
        assert forall|m: int| 0 <= m < b.len() implies #[trigger] b[m] == c@[m + 1] by {}
        lemma_run_ends(b, 0);
    }
    let mut i: usize = 1;
    let mut zero = false;
    let mut plus = false;
    while i < end && (c[i] == '0' || c[i] == '+')
        invariant
            1 <= i <= end,
            end == n - 1,
            n == c@.len(),
            b == fmt_body(c@),
            b.len() == end - 1,
            i - 1 <= flag_end(b, 0),
            forall|m: int| 0 <= m < b.len() ==> #[trigger] b[m] == c@[m + 1],
            forall|m: int| 0 <= m < flag_end(b, 0) ==> b[m] == '0' || b[m] == '+',
            flag_end(b, 0) < b.len() ==> !(b[flag_end(b, 0)] == '0' || b[flag_end(b, 0)]
                == '+'),
            zero == has_char(b, '0', i - 1),
            plus == has_char(b, '+', i - 1),
        decreases end - i,
    {
        if c[i] == '0' {
            zero = true;
            assert(b[i - 1] == '0');
        } else {
            plus = true;
            assert(b[i - 1] == '+');
        }
        assert(has_char(b, '0', i as int) == (has_char(b, '0', i - 1) || b[i - 1] == '0'));
        assert(has_char(b, '+', i as int) == (has_char(b, '+', i - 1) || b[i - 1] == '+'));
        i = i + 1;
    }
    if i < end {
        assert(b[i - 1] == c@[i as int]);
    }
    let ghost f = (i - 1) as int;
    assert(f == flag_end(b, 0));
    proof {
        lemma_run_ends(b, f);
    }
    let ghost w = digit_end(b, f);
    let mut width: usize = 0;
    while i < end && '0' <= c[i] && c[i] <= '9'
        invariant
            1 <= f + 1 <= i <= end,
            end == n - 1,
            n == c@.len(),
            b == fmt_body(c@),
            b.len() == end - 1,
            i - 1 <= w,
            w == digit_end(b, f),
            f <= w <= b.len(),
            fmt_shape_ok(c@),
            c@ == spec@,
            fmt_fits(spec@),
            f == flag_end(b, 0),
            forall|m: int| 0 <= m < b.len() ==> #[trigger] b[m] == c@[m + 1],
            forall|m: int| f <= m < w ==> is_digit(b[m]),
            w < b.len() ==> !is_digit(b[w]),
            width == digits_value(b.subrange(f, i - 1)),
        decreases end - i,
    {
        proof {
            lemma_digits_value_step(b, f, i - 1);
            lemma_digits_value_prefix(b, f, i as int, w);
        }
        width = width * 10 + (c[i] as u32 - 48) as usize;
        i = i + 1;
    }
    if i < end {
        assert(b[i - 1] == c@[i as int]);
    }
    assert(i - 1 == w);
    let mut prec: usize = 0;
    if i < end && c[i] == '.' {
        i = i + 1;
        proof {
            lemma_run_ends(b, w + 1);
        }
        let ghost p = digit_end(b, w + 1);
        let mut saw = false;
        while i < end && '0' <= c[i] && c[i] <= '9'
            invariant
                w + 2 <= i <= end,
                end == n - 1,
                n == c@.len(),
                b == fmt_body(c@),
                b.len() == end - 1,
                i - 1 <= p,
                p == digit_end(b, w + 1),
                w + 1 <= p <= b.len(),
                w < b.len() && b[w] == '.',
                fmt_shape_ok(c@),
                c@ == spec@,
                fmt_fits(spec@),
                f == flag_end(b, 0),
                w == digit_end(b, f),
                forall|m: int| 0 <= m < b.len() ==> #[trigger] b[m] == c@[m + 1],
                forall|m: int| w + 1 <= m < p ==> is_digit(b[m]),
                p < b.len() ==> !is_digit(b[p]),
                prec == digits_value(b.subrange(w + 1, i - 1)),
                saw == (i - 1 > w + 1),
            decreases end - i,
        {
            proof {
                lemma_digits_value_step(b, w + 1, i - 1);
                lemma_digits_value_prefix(b, w + 1, i as int, p);
            }
            prec = prec * 10 + (c[i] as u32 - 48) as usize;
            saw = true;
            i = i + 1;
        }
        if i < end {
            assert(b[i - 1] == c@[i as int]);
        }
        assert(i - 1 == p);
        if !saw {
            return Err(bad_format(spec));
        }
    }
    if i != end {
        return Err(bad_format(spec));
    }
    Ok(FormatSpec { zero, plus, width, prec })
}

/// Whether the digit run of `c` from index `from` (up to `end`) has a value
/// that fits in `usize`; returns the index just past the run as well.
fn digit_run_fits(c: &Vec<char>, from: usize, end: usize, Ghost(b): Ghost<Seq<char>>) -> (r: (
    bool,
    usize,
))
    requires
        1 <= from <= end <= c@.len(),
        b.len() == end - 1,
        forall|m: int| 0 <= m < b.len() ==> #[trigger] b[m] == c@[m + 1],
    ensures
        r.1 - 1 == digit_end(b, from - 1),
        from <= r.1 <= end,
        r.0 == (digits_value(b.subrange(from - 1, r.1 - 1)) <= usize::MAX),
{
    proof {
        lemma_run_ends(b, from - 1);
    }
    let ghost e = digit_end(b, from - 1);
    let mut i = from;
    let mut acc: usize = 0;
    let mut fits = true;
    while i < end && '0' <= c[i] && c[i] <= '9'
        invariant
            1 <= from <= i <= end,
            end <= c@.len(),
            b.len() == end - 1,
            i - 1 <= e,
            e == digit_end(b, from - 1),
            from - 1 <= e <= b.len(),
            forall|m: int| 0 <= m < b.len() ==> #[trigger] b[m] == c@[m + 1],
            forall|m: int| from - 1 <= m < e ==> is_digit(b[m]),
            e < b.len() ==> !is_digit(b[e]),
            fits ==> acc == digits_value(b.subrange(from - 1, i - 1)),
            !fits ==> digits_value(b.subrange(from - 1, i - 1)) > usize::MAX,
        decreases end - i,
    {
        assert(b[i - 1] == c@[i as int]);
        proof {
            lemma_digits_value_step(b, from - 1, i - 1);
        }
        if fits {
            let d = (c[i] as u32 - 48) as usize;
            match acc.checked_mul(10) {
                Some(t) => match t.checked_add(d) {
                    Some(v) => {
                        acc = v;
                    },
                    None => {
                        fits = false;
                    },
                },
                None => {
                    fits = false;
                },
            }
        }
        i = i + 1;
    }
    if i < end {
        assert(b[i - 1] == c@[i as int]);
    }
    (fits, i)
}

/// Whether the width and precision digits of a spec fit in `usize`.
pub fn fmt_fits_check(spec: &str) -> (r: bool)
    ensures
        r == fmt_fits(spec@),
{
    let c = chars_of(spec);
    let n = c.len();
    if n < 2 || c[0] != '%' || c[n - 1] != 'f' {
        return true;
    }
    let ghost b = fmt_body(c@);
    let end = n - 1;
    proof {
        assert forall|m: int| 0 <= m < b.len() implies #[trigger] b[m] == c@[m + 1] by {}
        lemma_run_ends(b, 0);
    }
    let mut i: usize = 1;
    while i < end && (c[i] == '0' || c[i] == '+')
        invariant
            1 <= i <= end,
            end == n - 1,
            n == c@.len(),
            b == fmt_body(c@),
            b.len() == end - 1,
            i - 1 <= flag_end(b, 0),
            forall|m: int| 0 <= m < b.len() ==> #[trigger] b[m] == c@[m + 1],
            forall|m: int| 0 <= m < flag_end(b, 0) ==> b[m] == '0' || b[m] == '+',
            flag_end(b, 0) < b.len() ==> !(b[flag_end(b, 0)] == '0' || b[flag_end(b, 0)]
                == '+'),
        decreases end - i,
    {
        i = i + 1;
    }
    if i < end {
        assert(b[i - 1] == c@[i as int]);
    }
    assert(i - 1 == flag_end(b, 0));
    let (width_fits, w1) = digit_run_fits(&c, i, end, Ghost(b));
    if !width_fits {
        return false;
    }
    if w1 < end && c[w1] == '.' {
        assert(b[w1 - 1] == c@[w1 as int]);
        let (prec_fits, _p1) = digit_run_fits(&c, w1 + 1, end, Ghost(b));
        return prec_fits;
    }
    if w1 < end {
        assert(b[w1 - 1] == c@[w1 as int]);
    }
    true
}

/// The format of a token: its spec, or the plain default when it has none.
pub open spec fn token_format_spec(fmt: Option<Seq<char>>) -> Option<(bool, bool, nat, nat)> {
    match fmt {
        None => Some((false, false, 0, 0)),
        Some(s) => fmt_spec(s),
    }
}

/// Whether every format spec of a token list fits in `usize`.
pub open spec fn formats_fit(p: Seq<Piece>) -> bool {
    forall|i: int|
        0 <= i < p.len() ==> match #[trigger] p[i] {
            Piece::Token(_, Some(s)) => fmt_fits(s),
            _ => true,
        }
}

/// The format of a token (`None` is the plain default).
pub fn token_format(fmt: &Option<String>) -> (r: Result<FormatSpec, ProtocolError>)
    requires
        fmt matches Some(s) ==> fmt_fits(s@),
    ensures
        match token_format_spec(opt_text(*fmt)) {
            Some(v) => r matches Ok(fs) && fs.zero == v.0 && fs.plus == v.1 && fs.width == v.2
                && fs.prec == v.3,
            None => fmt matches Some(s) && r matches Err(ProtocolError::BadFormatSpec(t)) && t@
                == s@,
        },
{
    match fmt {
        None => Ok(FormatSpec { zero: false, plus: false, width: 0, prec: 0 }),
        Some(s) => parse_fmt(s.as_str()),
    }
}

/// The decimal text of a value's magnitude at a token's precision, and
/// whether the value is negative (a negative zero is not).
#[derive(Debug, Clone, PartialEq, Eq)]
pub struct NumberText {
    pub negative: bool,
    /// ASCII digits with an optional decimal point.
    pub magnitude: String,
}

/// `n` copies of `c`.
pub open spec fn repeat(c: char, n: nat) -> Seq<char> {
    Seq::new(n, |_i: int| c)
}

/// The sign shown before a number.
pub open spec fn sign_text(negative: bool, plus: bool) -> Seq<char> {
    if negative {
        seq!['-']
    } else if plus {
        seq!['+']
    } else {
        Seq::empty()
    }
}

/// A number padded per its format: zero padding goes between sign and
/// digits, space padding before the sign.
pub open spec fn padded(negative: bool, magnitude: Seq<char>, zero: bool, plus: bool, width: nat) -> Seq<
    char,
> {
    let sign = sign_text(negative, plus);
    let total = sign.len() + magnitude.len();
    if width > total {
        if zero {
            sign + repeat('0', (width - total) as nat) + magnitude
        } else {
            repeat(' ', (width - total) as nat) + sign + magnitude
        }
    } else {
        sign + magnitude
    }
}

/// Renders a number text per a format spec.
pub fn pad_number(num: &NumberText, fs: FormatSpec) -> (s: String)
    ensures
        s@ == padded(num.negative, num.magnitude@, fs.zero, fs.plus, fs.width as nat),
{
    let mag = chars_of(num.magnitude.as_str());
    let mut sign = String::new();
    if num.negative {
        push_char(&mut sign, '-');
    } else if fs.plus {
        push_char(&mut sign, '+');
    }
    assert(sign@ =~= sign_text(num.negative, fs.plus));
    let sign_len: usize = if num.negative || fs.plus {
        1
    } else {
        0
    };
    let mut out = String::new();
    if mag.len() < fs.width && fs.width - mag.len() > sign_len {
        let pad = fs.width - mag.len() - sign_len;
        if fs.zero {
            push_all(&mut out, &chars_of(sign.as_str()));
            push_repeat(&mut out, '0', pad);
            push_all(&mut out, &mag);
        } else {
            push_repeat(&mut out, ' ', pad);
            push_all(&mut out, &chars_of(sign.as_str()));
            push_all(&mut out, &mag);
        }
    } else {
        push_all(&mut out, &chars_of(sign.as_str()));
        push_all(&mut out, &mag);
    }
    assert(out@ =~= padded(num.negative, num.magnitude@, fs.zero, fs.plus, fs.width as nat));
    out
}

/// The sign and digits of the number texts handed to rendering.
pub open spec fn number_views(ns: Seq<NumberText>) -> Seq<(bool, Seq<char>)> {
    ns.map_values(|n: NumberText| (n.negative, n.magnitude@))
}

/// Why a template does not render.
pub enum RenderFault {
    MissingPosition,
    BadFormat(Seq<char>),
}

/// Prepends `front` to a successful rendering.
pub open spec fn text_prefixed(front: Seq<char>, r: Result<Seq<char>, RenderFault>) -> Result<
    Seq<char>,
    RenderFault,
> {
    match r {
        Ok(rest) => Ok(front + rest),
        Err(f) => Err(f),
    }
}

/// Renders the pieces `p`; token `k` (counting tokens only) is filled with
/// number `k`. Without numbers, the first token fails; a token with a
/// malformed format spec fails.
pub open spec fn render_spec(p: Seq<Piece>, nums: Option<Seq<(bool, Seq<char>)>>, k: int) -> Result<
    Seq<char>,
    RenderFault,
>
    decreases p.len(),
{
    if p.len() == 0 {
        Ok(Seq::empty())
    } else {
        match p[0] {
            Piece::Literal(t) => text_prefixed(t, render_spec(p.skip(1), nums, k)),
            Piece::Token(_, fmt) => match nums {
                None => Err(RenderFault::MissingPosition),
                Some(ns) => match token_format_spec(fmt) {
                    None => Err(RenderFault::BadFormat(fmt->Some_0)),
                    Some(v) => text_prefixed(
                        padded(ns[k].0, ns[k].1, v.0, v.1, v.2),
                        render_spec(p.skip(1), nums, k + 1),
                    ),
                },
            },
        }
    }
}

/// Number of tokens among the pieces.
pub open spec fn token_count(p: Seq<Piece>) -> nat
    decreases p.len(),
{
    if p.len() == 0 {
        0
    } else {
        token_count(p.drop_last()) + if p.last() is Token {
            1nat
        } else {
            0nat
        }
    }
}

/// Whether `e` reports the render fault `f`.
pub open spec fn render_fault_is(e: ProtocolError, f: RenderFault) -> bool {
    match f {
        RenderFault::MissingPosition => e is MissingPosition,
        RenderFault::BadFormat(s) => e matches ProtocolError::BadFormatSpec(t) && t@ == s,
    }
}

/// Renders parsed segments; `numbers` holds one number text per token, in
/// token order, or is `None` when no position is given.
pub fn render_segments(segs: &Vec<Segment>, numbers: Option<&Vec<NumberText>>) -> (r: Result<
    String,
    ProtocolError,
>)
    requires
        formats_fit(pieces(segs@)),
        numbers matches Some(ns) ==> ns@.len() >= token_count(pieces(segs@)),
    ensures
        match render_spec(
            pieces(segs@),
            match numbers {
                Some(ns) => Some(number_views(ns@)),
                None => None,
            },
            0,
        ) {
            Ok(t) => r matches Ok(s) && s@ == t,
            Err(f) => r matches Err(e) && render_fault_is(e, f),
        },
{
    let ghost p = pieces(segs@);
    let ghost nv = match numbers {
        Some(ns) => Some(number_views(ns@)),
        None => None,
    };
    let mut out = String::new();
    let mut i: usize = 0;
    let mut k: usize = 0;
    assert(p.skip(0) =~= p);
    while i < segs.len()
        invariant
            i <= segs@.len(),
            p == pieces(segs@),
            nv == match numbers {
                Some(ns) => Some(number_views(ns@)),
                None => None,
            },
            formats_fit(p),
            numbers matches Some(ns) ==> ns@.len() >= token_count(p),
            k == token_count(p.take(i as int)),
            render_spec(p, nv, 0) == text_prefixed(out@, render_spec(p.skip(i as int), nv, k as int)),
        decreases segs@.len() - i,
    {
        let ghost rest = p.skip(i as int);
        assert(rest[0] == p[i as int]);
        assert(rest.skip(1) =~= p.skip(i + 1));
        assert(p.take(i + 1).drop_last() =~= p.take(i as int));
        proof {
            lemma_token_count_prefix(p, i + 1);
        }
        let ghost old_out = out@;
        match &segs[i] {
            Segment::Literal(t) => {
                push_str(&mut out, t.as_str());
                proof {
                    match render_spec(p.skip(i + 1), nv, k as int) {
                        Ok(x) => assert(old_out + (t@ + x) =~= (old_out + t@) + x),
                        Err(_) => {},
                    }
                }
            },
            Segment::Token { field: _, fmt } => {
                let ns = match numbers {
                    None => {
                        return Err(ProtocolError::MissingPosition);
                    },
                    Some(ns) => ns,
                };
                assert(formats_fit(p) ==> match p[i as int] {
                    Piece::Token(_, Some(s)) => fmt_fits(s),
                    _ => true,
                });
                let fs = match token_format(fmt) {
                    Ok(fs) => fs,
                    Err(e) => {
                        return Err(e);
                    },
                };
                assert(number_views(ns@)[k as int] == (ns@[k as int].negative, ns@[k as int].magnitude@));
                assert(p[i as int] is Token);
                assert(k + 1 <= ns@.len());
                assert(k < ns.len());
                let text = pad_number(&ns[k], fs);
                push_str(&mut out, text.as_str());
                proof {
                    match render_spec(p.skip(i + 1), nv, k + 1) {
                        Ok(x) => assert(old_out + (text@ + x) =~= (old_out + text@) + x),
                        Err(_) => {},
                    }
                }
                k = k + 1;
            },
        }
        i = i + 1;
    }
    proof {
        match render_spec(p, nv, 0) {
            Ok(x) => assert(out@ + Seq::<char>::empty() =~= out@),
            Err(_) => {},
        }
    }
    Ok(out)
}

/// Token counts grow by one exactly at tokens and never pass the total.
pub proof fn lemma_token_count_prefix(p: Seq<Piece>, i: int)
    requires
        0 <= i <= p.len(),
    ensures
        token_count(p.take(i)) <= token_count(p),
        i > 0 ==> token_count(p.take(i)) == token_count(p.take(i - 1)) + if p[i - 1] is Token {
            1nat
        } else {
            0nat
        },
    decreases p.len() - i,
{
    if i > 0 {
        assert(p.take(i).drop_last() =~= p.take(i - 1));
    }
    if i < p.len() {
        lemma_token_count_prefix(p, i + 1);
        assert(p.take(i + 1).drop_last() =~= p.take(i));
    } else {
        assert(p.take(i) =~= p);
    }
}

/// The text std's `Debug` formatting gives a string: quoted, with escapes.
pub uninterp spec fn debug_quoted(s: Seq<char>) -> Seq<char>;

/// The quoted, escaped form of a string (std `Debug` for `str`); the result is
/// `debug_quoted` of the text.
#[verifier::external_body]
fn quoted(text: &str) -> (r: String)
    ensures
        r@ == debug_quoted(text@),
{
    format!("{:?}", text)
}

/// Decodes bytes as UTF-8 (std `str::from_utf8`): the text exists exactly
/// when the bytes are valid UTF-8, and is their decoding.
#[verifier::external_body]
fn utf8_text(bytes: &[u8]) -> (r: Option<&str>)
    ensures
        r is Some <==> valid_utf8(bytes@),
        r matches Some(t) ==> t@ == decode_utf8(bytes@),
{
    std::str::from_utf8(bytes).ok()
}

/// Whether `c` may start a number as its sign.
pub open spec fn is_sign(c: char) -> bool {
    c == '+' || c == '-'
}

/// End of the digits-and-one-point run of `s` starting at `i`.
pub open spec fn number_body_end(s: Seq<char>, i: int, seen_dot: bool) -> int
    decreases s.len() - i,
{
    if i < 0 || i >= s.len() {
        i
    } else if is_digit(s[i]) {
        number_body_end(s, i + 1, seen_dot)
    } else if s[i] == '.' && !seen_dot {
        number_body_end(s, i + 1, true)
    } else {
        i
    }
}

/// Where the digits of a number at `pos` start (after an optional sign).
pub open spec fn number_start(s: Seq<char>, pos: int) -> int {
    if pos < s.len() && is_sign(s[pos]) {
        pos + 1
    } else {
        pos
    }
}

/// Whether `s[a..b]` holds a digit.
pub open spec fn has_digit_between(s: Seq<char>, a: int, b: int) -> bool {
    exists|m: int| a <= m < b && #[trigger] is_digit(s[m])
}

/// The end of the number starting at `pos`: an optional sign, then digits
/// with at most one decimal point, holding at least one digit.
pub open spec fn scan_spec(s: Seq<char>, pos: int) -> Option<int> {
    let a = number_start(s, pos);
    let e = number_body_end(s, a, false);
    if has_digit_between(s, a, e) {
        Some(e)
    } else {
        None
    }
}

/// `number_body_end` stays within `[i, s.len()]`.
pub proof fn lemma_number_body_end(s: Seq<char>, i: int, seen_dot: bool)
    requires
        0 <= i <= s.len(),
    ensures
        i <= number_body_end(s, i, seen_dot) <= s.len(),
    decreases s.len() - i,
{
    if i < s.len() {
        if is_digit(s[i]) {
            lemma_number_body_end(s, i + 1, seen_dot);
        } else if s[i] == '.' && !seen_dot {
            lemma_number_body_end(s, i + 1, true);
        }
    }
}

/// Scans the number starting at `pos` and returns the index just past it.
pub fn scan_number(input: &Vec<char>, pos: usize) -> (r: Option<usize>)
    requires
        pos <= input@.len(),
    ensures
        match r {
            Some(e) => scan_spec(input@, pos as int) == Some(e as int) && pos <= e <= input@.len(),
            None => scan_spec(input@, pos as int) is None,
        },
{
    let ghost s = input@;
    let mut i = pos;
    if i < input.len() && (input[i] == '+' || input[i] == '-') {
        i = i + 1;
    }
    let ghost a = i as int;
    assert(a == number_start(s, pos as int));
    let mut seen_digit = false;
    let mut seen_dot = false;
    while i < input.len()
        invariant_except_break
            a <= i <= s.len(),
            s == input@,
            number_body_end(s, a, false) == number_body_end(s, i as int, seen_dot),
            seen_digit == has_digit_between(s, a, i as int),
        ensures
            a <= i <= s.len(),
            number_body_end(s, a, false) == i,
            seen_digit == has_digit_between(s, a, i as int),
        decreases s.len() - i,
    {
        let c = input[i];
        if '0' <= c && c <= '9' {
            seen_digit = true;
            assert(is_digit(s[i as int]));
            i = i + 1;
        } else if c == '.' && !seen_dot {
            seen_dot = true;
            assert(has_digit_between(s, a, i + 1) == has_digit_between(s, a, i as int)) by {
                if has_digit_between(s, a, i + 1) {
                    let m = choose|m: int| a <= m < i + 1 && #[trigger] is_digit(s[m]);
                    assert(m != i);
                }
            }
            i = i + 1;
        } else {
            break;
        }
    }
    proof {
        lemma_number_body_end(s, a, false);
    }
    if !seen_digit {
        return None;
    }
    Some(i)
}

/// The number texts a readout holds for each axis.
#[derive(Debug, Clone, PartialEq, Eq)]
pub struct ReadoutText {
    pub az: String,
    pub el: String,
}

/// Why a readout does not match its pattern.
pub enum DecodeFault {
    LiteralMismatch(Seq<char>, int),
    NoNumber(int),
    Incomplete,
}

/// Matches the pieces `p` against `s` from `pos`: literals must match
/// exactly, tokens take the number found there; the last number of each axis
/// wins and both axes must be read. Characters after the pattern are ignored.
pub open spec fn decode_spec(
    p: Seq<Piece>,
    s: Seq<char>,
    pos: int,
    az: Option<Seq<char>>,
    el: Option<Seq<char>>,
) -> Result<(Seq<char>, Seq<char>), DecodeFault>
    decreases p.len(),
{
    if p.len() == 0 {
        match (az, el) {
            (Some(a), Some(e)) => Ok((a, e)),
            _ => Err(DecodeFault::Incomplete),
        }
    } else {
        match p[0] {
            Piece::Literal(l) => if pos + l.len() <= s.len() && s.subrange(pos, pos + l.len()) == l {
                decode_spec(p.skip(1), s, pos + l.len(), az, el)
            } else {
                Err(DecodeFault::LiteralMismatch(l, pos))
            },
            Piece::Token(f, _) => match scan_spec(s, pos) {
                None => Err(DecodeFault::NoNumber(pos)),
                Some(e) => {
                    let t = s.subrange(pos, e);
                    decode_spec(
                        p.skip(1),
                        s,
                        e,
                        if f == Field::Az {
                            Some(t)
                        } else {
                            az
                        },
                        if f == Field::El {
                            Some(t)
                        } else {
                            el
                        },
                    )
                },
            },
        }
    }
}

/// The message of a decoding failure.
pub open spec fn decode_fault_message(f: DecodeFault) -> Seq<char> {
    match f {
        DecodeFault::LiteralMismatch(l, pos) => "expected literal "@ + debug_quoted(l)
            + " at offset "@ + decimal_int(pos),
        DecodeFault::NoNumber(pos) => "no number at offset "@ + decimal_int(pos),
        DecodeFault::Incomplete => "response did not yield both az and el"@,
    }
}

/// Whether `e` reports the decoding failure `f`.
pub open spec fn decode_fault_is(e: ProtocolError, f: DecodeFault) -> bool {
    e matches ProtocolError::ParseFailed(m) && m@ == decode_fault_message(f)
}

/// Whether `lit` occurs in `input` at `pos`.
fn literal_at(input: &Vec<char>, pos: usize, lit: &Vec<char>) -> (r: bool)
    requires
        pos <= input@.len(),
    ensures
        r == (pos + lit@.len() <= input@.len() && input@.subrange(pos as int, pos + lit@.len())
            == lit@),
{
    if lit.len() > input.len() - pos {
        return false;
    }
    let mut j: usize = 0;
    while j < lit.len()
        invariant
            j <= lit@.len(),
            pos + lit@.len() <= input.len(),
            forall|m: int| 0 <= m < j ==> input@[pos + m] == lit@[m],
        decreases lit@.len() - j,
    {
        if input[pos + j] != lit[j] {
            assert(input@.subrange(pos as int, pos + lit@.len())[j as int] != lit@[j as int]);
            return false;
        }
        j = j + 1;
    }
    assert(input@.subrange(pos as int, pos + lit@.len()) =~= lit@);
    true
}

/// The error for a literal that does not match at `pos`.
fn literal_mismatch(text: &str, pos: usize) -> (e: ProtocolError)
    ensures
        decode_fault_is(e, DecodeFault::LiteralMismatch(text@, pos as int)),
{
    let mut m = owned("expected literal ");
    let q = quoted(text);
    push_str(&mut m, q.as_str());
    push_str(&mut m, " at offset ");
    push_decimal(&mut m, pos as u64);
    assert(decimal_int(pos as int) == decimal(pos as nat));
    ProtocolError::ParseFailed(m)
}

/// The error for a missing number at `pos`.
fn no_number(pos: usize) -> (e: ProtocolError)
    ensures
        decode_fault_is(e, DecodeFault::NoNumber(pos as int)),
{
    let mut m = owned("no number at offset ");
    push_decimal(&mut m, pos as u64);
    assert(decimal_int(pos as int) == decimal(pos as nat));
    ProtocolError::ParseFailed(m)
}

/// Extracts the az/el number texts of a readout per parsed pattern segments.
fn decode_segments(segs: &Vec<Segment>, input: &Vec<char>) -> (r: Result<ReadoutText, ProtocolError>)
    ensures
        match decode_spec(pieces(segs@), input@, 0, None, None) {
            Ok(v) => r matches Ok(t) && t.az@ == v.0 && t.el@ == v.1,
            Err(f) => r matches Err(e) && decode_fault_is(e, f),
        },
{
    let ghost p = pieces(segs@);
    let ghost s = input@;
    let mut pos: usize = 0;
    let mut az: Option<String> = None;
    let mut el: Option<String> = None;
    let mut i: usize = 0;
    assert(p.skip(0) =~= p);
    while i < segs.len()
        invariant
            i <= segs@.len(),
            p == pieces(segs@),
            s == input@,
            pos <= s.len(),
            decode_spec(p, s, 0, None, None) == decode_spec(
                p.skip(i as int),
                s,
                pos as int,
                opt_text(az),
                opt_text(el),
            ),
        decreases segs@.len() - i,
    {
        let ghost rest = p.skip(i as int);
        assert(rest[0] == p[i as int]);
        assert(rest.skip(1) =~= p.skip(i + 1));
        match &segs[i] {
            Segment::Literal(text) => {
                let lit = chars_of(text.as_str());
                if !literal_at(input, pos, &lit) {
                    return Err(literal_mismatch(text.as_str(), pos));
                }
                assert(pos + lit@.len() <= input.len());
                pos = pos + lit.len();
            },
            Segment::Token { field, fmt: _ } => {
                let next = match scan_number(input, pos) {
                    Some(e) => e,
                    None => {
                        return Err(no_number(pos));
                    },
                };
                let t = string_of_range(input, pos, next);
                match field {
                    Field::Az => {
                        az = Some(t);
                    },
                    Field::El => {
                        el = Some(t);
                    },
                }
                pos = next;
            },
        }
        i = i + 1;
    }
    match (az, el) {
        (Some(a), Some(e)) => Ok(ReadoutText { az: a, el: e }),
        _ => Err(ProtocolError::ParseFailed(owned("response did not yield both az and el"))),
    }
}

/// Extracts the az/el number texts of a readout per a response pattern.
pub fn decode_text(pattern: &str, input: &Vec<char>) -> (r: Result<ReadoutText, ProtocolError>)
    ensures
        match parse_spec(pattern@, 0) {
            Err(f) => r matches Err(e) && fault_is(e, f),
            Ok(p) => match decode_spec(p, input@, 0, None, None) {
                Ok(v) => r matches Ok(t) && t.az@ == v.0 && t.el@ == v.1,
                Err(f) => r matches Err(e) && decode_fault_is(e, f),
            },
        },
{
    match parse_template(pattern) {
        Ok(segs) => decode_segments(&segs, input),
        Err(e) => Err(e),
    }
}

/// Decodes a position readout's bytes into the az/el number texts: the bytes
/// must be UTF-8, then the text must match the response pattern.
pub fn decode_readout(pattern: &str, bytes: &[u8]) -> (r: Result<ReadoutText, ProtocolError>)
    ensures
        if !valid_utf8(bytes@) {
            r matches Err(ProtocolError::NotUtf8)
        } else {
            let text = decode_utf8(bytes@);
            match parse_spec(pattern@, 0) {
                Err(f) => r matches Err(e) && fault_is(e, f),
                Ok(p) => match decode_spec(p, text, 0, None, None) {
                    Ok(v) => r matches Ok(t) && t.az@ == v.0 && t.el@ == v.1,
                    Err(f) => r matches Err(e) && decode_fault_is(e, f),
                },
            }
        },
{
    let text = match utf8_text(bytes) {
        Some(t) => t,
        None => {
            return Err(ProtocolError::NotUtf8);
        },
    };
    let input = chars_of(text);
    decode_text(pattern, &input)
}

/// Whether a piece is a token for field `f`.
pub open spec fn is_token_of(p: Piece, f: Field) -> bool {
    p matches Piece::Token(g, _) && g == f
}

/// Whether the pieces hold a token for field `f`.
pub open spec fn has_field(p: Seq<Piece>, f: Field) -> bool {
    exists|i: int| 0 <= i < p.len() && is_token_of(#[trigger] p[i], f)
}

/// Whether the segments hold a token for `f`.
fn segments_have(segs: &Vec<Segment>, f: Field) -> (r: bool)
    ensures
        r == has_field(pieces(segs@), f),
{
    let ghost p = pieces(segs@);
    let mut i: usize = 0;
    while i < segs.len()
        invariant
            i <= segs@.len(),
            p == pieces(segs@),
            forall|m: int| 0 <= m < i ==> !is_token_of(#[trigger] p[m], f),
        decreases segs@.len() - i,
    {
        match &segs[i] {
            Segment::Token { field, fmt: _ } => {
                if *field == f {
                    assert(is_token_of(p[i as int], f));
                    return true;
                }
            },
            Segment::Literal(_) => {},
        }
        i = i + 1;
    }
    false
}

/// The outcome of validating a protocol's templates: the first template
/// that does not parse (set, query, stop, response), then a set template or
/// response pattern without both an az and an el token.
pub open spec fn templates_verdict(t: ProtocolTemplates, r: Result<(), ProtocolError>) -> bool {
    match parse_spec(t.set_template@, 0) {
        Err(f) => r matches Err(e) && fault_is(e, f),
        Ok(ps) => match parse_spec(t.query_template@, 0) {
            Err(f) => r matches Err(e) && fault_is(e, f),
            Ok(_) => match parse_spec(t.stop_template@, 0) {
                Err(f) => r matches Err(e) && fault_is(e, f),
                Ok(_) => match parse_spec(t.response_pattern@, 0) {
                    Err(f) => r matches Err(e) && fault_is(e, f),
                    Ok(pr) => if !(has_field(ps, Field::Az) && has_field(ps, Field::El)) {
                        r matches Err(ProtocolError::ParseFailed(m)) && m@
                            == "set_template must contain both az and el tokens"@
                    } else if !(has_field(pr, Field::Az) && has_field(pr, Field::El)) {
                        r matches Err(ProtocolError::ParseFailed(m)) && m@
                            == "response_pattern must contain both az and el tokens"@
                    } else {
                        r is Ok
                    },
                },
            },
        },
    }
}

/// Checks a protocol's templates without any I/O: all four must parse, and
/// the set template and response pattern must each carry both axes.
pub fn validate_templates(t: &ProtocolTemplates) -> (r: Result<(), ProtocolError>)
    ensures
        templates_verdict(*t, r),
{
    let set = match parse_template(t.set_template.as_str()) {
        Ok(s) => s,
        Err(e) => {
            return Err(e);
        },
    };
    if let Err(e) = parse_template(t.query_template.as_str()) {
        return Err(e);
    }
    if let Err(e) = parse_template(t.stop_template.as_str()) {
        return Err(e);
    }
    let response = match parse_template(t.response_pattern.as_str()) {
        Ok(s) => s,
        Err(e) => {
            return Err(e);
        },
    };
    if !(segments_have(&set, Field::Az) && segments_have(&set, Field::El)) {
        return Err(
            ProtocolError::ParseFailed(owned("set_template must contain both az and el tokens")),
        );
    }
    if !(segments_have(&response, Field::Az) && segments_have(&response, Field::El)) {
        return Err(
            ProtocolError::ParseFailed(
                owned("response_pattern must contain both az and el tokens"),
            ),
        );
    }
    Ok(())
}

/// The message a protocol error displays.
pub open spec fn protocol_error_text(e: ProtocolError) -> Seq<char> {
    match e {
        ProtocolError::UnknownField(s) => "unknown template field: "@ + s@,
        ProtocolError::BadFormatSpec(s) => "bad format spec: "@ + s@,
        ProtocolError::UnterminatedToken => "unterminated token in template"@,
        ProtocolError::MissingPosition => "operation requires a position"@,
        ProtocolError::ParseFailed(s) => "response parse failed: "@ + s@,
        ProtocolError::NotUtf8 => "response bytes are not valid UTF-8"@,
    }
}

impl ProtocolError {
    /// The message this error displays.
    pub fn message(&self) -> (s: String)
        ensures
            s@ == protocol_error_text(*self),
    {
        match self {
            ProtocolError::UnknownField(s) => concat("unknown template field: ", s.as_str()),
            ProtocolError::BadFormatSpec(s) => concat("bad format spec: ", s.as_str()),
            ProtocolError::UnterminatedToken => owned("unterminated token in template"),
            ProtocolError::MissingPosition => owned("operation requires a position"),
            ProtocolError::ParseFailed(s) => concat("response parse failed: ", s.as_str()),
            ProtocolError::NotUtf8 => owned("response bytes are not valid UTF-8"),
        }
    }
}


/// Accepted templates carry both axes: when a protocol's templates pass
/// validation, its set template and its response pattern each parse and each
/// hold an az token and an el token.
pub proof fn accepted_templates_carry_both_axes(t: ProtocolTemplates)
    requires
        templates_verdict(t, Ok(())),
    ensures
        parse_spec(t.set_template@, 0) matches Ok(ps) && (exists|i: int|
            0 <= i < ps.len() && #[trigger] ps[i] matches Piece::Token(Field::Az, _)) && (exists|
            j: int,
        | 0 <= j < ps.len() && #[trigger] ps[j] matches Piece::Token(Field::El, _)),
        parse_spec(t.response_pattern@, 0) matches Ok(pr) && (exists|i: int|
            0 <= i < pr.len() && #[trigger] pr[i] matches Piece::Token(Field::Az, _)) && (exists|
            j: int,
        | 0 <= j < pr.len() && #[trigger] pr[j] matches Piece::Token(Field::El, _)),
{
}

} // verus!
