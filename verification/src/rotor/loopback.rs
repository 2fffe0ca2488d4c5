//! The loopback law of the template codec: a readout rendered from a
//! response pattern decodes back to the numbers it was rendered with.
use vstd::prelude::*;
use crate::text::is_digit;
use super::engine::{
    decode_spec, has_field, is_token_of, number_body_end, number_start, padded, parse_spec,
    render_spec, repeat, scan_spec, sign_text, token_count, token_format_spec, has_digit_between,
    Field, Piece, DecodeFault,
};

verus! {

/// Whether `m` is a magnitude text: digits with at most one point, holding
/// at least one digit.
pub open spec fn is_magnitude(m: Seq<char>) -> bool {
    &&& forall|i: int| 0 <= i < m.len() ==> is_digit(#[trigger] m[i]) || m[i] == '.'
    &&& forall|i: int, j: int| 0 <= i < j < m.len() && #[trigger] m[i] == '.' ==> #[trigger] m[j] != '.'
    &&& exists|i: int| 0 <= i < m.len() && is_digit(#[trigger] m[i])
}

/// Whether the text following a number cannot be read as part of it.
pub open spec fn ends_number(c: Seq<char>) -> bool {
    c.len() == 0 || !(is_digit(c[0]) || c[0] == '.')
}

/// The text a token renders to with number `n`.
pub open spec fn token_text(fmt: Option<Seq<char>>, n: (bool, Seq<char>)) -> Seq<char> {
    let v = token_format_spec(fmt)->Some_0;
    padded(n.0, n.1, v.0, v.1, v.2)
}

/// The rendering of `p` from token `k` on (meaningful when it succeeds).
pub open spec fn rendered(p: Seq<Piece>, ns: Seq<(bool, Seq<char>)>, k: int) -> Seq<char> {
    render_spec(p, Some(ns), k)->Ok_0
}

/// Whether rendering `p` (from token `k`, followed by `after`) can be read
/// back: every token has a valid format, is zero-padded or unpadded, holds a
/// magnitude text, and is followed by text that cannot continue it.
pub open spec fn loopback_ok(p: Seq<Piece>, ns: Seq<(bool, Seq<char>)>, k: int, after: Seq<char>) -> bool
    decreases p.len(),
{
    if p.len() == 0 {
        true
    } else {
        match p[0] {
            Piece::Literal(_) => loopback_ok(p.skip(1), ns, k, after),
            Piece::Token(_, fmt) => match token_format_spec(fmt) {
                None => false,
                Some(v) => {
                    &&& is_magnitude(ns[k].1)
                    &&& (v.0 || v.2 <= sign_text(ns[k].0, v.1).len() + ns[k].1.len())
                    &&& ends_number(rendered(p.skip(1), ns, k + 1) + after)
                    &&& loopback_ok(p.skip(1), ns, k + 1, after)
                },
            },
        }
    }
}

/// The rendered text of the last token of `f` in `p` (`cur` when none).
pub open spec fn last_token_text(
    p: Seq<Piece>,
    ns: Seq<(bool, Seq<char>)>,
    k: int,
    f: Field,
    cur: Option<Seq<char>>,
) -> Option<Seq<char>>
    decreases p.len(),
{
    if p.len() == 0 {
        cur
    } else {
        match p[0] {
            Piece::Literal(_) => last_token_text(p.skip(1), ns, k, f, cur),
            Piece::Token(g, fmt) => last_token_text(
                p.skip(1),
                ns,
                k + 1,
                f,
                if g == f {
                    Some(token_text(fmt, ns[k]))
                } else {
                    cur
                },
            ),
        }
    }
}

/// Rendering succeeds when every token has a valid format.
proof fn lemma_loopback_renders(p: Seq<Piece>, ns: Seq<(bool, Seq<char>)>, k: int, after: Seq<char>)
    requires
        loopback_ok(p, ns, k, after),
    ensures
        render_spec(p, Some(ns), k) is Ok,
        render_spec(p, Some(ns), k) == Ok::<Seq<char>, super::engine::RenderFault>(rendered(p, ns, k)),
    decreases p.len(),
{
    if p.len() > 0 {
        match p[0] {
            Piece::Literal(_) => lemma_loopback_renders(p.skip(1), ns, k, after),
            Piece::Token(_, _) => lemma_loopback_renders(p.skip(1), ns, k + 1, after),
        }
    }
}

/// A field that occurs among the pieces has a last token text.
proof fn lemma_last_token_some(
    p: Seq<Piece>,
    ns: Seq<(bool, Seq<char>)>,
    k: int,
    f: Field,
    cur: Option<Seq<char>>,
)
    requires
        has_field(p, f) || cur is Some,
    ensures
        last_token_text(p, ns, k, f, cur) is Some,
    decreases p.len(),
{
    if p.len() > 0 {
        let next_cur = match p[0] {
            Piece::Literal(_) => cur,
            Piece::Token(g, fmt) => if g == f {
                Some(token_text(fmt, ns[k]))
            } else {
                cur
            },
        };
        if has_field(p, f) && cur is None && !(next_cur is Some) {
            let i = choose|i: int| 0 <= i < p.len() && is_token_of(#[trigger] p[i], f);
            assert(i != 0);
            assert(p.skip(1)[i - 1] == p[i]);
        }
        match p[0] {
            Piece::Literal(_) => lemma_last_token_some(p.skip(1), ns, k, f, cur),
            Piece::Token(_, _) => lemma_last_token_some(p.skip(1), ns, k + 1, f, next_cur),
        }
    }
}

/// A run of digits and points (one point at most, none when one was already
/// seen) followed by a stop character ends exactly there.
proof fn lemma_body_end(s: Seq<char>, a: int, b: int, seen_dot: bool)
    requires
        0 <= a <= b <= s.len(),
        forall|m: int| a <= m < b ==> is_digit(#[trigger] s[m]) || s[m] == '.',
        forall|m: int, n: int| a <= m < n < b && #[trigger] s[m] == '.' ==> #[trigger] s[n] != '.',
        seen_dot ==> forall|m: int| a <= m < b ==> #[trigger] s[m] != '.',
        b == s.len() || !(is_digit(s[b]) || s[b] == '.'),
    ensures
        number_body_end(s, a, seen_dot) == b,
    decreases b - a,
{
    if a < b {
        if is_digit(s[a]) {
            lemma_body_end(s, a + 1, b, seen_dot);
        } else {
            assert forall|m: int| a + 1 <= m < b implies #[trigger] s[m] != '.' by {
                assert(s[a] == '.');
            }
            lemma_body_end(s, a + 1, b, true);
        }
    }
}

/// A zero-padded or unpadded token text, followed by text that cannot
/// continue it, scans to exactly its end.
proof fn lemma_scan_token(
    pre: Seq<char>,
    negative: bool,
    mag: Seq<char>,
    zero: bool,
    plus: bool,
    width: nat,
    rest: Seq<char>,
)
    requires
        is_magnitude(mag),
        zero || width <= sign_text(negative, plus).len() + mag.len(),
        ends_number(rest),
    ensures
        scan_spec(pre + padded(negative, mag, zero, plus, width) + rest, pre.len() as int) == Some(
            (pre.len() + padded(negative, mag, zero, plus, width).len()) as int,
        ),
{
    let sign = sign_text(negative, plus);
    let t = padded(negative, mag, zero, plus, width);
    let total = sign.len() + mag.len();
    let zeros = if width > total {
        repeat('0', (width - total) as nat)
    } else {
        Seq::empty()
    };
    let body = zeros + mag;
    assert(t =~= sign + body);
    let s = pre + t + rest;
    let pos = pre.len() as int;
    let a = pos + sign.len();
    let b = a + body.len();
    assert(s.subrange(a, b) =~= body);
    assert forall|m: int| a <= m < b implies is_digit(#[trigger] s[m]) || s[m] == '.' by {
        assert(s[m] == body[m - a]);
        if m - a >= zeros.len() {
            assert(body[m - a] == mag[m - a - zeros.len()]);
        }
    }
    assert forall|m: int, n: int| a <= m < n < b && #[trigger] s[m] == '.' implies #[trigger] s[n]
        != '.' by {
        assert(s[m] == body[m - a]);
        assert(s[n] == body[n - a]);
        assert(m - a >= zeros.len());
        assert(body[m - a] == mag[m - a - zeros.len()]);
        assert(body[n - a] == mag[n - a - zeros.len()]);
    }
    if b < s.len() {
        assert(s[b] == rest[0]);
    }
    lemma_body_end(s, a, b, false);
    if sign.len() > 0 {
        assert(s[pos] == sign[0]);
    } else {
        assert(s[pos] == body[0]);
        if zeros.len() == 0 {
            assert(body[0] == mag[0]);
        }
    }
    assert(number_start(s, pos) == a);
    let i = choose|i: int| 0 <= i < mag.len() && is_digit(#[trigger] mag[i]);
    assert(s[a + zeros.len() + i] == mag[i]);
    assert(has_digit_between(s, a, b));
}

/// Decoding the rendering of `p` (placed after `pre`, followed by `after`)
/// reads the last rendered number of each axis.
proof fn lemma_loopback(
    p: Seq<Piece>,
    ns: Seq<(bool, Seq<char>)>,
    k: int,
    pre: Seq<char>,
    after: Seq<char>,
    az: Option<Seq<char>>,
    el: Option<Seq<char>>,
)
    requires
        loopback_ok(p, ns, k, after),
    ensures
        decode_spec(p, pre + rendered(p, ns, k) + after, pre.len() as int, az, el) == decode_spec(
            Seq::empty(),
            Seq::empty(),
            0,
            last_token_text(p, ns, k, Field::Az, az),
            last_token_text(p, ns, k, Field::El, el),
        ),
    decreases p.len(),
{
    lemma_loopback_renders(p, ns, k, after);
    if p.len() == 0 {
    } else {
        let rest = p.skip(1);
        match p[0] {
            Piece::Literal(l) => {
                lemma_loopback_renders(rest, ns, k, after);
                let r = rendered(rest, ns, k);
                assert(rendered(p, ns, k) == l + r);
                let s = pre + rendered(p, ns, k) + after;
                assert(s =~= (pre + l) + r + after);
                assert(s.subrange(pre.len() as int, (pre.len() + l.len()) as int) =~= l);
                lemma_loopback(rest, ns, k, pre + l, after, az, el);
            },
            Piece::Token(f, fmt) => {
                lemma_loopback_renders(rest, ns, k + 1, after);
                let v = token_format_spec(fmt)->Some_0;
                let t = token_text(fmt, ns[k]);
                let r = rendered(rest, ns, k + 1);
                assert(rendered(p, ns, k) == t + r);
                let s = pre + rendered(p, ns, k) + after;
                assert(s =~= pre + t + (r + after));
                lemma_scan_token(pre, ns[k].0, ns[k].1, v.0, v.1, v.2, r + after);
                assert(s.subrange(pre.len() as int, (pre.len() + t.len()) as int) =~= t);
                assert(s =~= (pre + t) + r + after);
                lemma_loopback(
                    rest,
                    ns,
                    k + 1,
                    pre + t,
                    after,
                    if f == Field::Az {
                        Some(t)
                    } else {
                        az
                    },
                    if f == Field::El {
                        Some(t)
                    } else {
                        el
                    },
                );
            },
        }
    }
}

/// Loopback: rendering a response pattern with numbers that can be read back
/// (zero-padded or unpadded magnitudes, each followed by text that cannot
/// continue it) and decoding the result, with any trailing text, yields the
/// rendered text of the last az token and of the last el token.
pub proof fn render_then_decode(pattern: Seq<char>, ns: Seq<(bool, Seq<char>)>, trailing: Seq<char>)
    requires
        parse_spec(pattern, 0) is Ok,
        has_field(parse_spec(pattern, 0)->Ok_0, Field::Az),
        has_field(parse_spec(pattern, 0)->Ok_0, Field::El),
        ns.len() >= token_count(parse_spec(pattern, 0)->Ok_0),
        loopback_ok(parse_spec(pattern, 0)->Ok_0, ns, 0, trailing),
    ensures
        ({
            let p = parse_spec(pattern, 0)->Ok_0;
            &&& render_spec(p, Some(ns), 0) matches Ok(text)
            &&& decode_spec(p, text + trailing, 0, None, None) == Ok::<
                (Seq<char>, Seq<char>),
                DecodeFault,
            >(
                (
                    last_token_text(p, ns, 0, Field::Az, None)->Some_0,
                    last_token_text(p, ns, 0, Field::El, None)->Some_0,
                ),
            )
        }),
{
    let p = parse_spec(pattern, 0)->Ok_0;
    lemma_loopback_renders(p, ns, 0, trailing);
    lemma_loopback(p, ns, 0, Seq::empty(), trailing, None, None);
    assert(Seq::<char>::empty() + rendered(p, ns, 0) + trailing =~= rendered(p, ns, 0) + trailing);
    lemma_last_token_some(p, ns, 0, Field::Az, None);
    lemma_last_token_some(p, ns, 0, Field::El, None);
}

} // verus!
