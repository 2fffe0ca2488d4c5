//! TLE parsing: a named pair of validated lines becomes a [`TleRecord`], and a
//! three-line-set text becomes one result per recognised element set.
use vstd::prelude::*;
use vstd::string::*;
use crate::text::{
    scan_digits,
    int_error_message, int_error_text, owned, parse_int, parse_int_spec, push_all, string_of,
    trim, trim_str, IntErrorKind,
};
use super::validator::{line_error, line_valid, validate_line};
use super::{TleError, TleRecord};

verus! {

/// Columns 3-7 of a line (the NORAD catalog number), trimmed.
pub open spec fn norad_field(line: Seq<char>) -> Seq<char> {
    trim(line.subrange(2, 7))
}

/// The NORAD number of a line, parsed as a `u32`.
pub open spec fn norad_parse(line: Seq<char>) -> Result<int, IntErrorKind> {
    parse_int_spec(norad_field(line), 0, u32::MAX as int, false)
}

/// Columns 19-32 of line 1: the epoch as two-digit year and day of year.
pub open spec fn epoch_field(line1: Seq<char>) -> Seq<char> {
    line1.subrange(18, 32)
}

/// The two-digit epoch year, parsed as an `i32`.
pub open spec fn epoch_year_parse(line1: Seq<char>) -> Result<int, IntErrorKind> {
    parse_int_spec(epoch_field(line1).take(2), i32::MIN as int, i32::MAX as int, true)
}

/// Two-digit years below 57 are in the 2000s, the others in the 1900s.
pub open spec fn full_year(y: int) -> int {
    if y < 57 {
        2000 + y
    } else {
        1900 + y
    }
}

/// The outcome of parsing the element set `name`/`l1`/`l2`: the first failing
/// check decides the error, in the order line 1, line 2, NORAD of line 1,
/// NORAD of line 2, NORAD agreement, epoch year.
#[verifier::opaque]
pub open spec fn parse_tle_rel(
    name: Seq<char>,
    l1: Seq<char>,
    l2: Seq<char>,
    r: Result<TleRecord, TleError>,
) -> bool {
    if !line_valid(l1, 1) {
        r matches Err(e) && line_error(l1, 1, e)
    } else if !line_valid(l2, 2) {
        r matches Err(e) && line_error(l2, 2, e)
    } else {
        match norad_parse(l1) {
            Err(k) => r matches Err(TleError::InvalidField { field, message }) && field@
                == "line1 norad"@ && message@ == int_error_message(k),
            Ok(n1) => match norad_parse(l2) {
                Err(k) => r matches Err(TleError::InvalidField { field, message }) && field@
                    == "line2 norad"@ && message@ == int_error_message(k),
                Ok(n2) => if n1 != n2 {
                    r matches Err(TleError::NoradIdMismatch)
                } else {
                    match epoch_year_parse(l1) {
                        Err(k) => r matches Err(TleError::InvalidEpoch(m)) && m@ == "year: "@
                            + int_error_message(k),
                        Ok(y) => r matches Ok(rec) && rec.norad_id == n1 && rec.name@ == trim(name)
                            && rec.line1@ == l1 && rec.line2@ == l2 && rec.epoch_year == full_year(
                            y,
                        ) && rec.epoch_day@ == trim(epoch_field(l1).skip(2)),
                    }
                },
            },
        }
    }
}

/// Parses a decimal `u32`, reporting failures against `field`.
pub fn parse_u32(s: &Vec<char>, field: &str) -> (r: Result<u32, TleError>)
    ensures
        match parse_int_spec(s@, 0, u32::MAX as int, false) {
            Ok(v) => r == Ok::<u32, TleError>(v as u32) && 0 <= v <= u32::MAX,
            Err(k) => r matches Err(TleError::InvalidField { field: f, message }) && f@ == field@
                && message@ == int_error_message(k),
        },
{
    match parse_int(s, 0, u32::MAX as i64, false) {
        Ok(v) => Ok(v as u32),
        Err(k) => Err(TleError::InvalidField { field: owned(field), message: int_error_text(k) }),
    }
}

proof fn lemma_valid_line_ascii(line: &str, n: u8)
    requires
        line_valid(line@, n),
    ensures
        line@.len() == 69,
        line.is_ascii(),
{
    broadcast use is_ascii_spec_bytes;

    assert(is_ascii(line));
    assert(line.spec_bytes().len() == 69);
}

/// Parses one named element set.
pub fn parse_tle(name: &str, line1: &str, line2: &str) -> (r: Result<TleRecord, TleError>)
    ensures
        parse_tle_rel(name@, line1@, line2@, r),
{
    reveal(parse_tle_rel);
    validate_line(line1, 1)?;
    validate_line(line2, 2)?;
    proof {
        lemma_valid_line_ascii(line1, 1);
        lemma_valid_line_ascii(line2, 2);
    }
    let f1 = trim_str(line1.substring_ascii(2, 7));
    let norad_l1 = parse_u32(&f1, "line1 norad")?;
    let f2 = trim_str(line2.substring_ascii(2, 7));
    let norad_l2 = parse_u32(&f2, "line2 norad")?;
    assert(norad_parse(line1@) == Ok::<int, IntErrorKind>(norad_l1 as int));
    assert(norad_parse(line2@) == Ok::<int, IntErrorKind>(norad_l2 as int));
    assert(line_valid(line1@, 1));
    assert(line_valid(line2@, 2));
    if norad_l1 != norad_l2 {
        return Err(TleError::NoradIdMismatch);
    }
    let epoch_text = line1.substring_ascii(18, 32);
    let year_text = crate::text::chars_of(epoch_text.substring_ascii(0, 2));
    proof {
        broadcast use is_ascii_spec_bytes;

        assert(year_text@ =~= epoch_field(line1@).take(2));
    }
    let year_two = match parse_int(&year_text, i32::MIN as i64, i32::MAX as i64, true) {
        Ok(y) => y,
        Err(k) => {
            let mut m = owned("year: ");
            let t = crate::text::chars_of(int_error_text(k).as_str());
            push_all(&mut m, &t);
            assert(epoch_year_parse(line1@) == Err::<int, IntErrorKind>(k));
            assert(m@ == "year: "@ + int_error_message(k));
            return Err(TleError::InvalidEpoch(m));
        },
    };
    proof {
        assert(-9 <= year_two <= 99) by {
            lemma_two_char_int_range(year_text@);
        }
    }
    let epoch_year: i32 = if year_two < 57 {
        (2000 + year_two) as i32
    } else {
        (1900 + year_two) as i32
    };
    let day = trim_str(epoch_text.substring_ascii(2, 14));
    proof {
        assert(epoch_text@.subrange(2, 14) =~= epoch_field(line1@).skip(2));
    }
    let name_chars = trim_str(name);
    Ok(
        TleRecord {
            norad_id: norad_l1,
            name: string_of(&name_chars),
            line1: owned(line1),
            line2: owned(line2),
            epoch_year,
            epoch_day: string_of(&day),
        },
    )
}

proof fn lemma_two_char_int_range(s: Seq<char>)
    requires
        s.len() == 2,
        parse_int_spec(s, i32::MIN as int, i32::MAX as int, true) is Ok,
    ensures
        -9 <= parse_int_spec(s, i32::MIN as int, i32::MAX as int, true)->Ok_0 <= 99,
{
    reveal_with_fuel(scan_digits, 3);
    if s[0] == '-' {
        assert(crate::text::is_digit(s[1]));
    } else if s[0] == '+' {
        assert(crate::text::is_digit(s[1]));
    } else {
        assert(crate::text::is_digit(s[0]));
        assert(crate::text::is_digit(s[1]));
    }
}

/// `l` without all of its trailing carriage returns.
pub open spec fn strip_cr(l: Seq<char>) -> Seq<char>
    decreases l.len(),
{
    if l.len() > 0 && l.last() == '\r' {
        strip_cr(l.drop_last())
    } else {
        l
    }
}

/// `s` split at every line feed (as `str::split('\n')`).
pub open spec fn split_lf(s: Seq<char>) -> Seq<Seq<char>>
    decreases s.len(),
{
    if s.len() == 0 {
        seq![Seq::<char>::empty()]
    } else if s.last() == '\n' {
        split_lf(s.drop_last()).push(Seq::<char>::empty())
    } else {
        let p = split_lf(s.drop_last());
        p.update(p.len() - 1, p.last().push(s.last()))
    }
}

/// The pieces with their trailing carriage returns removed, dropping the ones
/// that become empty.
pub open spec fn clean_lines(parts: Seq<Seq<char>>) -> Seq<Seq<char>>
    decreases parts.len(),
{
    if parts.len() == 0 {
        Seq::<Seq<char>>::empty()
    } else {
        let rest = clean_lines(parts.drop_last());
        let l = strip_cr(parts.last());
        if l.len() == 0 {
            rest
        } else {
            rest.push(l)
        }
    }
}

/// The non-empty lines of a text, without line terminators.
pub open spec fn text_lines(s: Seq<char>) -> Seq<Seq<char>> {
    clean_lines(split_lf(s))
}

/// Whether `l` starts with `prefix`.
pub open spec fn starts_with(l: Seq<char>, prefix: Seq<char>) -> bool {
    prefix.len() <= l.len() && l.take(prefix.len() as int) == prefix
}

/// Start indices of the element sets found scanning `lines` from `i`: a name
/// line followed by lines starting with `1 ` and `2 ` forms a set and the
/// scan resumes after it; otherwise the scan advances by one line.
pub open spec fn set_starts(lines: Seq<Seq<char>>, i: int) -> Seq<int>
    decreases lines.len() - i,
{
    if i < 0 || i + 2 >= lines.len() {
        Seq::<int>::empty()
    } else if starts_with(lines[i + 1], seq!['1', ' ']) && starts_with(lines[i + 2], seq!['2', ' ']) {
        seq![i] + set_starts(lines, i + 3)
    } else {
        set_starts(lines, i + 1)
    }
}

proof fn lemma_strip_cr_prefix(l: Seq<char>)
    ensures
        strip_cr(l).len() <= l.len(),
        strip_cr(l) =~= l.take(strip_cr(l).len() as int),
    decreases l.len(),
{
    if l.len() > 0 && l.last() == '\r' {
        lemma_strip_cr_prefix(l.drop_last());
    }
}

fn strip_cr_vec(v: Vec<char>) -> (r: Vec<char>)
    ensures
        r@ == strip_cr(v@),
{
    let mut r = v;
    while r.len() > 0 && r[r.len() - 1] == '\r'
        invariant
            strip_cr(r@) == strip_cr(v@),
        decreases r.len(),
    {
        let ghost before = r@;
        r.pop();
        assert(r@ =~= before.drop_last());
    }
    r
}

proof fn lemma_split_lf_nonempty(s: Seq<char>)
    ensures
        split_lf(s).len() >= 1,
    decreases s.len(),
{
    if s.len() > 0 {
        lemma_split_lf_nonempty(s.drop_last());
    }
}

/// Views of a vector of character vectors.
pub open spec fn views(v: Seq<Vec<char>>) -> Seq<Seq<char>> {
    v.map_values(|x: Vec<char>| x@)
}

/// The non-empty, carriage-return-stripped lines of `text`.
pub fn lines_of(text: &str) -> (r: Vec<Vec<char>>)
    ensures
        views(r@) == text_lines(text@),
{
    let chars = crate::text::chars_of(text);
    let mut out: Vec<Vec<char>> = Vec::new();
    let mut cur: Vec<char> = Vec::new();
    proof {
        assert(chars@.take(0) =~= Seq::<char>::empty());
        assert(views(out@) =~= clean_lines(split_lf(chars@.take(0)).drop_last()));
    }
    for i in 0..chars.len()
        invariant
            chars@ == text@,
            split_lf(chars@.take(i as int)).len() >= 1,
            views(out@) == clean_lines(split_lf(chars@.take(i as int)).drop_last()),
            cur@ == split_lf(chars@.take(i as int)).last(),
    {
        let c = chars[i];
        let ghost prev = chars@.take(i as int);
        assert(chars@.take(i + 1).drop_last() =~= prev);
        if c == '\n' {
            let line = strip_cr_vec(cur);
            let ghost parts = split_lf(prev);
            proof {
                assert(split_lf(chars@.take(i + 1)) == parts.push(Seq::<char>::empty()));
                assert(parts.push(Seq::<char>::empty()).drop_last() =~= parts);
                assert(parts.drop_last().push(parts.last()) =~= parts);
            }
            if line.len() > 0 {
                out.push(line);
                proof {
                    assert(views(out@) =~= views(out@).drop_last().push(line@));
                }
            }
            cur = Vec::new();
            proof {
                lemma_split_lf_nonempty(chars@.take(i + 1));
            }
        } else {
            cur.push(c);
            proof {
                let parts = split_lf(prev);
                let np = parts.update(parts.len() - 1, parts.last().push(c));
                assert(split_lf(chars@.take(i + 1)) == np);
                assert(np.drop_last() =~= parts.drop_last());
            }
        }
    }
    let line = strip_cr_vec(cur);
    proof {
        let parts = split_lf(chars@.take(chars.len() as int));
        assert(chars@.take(chars.len() as int) =~= chars@);
        assert(parts.drop_last().push(parts.last()) =~= parts);
    }
    if line.len() > 0 {
        out.push(line);
        proof {
            assert(views(out@) =~= views(out@).drop_last().push(line@));
        }
    }
    out
}

fn starts_with_digit_space(l: &Vec<char>, d: char) -> (r: bool)
    ensures
        r == starts_with(l@, seq![d, ' ']),
{
    let r = l.len() >= 2 && l[0] == d && l[1] == ' ';
    proof {
        if l@.len() >= 2 {
            if r {
                assert(l@.take(2) =~= seq![d, ' ']);
            } else {
                assert(l@.take(2)[0] == l@[0]);
                assert(l@.take(2)[1] == l@[1]);
            }
        }
    }
    r
}

/// The results of parsing a three-line-set text: one result per element set
/// found, in order, each as [`parse_tle_rel`] decides.
pub open spec fn three_line_set_rel(text: Seq<char>, r: Seq<Result<TleRecord, TleError>>) -> bool {
    let lines = text_lines(text);
    let starts = set_starts(lines, 0);
    &&& r.len() == starts.len()
    &&& forall|k: int|
        0 <= k < starts.len() ==> parse_tle_rel(
            lines[starts[k]],
            lines[starts[k] + 1],
            lines[starts[k] + 2],
            #[trigger] r[k],
        )
}

/// Parses every element set of a three-line-set text (name line, line 1,
/// line 2), skipping lines that do not start a set.
pub fn parse_three_line_set(text: &str) -> (r: Vec<Result<TleRecord, TleError>>)
    ensures
        three_line_set_rel(text@, r@),
{
    let lines = lines_of(text);
    let ghost ls = text_lines(text@);
    let mut out: Vec<Result<TleRecord, TleError>> = Vec::new();
    let ghost mut found: Seq<int> = Seq::empty();
    let mut i: usize = 0;
    while lines.len() >= 3 && i < lines.len() - 2
        invariant
            views(lines@) == ls,
            i <= lines.len(),
            set_starts(ls, 0) == found + set_starts(ls, i as int),
            out@.len() == found.len(),
            forall|k: int|
                #![trigger found[k]]
                0 <= k < found.len() ==> 0 <= found[k] && found[k] + 2 < ls.len() && parse_tle_rel(
                    ls[found[k]],
                    ls[found[k] + 1],
                    ls[found[k] + 2],
                    out@[k],
                ),
        decreases lines.len() - i,
    {
        assert(ls[i as int] == lines@[i as int]@);
        assert(ls[i + 1] == lines@[i + 1]@);
        assert(ls[i + 2] == lines@[i + 2]@);
        if starts_with_digit_space(&lines[i + 1], '1') && starts_with_digit_space(
            &lines[i + 2],
            '2',
        ) {
            let l0 = string_of(&lines[i]);
            let l1 = string_of(&lines[i + 1]);
            let l2 = string_of(&lines[i + 2]);
            let rec = parse_tle(l0.as_str(), l1.as_str(), l2.as_str());
            let ghost old_out = out@;
            out.push(rec);
            proof {
                assert(parse_tle_rel(ls[i as int], ls[i + 1], ls[i + 2], out@[found.len() as int]));
                assert forall|k: int| 0 <= k < found.len() implies #[trigger] out@[k] == old_out[k] by {
                }
                assert(set_starts(ls, i as int) == seq![i as int] + set_starts(ls, i + 3));
                assert(found + (seq![i as int] + set_starts(ls, i + 3)) =~= found.push(i as int)
                    + set_starts(ls, i + 3));
                let old_found = found;
                found = found.push(i as int);
                assert(ls.len() == lines@.len());
                assert forall|k: int| 0 <= k < found.len() implies 0 <= #[trigger] found[k]
                    && found[k] + 2 < ls.len() && parse_tle_rel(
                    ls[found[k]],
                    ls[found[k] + 1],
                    ls[found[k] + 2],
                    out@[k],
                ) by {
                    if k < old_found.len() {
                        assert(found[k] == old_found[k]);
                        assert(out@[k] == old_out[k]);
                    }
                }
            }
            i = i + 3;
        } else {
            i = i + 1;
        }
    }
    proof {
        assert(views(lines@).len() == lines@.len());
        assert(set_starts(ls, i as int) =~= Seq::<int>::empty());
        assert(found + Seq::<int>::empty() =~= found);
        assert forall|k: int| 0 <= k < found.len() implies parse_tle_rel(
            ls[found[k]],
            ls[found[k] + 1],
            ls[found[k] + 2],
            #[trigger] out@[k],
        ) by {
            assert(found[k] == found[k]);
        }
    }
    out
}


/// Epoch years pivot at 57: a parsed element set whose epoch year columns
/// hold the digits `yy` has epoch year `2000 + yy` for `yy` up to 56 and
/// `1900 + yy` from 57 on.
pub proof fn epoch_year_pivots_at_57(
    name: Seq<char>,
    l1: Seq<char>,
    l2: Seq<char>,
    r: Result<TleRecord, TleError>,
)
    requires
        parse_tle_rel(name, l1, l2, r),
        r is Ok,
        '0' <= l1[18] <= '9',
        '0' <= l1[19] <= '9',
    ensures
        ({
            let yy = (l1[18] as int - 48) * 10 + (l1[19] as int - 48);
            r->Ok_0.epoch_year == if yy <= 56 {
                2000 + yy
            } else {
                1900 + yy
            }
        }),
{
    reveal(parse_tle_rel);
    assert(line_valid(l1, 1));
    vstd::utf8::is_ascii_chars_encode_utf8(l1);
    let ds = epoch_field(l1).take(2);
    assert(ds[0] == l1[18] && ds[1] == l1[19] && ds.len() == 2);
    let d1 = l1[18] as int - 48;
    let d2 = l1[19] as int - 48;
    reveal_with_fuel(scan_digits, 3);
    assert(scan_digits(ds, 2, d1 * 10 + d2, i32::MIN as int, i32::MAX as int, false) == Ok::<
        int,
        IntErrorKind,
    >(d1 * 10 + d2));
    assert(scan_digits(ds, 1, d1, i32::MIN as int, i32::MAX as int, false) == Ok::<
        int,
        IntErrorKind,
    >(d1 * 10 + d2));
    assert(epoch_year_parse(l1) == Ok::<int, IntErrorKind>(d1 * 10 + d2));
}

} // verus!
