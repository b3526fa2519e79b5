use vstd::prelude::*;
use crate::value::IntegerBounds;

verus! {

pub open spec fn is_digit(c: char) -> bool {
    '0' <= c && c <= '9'
}

pub open spec fn digit_value(c: char) -> int {
    (c as int) - ('0' as int)
}

pub open spec fn digit_char(d: int) -> char {
    if d == 0 { '0' }
    else if d == 1 { '1' }
    else if d == 2 { '2' }
    else if d == 3 { '3' }
    else if d == 4 { '4' }
    else if d == 5 { '5' }
    else if d == 6 { '6' }
    else if d == 7 { '7' }
    else if d == 8 { '8' }
    else { '9' }
}

/// The decimal digits of `n`, most significant first, without leading zeros.
pub open spec fn nat_text(n: nat) -> Seq<char>
    decreases n,
{
    if n < 10 {
        seq![digit_char(n as int)]
    } else {
        nat_text(n / 10).push(digit_char((n % 10) as int))
    }
}

/// The decimal text of `i`, with a leading `-` when it is negative.
pub open spec fn int_text(i: int) -> Seq<char> {
    if i < 0 {
        seq!['-'] + nat_text((-i) as nat)
    } else {
        nat_text(i as nat)
    }
}

/// The composite text of a bounds record: its four fields in decimal, in the
/// order position x, position y, size x, size y, each pair joined by `-`.
pub open spec fn bounds_text(b: IntegerBounds) -> Seq<char> {
    int_text(b.position.0 as int) + seq!['-'] + int_text(b.position.1 as int) + seq!['-']
        + nat_text(b.size.0 as nat) + seq!['-'] + nat_text(b.size.1 as nat)
}

/// The value of a run of decimal digits.
pub open spec fn digits_value(d: Seq<char>) -> int
    decreases d.len(),
{
    if d.len() == 0 {
        0
    } else {
        10 * digits_value(d.drop_last()) + digit_value(d.last())
    }
}

/// The first index at or after `i` that does not hold a digit.
pub open spec fn run_end(s: Seq<char>, i: int) -> int
    decreases s.len() - i,
{
    if i < 0 || i >= s.len() || !is_digit(s[i]) {
        i
    } else {
        run_end(s, i + 1)
    }
}

/// The number that starts at `i`, with the index just past it: one or more
/// digits, after a `-` sign where `signed` allows one.
pub open spec fn field_at(s: Seq<char>, i: int, signed: bool) -> Option<(int, int)> {
    let neg = signed && 0 <= i < s.len() && s[i] == '-';
    let start = if neg { i + 1 } else { i };
    let end = run_end(s, start);
    if end == start {
        None
    } else {
        let m = digits_value(s.subrange(start, end));
        Some((if neg { -m } else { m }, end))
    }
}

/// The number that follows a `-` separator at `i`.
pub open spec fn field_after_separator(s: Seq<char>, i: int, signed: bool) -> Option<(int, int)> {
    if 0 <= i < s.len() && s[i] == '-' {
        field_at(s, i + 1, signed)
    } else {
        None
    }
}

/// The four numbers of a composite bounds text, with the index just past each.
pub open spec fn bounds_fields(s: Seq<char>) -> Option<(int, int, int, int, int)> {
    match field_at(s, 0, true) {
        None => None,
        Some((x, e1)) => match field_after_separator(s, e1, true) {
            None => None,
            Some((y, e2)) => match field_after_separator(s, e2, false) {
                None => None,
                Some((w, e3)) => match field_after_separator(s, e3, false) {
                    None => None,
                    Some((h, e4)) => Some((x, y, w, h, e4)),
                },
            },
        },
    }
}

/// The bounds record that a composite text denotes: exactly four fields that
/// cover the whole text, positions within `i32` and sizes within `u32`.
pub open spec fn parse_bounds_text(s: Seq<char>) -> Option<IntegerBounds> {
    match bounds_fields(s) {
        Some((x, y, w, h, end)) => if end == s.len() && i32::MIN <= x <= i32::MAX
            && i32::MIN <= y <= i32::MAX && w <= u32::MAX && h <= u32::MAX {
            Some(IntegerBounds { position: (x as i32, y as i32), size: (w as u32, h as u32) })
        } else {
            None
        },
        None => None,
    }
}

fn digit_str(d: u64) -> (r: &'static str)
    requires
        d < 10,
    ensures
        r@ == seq![digit_char(d as int)],
{
    proof {
        reveal_strlit("0");
        reveal_strlit("1");
        reveal_strlit("2");
        reveal_strlit("3");
        reveal_strlit("4");
        reveal_strlit("5");
        reveal_strlit("6");
        reveal_strlit("7");
        reveal_strlit("8");
        reveal_strlit("9");
    }
    if d == 0 { "0" }
    else if d == 1 { "1" }
    else if d == 2 { "2" }
    else if d == 3 { "3" }
    else if d == 4 { "4" }
    else if d == 5 { "5" }
    else if d == 6 { "6" }
    else if d == 7 { "7" }
    else if d == 8 { "8" }
    else { "9" }
}

/// Appends the decimal digits of `n`.
pub fn append_nat(out: &mut String, n: u64)
    ensures
        final(out)@ == old(out)@ + nat_text(n as nat),
    decreases n,
{
    if n >= 10 {
        append_nat(out, n / 10);
    }
    out.append(digit_str(n % 10));
    proof {
        if n >= 10 {
            assert(nat_text(n as nat) == nat_text((n / 10) as nat).push(digit_char((n % 10) as int)));
        }
    }
    assert(final(out)@ =~= old(out)@ + nat_text(n as nat));
}

/// Appends the decimal text of `i`, signed.
pub fn append_int(out: &mut String, i: i64)
    ensures
        final(out)@ == old(out)@ + int_text(i as int),
{
    if i < 0 {
        proof { reveal_strlit("-"); }
        out.append("-");
        let m: i128 = -(i as i128);
        append_nat(out, m as u64);
        assert(final(out)@ =~= old(out)@ + int_text(i as int));
    } else {
        append_nat(out, i as u64);
    }
}

/// The composite text of a bounds record (see `bounds_text`).
pub fn encode_bounds(b: &IntegerBounds) -> (r: String)
    ensures
        r@ == bounds_text(*b),
{
    proof { reveal_strlit("-"); }
    let mut out = String::new();
    append_int(&mut out, b.position.0 as i64);
    out.append("-");
    append_int(&mut out, b.position.1 as i64);
    out.append("-");
    append_nat(&mut out, b.size.0 as u64);
    out.append("-");
    append_nat(&mut out, b.size.1 as u64);
    assert(out@ =~= bounds_text(*b));
    out
}

/// Above this magnitude a field fits neither `i32` nor `u32`.
pub const FIELD_LIMIT: u64 = 0x1_0000_0000;

/// A field value as scanned: exact up to `FIELD_LIMIT` in magnitude, and beyond
/// it only its side.
pub open spec fn scanned_as(val: i64, v: int) -> bool {
    &&& (-(FIELD_LIMIT as int) <= v <= FIELD_LIMIT as int ==> val == v)
    &&& (v > FIELD_LIMIT as int ==> val > FIELD_LIMIT as int)
    &&& (v < -(FIELD_LIMIT as int) ==> val < -(FIELD_LIMIT as int))
}

fn scan_field(s: &str, len: usize, i: usize, signed: bool) -> (r: Option<(i64, usize)>)
    requires
        len == s@.len(),
        i <= len,
    ensures
        match field_at(s@, i as int, signed) {
            None => r is None,
            Some((v, e)) => r matches Some((val, end)) && end == e && scanned_as(val, v) && (
            !signed ==> v >= 0),
        },
        r matches Some((_, end)) ==> i < end <= len,
{
    let neg = signed && i < len && s.get_char(i) == '-';
    let start: usize = if neg { i + 1 } else { i };
    let mut j: usize = start;
    let mut acc: u64 = 0;
    while j < len && '0' <= s.get_char(j) && s.get_char(j) <= '9'
        invariant
            len == s@.len(),
            start <= j <= len,
            run_end(s@, start as int) == run_end(s@, j as int),
            digits_value(s@.subrange(start as int, j as int)) >= 0,
            digits_value(s@.subrange(start as int, j as int)) <= FIELD_LIMIT ==> acc
                == digits_value(s@.subrange(start as int, j as int)),
            digits_value(s@.subrange(start as int, j as int)) > FIELD_LIMIT ==> acc
                == FIELD_LIMIT + 1,
        decreases len - j,
    {
        let c = s.get_char(j);
        let d: u64 = (c as u32 - '0' as u32) as u64;
        proof {
            let sub = s@.subrange(start as int, j as int);
            let sub1 = s@.subrange(start as int, j + 1);
            assert(sub1.drop_last() =~= sub);
            assert(sub1.last() == c);
            assert(digits_value(sub1) == 10 * digits_value(sub) + d);
        }
        if acc <= FIELD_LIMIT {
            let next = acc * 10 + d;
            if next > FIELD_LIMIT {
                acc = FIELD_LIMIT + 1;
            } else {
                acc = next;
            }
        }
        j = j + 1;
    }
    if j == start {
        None
    } else {
        let val: i64 = if neg { -(acc as i64) } else { acc as i64 };
        Some((val, j))
    }
}

fn scan_after_separator(s: &str, len: usize, i: usize, signed: bool) -> (r: Option<(i64, usize)>)
    requires
        len == s@.len(),
        i <= len,
    ensures
        match field_after_separator(s@, i as int, signed) {
            None => r is None,
            Some((v, e)) => r matches Some((val, end)) && end == e && scanned_as(val, v) && (
            !signed ==> v >= 0),
        },
        r matches Some((_, end)) ==> i < end <= len,
{
    if i < len && s.get_char(i) == '-' {
        scan_field(s, len, i + 1, signed)
    } else {
        None
    }
}

/// Reads a composite bounds text (see `parse_bounds_text`).
pub fn decode_bounds(s: &str) -> (r: Option<IntegerBounds>)
    ensures
        r == parse_bounds_text(s@),
{
    let len = s.unicode_len();
    let (x, e1) = match scan_field(s, len, 0, true) {
        Some(f) => f,
        None => return None,
    };
    let (y, e2) = match scan_after_separator(s, len, e1, true) {
        Some(f) => f,
        None => return None,
    };
    let (w, e3) = match scan_after_separator(s, len, e2, false) {
        Some(f) => f,
        None => return None,
    };
    let (h, e4) = match scan_after_separator(s, len, e3, false) {
        Some(f) => f,
        None => return None,
    };
    if e4 == len && -2147483648 <= x && x <= 2147483647 && -2147483648 <= y && y <= 2147483647
        && 0 <= w && w <= 4294967295 && 0 <= h && h <= 4294967295 {
        Some(IntegerBounds { position: (x as i32, y as i32), size: (w as u32, h as u32) })
    } else {
        None
    }
}

proof fn lemma_nat_text(n: nat)
    ensures
        nat_text(n).len() >= 1,
        forall|k: int| 0 <= k < nat_text(n).len() ==> is_digit(#[trigger] nat_text(n)[k]),
        digits_value(nat_text(n)) == n,
    decreases n,
{
    if n < 10 {
        let t = nat_text(n);
        assert(t.drop_last() =~= Seq::<char>::empty());
        assert(digits_value(Seq::<char>::empty()) == 0);
    } else {
        lemma_nat_text(n / 10);
        let t = nat_text(n);
        assert(t.drop_last() =~= nat_text(n / 10));
    }
}

proof fn lemma_run_end(s: Seq<char>, i: int, len: int)
    requires
        0 <= i,
        0 <= len,
        i + len <= s.len(),
        forall|k: int| i <= k < i + len ==> is_digit(#[trigger] s[k]),
        i + len == s.len() || !is_digit(s[i + len]),
    ensures
        run_end(s, i) == i + len,
    decreases len,
{
    if len > 0 {
        lemma_run_end(s, i + 1, len - 1);
    }
}

proof fn lemma_field_at(s: Seq<char>, i: int, v: int, signed: bool)
    requires
        0 <= i,
        signed || v >= 0,
        i + int_text(v).len() <= s.len(),
        s.subrange(i, i + int_text(v).len()) == int_text(v),
        i + int_text(v).len() == s.len() || s[i + int_text(v).len()] == '-',
    ensures
        field_at(s, i, signed) == Some((v, i + int_text(v).len())),
{
    let t = int_text(v);
    let end = i + t.len();
    if v < 0 {
        let m = (-v) as nat;
        lemma_nat_text(m);
        assert(t[0] == '-');
        assert(s[i] == s.subrange(i, end)[0]);
        assert forall|k: int| i + 1 <= k < end implies is_digit(#[trigger] s[k]) by {
            assert(s[k] == s.subrange(i, end)[k - i]);
            assert(t[k - i] == nat_text(m)[k - i - 1]);
        }
        lemma_run_end(s, i + 1, end - (i + 1));
        assert forall|k: int| 0 <= k < end - (i + 1) implies #[trigger] s.subrange(i + 1, end)[k]
            == nat_text(m)[k] by {
            assert(s.subrange(i, end)[k + 1] == t[k + 1]);
        }
        assert(s.subrange(i + 1, end) =~= nat_text(m));
    } else {
        lemma_nat_text(v as nat);
        assert(s[i] == s.subrange(i, end)[0]);
        assert(is_digit(t[0]));
        assert forall|k: int| i <= k < end implies is_digit(#[trigger] s[k]) by {
            assert(s[k] == s.subrange(i, end)[k - i]);
        }
        lemma_run_end(s, i, end - i);
        assert(s.subrange(i, end) =~= nat_text(v as nat));
    }
}

/// Reading the composite text of a bounds record gives that record back.
pub proof fn lemma_bounds_text_round_trip(b: IntegerBounds)
    ensures
        parse_bounds_text(bounds_text(b)) == Some(b),
{
    let x = b.position.0 as int;
    let y = b.position.1 as int;
    let w = b.size.0 as int;
    let h = b.size.1 as int;
    let ta = int_text(x);
    let tb = int_text(y);
    let tc = nat_text(w as nat);
    let td = nat_text(h as nat);
    assert(int_text(w) == tc);
    assert(int_text(h) == td);
    let s = bounds_text(b);
    let a = ta.len() as int;
    let bb = a + 1 + tb.len();
    let c = bb + 1 + tc.len();
    let d = c + 1 + td.len();
    assert(s.len() == d);
    assert(s.subrange(0, a) =~= ta);
    assert(s[a] == '-');
    assert(s.subrange(a + 1, bb) =~= tb);
    assert(s[bb] == '-');
    assert(s.subrange(bb + 1, c) =~= tc);
    assert(s[c] == '-');
    assert(s.subrange(c + 1, d) =~= td);
    lemma_field_at(s, 0, x, true);
    lemma_field_at(s, a + 1, y, true);
    lemma_field_at(s, bb + 1, w, false);
    lemma_field_at(s, c + 1, h, false);
}

} // verus!
