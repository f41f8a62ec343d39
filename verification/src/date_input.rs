//! Parsing of the value of an HTML date input, `YYYY-MM-DD`.
use vstd::prelude::*;
use vstd::string::StringSliceAdditionalSpecFns;

verus! {

/// ASCII `-`.
pub const DASH: u8 = 45;

/// ASCII `+`.
pub const PLUS: u8 = 43;

/// The fields of `s` between dashes, as `str::split('-')` yields them: an
/// empty string has one empty field, and every dash starts a new field.
pub open spec fn split_dash(s: Seq<u8>) -> Seq<Seq<u8>>
    decreases s.len(),
{
    if s.len() == 0 {
        seq![Seq::empty()]
    } else {
        let fields = split_dash(s.drop_last());
        if s.last() == DASH {
            fields.push(Seq::empty())
        } else {
            fields.update(fields.len() - 1, fields.last().push(s.last()))
        }
    }
}

pub open spec fn is_ascii_digit(b: u8) -> bool {
    48 <= b <= 57
}

/// `s` is a non-empty string of ASCII digits.
pub open spec fn is_digits(s: Seq<u8>) -> bool {
    s.len() > 0 && forall|i: int| #![trigger s[i]] 0 <= i < s.len() ==> is_ascii_digit(s[i])
}

/// The decimal value of a string of ASCII digits.
pub open spec fn decimal_value(s: Seq<u8>) -> int
    decreases s.len(),
{
    if s.len() == 0 {
        0
    } else {
        10 * decimal_value(s.drop_last()) + (s.last() - 48)
    }
}

/// What `str::parse` gives for an integer type whose largest value is `max`,
/// on a string without a dash: an optional `+` followed by at least one
/// digit, with a value that fits.
pub open spec fn parse_field(s: Seq<u8>, max: int) -> Option<int> {
    let digits = if s.len() > 0 && s[0] == PLUS { s.drop_first() } else { s };
    if is_digits(digits) && decimal_value(digits) <= max {
        Some(decimal_value(digits))
    } else {
        None
    }
}

/// The date that the value `s` of a date input denotes: the first three
/// dash-separated fields read as year (`i32`), month and day (`u8`); further
/// fields are ignored and the month and day are not range-checked.
pub open spec fn date_of(s: Seq<u8>) -> Option<(int, int, int)> {
    let fields = split_dash(s);
    if fields.len() < 3 {
        None
    } else {
        match (parse_field(fields[0], i32::MAX as int), parse_field(fields[1], 255), parse_field(fields[2], 255)) {
            (Some(y), Some(m), Some(d)) => Some((y, m, d)),
            _ => None,
        }
    }
}

proof fn lemma_split_dash_nonempty(s: Seq<u8>)
    ensures
        split_dash(s).len() >= 1,
        forall|k: int| #![trigger split_dash(s)[k]] 0 <= k < split_dash(s).len() ==> !split_dash(s)[k].contains(DASH),
    decreases s.len(),
{
    if s.len() > 0 {
        lemma_split_dash_nonempty(s.drop_last());
        let f = split_dash(s.drop_last());
        if s.last() != DASH {
            let last = f.last().push(s.last());
            assert forall|b: u8| #[trigger] last.contains(b) implies b != DASH by {
                if b == DASH {
                    let j = choose|j: int| 0 <= j < last.len() && last[j] == b;
                    if j < f.last().len() {
                        assert(f.last()[j] == DASH);
                        assert(f[f.len() - 1].contains(DASH));
                    }
                }
            }
        }
    }
}

proof fn lemma_decimal_prefix(s: Seq<u8>, k: int)
    requires
        0 <= k <= s.len(),
        forall|i: int| #![trigger s[i]] 0 <= i < s.len() ==> is_ascii_digit(s[i]),
    ensures
        decimal_value(s.take(k)) <= decimal_value(s),
        0 <= decimal_value(s.take(k)),
    decreases s.len() - k,
{
    if k < s.len() {
        lemma_decimal_prefix(s, k + 1);
        assert(s.take(k + 1).drop_last() =~= s.take(k));
        assert(decimal_value(s.take(k + 1)) == 10 * decimal_value(s.take(k)) + (s[k] - 48));
        lemma_decimal_nonneg(s.take(k));
    } else {
        assert(s.take(k) =~= s);
        lemma_decimal_nonneg(s);
    }
}

proof fn lemma_decimal_nonneg(s: Seq<u8>)
    requires
        forall|i: int| #![trigger s[i]] 0 <= i < s.len() ==> is_ascii_digit(s[i]),
    ensures
        0 <= decimal_value(s),
    decreases s.len(),
{
    if s.len() > 0 {
        lemma_decimal_nonneg(s.drop_last());
    }
}

/// Parse `bytes[start..end]` as an optional `+` and decimal digits whose value
/// is at most `max`.
fn parse_number(bytes: &[u8], start: usize, end: usize, max: u32) -> (r: Option<u32>)
    requires
        start <= end <= bytes@.len(),
    ensures
        parse_field(bytes@.subrange(start as int, end as int), max as int) is Some <==> r is Some,
        r matches Some(x) ==> parse_field(bytes@.subrange(start as int, end as int), max as int) == Some(x as int),
{
    let ghost s = bytes@.subrange(start as int, end as int);
    let mut i = start;
    if i < end && bytes[i] == PLUS {
        i += 1;
    }
    let ghost digits = bytes@.subrange(i as int, end as int);
    proof {
        if start < end && bytes@[start as int] == PLUS {
            assert(digits =~= s.drop_first());
        } else {
            assert(digits =~= s);
        }
    }
    if i == end {
        return None;
    }
    let mut acc: u64 = 0;
    let first = i;
    while i < end
        invariant
            first <= i <= end <= bytes@.len(),
            digits == bytes@.subrange(first as int, end as int),
            s == bytes@.subrange(start as int, end as int),
            digits == (if s.len() > 0 && s[0] == PLUS { s.drop_first() } else { s }),
            forall|j: int| #![trigger digits[j]] 0 <= j < i - first ==> is_ascii_digit(digits[j]),
            acc == decimal_value(digits.take(i - first)),
            acc <= max,
        decreases end - i,
    {
        let b = bytes[i];
        assert(b == digits[i - first]);
        if b < 48 || b > 57 {
            assert(!is_ascii_digit(digits[i - first]));
            assert(!is_digits(digits));
            assert(digits == (if s.len() > 0 && s[0] == PLUS { s.drop_first() } else { s }));
            assert(parse_field(s, max as int) is None);
            return None;
        }
        assert(digits.take(i - first + 1).drop_last() =~= digits.take(i - first));
        assert(digits.take(i - first + 1).last() == b);
        acc = acc * 10 + (b - 48) as u64;
        assert(acc == decimal_value(digits.take(i - first + 1)));
        if acc > max as u64 {
            proof {
                if is_digits(digits) {
                    lemma_decimal_prefix(digits, i - first + 1);
                }
            }
            return None;
        }
        i += 1;
    }
    assert(digits.take(i - first) =~= digits);
    Some(acc as u32)
}

/// Start and end of every dash-separated field of `bytes`, in order.
fn field_bounds(bytes: &[u8]) -> (bounds: (Vec<usize>, Vec<usize>))
    ensures
        bounds.0.len() == bounds.1.len(),
        bounds.0.len() == split_dash(bytes@).len(),
        forall|k: int|
            #![trigger bounds.0[k]]
            0 <= k < bounds.0.len() ==> bounds.0[k] <= bounds.1[k] <= bytes@.len() && split_dash(bytes@)[k]
                == bytes@.subrange(bounds.0[k] as int, bounds.1[k] as int),
{
    let n = bytes.len();
    let ghost s = bytes@;
    let mut starts: Vec<usize> = Vec::new();
    let mut ends: Vec<usize> = Vec::new();
    let mut field_start: usize = 0;
    let mut i: usize = 0;
    while i < n
        invariant
            n == bytes@.len(),
            s == bytes@,
            field_start <= i <= n,
            starts.len() == ends.len(),
            split_dash(s.take(i as int)).len() == starts.len() + 1,
            split_dash(s.take(i as int)).last() == s.subrange(field_start as int, i as int),
            forall|k: int|
                #![trigger starts[k]]
                0 <= k < starts.len() ==> starts[k] <= ends[k] <= i && split_dash(s.take(i as int))[k] == s.subrange(
                    starts[k] as int,
                    ends[k] as int,
                ),
        decreases n - i,
    {
        let ghost prev = split_dash(s.take(i as int));
        let ghost old_starts = starts@;
        let ghost old_ends = ends@;
        assert(s.take(i + 1).drop_last() =~= s.take(i as int));
        assert(s.take(i + 1).last() == s[i as int]);
        let ghost cur = split_dash(s.take(i + 1));
        if bytes[i] == DASH {
            starts.push(field_start);
            ends.push(i);
            field_start = i + 1;
            proof {
                assert(s.subrange((i + 1) as int, (i + 1) as int) =~= Seq::<u8>::empty());
                assert(cur == prev.push(Seq::empty()));
                assert forall|k: int| 0 <= k < starts.len() implies starts[k] <= ends[k] <= i + 1 && #[trigger] cur[k]
                    == s.subrange(starts[k] as int, ends[k] as int) by {
                    if k < old_starts.len() {
                        assert(starts[k] == old_starts[k]);
                        assert(ends[k] == old_ends[k]);
                    }
                }
            }
        } else {
            proof {
                assert(s.subrange(field_start as int, (i + 1) as int) =~= s.subrange(field_start as int, i as int).push(
                    s[i as int],
                ));
                assert(cur == prev.update(prev.len() - 1, prev.last().push(s[i as int])));
                assert(starts.len() == prev.len() - 1);
                assert forall|k: int| 0 <= k < starts.len() implies starts[k] <= ends[k] <= i + 1 && #[trigger] cur[k]
                    == s.subrange(starts[k] as int, ends[k] as int) by {
                    assert(0 <= k < prev.len() - 1);
                    assert(cur[k] == prev[k]);
                    assert(starts[k] == old_starts[k]);
                    assert(prev[k] == s.subrange(starts[k] as int, ends[k] as int));
                }
            }
        }
        i += 1;
        proof {
            assert(s.take(i as int) == s.take(i - 1 + 1));
            assert(split_dash(s.take(i as int)) == cur);
            assert forall|k: int| 0 <= k < starts.len() implies #[trigger] starts[k] <= ends[k] <= i
                && split_dash(s.take(i as int))[k] == s.subrange(starts[k] as int, ends[k] as int) by {
                assert(cur[k] == s.subrange(starts[k] as int, ends[k] as int));
            }
        }
    }
    let ghost old_starts = starts@;
    let ghost old_ends = ends@;
    starts.push(field_start);
    ends.push(n);
    proof {
        assert(s.take(n as int) =~= s);
        let fields = split_dash(s);
        assert(fields == split_dash(s.take(n as int)));
        assert forall|k: int| 0 <= k < starts.len() implies starts[k] <= ends[k] <= n && #[trigger] fields[k]
            == s.subrange(starts[k] as int, ends[k] as int) by {
            if k < old_starts.len() {
                assert(starts[k] == old_starts[k]);
                assert(ends[k] == old_ends[k]);
            } else {
                assert(k == fields.len() - 1);
                assert(fields[k] == fields.last());
                assert(starts[k] == field_start);
                assert(ends[k] == n);
            }
        }
    }
    (starts, ends)
}

/// Parse the value of an HTML date input (`YYYY-MM-DD`) into `(year, month, day)`.
pub fn parse_date(value: &str) -> (date: Option<(i32, u8, u8)>)
    ensures
        match date_of(value.spec_bytes()) {
            Some((y, m, d)) => date == Some((y as i32, m as u8, d as u8)),
            None => date is None,
        },
{
    let bytes = value.as_bytes();
    let (starts, ends) = field_bounds(bytes);
    if starts.len() < 3 {
        return None;
    }
    let ghost fields = split_dash(bytes@);
    assert(fields[0] == bytes@.subrange(starts[0] as int, ends[0] as int));
    assert(fields[1] == bytes@.subrange(starts[1] as int, ends[1] as int));
    assert(fields[2] == bytes@.subrange(starts[2] as int, ends[2] as int));
    let year = parse_number(bytes, starts[0], ends[0], i32::MAX as u32);
    let month = parse_number(bytes, starts[1], ends[1], 255);
    let day = parse_number(bytes, starts[2], ends[2], 255);
    match (year, month, day) {
        (Some(y), Some(m), Some(d)) => {
            assert(date_of(bytes@) == Some((y as int, m as int, d as int)));
            Some((y as i32, m as u8, d as u8))
        },
        _ => None,
    }
}

/// Decimal notation is positional: the value of the digits `a` followed by
/// the digits `b` is `a`'s value shifted by `b`'s length plus `b`'s value, and
/// a single digit `d` has the value `d - '0'`.
pub proof fn lemma_decimal_positional(a: Seq<u8>, b: Seq<u8>)
    ensures
        decimal_value(a + b) == decimal_value(a) * vstd::arithmetic::power::pow(10, b.len()) + decimal_value(b),
        b.len() == 1 ==> decimal_value(b) == b[0] - 48,
    decreases b.len(),
{
    reveal(vstd::arithmetic::power::pow);
    if b.len() == 0 {
        assert(a + b =~= a);
        assert(vstd::arithmetic::power::pow(10, 0) == 1);
        assert(decimal_value(a) * 1 == decimal_value(a));
    } else {
        let b1 = b.drop_last();
        lemma_decimal_positional(a, b1);
        assert((a + b).drop_last() =~= a + b1);
        assert((a + b).last() == b.last());
        let p = vstd::arithmetic::power::pow(10, b1.len());
        assert(vstd::arithmetic::power::pow(10, b.len()) == 10 * p);
        let da = decimal_value(a);
        let db1 = decimal_value(b1);
        assert(10 * (da * p + db1) == da * (10 * p) + 10 * db1) by (nonlinear_arith);
        if b.len() == 1 {
            assert(b1.len() == 0);
        }
    }
}

proof fn lemma_split_append(s: Seq<u8>, t: Seq<u8>)
    requires
        !t.contains(DASH),
    ensures
        split_dash(s + t) == split_dash(s).update(
            split_dash(s).len() - 1,
            split_dash(s).last() + t,
        ),
        split_dash(s + t).len() == split_dash(s).len(),
    decreases t.len(),
{
    lemma_split_dash_nonempty(s);
    let fs = split_dash(s);
    if t.len() == 0 {
        assert(s + t =~= s);
        assert(fs.last() + t =~= fs.last());
        assert(fs.update(fs.len() - 1, fs.last() + t) =~= fs);
    } else {
        let t1 = t.drop_last();
        assert(!t1.contains(DASH)) by {
            if t1.contains(DASH) {
                let k = choose|k: int| 0 <= k < t1.len() && t1[k] == DASH;
                assert(t[k] == DASH);
            }
        }
        assert(t.last() != DASH) by {
            assert(t[t.len() - 1] == t.last());
        }
        lemma_split_append(s, t1);
        assert((s + t).drop_last() =~= s + t1);
        assert((s + t).last() == t.last());
        let f1 = split_dash(s + t1);
        assert(f1.last() == fs.last() + t1);
        assert(fs.last() + t1 + seq![t.last()] =~= fs.last() + t);
        assert(f1.last().push(t.last()) =~= fs.last() + t);
        assert(split_dash(s + t) =~= fs.update(fs.len() - 1, fs.last() + t));
    }
}

proof fn lemma_digits_no_dash_or_plus(a: Seq<u8>)
    requires
        is_digits(a),
    ensures
        !a.contains(DASH),
        a[0] != PLUS,
{
    if a.contains(DASH) {
        let k = choose|k: int| 0 <= k < a.len() && a[k] == DASH;
        assert(is_ascii_digit(a[k]));
    }
    assert(is_ascii_digit(a[0]));
}

/// A value `A-B-C` with digit strings `A`, `B`, `C` is the date with year
/// `A`, month `B` and day `C` read as decimal numbers, when the year fits an
/// `i32` and month and day fit a `u8`.
pub proof fn lemma_date_of_fields(a: Seq<u8>, b: Seq<u8>, c: Seq<u8>)
    requires
        is_digits(a),
        is_digits(b),
        is_digits(c),
        decimal_value(a) <= i32::MAX,
        decimal_value(b) <= 255,
        decimal_value(c) <= 255,
    ensures
        date_of(a + seq![DASH] + b + seq![DASH] + c) == Some((decimal_value(a), decimal_value(b), decimal_value(c))),
{
    lemma_digits_no_dash_or_plus(a);
    lemma_digits_no_dash_or_plus(b);
    lemma_digits_no_dash_or_plus(c);
    let e = Seq::<u8>::empty();
    assert(split_dash(e) == seq![e]);
    lemma_split_append(e, a);
    assert(e + a =~= a);
    assert(seq![e].update(0, e + a) =~= seq![a]);
    let s1 = a + seq![DASH];
    assert(s1.drop_last() =~= a);
    assert(split_dash(s1) =~= seq![a, e]);
    let s2 = s1 + b;
    lemma_split_append(s1, b);
    assert(seq![a, e].update(1, e + b) =~= seq![a, b]);
    let s3 = s2 + seq![DASH];
    assert(s3.drop_last() =~= s2);
    assert(split_dash(s3) =~= seq![a, b, e]);
    let s4 = s3 + c;
    lemma_split_append(s3, c);
    assert(seq![a, b, e].update(2, e + c) =~= seq![a, b, c]);
    assert(split_dash(s4) =~= seq![a, b, c]);
}

} // verus!
