//! The moment-hash text: a seed followed by dash-separated fields, as in
//! `seed-epoch-residual-panx-pany-zoom`. A field that starts with `-` is a
//! negative number; its sign doubles the separating dash (`seed-3--4`).
//! Trailing empty fields are left out.

use crate::seed::push_char;
use vstd::prelude::*;

verus! {

/// The characters of a string, in order.
fn chars_of(s: &str) -> (cs: Vec<char>)
    ensures
        cs@ == s@,
{
    let mut cs: Vec<char> = Vec::new();
    for c in it: s.chars()
        invariant
            cs@ == it.seq().take(it.index() as int),
    {
        cs.push(c);
    }
    cs
}

/// The fields without their trailing empty ones.
pub open spec fn trim_trailing_empty(parts: Seq<Seq<char>>) -> Seq<Seq<char>>
    decreases parts.len(),
{
    if parts.len() > 0 && parts.last().len() == 0 {
        trim_trailing_empty(parts.drop_last())
    } else {
        parts
    }
}

/// Each field preceded by a dash, all concatenated.
pub open spec fn dash_prefixed(ps: Seq<Seq<char>>) -> Seq<char>
    decreases ps.len(),
{
    if ps.len() == 0 {
        Seq::empty()
    } else {
        seq!['-'] + ps[0] + dash_prefixed(ps.drop_first())
    }
}

/// The fields joined with dashes.
pub open spec fn join_dash(parts: Seq<Seq<char>>) -> Seq<char> {
    if parts.len() == 0 {
        Seq::empty()
    } else {
        parts[0] + dash_prefixed(parts.drop_first())
    }
}

/// The moment-hash text of a seed and its fields: the seed alone when no
/// field is left after trimming the trailing empty ones, otherwise the seed,
/// a dash and the remaining fields joined with dashes.
pub open spec fn moment_text(seed: Seq<char>, parts: Seq<Seq<char>>) -> Seq<char> {
    let t = trim_trailing_empty(parts);
    if t.len() == 0 {
        seed
    } else {
        seed + seq!['-'] + join_dash(t)
    }
}

proof fn lemma_trim_prefix(parts: Seq<Seq<char>>, n: int)
    requires
        0 <= n <= parts.len(),
        forall|k: int| n <= k < parts.len() ==> (#[trigger] parts[k]).len() == 0,
    ensures
        trim_trailing_empty(parts) == trim_trailing_empty(parts.take(n)),
    decreases parts.len(),
{
    if parts.len() > n {
        assert(parts.drop_last().take(n) =~= parts.take(n));
        lemma_trim_prefix(parts.drop_last(), n);
    } else {
        assert(parts.take(n) =~= parts);
    }
}

proof fn lemma_dash_prefixed_push(ps: Seq<Seq<char>>, p: Seq<char>)
    ensures
        dash_prefixed(ps.push(p)) == dash_prefixed(ps) + seq!['-'] + p,
    decreases ps.len(),
{
    if ps.len() == 0 {
        assert(ps.push(p).drop_first() =~= Seq::<Seq<char>>::empty());
        assert(dash_prefixed(Seq::<Seq<char>>::empty()) =~= Seq::<char>::empty());
        assert(ps.push(p)[0] == p);
        assert(dash_prefixed(ps.push(p)) =~= seq!['-'] + p);
    } else {
        assert(ps.push(p).drop_first() =~= ps.drop_first().push(p));
        lemma_dash_prefixed_push(ps.drop_first(), p);
        assert(dash_prefixed(ps.push(p)) =~= dash_prefixed(ps) + seq!['-'] + p);
    }
}

/// Writes the moment-hash text of `seed` and `parts`.
pub fn join_moment_hash(seed: &str, parts: &Vec<String>) -> (r: String)
    ensures
        r@ == moment_text(seed@, parts.deep_view()),
{
    let ghost ps = parts.deep_view();
    let mut n: usize = parts.len();
    while n > 0 && parts[n - 1].as_str().is_empty()
        invariant
            n <= parts.len(),
            ps == parts.deep_view(),
            forall|k: int| n <= k < ps.len() ==> (#[trigger] ps[k]).len() == 0,
        decreases n,
    {
        n = n - 1;
    }
    proof {
        lemma_trim_prefix(ps, n as int);
        if n > 0 {
            assert(ps.take(n as int).last() == ps[n - 1]);
        }
        assert(trim_trailing_empty(ps.take(n as int)) == ps.take(n as int));
    }
    let mut res = String::from_str(seed);
    if n == 0 {
        return res;
    }
    res.append("-");
    res.append(parts[0].as_str());
    let mut i: usize = 1;
    proof {
        reveal_strlit("-");
        assert(ps.take(1).drop_first() =~= Seq::<Seq<char>>::empty());
    }
    while i < n
        invariant
            1 <= i <= n,
            n <= parts.len(),
            ps == parts.deep_view(),
            res@ == seed@ + seq!['-'] + ps[0] + dash_prefixed(ps.take(i as int).drop_first()),
        decreases n - i,
    {
        proof {
            reveal_strlit("-");
            lemma_dash_prefixed_push(ps.take(i as int).drop_first(), ps[i as int]);
            assert(ps.take(i as int).drop_first().push(ps[i as int]) =~= ps.take(
                (i + 1) as int,
            ).drop_first());
        }
        res.append("-");
        res.append(parts[i].as_str());
        i = i + 1;
    }
    proof {
        assert(res@ =~= moment_text(seed@, ps));
    }
    res
}

/// `:`, `_` and `,` are older spellings of the field separator.
pub open spec fn normalize_separators(r: Seq<char>) -> Seq<char> {
    r.map_values(|c: char| if c == ':' || c == '_' || c == ',' { '-' } else { c })
}

/// Splits `cs` into fields from position `i` on, with field `cur` open and
/// the fields `acc` closed. A dash followed by a dash closes the open field
/// and opens a negative one; a dash at the very start opens a negative
/// field; any other dash closes the open field; other characters extend it.
pub open spec fn fields_from(cs: Seq<char>, i: int, cur: Seq<char>, acc: Seq<Seq<char>>) -> Seq<
    Seq<char>,
>
    decreases cs.len() - i,
{
    if i >= cs.len() {
        acc.push(cur)
    } else if cs[i] == '-' {
        if i + 1 < cs.len() && cs[i + 1] == '-' {
            fields_from(cs, i + 2, seq!['-'], acc.push(cur))
        } else if i == 0 {
            fields_from(cs, i + 1, seq!['-'], acc)
        } else {
            fields_from(cs, i + 1, Seq::empty(), acc.push(cur))
        }
    } else {
        fields_from(cs, i + 1, cur.push(cs[i]), acc)
    }
}

/// The fields of the text after the seed.
pub open spec fn moment_fields(rest: Seq<char>) -> Seq<Seq<char>> {
    fields_from(normalize_separators(rest), 0, Seq::empty(), Seq::empty())
}

/// Where the seed ends: at the first dash, or else at the first `@`.
pub open spec fn seed_end(s: Seq<char>) -> Option<int> {
    if s.contains('-') {
        s.index_of_first('-')
    } else {
        s.index_of_first('@')
    }
}

/// What a moment-hash text reads as: the seed and the fields after it, or
/// nothing when the seed is empty.
pub open spec fn moment_split(s: Seq<char>) -> Option<(Seq<char>, Seq<Seq<char>>)> {
    match seed_end(s) {
        Some(k) => if k == 0 {
            None
        } else {
            Some((s.take(k), moment_fields(s.skip(k + 1))))
        },
        None => if s.len() == 0 {
            None
        } else {
            Some((s, Seq::empty()))
        },
    }
}

/// The first position of `c` in `cs`, or `cs.len()` when there is none.
fn find_char(cs: &Vec<char>, c: char) -> (k: usize)
    ensures
        k <= cs@.len(),
        k < cs@.len() ==> cs@[k as int] == c,
        forall|j: int| 0 <= j < k ==> cs@[j] != c,
        k < cs@.len() <==> cs@.contains(c),
        k < cs@.len() ==> cs@.index_of_first(c) == Some(k as int),
        k == cs@.len() ==> cs@.index_of_first(c) is None,
{
    let mut k: usize = 0;
    while k < cs.len() && cs[k] != c
        invariant
            k <= cs@.len(),
            forall|j: int| 0 <= j < k ==> cs@[j] != c,
        decreases cs@.len() - k,
    {
        k = k + 1;
    }
    proof {
        cs@.index_of_first_ensures(c);
        if k < cs@.len() {
            assert(cs@.contains(c));
        }
    }
    k
}

/// The text of `cs[from..to]`.
fn string_of(cs: &Vec<char>, from: usize, to: usize) -> (r: String)
    requires
        from <= to <= cs@.len(),
    ensures
        r@ == cs@.subrange(from as int, to as int),
{
    let mut r = String::new();
    let mut i: usize = from;
    while i < to
        invariant
            from <= i <= to <= cs@.len(),
            r@ == cs@.subrange(from as int, i as int),
        decreases to - i,
    {
        push_char(&mut r, cs[i]);
        i = i + 1;
        assert(r@ =~= cs@.subrange(from as int, i as int));
    }
    r
}

/// Splits already-normalized text into fields.
fn split_fields(cs: &Vec<char>) -> (parts: Vec<String>)
    ensures
        parts.deep_view() == fields_from(cs@, 0, Seq::empty(), Seq::empty()),
{
    let mut parts: Vec<String> = Vec::new();
    let mut cur = String::new();
    let mut i: usize = 0;
    assert(parts.deep_view() =~= Seq::<Seq<char>>::empty());
    while i < cs.len()
        invariant
            i <= cs@.len(),
            fields_from(cs@, i as int, cur@, parts.deep_view()) == fields_from(
                cs@,
                0,
                Seq::empty(),
                Seq::empty(),
            ),
        decreases cs@.len() - i,
    {
        let ghost acc = parts.deep_view();
        let ghost cur0 = cur@;
        if cs[i] == '-' {
            if i + 1 < cs.len() && cs[i + 1] == '-' {
                parts.push(cur);
                assert(parts.deep_view() =~= acc.push(cur0));
                cur = String::new();
                push_char(&mut cur, '-');
                assert(cur@ =~= seq!['-']);
                i = i + 2;
            } else if i == 0 {
                cur = String::new();
                push_char(&mut cur, '-');
                assert(cur@ =~= seq!['-']);
                i = i + 1;
            } else {
                parts.push(cur);
                assert(parts.deep_view() =~= acc.push(cur0));
                cur = String::new();
                i = i + 1;
            }
        } else {
            push_char(&mut cur, cs[i]);
            i = i + 1;
        }
    }
    let ghost acc = parts.deep_view();
    let ghost cur0 = cur@;
    parts.push(cur);
    assert(parts.deep_view() =~= acc.push(cur0));
    parts
}

/// Reads a moment-hash text: the seed is what comes before the first dash
/// (or, failing that, the first `@`); the rest, with `:`, `_` and `,` read
/// as dashes, is split into fields. There are no fields when the text has
/// neither separator, and nothing at all when the seed is empty.
pub fn split_moment_hash(s: &str) -> (r: Option<(String, Vec<String>)>)
    ensures
        match r {
            Some((seed, fields)) => moment_split(s@) == Some((seed@, fields.deep_view())),
            None => moment_split(s@) is None,
        },
{
    let cs = chars_of(s);
    let len = cs.len();
    let dash = find_char(&cs, '-');
    let end: usize = if dash < len {
        dash
    } else {
        find_char(&cs, '@')
    };
    if end == len {
        if len == 0 {
            return None;
        }
        let seed = string_of(&cs, 0, len);
        assert(seed@ =~= s@);
        let fields: Vec<String> = Vec::new();
        assert(fields.deep_view() =~= Seq::<Seq<char>>::empty());
        return Some((seed, fields));
    }
    if end == 0 {
        return None;
    }
    let seed = string_of(&cs, 0, end);
    let mut rest: Vec<char> = Vec::new();
    let mut i: usize = end + 1;
    while i < len
        invariant
            end < i <= len,
            len == cs@.len(),
            rest@ == normalize_separators(cs@.subrange(end + 1, i as int)),
        decreases len - i,
    {
        let c = cs[i];
        if c == ':' || c == '_' || c == ',' {
            rest.push('-');
        } else {
            rest.push(c);
        }
        i = i + 1;
        assert(rest@ =~= normalize_separators(cs@.subrange(end + 1, i as int)));
    }
    assert(cs@.subrange(end + 1, len as int) =~= s@.skip(end + 1));
    assert(seed@ =~= s@.take(end as int));
    let fields = split_fields(&rest);
    Some((seed, fields))
}

/// Whether `d` is one or more ASCII decimal digits.
pub open spec fn is_decimal(d: Seq<char>) -> bool {
    &&& d.len() > 0
    &&& forall|k: int| 0 <= k < d.len() ==> '0' <= #[trigger] d[k] <= '9'
}

/// The value of a run of decimal digits.
pub open spec fn decimal_value(d: Seq<char>) -> int
    decreases d.len(),
{
    if d.len() == 0 {
        0
    } else {
        decimal_value(d.drop_last()) * 10 + (d.last() as int - '0' as int)
    }
}

/// The integer a text spells: an optional `+` or `-`, then decimal digits
/// and nothing else.
pub open spec fn integer_text_value(t: Seq<char>) -> Option<int> {
    if t.len() > 0 && (t[0] == '+' || t[0] == '-') && is_decimal(t.drop_first()) {
        let v = decimal_value(t.drop_first());
        Some(if t[0] == '-' { -v } else { v })
    } else if is_decimal(t) {
        Some(decimal_value(t))
    } else {
        None
    }
}

/// What `str::parse::<i64>` gives: the spelled integer when it fits in an
/// `i64`, nothing otherwise.
pub open spec fn parsed_i64(t: Seq<char>) -> Option<i64> {
    match integer_text_value(t) {
        Some(v) => if i64::MIN <= v <= i64::MAX {
            Some(v as i64)
        } else {
            None
        },
        None => None,
    }
}

/// Parses an `i64` through `str::parse`. Trusted: std documents that the
/// text must be an optional `+` or `-` followed by decimal digits only, and
/// that a value outside `i64` is an error.
#[verifier::external_body]
fn parse_i64(t: &str) -> (r: Option<i64>)
    ensures
        r == parsed_i64(t@),
{
    t.parse::<i64>().ok()
}

/// The epoch a moment-hash field holds: its integer, or 0 when the field is
/// empty, not an integer, or out of range.
pub fn epoch_of_field(field: &str) -> (e: i64)
    ensures
        e == (match parsed_i64(field@) {
            Some(v) => v,
            None => 0i64,
        }),
{
    match parse_i64(field) {
        Some(v) => v,
        None => 0,
    }
}

/// The decimal digit character for `d < 10`.
pub open spec fn digit_char(d: nat) -> char {
    (48 + d) as char
}

/// The decimal text of `v`, without leading zeros.
pub open spec fn decimal_text(v: nat) -> Seq<char>
    decreases v,
{
    if v < 10 {
        seq![digit_char(v)]
    } else {
        decimal_text(v / 10).push(digit_char(v % 10))
    }
}

/// The decimal text of an integer: a `-` before the digits when negative.
pub open spec fn integer_text(e: int) -> Seq<char> {
    if e < 0 {
        seq!['-'] + decimal_text((-e) as nat)
    } else {
        decimal_text(e as nat)
    }
}

/// The epoch field of a moment hash: empty for epoch 0, otherwise the
/// epoch's decimal text.
pub open spec fn epoch_text(e: i64) -> Seq<char> {
    if e == 0 {
        Seq::empty()
    } else {
        integer_text(e as int)
    }
}

/// Appends the decimal text of `v`.
fn push_decimal(s: &mut String, v: u64)
    ensures
        final(s)@ == old(s)@ + decimal_text(v as nat),
    decreases v,
{
    if v >= 10 {
        push_decimal(s, v / 10);
    }
    let d: u8 = (v % 10) as u8;
    let c = (48u8 + d) as char;
    push_char(s, c);
    proof {
        if v >= 10 {
            assert(final(s)@ =~= old(s)@ + decimal_text(v as nat));
        } else {
            assert(final(s)@ =~= old(s)@ + decimal_text(v as nat));
        }
    }
}

/// Writes the epoch field: nothing for epoch 0, its decimal text otherwise.
pub fn epoch_field_text(e: i64) -> (r: String)
    ensures
        r@ == epoch_text(e),
        r@.len() == 0 <==> e == 0,
{
    let mut r = String::new();
    if e == 0 {
        return r;
    }
    if e < 0 {
        push_char(&mut r, '-');
        let m: u64 = (-(e + 1)) as u64 + 1;
        push_decimal(&mut r, m);
    } else {
        push_decimal(&mut r, e as u64);
    }
    proof {
        assert(r@ =~= epoch_text(e));
    }
    r
}

proof fn lemma_decimal_text_reads_back(v: nat)
    ensures
        is_decimal(decimal_text(v)),
        decimal_value(decimal_text(v)) == v,
        decimal_text(v)[0] != '-',
    decreases v,
{
    if v < 10 {
        let t = decimal_text(v);
        assert(t.drop_last() =~= Seq::<char>::empty());
        assert(decimal_value(Seq::<char>::empty()) == 0);
    } else {
        lemma_decimal_text_reads_back(v / 10);
        let t = decimal_text(v);
        assert(t.drop_last() =~= decimal_text(v / 10));
        assert(t[0] == decimal_text(v / 10)[0]);
        assert forall|k: int| 0 <= k < t.len() implies '0' <= #[trigger] t[k] <= '9' by {
            if k < t.len() - 1 {
                assert(t[k] == decimal_text(v / 10)[k]);
            }
        }
    }
}

/// The epoch field reads back as the epoch it was written from, and a
/// nonzero epoch's field is written as fields are (so the moment-hash round
/// trip carries it).
pub proof fn lemma_epoch_field_roundtrip(e: i64)
    requires
        e != 0,
    ensures
        parsed_i64(epoch_text(e)) == Some(e),
        is_field_text(epoch_text(e)),
{
    let t = epoch_text(e);
    if e < 0 {
        let m: nat = (-(e as int)) as nat;
        lemma_decimal_text_reads_back(m);
        let d = decimal_text(m);
        assert(t == seq!['-'] + d);
        assert(t.drop_first() =~= d);
        assert(t[0] == '-');
        assert forall|k: int| 0 <= k < t.len() implies #[trigger] t[k] != ':' && t[k] != '_' && t[k]
            != ',' by {
            if k > 0 {
                assert(t[k] == d[k - 1]);
            }
        }
        assert forall|k: int| 1 <= k < t.len() implies #[trigger] t[k] != '-' by {
            assert(t[k] == d[k - 1]);
        }
    } else {
        lemma_decimal_text_reads_back(e as nat);
        assert(t[0] != '+' && t[0] != '-');
    }
}

/// A field as the moment hash writes it: not empty, none of `:`, `_` and
/// `,`, and a dash only as its first character.
pub open spec fn is_field_text(p: Seq<char>) -> bool {
    &&& p.len() > 0
    &&& forall|k: int| 0 <= k < p.len() ==> #[trigger] p[k] != ':' && p[k] != '_' && p[k] != ','
    &&& forall|k: int| 1 <= k < p.len() ==> #[trigger] p[k] != '-'
}

/// Characters without a dash are simply appended to the open field.
proof fn lemma_fields_scan(cs: Seq<char>, i: int, cur: Seq<char>, acc: Seq<Seq<char>>, m: int)
    requires
        0 <= i,
        0 <= m,
        i + m <= cs.len(),
        forall|k: int| i <= k < i + m ==> #[trigger] cs[k] != '-',
    ensures
        fields_from(cs, i, cur, acc) == fields_from(cs, i + m, cur + cs.subrange(i, i + m), acc),
    decreases m,
{
    if m == 0 {
        assert(cur + cs.subrange(i, i) =~= cur);
    } else {
        lemma_fields_scan(cs, i + 1, cur.push(cs[i]), acc, m - 1);
        assert(cur.push(cs[i]) + cs.subrange(i + 1, i + m) =~= cur + cs.subrange(i, i + m));
    }
}

/// After the first field, each dash-prefixed field is read back as it was.
proof fn lemma_fields_tail(
    cs: Seq<char>,
    i: int,
    cur: Seq<char>,
    acc: Seq<Seq<char>>,
    ps: Seq<Seq<char>>,
)
    requires
        1 <= i <= cs.len(),
        cs.skip(i) == dash_prefixed(ps),
        forall|j: int| 0 <= j < ps.len() ==> is_field_text(#[trigger] ps[j]),
    ensures
        fields_from(cs, i, cur, acc) == acc.push(cur) + ps,
    decreases ps.len(),
{
    if ps.len() == 0 {
        assert(cs.skip(i).len() == 0);
        assert(acc.push(cur) + ps =~= acc.push(cur));
    } else {
        let p = ps[0];
        assert(is_field_text(p));
        let rest = ps.drop_first();
        assert(cs.skip(i) == seq!['-'] + p + dash_prefixed(rest));
        assert(cs[i] == cs.skip(i)[0]);
        assert(cs[i] == '-');
        assert(cs[i + 1] == cs.skip(i)[1]);
        assert(cs[i + 1] == p[0]);
        let next: int = i + 1 + p.len();
        assert(cs.skip(next) =~= dash_prefixed(rest)) by {
            assert forall|k: int| 0 <= k < cs.skip(next).len() implies cs.skip(next)[k]
                == dash_prefixed(rest)[k] by {
                assert(cs.skip(next)[k] == cs.skip(i)[k + 1 + p.len()]);
            }
        }
        assert forall|j: int| 0 <= j < rest.len() implies is_field_text(#[trigger] rest[j]) by {
            assert(rest[j] == ps[j + 1]);
        }
        if p[0] == '-' {
            assert forall|k: int| i + 2 <= k < next implies #[trigger] cs[k] != '-' by {
                assert(cs[k] == cs.skip(i)[k - i]);
                assert(cs.skip(i)[k - i] == p[k - i - 1]);
            }
            lemma_fields_scan(cs, i + 2, seq!['-'], acc.push(cur), p.len() - 1);
            assert(seq!['-'] + cs.subrange(i + 2, next) =~= p) by {
                assert forall|k: int| 1 <= k < p.len() implies p[k] == cs[i + 1 + k] by {
                    assert(cs[i + 1 + k] == cs.skip(i)[1 + k]);
                }
            }
            lemma_fields_tail(cs, next, p, acc.push(cur), rest);
        } else {
            assert forall|k: int| i + 1 <= k < next implies #[trigger] cs[k] != '-' by {
                assert(cs[k] == cs.skip(i)[k - i]);
                assert(cs.skip(i)[k - i] == p[k - i - 1]);
            }
            lemma_fields_scan(cs, i + 1, Seq::empty(), acc.push(cur), p.len() as int);
            assert(Seq::<char>::empty() + cs.subrange(i + 1, next) =~= p) by {
                assert forall|k: int| 0 <= k < p.len() implies p[k] == cs[i + 1 + k] by {
                    assert(cs[i + 1 + k] == cs.skip(i)[1 + k]);
                }
            }
            lemma_fields_tail(cs, next, p, acc.push(cur), rest);
        }
        assert(acc.push(cur).push(p) + rest =~= acc.push(cur) + ps);
    }
}

/// Joined fields are read back as the same fields.
proof fn lemma_fields_of_join(ps: Seq<Seq<char>>)
    requires
        ps.len() >= 1,
        forall|j: int| 0 <= j < ps.len() ==> is_field_text(#[trigger] ps[j]),
        ps.len() >= 2 ==> ps[0] != seq!['-'],
    ensures
        fields_from(join_dash(ps), 0, Seq::empty(), Seq::empty()) == ps,
{
    let cs = join_dash(ps);
    let p0 = ps[0];
    assert(is_field_text(p0));
    let rest = ps.drop_first();
    assert forall|j: int| 0 <= j < rest.len() implies is_field_text(#[trigger] rest[j]) by {
        assert(rest[j] == ps[j + 1]);
    }
    let n: int = p0.len() as int;
    assert(cs == p0 + dash_prefixed(rest));
    assert(cs.skip(n) =~= dash_prefixed(rest));
    if p0[0] == '-' {
        if n == 1 {
            assert(p0 =~= seq!['-']);
            assert(ps.len() == 1);
            assert(rest.len() == 0);
            assert(cs =~= seq!['-']);
            assert(fields_from(cs, 1, seq!['-'], Seq::empty()) == Seq::<Seq<char>>::empty().push(
                seq!['-'],
            ));
            assert(Seq::<Seq<char>>::empty().push(seq!['-']) =~= ps);
        } else {
            assert(cs[1] == p0[1]);
            assert(cs[1] != '-');
            assert forall|k: int| 1 <= k < n implies #[trigger] cs[k] != '-' by {
                assert(cs[k] == p0[k]);
            }
            lemma_fields_scan(cs, 1, seq!['-'], Seq::empty(), n - 1);
            assert(seq!['-'] + cs.subrange(1, n) =~= p0);
            lemma_fields_tail(cs, n, p0, Seq::empty(), rest);
            assert(Seq::<Seq<char>>::empty().push(p0) + rest =~= ps);
        }
    } else {
        assert forall|k: int| 0 <= k < n implies #[trigger] cs[k] != '-' by {
            assert(cs[k] == p0[k]);
        }
        lemma_fields_scan(cs, 0, Seq::empty(), Seq::empty(), n);
        assert(Seq::<char>::empty() + cs.subrange(0, n) =~= p0);
        lemma_fields_tail(cs, n, p0, Seq::empty(), rest);
        assert(Seq::<Seq<char>>::empty().push(p0) + rest =~= ps);
    }
}

/// Dash-prefixed fields hold no `:`, `_` or `,`.
proof fn lemma_dash_prefixed_plain(ps: Seq<Seq<char>>)
    requires
        forall|j: int| 0 <= j < ps.len() ==> is_field_text(#[trigger] ps[j]),
    ensures
        forall|k: int|
            0 <= k < dash_prefixed(ps).len() ==> #[trigger] dash_prefixed(ps)[k] != ':'
                && dash_prefixed(ps)[k] != '_' && dash_prefixed(ps)[k] != ',',
    decreases ps.len(),
{
    if ps.len() > 0 {
        let rest = ps.drop_first();
        assert forall|j: int| 0 <= j < rest.len() implies is_field_text(#[trigger] rest[j]) by {
            assert(rest[j] == ps[j + 1]);
        }
        lemma_dash_prefixed_plain(rest);
        let p = ps[0];
        assert(is_field_text(p));
        let d = dash_prefixed(ps);
        assert(d == seq!['-'] + p + dash_prefixed(rest));
        assert forall|k: int| 0 <= k < d.len() implies #[trigger] d[k] != ':' && d[k] != '_' && d[k]
            != ',' by {
            if k == 0 {
            } else if k < 1 + p.len() {
                assert(d[k] == p[k - 1]);
            } else {
                assert(d[k] == dash_prefixed(rest)[k - 1 - p.len()]);
            }
        }
    }
}

/// Reading back a moment hash gives the seed and the fields it was written
/// from (without the trailing empty fields, which are not written), as long
/// as the seed is not empty and has no dash, the kept fields are written as
/// fields are, a lone `-` is not the first of several fields, and a seed
/// written without fields has no `@`.
pub proof fn lemma_moment_roundtrip(seed: Seq<char>, parts: Seq<Seq<char>>)
    requires
        seed.len() > 0,
        !seed.contains('-'),
        trim_trailing_empty(parts).len() == 0 ==> !seed.contains('@'),
        forall|j: int|
            0 <= j < trim_trailing_empty(parts).len() ==> is_field_text(
                #[trigger] trim_trailing_empty(parts)[j],
            ),
        trim_trailing_empty(parts).len() >= 2 ==> trim_trailing_empty(parts)[0] != seq!['-'],
    ensures
        moment_split(moment_text(seed, parts)) == Some((seed, trim_trailing_empty(parts))),
{
    let t = trim_trailing_empty(parts);
    let text = moment_text(seed, parts);
    if t.len() == 0 {
        assert(text == seed);
        seed.index_of_first_ensures('-');
        seed.index_of_first_ensures('@');
        assert(seed_end(seed) is None);
        assert(t =~= Seq::<Seq<char>>::empty());
    } else {
        let j = join_dash(t);
        let n: int = seed.len() as int;
        assert(text == seed + seq!['-'] + j);
        assert(text[n as int] == '-');
        assert(text.contains('-'));
        text.index_of_first_ensures('-');
        let idx = text.index_of_first('-')->0;
        if idx < n {
            assert(seed[idx] == text[idx]);
            assert(seed.contains('-'));
        }
        assert(seed_end(text) == Some(n as int));
        assert(text.take(n as int) =~= seed);
        assert(text.skip(n + 1) =~= j);
        let rest = t.drop_first();
        assert forall|i: int| 0 <= i < rest.len() implies is_field_text(#[trigger] rest[i]) by {
            assert(rest[i] == t[i + 1]);
        }
        lemma_dash_prefixed_plain(rest);
        assert(is_field_text(t[0]));
        assert(normalize_separators(j) =~= j) by {
            assert forall|k: int| 0 <= k < j.len() implies #[trigger] j[k] != ':' && j[k] != '_'
                && j[k] != ',' by {
                if k < t[0].len() {
                    assert(j[k] == t[0][k]);
                } else {
                    assert(j[k] == dash_prefixed(rest)[k - t[0].len()]);
                }
            }
        }
        lemma_fields_of_join(t);
    }
}

/// A moment hash written with a nonzero epoch and further fields written as
/// fields are reads back as the same seed and fields, and its first field
/// parses back to the epoch.
pub proof fn lemma_moment_epoch_roundtrip(seed: Seq<char>, e: i64, rest: Seq<Seq<char>>)
    requires
        seed.len() > 0,
        !seed.contains('-'),
        e != 0,
        forall|j: int| 0 <= j < rest.len() ==> is_field_text(#[trigger] rest[j]),
    ensures
        moment_split(moment_text(seed, seq![epoch_text(e)] + rest)) == Some(
            (seed, seq![epoch_text(e)] + rest),
        ),
        parsed_i64((seq![epoch_text(e)] + rest)[0]) == Some(e),
{
    lemma_epoch_field_roundtrip(e);
    let parts = seq![epoch_text(e)] + rest;
    assert(parts.last().len() > 0) by {
        if rest.len() > 0 {
            assert(parts.last() == rest[rest.len() - 1]);
        } else {
            assert(parts.last() == epoch_text(e));
        }
    }
    assert(trim_trailing_empty(parts) == parts);
    assert forall|j: int| 0 <= j < parts.len() implies is_field_text(#[trigger] parts[j]) by {
        if j > 0 {
            assert(parts[j] == rest[j - 1]);
        }
    }
    let t = epoch_text(e);
    if t =~= seq!['-'] {
        assert(t.drop_first().len() == 0);
        assert(integer_text_value(t) is None);
    }
    lemma_moment_roundtrip(seed, parts);
}

} // verus!
