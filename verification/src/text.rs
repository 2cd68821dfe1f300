use vstd::prelude::*;
use vstd::utf8::encode_utf8;
use vstd::utf8::encode_utf8_decode_utf8;

verus! {

/// The unit separator: it stands between the field values of a note record.
pub const FIELD_SEPARATOR: char = '\x1f';

/// The characters of `s`, in order.
pub fn chars_of(s: &str) -> (out: Vec<char>)
    ensures
        out@ == s@,
{
    let mut out: Vec<char> = Vec::new();
    for c in it: s.chars()
        invariant
            out@ == s@.subrange(0, it.index() as int),
            it.seq() == s@,
    {
        out.push(c);
    }
    out
}

/// Whether two texts hold the same characters.
pub fn same_text(a: &str, b: &str) -> (r: bool)
    ensures
        r == (a@ == b@),
{
    let x = a.as_bytes();
    let y = b.as_bytes();
    if x.len() != y.len() {
        return false;
    }
    let mut i: usize = 0;
    while i < x.len()
        invariant
            i <= x.len(),
            x.len() == y.len(),
            x@ == encode_utf8(a@),
            y@ == encode_utf8(b@),
            forall|j: int| 0 <= j < i ==> x@[j] == y@[j],
        decreases x.len() - i,
    {
        if x[i] != y[i] {
            return false;
        }
        i += 1;
    }
    assert(x@ =~= y@);
    proof {
        encode_utf8_decode_utf8(a@);
        encode_utf8_decode_utf8(b@);
    }
    true
}

/// The views of a sequence of strings.
pub open spec fn texts(v: Seq<String>) -> Seq<Seq<char>> {
    v.map_values(|s: String| s@)
}

/// `s` cut at every occurrence of `sep`: one more piece than there are
/// separators, the pieces in order and free of `sep`.
pub open spec fn split_on(s: Seq<char>, sep: char) -> Seq<Seq<char>>
    decreases s.len(),
{
    if s.len() == 0 {
        seq![Seq::<char>::empty()]
    } else {
        let init = split_on(s.drop_last(), sep);
        if s.last() == sep {
            init.push(Seq::<char>::empty())
        } else {
            init.drop_last().push(init.last().push(s.last()))
        }
    }
}

/// The pieces of `parts` in order, with `sep` between neighbours.
pub open spec fn join_with(parts: Seq<Seq<char>>, sep: char) -> Seq<char>
    decreases parts.len(),
{
    if parts.len() == 0 {
        Seq::<char>::empty()
    } else if parts.len() == 1 {
        parts[0]
    } else {
        join_with(parts.drop_last(), sep) + seq![sep] + parts.last()
    }
}

/// No piece of `parts` holds `sep`.
pub open spec fn free_of(parts: Seq<Seq<char>>, sep: char) -> bool {
    forall|i: int, j: int| 0 <= i < parts.len() && 0 <= j < parts[i].len() ==> parts[i][j] != sep
}

/// Splitting always yields at least one piece, and no piece holds the separator.
pub proof fn lemma_split_shape(s: Seq<char>, sep: char)
    ensures
        split_on(s, sep).len() >= 1,
        free_of(split_on(s, sep), sep),
    decreases s.len(),
{
    if s.len() > 0 {
        lemma_split_shape(s.drop_last(), sep);
    }
}

/// Joining the pieces of a split text gives the text back.
pub proof fn lemma_join_split(s: Seq<char>, sep: char)
    ensures
        join_with(split_on(s, sep), sep) == s,
    decreases s.len(),
{
    if s.len() > 0 {
        let t = s.drop_last();
        let p = split_on(t, sep);
        lemma_split_shape(t, sep);
        lemma_join_split(t, sep);
        assert(s == t.push(s.last()));
        if s.last() == sep {
            let q = p.push(Seq::<char>::empty());
            assert(q.drop_last() == p);
            assert(join_with(q, sep) == join_with(p, sep) + seq![sep] + q.last());
            assert(join_with(q, sep) == s);
        } else {
            let q = p.drop_last().push(p.last().push(s.last()));
            if p.len() == 1 {
                assert(join_with(q, sep) == q[0]);
                assert(join_with(p, sep) == p[0]);
                assert(join_with(q, sep) == s);
            } else {
                assert(q.drop_last() == p.drop_last());
                assert(join_with(q, sep) == join_with(p.drop_last(), sep) + seq![sep] + q.last());
                assert(join_with(p, sep) == join_with(p.drop_last(), sep) + seq![sep] + p.last());
                assert(join_with(q, sep) == s);
            }
        }
    }
}

/// Appending text without separators to `a` extends the last piece of its split.
pub proof fn lemma_split_extend(a: Seq<char>, b: Seq<char>, sep: char)
    requires
        forall|j: int| 0 <= j < b.len() ==> b[j] != sep,
    ensures
        split_on(a, sep).len() >= 1,
        split_on(a + b, sep) == split_on(a, sep).drop_last().push(split_on(a, sep).last() + b),
    decreases b.len(),
{
    lemma_split_shape(a, sep);
    let p = split_on(a, sep);
    if b.len() == 0 {
        assert(a + b == a);
        assert(p.last() + b == p.last());
        assert(p.drop_last().push(p.last()) == p);
    } else {
        let b0 = b.drop_last();
        lemma_split_extend(a, b0, sep);
        assert((a + b).drop_last() == a + b0);
        assert((a + b).last() == b.last());
        let q = split_on(a + b0, sep);
        assert(q.drop_last() == p.drop_last());
        assert(q.last().push(b.last()) == p.last() + b);
    }
}

/// Splitting the join of separator-free pieces gives the pieces back,
/// provided there is at least one piece.
pub proof fn lemma_split_join(parts: Seq<Seq<char>>, sep: char)
    requires
        parts.len() >= 1,
        free_of(parts, sep),
    ensures
        split_on(join_with(parts, sep), sep) == parts,
    decreases parts.len(),
{
    let e = Seq::<char>::empty();
    if parts.len() == 1 {
        lemma_split_extend(e, parts[0], sep);
        assert(e + parts[0] == parts[0]);
        assert(split_on(e, sep) == seq![e]);
        assert(seq![e].drop_last().push(e + parts[0]) == parts);
    } else {
        let init = parts.drop_last();
        lemma_split_join(init, sep);
        let a = join_with(init, sep) + seq![sep];
        assert(a.drop_last() == join_with(init, sep));
        assert(split_on(a, sep) == init.push(e));
        lemma_split_extend(a, parts.last(), sep);
        assert(e + parts.last() == parts.last());
        assert(init.push(e).drop_last() == init);
        assert(init.push(parts.last()) == parts);
    }
}

/// An owned copy of the characters of `s` from `from` up to `to`.
pub(crate) fn slice_text(s: &str, from: usize, to: usize) -> (out: String)
    requires
        from <= to <= s@.len(),
    ensures
        out@ == s@.subrange(from as int, to as int),
{
    s.substring_char(from, to).to_owned()
}

/// Cuts `s` at every occurrence of `sep`.
pub fn split_text(s: &str, sep: char) -> (out: Vec<String>)
    ensures
        texts(out@) == split_on(s@, sep),
{
    let cs = chars_of(s);
    let mut out: Vec<String> = Vec::new();
    let mut start: usize = 0;
    let mut i: usize = 0;
    assert(cs@.take(0) == Seq::<char>::empty());
    assert(texts(out@).push(cs@.subrange(0, 0)) == seq![Seq::<char>::empty()]);
    while i < cs.len()
        invariant
            cs@ == s@,
            start <= i <= cs.len(),
            split_on(cs@.take(i as int), sep) == texts(out@).push(
                cs@.subrange(start as int, i as int),
            ),
        decreases cs.len() - i,
    {
        let ghost before = texts(out@);
        let ghost open_piece = cs@.subrange(start as int, i as int);
        let ghost whole = cs@.take(i + 1);
        assert(whole.drop_last() == cs@.take(i as int));
        assert(whole.last() == cs@[i as int]);
        if cs[i] == sep {
            let piece = slice_text(s, start, i);
            out.push(piece);
            start = i + 1;
            assert(texts(out@) == before.push(open_piece));
            assert(cs@.subrange(start as int, i + 1) == Seq::<char>::empty());
        } else {
            assert(before.push(open_piece).drop_last() == before);
            assert(open_piece.push(cs@[i as int]) == cs@.subrange(start as int, i + 1));
        }
        i += 1;
    }
    assert(cs@.take(i as int) == cs@);
    let ghost before = texts(out@);
    let piece = slice_text(s, start, i);
    out.push(piece);
    assert(texts(out@) == before.push(cs@.subrange(start as int, i as int)));
    out
}

/// The text of the unit separator, the character that joins field values.
pub fn separator_text() -> (out: &'static str)
    ensures
        out@ == seq![FIELD_SEPARATOR],
{
    proof {
        reveal_strlit("\x1f");
    }
    let out = "\x1f";
    assert(out@ == seq![FIELD_SEPARATOR]);
    out
}

/// Joins `parts` with the unit separator between neighbours.
pub fn join_fields(parts: &Vec<String>) -> (out: String)
    ensures
        out@ == join_with(texts(parts@), FIELD_SEPARATOR),
{
    let mut out = String::new();
    let mut i: usize = 0;
    assert(texts(parts@).take(0).len() == 0);
    while i < parts.len()
        invariant
            i <= parts.len(),
            out@ == join_with(texts(parts@).take(i as int), FIELD_SEPARATOR),
        decreases parts.len() - i,
    {
        let ghost done = texts(parts@).take(i as int);
        let ghost next = texts(parts@).take(i + 1);
        assert(next.drop_last() == done);
        assert(next.last() == parts@[i as int]@);
        if i > 0 {
            out.append(separator_text());
        }
        out.append(parts[i].as_str());
        i += 1;
    }
    assert(texts(parts@).take(i as int) == texts(parts@));
    out
}

/// Whether `c` is white space in the sense of Unicode's `White_Space`
/// property, which is what `char::is_whitespace` tests.
pub open spec fn is_space(c: char) -> bool {
    let n = c as u32;
    ||| 0x09 <= n <= 0x0d
    ||| n == 0x20
    ||| n == 0x85
    ||| n == 0xa0
    ||| n == 0x1680
    ||| 0x2000 <= n <= 0x200a
    ||| n == 0x2028
    ||| n == 0x2029
    ||| n == 0x202f
    ||| n == 0x205f
    ||| n == 0x3000
}

/// `s` without the white space at its end.
pub open spec fn trim_end(s: Seq<char>) -> Seq<char>
    decreases s.len(),
{
    if s.len() > 0 && is_space(s.last()) {
        trim_end(s.drop_last())
    } else {
        s
    }
}

/// `s` without the white space at its start.
pub open spec fn trim_start(s: Seq<char>) -> Seq<char>
    decreases s.len(),
{
    if s.len() > 0 && is_space(s.first()) {
        trim_start(s.drop_first())
    } else {
        s
    }
}

/// `s` without the white space at either end.
pub open spec fn trimmed(s: Seq<char>) -> Seq<char> {
    trim_start(trim_end(s))
}

/// Where the white space at the end of `s` starts at `b`, trimming the
/// end leaves the first `b` characters.
proof fn lemma_trim_end(s: Seq<char>, b: int)
    requires
        0 <= b <= s.len(),
        forall|j: int| b <= j < s.len() ==> is_space(s[j]),
        b > 0 ==> !is_space(s[b - 1]),
    ensures
        trim_end(s) == s.take(b),
    decreases s.len() - b,
{
    if b < s.len() {
        assert(is_space(s.last()));
        lemma_trim_end(s.drop_last(), b);
        assert(s.drop_last().take(b) == s.take(b));
    } else {
        assert(s.take(b) == s);
    }
}

/// Where the white space at the start of `s` ends at `a`, trimming the
/// start leaves what follows the first `a` characters.
proof fn lemma_trim_start(s: Seq<char>, a: int)
    requires
        0 <= a <= s.len(),
        forall|j: int| 0 <= j < a ==> is_space(s[j]),
        a < s.len() ==> !is_space(s[a]),
    ensures
        trim_start(s) == s.skip(a),
    decreases a,
{
    if a > 0 {
        assert(is_space(s.first()));
        lemma_trim_start(s.drop_first(), a - 1);
        assert(s.drop_first().skip(a - 1) == s.skip(a));
    } else {
        assert(s.skip(0) == s);
    }
}

/// Whether `c` is white space.
pub fn is_space_char(c: char) -> (r: bool)
    ensures
        r == is_space(c),
{
    let n: u32 = c as u32;
    (0x09 <= n && n <= 0x0d) || n == 0x20 || n == 0x85 || n == 0xa0 || n == 0x1680 || (0x2000 <= n
        && n <= 0x200a) || n == 0x2028 || n == 0x2029 || n == 0x202f || n == 0x205f || n == 0x3000
}

/// The bounds of `cs[..limit]` without the white space at either end.
pub(crate) fn trim_bounds(cs: &Vec<char>, limit: usize) -> (r: (usize, usize))
    requires
        limit <= cs.len(),
    ensures
        r.0 <= r.1 <= limit,
        cs@.subrange(r.0 as int, r.1 as int) == trimmed(cs@.take(limit as int)),
{
    let ghost s = cs@.take(limit as int);
    let mut b: usize = limit;
    while b > 0 && is_space_char(cs[b - 1])
        invariant
            b <= limit <= cs.len(),
            s == cs@.take(limit as int),
            forall|j: int| b <= j < limit ==> is_space(s[j]),
        decreases b,
    {
        b -= 1;
    }
    let mut a: usize = 0;
    while a < b && is_space_char(cs[a])
        invariant
            a <= b <= limit <= cs.len(),
            s == cs@.take(limit as int),
            forall|j: int| 0 <= j < a ==> is_space(s[j]),
        decreases b - a,
    {
        a += 1;
    }
    proof {
        lemma_trim_end(s, b as int);
        if a < b {
            assert(s.take(b as int)[a as int] == s[a as int]);
        }
        lemma_trim_start(s.take(b as int), a as int);
        assert(s.take(b as int).skip(a as int) == cs@.subrange(a as int, b as int));
    }
    (a, b)
}

/// An owned copy of `s` without the white space at either end.
pub fn trim_text(s: &str) -> (out: String)
    ensures
        out@ == trimmed(s@),
{
    let cs = chars_of(s);
    assert(cs@.take(cs.len() as int) == cs@);
    let (a, b) = trim_bounds(&cs, cs.len());
    slice_text(s, a, b)
}

/// Whether `c` is one of the ten decimal digits.
pub open spec fn is_digit(c: char) -> bool {
    0x30 <= c as u32 <= 0x39
}

/// The number that a text of decimal digits writes.
pub open spec fn digits_value(s: Seq<char>) -> int
    decreases s.len(),
{
    if s.len() == 0 {
        0
    } else {
        10 * digits_value(s.drop_last()) + (s.last() as u32 - 0x30)
    }
}

/// Every character of `s` is a decimal digit.
pub open spec fn all_digits(s: Seq<char>) -> bool {
    forall|i: int| 0 <= i < s.len() ==> is_digit(#[trigger] s[i])
}

/// The number that `s` writes in decimal: an optional sign, then at least
/// one digit and nothing else. Nothing where `s` is not of that form or the
/// number does not fit.
pub open spec fn decimal_i64(s: Seq<char>) -> Option<i64> {
    let signed = s.len() > 0 && (s[0] == '-' || s[0] == '+');
    let digits = if signed {
        s.drop_first()
    } else {
        s
    };
    let value = if signed && s[0] == '-' {
        -digits_value(digits)
    } else {
        digits_value(digits)
    };
    if digits.len() > 0 && all_digits(digits) && i64::MIN <= value <= i64::MAX {
        Some(value as i64)
    } else {
        None
    }
}

/// A number written in digits is no smaller than what a prefix of its
/// digits writes.
proof fn lemma_digits_grow(s: Seq<char>, k: int)
    requires
        all_digits(s),
        0 <= k <= s.len(),
    ensures
        0 <= digits_value(s.take(k)) <= digits_value(s),
    decreases s.len() - k,
{
    if k < s.len() {
        lemma_digits_grow(s, k + 1);
        assert(s.take(k + 1).drop_last() == s.take(k));
        assert(is_digit(s[k]));
        lemma_digits_nonnegative(s.take(k));
    } else {
        assert(s.take(k) == s);
        lemma_digits_nonnegative(s);
    }
}

/// Digits write no negative number.
proof fn lemma_digits_nonnegative(s: Seq<char>)
    requires
        all_digits(s),
    ensures
        0 <= digits_value(s),
    decreases s.len(),
{
    if s.len() > 0 {
        assert(is_digit(s.last()));
        lemma_digits_nonnegative(s.drop_last());
    }
}

/// Reads `s` as a decimal number.
pub fn parse_i64(s: &str) -> (r: Option<i64>)
    ensures
        r == decimal_i64(s@),
{
    let cs = chars_of(s);
    if cs.len() == 0 {
        return None;
    }
    let negative = cs[0] == '-';
    let start: usize = if negative || cs[0] == '+' {
        1
    } else {
        0
    };
    if start == cs.len() {
        return None;
    }
    let ghost digits = cs@.skip(start as int);
    let ghost signed = s@[0] == '-' || s@[0] == '+';
    assert(digits == if signed {
        s@.drop_first()
    } else {
        s@
    });
    let mut acc: i64 = 0;
    let mut i: usize = start;
    assert(digits.take(0).len() == 0);
    while i < cs.len()
        invariant
            start <= i <= cs.len(),
            start < cs.len(),
            cs@ == s@,
            signed == (s@[0] == '-' || s@[0] == '+'),
            negative == (s@[0] == '-'),
            digits == if signed {
                s@.drop_first()
            } else {
                s@
            },
            digits == cs@.skip(start as int),
            all_digits(digits.take(i - start)),
            negative ==> acc == -digits_value(digits.take(i - start)),
            !negative ==> acc == digits_value(digits.take(i - start)),
        decreases cs.len() - i,
    {
        let c = cs[i];
        let n: u32 = c as u32;
        let ghost before = digits.take(i - start);
        let ghost after = digits.take(i - start + 1);
        assert(after.drop_last() == before);
        assert(after.last() == c);
        if n < 0x30 || n > 0x39 {
            assert(!is_digit(digits[i - start]));
            return None;
        }
        assert(all_digits(after)) by {
            assert forall|j: int| 0 <= j < after.len() implies is_digit(#[trigger] after[j]) by {
                if j < before.len() {
                    assert(before[j] == after[j]);
                }
            }
        }
        let d: i64 = (n - 0x30) as i64;
        let next = if negative {
            match acc.checked_mul(10) {
                Some(m) => m.checked_sub(d),
                None => None,
            }
        } else {
            match acc.checked_mul(10) {
                Some(m) => m.checked_add(d),
                None => None,
            }
        };
        proof {
            lemma_digits_nonnegative(before);
        }
        match next {
            Some(v) => {
                acc = v;
            },
            None => {
                proof {
                    if all_digits(digits) {
                        lemma_digits_grow(digits, i - start + 1);
                    }
                }
                return None;
            },
        }
        i += 1;
    }
    assert(digits.take(i - start) == digits);
    Some(acc)
}

} // verus!
