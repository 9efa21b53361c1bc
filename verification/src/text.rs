//! Text helpers: decimal numbers, character pushes and character lists.
use vstd::prelude::*;

verus! {

/// The character of a decimal digit.
pub open spec fn digit_char(d: nat) -> char {
    ((48 + d) as u8) as char
}

/// The decimal digits of `n`, most significant first, without leading zeros.
pub open spec fn digits_spec(n: nat) -> Seq<char>
    decreases n,
{
    if n < 10 {
        seq![digit_char(n)]
    } else {
        digits_spec(n / 10).push(digit_char(n % 10))
    }
}

/// The decimal text of `v`, as `Display` writes an integer.
pub open spec fn decimal_spec(v: int) -> Seq<char> {
    if v < 0 {
        seq!['-'] + digits_spec((-v) as nat)
    } else {
        digits_spec(v as nat)
    }
}

/// `String::push`: appends one character.
#[verifier::external_body]
pub(crate) fn push_char(s: &mut String, c: char)
    ensures
        final(s)@ == old(s)@.push(c),
{
    s.push(c);
}

/// Appends the decimal digits of `n`.
fn push_digits(s: &mut String, n: u64)
    ensures
        final(s)@ == old(s)@ + digits_spec(n as nat),
    decreases n,
{
    if n >= 10 {
        push_digits(s, n / 10);
    }
    let d = (n % 10) as u8;
    push_char(s, (48u8 + d) as char);
    assert(s@ =~= old(s)@ + digits_spec(n as nat));
}

/// The decimal text of `v`.
pub fn decimal(v: i64) -> (s: String)
    ensures
        s@ == decimal_spec(v as int),
{
    let mut s = String::new();
    if v < 0 {
        push_char(&mut s, '-');
        let m: u64 = (-(v as i128)) as u64;
        push_digits(&mut s, m);
    } else {
        push_digits(&mut s, v as u64);
    }
    assert(s@ =~= decimal_spec(v as int));
    s
}

/// Appends the characters of `t` to `s`.
pub fn push_str(s: &mut String, t: &str)
    ensures
        final(s)@ == old(s)@ + t@,
{
    s.append(t);
}

/// The characters of `s`.
pub fn chars_of(s: &str) -> (out: Vec<char>)
    ensures
        out@ == s@,
{
    let n = s.unicode_len();
    let mut out: Vec<char> = Vec::new();
    let mut i: usize = 0;
    while i < n
        invariant
            n == s@.len(),
            i <= n,
            out@ == s@.subrange(0, i as int),
        decreases n - i,
    {
        out.push(s.get_char(i));
        i = i + 1;
        assert(out@ =~= s@.subrange(0, i as int));
    }
    assert(s@.subrange(0, n as int) =~= s@);
    out
}

/// A string built from `chars`.
pub fn string_of(chars: &Vec<char>) -> (s: String)
    ensures
        s@ == chars@,
{
    let mut s = String::new();
    let mut i: usize = 0;
    while i < chars.len()
        invariant
            i <= chars@.len(),
            s@ == chars@.subrange(0, i as int),
        decreases chars@.len() - i,
    {
        push_char(&mut s, chars[i]);
        i = i + 1;
        assert(s@ =~= chars@.subrange(0, i as int));
    }
    assert(chars@.subrange(0, i as int) =~= chars@);
    s
}

/// Whether two texts are equal.
pub fn text_eq(a: &str, b: &str) -> (r: bool)
    ensures
        r == (a@ == b@),
{
    let n = a.unicode_len();
    let m = b.unicode_len();
    if n != m {
        return false;
    }
    let mut i: usize = 0;
    while i < n
        invariant
            n == a@.len(),
            m == b@.len(),
            n == m,
            i <= n,
            a@.subrange(0, i as int) == b@.subrange(0, i as int),
        decreases n - i,
    {
        if a.get_char(i) != b.get_char(i) {
            assert(a@[i as int] != b@[i as int]);
            return false;
        }
        i = i + 1;
        assert(a@.subrange(0, i as int) =~= b@.subrange(0, i as int)) by {
            assert forall|j: int| 0 <= j < i implies a@.subrange(0, i as int)[j] == b@.subrange(
                0,
                i as int,
            )[j] by {
                if j < i - 1 {
                    assert(a@.subrange(0, i - 1)[j] == b@.subrange(0, i - 1)[j]);
                }
            }
        }
    }
    assert(a@ =~= a@.subrange(0, n as int));
    assert(b@ =~= b@.subrange(0, n as int));
    true
}

/// The pieces of `s` between occurrences of `sep`, as `str::split` yields
/// them for a one-character pattern.
pub open spec fn split_spec(s: Seq<char>, sep: char) -> Seq<Seq<char>>
    decreases s.len(),
{
    if s.len() == 0 {
        seq![Seq::<char>::empty()]
    } else if s.last() == sep {
        split_spec(s.drop_last(), sep).push(Seq::<char>::empty())
    } else {
        let r = split_spec(s.drop_last(), sep);
        r.update(r.len() - 1, r.last().push(s.last()))
    }
}

pub proof fn lemma_split_nonempty(s: Seq<char>, sep: char)
    ensures
        split_spec(s, sep).len() >= 1,
    decreases s.len(),
{
    if s.len() > 0 {
        lemma_split_nonempty(s.drop_last(), sep);
    }
}

/// The views of a list of strings.
pub open spec fn views(v: Seq<String>) -> Seq<Seq<char>> {
    v.map_values(|t: String| t@)
}

/// Splits `s` at every `sep`.
pub fn split_char(s: &str, sep: char) -> (r: Vec<String>)
    ensures
        views(r@) == split_spec(s@, sep),
{
    let chars = chars_of(s);
    let mut pieces: Vec<String> = Vec::new();
    let mut cur = String::new();
    let mut i: usize = 0;
    while i < chars.len()
        invariant
            chars@ == s@,
            i <= chars@.len(),
            views(pieces@).push(cur@) == split_spec(chars@.subrange(0, i as int), sep),
        decreases chars@.len() - i,
    {
        let ghost prev = chars@.subrange(0, i as int);
        let c = chars[i];
        assert(chars@.subrange(0, i + 1).drop_last() =~= prev);
        proof {
            lemma_split_nonempty(prev, sep);
        }
        if c == sep {
            let mut done = String::new();
            std::mem::swap(&mut done, &mut cur);
            pieces.push(done);
            assert(views(pieces@).push(cur@) =~= split_spec(prev, sep).push(Seq::<char>::empty()));
        } else {
            push_char(&mut cur, c);
            assert(views(pieces@).push(cur@) =~= {
                let r = split_spec(prev, sep);
                r.update(r.len() - 1, r.last().push(c))
            });
        }
        i = i + 1;
    }
    assert(chars@.subrange(0, i as int) =~= s@);
    pieces.push(cur);
    assert(views(pieces@) =~= views(pieces@.drop_last()).push(pieces@.last()@));
    pieces
}

/// `s` with every `from` replaced by `to`.
pub open spec fn replace_spec(s: Seq<char>, from: char, to: char) -> Seq<char> {
    s.map_values(|c: char| if c == from { to } else { c })
}

/// Replaces every `from` in `s` with `to`.
pub fn replace_char(s: &str, from: char, to: char) -> (r: String)
    ensures
        r@ == replace_spec(s@, from, to),
{
    let chars = chars_of(s);
    let mut out = String::new();
    let mut i: usize = 0;
    while i < chars.len()
        invariant
            chars@ == s@,
            i <= chars@.len(),
            out@ == replace_spec(chars@.subrange(0, i as int), from, to),
        decreases chars@.len() - i,
    {
        let c = chars[i];
        push_char(
            &mut out,
            if c == from {
                to
            } else {
                c
            },
        );
        i = i + 1;
        assert(out@ =~= replace_spec(chars@.subrange(0, i as int), from, to));
    }
    assert(chars@.subrange(0, i as int) =~= s@);
    out
}

/// The value of a digit in base 10 or 16.
pub open spec fn digit_value(c: char, radix: nat) -> Option<nat> {
    if '0' <= c <= '9' {
        Some((c as nat - '0' as nat) as nat)
    } else if radix == 16 && 'a' <= c <= 'f' {
        Some((c as nat - 'a' as nat + 10) as nat)
    } else if radix == 16 && 'A' <= c <= 'F' {
        Some((c as nat - 'A' as nat + 10) as nat)
    } else {
        None
    }
}

/// The value of a string of digits, when every character is a digit.
pub open spec fn digits_value(s: Seq<char>, radix: nat) -> Option<nat>
    decreases s.len(),
{
    if s.len() == 0 {
        Some(0)
    } else {
        match (digits_value(s.drop_last(), radix), digit_value(s.last(), radix)) {
            (Some(a), Some(d)) => Some(a * radix + d),
            _ => None,
        }
    }
}

/// What `from_str_radix` gives for an unsigned type whose largest value is
/// `max`: an optional `+`, then one or more digits, with a value up to `max`.
pub open spec fn parse_unsigned_spec(s: Seq<char>, radix: nat, max: nat) -> Option<nat> {
    let digits = if s.len() > 0 && s[0] == '+' {
        s.drop_first()
    } else {
        s
    };
    if digits.len() == 0 {
        None
    } else {
        match digits_value(digits, radix) {
            Some(v) => if v <= max {
                Some(v)
            } else {
                None
            },
            None => None,
        }
    }
}

/// The value of a digit in base 10 or 16.
fn digit_exec(c: char, radix: u32) -> (r: Option<u64>)
    requires
        radix == 10 || radix == 16,
    ensures
        r matches Some(d) ==> digit_value(c, radix as nat) == Some(d as nat) && d < radix,
        r is None ==> digit_value(c, radix as nat) is None,
{
    if '0' <= c && c <= '9' {
        Some((c as u32 - '0' as u32) as u64)
    } else if radix == 16 && 'a' <= c && c <= 'f' {
        Some((c as u32 - 'a' as u32 + 10) as u64)
    } else if radix == 16 && 'A' <= c && c <= 'F' {
        Some((c as u32 - 'A' as u32 + 10) as u64)
    } else {
        None
    }
}

/// Parses an unsigned number in base 10 or 16 whose value may not pass `max`.
pub fn parse_unsigned(s: &str, radix: u32, max: u64) -> (r: Option<u64>)
    requires
        radix == 10 || radix == 16,
        max < 0x1_0000_0000,
    ensures
        match parse_unsigned_spec(s@, radix as nat, max as nat) {
            Some(v) => r == Some(v as u64),
            None => r is None,
        },
{
    let chars = chars_of(s);
    let ghost full = s@;
    let start: usize = if chars.len() > 0 && chars[0] == '+' {
        1
    } else {
        0
    };
    let ghost digits = full.subrange(start as int, full.len() as int);
    assert(digits =~= (if full.len() > 0 && full[0] == '+' {
        full.drop_first()
    } else {
        full
    }));
    if chars.len() == start {
        return None;
    }
    let mut acc: u64 = 0;
    let mut i: usize = start;
    assert(full.subrange(start as int, start as int) =~= Seq::<char>::empty());
    while i < chars.len()
        invariant
            chars@ == full,
            full == s@,
            digits == full.subrange(start as int, full.len() as int),
            digits == (if full.len() > 0 && full[0] == '+' {
                full.drop_first()
            } else {
                full
            }),
            digits.len() > 0,
            start <= i <= chars@.len(),
            radix == 10 || radix == 16,
            max < 0x1_0000_0000,
            acc <= max + 1,
            digits_value(full.subrange(start as int, i as int), radix as nat) matches Some(v) && (
            if v <= max {
                acc == v
            } else {
                acc == max + 1
            }),
        decreases chars@.len() - i,
    {
        let ghost prefix = full.subrange(start as int, i as int);
        let ghost v = digits_value(prefix, radix as nat)->0;
        assert(full.subrange(start as int, i + 1).drop_last() =~= prefix);
        match digit_exec(chars[i], radix) {
            Some(d) => {
                let next = acc * (radix as u64) + d;
                proof {
                    if v > max {
                        assert(v * radix + d > max) by (nonlinear_arith)
                            requires
                                v > max,
                                radix >= 1,
                                d >= 0,
                        ;
                    }
                }
                acc = if next > max {
                    max + 1
                } else {
                    next
                };
            },
            None => {
                proof {
                    assert(full.subrange(start as int, i + 1).last() == chars@[i as int]);
                    assert(digits_value(full.subrange(start as int, i + 1), radix as nat) is None);
                    lemma_digits_invalid_suffix(full, start as int, (i + 1) as int, radix as nat);
                    assert(full.subrange(start as int, full.len() as int) =~= digits);
                }
                return None;
            },
        }
        i = i + 1;
    }
    assert(full.subrange(start as int, i as int) =~= digits);
    if acc > max {
        None
    } else {
        Some(acc)
    }
}

/// Once a prefix holds a character that is not a digit, so does every longer prefix.
proof fn lemma_digits_invalid_suffix(s: Seq<char>, start: int, i: int, radix: nat)
    requires
        0 <= start < i <= s.len(),
        digits_value(s.subrange(start, i), radix) is None,
    ensures
        digits_value(s.subrange(start, s.len() as int), radix) is None,
    decreases s.len() - i,
{
    if i < s.len() {
        assert(s.subrange(start, i + 1).drop_last() =~= s.subrange(start, i));
        lemma_digits_invalid_suffix(s, start, i + 1, radix);
    }
}


/// The texts `f(x)` of the items of `s`, one after another.
pub open spec fn concat_map<A>(s: Seq<A>, f: spec_fn(A) -> Seq<char>) -> Seq<char>
    decreases s.len(),
{
    if s.len() == 0 {
        Seq::empty()
    } else {
        concat_map(s.drop_last(), f) + f(s.last())
    }
}

/// The texts `f(x)` of the items of `s`, with `sep` between two of them.
pub open spec fn join_map<A>(s: Seq<A>, f: spec_fn(A) -> Seq<char>, sep: Seq<char>) -> Seq<char>
    decreases s.len(),
{
    if s.len() == 0 {
        Seq::empty()
    } else if s.len() == 1 {
        f(s[0])
    } else {
        join_map(s.drop_last(), f, sep) + sep + f(s.last())
    }
}

/// One more item of a concatenation.
pub proof fn lemma_concat_map_step<A>(s: Seq<A>, i: int, f: spec_fn(A) -> Seq<char>)
    requires
        0 <= i < s.len(),
    ensures
        concat_map(s.take(i + 1), f) == concat_map(s.take(i), f) + f(s[i]),
{
    assert(s.take(i + 1).drop_last() =~= s.take(i));
}

/// One more item of a joined text.
pub proof fn lemma_join_map_step<A>(s: Seq<A>, i: int, f: spec_fn(A) -> Seq<char>, sep: Seq<char>)
    requires
        0 <= i < s.len(),
    ensures
        i == 0 ==> join_map(s.take(i + 1), f, sep) == f(s[i]),
        i > 0 ==> join_map(s.take(i + 1), f, sep) == join_map(s.take(i), f, sep) + sep + f(s[i]),
{
    assert(s.take(i + 1).drop_last() =~= s.take(i));
}

/// `needle` stands somewhere in `hay`.
pub open spec fn contains_text(hay: Seq<char>, needle: Seq<char>) -> bool {
    exists|a: int| 0 <= a && a + needle.len() <= hay.len() && #[trigger] hay.subrange(a, a + needle.len()) == needle
}

/// A text stands in itself.
pub proof fn lemma_contains_self(t: Seq<char>)
    ensures
        contains_text(t, t),
{
    assert(t.subrange(0, 0 + t.len() as int) =~= t);
    assert(contains_text(t, t));
}

/// What stands in a text still stands in it with text before and after.
pub proof fn lemma_contains_within(pre: Seq<char>, t: Seq<char>, post: Seq<char>, needle: Seq<char>)
    requires
        contains_text(t, needle),
    ensures
        contains_text(pre + t + post, needle),
{
    let a = choose|a: int| 0 <= a && a + needle.len() <= t.len() && #[trigger] t.subrange(a, a + needle.len()) == needle;
    let b = pre.len() + a;
    assert((pre + t + post).subrange(b, b + needle.len()) =~= t.subrange(a, a + needle.len()));
}

/// Each item's text stands in a concatenation.
pub proof fn lemma_concat_map_contains<A>(s: Seq<A>, f: spec_fn(A) -> Seq<char>, i: int)
    requires
        0 <= i < s.len(),
    ensures
        contains_text(concat_map(s, f), f(s[i])),
    decreases s.len(),
{
    if i == s.len() - 1 {
        lemma_contains_self(f(s[i]));
        lemma_contains_within(concat_map(s.drop_last(), f), f(s[i]), Seq::empty(), f(s[i]));
        assert(concat_map(s.drop_last(), f) + f(s[i]) + Seq::<char>::empty() =~= concat_map(s, f));
    } else {
        lemma_concat_map_contains(s.drop_last(), f, i);
        assert(s.drop_last()[i] == s[i]);
        lemma_contains_within(Seq::empty(), concat_map(s.drop_last(), f), f(s.last()), f(s[i]));
        assert(Seq::<char>::empty() + concat_map(s.drop_last(), f) + f(s.last()) =~= concat_map(s, f));
    }
}

/// Each item's text stands in a joined text.
pub proof fn lemma_join_map_contains<A>(s: Seq<A>, f: spec_fn(A) -> Seq<char>, sep: Seq<char>, i: int)
    requires
        0 <= i < s.len(),
    ensures
        contains_text(join_map(s, f, sep), f(s[i])),
    decreases s.len(),
{
    if s.len() == 1 {
        lemma_contains_self(f(s[i]));
    } else if i == s.len() - 1 {
        lemma_contains_self(f(s[i]));
        lemma_contains_within(join_map(s.drop_last(), f, sep) + sep, f(s[i]), Seq::empty(), f(s[i]));
        assert(join_map(s.drop_last(), f, sep) + sep + f(s[i]) + Seq::<char>::empty() =~= join_map(s, f, sep));
    } else {
        lemma_join_map_contains(s.drop_last(), f, sep, i);
        assert(s.drop_last()[i] == s[i]);
        lemma_contains_within(Seq::empty(), join_map(s.drop_last(), f, sep), sep + f(s.last()), f(s[i]));
        assert(Seq::<char>::empty() + join_map(s.drop_last(), f, sep) + (sep + f(s.last())) =~= join_map(s, f, sep));
    }
}

/// The texts of `ts`, one after another.
pub open spec fn concat_all(ts: Seq<Seq<char>>) -> Seq<char> {
    concat_map(ts, |t: Seq<char>| t)
}

/// A concatenation of mapped items is the concatenation of their texts.
pub proof fn lemma_concat_map_all<A>(s: Seq<A>, f: spec_fn(A) -> Seq<char>)
    ensures
        concat_map(s, f) == concat_all(s.map_values(f)),
    decreases s.len(),
{
    if s.len() > 0 {
        assert(s.map_values(f).drop_last() =~= s.drop_last().map_values(f));
        lemma_concat_map_all(s.drop_last(), f);
    }
}

/// The concatenation of two lists of texts, one after the other.
pub proof fn lemma_concat_all_append(a: Seq<Seq<char>>, b: Seq<Seq<char>>)
    ensures
        concat_all(a + b) == concat_all(a) + concat_all(b),
    decreases b.len(),
{
    if b.len() == 0 {
        assert(a + b =~= a);
        assert(concat_all(a) + concat_all(b) =~= concat_all(a));
    } else {
        assert((a + b).drop_last() =~= a + b.drop_last());
        lemma_concat_all_append(a, b.drop_last());
        assert(concat_all(a + b) =~= concat_all(a) + concat_all(b));
    }
}

/// Four texts concatenated.
pub proof fn lemma_concat_all_four(t0: Seq<char>, t1: Seq<char>, t2: Seq<char>, t3: Seq<char>)
    ensures
        concat_all(seq![t0, t1, t2, t3]) == t0 + t1 + t2 + t3,
{
    let id = |t: Seq<char>| t;
    let s4 = seq![t0, t1, t2, t3];
    let s3 = seq![t0, t1, t2];
    let s2 = seq![t0, t1];
    let s1 = seq![t0];
    let s0 = Seq::<Seq<char>>::empty();
    assert(s4.drop_last() =~= s3);
    assert(s3.drop_last() =~= s2);
    assert(s2.drop_last() =~= s1);
    assert(s1.drop_last() =~= s0);
    assert(concat_map(s0, id) == Seq::<char>::empty());
    assert(concat_map(s1, id) == concat_map(s0, id) + t0);
    assert(concat_map(s2, id) == concat_map(s1, id) + t1);
    assert(concat_map(s3, id) == concat_map(s2, id) + t2);
    assert(concat_map(s4, id) == concat_map(s3, id) + t3);
    assert(concat_map(s4, id) =~= t0 + t1 + t2 + t3);
}

/// What stands in a text stands in any text that holds that text.
pub proof fn lemma_contains_trans(a: Seq<char>, b: Seq<char>, c: Seq<char>)
    requires
        contains_text(a, b),
        contains_text(b, c),
    ensures
        contains_text(a, c),
{
    let x = choose|x: int| 0 <= x && x + b.len() <= a.len() && #[trigger] a.subrange(x, x + b.len()) == b;
    let y = choose|y: int| 0 <= y && y + c.len() <= b.len() && #[trigger] b.subrange(y, y + c.len()) == c;
    assert(a.subrange(x + y, x + y + c.len()) =~= b.subrange(y, y + c.len()));
}

} // verus!
