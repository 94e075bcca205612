use vstd::prelude::*;

verus! {

/// Index of the last occurrence of `c` in `s`, or -1 when `c` does not occur.
pub open spec fn last_index_of(s: Seq<char>, c: char) -> int
    decreases s.len(),
{
    if s.len() == 0 {
        -1
    } else if s.last() == c {
        s.len() - 1
    } else {
        last_index_of(s.drop_last(), c)
    }
}

/// `s` cut at its last `c`: what stands before it and what stands after it,
/// or `None` when `c` does not occur in `s`.
pub open spec fn rsplit_once_spec(s: Seq<char>, c: char) -> Option<(Seq<char>, Seq<char>)> {
    let i = last_index_of(s, c);
    if i < 0 {
        None
    } else {
        Some((s.subrange(0, i), s.subrange(i + 1, s.len() as int)))
    }
}

/// The views of an optional pair of strings.
pub open spec fn pair_view(p: Option<(String, String)>) -> Option<(Seq<char>, Seq<char>)> {
    match p {
        Some((a, b)) => Some((a@, b@)),
        None => None,
    }
}

/// `last_index_of` finds the last occurrence, and none when there is none.
pub proof fn lemma_last_index_of(s: Seq<char>, c: char)
    ensures
        -1 <= last_index_of(s, c) < s.len(),
        last_index_of(s, c) >= 0 ==> s[last_index_of(s, c)] == c,
        forall|j: int| last_index_of(s, c) < j < s.len() ==> s[j] != c,
        last_index_of(s, c) < 0 <==> !s.contains(c),
    decreases s.len(),
{
    if s.len() > 0 {
        lemma_last_index_of(s.drop_last(), c);
        if s.last() != c {
            assert forall|j: int| 0 <= j < s.len() - 1 implies s[j] == s.drop_last()[j] by {}
            if s.contains(c) {
                let k = choose|k: int| 0 <= k < s.len() && s[k] == c;
                assert(s.drop_last()[k] == c);
            }
        } else {
            assert(s[s.len() - 1] == c);
        }
    }
}

/// The cut of `rsplit_once_spec` puts the parts back together around the
/// separator, and the part after it holds no separator.
pub proof fn lemma_rsplit_once(s: Seq<char>, c: char)
    ensures
        rsplit_once_spec(s, c) is None <==> !s.contains(c),
        rsplit_once_spec(s, c) matches Some((a, b)) ==> s == a + seq![c] + b && !b.contains(c),
{
    lemma_last_index_of(s, c);
    if let Some((a, b)) = rsplit_once_spec(s, c) {
        let i = last_index_of(s, c);
        assert(s =~= a + seq![c] + b);
        if b.contains(c) {
            let k = choose|k: int| 0 <= k < b.len() && b[k] == c;
            assert(s[i + 1 + k] == c);
        }
    }
}

/// A string made of `a`, then `c`, then `b` with no `c` in it, is cut at its
/// last `c` into exactly `a` and `b`.
pub proof fn lemma_rsplit_once_of_parts(s: Seq<char>, c: char, a: Seq<char>, b: Seq<char>)
    requires
        s == a + seq![c] + b,
        !b.contains(c),
    ensures
        rsplit_once_spec(s, c) == Some((a, b)),
{
    lemma_last_index_of(s, c);
    let p = a.len() as int;
    assert(s[p] == c);
    assert(s.contains(c));
    let li = last_index_of(s, c);
    if li < p {
        assert(s[p] != c);
    }
    if li > p {
        assert(b[li - p - 1] == s[li]);
        assert(b.contains(c));
    }
    assert(li == p);
    assert(s.subrange(0, p) =~= a);
    assert(s.subrange(p + 1, s.len() as int) =~= b);
}

/// Splits `s` at the last occurrence of `sep`, as `str::rsplit_once` does.
pub fn rsplit_once_char(s: &str, sep: char) -> (r: Option<(String, String)>)
    ensures
        pair_view(r) == rsplit_once_spec(s@, sep),
{
    let n = s.unicode_len();
    let mut i = n;
    assert(s@.take(n as int) =~= s@);
    while i > 0
        invariant
            i <= n,
            n == s@.len(),
            last_index_of(s@, sep) == last_index_of(s@.take(i as int), sep),
        decreases i,
    {
        assert(s@.take(i as int).drop_last() =~= s@.take(i - 1));
        if s.get_char(i - 1) == sep {
            let before = String::from_str(s.substring_char(0, i - 1));
            let after = String::from_str(s.substring_char(i, n));
            return Some((before, after));
        }
        i = i - 1;
    }
    None
}

/// `s` without the copies of `c` at its start.
pub open spec fn skip_leading(s: Seq<char>, c: char) -> Seq<char>
    decreases s.len(),
{
    if s.len() > 0 && s[0] == c {
        skip_leading(s.drop_first(), c)
    } else {
        s
    }
}

/// `s` without the copies of `c` at its end.
pub open spec fn skip_trailing(s: Seq<char>, c: char) -> Seq<char>
    decreases s.len(),
{
    if s.len() > 0 && s.last() == c {
        skip_trailing(s.drop_last(), c)
    } else {
        s
    }
}

/// `s` without the copies of `c` at either end, as `str::trim_matches` gives it.
pub open spec fn trim_matches_spec(s: Seq<char>, c: char) -> Seq<char> {
    skip_trailing(skip_leading(s, c), c)
}

/// `s` with every `c` taken out, the rest in order.
pub open spec fn remove_all(s: Seq<char>, c: char) -> Seq<char>
    decreases s.len(),
{
    if s.len() == 0 {
        s
    } else if s.last() == c {
        remove_all(s.drop_last(), c)
    } else {
        remove_all(s.drop_last(), c).push(s.last())
    }
}

/// The index of the first character of `s` that is not `c`, at or after
/// `start`; the length of `s` when there is none.
fn skip_leading_from(s: &str, n: usize, c: char) -> (start: usize)
    requires
        n == s@.len(),
    ensures
        start <= n,
        skip_leading(s@, c) == s@.subrange(start as int, n as int),
{
    let mut start: usize = 0;
    assert(s@.skip(0) =~= s@);
    while start < n
        invariant
            start <= n,
            n == s@.len(),
            skip_leading(s@, c) == skip_leading(s@.skip(start as int), c),
        ensures
            start <= n,
            skip_leading(s@, c) == skip_leading(s@.skip(start as int), c),
            start == n || s@[start as int] != c,
        decreases n - start,
    {
        if s.get_char(start) != c {
            break;
        }
        assert(s@.skip(start as int).drop_first() =~= s@.skip(start + 1));
        start = start + 1;
    }
    assert(s@.skip(start as int) =~= s@.subrange(start as int, n as int));
    start
}

/// Takes every `"` off both ends of `raw`, then every backslash out of what
/// is left: the text of the fleet configuration that a deployment shadow
/// carries as an escaped JSON string.
pub fn unescape_fleet_config(raw: &str) -> (r: String)
    ensures
        r@ == remove_all(trim_matches_spec(raw@, '"'), '\\'),
{
    let n = raw.unicode_len();
    let start = skip_leading_from(raw, n, '"');
    let mut end = n;
    while end > start
        invariant
            start <= end <= n,
            n == raw@.len(),
            skip_leading(raw@, '"') == raw@.subrange(start as int, n as int),
            trim_matches_spec(raw@, '"') == skip_trailing(raw@.subrange(start as int, end as int), '"'),
        ensures
            start <= end <= n,
            trim_matches_spec(raw@, '"') == skip_trailing(raw@.subrange(start as int, end as int), '"'),
            end == start || raw@[end - 1] != '"',
        decreases end,
    {
        if raw.get_char(end - 1) != '"' {
            break;
        }
        assert(raw@.subrange(start as int, end as int).drop_last() =~= raw@.subrange(start as int, end - 1));
        end = end - 1;
    }
    let ghost trimmed = raw@.subrange(start as int, end as int);
    assert(trim_matches_spec(raw@, '"') == trimmed);
    let mut out = String::new();
    let mut k = start;
    assert(raw@.subrange(start as int, start as int) =~= Seq::<char>::empty());
    while k < end
        invariant
            start <= k <= end <= n,
            n == raw@.len(),
            out@ == remove_all(raw@.subrange(start as int, k as int), '\\'),
        decreases end - k,
    {
        let ch = raw.get_char(k);
        assert(raw@.subrange(start as int, k + 1).drop_last() =~= raw@.subrange(start as int, k as int));
        if ch != '\\' {
            let piece = raw.substring_char(k, k + 1);
            assert(piece@ =~= seq![ch]);
            out.append(piece);
            assert(out@ =~= remove_all(raw@.subrange(start as int, k as int), '\\').push(ch));
        }
        k = k + 1;
    }
    out
}

/// Whether `c` is an ASCII decimal digit.
pub open spec fn is_digit(c: char) -> bool {
    '0' <= c && c <= '9'
}

/// The value of the decimal digit `c`.
pub open spec fn digit_value(c: char) -> int {
    c as int - '0' as int
}

/// The value of the decimal numeral `s`.
pub open spec fn decimal_value(s: Seq<char>) -> int
    decreases s.len(),
{
    if s.len() == 0 {
        0
    } else {
        decimal_value(s.drop_last()) * 10 + digit_value(s.last())
    }
}

/// Whether every character of `s` is a decimal digit.
pub open spec fn all_digits(s: Seq<char>) -> bool {
    forall|i: int| 0 <= i < s.len() ==> is_digit(#[trigger] s[i])
}

/// `s` without one leading `+`.
pub open spec fn unsigned_digits(s: Seq<char>) -> Seq<char> {
    if s.len() > 0 && s[0] == '+' {
        s.drop_first()
    } else {
        s
    }
}

/// The `u8` that `s` writes in decimal, as `<u8 as FromStr>::from_str` reads
/// it: one optional `+`, then one or more digits whose value fits in a `u8`.
pub open spec fn parse_u8_spec(s: Seq<char>) -> Option<u8> {
    let d = unsigned_digits(s);
    if d.len() > 0 && all_digits(d) && decimal_value(d) <= 255 {
        Some(decimal_value(d) as u8)
    } else {
        None
    }
}

/// A value, or 256 where it is larger.
pub open spec fn capped(v: int) -> int {
    if v > 256 {
        256
    } else {
        v
    }
}

proof fn lemma_decimal_value_nonneg(s: Seq<char>)
    requires
        all_digits(s),
    ensures
        decimal_value(s) >= 0,
    decreases s.len(),
{
    if s.len() > 0 {
        assert(is_digit(s[s.len() - 1]));
        assert(all_digits(s.drop_last())) by {
            assert forall|i: int| 0 <= i < s.drop_last().len() implies is_digit(#[trigger] s.drop_last()[i]) by {
                assert(s.drop_last()[i] == s[i]);
            }
        }
        lemma_decimal_value_nonneg(s.drop_last());
    }
}

/// Reads a `u8` written in decimal, as `str::parse::<u8>` does; `None` where
/// that gives an error.
pub fn parse_u8(s: &str) -> (r: Option<u8>)
    ensures
        r == parse_u8_spec(s@),
{
    let n = s.unicode_len();
    let mut i: usize = 0;
    if n > 0 && s.get_char(0) == '+' {
        i = 1;
    }
    let ghost d = unsigned_digits(s@);
    assert(d =~= s@.subrange(i as int, n as int));
    if i >= n {
        return None;
    }
    let mut acc: u32 = 0;
    let mut k = i;
    assert(s@.subrange(i as int, i as int) =~= Seq::<char>::empty());
    while k < n
        invariant
            i <= k <= n,
            n == s@.len(),
            d == s@.subrange(i as int, n as int),
            d == unsigned_digits(s@),
            all_digits(s@.subrange(i as int, k as int)),
            acc == capped(decimal_value(s@.subrange(i as int, k as int))),
        decreases n - k,
    {
        let c = s.get_char(k);
        if !('0' <= c && c <= '9') {
            assert(d[k - i] == c);
            assert(!is_digit(d[k - i]));
            assert(!all_digits(d));
            return None;
        }
        let ghost prev = s@.subrange(i as int, k as int);
        let ghost next = s@.subrange(i as int, k + 1);
        assert(next.drop_last() =~= prev);
        assert(next.last() == c);
        assert(all_digits(next)) by {
            assert forall|j: int| 0 <= j < next.len() implies is_digit(#[trigger] next[j]) by {
                if j < prev.len() {
                    assert(next[j] == prev[j]);
                }
            }
        }
        proof {
            lemma_decimal_value_nonneg(prev);
        }
        let digit = (c as u32) - ('0' as u32);
        acc = acc * 10 + digit;
        if acc > 256 {
            acc = 256;
        }
        k = k + 1;
    }
    assert(s@.subrange(i as int, n as int) == d);
    if acc <= 255 {
        Some(acc as u8)
    } else {
        None
    }
}

} // verus!
