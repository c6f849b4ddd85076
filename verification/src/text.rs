//! Text helpers: trimming, line splitting and decimal numbers over strings.

use vstd::prelude::*;

verus! {

/// The position of the first `x` in `s`, or the length of `s` if there is none.
pub open spec fn find<T>(s: Seq<T>, x: T) -> int
    decreases s.len(),
{
    if s.len() == 0 || s[0] == x {
        0
    } else {
        1 + find(s.skip(1), x)
    }
}

/// `find` is the only position with nothing equal to `x` before it and `x` on it.
pub proof fn lemma_find<T>(s: Seq<T>, x: T, k: int)
    requires
        0 <= k <= s.len(),
        forall|i: int| 0 <= i < k ==> s[i] != x,
        k < s.len() ==> s[k] == x,
    ensures
        find(s, x) == k,
    decreases s.len(),
{
    if k > 0 {
        assert forall|i: int| 0 <= i < k - 1 implies s.skip(1)[i] != x by {
            assert(s.skip(1)[i] == s[i + 1]);
        }
        lemma_find(s.skip(1), x, k - 1);
    }
}

/// What `find` returns lies within the sequence.
pub proof fn lemma_find_bounds<T>(s: Seq<T>, x: T)
    ensures
        0 <= find(s, x) <= s.len(),
        forall|i: int| 0 <= i < find(s, x) ==> s[i] != x,
        find(s, x) < s.len() ==> s[find(s, x)] == x,
    decreases s.len(),
{
    if s.len() > 0 && s[0] != x {
        lemma_find_bounds(s.skip(1), x);
        assert forall|i: int| 0 <= i < find(s, x) implies s[i] != x by {
            if i > 0 {
                assert(s.skip(1)[i - 1] == s[i]);
            }
        }
    }
}

/// The characters of a string.
pub fn chars_of(s: &str) -> (chars: Vec<char>)
    ensures
        chars@ == s@,
{
    let mut chars: Vec<char> = Vec::new();
    for c in it: s.chars()
        invariant
            chars@ == it.seq().take(it.index() as int),
            it.seq() == s@,
    {
        chars.push(c);
    }
    chars
}

/// Unicode's `White_Space` property.
pub open spec fn is_space(c: char) -> bool {
    let u = c as u32;
    ||| 0x09 <= u <= 0x0d
    ||| u == 0x20
    ||| u == 0x85
    ||| u == 0xa0
    ||| u == 0x1680
    ||| 0x2000 <= u <= 0x200a
    ||| u == 0x2028
    ||| u == 0x2029
    ||| u == 0x202f
    ||| u == 0x205f
    ||| u == 0x3000
}

/// Whether `c` is white space.
pub fn space(c: char) -> (b: bool)
    ensures
        b == is_space(c),
{
    let u: u32 = c as u32;
    (0x09 <= u && u <= 0x0d) || u == 0x20 || u == 0x85 || u == 0xa0 || u == 0x1680 || (0x2000 <= u
        && u <= 0x200a) || u == 0x2028 || u == 0x2029 || u == 0x202f || u == 0x205f || u == 0x3000
}

/// `s` without its leading white space.
pub open spec fn trimmed_start(s: Seq<char>) -> Seq<char>
    decreases s.len(),
{
    if s.len() > 0 && is_space(s[0]) {
        trimmed_start(s.skip(1))
    } else {
        s
    }
}

/// `s` without its trailing white space.
pub open spec fn trimmed_end(s: Seq<char>) -> Seq<char>
    decreases s.len(),
{
    if s.len() > 0 && is_space(s.last()) {
        trimmed_end(s.drop_last())
    } else {
        s
    }
}

/// `s` without its leading and trailing white space.
pub open spec fn trimmed(s: Seq<char>) -> Seq<char> {
    trimmed_end(trimmed_start(s))
}

proof fn lemma_trimmed_start(s: Seq<char>, i: int)
    requires
        0 <= i <= s.len(),
        forall|j: int| 0 <= j < i ==> is_space(#[trigger] s[j]),
        i < s.len() ==> !is_space(s[i]),
    ensures
        trimmed_start(s) == s.skip(i),
    decreases i,
{
    if i > 0 {
        assert(is_space(s[0]));
        assert forall|j: int| 0 <= j < i - 1 implies is_space(#[trigger] s.skip(1)[j]) by {
            assert(s.skip(1)[j] == s[j + 1]);
        }
        lemma_trimmed_start(s.skip(1), i - 1);
        assert(s.skip(1).skip(i - 1) =~= s.skip(i));
    } else {
        assert(s.skip(0) =~= s);
    }
}

proof fn lemma_trimmed_end(s: Seq<char>, k: int)
    requires
        0 <= k <= s.len(),
        forall|j: int| k <= j < s.len() ==> is_space(#[trigger] s[j]),
        k > 0 ==> !is_space(s[k - 1]),
    ensures
        trimmed_end(s) == s.take(k),
    decreases s.len(),
{
    if k < s.len() {
        assert(is_space(s[s.len() - 1]));
        assert forall|j: int| k <= j < s.len() - 1 implies is_space(
            #[trigger] s.drop_last()[j],
        ) by {
            assert(s.drop_last()[j] == s[j]);
        }
        lemma_trimmed_end(s.drop_last(), k);
        assert(s.drop_last().take(k) =~= s.take(k));
    } else {
        assert(s.take(k) =~= s);
    }
}

/// A trimmed text begins and ends with a character that is no white space, unless it is empty.
pub proof fn trimmed_has_no_outer_space(s: Seq<char>)
    ensures
        trimmed(s).len() > 0 ==> !is_space(trimmed(s)[0]) && !is_space(trimmed(s).last()),
{
    lemma_trim_bounds(s);
}

/// Trimming twice changes nothing more.
pub proof fn trim_is_idempotent(s: Seq<char>)
    ensures
        trimmed(trimmed(s)) == trimmed(s),
{
    trimmed_has_no_outer_space(s);
    let t = trimmed(s);
    if t.len() > 0 {
        assert(trimmed_start(t) == t);
        assert(trimmed_end(t) == t);
    }
}

/// Some stretch of `s` is what trimming leaves of it.
proof fn lemma_trim_bounds(s: Seq<char>) -> (r: (int, int))
    ensures
        0 <= r.0 <= r.1 <= s.len(),
        trimmed(s) == s.subrange(r.0, r.1),
        r.0 < r.1 ==> !is_space(s[r.0]) && !is_space(s[r.1 - 1]),
    decreases s.len(),
{
    if s.len() == 0 {
        assert(s.subrange(0, 0) =~= s);
        (0, 0)
    } else if is_space(s[0]) {
        let r = lemma_trim_bounds(s.skip(1));
        assert(s.skip(1).subrange(r.0, r.1) =~= s.subrange(r.0 + 1, r.1 + 1));
        (r.0 + 1, r.1 + 1)
    } else {
        let k = lemma_trim_end_bound(s);
        assert(s.take(k) =~= s.subrange(0, k));
        (0, k)
    }
}

proof fn lemma_trim_end_bound(s: Seq<char>) -> (k: int)
    ensures
        0 <= k <= s.len(),
        trimmed_end(s) == s.take(k),
        k > 0 ==> !is_space(s[k - 1]),
    decreases s.len(),
{
    if s.len() > 0 && is_space(s.last()) {
        let k = lemma_trim_end_bound(s.drop_last());
        assert(s.drop_last().take(k) =~= s.take(k));
        k
    } else {
        assert(s.take(s.len() as int) =~= s);
        s.len() as int
    }
}

/// `s` without its leading and trailing white space.
pub fn trim(s: &str) -> (r: String)
    ensures
        r@ == trimmed(s@),
{
    let chars = chars_of(s);
    let n: usize = chars.len();
    let mut i: usize = 0;
    while i < n && space(chars[i])
        invariant
            i <= n,
            n == chars@.len(),
            forall|j: int| 0 <= j < i ==> is_space(#[trigger] chars@[j]),
        decreases n - i,
    {
        i = i + 1;
    }
    let mut k: usize = n;
    while k > i && space(chars[k - 1])
        invariant
            i <= k <= n,
            n == chars@.len(),
            forall|j: int| k <= j < n ==> is_space(#[trigger] chars@[j]),
        decreases k,
    {
        k = k - 1;
    }
    proof {
        lemma_trimmed_start(s@, i as int);
        let rest = s@.skip(i as int);
        assert forall|j: int| k - i <= j < rest.len() implies is_space(#[trigger] rest[j]) by {
            assert(rest[j] == chars@[j + i]);
        }
        lemma_trimmed_end(rest, k - i);
        assert(rest.take(k - i) =~= s@.subrange(i as int, k as int));
    }
    s.substring_char(i, k).to_owned()
}

/// A line without the carriage return that ends it, if one does.
pub open spec fn without_cr(s: Seq<char>) -> Seq<char> {
    if s.len() > 0 && s.last() == '\r' {
        s.drop_last()
    } else {
        s
    }
}

/// The lines of a text: each ends at a line feed, with or without a carriage return before it;
/// the last one need not end so.
pub open spec fn lines_of(s: Seq<char>) -> Seq<Seq<char>>
    decreases s.len(),
{
    let k = find(s, '\n');
    if s.len() == 0 {
        Seq::empty()
    } else if k == s.len() {
        seq![s]
    } else {
        proof {
            lemma_find_bounds(s, '\n');
        }
        seq![without_cr(s.take(k))] + lines_of(s.skip(k + 1))
    }
}

/// The texts that a sequence of strings holds.
pub open spec fn texts(v: Seq<String>) -> Seq<Seq<char>> {
    Seq::new(v.len(), |i: int| v[i]@)
}

/// The text that an optional string holds.
pub open spec fn opt_text(o: Option<String>) -> Option<Seq<char>> {
    match o {
        Some(s) => Some(s@),
        None => None,
    }
}

/// The position of the first `x` at or after `from`, or the length.
fn position_from(v: &Vec<char>, x: char, from: usize) -> (k: usize)
    requires
        from <= v@.len(),
    ensures
        from <= k <= v@.len(),
        k - from == find(v@.skip(from as int), x),
{
    let mut k: usize = from;
    while k < v.len() && v[k] != x
        invariant
            from <= k <= v@.len(),
            forall|i: int| from <= i < k ==> v@[i] != x,
        decreases v@.len() - k,
    {
        k = k + 1;
    }
    proof {
        lemma_find(v@.skip(from as int), x, k - from);
    }
    k
}

/// The lines of a text.
pub fn lines(s: &str) -> (r: Vec<String>)
    ensures
        texts(r@) == lines_of(s@),
{
    let chars = chars_of(s);
    let n: usize = chars.len();
    let mut out: Vec<String> = Vec::new();
    let mut start: usize = 0;
    assert(chars@.skip(0) =~= chars@);
    while start < n
        invariant
            start <= n,
            n == chars@.len(),
            chars@ == s@,
            texts(out@) + lines_of(chars@.skip(start as int)) == lines_of(chars@),
        decreases n - start,
    {
        let ghost before = out@;
        let ghost rest = chars@.skip(start as int);
        let k: usize = position_from(&chars, '\n', start);
        if k == n {
            let line = s.substring_char(start, n).to_owned();
            out.push(line);
            assert(line@ =~= rest);
            assert(texts(out@) =~= texts(before).push(line@));
            assert(lines_of(rest) =~= seq![rest]);
            start = n;
            assert(chars@.skip(start as int) =~= Seq::<char>::empty());
            assert(lines_of(chars@.skip(start as int)) =~= Seq::<Seq<char>>::empty());
        } else {
            let mut end: usize = k;
            if k > start && chars[k - 1] == '\r' {
                end = k - 1;
            }
            let line = s.substring_char(start, end).to_owned();
            out.push(line);
            assert(line@ =~= without_cr(rest.take(k - start)));
            assert(texts(out@) =~= texts(before).push(line@));
            assert(rest.skip(k - start + 1) =~= chars@.skip(k + 1));
            assert(lines_of(rest) == seq![line@] + lines_of(chars@.skip(k + 1)));
            assert(texts(before) + (seq![line@] + lines_of(chars@.skip(k + 1))) =~= texts(before).push(
                line@,
            ) + lines_of(chars@.skip(k + 1)));
            start = k + 1;
        }
    }
    assert(chars@.skip(start as int) =~= Seq::<char>::empty());
    assert(texts(out@) + lines_of(chars@.skip(start as int)) =~= texts(out@));
    out
}

/// The pieces of `s` between the occurrences of `x`.
pub open spec fn pieces<T>(s: Seq<T>, x: T) -> Seq<Seq<T>>
    decreases s.len(),
{
    let k = find(s, x);
    if k < s.len() {
        proof {
            lemma_find_bounds(s, x);
        }
        seq![s.take(k)] + pieces(s.skip(k + 1), x)
    } else {
        seq![s]
    }
}

/// The first two pieces of `s` between the occurrences of `x`, if there are two.
pub fn first_two_pieces(s: &str, x: char) -> (r: Option<(String, String)>)
    ensures
        r is None <==> pieces(s@, x).len() < 2,
        r matches Some((a, b)) ==> a@ == pieces(s@, x)[0] && b@ == pieces(s@, x)[1],
{
    let chars = chars_of(s);
    let n: usize = chars.len();
    let i: usize = position_from(&chars, x, 0);
    assert(chars@.skip(0) =~= chars@);
    if i == n {
        return None;
    }
    let j: usize = position_from(&chars, x, i + 1);
    proof {
        let rest = s@.skip(i + 1);
        assert(s@.take(i as int) =~= s@.subrange(0, i as int));
        assert(pieces(s@, x) == seq![s@.take(i as int)] + pieces(rest, x));
        assert(pieces(rest, x).len() >= 1);
        assert(pieces(rest, x)[0] =~= s@.subrange(i + 1, j as int));
    }
    Some((s.substring_char(0, i).to_owned(), s.substring_char(i + 1, j).to_owned()))
}

/// What follows `prefix` in `s`, if `s` begins with it.
pub open spec fn after_prefix(s: Seq<char>, prefix: Seq<char>) -> Option<Seq<char>> {
    if prefix.len() <= s.len() && s.take(prefix.len() as int) == prefix {
        Some(s.skip(prefix.len() as int))
    } else {
        None
    }
}

/// What follows `prefix` in `s`, if `s` begins with it.
pub fn strip_prefix(s: &str, prefix: &str) -> (r: Option<String>)
    ensures
        opt_text(r) == after_prefix(s@, prefix@),
{
    let n: usize = s.unicode_len();
    let m: usize = prefix.unicode_len();
    if m > n {
        return None;
    }
    let head = s.substring_char(0, m).to_owned();
    let wanted = prefix.to_owned();
    assert(s@.take(m as int) =~= s@.subrange(0, m as int));
    if head == wanted {
        assert(s@.skip(m as int) =~= s@.subrange(m as int, n as int));
        Some(s.substring_char(m, n).to_owned())
    } else {
        None
    }
}

/// Whether `part` occurs in `s`.
pub open spec fn occurs(s: Seq<char>, part: Seq<char>) -> bool {
    exists|i: int|
        0 <= i <= s.len() - part.len() && #[trigger] s.subrange(i, i + part.len()) == part
}

/// Whether `part` occurs in `s`.
pub fn contains(s: &str, part: &str) -> (b: bool)
    ensures
        b == occurs(s@, part@),
{
    let n: usize = s.unicode_len();
    let m: usize = part.unicode_len();
    if m > n {
        return false;
    }
    let wanted = part.to_owned();
    let mut i: usize = 0;
    while i <= n - m
        invariant
            m <= n,
            n == s@.len(),
            m == part@.len(),
            wanted@ == part@,
            i <= n - m + 1,
            forall|j: int| 0 <= j < i ==> #[trigger] s@.subrange(j, j + m) != part@,
        decreases n - m + 1 - i,
    {
        let here = s.substring_char(i, i + m).to_owned();
        if here == wanted {
            assert(s@.subrange(i as int, i + part@.len()) == part@);
            return true;
        }
        if i == n - m {
            assert forall|j: int| 0 <= j <= n - m implies #[trigger] s@.subrange(j, j + m)
                != part@ by {}
            return false;
        }
        i = i + 1;
    }
    false
}

/// Whether `c` is one of the ten decimal digits.
pub open spec fn is_digit(c: char) -> bool {
    '0' <= c <= '9'
}

/// The number that a run of decimal digits denotes.
pub open spec fn digits_value(d: Seq<char>) -> int
    decreases d.len(),
{
    if d.len() == 0 {
        0
    } else {
        10 * digits_value(d.drop_last()) + (d.last() as int - '0' as int)
    }
}

/// Whether `d` holds nothing but decimal digits.
pub open spec fn all_digits(d: Seq<char>) -> bool {
    forall|i: int| 0 <= i < d.len() ==> is_digit(#[trigger] d[i])
}

/// `s` without the plus sign that it begins with, if it does.
pub open spec fn without_plus(s: Seq<char>) -> Seq<char> {
    if s.len() > 0 && s[0] == '+' {
        s.skip(1)
    } else {
        s
    }
}

/// The unsigned number of up to `u32::MAX` that a text denotes: decimal digits, at least one of
/// them, with an optional plus sign before them.
pub open spec fn number_of(s: Seq<char>) -> Option<u32> {
    let d = without_plus(s);
    if d.len() > 0 && all_digits(d) && digits_value(d) <= u32::MAX {
        Some(digits_value(d) as u32)
    } else {
        None
    }
}

proof fn lemma_digits_value_grows(d: Seq<char>, i: int)
    requires
        0 <= i <= d.len(),
        all_digits(d),
    ensures
        0 <= digits_value(d.take(i)) <= digits_value(d),
    decreases d.len(),
{
    if i == d.len() {
        assert(d.take(i) =~= d);
        if d.len() > 0 {
            assert(is_digit(d[d.len() - 1]));
            let e = d.drop_last();
            assert forall|j: int| 0 <= j < e.len() implies is_digit(#[trigger] e[j]) by {
                assert(e[j] == d[j]);
            }
            lemma_digits_value_grows(e, e.len() as int);
            assert(e.take(e.len() as int) =~= e);
        }
    } else {
        assert(is_digit(d[d.len() - 1]));
        let e = d.drop_last();
        assert forall|j: int| 0 <= j < e.len() implies is_digit(#[trigger] e[j]) by {
            assert(e[j] == d[j]);
        }
        lemma_digits_value_grows(e, i);
        assert(e.take(i) =~= d.take(i));
    }
}

/// The unsigned number that a text denotes, if it denotes one that fits.
pub fn parse_u32(s: &str) -> (r: Option<u32>)
    ensures
        r == number_of(s@),
{
    let chars = chars_of(s);
    let n: usize = chars.len();
    let mut start: usize = 0;
    if n > 0 && chars[0] == '+' {
        start = 1;
    }
    let ghost d = without_plus(s@);
    assert(d =~= chars@.skip(start as int));
    if start == n {
        return None;
    }
    let mut value: u32 = 0;
    let mut i: usize = start;
    assert(d.take(0) =~= Seq::<char>::empty());
    while i < n
        invariant
            start <= i <= n,
            n == chars@.len(),
            chars@ == s@,
            d == chars@.skip(start as int),
            d == without_plus(s@),
            forall|j: int| 0 <= j < i - start ==> is_digit(#[trigger] d[j]),
            value == digits_value(d.take(i - start)),
        decreases n - i,
    {
        let c: char = chars[i];
        assert(d[i - start] == c);
        if !('0' <= c && c <= '9') {
            assert(!is_digit(d[i - start]));
            return None;
        }
        let digit: u32 = c as u32 - '0' as u32;
        let ghost next = d.take(i - start + 1);
        assert(next.drop_last() =~= d.take(i - start));
        assert(digits_value(next) == 10 * value + digit);
        let wide: u64 = value as u64 * 10 + digit as u64;
        if wide > u32::MAX as u64 {
            proof {
                if all_digits(d) {
                    lemma_digits_value_grows(d, i - start + 1);
                }
            }
            return None;
        }
        value = wide as u32;
        i = i + 1;
    }
    assert(d.take(n - start) =~= d);
    Some(value)
}

/// The decimal digit of a number below ten.
pub open spec fn digit_char(n: int) -> char {
    ('0' as int + n) as char
}

/// A number in decimal, without leading zeros; a minus sign stands before a negative one.
pub open spec fn decimal(n: int) -> Seq<char>
    decreases
            (if n < 0 {
                1 - n
            } else {
                n
            }),
{
    if n < 0 {
        seq!['-'] + decimal(-n)
    } else if n < 10 {
        seq![digit_char(n)]
    } else {
        decimal(n / 10).push(digit_char(n % 10))
    }
}

/// Reading a number back from its decimal digits.
pub proof fn decimal_reads_back(n: u32)
    ensures
        number_of(decimal(n as int)) == Some(n),
{
    lemma_decimal_digits(n as int);
    assert(is_digit(decimal(n as int)[0]));
}

/// A number that is not negative is written with digits alone, at least one of them.
pub proof fn decimal_has_only_digits(n: u32)
    ensures
        decimal(n as int).len() > 0,
        all_digits(decimal(n as int)),
{
    lemma_decimal_digits(n as int);
}

proof fn lemma_decimal_digits(n: int)
    requires
        0 <= n,
    ensures
        decimal(n).len() > 0,
        all_digits(decimal(n)),
        digits_value(decimal(n)) == n,
    decreases n,
{
    if n < 10 {
        assert(decimal(n).drop_last() =~= Seq::<char>::empty());
        assert(digits_value(Seq::<char>::empty()) == 0);
    } else {
        lemma_decimal_digits(n / 10);
        assert(decimal(n).drop_last() =~= decimal(n / 10));
    }
}

/// Appends the decimal digits of `n`.
fn append_digits(out: &mut String, n: u64)
    ensures
        final(out)@ == old(out)@ + decimal(n as int),
    decreases n,
{
    let ghost start = out@;
    if n >= 10 {
        append_digits(out, n / 10);
    }
    let d: u64 = n % 10;
    proof {
        reveal_strlit("0");
        reveal_strlit("1");
        reveal_strlit("2");
        reveal_strlit("3");
        reveal_strlit("4");
        reveal_strlit("5");
        reveal_strlit("6");
        reveal_strlit("7");
        reveal_strlit("8");
        reveal_strlit("9");
    }
    let ghost mid = out@;
    if d == 0 {
        out.append("0");
    } else if d == 1 {
        out.append("1");
    } else if d == 2 {
        out.append("2");
    } else if d == 3 {
        out.append("3");
    } else if d == 4 {
        out.append("4");
    } else if d == 5 {
        out.append("5");
    } else if d == 6 {
        out.append("6");
    } else if d == 7 {
        out.append("7");
    } else if d == 8 {
        out.append("8");
    } else {
        out.append("9");
    }
    assert(out@ =~= mid.push(digit_char(d as int)));
    if n >= 10 {
        assert(out@ =~= start + decimal(n as int));
    } else {
        assert(mid =~= start);
        assert(out@ =~= start + decimal(n as int));
    }
}

/// Appends `n` in decimal.
pub fn append_decimal(out: &mut String, n: i64)
    ensures
        final(out)@ == old(out)@ + decimal(n as int),
{
    if n < 0 {
        let ghost start = out@;
        proof {
            reveal_strlit("-");
        }
        out.append("-");
        let m: u64 = (-(n as i128)) as u64;
        append_digits(out, m);
        assert(out@ =~= start + decimal(n as int));
    } else {
        append_digits(out, n as u64);
    }
}

/// The texts of `parts`, one after the other, with `sep` between each two.
pub open spec fn joined(parts: Seq<Seq<char>>, sep: Seq<char>) -> Seq<char>
    decreases parts.len(),
{
    if parts.len() == 0 {
        Seq::empty()
    } else if parts.len() == 1 {
        parts[0]
    } else {
        joined(parts.drop_last(), sep) + sep + parts.last()
    }
}

/// The strings of `parts`, one after the other, with `sep` between each two.
pub fn join(parts: &Vec<String>, sep: &str) -> (r: String)
    ensures
        r@ == joined(texts(parts@), sep@),
{
    let mut out = String::new();
    let mut i: usize = 0;
    assert(texts(parts@).take(0) =~= Seq::<Seq<char>>::empty());
    while i < parts.len()
        invariant
            i <= parts@.len(),
            out@ == joined(texts(parts@).take(i as int), sep@),
        decreases parts@.len() - i,
    {
        let ghost upto = texts(parts@).take(i + 1);
        assert(upto.drop_last() =~= texts(parts@).take(i as int));
        if i > 0 {
            out.append(sep);
        } else {
            assert(out@ + parts@[0]@ =~= parts@[0]@);
        }
        out.append(parts[i].as_str());
        i = i + 1;
    }
    assert(texts(parts@).take(i as int) =~= texts(parts@));
    out
}

/// The text that `String::from_utf8_lossy` makes of bytes.
pub uninterp spec fn lossy_text(bytes: Seq<u8>) -> Seq<char>;

/// `String::from_utf8_lossy`: the text of bytes, with U+FFFD in place of what is no UTF-8. The
/// result depends on the bytes alone; for valid UTF-8 it is the text that they encode.
#[verifier::external_body]
fn decode_lossy(bytes: &[u8]) -> (s: String)
    ensures
        s@ == lossy_text(bytes@),
        vstd::utf8::valid_utf8(bytes@) ==> s@ == vstd::utf8::decode_utf8(bytes@),
{
    String::from_utf8_lossy(bytes).into_owned()
}

/// The text that bytes stand for: what they encode where they are UTF-8; else what is made of
/// them by replacing the rest.
pub open spec fn decoded(bytes: Seq<u8>) -> Seq<char> {
    if vstd::utf8::valid_utf8(bytes) {
        vstd::utf8::decode_utf8(bytes)
    } else {
        lossy_text(bytes)
    }
}

/// The text that bytes stand for.
pub fn decode(bytes: &[u8]) -> (s: String)
    ensures
        s@ == decoded(bytes@),
{
    decode_lossy(bytes)
}

/// The bytes of a text stand for that text.
pub proof fn decoding_reads_back(s: Seq<char>)
    ensures
        decoded(vstd::utf8::encode_utf8(s)) == s,
{
    vstd::utf8::encode_utf8_valid_utf8(s);
    vstd::utf8::encode_utf8_decode_utf8(s);
}

/// Strings are told by their texts, one by one.
pub proof fn texts_follow_the_strings(v: Seq<String>, i: int, o: Option<String>)
    ensures
        texts(v).len() == v.len(),
        0 <= i < v.len() ==> texts(v)[i] == v[i]@,
        o matches Some(s) ==> opt_text(o) == Some(s@),
        o is None ==> opt_text(o) is None,
{
}

/// Trimming takes white space from both ends and nothing else.
pub proof fn trimming_takes_only_space(s: Seq<char>) -> (r: (Seq<char>, Seq<char>))
    ensures
        s == r.0 + trimmed(s) + r.1,
        forall|i: int| 0 <= i < r.0.len() ==> is_space(#[trigger] r.0[i]),
        forall|i: int| 0 <= i < r.1.len() ==> is_space(#[trigger] r.1[i]),
    decreases s.len(),
{
    if s.len() > 0 && is_space(s[0]) {
        let r = trimming_takes_only_space(s.skip(1));
        let before = seq![s[0]] + r.0;
        assert forall|i: int| 0 <= i < before.len() implies is_space(#[trigger] before[i]) by {
            if i > 0 {
                assert(before[i] == r.0[i - 1]);
            }
        }
        assert(seq![s[0]] + s.skip(1) =~= s);
        assert(s =~= before + trimmed(s) + r.1);
        (before, r.1)
    } else {
        let after = lemma_trimmed_off_the_end(s);
        assert(s =~= Seq::<char>::empty() + trimmed(s) + after);
        (Seq::empty(), after)
    }
}

proof fn lemma_trimmed_off_the_end(s: Seq<char>) -> (after: Seq<char>)
    ensures
        s == trimmed_end(s) + after,
        forall|i: int| 0 <= i < after.len() ==> is_space(#[trigger] after[i]),
    decreases s.len(),
{
    if s.len() > 0 && is_space(s.last()) {
        let rest = lemma_trimmed_off_the_end(s.drop_last());
        let after = rest.push(s.last());
        assert(s.drop_last().push(s.last()) =~= s);
        assert(s =~= trimmed_end(s) + after);
        after
    } else {
        assert(s =~= s + Seq::<char>::empty());
        Seq::empty()
    }
}

/// A line feed ends a line, with or without a carriage return before it, and the lines of what
/// follows are the other lines; what no line feed ends is one line, and nothing is none.
pub proof fn line_feeds_end_lines(line: Seq<char>, rest: Seq<char>)
    requires
        !line.contains('\n'),
    ensures
        lines_of(Seq::empty()) == Seq::<Seq<char>>::empty(),
        line.len() > 0 ==> lines_of(line) == seq![line],
        line.len() == 0 || line.last() != '\r' ==> lines_of(line + seq!['\n'] + rest) == seq![line]
            + lines_of(rest),
        lines_of(line + seq!['\r', '\n'] + rest) == seq![line] + lines_of(rest),
{
    assert forall|i: int| 0 <= i < line.len() implies line[i] != '\n' by {
        assert(line.contains(line[i]));
    }
    lemma_find(line, '\n', line.len() as int);
    let s = line + seq!['\n'] + rest;
    lemma_find(s, '\n', line.len() as int);
    assert(s.take(line.len() as int) =~= line);
    assert(s.skip(line.len() as int + 1) =~= rest);
    let t = line + seq!['\r', '\n'] + rest;
    let k = line.len() as int + 1;
    assert forall|i: int| 0 <= i < k implies t[i] != '\n' by {
        if i < line.len() {
            assert(t[i] == line[i]);
        }
    }
    lemma_find(t, '\n', k);
    assert(t.take(k) =~= line.push('\r'));
    assert(line.push('\r').drop_last() =~= line);
    assert(t.skip(k + 1) =~= rest);
}

/// A separator ends a piece, and the pieces of what follows are the other pieces; what holds no
/// separator is one piece.
pub proof fn separators_end_pieces<T>(piece: Seq<T>, x: T, rest: Seq<T>)
    requires
        !piece.contains(x),
    ensures
        pieces(piece, x) == seq![piece],
        pieces(piece + seq![x] + rest, x) == seq![piece] + pieces(rest, x),
{
    assert forall|i: int| 0 <= i < piece.len() implies piece[i] != x by {
        assert(piece.contains(piece[i]));
    }
    lemma_find(piece, x, piece.len() as int);
    let s = piece + seq![x] + rest;
    lemma_find(s, x, piece.len() as int);
    assert(s.take(piece.len() as int) =~= piece);
    assert(s.skip(piece.len() as int + 1) =~= rest);
}

/// What follows a prefix is what is left when the prefix is taken off, and a text without the
/// prefix has nothing that follows it.
pub proof fn prefixes_are_taken_off(s: Seq<char>, prefix: Seq<char>, rest: Seq<char>)
    ensures
        after_prefix(prefix + rest, prefix) == Some(rest),
        after_prefix(s, prefix) matches Some(r) ==> s == prefix + r,
        after_prefix(s, prefix) is None ==> s != prefix + rest,
{
    let whole = prefix + rest;
    assert(whole.take(prefix.len() as int) =~= prefix);
    assert(whole.skip(prefix.len() as int) =~= rest);
    if after_prefix(s, prefix) is Some {
        assert(s =~= s.take(prefix.len() as int) + s.skip(prefix.len() as int));
    }
}

/// A part occurs exactly where the text is something, the part, and something.
pub proof fn parts_occur_between(s: Seq<char>, part: Seq<char>, before: Seq<char>, after: Seq<char>)
    ensures
        occurs(before + part + after, part),
        occurs(s, part) ==> exists|i: int|
            0 <= i <= s.len() && #[trigger] s.take(i) + part + s.skip(i + part.len()) == s,
{
    let whole = before + part + after;
    let n = before.len() as int;
    assert(whole.subrange(n, n + part.len()) =~= part);
    if occurs(s, part) {
        let i = choose|i: int|
            0 <= i <= s.len() - part.len() && #[trigger] s.subrange(i, i + part.len()) == part;
        assert(s.take(i) + s.subrange(i, i + part.len()) + s.skip(i + part.len()) =~= s);
    }
}

/// A text denotes a number exactly where it is decimal digits, at least one, with or without one
/// plus sign before them, and the number fits; a digit put behind makes ten times the number and
/// that digit.
pub proof fn digits_denote_numbers(s: Seq<char>, d: Seq<char>, c: char)
    ensures
        number_of(s) is Some ==> s.len() > 0 && forall|i: int|
            0 < i < s.len() ==> '0' <= #[trigger] s[i] <= '9',
        number_of(s) is Some ==> '0' <= s[0] <= '9' || (s[0] == '+' && s.len() > 1),
        d.len() > 0 && d[0] != '+' ==> number_of(seq!['+'] + d) == number_of(d),
        digits_value(Seq::empty()) == 0,
        digits_value(d.push(c)) == 10 * digits_value(d) + (c as int - '0' as int),
        d.len() > 0 && d[0] != '+' && (forall|i: int| 0 <= i < d.len() ==> '0' <= #[trigger] d[i]
            <= '9') ==> (number_of(d) is Some <==> digits_value(d) <= 4294967295) && (number_of(
            d,
        ) matches Some(n) ==> n == digits_value(d)),
{
    assert(d.push(c).drop_last() =~= d);
    assert((seq!['+'] + d).skip(1) =~= d);
    if number_of(s) is Some {
        let e = without_plus(s);
        assert forall|i: int| 0 < i < s.len() implies '0' <= #[trigger] s[i] <= '9' by {
            if s[0] == '+' {
                assert(is_digit(e[i - 1]));
            } else {
                assert(is_digit(e[i]));
            }
        }
        if s[0] != '+' {
            assert(is_digit(e[0]));
        }
    }
    if d.len() > 0 && d[0] != '+' && (forall|i: int|
        0 <= i < d.len() ==> '0' <= #[trigger] d[i] <= '9') {
        assert(all_digits(d));
        lemma_digits_value_grows(d, 0);
        assert(d.take(0) =~= Seq::<char>::empty());
    }
}

/// A number in decimal is written with digits that denote it, without a leading zero; a negative
/// one with a minus sign before the digits of its opposite.
pub proof fn decimals_denote_the_number(n: int)
    ensures
        n >= 0 ==> digits_value(decimal(n)) == n && decimal(n).len() > 0 && forall|i: int|
            0 <= i < decimal(n).len() ==> '0' <= #[trigger] decimal(n)[i] <= '9',
        n > 0 ==> decimal(n)[0] != '0',
        n < 0 ==> decimal(n) == seq!['-'] + decimal(-n),
        n == 0 ==> decimal(n) == seq!['0'],
    decreases
            (if n < 0 {
                0
            } else {
                n
            }),
{
    if n >= 0 {
        lemma_decimal_digits(n);
        assert forall|i: int| 0 <= i < decimal(n).len() implies '0' <= #[trigger] decimal(n)[i]
            <= '9' by {
            assert(is_digit(decimal(n)[i]));
        }
        if n >= 10 {
            decimals_denote_the_number(n / 10);
            assert(decimal(n)[0] == decimal(n / 10)[0]);
        }
    }
}

/// Joining nothing gives nothing, joining one part gives that part, and joining more puts the
/// separator between what the first and what the others give.
pub proof fn joining_puts_separators_between(
    part: Seq<char>,
    first: Seq<Seq<char>>,
    second: Seq<Seq<char>>,
    sep: Seq<char>,
)
    ensures
        joined(Seq::empty(), sep) == Seq::<char>::empty(),
        joined(seq![part], sep) == part,
        first.len() > 0 && second.len() > 0 ==> joined(first + second, sep) == joined(first, sep)
            + sep + joined(second, sep),
    decreases second.len(),
{
    if first.len() > 0 && second.len() > 0 {
        let all = first + second;
        assert(all.drop_last() =~= first + second.drop_last());
        assert(all.last() == second.last());
        if second.len() == 1 {
            assert(first + second.drop_last() =~= first);
        } else {
            joining_puts_separators_between(part, first, second.drop_last(), sep);
            assert(joined(all, sep) =~= joined(first, sep) + sep + joined(second, sep));
        }
    }
}

/// Bytes that are no text stand for what `String::from_utf8_lossy` makes of them.
pub proof fn other_bytes_are_replaced(bytes: Seq<u8>)
    ensures
        vstd::utf8::valid_utf8(bytes) ==> vstd::utf8::encode_utf8(decoded(bytes)) == bytes,
        !vstd::utf8::valid_utf8(bytes) ==> decoded(bytes) == lossy_text(bytes),
{
    if vstd::utf8::valid_utf8(bytes) {
        vstd::utf8::decode_utf8_encode_utf8(bytes);
    }
}

} // verus!
