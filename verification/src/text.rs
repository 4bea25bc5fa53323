//! Text helpers: decimal numbers, trimming, padding and searching.

use vstd::prelude::*;

verus! {

/// The characters of a text.
pub fn to_chars(s: &str) -> (res: Vec<char>)
    ensures
        res@ == s@,
{
    let mut res: Vec<char> = Vec::new();
    for c in it: s.chars()
        invariant
            it.seq() == s@,
            res@ == s@.take(it.index() as int),
    {
        res.push(c);
        assert(s@.take(it.index() + 1) == s@.take(it.index() as int).push(s@[it.index() as int]));
    }
    assert(s@.take(s@.len() as int) == s@);
    res
}

// Decimal numbers.

/// The character of a decimal digit.
pub open spec fn digit_char(d: nat) -> char {
    (48 + d) as char
}

/// A number in decimal, without leading zeros.
pub open spec fn decimal(n: nat) -> Seq<char>
    decreases n,
{
    if n < 10 {
        seq![digit_char(n)]
    } else {
        decimal(n / 10).push(digit_char(n % 10))
    }
}

fn digit_str(d: u64) -> (res: &'static str)
    requires
        d < 10,
    ensures
        res@ == seq![digit_char(d as nat)],
{
    proof {
        reveal_strlit("0");
        reveal_strlit("1");
        reveal_strlit("2");
        reveal_strlit("3");
        reveal_strlit("4");
        reveal_strlit("5");
        reveal_strlit("6");
        reveal_strlit("7");
        reveal_strlit("8");
        reveal_strlit("9");
    }
    match d {
        0 => "0",
        1 => "1",
        2 => "2",
        3 => "3",
        4 => "4",
        5 => "5",
        6 => "6",
        7 => "7",
        8 => "8",
        _ => "9",
    }
}

/// Writes a number in decimal.
pub fn decimal_string(n: u64) -> (res: String)
    ensures
        res@ == decimal(n as nat),
    decreases n,
{
    if n < 10 {
        digit_str(n).to_string()
    } else {
        let mut s = decimal_string(n / 10);
        s.append(digit_str(n % 10));
        s
    }
}

/// Whether a character is one of the ten decimal digits.
pub open spec fn is_digit(c: char) -> bool {
    48 <= c as int <= 57
}

/// Whether a text consists of decimal digits alone.
pub open spec fn all_digits(s: Seq<char>) -> bool {
    forall|i: int| 0 <= i < s.len() ==> is_digit(#[trigger] s[i])
}

/// The number that a sequence of decimal digits denotes.
pub open spec fn digits_value(s: Seq<char>) -> nat
    decreases s.len(),
{
    if s.len() == 0 {
        0
    } else {
        digits_value(s.drop_last()) * 10 + (s.last() as int - 48) as nat
    }
}

/// The digits of an unsigned number: what follows an optional plus sign.
pub open spec fn unsigned_digits(s: Seq<char>) -> Seq<char> {
    if s.len() > 0 && s[0] == '+' {
        s.drop_first()
    } else {
        s
    }
}

/// The unsigned number that a text denotes, if it is one and at most `max`: an optional
/// plus sign, followed by one or more decimal digits and nothing else.
pub open spec fn unsigned_value(s: Seq<char>, max: nat) -> Option<nat> {
    let digits = unsigned_digits(s);
    if digits.len() > 0 && all_digits(digits) && digits_value(digits) <= max {
        Some(digits_value(digits))
    } else {
        None
    }
}

/// The value of a digit sequence is at least that of each of its prefixes.
proof fn lemma_digits_value_prefix(s: Seq<char>, k: int)
    requires
        0 <= k <= s.len(),
    ensures
        digits_value(s.take(k)) <= digits_value(s),
    decreases s.len() - k,
{
    if k == s.len() {
        assert(s.take(k) == s);
    } else {
        lemma_digits_value_prefix(s, k + 1);
        assert(s.take(k + 1).drop_last() == s.take(k));
    }
}

/// Reads an unsigned number of at most `max`, starting at `from`.
pub fn parse_unsigned(chars: &Vec<char>, from: usize, max: u32) -> (res: Option<u32>)
    requires
        from <= chars@.len(),
    ensures
        match res {
            Some(v) => unsigned_value(chars@.skip(from as int), max as nat) == Some(v as nat) && v
                <= max,
            None => unsigned_value(chars@.skip(from as int), max as nat) is None,
        },
{
    let ghost text = chars@.skip(from as int);
    let mut i: usize = from;
    if i < chars.len() && chars[i] == '+' {
        i = i + 1;
    }
    let ghost digits = unsigned_digits(text);
    assert(digits == chars@.skip(i as int));
    if i == chars.len() {
        return None;
    }
    let start: usize = i;
    let mut value: u64 = 0;
    assert(digits.take(0) == Seq::<char>::empty());
    while i < chars.len()
        invariant
            start <= i <= chars@.len(),
            digits == chars@.skip(start as int),
            digits == unsigned_digits(text),
            text == chars@.skip(from as int),
            value <= max,
            value == digits_value(digits.take(i - start)),
            forall|k: int| 0 <= k < i - start ==> is_digit(#[trigger] digits[k]),
        decreases chars@.len() - i,
    {
        let c = chars[i];
        assert(digits[i - start] == c);
        if c < '0' || '9' < c {
            assert(!is_digit(digits[i - start]));
            return None;
        }
        let d: u64 = c as u64 - 48;
        assert(digits.take(i + 1 - start).drop_last() == digits.take(i - start));
        value = value * 10 + d;
        i = i + 1;
        if value > max as u64 {
            proof {
                lemma_digits_value_prefix(digits, i - start);
            }
            return None;
        }
    }
    assert(digits.take(i - start) == digits);
    Some(value as u32)
}

/// Reading what [`decimal_string`] writes gives the number back.
pub proof fn lemma_unsigned_value_of_decimal(n: nat, max: nat)
    requires
        n <= max,
    ensures
        unsigned_value(decimal(n), max) == Some(n),
{
    lemma_decimal_digits(n);
    assert(decimal(n)[0] != '+');
}

/// The decimal text of a number consists of digits, and their value is the number.
pub proof fn lemma_decimal_digits(n: nat)
    ensures
        decimal(n).len() > 0,
        all_digits(decimal(n)),
        digits_value(decimal(n)) == n,
    decreases n,
{
    if n < 10 {
        assert(decimal(n).drop_last() == Seq::<char>::empty());
        assert(digits_value(decimal(n).drop_last()) == 0);
    } else {
        lemma_decimal_digits(n / 10);
        assert(decimal(n).drop_last() == decimal(n / 10));
    }
}

// White space.

/// The characters with the Unicode property `White_Space`.
pub open spec fn is_white_space(c: char) -> bool {
    ||| 0x09 <= c as int <= 0x0d
    ||| c as int == 0x20
    ||| c as int == 0x85
    ||| c as int == 0xa0
    ||| c as int == 0x1680
    ||| 0x2000 <= c as int <= 0x200a
    ||| c as int == 0x2028
    ||| c as int == 0x2029
    ||| c as int == 0x202f
    ||| c as int == 0x205f
    ||| c as int == 0x3000
}

fn white_space(c: char) -> (res: bool)
    ensures
        res == is_white_space(c),
{
    let code: u32 = c as u32;
    (0x09 <= code && code <= 0x0d) || code == 0x20 || code == 0x85 || code == 0xa0 || code == 0x1680
        || (0x2000 <= code && code <= 0x200a) || code == 0x2028 || code == 0x2029 || code == 0x202f
        || code == 0x205f || code == 0x3000
}

/// A text without its leading white space.
pub open spec fn trimmed_start(s: Seq<char>) -> Seq<char>
    decreases s.len(),
{
    if s.len() > 0 && is_white_space(s[0]) {
        trimmed_start(s.drop_first())
    } else {
        s
    }
}

/// A text without its trailing white space.
pub open spec fn trimmed_end(s: Seq<char>) -> Seq<char>
    decreases s.len(),
{
    if s.len() > 0 && is_white_space(s.last()) {
        trimmed_end(s.drop_last())
    } else {
        s
    }
}

/// A text without the white space around it.
pub open spec fn trimmed(s: Seq<char>) -> Seq<char> {
    trimmed_end(trimmed_start(s))
}

/// Where the text without the surrounding white space starts and ends.
fn trim_range(chars: &Vec<char>) -> (res: (usize, usize))
    ensures
        res.0 <= res.1 <= chars@.len(),
        chars@.subrange(res.0 as int, res.1 as int) == trimmed(chars@),
{
    let mut lo: usize = 0;
    assert(chars@.skip(0) == chars@);
    while lo < chars.len() && white_space(chars[lo])
        invariant
            lo <= chars@.len(),
            trimmed_start(chars@.skip(lo as int)) == trimmed_start(chars@),
        decreases chars@.len() - lo,
    {
        assert(chars@.skip(lo as int).drop_first() == chars@.skip(lo + 1));
        lo = lo + 1;
    }
    let ghost rest = chars@.skip(lo as int);
    assert(trimmed_start(chars@) == rest);
    let mut hi: usize = chars.len();
    assert(chars@.subrange(lo as int, hi as int) == rest);
    while lo < hi && white_space(chars[hi - 1])
        invariant
            lo <= hi <= chars@.len(),
            trimmed_end(chars@.subrange(lo as int, hi as int)) == trimmed_end(rest),
        decreases hi - lo,
    {
        assert(chars@.subrange(lo as int, hi as int).drop_last() == chars@.subrange(
            lo as int,
            hi - 1,
        ));
        hi = hi - 1;
    }
    (lo, hi)
}

/// A text without the white space around it.
pub fn trim(s: &str) -> (res: String)
    ensures
        res@ == trimmed(s@),
{
    let chars = to_chars(s);
    let (lo, hi) = trim_range(&chars);
    s.substring_char(lo, hi).to_string()
}

// Padding.

/// `n` copies of a character.
pub open spec fn repeated(c: char, n: nat) -> Seq<char> {
    Seq::new(n, |i: int| c)
}

/// A text, filled up with spaces on the right to at least `width` characters.
pub open spec fn padded(s: Seq<char>, width: nat) -> Seq<char> {
    if s.len() < width {
        s + repeated(' ', (width - s.len()) as nat)
    } else {
        s
    }
}

/// Fills a text up with spaces on the right to at least `width` characters.
pub fn pad(s: &str, width: usize) -> (res: String)
    ensures
        res@ == padded(s@, width as nat),
{
    let mut res = s.to_string();
    let len = s.unicode_len();
    let mut i: usize = len;
    assert(s@ + repeated(' ', 0) == s@);
    while i < width
        invariant
            len <= i,
            len == s@.len(),
            i <= width || i == len,
            res@ == s@ + repeated(' ', (i - len) as nat),
        decreases width - i,
    {
        proof {
            reveal_strlit(" ");
        }
        res.append(" ");
        assert(res@ == s@ + repeated(' ', (i + 1 - len) as nat));
        i = i + 1;
    }
    res
}

/// A line of `n` hyphens.
pub fn rule(n: usize) -> (res: String)
    ensures
        res@ == repeated('-', n as nat),
{
    let mut res = String::new();
    let mut i: usize = 0;
    assert(res@ == repeated('-', 0));
    while i < n
        invariant
            i <= n,
            res@ == repeated('-', i as nat),
        decreases n - i,
    {
        proof {
            reveal_strlit("-");
        }
        res.append("-");
        assert(res@ == repeated('-', (i + 1) as nat));
        i = i + 1;
    }
    res
}

// Searching.

/// Whether `pat` stands in `s` at position `at`.
pub open spec fn stands_at(s: Seq<char>, pat: Seq<char>, at: int) -> bool {
    0 <= at && at + pat.len() <= s.len() && s.subrange(at, at + pat.len()) == pat
}

/// Whether `pat` stands in `s` at position `at`.
pub fn matches_at(s: &Vec<char>, pat: &Vec<char>, at: usize) -> (res: bool)
    requires
        at <= s@.len(),
    ensures
        res == stands_at(s@, pat@, at as int),
{
    if pat.len() > s.len() - at {
        return false;
    }
    let len = s.len();
    let mut k: usize = 0;
    while k < pat.len()
        invariant
            k <= pat@.len(),
            len == s@.len(),
            at + pat@.len() <= len,
            forall|j: int| 0 <= j < k ==> s@[at + j] == #[trigger] pat@[j],
        decreases pat@.len() - k,
    {
        if s[at + k] != pat[k] {
            assert(s@.subrange(at as int, at + pat@.len())[k as int] != pat@[k as int]);
            return false;
        }
        k = k + 1;
    }
    assert(s@.subrange(at as int, at + pat@.len()) == pat@);
    true
}

/// The first position at or after `from` where `pat` stands in `s`.
pub open spec fn first_match(s: Seq<char>, pat: Seq<char>, from: int) -> Option<int>
    decreases s.len() + 1 - from,
{
    if from < 0 || from + pat.len() > s.len() {
        None
    } else if stands_at(s, pat, from) {
        Some(from)
    } else {
        first_match(s, pat, from + 1)
    }
}

/// Finds the first position where `pat` stands in `s`.
pub fn find(s: &Vec<char>, pat: &Vec<char>) -> (res: Option<usize>)
    ensures
        match res {
            Some(p) => first_match(s@, pat@, 0) == Some(p as int) && p + pat@.len() <= s@.len(),
            None => first_match(s@, pat@, 0) is None,
        },
{
    let mut i: usize = 0;
    while pat.len() <= s.len() - i
        invariant
            i <= s@.len(),
            first_match(s@, pat@, 0) == first_match(s@, pat@, i as int),
        decreases s@.len() - i,
    {
        if matches_at(s, pat, i) {
            return Some(i);
        }
        assert(pat@.len() == 0 ==> s@.subrange(i as int, i as int) == pat@);
        i = i + 1;
    }
    None
}

/// Finds the first place of a character.
pub fn find_char(s: &Vec<char>, c: char) -> (res: Option<usize>)
    ensures
        match res {
            Some(p) => s@.index_of_first(c) == Some(p as int) && p < s@.len(),
            None => s@.index_of_first(c) is None,
        },
{
    proof {
        s@.index_of_first_ensures(c);
    }
    let mut i: usize = 0;
    while i < s.len()
        invariant
            i <= s@.len(),
            forall|j: int| 0 <= j < i ==> s@[j] != c,
            s@.contains(c) ==> {
                let p = s@.index_of_first(c)->0;
                &&& s@.index_of_first(c) is Some
                &&& 0 <= p < s@.len()
                &&& s@[p] == c
                &&& forall|j: int| 0 <= j < p ==> s@[j] != c
            },
            !s@.contains(c) ==> s@.index_of_first(c) is None,
        decreases s@.len() - i,
    {
        if s[i] == c {
            assert(s@.contains(c));
            return Some(i);
        }
        i = i + 1;
    }
    None
}

/// Finds the last place of a character before `end`.
pub fn find_last_char(s: &Vec<char>, end: usize, c: char) -> (res: Option<usize>)
    requires
        end <= s@.len(),
    ensures
        match res {
            Some(p) => s@.take(end as int).index_of_last(c) == Some(p as int) && p < end,
            None => s@.take(end as int).index_of_last(c) is None,
        },
{
    let ghost t = s@.take(end as int);
    proof {
        t.index_of_last_ensures(c);
    }
    let mut i: usize = end;
    while i > 0
        invariant
            i <= end <= s@.len(),
            t == s@.take(end as int),
            forall|j: int| i <= j < end ==> t[j] != c,
            t.contains(c) ==> {
                let p = t.index_of_last(c)->0;
                &&& t.index_of_last(c) is Some
                &&& 0 <= p < t.len()
                &&& t[p] == c
                &&& forall|j: int| p < j < t.len() ==> t[j] != c
            },
            !t.contains(c) ==> t.index_of_last(c) is None,
        decreases i,
    {
        i = i - 1;
        if s[i] == c {
            assert(t[i as int] == c);
            assert(t.contains(c));
            return Some(i);
        }
    }
    None
}

// What the texts mean.

/// A digit is written as itself, and the digits of a number are those of its tenth, followed by
/// its last digit.
pub proof fn law_decimal(n: nat, d: nat)
    requires
        d < 10,
    ensures
        decimal(d) == seq![(48 + d) as char],
        n > 0 ==> decimal(10 * n + d) == decimal(n).push((48 + d) as char),
{
    assert((10 * n + d) / 10 == n && (10 * n + d) % 10 == d);
}

/// No digits denote zero, and a further digit makes a number ten times as large and adds itself.
pub proof fn law_digits_value(s: Seq<char>, c: char)
    requires
        '0' <= c <= '9',
    ensures
        digits_value(Seq::<char>::empty()) == 0,
        digits_value(s.push(c)) == 10 * digits_value(s) + (c as int - 48),
{
    assert(s.push(c).drop_last() == s);
}

/// Decimal digits denote an unsigned number of at most `max` exactly if there is one or more of
/// them and their value is at most `max`, with a plus sign before them as without. Anything else
/// denotes none.
pub proof fn law_unsigned_value(s: Seq<char>, max: nat)
    ensures
        s.len() > 0 && (forall|i: int| 0 <= i < s.len() ==> '0' <= #[trigger] s[i] <= '9')
            && digits_value(s) <= max ==> unsigned_value(s, max) == Some(digits_value(s))
            && unsigned_value(seq!['+'] + s, max) == Some(digits_value(s)),
        s.len() == 0 || (exists|i: int| 0 <= i < s.len() && !('0' <= #[trigger] s[i] <= '9'))
            || digits_value(s) > max ==> unsigned_value(seq!['+'] + s, max) is None && (s.len() == 0
            || s[0] != '+' ==> unsigned_value(s, max) is None),
{
    let signed = seq!['+'] + s;
    assert(signed.drop_first() == s);
    assert(signed[0] == '+');
    if exists|i: int| 0 <= i < s.len() && !('0' <= #[trigger] s[i] <= '9') {
        let i = choose|i: int| 0 <= i < s.len() && !('0' <= #[trigger] s[i] <= '9');
        assert(!is_digit(s[i]));
    }
}

/// The white space is that of Unicode.
pub proof fn law_white_space(c: char)
    ensures
        is_white_space(c) <==> (c == '\t' || c == '\n' || c == '\u{b}' || c == '\u{c}' || c == '\r' || c
            == ' ' || c == '\u{85}' || c == '\u{a0}' || c == '\u{1680}' || '\u{2000}' <= c <= '\u{200a}'
            || c == '\u{2028}' || c == '\u{2029}' || c == '\u{202f}' || c == '\u{205f}' || c
            == '\u{3000}'),
{
}

/// Trimming a text gives the part of it between two places: all before the first and all from the
/// second on is white space, and the part neither starts nor ends with any.
pub proof fn law_trimmed(s: Seq<char>) -> (ends: (int, int))
    ensures
        0 <= ends.0 <= ends.1 <= s.len(),
        trimmed(s) == s.subrange(ends.0, ends.1),
        forall|i: int| 0 <= i < ends.0 ==> is_white_space(#[trigger] s[i]),
        forall|i: int| ends.1 <= i < s.len() ==> is_white_space(#[trigger] s[i]),
        ends.0 < ends.1 ==> !is_white_space(s[ends.0]) && !is_white_space(s[ends.1 - 1]),
{
    let a = lemma_trimmed_start(s);
    let rest = s.skip(a);
    let n = lemma_trimmed_end(rest);
    assert(forall|i: int| 0 <= i < rest.len() ==> rest[i] == #[trigger] s[a + i]);
    assert(rest.take(n) == s.subrange(a, a + n));
    assert forall|i: int| a + n <= i < s.len() implies is_white_space(#[trigger] s[i]) by {
        assert(rest[i - a] == s[i]);
    }
    (a, a + n)
}

proof fn lemma_trimmed_start(s: Seq<char>) -> (a: int)
    ensures
        0 <= a <= s.len(),
        trimmed_start(s) == s.skip(a),
        forall|i: int| 0 <= i < a ==> is_white_space(#[trigger] s[i]),
        a < s.len() ==> !is_white_space(s[a]),
    decreases s.len(),
{
    if s.len() > 0 && is_white_space(s[0]) {
        let a = lemma_trimmed_start(s.drop_first());
        assert(s.drop_first().skip(a) == s.skip(a + 1));
        assert forall|i: int| 0 <= i < a + 1 implies is_white_space(#[trigger] s[i]) by {
            if i > 0 {
                assert(s.drop_first()[i - 1] == s[i]);
            }
        }
        a + 1
    } else {
        assert(s.skip(0) == s);
        0
    }
}

proof fn lemma_trimmed_end(s: Seq<char>) -> (n: int)
    ensures
        0 <= n <= s.len(),
        trimmed_end(s) == s.take(n),
        forall|i: int| n <= i < s.len() ==> is_white_space(#[trigger] s[i]),
        n > 0 ==> !is_white_space(s[n - 1]),
    decreases s.len(),
{
    if s.len() > 0 && is_white_space(s.last()) {
        let n = lemma_trimmed_end(s.drop_last());
        assert(s.drop_last().take(n) == s.take(n));
        assert forall|i: int| n <= i < s.len() implies is_white_space(#[trigger] s[i]) by {
            if i < s.len() - 1 {
                assert(s.drop_last()[i] == s[i]);
            }
        }
        n
    } else {
        assert(s.take(s.len() as int) == s);
        s.len() as int
    }
}

/// A padded text starts with the text, goes on with spaces, and has as many characters as it is
/// wide, or as the text has.
pub proof fn law_padded(s: Seq<char>, width: nat)
    ensures
        s.len() >= width ==> padded(s, width) == s,
        s.len() < width ==> {
            &&& padded(s, width).len() == width
            &&& padded(s, width).take(s.len() as int) == s
            &&& forall|i: int| s.len() <= i < width ==> #[trigger] padded(s, width)[i] == ' '
        },
{
    if s.len() < width {
        assert(padded(s, width).take(s.len() as int) == s);
    }
}

/// Copies of a character are as many as asked for, and each is the character.
pub proof fn law_repeated(c: char, n: nat)
    ensures
        repeated(c, n).len() == n,
        forall|i: int| 0 <= i < n ==> #[trigger] repeated(c, n)[i] == c,
{
}

/// A pattern stands in a text at a place exactly if the text goes on with it there.
pub proof fn law_stands_at(s: Seq<char>, pat: Seq<char>, at: int)
    ensures
        stands_at(s, pat, at) <==> 0 <= at && at + pat.len() <= s.len() && forall|k: int|
            0 <= k < pat.len() ==> s[at + k] == #[trigger] pat[k],
{
    if 0 <= at && at + pat.len() <= s.len() {
        let part = s.subrange(at, at + pat.len());
        assert(forall|k: int| 0 <= k < pat.len() ==> #[trigger] part[k] == s[at + k]);
        if forall|k: int| 0 <= k < pat.len() ==> s[at + k] == #[trigger] pat[k] {
            assert(part == pat);
        }
    }
}

/// The first match is a place where the pattern stands, with none before it; without a match the
/// pattern stands nowhere.
pub proof fn law_first_match(s: Seq<char>, pat: Seq<char>, from: int)
    requires
        0 <= from,
    ensures
        match first_match(s, pat, from) {
            Some(p) => {
                &&& from <= p && p + pat.len() <= s.len()
                &&& s.subrange(p, p + pat.len()) == pat
                &&& forall|i: int|
                    from <= i < p ==> #[trigger] s.subrange(i, i + pat.len()) != pat
            },
            None => forall|i: int|
                from <= i && i + pat.len() <= s.len() ==> #[trigger] s.subrange(i, i + pat.len())
                    != pat,
        },
    decreases s.len() + 1 - from,
{
    if from + pat.len() <= s.len() && !stands_at(s, pat, from) {
        law_first_match(s, pat, from + 1);
    }
}

} // verus!
