//! Characters and text: decimal numbers, keywords, trimming, comparison.
use vstd::prelude::*;

verus! {

/// The decimal digit `d`, for `d` below ten.
pub open spec fn digit(d: nat) -> char {
    ('0' as u32 + d) as char
}

/// `n` in decimal, without leading zeros.
pub open spec fn decimal(n: nat) -> Seq<char>
    decreases n,
{
    if n < 10 {
        seq![digit(n)]
    } else {
        decimal(n / 10).push(digit(n % 10))
    }
}

/// The one-character text of a decimal digit.
fn digit_text(d: u64) -> (r: &'static str)
    requires
        d < 10,
    ensures
        r@ == seq![digit(d as nat)],
{
    proof {
        reveal_strlit("0");
        reveal_strlit("1");
        reveal_strlit("2");
        reveal_strlit("3");
        reveal_strlit("4");
        reveal_strlit("5");
        reveal_strlit("6");
        reveal_strlit("7");
        reveal_strlit("8");
        reveal_strlit("9");
    }
    let r = match d {
        0 => "0",
        1 => "1",
        2 => "2",
        3 => "3",
        4 => "4",
        5 => "5",
        6 => "6",
        7 => "7",
        8 => "8",
        _ => "9",
    };
    assert(r@ =~= seq![digit(d as nat)]);
    r
}

/// Writes `n` in decimal.
pub fn decimal_text(n: u64) -> (r: String)
    ensures
        r@ == decimal(n as nat),
    decreases n,
{
    if n < 10 {
        digit_text(n).to_owned()
    } else {
        let mut head = decimal_text(n / 10);
        head.append(digit_text(n % 10));
        assert(head@ =~= decimal((n / 10) as nat).push(digit((n % 10) as nat)));
        head
    }
}

/// The characters of `s`, in order.
pub fn chars_of(s: &str) -> (r: Vec<char>)
    ensures
        r@ == s@,
{
    let mut out: Vec<char> = Vec::new();
    for c in it: s.chars()
        invariant
            out@ == it.seq().take(it.index() as int),
    {
        out.push(c);
    }
    out
}

/// The text of an optional reference to a text.
pub open spec fn opt_str(s: Option<&str>) -> Option<Seq<char>> {
    match s {
        Some(t) => Some(t@),
        None => None,
    }
}

/// Whether two texts are the same.
pub fn same_text(a: &str, b: &str) -> (r: bool)
    ensures
        r == (a@ == b@),
{
    a.to_owned() == b.to_owned()
}

/// Whether `c` has the Unicode `White_Space` property.
pub open spec fn is_white_space(c: char) -> bool {
    let n = c as u32;
    ||| 0x09 <= n <= 0x0d
    ||| n == 0x20
    ||| n == 0x85
    ||| n == 0xa0
    ||| n == 0x1680
    ||| 0x2000 <= n <= 0x200a
    ||| n == 0x2028
    ||| n == 0x2029
    ||| n == 0x202f
    ||| n == 0x205f
    ||| n == 0x3000
}

/// Whether `c` can stand in an SQL word: an ASCII letter or digit, `_`, `$`, or any
/// character beyond ASCII.
pub open spec fn is_word_char(c: char) -> bool {
    ||| 'a' <= c <= 'z'
    ||| 'A' <= c <= 'Z'
    ||| '0' <= c <= '9'
    ||| c == '_'
    ||| c == '$'
    ||| c as u32 >= 0x80
}

fn white_space(c: char) -> (r: bool)
    ensures
        r == is_white_space(c),
{
    let n: u32 = c as u32;
    (0x09 <= n && n <= 0x0d) || n == 0x20 || n == 0x85 || n == 0xa0 || n == 0x1680 || (0x2000 <= n
        && n <= 0x200a) || n == 0x2028 || n == 0x2029 || n == 0x202f || n == 0x205f || n == 0x3000
}

/// `s` without its leading white space.
pub open spec fn trim_start(s: Seq<char>) -> Seq<char>
    decreases s.len(),
{
    if s.len() > 0 && is_white_space(s[0]) {
        trim_start(s.drop_first())
    } else {
        s
    }
}

/// The longest prefix of `s` that is an SQL word.
pub open spec fn leading_word(s: Seq<char>) -> Seq<char>
    decreases s.len(),
{
    if s.len() == 0 || !is_word_char(s[0]) {
        Seq::empty()
    } else {
        seq![s[0]] + leading_word(s.drop_first())
    }
}

/// The first word of `s`: leading white space is skipped, and the word ends where
/// an SQL keyword ends, be it at a blank or at punctuation.
pub open spec fn first_token(s: Seq<char>) -> Seq<char> {
    leading_word(trim_start(s))
}

/// `s` with the letters `a` to `z` in upper case.
pub open spec fn ascii_upper(s: Seq<char>) -> Seq<char> {
    s.map_values(|c: char| upper_char(c))
}

/// `c` in upper case, if it is one of `a` to `z`.
pub open spec fn upper_char(c: char) -> char {
    if 'a' <= c <= 'z' {
        (c as u32 - 32) as char
    } else {
        c
    }
}

/// The first word of `sql`, as `first_token` describes it.
pub fn first_word(sql: &str) -> (r: String)
    ensures
        r@ == first_token(sql@),
{
    let cs = chars_of(sql);
    let mut start: usize = 0;
    assert(cs@.skip(0) =~= cs@);
    while start < cs.len() && white_space(cs[start])
        invariant
            start <= cs@.len(),
            trim_start(cs@) == trim_start(cs@.skip(start as int)),
        decreases cs@.len() - start,
    {
        assert(cs@.skip(start as int).drop_first() =~= cs@.skip(start + 1));
        start += 1;
    }
    let ghost tail = cs@.skip(start as int);
    assert(trim_start(tail) == tail);
    let mut end: usize = start;
    assert(cs@.subrange(start as int, end as int) + leading_word(cs@.skip(end as int))
        =~= leading_word(tail));
    while end < cs.len() && word_char(cs[end])
        invariant
            start <= end <= cs@.len(),
            cs@.subrange(start as int, end as int) + leading_word(cs@.skip(end as int))
                == leading_word(tail),
        decreases cs@.len() - end,
    {
        assert(cs@.skip(end as int).drop_first() =~= cs@.skip(end + 1));
        assert(cs@.subrange(start as int, end + 1) + leading_word(cs@.skip(end + 1)) =~= cs@.subrange(
            start as int,
            end as int,
        ) + leading_word(cs@.skip(end as int)));
        end += 1;
    }
    assert(leading_word(cs@.skip(end as int)) =~= Seq::<char>::empty());
    assert(cs@.subrange(start as int, end as int) + Seq::<char>::empty() =~= cs@.subrange(
        start as int,
        end as int,
    ));
    sql.substring_char(start, end).to_owned()
}

fn word_char(c: char) -> (r: bool)
    ensures
        r == is_word_char(c),
{
    ('a' <= c && c <= 'z') || ('A' <= c && c <= 'Z') || ('0' <= c && c <= '9') || c == '_' || c
        == '$' || c as u32 >= 0x80
}

/// Whether `word` is `keyword` once its ASCII letters are in upper case.
pub fn is_keyword(word: &str, keyword: &str) -> (r: bool)
    ensures
        r == (ascii_upper(word@) == keyword@),
{
    let a = chars_of(word);
    let b = chars_of(keyword);
    if a.len() != b.len() {
        return false;
    }
    for i in 0..a.len()
        invariant
            a@ == word@,
            b@ == keyword@,
            a@.len() == b@.len(),
            forall|k: int| 0 <= k < i ==> upper_char(#[trigger] a@[k]) == b@[k],
    {
        let c = a[i];
        let d = b[i];
        let same = if 'a' <= c && c <= 'z' {
            (c as u8 - 32) as char == d
        } else {
            c == d
        };
        if !same {
            assert(ascii_upper(word@)[i as int] != keyword@[i as int]);
            return false;
        }
    }
    assert(ascii_upper(word@) =~= keyword@);
    true
}

/// `s` without the line feeds at its end.
pub open spec fn trim_line_end(s: Seq<char>) -> Seq<char>
    decreases s.len(),
{
    if s.len() > 0 && s.last() == '\n' {
        trim_line_end(s.drop_last())
    } else {
        s
    }
}

/// Takes the line feeds off the end of `s`.
pub fn without_line_end(s: &str) -> (r: String)
    ensures
        r@ == trim_line_end(s@),
{
    let cs = chars_of(s);
    let mut end: usize = cs.len();
    assert(cs@.take(end as int) =~= s@);
    while end > 0 && cs[end - 1] == '\n'
        invariant
            end <= cs@.len(),
            trim_line_end(cs@.take(end as int)) == trim_line_end(s@),
        decreases end,
    {
        assert(cs@.take(end as int).drop_last() =~= cs@.take(end - 1));
        end -= 1;
    }
    assert(cs@.take(end as int) =~= s@.subrange(0, end as int));
    s.substring_char(0, end).to_owned()
}

/// What follows `prefix` in `s`, if `s` begins with it.
pub open spec fn after_prefix(s: Seq<char>, prefix: Seq<char>) -> Option<Seq<char>> {
    if prefix.is_prefix_of(s) {
        Some(s.skip(prefix.len() as int))
    } else {
        None
    }
}

/// What follows `prefix` in `s`, if `s` begins with it.
pub fn strip_prefix(s: &str, prefix: &str) -> (r: Option<String>)
    ensures
        match r {
            Some(rest) => after_prefix(s@, prefix@) == Some(rest@),
            None => after_prefix(s@, prefix@) is None,
        },
{
    let n: usize = prefix.unicode_len();
    let m: usize = s.unicode_len();
    if m < n {
        return None;
    }
    if same_text(s.substring_char(0, n), prefix) {
        assert(s@.subrange(0, n as int) == prefix@);
        assert(prefix@.is_prefix_of(s@));
        assert(s@.subrange(n as int, m as int) =~= s@.skip(n as int));
        Some(s.substring_char(n, m).to_owned())
    } else {
        assert(prefix@.is_prefix_of(s@) ==> s@.subrange(0, n as int) =~= prefix@);
        None
    }
}

/// The value of `s` as a number in base eight, if each of its characters is
/// one of the digits `0` to `7`.
pub open spec fn octal_digits(s: Seq<char>) -> Option<nat>
    decreases s.len(),
{
    if s.len() == 0 {
        Some(0)
    } else {
        match octal_digits(s.drop_last()) {
            Some(n) if '0' <= s.last() <= '7' => Some((8 * n + (s.last() as u32 - '0' as u32)) as nat),
            _ => None,
        }
    }
}

/// The number that `s` writes in base eight: an optional `+`, then at least
/// one digit, and a value that fits 32 bits.
pub open spec fn octal(s: Seq<char>) -> Option<u32> {
    let digits = if s.len() > 0 && s[0] == '+' {
        s.drop_first()
    } else {
        s
    };
    match octal_digits(digits) {
        Some(n) if digits.len() > 0 && n <= u32::MAX => Some(n as u32),
        _ => None,
    }
}

proof fn octal_digits_grow(s: Seq<char>, i: int)
    requires
        0 <= i <= s.len(),
    ensures
        octal_digits(s) is Some ==> octal_digits(s.take(i)) is Some && octal_digits(s.take(i))->0
            <= octal_digits(s)->0,
    decreases s.len() - i,
{
    if i < s.len() {
        octal_digits_grow(s, i + 1);
        assert(s.take(i + 1).drop_last() =~= s.take(i));
    } else {
        assert(s.take(i) =~= s);
    }
}

/// Reads a number in base eight, as `octal` describes it.
pub fn parse_octal(s: &str) -> (r: Option<u32>)
    ensures
        r == octal(s@),
{
    let cs = chars_of(s);
    let start: usize = if cs.len() > 0 && cs[0] == '+' {
        1
    } else {
        0
    };
    let ghost digits = cs@.skip(start as int);
    assert(start == 0 ==> digits =~= s@);
    assert(start == 1 ==> digits =~= s@.drop_first());
    if start >= cs.len() {
        return None;
    }
    let mut value: u64 = 0;
    let mut i: usize = start;
    assert(digits.take(0) =~= Seq::<char>::empty());
    while i < cs.len()
        invariant
            start <= i <= cs@.len(),
            digits == cs@.skip(start as int),
            octal_digits(digits.take(i - start)) == Some(value as nat),
            value <= u32::MAX,
            octal(s@) == (match octal_digits(digits) {
                Some(n) if n <= u32::MAX => Some(n as u32),
                _ => None,
            }),
        decreases cs@.len() - i,
    {
        let c = cs[i];
        assert(digits.take(i + 1 - start).drop_last() =~= digits.take(i - start));
        assert(digits.take(i + 1 - start).last() == c);
        proof {
            octal_digits_grow(digits, i + 1 - start);
        }
        if c < '0' || '7' < c {
            return None;
        }
        value = 8 * value + (c as u32 - '0' as u32) as u64;
        if value > u32::MAX as u64 {
            return None;
        }
        i += 1;
    }
    assert(digits.take(digits.len() as int) =~= digits);
    Some(value as u32)
}

/// Whether `a` comes before `b` in the usual order of texts: by the first character
/// in which they differ, and a text before those that it begins.
pub open spec fn is_before(a: Seq<char>, b: Seq<char>) -> bool
    decreases a.len(),
{
    if b.len() == 0 {
        false
    } else if a.len() == 0 {
        true
    } else if a[0] != b[0] {
        a[0] < b[0]
    } else {
        is_before(a.drop_first(), b.drop_first())
    }
}

/// Of two texts that differ, exactly one comes before the other.
pub proof fn one_of_two_comes_before(a: Seq<char>, b: Seq<char>)
    ensures
        !(is_before(a, b) && is_before(b, a)),
        a != b <==> is_before(a, b) || is_before(b, a),
    decreases a.len(),
{
    if a.len() > 0 && b.len() > 0 {
        one_of_two_comes_before(a.drop_first(), b.drop_first());
        if a[0] == b[0] && a.drop_first() == b.drop_first() {
            assert(a =~= seq![a[0]] + a.drop_first());
            assert(b =~= seq![b[0]] + b.drop_first());
        }
    } else if a.len() == 0 && b.len() == 0 {
        assert(a =~= b);
    }
}

/// What comes before a text comes before those behind it.
pub proof fn coming_before_is_passed_on(a: Seq<char>, b: Seq<char>, c: Seq<char>)
    requires
        is_before(a, b),
        is_before(b, c),
    ensures
        is_before(a, c),
    decreases a.len(),
{
    if a.len() > 0 && a[0] == b[0] && b[0] == c[0] {
        coming_before_is_passed_on(a.drop_first(), b.drop_first(), c.drop_first());
    }
}

/// Whether `a` comes before `b` in the usual order of texts.
pub fn comes_before(a: &str, b: &str) -> (r: bool)
    ensures
        r == is_before(a@, b@),
{
    let x = chars_of(a);
    let y = chars_of(b);
    let mut i: usize = 0;
    assert(x@.skip(0) =~= x@ && y@.skip(0) =~= y@);
    while i < x.len() && i < y.len()
        invariant
            x@ == a@,
            y@ == b@,
            i <= x@.len(),
            i <= y@.len(),
            is_before(x@, y@) == is_before(x@.skip(i as int), y@.skip(i as int)),
        decreases x@.len() - i,
    {
        assert(x@.skip(i as int)[0] == x@[i as int] && y@.skip(i as int)[0] == y@[i as int]);
        if x[i] != y[i] {
            return x[i] < y[i];
        }
        assert(x@.skip(i as int).drop_first() =~= x@.skip(i + 1));
        assert(y@.skip(i as int).drop_first() =~= y@.skip(i + 1));
        i += 1;
    }
    x.len() < y.len()
}

} // verus!
