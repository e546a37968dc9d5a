//! Plain text work on command lines: prefixes, words, numbers.
use vstd::prelude::*;

verus! {

/// Length of the longest prefix of `s` whose characters all satisfy `p`.
pub open spec fn run_len(s: Seq<char>, p: spec_fn(char) -> bool) -> nat
    decreases s.len(),
{
    if s.len() > 0 && p(s[0]) {
        1 + run_len(s.skip(1), p)
    } else {
        0
    }
}

/// The contents of a list of strings.
pub open spec fn views(list: Seq<String>) -> Seq<Seq<char>> {
    list.map_values(|s: String| s@)
}

/// The Unicode property `White_Space`.
pub open spec fn is_space(c: char) -> bool {
    ||| 0x09 <= c as u32 <= 0x0d
    ||| c as u32 == 0x20
    ||| c as u32 == 0x85
    ||| c as u32 == 0xa0
    ||| c as u32 == 0x1680
    ||| 0x2000 <= c as u32 <= 0x200a
    ||| c as u32 == 0x2028
    ||| c as u32 == 0x2029
    ||| c as u32 == 0x202f
    ||| c as u32 == 0x205f
    ||| c as u32 == 0x3000
}

/// The words of a line: its maximal runs of characters that are not white space.
pub open spec fn words_of(s: Seq<char>) -> Seq<Seq<char>>
    decreases s.len(),
{
    let t = s.skip(run_len(s, |c: char| is_space(c)) as int);
    let n = run_len(t, |c: char| !is_space(c)) as int;
    proof {
        lemma_run_len(s, |c: char| is_space(c));
        lemma_run_len(t, |c: char| !is_space(c));
    }
    if t.len() == 0 {
        Seq::empty()
    } else {
        seq![t.take(n)] + words_of(t.skip(n))
    }
}

pub proof fn lemma_run_len(s: Seq<char>, p: spec_fn(char) -> bool)
    ensures
        run_len(s, p) <= s.len(),
        forall|i: int| 0 <= i < run_len(s, p) ==> p(#[trigger] s[i]),
        run_len(s, p) < s.len() ==> !p(s[run_len(s, p) as int]),
    decreases s.len(),
{
    if s.len() > 0 && p(s[0]) {
        lemma_run_len(s.skip(1), p);
        let n = run_len(s.skip(1), p);
        assert forall|i: int| 0 <= i < run_len(s, p) implies p(#[trigger] s[i]) by {
            if i > 0 {
                assert(s[i] == s.skip(1)[i - 1]);
            }
        }
        if n < s.skip(1).len() {
            assert(s.skip(1)[n as int] == s[n as int + 1]);
        }
    }
}

/// A prefix that satisfies `p` and cannot be extended is the longest run.
pub proof fn lemma_run_len_is(s: Seq<char>, p: spec_fn(char) -> bool, n: int)
    requires
        0 <= n <= s.len(),
        forall|i: int| 0 <= i < n ==> p(#[trigger] s[i]),
        n < s.len() ==> !p(s[n]),
    ensures
        run_len(s, p) == n,
    decreases n,
{
    if n > 0 {
        assert(p(s[0]));
        assert forall|i: int| 0 <= i < n - 1 implies p(#[trigger] s.skip(1)[i]) by {
            assert(s.skip(1)[i] == s[i + 1]);
        }
        lemma_run_len_is(s.skip(1), p, n - 1);
    }
}

/// The characters of a string.
pub fn chars_of(s: &str) -> (r: Vec<char>)
    ensures
        r@ == s@,
{
    let mut r: Vec<char> = Vec::new();
    for c in it: s.chars()
        invariant
            it.seq() == s@,
            r@ == s@.take(it.index() as int),
    {
        r.push(c);
        assert(s@.take(it.index() + 1) == s@.take(it.index() as int).push(c));
    }
    r
}

/// Whether `c` separates words.
pub fn is_whitespace(c: char) -> (r: bool)
    ensures
        r == is_space(c),
{
    let n: u32 = c as u32;
    (0x09 <= n && n <= 0x0d) || n == 0x20 || n == 0x85 || n == 0xa0 || n == 0x1680 || (0x2000 <= n
        && n <= 0x200a) || n == 0x2028 || n == 0x2029 || n == 0x202f || n == 0x205f || n == 0x3000
}

/// The words of a line, in order.
pub fn split_whitespace(s: &str) -> (r: Vec<String>)
    ensures
        views(r@) == words_of(s@),
{
    let cs = chars_of(s);
    let len = cs.len();
    let mut r: Vec<String> = Vec::new();
    let mut i: usize = 0;
    assert(s@.skip(0) == s@);
    while i < len
        invariant
            cs@ == s@,
            len == s@.len(),
            i <= len,
            views(r@) + words_of(s@.skip(i as int)) == words_of(s@),
        decreases len - i,
    {
        let ghost rest = s@.skip(i as int);
        let start = i;
        while i < len && is_whitespace(cs[i])
            invariant
                cs@ == s@,
                len == s@.len(),
                start <= i <= len,
                forall|k: int| start <= k < i ==> is_space(#[trigger] s@[k]),
            decreases len - i,
        {
            i += 1;
        }
        proof {
            lemma_run_len_is(rest, |c: char| is_space(c), i - start);
        }
        let ghost t = s@.skip(i as int);
        assert(t == rest.skip(i - start));
        let from = i;
        while i < len && !is_whitespace(cs[i])
            invariant
                cs@ == s@,
                len == s@.len(),
                from <= i <= len,
                forall|k: int| from <= k < i ==> !is_space(#[trigger] s@[k]),
            decreases len - i,
        {
            i += 1;
        }
        proof {
            lemma_run_len_is(t, |c: char| !is_space(c), i - from);
        }
        if from < i {
            let ghost before = views(r@);
            r.push(s.substring_char(from, i).to_owned());
            proof {
                assert(t.take(i - from) == s@.subrange(from as int, i as int));
                assert(t.skip(i - from) == s@.skip(i as int));
                assert(views(r@) == before.push(t.take(i - from)));
                assert(views(r@) + words_of(s@.skip(i as int)) == before + (seq![t.take(i - from)]
                    + words_of(t.skip(i - from))));
            }
        } else {
            proof {
                assert(t.len() == 0);
                assert(words_of(rest) == Seq::<Seq<char>>::empty());
                assert(words_of(s@.skip(i as int)) == Seq::<Seq<char>>::empty());
            }
        }
    }
    proof {
        assert(s@.skip(i as int).len() == 0);
        assert(words_of(s@.skip(i as int)) == Seq::<Seq<char>>::empty());
        assert(views(r@) + Seq::<Seq<char>>::empty() == views(r@));
    }
    r
}


/// Whether `s` begins with `prefix`.
pub open spec fn has_prefix(s: Seq<char>, prefix: Seq<char>) -> bool {
    prefix.len() <= s.len() && s.take(prefix.len() as int) == prefix
}

/// Whether `s` begins with `prefix`.
pub fn starts_with(s: &str, prefix: &str) -> (r: bool)
    ensures
        r == has_prefix(s@, prefix@),
{
    let len = prefix.unicode_len();
    if s.unicode_len() < len {
        return false;
    }
    let cs = chars_of(s);
    let ps = chars_of(prefix);
    let mut i: usize = 0;
    while i < len
        invariant
            i <= len,
            cs@ == s@,
            ps@ == prefix@,
            len == prefix@.len() <= s@.len(),
            forall|k: int| 0 <= k < i ==> s@[k] == prefix@[k],
        decreases len - i,
    {
        if cs[i] != ps[i] {
            assert(s@.take(len as int)[i as int] != prefix@[i as int]);
            return false;
        }
        i += 1;
    }
    assert(s@.take(len as int) == prefix@);
    true
}

/// The value of a digit, upper or lower case.
pub open spec fn digit_value(c: char) -> int {
    if '0' <= c <= '9' {
        c as u32 - '0' as u32
    } else if 'a' <= c <= 'z' {
        c as u32 - 'a' as u32 + 10
    } else if 'A' <= c <= 'Z' {
        c as u32 - 'A' as u32 + 10
    } else {
        36
    }
}

/// Whether every character of `s` is a digit in the given radix.
pub open spec fn all_digits(s: Seq<char>, radix: int) -> bool {
    forall|i: int| 0 <= i < s.len() ==> digit_value(#[trigger] s[i]) < radix
}

/// The number that a row of digits stands for.
pub open spec fn digits_value(s: Seq<char>, radix: int) -> int
    decreases s.len(),
{
    if s.len() == 0 {
        0
    } else {
        digits_value(s.drop_last(), radix) * radix + digit_value(s.last())
    }
}

/// What an unsigned 64-bit number is read from: an optional plus sign and at least one digit,
/// with a value that fits.
pub open spec fn unsigned_value(s: Seq<char>, radix: int) -> Option<u64> {
    let d = if s.len() > 0 && s[0] == '+' {
        s.skip(1)
    } else {
        s
    };
    if d.len() > 0 && all_digits(d, radix) && digits_value(d, radix) <= u64::MAX {
        Some(digits_value(d, radix) as u64)
    } else {
        None
    }
}

/// What a number on a command line stands for: hexadecimal behind `0x`, else decimal.
pub open spec fn number_value(s: Seq<char>) -> Option<u64> {
    if has_prefix(s, "0x"@) {
        unsigned_value(s.skip(2), 16)
    } else {
        unsigned_value(s, 10)
    }
}

/// Appending digits never makes the number smaller.
proof fn lemma_digits_value_grows(s: Seq<char>, radix: int, n: int)
    requires
        radix >= 1,
        0 <= n <= s.len(),
    ensures
        0 <= digits_value(s.take(n), radix) <= digits_value(s, radix),
    decreases s.len(),
{
    if n < s.len() {
        let t = s.drop_last();
        lemma_digits_value_grows(t, radix, n);
        assert(t.take(n) == s.take(n));
        let v = digits_value(t, radix);
        assert(v * radix >= v) by (nonlinear_arith)
            requires
                v >= 0,
                radix >= 1,
        ;
    } else {
        assert(s.take(n) == s);
        if n > 0 {
            let t = s.drop_last();
            lemma_digits_value_grows(t, radix, n - 1);
            assert(t.take(n - 1) == t);
            let v = digits_value(t, radix);
            assert(v * radix >= 0) by (nonlinear_arith)
                requires
                    v >= 0,
                    radix >= 1,
            ;
        }
    }
}

/// The value of one digit; 36 for a character that is none.
fn digit(c: char) -> (r: u64)
    ensures
        r == digit_value(c),
        r <= 36,
{
    if '0' <= c && c <= '9' {
        c as u64 - '0' as u64
    } else if 'a' <= c && c <= 'z' {
        c as u64 - 'a' as u64 + 10
    } else if 'A' <= c && c <= 'Z' {
        c as u64 - 'A' as u64 + 10
    } else {
        36
    }
}

/// Reads an unsigned number in the given radix.
pub fn parse_unsigned(s: &str, radix: u64) -> (r: Option<u64>)
    requires
        2 <= radix <= 36,
    ensures
        r == unsigned_value(s@, radix as int),
{
    let cs = chars_of(s);
    let len = cs.len();
    let first: usize = if len > 0 && cs[0] == '+' { 1 } else { 0 };
    let ghost d = s@.skip(first as int);
    assert(s@.skip(0) == s@);
    if first == len {
        return None;
    }
    let mut i: usize = first;
    let mut value: u64 = 0;
    while i < len
        invariant
            cs@ == s@,
            len == s@.len(),
            first <= i <= len,
            2 <= radix <= 36,
            d == s@.skip(first as int),
            all_digits(d.take(i - first), radix as int),
            value == digits_value(d.take(i - first), radix as int),
            unsigned_value(s@, radix as int) == (if d.len() > 0 && all_digits(d, radix as int)
                && digits_value(d, radix as int) <= u64::MAX {
                Some(digits_value(d, radix as int) as u64)
            } else {
                None
            }),
        decreases len - i,
    {
        let x = digit(cs[i]);
        let ghost k = i - first;
        proof {
            assert(d[k] == s@[i as int]);
            assert(d.take(k + 1).drop_last() == d.take(k));
            assert(d.take(k + 1).last() == d[k]);
            lemma_digits_value_grows(d, radix as int, k + 1);
        }
        if x >= radix {
            return None;
        }
        match value.checked_mul(radix) {
            None => {
                return None;
            },
            Some(scaled) => match scaled.checked_add(x) {
                None => {
                    return None;
                },
                Some(sum) => {
                    value = sum;
                },
            },
        }
        i += 1;
        assert(all_digits(d.take(i - first), radix as int)) by {
            assert forall|j: int| 0 <= j < k + 1 implies digit_value(
                #[trigger] d.take(k + 1)[j],
            ) < radix by {
                if j < k {
                    assert(d.take(k + 1)[j] == d.take(k)[j]);
                }
            }
        }
    }
    assert(d.take(i - first) == d);
    Some(value)
}

/// Reads a number of a command line.
pub fn parse_number(s: &str) -> (r: Option<u64>)
    ensures
        r == number_value(s@),
{
    proof {
        reveal_strlit("0x");
    }
    if starts_with(s, "0x") {
        let rest = s.substring_char(2, s.unicode_len());
        assert(rest@ == s@.skip(2));
        parse_unsigned(rest, 16)
    } else {
        parse_unsigned(s, 10)
    }
}

/// The digit that stands for `d`.
pub open spec fn digit_char(d: int) -> char {
    if d < 10 {
        ('0' as u32 + d) as char
    } else {
        ('a' as u32 + d - 10) as char
    }
}

/// The digits of `n` in the given radix, the most significant first.
pub open spec fn digits_of(n: int, radix: int) -> Seq<char>
    decreases n,
    when 2 <= radix
{
    if n < radix {
        seq![digit_char(n)]
    } else {
        proof {
            assert(0 <= n / radix < n) by (nonlinear_arith)
                requires
                    2 <= radix <= n,
            ;
        }
        digits_of(n / radix, radix).push(digit_char(n % radix))
    }
}

/// `0x` and at least two lower case hexadecimal digits.
pub open spec fn hex_text(n: u64) -> Seq<char> {
    let d = digits_of(n as int, 16);
    "0x"@ + if d.len() < 2 {
        seq!['0'] + d
    } else {
        d
    }
}

/// Writes the digits of `n`.
pub fn digits(n: u64, radix: u64) -> (r: String)
    requires
        2 <= radix <= 16,
    ensures
        r@ == digits_of(n as int, radix as int),
    decreases n,
{
    let table = "0123456789abcdef";
    proof {
        reveal_strlit("0123456789abcdef");
    }
    let last = (n % radix) as usize;
    let one = table.substring_char(last, last + 1);
    assert(one@ == seq![digit_char(last as int)]);
    if n < radix {
        assert(n % radix == n) by (nonlinear_arith)
            requires
                n < radix,
        ;
        one.to_owned()
    } else {
        assert(n / radix < n) by (nonlinear_arith)
            requires
                2 <= radix <= n,
        ;
        let mut r = digits(n / radix, radix);
        r.append(one);
        r
    }
}

/// Writes an address: `0x`, then at least two lower case hexadecimal digits.
pub fn hex(n: u64) -> (r: String)
    ensures
        r@ == hex_text(n),
{
    let d = digits(n, 16);
    let mut r = "0x".to_owned();
    if d.as_str().unicode_len() < 2 {
        proof {
            reveal_strlit("0");
            assert("0"@ == seq!['0']);
        }
        r.append("0");
    }
    r.append(d.as_str());
    r
}


/// The digits written for a number are digits, and stand for that number.
proof fn lemma_digits_of_value(n: int, radix: int)
    requires
        2 <= radix <= 16,
        0 <= n,
    ensures
        digits_of(n, radix).len() > 0,
        all_digits(digits_of(n, radix), radix),
        digits_value(digits_of(n, radix), radix) == n,
    decreases n,
{
    if n < radix {
        assert(digits_of(n, radix).drop_last() == Seq::<char>::empty());
        assert(digits_value(Seq::<char>::empty(), radix) * radix == 0) by (nonlinear_arith)
            requires
                digits_value(Seq::<char>::empty(), radix) == 0,
        ;
    } else {
        assert(0 <= n / radix < n && 0 <= n % radix < radix && (n / radix) * radix + n % radix == n)
            by (nonlinear_arith)
            requires
                2 <= radix <= n,
        ;
        lemma_digits_of_value(n / radix, radix);
        let d = digits_of(n / radix, radix);
        assert(digits_of(n, radix).drop_last() == d);
    }
}

/// An address written as text reads back as the same number, so a command line may use it
/// wherever it may use a number.
pub proof fn law_hex_reads_back(n: u64)
    ensures
        number_value(hex_text(n)) == Some(n),
{
    reveal_strlit("0x");
    let d = digits_of(n as int, 16);
    lemma_digits_of_value(n as int, 16);
    let s = hex_text(n);
    let padded = if d.len() < 2 {
        seq!['0'] + d
    } else {
        d
    };
    assert(s.take(2) == "0x"@);
    assert(s.skip(2) == padded);
    assert(all_digits(padded, 16));
    assert(digits_value(padded, 16) == n) by {
        if d.len() < 2 {
            assert(padded.drop_last() == seq!['0']);
            assert(padded.last() == d.last());
            assert(seq!['0'].drop_last() == Seq::<char>::empty());
            assert(d.drop_last() == Seq::<char>::empty());
            reveal_with_fuel(digits_value, 3);
        }
    }
    assert(digit_value(padded[0]) < 16);
}

/// A number written in decimal reads back as the same number.
pub proof fn law_decimal_reads_back(n: u64)
    ensures
        number_value(digits_of(n as int, 10)) == Some(n),
{
    reveal_strlit("0x");
    let d = digits_of(n as int, 10);
    lemma_digits_of_value(n as int, 10);
    assert(digit_value(d[0]) < 10);
    if has_prefix(d, "0x"@) {
        assert(d.take(2)[1] == 'x');
        assert(digit_value(d[1]) < 10);
    }
}

/// A word at the beginning of a line is the first of its words.
pub proof fn lemma_first_word(word: Seq<char>, rest: Seq<char>)
    requires
        word.len() > 0,
        forall|i: int| 0 <= i < word.len() ==> !is_space(#[trigger] word[i]),
        rest.len() > 0 ==> is_space(rest[0]),
    ensures
        words_of(word + rest) == seq![word] + words_of(rest),
{
    let s = word + rest;
    lemma_run_len_is(s, |c: char| is_space(c), 0);
    assert(s.skip(0) == s);
    assert forall|i: int| 0 <= i < word.len() implies !is_space(#[trigger] s[i]) by {
        assert(s[i] == word[i]);
    }
    lemma_run_len_is(s, |c: char| !is_space(c), word.len() as int);
    assert(s.take(word.len() as int) == word);
    assert(s.skip(word.len() as int) == rest);
}

/// White space at the beginning of a line does not count.
pub proof fn lemma_leading_space(space: char, rest: Seq<char>)
    requires
        is_space(space),
    ensures
        words_of(seq![space] + rest) == words_of(rest),
{
    let p = |c: char| is_space(c);
    let s = seq![space] + rest;
    let n = run_len(rest, p) as int;
    lemma_run_len(rest, p);
    assert forall|i: int| 0 <= i < n + 1 implies p(#[trigger] s[i]) by {
        if i > 0 {
            assert(s[i] == rest[i - 1]);
        }
    }
    if n < rest.len() {
        assert(s[n + 1] == rest[n]);
    }
    lemma_run_len_is(s, p, n + 1);
    assert(s.skip(n + 1) == rest.skip(n));
}

/// An empty line has no words; white space at the beginning of a line does not count; and a line
/// that begins with a word, up to white space or its end, has that word and then the words of
/// what is left. Every line is one of these.
pub proof fn law_words(word: Seq<char>, space: char, rest: Seq<char>)
    requires
        word.len() > 0,
        forall|i: int| 0 <= i < word.len() ==> !is_space(#[trigger] word[i]),
        is_space(space),
    ensures
        words_of(Seq::<char>::empty()) == Seq::<Seq<char>>::empty(),
        words_of(word) == seq![word],
        words_of(word + (seq![space] + rest)) == seq![word] + words_of(rest),
        words_of(seq![space] + rest) == words_of(rest),
{
    let none = Seq::<char>::empty();
    assert(words_of(none) == Seq::<Seq<char>>::empty());
    lemma_first_word(word, none);
    assert(word + none == word);
    assert(seq![word] + Seq::<Seq<char>>::empty() == seq![word]);
    lemma_first_word(word, seq![space] + rest);
    lemma_leading_space(space, rest);
}

/// A line begins with a prefix if and only if it is that prefix with something behind it.
pub proof fn law_prefix(s: Seq<char>, prefix: Seq<char>)
    ensures
        has_prefix(s, prefix) <==> exists|rest: Seq<char>| s == #[trigger] (prefix + rest),
{
    if has_prefix(s, prefix) {
        assert(s == prefix + s.skip(prefix.len() as int));
    }
    assert forall|rest: Seq<char>| s == #[trigger] (prefix + rest) implies has_prefix(
        s,
        prefix,
    ) by {
        assert(s.take(prefix.len() as int) == prefix);
    }
}

/// A list of strings is seen with each string's contents, all of them and in order.
pub proof fn law_views_hold_all(list: Seq<String>)
    ensures
        views(list).len() == list.len(),
        forall|i: int| 0 <= i < list.len() ==> views(list)[i] == #[trigger] list[i]@,
{
}

/// A single digit is read as its value, and a digit behind a number multiplies that number by
/// the radix and adds its value; a number that does not fit is refused.
pub proof fn law_digit_by_digit(s: Seq<char>, c: char, d: int, radix: int)
    requires
        2 <= radix <= 36,
        0 <= d < radix,
        ('0' <= c <= '9' && d == c as int - '0' as int) || ('a' <= c <= 'z' && d == c as int
            - 'a' as int + 10) || ('A' <= c <= 'Z' && d == c as int - 'A' as int + 10),
    ensures
        unsigned_value(seq![c], radix) == Some(d as u64),
        unsigned_value(s, radix) matches Some(v) ==> unsigned_value(s.push(c), radix) == (if v
            * radix + d <= u64::MAX {
            Some((v * radix + d) as u64)
        } else {
            None
        }),
        s.len() > 0 && s != seq!['+'] && unsigned_value(s, radix) is None ==> unsigned_value(
            s.push(c),
            radix,
        ) is None,
{
    let one = seq![c];
    assert(one.drop_last() == Seq::<char>::empty());
    assert(digits_value(Seq::<char>::empty(), radix) * radix == 0) by (nonlinear_arith)
        requires
            digits_value(Seq::<char>::empty(), radix) == 0,
    ;
    assert(digits_value(one, radix) == d);
    if s.len() > 0 {
        let first: int = if s[0] == '+' { 1 } else { 0 };
        let t = s.push(c);
        let e = s.skip(first);
        let f = t.skip(first);
        assert(s.skip(0) == s && t.skip(0) == t);
        assert(f == e.push(c));
        assert(f.drop_last() == e);
        assert(f.last() == c);
        assert(all_digits(f, radix) <==> all_digits(e, radix)) by {
            if all_digits(f, radix) {
                assert forall|i: int| 0 <= i < e.len() implies digit_value(#[trigger] e[i])
                    < radix by {
                    assert(f[i] == e[i]);
                }
            }
            if all_digits(e, radix) {
                assert forall|i: int| 0 <= i < f.len() implies digit_value(#[trigger] f[i])
                    < radix by {
                    if i < e.len() {
                        assert(f[i] == e[i]);
                    }
                }
            }
        }
        if e.len() == 0 {
            assert(s == seq!['+']);
        }
        lemma_digits_value_grows(f, radix, e.len() as int);
        assert(f.take(e.len() as int) == e);
    }
}

/// A plus sign before a number does not count, once. Without a digit there is no number.
pub proof fn law_sign(s: Seq<char>, radix: int)
    requires
        2 <= radix <= 36,
    ensures
        unsigned_value(Seq::<char>::empty(), radix) is None,
        unsigned_value(seq!['+'], radix) is None,
        s.len() > 0 && s[0] != '+' ==> unsigned_value(seq!['+'] + s, radix) == unsigned_value(
            s,
            radix,
        ),
{
    assert((seq!['+'] + s).skip(1) == s);
    assert(seq!['+'].skip(1).len() == 0);
}

/// A text that holds anything but digits of the radix, besides a plus sign at its beginning, is
/// no number.
pub proof fn law_other_characters_are_refused(s: Seq<char>, i: int, radix: int)
    requires
        2 <= radix <= 36,
        0 <= i < s.len(),
        i > 0 || s[0] != '+',
        '0' <= s[i] <= '9' ==> s[i] as int - '0' as int >= radix,
        'a' <= s[i] <= 'z' ==> s[i] as int - 'a' as int + 10 >= radix,
        'A' <= s[i] <= 'Z' ==> s[i] as int - 'A' as int + 10 >= radix,
    ensures
        unsigned_value(s, radix) is None,
{
    assert(digit_value(s[i]) >= radix);
    if s[0] == '+' {
        assert(s.skip(1)[i - 1] == s[i]);
    }
}

/// Behind `0x` a number is read as hexadecimal, any other number as decimal.
pub proof fn law_number_radix(s: Seq<char>)
    ensures
        number_value(seq!['0', 'x'] + s) == unsigned_value(s, 16),
        !(s.len() >= 2 && s[0] == '0' && s[1] == 'x') ==> number_value(s) == unsigned_value(s, 10),
{
    reveal_strlit("0x");
    let t = seq!['0', 'x'] + s;
    assert(t.take(2) == "0x"@);
    assert(t.skip(2) == s);
    if has_prefix(s, "0x"@) {
        assert(s.take(2)[0] == '0' && s.take(2)[1] == 'x');
    }
}

/// The digits written for a number read back as that number, are of lower case, and have no
/// zero in front.
pub proof fn law_digits(n: u64, radix: int)
    requires
        2 <= radix <= 16,
    ensures
        unsigned_value(digits_of(n as int, radix), radix) == Some(n),
        digits_of(n as int, radix).len() > 0,
        digits_of(n as int, radix).len() > 1 ==> digits_of(n as int, radix)[0] != '0',
        forall|i: int|
            0 <= i < digits_of(n as int, radix).len() ==> ('0' <= #[trigger] digits_of(
                n as int,
                radix,
            )[i] <= '9' || 'a' <= digits_of(n as int, radix)[i] <= 'f'),
{
    lemma_digits_of_value(n as int, radix);
    lemma_digits_of_shape(n as int, radix);
    let d = digits_of(n as int, radix);
    assert(digit_value(d[0]) < radix);
}

proof fn lemma_digits_of_shape(n: int, radix: int)
    requires
        2 <= radix <= 16,
        0 <= n,
    ensures
        digits_of(n, radix).len() > 0,
        n > 0 ==> digits_of(n, radix)[0] != '0',
        digits_of(n, radix).len() > 1 ==> n > 0,
        forall|i: int|
            0 <= i < digits_of(n, radix).len() ==> ('0' <= #[trigger] digits_of(n, radix)[i] <= '9'
                || 'a' <= digits_of(n, radix)[i] <= 'f'),
    decreases n,
{
    if n >= radix {
        assert(0 < n / radix < n && 0 <= n % radix < radix) by (nonlinear_arith)
            requires
                2 <= radix <= n,
        ;
        lemma_digits_of_shape(n / radix, radix);
    }
}

/// An address is written as `0x` and at least two digits of lower case, with a zero in front only
/// to make up two digits, and the digits stand for the address.
pub proof fn law_hex_text(n: u64)
    ensures
        hex_text(n).len() >= 4,
        hex_text(n)[0] == '0',
        hex_text(n)[1] == 'x',
        hex_text(n).len() > 4 ==> hex_text(n)[2] != '0',
        forall|i: int|
            2 <= i < hex_text(n).len() ==> ('0' <= #[trigger] hex_text(n)[i] <= '9' || 'a'
                <= hex_text(n)[i] <= 'f'),
        unsigned_value(hex_text(n).skip(2), 16) == Some(n),
{
    reveal_strlit("0x");
    law_digits(n, 16);
    law_hex_reads_back(n);
    let d = digits_of(n as int, 16);
    let skipped: int = if d.len() < 2 { 3 } else { 2 };
    assert forall|i: int| 2 <= i < hex_text(n).len() implies ('0' <= #[trigger] hex_text(n)[i]
        <= '9' || 'a' <= hex_text(n)[i] <= 'f') by {
        if i >= skipped {
            assert(hex_text(n)[i] == d[i - skipped]);
        }
    }
    assert(hex_text(n).take(2) == "0x"@);
}

/// What is written for an address holds no white space and no dollar sign.
pub proof fn lemma_hex_text_chars(n: u64)
    ensures
        hex_text(n).len() > 0,
        forall|i: int|
            0 <= i < hex_text(n).len() ==> !is_space(#[trigger] hex_text(n)[i]) && hex_text(n)[i]
                != '$',
{
    reveal_strlit("0x");
    lemma_digits_of_value(n as int, 16);
    let d = digits_of(n as int, 16);
    assert forall|i: int| 0 <= i < hex_text(n).len() implies !is_space(#[trigger] hex_text(n)[i])
        && hex_text(n)[i] != '$' by {
        let skipped: int = if d.len() < 2 { 3 } else { 2 };
        if i >= skipped {
            assert(hex_text(n)[i] == d[i - skipped]);
            assert(digit_value(d[i - skipped]) < 16);
        }
    }
}

/// What is written for a decimal number holds no white space and no dollar sign.
pub proof fn lemma_decimal_chars(n: u64)
    ensures
        digits_of(n as int, 10).len() > 0,
        forall|i: int|
            0 <= i < digits_of(n as int, 10).len() ==> !is_space(
                #[trigger] digits_of(n as int, 10)[i],
            ) && digits_of(n as int, 10)[i] != '$',
{
    lemma_digits_of_value(n as int, 10);
    let d = digits_of(n as int, 10);
    assert forall|i: int| 0 <= i < d.len() implies !is_space(#[trigger] d[i]) && d[i] != '$' by {
        assert(digit_value(d[i]) < 10);
    }
}

} // verus!
