//! Text primitives, specified over sequences of characters.

use vstd::prelude::*;
use vstd::string::*;

verus! {

/// `String::push` appends one character to the end of the string.
pub assume_specification[ String::push ](text: &mut String, c: char)
    ensures
        final(text)@ == old(text)@.push(c),
;

/// The characters with the Unicode property `White_Space`.
pub open spec fn is_white_space(c: char) -> bool {
    ||| 0x9 <= c as int <= 0xd
    ||| c as int == 0x20
    ||| c as int == 0x85
    ||| c as int == 0xa0
    ||| c as int == 0x1680
    ||| 0x2000 <= c as int <= 0x200a
    ||| c as int == 0x2028
    ||| c as int == 0x2029
    ||| c as int == 0x202f
    ||| c as int == 0x205f
    ||| c as int == 0x3000
}

/// `s` without its leading white space.
pub open spec fn trimmed_start(s: Seq<char>) -> Seq<char>
    decreases s.len(),
{
    if s.len() > 0 && is_white_space(s[0]) {
        trimmed_start(s.drop_first())
    } else {
        s
    }
}

/// `s` without its trailing white space.
pub open spec fn trimmed_end(s: Seq<char>) -> Seq<char>
    decreases s.len(),
{
    if s.len() > 0 && is_white_space(s.last()) {
        trimmed_end(s.drop_last())
    } else {
        s
    }
}

/// `s` without the white space around it.
pub open spec fn trimmed(s: Seq<char>) -> Seq<char> {
    trimmed_end(trimmed_start(s))
}

/// Whether `s` holds nothing but white space.
pub open spec fn is_blank(s: Seq<char>) -> bool {
    trimmed(s).len() == 0
}

/// `s` without the run of `c` that it ends in.
pub open spec fn without_trailing(s: Seq<char>, c: char) -> Seq<char>
    decreases s.len(),
{
    if s.len() > 0 && s.last() == c {
        without_trailing(s.drop_last(), c)
    } else {
        s
    }
}

/// The part of `s` in front of the first `c`; all of `s` where no `c` occurs.
pub open spec fn before_first(s: Seq<char>, c: char) -> Seq<char>
    decreases s.len(),
{
    if s.len() == 0 || s[0] == c {
        Seq::empty()
    } else {
        seq![s[0]] + before_first(s.drop_first(), c)
    }
}

/// Whether `pattern` stands in `s` at position `i`.
pub open spec fn occurs_at(s: Seq<char>, pattern: Seq<char>, i: int) -> bool {
    &&& 0 <= i
    &&& i + pattern.len() <= s.len()
    &&& s.subrange(i, i + pattern.len()) == pattern
}

/// Whether `pattern` stands anywhere in `s`.
pub open spec fn occurs(s: Seq<char>, pattern: Seq<char>) -> bool {
    exists|i: int| #[trigger] occurs_at(s, pattern, i)
}

/// Whether `i` is the first position of `pattern` in `s`.
pub open spec fn occurs_first_at(s: Seq<char>, pattern: Seq<char>, i: int) -> bool {
    &&& occurs_at(s, pattern, i)
    &&& forall|j: int| 0 <= j < i ==> !#[trigger] occurs_at(s, pattern, j)
}

/// The first position of `pattern` in `s`, where it has one.
pub open spec fn first_occurrence(s: Seq<char>, pattern: Seq<char>) -> Option<int> {
    if occurs(s, pattern) {
        Some(choose|i: int| occurs_first_at(s, pattern, i))
    } else {
        None
    }
}

/// `c` with an ASCII capital turned into its small letter.
pub open spec fn ascii_lower(c: char) -> char {
    if 'A' <= c <= 'Z' {
        (c as u32 + 32) as char
    } else {
        c
    }
}

/// `s` with every ASCII capital turned into its small letter.
pub open spec fn ascii_lowered(s: Seq<char>) -> Seq<char> {
    s.map_values(|c: char| ascii_lower(c))
}

/// The decimal digit of `d`.
pub open spec fn digit(d: nat) -> char {
    (48 + d) as char
}

/// `n` in decimal, without leading zeros.
pub open spec fn decimal_digits(n: nat) -> Seq<char>
    decreases n,
{
    if n < 10 {
        seq![digit(n)]
    } else {
        decimal_digits(n / 10).push(digit(n % 10))
    }
}

/// `n` in decimal, with a minus sign where it is negative.
pub open spec fn decimal(n: int) -> Seq<char> {
    if n < 0 {
        seq!['-'] + decimal_digits((-n) as nat)
    } else {
        decimal_digits(n as nat)
    }
}

/// A truth value in words.
pub open spec fn truth(b: bool) -> Seq<char> {
    if b {
        "true"@
    } else {
        "false"@
    }
}

/// Two first positions of one pattern are the same position.
pub proof fn lemma_first_occurrence(s: Seq<char>, pattern: Seq<char>, i: int)
    requires
        occurs_first_at(s, pattern, i),
    ensures
        first_occurrence(s, pattern) == Some(i),
{
    let k = choose|k: int| occurs_first_at(s, pattern, k);
    assert(occurs_first_at(s, pattern, k));
    if k < i {
        assert(!occurs_at(s, pattern, k));
    } else if i < k {
        assert(!occurs_at(s, pattern, i));
    }
}

/// Every pattern that occurs has a first position.
pub proof fn lemma_occurs_has_first(s: Seq<char>, pattern: Seq<char>, bound: int)
    requires
        occurs_at(s, pattern, bound),
    ensures
        exists|i: int| #[trigger] occurs_first_at(s, pattern, i) && i <= bound,
    decreases bound,
{
    if exists|j: int| 0 <= j < bound && #[trigger] occurs_at(s, pattern, j) {
        let j = choose|j: int| 0 <= j < bound && #[trigger] occurs_at(s, pattern, j);
        lemma_occurs_has_first(s, pattern, j);
    } else {
        assert(occurs_first_at(s, pattern, bound));
    }
}

/// A trimmed text neither begins nor ends in white space.
pub proof fn lemma_trimmed_ends(s: Seq<char>)
    ensures
        trimmed(s).len() > 0 ==> !is_white_space(trimmed(s)[0]) && !is_white_space(
            trimmed(s).last(),
        ),
{
    lemma_trimmed_start(s);
    lemma_trimmed_end(trimmed_start(s));
}

proof fn lemma_trimmed_start(s: Seq<char>)
    ensures
        trimmed_start(s).len() > 0 ==> !is_white_space(trimmed_start(s)[0]),
    decreases s.len(),
{
    if s.len() > 0 && is_white_space(s[0]) {
        lemma_trimmed_start(s.drop_first());
    }
}

proof fn lemma_trimmed_end(s: Seq<char>)
    ensures
        trimmed_end(s).len() > 0 ==> !is_white_space(trimmed_end(s).last()),
        trimmed_end(s).is_prefix_of(s),
    decreases s.len(),
{
    if s.len() > 0 && is_white_space(s.last()) {
        lemma_trimmed_end(s.drop_last());
        assert(trimmed_end(s) == s.subrange(0, trimmed_end(s).len() as int));
    } else {
        assert(s == s.subrange(0, s.len() as int));
    }
}

/// Trimming a text a second time changes nothing.
pub proof fn law_trimming_settles(s: Seq<char>)
    ensures
        trimmed(trimmed(s)) == trimmed(s),
{
    lemma_trimmed_ends(s);
}

/// What stands in front of the first `c` holds no `c`.
pub proof fn lemma_before_first(s: Seq<char>, c: char)
    ensures
        !before_first(s, c).contains(c),
    decreases s.len(),
{
    if s.len() > 0 && s[0] != c {
        let rest = before_first(s.drop_first(), c);
        lemma_before_first(s.drop_first(), c);
        assert forall|i: int| 0 <= i < before_first(s, c).len() implies before_first(s, c)[i]
            != c by {
            if i > 0 {
                assert(before_first(s, c)[i] == rest[i - 1]);
                assert(rest.contains(rest[i - 1]));
            }
        }
    }
}

/// A text without `c` in front of nothing, or of a `c`, is all that stands before the first `c`.
pub proof fn lemma_before_first_of(head: Seq<char>, tail: Seq<char>, c: char)
    requires
        !head.contains(c),
        tail.len() == 0 || tail[0] == c,
    ensures
        before_first(head + tail, c) == head,
    decreases head.len(),
{
    if head.len() > 0 {
        assert(head.contains(head[0]));
        assert((head + tail).drop_first() == head.drop_first() + tail);
        assert forall|x: char| #[trigger] head.drop_first().contains(x) implies head.contains(
            x,
        ) by {
            let i = choose|i: int|
                0 <= i < head.drop_first().len() && head.drop_first()[i] == x;
            assert(head[i + 1] == x);
        }
        lemma_before_first_of(head.drop_first(), tail, c);
        assert(seq![head[0]] + head.drop_first() == head);
    } else {
        assert(head + tail == tail);
    }
}

/// The characters of a text, one by one.
pub fn chars_of(s: &str) -> (chars: Vec<char>)
    ensures
        chars@ == s@,
{
    let mut chars: Vec<char> = Vec::new();
    for c in it: s.chars()
        invariant
            it.seq() == s@,
            chars@ == s@.take(it.index() as int),
    {
        chars.push(c);
        assert(s@.take(it.index() + 1) == s@.take(it.index() as int).push(s@[it.index() as int]));
    }
    assert(s@.take(s@.len() as int) == s@);
    chars
}

/// Whether `c` has the Unicode property `White_Space`.
pub fn white_space(c: char) -> (r: bool)
    ensures
        r == is_white_space(c),
{
    let n: u32 = c as u32;
    (0x9 <= n && n <= 0xd) || n == 0x20 || n == 0x85 || n == 0xa0 || n == 0x1680 || (0x2000 <= n
        && n <= 0x200a) || n == 0x2028 || n == 0x2029 || n == 0x202f || n == 0x205f || n == 0x3000
}

/// The text without the white space around it.
pub fn trim(s: &str) -> (r: &str)
    ensures
        r@ == trimmed(s@),
{
    let chars = chars_of(s);
    let n: usize = chars.len();
    let mut i: usize = 0;
    assert(s@.subrange(0, n as int) == s@);
    while i < n && white_space(chars[i])
        invariant
            n == chars@.len(),
            chars@ == s@,
            i <= n,
            trimmed_start(s@) == trimmed_start(s@.subrange(i as int, n as int)),
        decreases n - i,
    {
        assert(s@.subrange(i as int, n as int).drop_first() == s@.subrange(i + 1, n as int));
        i = i + 1;
    }
    let mut j: usize = n;
    while j > i && white_space(chars[j - 1])
        invariant
            n == chars@.len(),
            chars@ == s@,
            i <= j <= n,
            trimmed_end(s@.subrange(i as int, n as int)) == trimmed_end(
                s@.subrange(i as int, j as int),
            ),
        decreases j,
    {
        assert(s@.subrange(i as int, j as int).drop_last() == s@.subrange(i as int, j - 1));
        j = j - 1;
    }
    s.substring_char(i, j)
}

/// Whether the text holds nothing but white space.
pub fn blank(s: &str) -> (r: bool)
    ensures
        r == is_blank(s@),
{
    trim(s).is_empty()
}

/// Whether two texts are the same.
pub fn same(a: &str, b: &str) -> (r: bool)
    ensures
        r == (a@ == b@),
{
    a.to_owned() == b.to_owned()
}

/// Whether the text begins with `prefix`.
pub fn starts_with(s: &str, prefix: &str) -> (r: bool)
    ensures
        r == prefix@.is_prefix_of(s@),
{
    let n: usize = prefix.unicode_len();
    if s.unicode_len() < n {
        false
    } else {
        same(s.substring_char(0, n), prefix)
    }
}

/// The text behind its first `n` characters.
pub fn skip_chars(s: &str, n: usize) -> (r: &str)
    requires
        n <= s@.len(),
    ensures
        r@ == s@.skip(n as int),
{
    s.substring_char(n, s.unicode_len())
}

/// The first `n` characters of the text, or all of them where it has fewer.
pub fn first_chars(s: &str, n: usize) -> (r: &str)
    ensures
        r@ == if n <= s@.len() {
            s@.take(n as int)
        } else {
            s@
        },
{
    if n <= s.unicode_len() {
        s.substring_char(0, n)
    } else {
        s
    }
}

/// The first position of `pattern` in the text.
pub fn find(s: &str, pattern: &str) -> (r: Option<usize>)
    ensures
        match r {
            Some(i) => first_occurrence(s@, pattern@) == Some(i as int) && occurs_at(
                s@,
                pattern@,
                i as int,
            ),
            None => first_occurrence(s@, pattern@) is None,
        },
{
    let n: usize = s.unicode_len();
    let m: usize = pattern.unicode_len();
    if n < m {
        return None;
    }
    let mut i: usize = 0;
    while i <= n - m
        invariant
            n == s@.len(),
            m == pattern@.len(),
            m <= n,
            i <= n - m + 1,
            forall|j: int| 0 <= j < i ==> !#[trigger] occurs_at(s@, pattern@, j),
        decreases n - m + 1 - i,
    {
        if same(s.substring_char(i, i + m), pattern) {
            proof {
                lemma_first_occurrence(s@, pattern@, i as int);
            }
            return Some(i);
        }
        if i == n - m {
            return None;
        }
        i = i + 1;
    }
    None
}

/// Whether `pattern` stands anywhere in the text.
pub fn contains(s: &str, pattern: &str) -> (r: bool)
    ensures
        r == occurs(s@, pattern@),
{
    find(s, pattern).is_some()
}

/// The text in front of the first `c`.
pub fn before_char(s: &str, c: char) -> (r: &str)
    ensures
        r@ == before_first(s@, c),
{
    let chars = chars_of(s);
    let n: usize = chars.len();
    let mut i: usize = 0;
    assert(s@.subrange(0, n as int) == s@);
    assert(s@.take(0) + before_first(s@, c) == before_first(s@, c));
    while i < n && chars[i] != c
        invariant
            n == chars@.len(),
            chars@ == s@,
            i <= n,
            before_first(s@, c) == s@.take(i as int) + before_first(
                s@.subrange(i as int, n as int),
                c,
            ),
        decreases n - i,
    {
        proof {
            let rest = s@.subrange(i as int, n as int);
            assert(rest.drop_first() == s@.subrange(i + 1, n as int));
            assert(s@.take(i as int) + (seq![rest[0]] + before_first(rest.drop_first(), c))
                == s@.take(i + 1) + before_first(rest.drop_first(), c));
        }
        i = i + 1;
    }
    assert(s@.take(i as int) + Seq::<char>::empty() == s@.subrange(0, i as int));
    s.substring_char(0, i)
}

/// The text without the run of `c` that it ends in.
pub fn trim_end_char(s: &str, c: char) -> (r: &str)
    ensures
        r@ == without_trailing(s@, c),
{
    let chars = chars_of(s);
    let n: usize = chars.len();
    let mut i: usize = n;
    assert(s@.take(n as int) == s@);
    while i > 0 && chars[i - 1] == c
        invariant
            n == chars@.len(),
            chars@ == s@,
            i <= n,
            without_trailing(s@, c) == without_trailing(s@.take(i as int), c),
        decreases i,
    {
        assert(s@.take(i as int).drop_last() == s@.take(i - 1));
        i = i - 1;
    }
    assert(s@.take(i as int) == s@.subrange(0, i as int));
    s.substring_char(0, i)
}

/// The text with every ASCII capital turned into its small letter.
pub fn to_lower(s: &str) -> (r: String)
    ensures
        r@ == ascii_lowered(s@),
{
    let chars = chars_of(s);
    let mut out = String::new();
    let mut i: usize = 0;
    while i < chars.len()
        invariant
            chars@ == s@,
            i <= chars@.len(),
            out@ == ascii_lowered(s@.take(i as int)),
        decreases chars@.len() - i,
    {
        let c: char = chars[i];
        if 'A' <= c && c <= 'Z' {
            out.push((c as u8 + 32) as char);
        } else {
            out.push(c);
        }
        assert(out@ == ascii_lowered(s@.take(i + 1)));
        i = i + 1;
    }
    assert(s@.take(i as int) == s@);
    out
}

/// The decimal digits of `n`.
fn digits_text(n: u128) -> (r: String)
    ensures
        r@ == decimal_digits(n as nat),
    decreases n,
{
    let mut out = if n < 10 {
        String::new()
    } else {
        digits_text(n / 10)
    };
    out.push((48u8 + (n % 10) as u8) as char);
    assert(out@ == decimal_digits(n as nat));
    out
}

/// `n` in decimal.
pub fn number_text(n: i128) -> (r: String)
    requires
        n > i128::MIN,
    ensures
        r@ == decimal(n as int),
{
    if n < 0 {
        let mut out = String::new();
        out.push('-');
        out.append(digits_text((-n) as u128).as_str());
        assert(out@ == decimal(n as int));
        out
    } else {
        digits_text(n as u128)
    }
}

/// A truth value in words.
pub fn truth_text(b: bool) -> (r: &'static str)
    ensures
        r@ == truth(b),
{
    if b {
        "true"
    } else {
        "false"
    }
}

/// Two texts, one behind the other.
pub fn join(a: &str, b: &str) -> (r: String)
    ensures
        r@ == a@ + b@,
{
    a.to_owned().concat(b)
}

/// How many characters of white space a text begins with.
spec fn leading_white(s: Seq<char>) -> int
    decreases s.len(),
{
    if s.len() > 0 && is_white_space(s[0]) {
        1 + leading_white(s.drop_first())
    } else {
        0
    }
}

proof fn lemma_leading_white(s: Seq<char>)
    ensures
        0 <= leading_white(s) <= s.len(),
        trimmed_start(s) == s.skip(leading_white(s)),
        forall|i: int| 0 <= i < leading_white(s) ==> is_white_space(#[trigger] s[i]),
    decreases s.len(),
{
    if s.len() > 0 && is_white_space(s[0]) {
        let rest = s.drop_first();
        lemma_leading_white(rest);
        assert(rest.skip(leading_white(rest)) == s.skip(leading_white(s)));
        assert forall|i: int| 0 <= i < leading_white(s) implies is_white_space(#[trigger] s[i]) by {
            if i > 0 {
                assert(s[i] == rest[i - 1]);
            }
        }
    } else {
        assert(s.skip(0) == s);
    }
}

proof fn lemma_trailing_white(s: Seq<char>)
    ensures
        trimmed_end(s).len() <= s.len(),
        trimmed_end(s) == s.take(trimmed_end(s).len() as int),
        forall|i: int| trimmed_end(s).len() <= i < s.len() ==> is_white_space(#[trigger] s[i]),
    decreases s.len(),
{
    if s.len() > 0 && is_white_space(s.last()) {
        let front = s.drop_last();
        lemma_trailing_white(front);
        assert(front.take(trimmed_end(front).len() as int) == s.take(
            trimmed_end(s).len() as int,
        ));
        assert forall|i: int| trimmed_end(s).len() <= i < s.len() implies is_white_space(
            #[trigger] s[i],
        ) by {
            if i < s.len() - 1 {
                assert(s[i] == front[i]);
            }
        }
    } else {
        assert(s.take(s.len() as int) == s);
    }
}

/// Trimming takes white space off both ends of a text and nothing else: what is left stands in
/// the text as it was, between white space alone, and neither begins nor ends in white space.
pub proof fn law_trimming_takes_off_white_space_alone(s: Seq<char>)
    ensures
        exists|a: int, b: int|
            {
                &&& 0 <= a <= b <= s.len()
                &&& trimmed(s) == #[trigger] s.subrange(a, b)
                &&& forall|i: int| 0 <= i < a ==> is_white_space(#[trigger] s[i])
                &&& forall|i: int| b <= i < s.len() ==> is_white_space(#[trigger] s[i])
                &&& a < b ==> !is_white_space(s[a]) && !is_white_space(s[b - 1])
            },
{
    let a = leading_white(s);
    let rest = trimmed_start(s);
    let b = a + trimmed(s).len();
    lemma_leading_white(s);
    lemma_trailing_white(rest);
    lemma_trimmed_ends(s);
    assert(trimmed(s) == s.subrange(a, b));
    assert forall|i: int| b <= i < s.len() implies is_white_space(#[trigger] s[i]) by {
        assert(s[i] == rest[i - a]);
    }
    if a < b {
        assert(trimmed(s)[0] == s[a]);
        assert(trimmed(s).last() == s[b - 1]);
    }
}

/// A text is blank exactly if each of its characters is white space.
pub proof fn law_blank_texts_are_white_space(s: Seq<char>)
    ensures
        is_blank(s) <==> forall|i: int| 0 <= i < s.len() ==> is_white_space(#[trigger] s[i]),
{
    let a = leading_white(s);
    let rest = trimmed_start(s);
    lemma_leading_white(s);
    lemma_trailing_white(rest);
    lemma_trimmed_ends(s);
    if is_blank(s) {
        assert forall|i: int| 0 <= i < s.len() implies is_white_space(#[trigger] s[i]) by {
            if i >= a {
                assert(s[i] == rest[i - a]);
            }
        }
    } else {
        assert(trimmed(s)[0] == s[a]);
    }
}

/// What stands in front of a character is the text up to its first occurrence, or all of it.
pub proof fn law_before_first_ends_at_the_first(s: Seq<char>, c: char)
    ensures
        before_first(s, c).len() <= s.len(),
        before_first(s, c) == s.take(before_first(s, c).len() as int),
        !before_first(s, c).contains(c),
        before_first(s, c).len() < s.len() ==> s[before_first(s, c).len() as int] == c,
    decreases s.len(),
{
    lemma_before_first(s, c);
    if s.len() > 0 && s[0] != c {
        let rest = s.drop_first();
        law_before_first_ends_at_the_first(rest, c);
        assert(seq![s[0]] + rest.take(before_first(rest, c).len() as int) == s.take(
            before_first(s, c).len() as int,
        ));
    } else {
        assert(s.take(0) == Seq::<char>::empty());
    }
}

/// Without the run of a character at its end, a text is what stands in front of that run.
pub proof fn law_a_trailing_run_is_taken_off_whole(s: Seq<char>, c: char)
    ensures
        without_trailing(s, c).len() <= s.len(),
        without_trailing(s, c) == s.take(without_trailing(s, c).len() as int),
        forall|i: int| without_trailing(s, c).len() <= i < s.len() ==> #[trigger] s[i] == c,
        without_trailing(s, c).len() > 0 ==> without_trailing(s, c).last() != c,
    decreases s.len(),
{
    if s.len() > 0 && s.last() == c {
        let front = s.drop_last();
        law_a_trailing_run_is_taken_off_whole(front, c);
        assert(front.take(without_trailing(front, c).len() as int) == s.take(
            without_trailing(s, c).len() as int,
        ));
        assert forall|i: int| without_trailing(s, c).len() <= i < s.len() implies #[trigger] s[i]
            == c by {
            if i < s.len() - 1 {
                assert(s[i] == front[i]);
            }
        }
    } else {
        assert(s.take(s.len() as int) == s);
    }
}

/// The number that a run of decimal digits stands for.
pub open spec fn decimal_value(digits: Seq<char>) -> int
    decreases digits.len(),
{
    if digits.len() == 0 {
        0
    } else {
        10 * decimal_value(digits.drop_last()) + (digits.last() as int - '0' as int)
    }
}

/// The decimal digits of a number are digits, begin with zero for zero alone, and stand for the
/// number.
pub proof fn law_decimal_digits_stand_for_the_number(n: nat)
    ensures
        decimal_digits(n).len() > 0,
        forall|i: int| 0 <= i < decimal_digits(n).len() ==> '0' <= #[trigger] decimal_digits(n)[i] <= '9',
        decimal_digits(n)[0] == '0' ==> n == 0,
        decimal_value(decimal_digits(n)) == n,
        decimal(n as int) == decimal_digits(n),
        n > 0 ==> decimal(-(n as int)) == seq!['-'] + decimal_digits(n),
    decreases n,
{
    reveal_with_fuel(decimal_value, 2);
    if n >= 10 {
        law_decimal_digits_stand_for_the_number(n / 10);
        assert(decimal_digits(n).drop_last() == decimal_digits(n / 10));
    } else {
        assert(decimal_digits(n).drop_last() == Seq::<char>::empty());
    }
}

/// Lowering turns each ASCII capital into the small letter 32 places behind it, and leaves every
/// other character as it is, where it is.
pub proof fn law_lowering_turns_capitals_alone(s: Seq<char>, i: int)
    requires
        0 <= i < s.len(),
    ensures
        ascii_lowered(s).len() == s.len(),
        'A' <= s[i] <= 'Z' ==> ascii_lowered(s)[i] as int == s[i] as int + 32,
        !('A' <= s[i] <= 'Z') ==> ascii_lowered(s)[i] == s[i],
{
}

/// A pattern occurs exactly where it stands between two parts of a text, and its first position is
/// in front of all others.
pub proof fn law_patterns_are_found_where_they_stand(
    head: Seq<char>,
    pattern: Seq<char>,
    tail: Seq<char>,
)
    ensures
        occurs(head + pattern + tail, pattern),
        first_occurrence(head + pattern + tail, pattern) is Some,
        ({
            let s = head + pattern + tail;
            let i = first_occurrence(s, pattern)->Some_0;
            &&& 0 <= i <= head.len()
            &&& s.subrange(i, i + pattern.len()) == pattern
            &&& forall|j: int|
                0 <= j < i ==> #[trigger] s.subrange(j, j + pattern.len()) != pattern
        }),
{
    let s = head + pattern + tail;
    let at = head.len() as int;
    assert(s.subrange(at, at + pattern.len()) == pattern);
    assert(occurs_at(s, pattern, at));
    lemma_occurs_has_first(s, pattern, at);
    let i = choose|i: int| #[trigger] occurs_first_at(s, pattern, i) && i <= at;
    lemma_first_occurrence(s, pattern, i);
    assert forall|j: int| 0 <= j < i implies #[trigger] s.subrange(j, j + pattern.len())
        != pattern by {
        assert(!occurs_at(s, pattern, j));
    }
}

/// A text in which a pattern does not occur cannot be parted by it.
pub proof fn law_what_does_not_occur_parts_nothing(s: Seq<char>, pattern: Seq<char>, i: int)
    requires
        first_occurrence(s, pattern) is None,
        0 <= i,
        i + pattern.len() <= s.len(),
    ensures
        s.subrange(i, i + pattern.len()) != pattern,
{
    assert(!occurs_at(s, pattern, i));
}

} // verus!
