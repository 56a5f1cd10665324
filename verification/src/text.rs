//! Text as the library reads and writes it: number formatting, number
//! parsing, and cutting a text into lines and words.
//!
//! Everything is stated over `Seq<char>`, the view of `str` and `String`.

use vstd::prelude::*;

verus! {

/// `String::push` appends exactly the character it is given.
pub assume_specification[ String::push ](s: &mut String, c: char)
    ensures
        final(s)@ == old(s)@.push(c),
;

/// What `format!("{:?}", s)` makes of a string: the text between double
/// quotes, with control, quote and unprintable characters escaped.
pub uninterp spec fn quoted_str(s: Seq<char>) -> Seq<char>;

/// What `format!("{:?}", c)` makes of a character.
pub uninterp spec fn quoted_char(c: char) -> Seq<char>;

/// The `Debug` form of a string, by `std::fmt`. The claim is only that the
/// result is a function of the characters; which of them std escapes, and
/// how, is left unsaid.
#[verifier::external_body]
pub(crate) fn debug_str(s: &str) -> (r: String)
    ensures
        r@ == quoted_str(s@),
{
    format!("{:?}", s)
}

/// The `Debug` form of a character, by `std::fmt`. The claim is only that the
/// result is a function of the character; which characters std escapes, and
/// how, is left unsaid.
#[verifier::external_body]
pub(crate) fn debug_char(c: char) -> (r: String)
    ensures
        r@ == quoted_char(c),
{
    format!("{:?}", c)
}

/// The views of the elements of a sequence.
pub open spec fn views<T: View>(s: Seq<T>) -> Seq<T::V> {
    Seq::new(s.len(), |i: int| s[i]@)
}

// ------------------------------------------------------------------ numbers

/// The character of a digit below sixteen, letters in lower case.
pub open spec fn lower_digit(d: int) -> char {
    if d < 10 {
        (48 + d) as char
    } else {
        (87 + d) as char
    }
}

/// The character of a digit below sixteen, letters in upper case.
pub open spec fn upper_digit(d: int) -> char {
    if d < 10 {
        (48 + d) as char
    } else {
        (55 + d) as char
    }
}

/// A number in decimal, without leading zeros.
pub open spec fn decimal(n: nat) -> Seq<char>
    decreases n,
{
    if n < 10 {
        seq![lower_digit(n as int)]
    } else {
        decimal(n / 10).push(lower_digit((n % 10) as int))
    }
}

/// An integer in decimal, with a minus sign where it is negative.
pub open spec fn signed_decimal(i: int) -> Seq<char> {
    if i < 0 {
        seq!['-'] + decimal((-i) as nat)
    } else {
        decimal(i as nat)
    }
}

/// A number in lower-case hexadecimal, with zeros in front up to `width`
/// digits.
pub open spec fn hex_lower(n: nat, width: nat) -> Seq<char>
    decreases n, width,
{
    if n < 16 && width <= 1 {
        seq![lower_digit(n as int)]
    } else {
        hex_lower(n / 16, if width > 0 { (width - 1) as nat } else { 0 }).push(
            lower_digit((n % 16) as int),
        )
    }
}

/// A number in upper-case hexadecimal, with zeros in front up to `width`
/// digits.
pub open spec fn hex_upper(n: nat, width: nat) -> Seq<char>
    decreases n, width,
{
    if n < 16 && width <= 1 {
        seq![upper_digit(n as int)]
    } else {
        hex_upper(n / 16, if width > 0 { (width - 1) as nat } else { 0 }).push(
            upper_digit((n % 16) as int),
        )
    }
}

/// The numbers of a list, with a comma and a space between each two.
pub open spec fn comma_list(w: Seq<u16>) -> Seq<char>
    decreases w.len(),
{
    if w.len() == 0 {
        seq![]
    } else if w.len() == 1 {
        decimal(w[0] as nat)
    } else {
        comma_list(w.drop_last()) + ", "@ + decimal(w.last() as nat)
    }
}

pub(crate) fn push_lower_digit(s: &mut String, d: u8)
    requires
        d < 16,
    ensures
        final(s)@ == old(s)@.push(lower_digit(d as int)),
{
    let code: u8 = if d < 10 { 48 + d } else { 87 + d };
    s.push(code as char);
}

pub(crate) fn push_upper_digit(s: &mut String, d: u8)
    requires
        d < 16,
    ensures
        final(s)@ == old(s)@.push(upper_digit(d as int)),
{
    let code: u8 = if d < 10 { 48 + d } else { 55 + d };
    s.push(code as char);
}

/// Append a number in decimal.
pub(crate) fn push_decimal(s: &mut String, n: u64)
    ensures
        final(s)@ == old(s)@ + decimal(n as nat),
    decreases n,
{
    if n >= 10 {
        push_decimal(s, n / 10);
    }
    push_lower_digit(s, (n % 10) as u8);
    assert(s@ =~= old(s)@ + decimal(n as nat));
}

/// Append an integer in decimal.
pub(crate) fn push_signed(s: &mut String, i: i64)
    ensures
        final(s)@ == old(s)@ + signed_decimal(i as int),
{
    if i < 0 {
        s.push('-');
        let magnitude: u64 = (0i128 - i as i128) as u64;
        push_decimal(s, magnitude);
        assert(s@ =~= old(s)@ + signed_decimal(i as int));
    } else {
        push_decimal(s, i as u64);
    }
}

/// Append a number in lower-case hexadecimal, padded to `width` digits.
pub(crate) fn push_hex_lower(s: &mut String, n: u64, width: u8)
    ensures
        final(s)@ == old(s)@ + hex_lower(n as nat, width as nat),
    decreases n, width,
{
    if n >= 16 || width > 1 {
        push_hex_lower(s, n / 16, if width > 0 { width - 1 } else { 0 });
    }
    push_lower_digit(s, (n % 16) as u8);
    assert(s@ =~= old(s)@ + hex_lower(n as nat, width as nat));
}

/// Append a number in upper-case hexadecimal, padded to `width` digits.
pub(crate) fn push_hex_upper(s: &mut String, n: u64, width: u8)
    ensures
        final(s)@ == old(s)@ + hex_upper(n as nat, width as nat),
    decreases n, width,
{
    if n >= 16 || width > 1 {
        push_hex_upper(s, n / 16, if width > 0 { width - 1 } else { 0 });
    }
    push_upper_digit(s, (n % 16) as u8);
    assert(s@ =~= old(s)@ + hex_upper(n as nat, width as nat));
}

/// Append the numbers of a list, with commas between them.
pub(crate) fn push_comma_list(s: &mut String, w: &Vec<u16>)
    ensures
        final(s)@ == old(s)@ + comma_list(w@),
{
    let mut i: usize = 0;
    assert(s@ =~= old(s)@ + comma_list(w@.take(0)));
    while i < w.len()
        invariant
            0 <= i <= w.len(),
            s@ == old(s)@ + comma_list(w@.take(i as int)),
        decreases w.len() - i,
    {
        if i > 0 {
            s.append(", ");
        }
        push_decimal(s, w[i] as u64);
        proof {
            let next = w@.take(i + 1);
            assert(next.drop_last() =~= w@.take(i as int));
            assert(next.last() == w@[i as int]);
        }
        assert(s@ =~= old(s)@ + comma_list(w@.take(i + 1)));
        i = i + 1;
    }
    assert(w@.take(w@.len() as int) =~= w@);
}

/// The value of a hexadecimal digit, in either case.
pub open spec fn digit_value(c: char) -> Option<nat> {
    let code = c as u32;
    if 48 <= code <= 57 {
        Some((code - 48) as nat)
    } else if 97 <= code <= 102 {
        Some((code - 87) as nat)
    } else if 65 <= code <= 70 {
        Some((code - 55) as nat)
    } else {
        None
    }
}

/// Every character is a digit of the radix.
pub open spec fn all_digits(s: Seq<char>, radix: nat) -> bool {
    forall|i: int|
        0 <= i < s.len() ==> (#[trigger] digit_value(s[i]) matches Some(d) && d < radix)
}

/// The number that a sequence of digits denotes, most significant first.
pub open spec fn number(s: Seq<char>, radix: nat) -> nat
    decreases s.len(),
{
    if s.len() == 0 {
        0
    } else {
        number(s.drop_last(), radix) * radix + digit_value(s.last()).unwrap_or(0)
    }
}

/// The digits of a written number: all of it, but for a plus sign in front.
pub open spec fn unsigned_body(s: Seq<char>) -> Seq<char> {
    if s.len() > 1 && s[0] == '+' {
        s.skip(1)
    } else {
        s
    }
}

/// The unsigned number that a text denotes: an optional plus sign, then at
/// least one digit, and a value of at most `max`.
pub open spec fn parsed_unsigned(s: Seq<char>, radix: nat, max: nat) -> Option<nat> {
    let body = unsigned_body(s);
    if body.len() > 0 && all_digits(body, radix) && number(body, radix) <= max {
        Some(number(body, radix))
    } else {
        None
    }
}

/// The 64-bit signed integer that a text denotes in decimal.
pub open spec fn parsed_signed(s: Seq<char>) -> Option<int> {
    if s.len() > 1 && s[0] == '-' {
        let body = s.skip(1);
        if all_digits(body, 10) && number(body, 10) <= 0x8000_0000_0000_0000 {
            Some(-(number(body, 10) as int))
        } else {
            None
        }
    } else {
        match parsed_unsigned(s, 10, 0x7FFF_FFFF_FFFF_FFFF) {
            Some(n) => Some(n as int),
            None => None,
        }
    }
}

/// Digits added behind a number never make it smaller.
proof fn lemma_number_grows(s: Seq<char>, i: int, radix: nat)
    requires
        0 <= i <= s.len(),
        radix >= 1,
    ensures
        number(s.take(i), radix) <= number(s, radix),
    decreases s.len() - i,
{
    if i == s.len() {
        assert(s.take(i) =~= s);
    } else {
        lemma_number_grows(s, i + 1, radix);
        let next = s.take(i + 1);
        assert(next.drop_last() =~= s.take(i));
        let n = number(s.take(i), radix);
        assert(n <= n * radix) by (nonlinear_arith)
            requires
                radix >= 1,
        ;
    }
}

pub(crate) fn char_digit(c: char) -> (r: Option<u8>)
    ensures
        match r {
            Some(d) => d < 16 && digit_value(c) == Some(d as nat),
            None => digit_value(c) is None,
        },
{
    let code: u32 = c as u32;
    if 48 <= code && code <= 57 {
        Some((code - 48) as u8)
    } else if 97 <= code && code <= 102 {
        Some((code - 87) as u8)
    } else if 65 <= code && code <= 70 {
        Some((code - 55) as u8)
    } else {
        None
    }
}

/// The value of the digits from `start` on, if they are digits of the radix,
/// at least one, and the value is at most `max`.
fn digits_from(s: &Vec<char>, start: usize, radix: u64, max: u64) -> (r: Option<u64>)
    requires
        start <= s@.len(),
        2 <= radix <= 16,
    ensures
        r == (if s@.skip(start as int).len() > 0 && all_digits(s@.skip(start as int), radix as nat)
            && number(s@.skip(start as int), radix as nat) <= max {
            Some(number(s@.skip(start as int), radix as nat) as u64)
        } else {
            None
        }),
{
    let ghost body = s@.skip(start as int);
    if start == s.len() {
        return None;
    }
    let mut acc: u64 = 0;
    let mut i: usize = start;
    while i < s.len()
        invariant
            start <= i <= s@.len(),
            body == s@.skip(start as int),
            2 <= radix <= 16,
            acc <= max,
            acc == number(body.take(i - start), radix as nat),
            all_digits(body.take(i - start), radix as nat),
        decreases s.len() - i,
    {
        let ghost next = body.take(i - start + 1);
        proof {
            assert(next.drop_last() =~= body.take(i - start));
            assert(next.last() == s@[i as int]);
            lemma_number_grows(body, i - start + 1, radix as nat);
            assert(body[i - start] == s@[i as int]);
        }
        match char_digit(s[i]) {
            Some(d) => {
                if d as u64 >= radix {
                    return None;
                }
                assert(acc as u128 * radix as u128 <= 0xFFFF_FFFF_FFFF_FFFF * 16) by (nonlinear_arith)
                    requires
                        acc <= 0xFFFF_FFFF_FFFF_FFFF,
                        radix <= 16,
                ;
                let wide: u128 = acc as u128 * radix as u128 + d as u128;
                assert(wide == number(next, radix as nat)) by {
                    assert(digit_value(next.last()).unwrap_or(0) == d as nat);
                }
                if wide > max as u128 {
                    return None;
                }
                acc = wide as u64;
                proof {
                    assert forall|k: int| 0 <= k < next.len() implies (
                    #[trigger] digit_value(next[k]) matches Some(v) && v < radix as nat) by {
                        if k < i - start {
                            assert(next[k] == body.take(i - start)[k]);
                        }
                    }
                }
            },
            None => {
                return None;
            },
        }
        i = i + 1;
    }
    assert(body.take(i - start) =~= body);
    Some(acc)
}

/// Read an unsigned number.
pub(crate) fn parse_unsigned(s: &Vec<char>, radix: u64, max: u64) -> (r: Option<u64>)
    requires
        2 <= radix <= 16,
    ensures
        match r {
            Some(n) => parsed_unsigned(s@, radix as nat, max as nat) == Some(n as nat),
            None => parsed_unsigned(s@, radix as nat, max as nat) is None,
        },
{
    assert(s@.skip(0) =~= s@);
    if s.len() > 1 && s[0] == '+' {
        digits_from(s, 1, radix, max)
    } else {
        digits_from(s, 0, radix, max)
    }
}

/// Read a signed number in decimal.
pub(crate) fn parse_signed(s: &Vec<char>) -> (r: Option<i64>)
    ensures
        match r {
            Some(n) => parsed_signed(s@) == Some(n as int),
            None => parsed_signed(s@) is None,
        },
{
    if s.len() > 1 && s[0] == '-' {
        match digits_from(s, 1, 10, 0x8000_0000_0000_0000) {
            Some(n) => Some((0i128 - n as i128) as i64),
            None => None,
        }
    } else {
        match parse_unsigned(s, 10, 0x7FFF_FFFF_FFFF_FFFF) {
            Some(n) => Some(n as i64),
            None => None,
        }
    }
}

// ------------------------------------------------------------ cutting a text

/// The characters with the Unicode property `White_Space`.
pub open spec fn is_space(c: char) -> bool {
    let code = c as u32;
    ||| 0x09 <= code <= 0x0D
    ||| code == 0x20
    ||| code == 0x85
    ||| code == 0xA0
    ||| code == 0x1680
    ||| 0x2000 <= code <= 0x200A
    ||| code == 0x2028
    ||| code == 0x2029
    ||| code == 0x202F
    ||| code == 0x205F
    ||| code == 0x3000
}

/// A text without the white space at either end.
pub open spec fn trimmed(s: Seq<char>) -> Seq<char>
    decreases s.len(),
{
    if s.len() > 0 && is_space(s[0]) {
        trimmed(s.drop_first())
    } else if s.len() > 0 && is_space(s.last()) {
        trimmed(s.drop_last())
    } else {
        s
    }
}

/// A text cut at every line feed. The piece behind the last one is a line
/// too, and may be empty.
pub open spec fn lines(s: Seq<char>) -> Seq<Seq<char>>
    decreases s.len(),
{
    if s.len() == 0 {
        seq![seq![]]
    } else {
        let before = lines(s.drop_last());
        if s.last() == '\n' {
            before.push(seq![])
        } else {
            before.update(before.len() - 1, before.last().push(s.last()))
        }
    }
}

/// The words of a text: its longest runs of characters that are not white
/// space.
pub open spec fn words(s: Seq<char>) -> Seq<Seq<char>>
    decreases s.len(),
{
    if s.len() == 0 {
        seq![]
    } else {
        let before = words(s.drop_last());
        if is_space(s.last()) {
            before
        } else if s.len() >= 2 && !is_space(s[s.len() - 2]) {
            before.update(before.len() - 1, before.last().push(s.last()))
        } else {
            before.push(seq![s.last()])
        }
    }
}

/// `needle` occurs somewhere in `s`.
pub open spec fn contains_text(s: Seq<char>, needle: Seq<char>) -> bool {
    exists|i: int| #[trigger] occurs_at(s, needle, i)
}

pub open spec fn occurs_at(s: Seq<char>, needle: Seq<char>, i: int) -> bool {
    0 <= i && i + needle.len() <= s.len() && s.subrange(i, i + needle.len()) == needle
}

/// The characters of a string.
pub(crate) fn chars_of(s: &str) -> (r: Vec<char>)
    ensures
        r@ == s@,
{
    let mut out: Vec<char> = Vec::new();
    for c in it: s.chars()
        invariant
            out@ == it.seq().take(it.index() as int),
            it.seq() == s@,
    {
        out.push(c);
    }
    out
}

/// A string of the given characters.
pub(crate) fn string_of(chars: &Vec<char>) -> (r: String)
    ensures
        r@ == chars@,
{
    let mut out: String = String::new();
    let mut i: usize = 0;
    while i < chars.len()
        invariant
            0 <= i <= chars.len(),
            out@ == chars@.take(i as int),
        decreases chars.len() - i,
    {
        out.push(chars[i]);
        assert(out@ =~= chars@.take(i + 1));
        i = i + 1;
    }
    assert(chars@.take(chars@.len() as int) =~= chars@);
    out
}

pub(crate) fn char_is_space(c: char) -> (r: bool)
    ensures
        r == is_space(c),
{
    let code: u32 = c as u32;
    (0x09 <= code && code <= 0x0D) || code == 0x20 || code == 0x85 || code == 0xA0 || code == 0x1680
        || (0x2000 <= code && code <= 0x200A) || code == 0x2028 || code == 0x2029 || code == 0x202F
        || code == 0x205F || code == 0x3000
}

/// Remove the white space at either end.
pub(crate) fn trim(s: &Vec<char>) -> (r: Vec<char>)
    ensures
        r@ == trimmed(s@),
{
    let mut start: usize = 0;
    let mut end: usize = s.len();
    assert(s@.subrange(0, s@.len() as int) =~= s@);
    while start < end && char_is_space(s[start])
        invariant
            start <= end,
            end == s@.len(),
            trimmed(s@.subrange(start as int, end as int)) == trimmed(s@),
        decreases end - start,
    {
        proof {
            let cur = s@.subrange(start as int, end as int);
            assert(cur.drop_first() =~= s@.subrange(start + 1, end as int));
        }
        start = start + 1;
    }
    while start < end && char_is_space(s[end - 1])
        invariant
            start <= end,
            end <= s@.len(),
            start < end ==> !is_space(s@[start as int]),
            trimmed(s@.subrange(start as int, end as int)) == trimmed(s@),
        decreases end - start,
    {
        proof {
            let cur = s@.subrange(start as int, end as int);
            assert(cur[0] == s@[start as int]);
            assert(cur.drop_last() =~= s@.subrange(start as int, end - 1));
        }
        end = end - 1;
    }
    let ghost cur = s@.subrange(start as int, end as int);
    assert(trimmed(cur) == cur);
    let mut out: Vec<char> = Vec::new();
    let mut i: usize = start;
    while i < end
        invariant
            start <= i <= end,
            end <= s@.len(),
            out@ == s@.subrange(start as int, i as int),
        decreases end - i,
    {
        out.push(s[i]);
        assert(out@ =~= s@.subrange(start as int, i + 1));
        i = i + 1;
    }
    out
}

/// Cut a text at every line feed.
pub(crate) fn split_lines(s: &Vec<char>) -> (r: Vec<Vec<char>>)
    ensures
        views(r@) == lines(s@),
{
    let mut out: Vec<Vec<char>> = Vec::new();
    let mut cur: Vec<char> = Vec::new();
    let mut i: usize = 0;
    assert(views(out@).push(cur@) =~= lines(s@.take(0)));
    while i < s.len()
        invariant
            0 <= i <= s.len(),
            views(out@).push(cur@) == lines(s@.take(i as int)),
        decreases s.len() - i,
    {
        let ghost out0 = out@;
        let ghost cur0 = cur@;
        let ghost next = s@.take(i + 1);
        assert(next.drop_last() =~= s@.take(i as int));
        let c: char = s[i];
        if c == '\n' {
            out.push(cur);
            cur = Vec::new();
            assert(views(out@) =~= views(out0).push(cur0));
            assert(views(out@).push(cur@) =~= lines(next));
        } else {
            cur.push(c);
            assert(views(out@).push(cur@) =~= lines(next));
        }
        i = i + 1;
    }
    let ghost out1 = out@;
    let ghost cur1 = cur@;
    out.push(cur);
    assert(s@.take(s@.len() as int) =~= s@);
    assert(views(out@) =~= views(out1).push(cur1));
    out
}

/// Cut a text into its words.
pub(crate) fn split_words(s: &Vec<char>) -> (r: Vec<Vec<char>>)
    ensures
        views(r@) == words(s@),
{
    let mut out: Vec<Vec<char>> = Vec::new();
    let mut cur: Vec<char> = Vec::new();
    let mut i: usize = 0;
    assert(views(out@) =~= words(s@.take(0)));
    while i < s.len()
        invariant
            0 <= i <= s.len(),
            cur@.len() == 0 <==> (i == 0 || is_space(s@[i - 1])),
            (if cur@.len() == 0 {
                views(out@)
            } else {
                views(out@).push(cur@)
            }) == words(s@.take(i as int)),
        decreases s.len() - i,
    {
        let ghost out0 = out@;
        let ghost cur0 = cur@;
        let ghost next = s@.take(i + 1);
        proof {
            assert(next.drop_last() =~= s@.take(i as int));
            assert(next.last() == s@[i as int]);
            if i > 0 {
                assert(next[next.len() - 2] == s@[i - 1]);
            }
        }
        let c: char = s[i];
        if char_is_space(c) {
            if cur.len() > 0 {
                out.push(cur);
                cur = Vec::new();
                assert(views(out@) =~= views(out0).push(cur0));
            }
        } else {
            cur.push(c);
            proof {
                if cur0.len() == 0 {
                    assert(cur@ =~= seq![c]);
                }
            }
            assert(views(out@).push(cur@) =~= words(next));
        }
        i = i + 1;
    }
    assert(s@.take(s@.len() as int) =~= s@);
    let ghost out1 = out@;
    let ghost cur1 = cur@;
    if cur.len() > 0 {
        out.push(cur);
        assert(views(out@) =~= views(out1).push(cur1));
    }
    out
}

/// Are the characters of two lists the same?
pub(crate) fn same_chars(a: &Vec<char>, b: &Vec<char>) -> (r: bool)
    ensures
        r == (a@ == b@),
{
    if a.len() != b.len() {
        return false;
    }
    let mut i: usize = 0;
    while i < a.len()
        invariant
            0 <= i <= a.len(),
            a@.len() == b@.len(),
            forall|k: int| 0 <= k < i ==> a@[k] == b@[k],
        decreases a.len() - i,
    {
        if a[i] != b[i] {
            return false;
        }
        i = i + 1;
    }
    assert(a@ =~= b@);
    true
}

/// Are two strings the same?
pub(crate) fn same_str(a: &str, b: &str) -> (r: bool)
    ensures
        r == (a@ == b@),
{
    same_chars(&chars_of(a), &chars_of(b))
}

/// Does `needle` occur in `s`?
pub(crate) fn has_text(s: &str, needle: &str) -> (r: bool)
    ensures
        r == contains_text(s@, needle@),
{
    let hay: Vec<char> = chars_of(s);
    let pin: Vec<char> = chars_of(needle);
    if pin.len() > hay.len() {
        return false;
    }
    let mut i: usize = 0;
    while i <= hay.len() - pin.len()
        invariant
            hay@ == s@,
            pin@ == needle@,
            pin@.len() <= hay@.len(),
            0 <= i <= hay.len() - pin.len() + 1,
            forall|k: int| 0 <= k < i ==> !#[trigger] occurs_at(s@, needle@, k),
        decreases hay.len() - pin.len() + 1 - i,
    {
        let mut j: usize = 0;
        while j < pin.len() && hay[i + j] == pin[j]
            invariant
                pin@.len() <= hay@.len(),
                0 <= j <= pin.len(),
                i + pin.len() <= hay.len(),
                forall|k: int| 0 <= k < j ==> hay@[i + k] == pin@[k],
            decreases pin.len() - j,
        {
            j = j + 1;
        }
        if j == pin.len() {
            assert(s@.subrange(i as int, i + needle@.len()) =~= needle@);
            assert(occurs_at(s@, needle@, i as int));
            return true;
        }
        assert(!occurs_at(s@, needle@, i as int)) by {
            if s@.subrange(i as int, i + needle@.len()) == needle@ {
                assert(s@.subrange(i as int, i + needle@.len())[j as int] == hay@[i + j]);
            }
        }
        i = i + 1;
    }
    assert forall|k: int| !#[trigger] occurs_at(s@, needle@, k) by {}
    false
}

} // verus!
