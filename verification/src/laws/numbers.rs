//! Laws of numbers as text.

use vstd::prelude::*;

use crate::text;

verus! {

/// What a digit is worth, whatever its case.
pub open spec fn worth(c: char) -> int {
    if '0' <= c && c <= '9' {
        c as int - '0' as int
    } else if 'a' <= c && c <= 'f' {
        c as int - 'a' as int + 10
    } else {
        c as int - 'A' as int + 10
    }
}

/// A digit of the radix, which is at most sixteen.
pub open spec fn is_digit(c: char, radix: int) -> bool {
    &&& ('0' <= c && c <= '9') || ('a' <= c && c <= 'f') || ('A' <= c && c <= 'F')
    &&& worth(c) < radix
}

/// Some digits, read from left to right.
pub open spec fn reads_as(s: Seq<char>, radix: int) -> int
    decreases s.len(),
{
    if s.len() == 0 {
        0
    } else {
        reads_as(s.drop_last(), radix) * radix + worth(s.last())
    }
}

pub open spec fn are_digits(s: Seq<char>, radix: int) -> bool {
    forall|i: int| 0 <= i < s.len() ==> #[trigger] is_digit(s[i], radix)
}

/// A number in decimal reads as the number, in the digits `0` to `9`, and has
/// no zero in front.
pub proof fn law_decimal_reads_as_the_number(n: nat)
    ensures
        text::decimal(n).len() > 0,
        reads_as(text::decimal(n), 10) == n,
        forall|i: int|
            0 <= i < text::decimal(n).len() ==> '0' <= #[trigger] text::decimal(n)[i]
                && text::decimal(n)[i] <= '9',
        text::decimal(n).len() > 1 ==> text::decimal(n)[0] != '0',
        n > 0 ==> text::decimal(n)[0] != '0',
    decreases n,
{
    let s = text::decimal(n);
    if n < 10 {
        assert(s.drop_last() =~= seq![]);
        assert(reads_as(s.drop_last(), 10) == 0);
    } else {
        law_decimal_reads_as_the_number(n / 10);
        assert(s.drop_last() =~= text::decimal(n / 10));
        assert(s[0] == text::decimal(n / 10)[0]);
        assert forall|i: int| 0 <= i < s.len() implies '0' <= #[trigger] s[i] && s[i] <= '9' by {
            if i < s.len() - 1 {
                assert(s[i] == text::decimal(n / 10)[i]);
            }
        }
    }
}

/// A number in hexadecimal reads as the number, in lower case, and has zeros
/// in front only up to its width.
pub proof fn law_lower_hex_reads_as_the_number(n: nat, width: nat)
    ensures
        ({
            let s = text::hex_lower(n, width);
            &&& s.len() >= 1
            &&& s.len() >= width
            &&& reads_as(s, 16) == n
            &&& s.len() > 1 && s.len() > width ==> s[0] != '0'
            &&& forall|i: int|
                0 <= i < s.len() ==> ('0' <= #[trigger] s[i] && s[i] <= '9') || ('a' <= s[i]
                    && s[i] <= 'f')
        }),
    decreases n, width,
{
    let s = text::hex_lower(n, width);
    if n < 16 && width <= 1 {
        assert(s.drop_last() =~= seq![]);
        assert(reads_as(s.drop_last(), 16) == 0);
    } else {
        let w: nat = if width > 0 {
            (width - 1) as nat
        } else {
            0
        };
        let front = text::hex_lower(n / 16, w);
        law_lower_hex_reads_as_the_number(n / 16, w);
        assert(s.drop_last() =~= front);
        assert(s[0] == front[0]);
        assert forall|i: int| 0 <= i < s.len() implies ('0' <= #[trigger] s[i] && s[i] <= '9') || (
        'a' <= s[i] && s[i] <= 'f') by {
            if i < s.len() - 1 {
                assert(s[i] == front[i]);
            }
        }
        if s.len() > width && front.len() == 1 {
            assert(n / 16 != 0);
            assert(front.drop_last() =~= seq![]);
            assert(reads_as(front.drop_last(), 16) == 0);
        }
    }
}

/// So it does in upper case.
pub proof fn law_upper_hex_reads_as_the_number(n: nat, width: nat)
    ensures
        ({
            let s = text::hex_upper(n, width);
            &&& s.len() >= 1
            &&& s.len() >= width
            &&& reads_as(s, 16) == n
            &&& s.len() > 1 && s.len() > width ==> s[0] != '0'
            &&& forall|i: int|
                0 <= i < s.len() ==> ('0' <= #[trigger] s[i] && s[i] <= '9') || ('A' <= s[i]
                    && s[i] <= 'F')
        }),
    decreases n, width,
{
    let s = text::hex_upper(n, width);
    if n < 16 && width <= 1 {
        assert(s.drop_last() =~= seq![]);
        assert(reads_as(s.drop_last(), 16) == 0);
    } else {
        let w: nat = if width > 0 {
            (width - 1) as nat
        } else {
            0
        };
        let front = text::hex_upper(n / 16, w);
        law_upper_hex_reads_as_the_number(n / 16, w);
        assert(s.drop_last() =~= front);
        assert(s[0] == front[0]);
        assert forall|i: int| 0 <= i < s.len() implies ('0' <= #[trigger] s[i] && s[i] <= '9') || (
        'A' <= s[i] && s[i] <= 'F') by {
            if i < s.len() - 1 {
                assert(s[i] == front[i]);
            }
        }
        if s.len() > width && front.len() == 1 {
            assert(n / 16 != 0);
            assert(front.drop_last() =~= seq![]);
            assert(reads_as(front.drop_last(), 16) == 0);
        }
    }
}

/// An integer is its sign, if it is negative, and its size.
pub proof fn law_a_signed_number_has_its_sign(i: int)
    ensures
        ({
            let s = text::signed_decimal(i);
            &&& i < 0 ==> s[0] == '-' && reads_as(s.skip(1), 10) == -i && are_digits(s.skip(1), 10)
            &&& i >= 0 ==> reads_as(s, 10) == i && are_digits(s, 10)
        }),
{
    let n = (if i < 0 {
        -i
    } else {
        i
    }) as nat;
    law_decimal_reads_as_the_number(n);
    if i < 0 {
        assert(text::signed_decimal(i).skip(1) =~= text::decimal(n));
    }
}

proof fn lemma_digit(c: char)
    ensures
        text::digit_value(c) is Some <==> is_digit(c, 16),
        is_digit(c, 16) ==> text::digit_value(c) == Some(worth(c) as nat) && worth(c) >= 0,
{
}

proof fn lemma_digits_are_digits(s: Seq<char>, radix: nat)
    requires
        radix <= 16,
    ensures
        text::all_digits(s, radix) <==> are_digits(s, radix as int),
        are_digits(s, radix as int) ==> text::number(s, radix) == reads_as(s, radix as int),
    decreases s.len(),
{
    if text::all_digits(s, radix) {
        assert forall|i: int| 0 <= i < s.len() implies #[trigger] is_digit(s[i], radix as int) by {
            assert(text::digit_value(s[i]) is Some);
            lemma_digit(s[i]);
        }
    }
    if are_digits(s, radix as int) {
        assert forall|i: int| 0 <= i < s.len() implies (#[trigger] text::digit_value(
            s[i],
        ) matches Some(d) && d < radix) by {
            assert(is_digit(s[i], radix as int));
            lemma_digit(s[i]);
        }
    }
    if s.len() > 0 && are_digits(s, radix as int) {
        let front = s.drop_last();
        assert forall|i: int| 0 <= i < front.len() implies #[trigger] is_digit(
            front[i],
            radix as int,
        ) by {
            assert(is_digit(s[i], radix as int));
        }
        lemma_digits_are_digits(front, radix);
        assert(is_digit(s[s.len() - 1], radix as int));
        lemma_digit(s.last());
    }
}

/// The digits of a written number, behind a plus sign that may stand in front
/// of them.
pub open spec fn without_plus(s: Seq<char>) -> Seq<char> {
    if s.len() > 0 && s[0] == '+' {
        s.skip(1)
    } else {
        s
    }
}

/// A text is read as a number exactly if it is at least one digit, with a plus
/// sign in front or none, and not too large; and it is read as what its digits
/// read as.
pub proof fn law_a_number_is_read_as_it_is_written(s: Seq<char>, radix: nat, max: nat)
    requires
        2 <= radix <= 16,
    ensures
        text::parsed_unsigned(s, radix, max) == (if without_plus(s).len() > 0 && are_digits(
            without_plus(s),
            radix as int,
        ) && reads_as(without_plus(s), radix as int) <= max {
            Some(reads_as(without_plus(s), radix as int) as nat)
        } else {
            None::<nat>
        }),
        are_digits(without_plus(s), radix as int) ==> reads_as(without_plus(s), radix as int) >= 0,
{
    let body = without_plus(s);
    lemma_digits_are_digits(body, radix);
    lemma_digits_are_digits(s, radix);
    if s.len() == 1 && s[0] == '+' {
        assert(!is_digit(s[0], radix as int));
    }
}

/// A number that was written is read back, if it is not too large.
pub proof fn law_a_written_number_is_read_back(n: nat, max: nat)
    ensures
        text::parsed_unsigned(text::decimal(n), 10, max) == (if n <= max {
            Some(n)
        } else {
            None::<nat>
        }),
{
    let s = text::decimal(n);
    law_decimal_reads_as_the_number(n);
    law_a_number_is_read_as_it_is_written(s, 10, max);
    assert(s[0] != '+');
    assert forall|i: int| 0 <= i < s.len() implies #[trigger] is_digit(s[i], 10) by {
        assert('0' <= s[i] && s[i] <= '9');
    }
}

/// A 64-bit integer that was written is read back, and one that is out of
/// range is not read.
pub proof fn law_a_written_integer_is_read_back(i: int)
    ensures
        text::parsed_signed(text::signed_decimal(i)) == (if i64::MIN <= i <= i64::MAX {
            Some(i)
        } else {
            None::<int>
        }),
{
    law_a_signed_number_has_its_sign(i);
    if i >= 0 {
        law_decimal_reads_as_the_number(i as nat);
        law_a_written_number_is_read_back(i as nat, i64::MAX as nat);
    } else {
        law_decimal_reads_as_the_number((-i) as nat);
        lemma_digits_are_digits(text::signed_decimal(i).skip(1), 10);
        assert(text::signed_decimal(i).len() > 1);
    }
}

/// A text is read as an integer exactly if it is at least one digit, with one
/// sign in front or none, and within 64 bits.
pub proof fn law_an_integer_is_read_as_it_is_written(s: Seq<char>)
    ensures
        ({
            let negative = s.len() > 1 && s[0] == '-';
            let digits = if negative {
                s.skip(1)
            } else {
                without_plus(s)
            };
            let n = if negative {
                -reads_as(digits, 10)
            } else {
                reads_as(digits, 10)
            };
            text::parsed_signed(s) == (if digits.len() > 0 && are_digits(digits, 10) && i64::MIN
                <= n <= i64::MAX {
                Some(n)
            } else {
                None::<int>
            })
        }),
{
    law_a_number_is_read_as_it_is_written(s, 10, i64::MAX as nat);
    if s.len() > 1 && s[0] == '-' {
        lemma_digits_are_digits(s.skip(1), 10);
    }
}

// ------------------------------------------------------------------- cut text

pub open spec fn all_space(s: Seq<char>) -> bool {
    forall|i: int| 0 <= i < s.len() ==> #[trigger] text::is_space(s[i])
}

/// Blank, tab and the line breaks are white space, and so are the blanks of
/// other scripts; what prints is not.
pub proof fn law_what_white_space_is(c: char)
    ensures
        text::is_space(c) <==> c == ' ' || ('\t' <= c && c <= '\r') || c == '\u{85}' || c
            == '\u{A0}' || c == '\u{1680}' || ('\u{2000}' <= c && c <= '\u{200A}') || c
            == '\u{2028}' || c == '\u{2029}' || c == '\u{202F}' || c == '\u{205F}' || c
            == '\u{3000}',
        c == '\n' ==> text::is_space(c),
        '!' <= c && c <= '~' ==> !text::is_space(c),
{
}

/// Trimming takes the white space from both ends, and nothing else.
pub proof fn law_trimming_takes_the_ends(pre: Seq<char>, core: Seq<char>, post: Seq<char>)
    requires
        all_space(pre),
        all_space(post),
        core.len() > 0 ==> !text::is_space(core[0]) && !text::is_space(core.last()),
    ensures
        text::trimmed(pre + core + post) == core,
    decreases pre.len() + post.len(),
{
    let s = pre + core + post;
    if pre.len() > 0 {
        assert(text::is_space(pre[0]));
        assert(s[0] == pre[0]);
        let rest = pre.drop_first();
        assert forall|i: int| 0 <= i < rest.len() implies #[trigger] text::is_space(rest[i]) by {
            assert(text::is_space(pre[i + 1]));
        }
        assert(s.drop_first() =~= rest + core + post);
        law_trimming_takes_the_ends(rest, core, post);
    } else if post.len() > 0 && core.len() == 0 {
        assert(text::is_space(post[0]));
        assert(s =~= post);
        let rest = post.drop_first();
        assert forall|i: int| 0 <= i < rest.len() implies #[trigger] text::is_space(rest[i]) by {
            assert(text::is_space(post[i + 1]));
        }
        assert(s.drop_first() =~= pre + core + rest);
        law_trimming_takes_the_ends(pre, core, rest);
    } else if post.len() > 0 {
        assert(text::is_space(post[post.len() - 1]));
        assert(s.last() == post.last());
        assert(s[0] == core[0]);
        let rest = post.drop_last();
        assert forall|i: int| 0 <= i < rest.len() implies #[trigger] text::is_space(rest[i]) by {
            assert(text::is_space(post[i]));
        }
        assert(s.drop_last() =~= pre + core + rest);
        law_trimming_takes_the_ends(pre, core, rest);
    } else {
        assert(s =~= core);
    }
}

/// Lines with a line feed between each two.
pub open spec fn with_line_feeds(ls: Seq<Seq<char>>) -> Seq<char>
    decreases ls.len(),
{
    if ls.len() == 0 {
        seq![]
    } else if ls.len() == 1 {
        ls[0]
    } else {
        with_line_feeds(ls.drop_last()) + seq!['\n'] + ls.last()
    }
}

pub open spec fn has_no_line_feed(s: Seq<char>) -> bool {
    forall|i: int| 0 <= i < s.len() ==> #[trigger] s[i] != '\n'
}

proof fn lemma_lines_of_more(a: Seq<char>, b: Seq<char>)
    requires
        has_no_line_feed(b),
    ensures
        text::lines(a + seq!['\n'] + b) == text::lines(a).push(b),
    decreases b.len(),
{
    let s = a + seq!['\n'] + b;
    if b.len() == 0 {
        assert(s.drop_last() =~= a);
        assert(s.last() == '\n');
        assert(b =~= seq![]);
    } else {
        let front = b.drop_last();
        assert forall|i: int| 0 <= i < front.len() implies #[trigger] front[i] != '\n' by {
            assert(b[i] != '\n');
        }
        lemma_lines_of_more(a, front);
        assert(s.drop_last() =~= a + seq!['\n'] + front);
        assert(b[b.len() - 1] != '\n');
        assert(s.last() == b.last());
        assert(front.push(b.last()) =~= b);
        let before = text::lines(a).push(front);
        assert(before.update(before.len() - 1, b) =~= text::lines(a).push(b));
    }
}

proof fn lemma_one_line(b: Seq<char>)
    requires
        has_no_line_feed(b),
    ensures
        text::lines(b) == seq![b],
    decreases b.len(),
{
    if b.len() == 0 {
        assert(b =~= seq![]);
    } else {
        let front = b.drop_last();
        assert forall|i: int| 0 <= i < front.len() implies #[trigger] front[i] != '\n' by {
            assert(b[i] != '\n');
        }
        lemma_one_line(front);
        assert(b[b.len() - 1] != '\n');
        assert(front.push(b.last()) =~= b);
        assert(text::lines(b) =~= seq![b]);
    }
}

/// Lines that were put together with line feeds come apart again.
pub proof fn law_lines_come_apart_again(ls: Seq<Seq<char>>)
    requires
        ls.len() > 0,
        forall|i: int| 0 <= i < ls.len() ==> has_no_line_feed(#[trigger] ls[i]),
    ensures
        text::lines(with_line_feeds(ls)) == ls,
    decreases ls.len(),
{
    if ls.len() == 1 {
        lemma_one_line(ls[0]);
        assert(ls =~= seq![ls[0]]);
    } else {
        let front = ls.drop_last();
        assert forall|i: int| 0 <= i < front.len() implies has_no_line_feed(
            #[trigger] front[i],
        ) by {
            assert(has_no_line_feed(ls[i]));
        }
        law_lines_come_apart_again(front);
        assert(has_no_line_feed(ls[ls.len() - 1]));
        lemma_lines_of_more(with_line_feeds(front), ls.last());
        assert(front.push(ls.last()) =~= ls);
    }
}

/// A word is itself.
pub proof fn law_a_word_is_a_word(w: Seq<char>)
    requires
        w.len() > 0,
        forall|i: int| 0 <= i < w.len() ==> !#[trigger] text::is_space(w[i]),
    ensures
        text::words(w) == seq![w],
    decreases w.len(),
{
    let front = w.drop_last();
    assert(!text::is_space(w[w.len() - 1]));
    assert forall|i: int| 0 <= i < front.len() implies !#[trigger] text::is_space(front[i]) by {
        assert(!text::is_space(w[i]));
    }
    if w.len() == 1 {
        assert(front =~= seq![]);
        assert(text::words(front) == Seq::<Seq<char>>::empty());
        assert(seq![w.last()] =~= w);
        assert(text::words(w) =~= seq![w]);
    } else {
        law_a_word_is_a_word(front);
        assert(!text::is_space(w[w.len() - 2]));
        assert(front.push(w.last()) =~= w);
        assert(text::words(w) =~= seq![w]);
    }
}

/// White space parts words: the words of two texts with white space between
/// them are those of the one and those of the other.
pub proof fn law_white_space_parts_words(a: Seq<char>, c: char, b: Seq<char>)
    requires
        text::is_space(c),
    ensures
        text::words(a + seq![c] + b) == text::words(a) + text::words(b),
    decreases b.len(),
{
    let s = a + seq![c] + b;
    if b.len() == 0 {
        assert(s.drop_last() =~= a);
        assert(text::words(a) + text::words(b) =~= text::words(a));
    } else {
        let front = b.drop_last();
        law_white_space_parts_words(a, c, front);
        assert(s.drop_last() =~= a + seq![c] + front);
        assert(s.last() == b.last());
        if b.len() == 1 {
            assert(s[s.len() - 2] == c);
            assert(front =~= seq![]);
            assert(text::words(front) == Seq::<Seq<char>>::empty());
        } else {
            assert(s[s.len() - 2] == b[b.len() - 2]);
            if !text::is_space(b[b.len() - 2]) {
                lemma_has_a_word(front);
            }
        }
        assert(text::words(s) =~= text::words(a) + text::words(b));
    }
}

proof fn lemma_has_a_word(s: Seq<char>)
    requires
        s.len() > 0,
        !text::is_space(s.last()),
    ensures
        text::words(s).len() >= 1,
    decreases s.len(),
{
    if s.len() >= 2 && !text::is_space(s[s.len() - 2]) {
        lemma_has_a_word(s.drop_last());
    }
}

/// A text is found in another exactly if that is the text with something in
/// front and something behind.
pub proof fn law_a_text_is_found_where_it_stands(a: Seq<char>, needle: Seq<char>, b: Seq<char>)
    ensures
        text::contains_text(a + needle + b, needle),
{
    let s = a + needle + b;
    let i = a.len() as int;
    assert(s.subrange(i, i + needle.len()) =~= needle);
    assert(text::occurs_at(s, needle, i));
}

/// What is found stands there.
pub proof fn law_what_is_found_stands_there(s: Seq<char>, needle: Seq<char>)
    requires
        text::contains_text(s, needle),
    ensures
        exists|a: Seq<char>, b: Seq<char>| s == #[trigger] (a + needle + b),
{
    let i = choose|i: int| #[trigger] text::occurs_at(s, needle, i);
    let a = s.take(i);
    let b = s.skip(i + needle.len());
    assert(s =~= a + needle + b);
}

} // verus!
