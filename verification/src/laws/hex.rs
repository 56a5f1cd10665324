//! Laws of the hex dumps.

use vstd::prelude::*;

use crate::frame;
use crate::laws;
use crate::text;

verus! {

/// The two characters of a byte.
pub open spec fn hex_word(b: u8) -> Seq<char> {
    seq![text::lower_digit(b as int / 16), text::lower_digit(b as int % 16)]
}

pub(crate) proof fn lemma_hex_word(b: u8)
    ensures
        text::hex_lower(b as nat, 2) == hex_word(b),
        text::parsed_unsigned(hex_word(b), 16, 255) == Some(b as nat),
        !text::is_space(hex_word(b)[0]),
        !text::is_space(hex_word(b)[1]),
{
    let w = hex_word(b);
    let hi = b as nat / 16;
    let lo = b as nat % 16;
    assert(text::hex_lower(hi, 1) == seq![text::lower_digit(hi as int)]);
    assert(text::hex_lower(b as nat, 2) =~= w);
    assert(text::digit_value(w[0]) == Some(hi));
    assert(text::digit_value(w[1]) == Some(lo));
    assert(w[0] != '+');
    assert(text::unsigned_body(w) == w);
    assert(w.drop_last() =~= seq![w[0]]);
    assert(w.drop_last().drop_last() =~= Seq::<char>::empty());
    assert(text::number(Seq::<char>::empty(), 16) == 0);
    assert(text::number(w.drop_last(), 16) == hi);
    assert(text::number(w, 16) == hi * 16 + lo);
}

/// The words of a hex dump are the bytes, two digits each.
proof fn lemma_words_of_hex_text(b: Seq<u8>)
    ensures
        text::words(frame::hex_text(b)) == Seq::new(b.len(), |i: int| hex_word(b[i])),
    decreases b.len(),
{
    let want = Seq::new(b.len(), |i: int| hex_word(b[i]));
    if b.len() == 0 {
        assert(text::words(frame::hex_text(b)) =~= want);
    } else {
        let w = hex_word(b.last());
        lemma_hex_word(b.last());
        let front = if b.len() == 1 {
            Seq::<char>::empty()
        } else {
            frame::hex_text(b.drop_last()).push(' ')
        };
        let all = frame::hex_text(b);
        assert(all =~= front + w);
        let one = all.drop_last();
        assert(one =~= front.push(w[0]));
        assert(one.drop_last() =~= front);
        let before = Seq::new((b.len() - 1) as nat, |i: int| hex_word(b[i]));
        if b.len() == 1 {
            assert(text::words(front) =~= before);
        } else {
            lemma_words_of_hex_text(b.drop_last());
            assert(front.drop_last() =~= frame::hex_text(b.drop_last()));
            assert(text::is_space(' '));
            assert(text::words(front) =~= before);
        }
        assert(text::words(one) == before.push(seq![w[0]]));
        assert(all[all.len() - 2] == w[0]);
        assert(seq![w[0]].push(w[1]) =~= w);
        assert(text::words(all) =~= want);
    }
}

proof fn lemma_unhexed_words(b: Seq<u8>)
    ensures
        frame::unhexed(Seq::new(b.len(), |i: int| hex_word(b[i]))) == Ok::<Seq<u8>, Seq<char>>(b),
    decreases b.len(),
{
    let ws = Seq::new(b.len(), |i: int| hex_word(b[i]));
    if b.len() == 0 {
        assert(b =~= Seq::<u8>::empty());
    } else {
        lemma_unhexed_words(b.drop_last());
        assert(ws.drop_last() =~= Seq::new(
            b.drop_last().len(),
            |i: int| hex_word(b.drop_last()[i]),
        ));
        lemma_hex_word(b.last());
        assert(b.drop_last().push(b.last()) =~= b);
    }
}

/// Reading a hex dump gives back the bytes that were dumped.
pub proof fn law_unhex_undoes_hex(b: Seq<u8>)
    ensures
        frame::unhexed(text::words(frame::hex_text(b))) == Ok::<Seq<u8>, Seq<char>>(b),
{
    lemma_words_of_hex_text(b);
    lemma_unhexed_words(b);
}

/// A word that is a byte: hexadecimal digits that read as at most 255, with a
/// plus sign in front or none.
pub open spec fn is_a_byte(w: Seq<char>) -> bool {
    let digits = laws::numbers::without_plus(w);
    digits.len() > 0 && laws::numbers::are_digits(digits, 16) && laws::numbers::reads_as(digits, 16)
        <= 255
}

/// Each word is read as its own byte, and the first one that is none is what
/// the text is refused for.
pub proof fn law_each_word_is_a_byte(ws: Seq<Seq<char>>)
    ensures
        match frame::unhexed(ws) {
            Ok(v) => {
                &&& v.len() == ws.len()
                &&& forall|i: int|
                    0 <= i < ws.len() ==> is_a_byte(#[trigger] ws[i]) && v[i]
                        == laws::numbers::reads_as(laws::numbers::without_plus(ws[i]), 16)
            },
            Err(e) => exists|i: int|
                {
                    &&& 0 <= i < ws.len()
                    &&& !is_a_byte(#[trigger] ws[i])
                    &&& e == "bad hex byte "@ + text::quoted_str(ws[i])
                    &&& forall|j: int| 0 <= j < i ==> is_a_byte(#[trigger] ws[j])
                },
        },
    decreases ws.len(),
{
    if ws.len() > 0 {
        let front = ws.drop_last();
        let last = ws.len() - 1;
        law_each_word_is_a_byte(front);
        laws::numbers::law_a_number_is_read_as_it_is_written(ws.last(), 16, 255);
        match frame::unhexed(front) {
            Ok(v) => {
                assert forall|i: int| 0 <= i < last implies is_a_byte(#[trigger] ws[i]) && v[i]
                    == laws::numbers::reads_as(laws::numbers::without_plus(ws[i]), 16) by {
                    assert(front[i] == ws[i]);
                }
                assert(ws[last] == ws.last());
            },
            Err(e) => {
                let i = choose|i: int|
                    {
                        &&& 0 <= i < front.len()
                        &&& !is_a_byte(#[trigger] front[i])
                        &&& e == "bad hex byte "@ + text::quoted_str(front[i])
                        &&& forall|j: int| 0 <= j < i ==> is_a_byte(#[trigger] front[j])
                    };
                assert(ws[i] == front[i]);
                assert forall|j: int| 0 <= j < i implies is_a_byte(#[trigger] ws[j]) by {
                    assert(front[j] == ws[j]);
                }
            },
        }
    }
}

} // verus!
