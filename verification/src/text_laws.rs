//! What holds of the text operations.
use vstd::prelude::*;

verus! {

/// White space is the tabulators and line ends of ASCII, the space, the next
/// line, the no-break space, and the spaces and separators of Unicode.
pub proof fn law_white_space_is_listed(c: char)
    ensures
        crate::text::is_white_space(c) <==> seq![
            0x09u32, 0x0a, 0x0b, 0x0c, 0x0d, 0x20, 0x85, 0xa0, 0x1680, 0x2000, 0x2001, 0x2002,
            0x2003, 0x2004, 0x2005, 0x2006, 0x2007, 0x2008, 0x2009, 0x200a, 0x2028, 0x2029,
            0x202f, 0x205f, 0x3000,
        ].contains(c as u32),
{
    let listed: Seq<u32> = seq![
        0x09u32, 0x0a, 0x0b, 0x0c, 0x0d, 0x20, 0x85, 0xa0, 0x1680, 0x2000, 0x2001, 0x2002,
        0x2003, 0x2004, 0x2005, 0x2006, 0x2007, 0x2008, 0x2009, 0x200a, 0x2028, 0x2029,
        0x202f, 0x205f, 0x3000,
    ];
    let code: u32 = c as u32;
    if crate::text::is_white_space(c) {
        if code <= 0x0d {
            assert(listed[code - 0x09] == code);
        } else if code == 0x20 {
            assert(listed[5] == code);
        } else if code == 0x85 {
            assert(listed[6] == code);
        } else if code == 0xa0 {
            assert(listed[7] == code);
        } else if code == 0x1680 {
            assert(listed[8] == code);
        } else if code <= 0x200a {
            assert(listed[code - 0x2000 + 9] == code);
        } else if code == 0x2028 {
            assert(listed[20] == code);
        } else if code == 0x2029 {
            assert(listed[21] == code);
        } else if code == 0x202f {
            assert(listed[22] == code);
        } else if code == 0x205f {
            assert(listed[23] == code);
        } else {
            assert(listed[24] == code);
        }
    }
}

/// Every character of a text is white space.
pub open spec fn is_blank(text: Seq<char>) -> bool {
    forall|i: int| 0 <= i < text.len() ==> crate::text::is_white_space(#[trigger] text[i])
}

/// A text starts and ends with something other than white space, or is empty.
pub open spec fn is_tight(text: Seq<char>) -> bool {
    text.len() > 0 ==> !crate::text::is_white_space(text[0]) && !crate::text::is_white_space(
        text[text.len() - 1],
    )
}

/// Trimming takes off the white space around a text, and nothing else.
pub proof fn law_trimming_keeps_the_core(left: Seq<char>, core: Seq<char>, right: Seq<char>)
    requires
        is_blank(left),
        is_tight(core),
        is_blank(right),
    ensures
        crate::text::trimmed(left + core + right) == core,
    decreases left.len() + right.len(),
{
    let text = left + core + right;
    if left.len() > 0 {
        assert(text[0] == left[0]);
        assert(text.drop_first() =~= left.drop_first() + core + right);
        law_trimming_keeps_the_core(left.drop_first(), core, right);
    } else if right.len() > 0 {
        assert(text.last() == right[right.len() - 1]);
        assert(text.drop_last() =~= left + core + right.drop_last());
        if core.len() > 0 {
            assert(text[0] == core[0]);
            assert(text.drop_last()[0] == core[0]);
            law_trimming_keeps_the_core(left, core, right.drop_last());
        } else {
            assert(text[0] == right[0]);
            assert(text.drop_first() =~= left + core + right.drop_first());
            law_trimming_keeps_the_core(left, core, right.drop_first());
        }
    } else {
        assert(text =~= core);
        if core.len() > 0 {
            assert(text.last() == core[core.len() - 1]);
        }
    }
}

/// A text trims to nothing exactly where it is blank.
pub proof fn lemma_blank_trims_to_nothing(text: Seq<char>)
    ensures
        crate::text::trimmed(text).len() == 0 <==> is_blank(text),
{
    let empty = Seq::<char>::empty();
    if is_blank(text) {
        law_trimming_keeps_the_core(text, empty, empty);
        assert(text + empty + empty =~= text);
    } else {
        let i = choose|i: int|
            0 <= i < text.len() && !crate::text::is_white_space(#[trigger] text[i]);
        lemma_trimmed_start_keeps(text, i);
        let front = crate::text::trimmed_start(text);
        let k = choose|k: int| 0 <= k < front.len() && front[k] == text[i];
        lemma_trimmed_end_keeps(front, k);
    }
}

proof fn lemma_trimmed_start_keeps(text: Seq<char>, i: int)
    requires
        0 <= i < text.len(),
        !crate::text::is_white_space(text[i]),
    ensures
        crate::text::trimmed_start(text).contains(text[i]),
    decreases text.len(),
{
    if crate::text::is_white_space(text[0]) {
        assert(text.drop_first()[i - 1] == text[i]);
        lemma_trimmed_start_keeps(text.drop_first(), i - 1);
    } else {
        assert(text.contains(text[i]));
    }
}

proof fn lemma_trimmed_end_keeps(text: Seq<char>, i: int)
    requires
        0 <= i < text.len(),
        !crate::text::is_white_space(text[i]),
    ensures
        crate::text::trimmed_end(text).len() > 0,
    decreases text.len(),
{
    if crate::text::is_white_space(text.last()) {
        assert(i < text.len() - 1);
        lemma_trimmed_end_keeps(text.drop_last(), i);
    }
}

/// Pieces with a separator between each two.
pub open spec fn joined_by(pieces: Seq<Seq<char>>, separator: char) -> Seq<char>
    decreases pieces.len(),
{
    if pieces.len() == 0 {
        Seq::empty()
    } else if pieces.len() == 1 {
        pieces[0]
    } else {
        joined_by(pieces.drop_last(), separator).push(separator) + pieces.last()
    }
}

/// Splitting leaves no separator in any piece, and the pieces with the
/// separator between them are the text again.
pub proof fn law_splitting_undoes_joining(text: Seq<char>, separator: char)
    ensures
        crate::text::split(text, separator).len() > 0,
        forall|i: int|
            0 <= i < crate::text::split(text, separator).len() ==> !(
            #[trigger] crate::text::split(text, separator)[i]).contains(separator),
        joined_by(crate::text::split(text, separator), separator) == text,
    decreases text.len(),
{
    let pieces = crate::text::split(text, separator);
    if text.len() == 0 {
        assert(pieces[0] =~= text);
    } else {
        let front = text.drop_last();
        law_splitting_undoes_joining(front, separator);
        let before = crate::text::split(front, separator);
        if text.last() == separator {
            assert(pieces.drop_last() =~= before);
            assert(joined_by(pieces, separator) =~= text);
        } else {
            let last = before.last().push(text.last());
            assert(pieces.last() == last);
            assert(!last.contains(separator)) by {
                if last.contains(separator) {
                    let i = choose|i: int| 0 <= i < last.len() && last[i] == separator;
                    assert(before.last()[i] == separator);
                    assert(before.last().contains(separator));
                }
            }
            assert forall|i: int| 0 <= i < pieces.len() implies !(
            #[trigger] pieces[i]).contains(separator) by {
                if i < pieces.len() - 1 {
                    assert(pieces[i] == before[i]);
                }
            }
            if before.len() == 1 {
                assert(before[0] == front);
                assert(pieces[0] =~= text);
            } else {
                let shared = joined_by(before.drop_last(), separator).push(separator);
                assert(pieces.drop_last() =~= before.drop_last());
                assert(front == shared + before.last());
                assert(shared + last =~= front.push(text.last()));
                assert(joined_by(pieces, separator) =~= text);
            }
        }
    }
}

/// Taking a prefix off a text and putting it in front again gives the text.
pub proof fn law_prefixes_come_off(prefix: Seq<char>, rest: Seq<char>, text: Seq<char>)
    ensures
        crate::text::without_prefix(prefix + rest, prefix) == Some(rest),
        match crate::text::without_prefix(text, prefix) {
            Some(tail) => text == prefix + tail,
            None => forall|tail: Seq<char>| text != #[trigger] (prefix + tail),
        },
{
    assert((prefix + rest).subrange(0, prefix.len() as int) =~= prefix);
    assert((prefix + rest).skip(prefix.len() as int) =~= rest);
    match crate::text::without_prefix(text, prefix) {
        Some(tail) => {
            assert(text =~= prefix + tail);
        },
        None => {
            assert forall|tail: Seq<char>| text != #[trigger] (prefix + tail) by {
                assert((prefix + tail).subrange(0, prefix.len() as int) =~= prefix);
            }
        },
    }
}

/// The twenty-six capital letters of ASCII become the small letter of the same
/// place, and every other character stays.
pub proof fn law_ascii_capitals_become_small(c: char, place: u32)
    ensures
        place < 26 ==> crate::text::ascii_lower(((65 + place) as u32) as char) == ((97
            + place) as u32) as char,
        !(65 <= c as u32 <= 90) ==> crate::text::ascii_lower(c) == c,
{
    if place < 26 {
        let capital: u32 = (65 + place) as u32;
        let letter: char = capital as char;
        assert(letter as u32 == capital);
        assert((letter as u32) + 32 == 97 + place);
    }
}

/// Two texts are the same but for ASCII case exactly where their lowered forms
/// are the same.
pub proof fn law_case_is_lost_by_lowering(a: Seq<char>, b: Seq<char>)
    ensures
        crate::text::same_ignoring_ascii_case(a, b) <==> crate::text::ascii_lowered(a)
            == crate::text::ascii_lowered(b),
        crate::text::ascii_lowered(a).len() == a.len(),
        forall|i: int|
            0 <= i < a.len() ==> (#[trigger] crate::text::ascii_lowered(a)[i])
                == crate::text::ascii_lower(a[i]),
{
    let lower_a = crate::text::ascii_lowered(a);
    let lower_b = crate::text::ascii_lowered(b);
    if crate::text::same_ignoring_ascii_case(a, b) {
        assert(lower_a =~= lower_b);
    }
    if lower_a == lower_b {
        assert(lower_a.len() == a.len());
        assert(lower_b.len() == b.len());
        assert forall|i: int| 0 <= i < a.len() implies crate::text::ascii_lower(#[trigger] a[i])
            == crate::text::ascii_lower(b[i]) by {
            assert(lower_a[i] == lower_b[i]);
        }
    }
}

/// A text of ASCII is one whose characters all have codes below 128.
pub proof fn law_ascii_is_seven_bits(text: Seq<char>)
    ensures
        crate::text::is_ascii_text(text) <==> (forall|i: int|
            0 <= i < text.len() ==> (#[trigger] text[i]) as u32 <= 0x7f),
{
}

/// The ten digits stand for nought to nine in the order of their codes, and no
/// other character is a digit.
pub proof fn law_digits_are_ten(n: nat, c: char)
    ensures
        n < 10 ==> crate::text::digit(n) as u32 == 48 + n,
        crate::text::is_digit(c) <==> 48 <= c as u32 <= 57,
        crate::text::is_digit(c) ==> crate::text::digit_value(c) == (c as u32) - 48,
{
}

/// The decimal notation grows by a digit for each factor of ten, and never
/// starts with a nought unless the number is nought.
pub proof fn law_decimal_notation(n: nat, d: nat)
    requires
        d < 10,
    ensures
        crate::text::decimal(d) == seq![((48 + d) as u32) as char],
        n > 0 ==> crate::text::decimal(n * 10 + d) == crate::text::decimal(n).push(
            ((48 + d) as u32) as char,
        ),
        n > 0 ==> crate::text::decimal(n)[0] != '0',
    decreases n,
{
    assert(crate::text::digit(d) == ((48 + d) as u32) as char);
    let longer: nat = n * 10 + d;
    if n > 0 {
        assert(longer >= 10);
        assert(longer / 10 == n && longer % 10 == d) by (nonlinear_arith)
            requires
                longer == n * 10 + d,
                d < 10,
        ;
        if n >= 10 {
            law_decimal_notation(n / 10, d);
            crate::text::lemma_decimal_round_trip(n / 10);
        } else {
            assert(crate::text::digit(n) as u32 == 48 + n);
        }
    }
}

/// A negative number is written as a minus sign and the number without it; two
/// numbers are written alike only where they are the same.
pub proof fn law_signed_notation(n: nat, a: int, b: int)
    ensures
        crate::text::signed_decimal(n as int) == crate::text::decimal(n),
        n > 0 ==> crate::text::signed_decimal(-(n as int)) == seq!['-'] + crate::text::decimal(n),
        crate::text::signed_decimal(a) == crate::text::signed_decimal(b) ==> a == b,
{
    if crate::text::signed_decimal(a) == crate::text::signed_decimal(b) {
        let size_a: nat = if a < 0 { (-a) as nat } else { a as nat };
        let size_b: nat = if b < 0 { (-b) as nat } else { b as nat };
        let text_a = crate::text::decimal(size_a);
        let text_b = crate::text::decimal(size_b);
        crate::text::lemma_decimal_round_trip(size_a);
        crate::text::lemma_decimal_round_trip(size_b);
        assert(crate::text::is_digit(text_a[0]));
        assert(crate::text::is_digit(text_b[0]));
        if a < 0 {
            assert((seq!['-'] + text_a).skip(1) =~= text_a);
            assert(crate::text::signed_decimal(a)[0] == '-');
        }
        if b < 0 {
            assert((seq!['-'] + text_b).skip(1) =~= text_b);
            assert(crate::text::signed_decimal(b)[0] == '-');
        }
        assert((a < 0) == (b < 0));
        assert(text_a == text_b);
    }
}

/// A row of digits is read in base ten.
pub proof fn law_digits_are_read_in_base_ten(text: Seq<char>, d: nat)
    requires
        d < 10,
    ensures
        crate::text::digits_value(Seq::empty()) == 0,
        crate::text::digits_value(text.push(((48 + d) as u32) as char))
            == crate::text::digits_value(text) * 10 + d,
{
    let longer = text.push(((48 + d) as u32) as char);
    assert(longer.drop_last() =~= text);
}

/// A text is read as a number exactly where it is one or more digits, after at
/// most one plus sign, and the number is not too large.
pub proof fn law_numbers_are_read(text: Seq<char>, n: nat, max: nat)
    ensures
        crate::text::digits_number(crate::text::decimal(n), max) == (if n <= max {
            Some(n)
        } else {
            None
        }),
        crate::text::decimal_number(crate::text::decimal(n), max) == (if n <= max {
            Some(n)
        } else {
            None
        }),
        crate::text::decimal_number(seq!['+'] + text, max) == crate::text::digits_number(text, max),
        text.len() == 0 ==> crate::text::digits_number(text, max) is None,
        (exists|i: int| 0 <= i < text.len() && !('0' <= #[trigger] text[i] <= '9'))
            ==> crate::text::digits_number(text, max) is None,
        text.len() > 0 && (forall|i: int|
            0 <= i < text.len() ==> '0' <= #[trigger] text[i] <= '9')
            ==> crate::text::digits_number(text, max) == (if crate::text::digits_value(text)
            <= max {
            Some(crate::text::digits_value(text))
        } else {
            None
        }),
        text.len() == 0 || text[0] != '+' ==> crate::text::decimal_number(text, max)
            == crate::text::digits_number(text, max),
{
    crate::text::lemma_decimal_round_trip(n);
    assert(crate::text::is_digit(crate::text::decimal(n)[0]));
    assert((seq!['+'] + text).drop_first() =~= text);
    if exists|i: int| 0 <= i < text.len() && !('0' <= #[trigger] text[i] <= '9') {
        let i = choose|i: int| 0 <= i < text.len() && !('0' <= #[trigger] text[i] <= '9');
        assert(!crate::text::is_digit(text[i]));
    } else {
        assert forall|i: int| 0 <= i < text.len() implies crate::text::is_digit(
            #[trigger] text[i],
        ) by {
            assert('0' <= text[i] <= '9');
        }
        assert(crate::text::all_digits(text));
    }
}

/// A character occurs twice in a row exactly where the text is something, the
/// character twice, and something more.
pub proof fn law_doubled_characters_stand_together(
    front: Seq<char>,
    rest: Seq<char>,
    c: char,
    text: Seq<char>,
    i: int,
)
    ensures
        crate::text::doubled_at(front + seq![c, c] + rest, c, front.len() as int),
        crate::text::doubled_at(text, c, i) ==> text == text.take(i) + seq![c, c] + text.skip(
            i + 2,
        ),
{
    let doubled = front + seq![c, c] + rest;
    assert(doubled[front.len() as int] == c);
    assert(doubled[(front.len() + 1) as int] == c);
    if crate::text::doubled_at(text, c, i) {
        assert(text =~= text.take(i) + seq![c, c] + text.skip(i + 2));
    }
}

/// The characters of rows of texts and of optional texts are those of the
/// texts.
pub proof fn law_views_are_of_the_texts(
    texts: Seq<&str>,
    borrowed: Option<&str>,
    owned: Option<String>,
)
    ensures
        crate::text::views(texts).len() == texts.len(),
        forall|i: int|
            0 <= i < texts.len() ==> (#[trigger] crate::text::views(texts)[i]) == texts[i]@,
        borrowed is Some ==> crate::text::optional_text(borrowed) == Some(borrowed->0@),
        borrowed is None ==> crate::text::optional_text(borrowed) is None,
        owned is Some ==> crate::text::optional_string(owned) == Some(owned->0@),
        owned is None ==> crate::text::optional_string(owned) is None,
{
}

} // verus!
