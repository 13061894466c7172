//! Text operations on `str`, stated over sequences of characters: trimming,
//! splitting, prefixes, ASCII case and decimal numbers.
use vstd::prelude::*;
use vstd::string::StrSliceExecFns;
use vstd::string::StringExecFns;

verus! {

/// A character with the Unicode property `White_Space`.
pub open spec fn is_white_space(c: char) -> bool {
    let code = c as u32;
    ||| 0x09 <= code <= 0x0d
    ||| code == 0x20
    ||| code == 0x85
    ||| code == 0xa0
    ||| code == 0x1680
    ||| 0x2000 <= code <= 0x200a
    ||| code == 0x2028
    ||| code == 0x2029
    ||| code == 0x202f
    ||| code == 0x205f
    ||| code == 0x3000
}

/// `text` without its leading white space.
pub open spec fn trimmed_start(text: Seq<char>) -> Seq<char>
    decreases text.len(),
{
    if text.len() > 0 && is_white_space(text[0]) {
        trimmed_start(text.drop_first())
    } else {
        text
    }
}

/// `text` without its trailing white space.
pub open spec fn trimmed_end(text: Seq<char>) -> Seq<char>
    decreases text.len(),
{
    if text.len() > 0 && is_white_space(text.last()) {
        trimmed_end(text.drop_last())
    } else {
        text
    }
}

/// `text` without leading and trailing white space.
pub open spec fn trimmed(text: Seq<char>) -> Seq<char> {
    trimmed_end(trimmed_start(text))
}

/// The pieces of `text` between the occurrences of `separator`; there is one
/// piece more than there are separators.
pub open spec fn split(text: Seq<char>, separator: char) -> Seq<Seq<char>>
    decreases text.len(),
{
    if text.len() == 0 {
        seq![Seq::empty()]
    } else {
        let before = split(text.drop_last(), separator);
        if text.last() == separator {
            before.push(Seq::empty())
        } else {
            before.drop_last().push(before.last().push(text.last()))
        }
    }
}

/// The characters of each string of a sequence of strings.
pub open spec fn views(texts: Seq<&str>) -> Seq<Seq<char>> {
    Seq::new(texts.len(), |i: int| texts[i]@)
}

/// The characters of an optional text.
pub open spec fn optional_text(text: Option<&str>) -> Option<Seq<char>> {
    match text {
        Some(value) => Some(value@),
        None => None,
    }
}

/// An ASCII capital letter becomes its small letter; any other character
/// stays.
pub open spec fn ascii_lower(c: char) -> char {
    if 'A' <= c && c <= 'Z' {
        ((c as u32) + 32) as char
    } else {
        c
    }
}

/// Two texts differ at most in the case of ASCII letters.
pub open spec fn same_ignoring_ascii_case(a: Seq<char>, b: Seq<char>) -> bool {
    &&& a.len() == b.len()
    &&& forall|i: int| 0 <= i < a.len() ==> ascii_lower(#[trigger] a[i]) == ascii_lower(b[i])
}

/// `text` with `prefix` taken off its front, where it stands there.
pub open spec fn without_prefix(text: Seq<char>, prefix: Seq<char>) -> Option<Seq<char>> {
    if prefix.is_prefix_of(text) {
        Some(text.skip(prefix.len() as int))
    } else {
        None
    }
}

/// The decimal digit that stands for `n`, where `n` is below ten.
pub open spec fn digit(n: nat) -> char {
    (('0' as u32) + n) as char
}

/// A decimal digit.
pub open spec fn is_digit(c: char) -> bool {
    '0' <= c && c <= '9'
}

/// What a decimal digit stands for.
pub open spec fn digit_value(c: char) -> nat {
    ((c as u32) - ('0' as u32)) as nat
}

/// The shortest decimal notation of `n`.
pub open spec fn decimal(n: nat) -> Seq<char>
    decreases n,
{
    if n < 10 {
        seq![digit(n)]
    } else {
        decimal(n / 10).push(digit(n % 10))
    }
}

/// The shortest decimal notation of `n`, with a minus sign where it is
/// negative.
pub open spec fn signed_decimal(n: int) -> Seq<char> {
    if n < 0 {
        seq!['-'] + decimal((-n) as nat)
    } else {
        decimal(n as nat)
    }
}

/// Every character is a decimal digit.
pub open spec fn all_digits(text: Seq<char>) -> bool {
    forall|i: int| 0 <= i < text.len() ==> is_digit(#[trigger] text[i])
}

/// What a row of decimal digits stands for.
pub open spec fn digits_value(text: Seq<char>) -> nat
    decreases text.len(),
{
    if text.len() == 0 {
        0
    } else {
        digits_value(text.drop_last()) * 10 + digit_value(text.last())
    }
}

/// The number that a row of one or more decimal digits stands for, where it
/// is at most `max`.
pub open spec fn digits_number(text: Seq<char>, max: nat) -> Option<nat> {
    if text.len() > 0 && all_digits(text) && digits_value(text) <= max {
        Some(digits_value(text))
    } else {
        None
    }
}

/// The number that `text` stands for, where it is one or more decimal digits
/// with at most one plus sign in front and is at most `max`.
pub open spec fn decimal_number(text: Seq<char>, max: nat) -> Option<nat> {
    if text.len() > 0 && text[0] == '+' {
        digits_number(text.drop_first(), max)
    } else {
        digits_number(text, max)
    }
}

// ---------------------------------------------------------------------------
// Facts about the specification functions.
// ---------------------------------------------------------------------------
/// A split has at least one piece.
pub proof fn lemma_split_nonempty(text: Seq<char>, separator: char)
    ensures
        split(text, separator).len() > 0,
    decreases text.len(),
{
    if text.len() > 0 {
        lemma_split_nonempty(text.drop_last(), separator);
    }
}

/// The first piece of a split stands at the front of the text.
pub proof fn lemma_split_first_is_prefix(text: Seq<char>, separator: char)
    ensures
        split(text, separator).len() > 0,
        split(text, separator)[0].is_prefix_of(text),
    decreases text.len(),
{
    if text.len() > 0 {
        let front = text.drop_last();
        lemma_split_first_is_prefix(front, separator);
        let before = split(front, separator);
        let first = split(text, separator)[0];
        if text.last() != separator && before.len() == 1 {
            lemma_split_single_is_text(front, separator);
            assert(first =~= text);
            assert(text.subrange(0, text.len() as int) =~= text);
        } else {
            assert(first == before[0]);
            assert(text.subrange(0, first.len() as int) =~= front.subrange(0, first.len() as int));
        }
    } else {
        assert(text.subrange(0, 0) =~= Seq::empty());
    }
}

/// A split of one piece is the text itself.
pub proof fn lemma_split_single_is_text(text: Seq<char>, separator: char)
    requires
        split(text, separator).len() == 1,
    ensures
        split(text, separator)[0] == text,
    decreases text.len(),
{
    if text.len() > 0 {
        lemma_split_nonempty(text.drop_last(), separator);
        lemma_split_single_is_text(text.drop_last(), separator);
        assert(text.drop_last().push(text.last()) =~= text);
    } else {
        assert(text =~= Seq::empty());
    }
}

/// Text without the separator is one piece.
pub proof fn lemma_split_without_separator(text: Seq<char>, separator: char)
    requires
        !text.contains(separator),
    ensures
        split(text, separator) == seq![text],
    decreases text.len(),
{
    if text.len() > 0 {
        assert(!text.drop_last().contains(separator)) by {
            if text.drop_last().contains(separator) {
                let i = choose|i: int|
                    0 <= i < text.drop_last().len() && text.drop_last()[i] == separator;
                assert(text[i] == separator);
            }
        }
        lemma_split_without_separator(text.drop_last(), separator);
        assert(text.last() == text[text.len() - 1]);
        assert(text.drop_last().push(text.last()) =~= text);
        assert(split(text, separator) =~= seq![text]);
    } else {
        assert(text =~= Seq::empty());
    }
}

/// Splitting two texts joined by the separator gives the pieces of both.
pub proof fn lemma_split_join(left: Seq<char>, right: Seq<char>, separator: char)
    ensures
        split(left + seq![separator] + right, separator) == split(left, separator) + split(
            right,
            separator,
        ),
    decreases right.len(),
{
    let joined = left + seq![separator] + right;
    lemma_split_nonempty(left, separator);
    lemma_split_nonempty(right, separator);
    if right.len() == 0 {
        assert(joined.drop_last() =~= left);
        assert(joined.last() == separator);
        assert(split(joined, separator) =~= split(left, separator) + split(right, separator));
    } else {
        lemma_split_join(left, right.drop_last(), separator);
        lemma_split_nonempty(right.drop_last(), separator);
        let shorter = left + seq![separator] + right.drop_last();
        assert(joined.drop_last() =~= shorter);
        assert(joined.last() == right.last());
        assert(split(joined, separator) =~= split(left, separator) + split(right, separator));
    }
}

/// The notation of a number is made of digits and gives the number back.
pub proof fn lemma_decimal_round_trip(n: nat)
    ensures
        decimal(n).len() > 0,
        all_digits(decimal(n)),
        digits_value(decimal(n)) == n,
    decreases n,
{
    if n < 10 {
        assert(decimal(n).drop_last() =~= Seq::empty());
        assert(digits_value(decimal(n).drop_last()) == 0);
    } else {
        lemma_decimal_round_trip(n / 10);
        assert(decimal(n).drop_last() =~= decimal(n / 10));
    }
}

/// The notation of a number is read back as that number.
pub proof fn lemma_decimal_number_of_decimal(n: nat, max: nat)
    requires
        n <= max,
    ensures
        decimal_number(decimal(n), max) == Some(n),
{
    lemma_decimal_round_trip(n);
    assert(is_digit(decimal(n)[0]));
}

// ---------------------------------------------------------------------------
// Executable functions.
// ---------------------------------------------------------------------------
/// The characters of `text`.
pub fn chars_of(text: &str) -> (r: Vec<char>)
    ensures
        r@ == text@,
{
    let mut out: Vec<char> = Vec::new();
    for c in it: text.chars()
        invariant
            out@ == it.seq().take(it.index()),
            it.seq() == text@,
    {
        out.push(c);
        assert(it.seq().take(it.index() + 1) =~= it.seq().take(it.index()).push(c));
    }
    assert(text@.take(text@.len() as int) =~= text@);
    out
}

/// Whether two texts hold the same characters.
pub fn same_text(a: &str, b: &str) -> (r: bool)
    ensures
        r == (a@ == b@),
{
    a.to_owned() == b.to_owned()
}

fn white_space(c: char) -> (r: bool)
    ensures
        r == is_white_space(c),
{
    let code: u32 = c as u32;
    (0x09 <= code && code <= 0x0d) || code == 0x20 || code == 0x85 || code == 0xa0 || code == 0x1680
        || (0x2000 <= code && code <= 0x200a) || code == 0x2028 || code == 0x2029 || code == 0x202f
        || code == 0x205f || code == 0x3000
}

/// `text` without leading and trailing white space.
pub fn trim(text: &str) -> (r: &str)
    ensures
        r@ == trimmed(text@),
{
    let chars: Vec<char> = chars_of(text);
    let len: usize = chars.len();
    let mut from: usize = 0;
    assert(text@.skip(0) =~= text@);
    while from < len && white_space(chars[from])
        invariant
            chars@ == text@,
            len == text@.len(),
            from <= len,
            trimmed_start(text@.skip(from as int)) == trimmed_start(text@),
        decreases len - from,
    {
        assert(text@.skip(from as int).drop_first() =~= text@.skip(from + 1));
        from = from + 1;
    }
    let mut to: usize = len;
    assert(trimmed_start(text@) == text@.skip(from as int));
    assert(text@.subrange(from as int, len as int) =~= text@.skip(from as int));
    while from < to && white_space(chars[to - 1])
        invariant
            chars@ == text@,
            len == text@.len(),
            from <= to <= len,
            trimmed_end(text@.subrange(from as int, to as int)) == trimmed(text@),
        decreases to,
    {
        let ghost rest = text@.subrange(from as int, to as int);
        assert(rest.last() == text@[to - 1]);
        assert(rest.drop_last() =~= text@.subrange(from as int, to - 1));
        to = to - 1;
    }
    proof {
        let rest = text@.subrange(from as int, to as int);
        if rest.len() > 0 {
            assert(rest.last() == text@[to - 1]);
        }
    }
    text.substring_char(from, to)
}

/// The pieces of `text` between the occurrences of `separator`.
pub fn split_at_each<'a>(text: &'a str, separator: char) -> (r: Vec<&'a str>)
    ensures
        views(r@) == split(text@, separator),
        r@.len() > 0,
{
    let chars: Vec<char> = chars_of(text);
    let len: usize = chars.len();
    let mut pieces: Vec<&'a str> = Vec::new();
    let mut from: usize = 0;
    let mut at: usize = 0;
    assert(text@.take(0) =~= Seq::empty());
    assert(split(text@.take(0), separator) =~= views(pieces@).push(text@.subrange(0, 0)));
    while at < len
        invariant
            chars@ == text@,
            len == text@.len(),
            from <= at <= len,
            split(text@.take(at as int), separator) == views(pieces@).push(
                text@.subrange(from as int, at as int),
            ),
        decreases len - at,
    {
        let ghost done = text@.take(at as int);
        let ghost longer = text@.take(at + 1);
        assert(longer.drop_last() =~= done);
        assert(longer.last() == text@[at as int]);
        if chars[at] == separator {
            let piece: &'a str = text.substring_char(from, at);
            let ghost before = views(pieces@);
            pieces.push(piece);
            assert(views(pieces@) =~= before.push(text@.subrange(from as int, at as int)));
            from = at + 1;
            assert(text@.subrange(from as int, at + 1) =~= Seq::empty());
        } else {
            assert(text@.subrange(from as int, at + 1) =~= text@.subrange(
                from as int,
                at as int,
            ).push(text@[at as int]));
            assert(split(done, separator).drop_last() =~= views(pieces@));
        }
        at = at + 1;
    }
    assert(text@.take(len as int) =~= text@);
    let piece: &'a str = text.substring_char(from, len);
    let ghost before = views(pieces@);
    pieces.push(piece);
    assert(views(pieces@) =~= before.push(text@.subrange(from as int, len as int)));
    pieces
}

/// Whether `prefix` stands at the front of `text`.
pub fn starts_with(text: &str, prefix: &str) -> (r: bool)
    ensures
        r == prefix@.is_prefix_of(text@),
{
    let whole: Vec<char> = chars_of(text);
    let front: Vec<char> = chars_of(prefix);
    if front.len() > whole.len() {
        return false;
    }
    let mut i: usize = 0;
    while i < front.len()
        invariant
            whole@ == text@,
            front@ == prefix@,
            front.len() <= whole.len(),
            i <= front.len(),
            forall|j: int| 0 <= j < i ==> prefix@[j] == text@[j],
        decreases front.len() - i,
    {
        if front[i] != whole[i] {
            assert(prefix@[i as int] != text@.subrange(0, prefix@.len() as int)[i as int]);
            return false;
        }
        i = i + 1;
    }
    assert(prefix@ =~= text@.subrange(0, prefix@.len() as int));
    true
}

/// `text` with `prefix` taken off its front, where it stands there.
pub fn strip_prefix<'a>(text: &'a str, prefix: &str) -> (r: Option<&'a str>)
    ensures
        match r {
            Some(rest) => without_prefix(text@, prefix@) == Some(rest@),
            None => without_prefix(text@, prefix@) is None,
        },
{
    if starts_with(text, prefix) {
        let from: usize = prefix.unicode_len();
        let to: usize = text.unicode_len();
        assert(text@.subrange(from as int, to as int) =~= text@.skip(from as int));
        Some(text.substring_char(from, to))
    } else {
        None
    }
}

fn lower_code(c: char) -> (r: u32)
    ensures
        r == ascii_lower(c) as u32,
{
    let code: u32 = c as u32;
    if 65 <= code && code <= 90 {
        code + 32
    } else {
        code
    }
}

/// Whether two texts differ at most in the case of ASCII letters.
pub fn eq_ignore_ascii_case(a: &str, b: &str) -> (r: bool)
    ensures
        r == same_ignoring_ascii_case(a@, b@),
{
    let left: Vec<char> = chars_of(a);
    let right: Vec<char> = chars_of(b);
    if left.len() != right.len() {
        return false;
    }
    let mut i: usize = 0;
    while i < left.len()
        invariant
            left@ == a@,
            right@ == b@,
            left.len() == right.len(),
            i <= left.len(),
            forall|j: int| 0 <= j < i ==> ascii_lower(#[trigger] a@[j]) == ascii_lower(b@[j]),
        decreases left.len() - i,
    {
        if lower_code(left[i]) != lower_code(right[i]) {
            assert(ascii_lower(a@[i as int]) != ascii_lower(b@[i as int]));
            return false;
        }
        assert(ascii_lower(a@[i as int]) == ascii_lower(b@[i as int]));
        i = i + 1;
    }
    true
}

fn digit_text(n: u64) -> (r: &'static str)
    requires
        n < 10,
    ensures
        r@ == seq![digit(n as nat)],
{
    proof {
        reveal_strlit("0");
        reveal_strlit("1");
        reveal_strlit("2");
        reveal_strlit("3");
        reveal_strlit("4");
        reveal_strlit("5");
        reveal_strlit("6");
        reveal_strlit("7");
        reveal_strlit("8");
        reveal_strlit("9");
    }
    let text: &'static str = if n == 0 {
        "0"
    } else if n == 1 {
        "1"
    } else if n == 2 {
        "2"
    } else if n == 3 {
        "3"
    } else if n == 4 {
        "4"
    } else if n == 5 {
        "5"
    } else if n == 6 {
        "6"
    } else if n == 7 {
        "7"
    } else if n == 8 {
        "8"
    } else {
        "9"
    };
    assert(text@ =~= seq![digit(n as nat)]);
    text
}

/// The shortest decimal notation of `n`.
pub fn decimal_text(n: u64) -> (r: String)
    ensures
        r@ == decimal(n as nat),
    decreases n,
{
    if n < 10 {
        digit_text(n).to_owned()
    } else {
        let mut text: String = decimal_text(n / 10);
        let ghost front = text@;
        text.append(digit_text(n % 10));
        assert(text@ =~= front.push(digit((n % 10) as nat)));
        text
    }
}

/// The shortest decimal notation of `n`, with a minus sign where it is
/// negative.
pub fn signed_decimal_text(n: i32) -> (r: String)
    ensures
        r@ == signed_decimal(n as int),
{
    if n < 0 {
        let wide: i64 = n as i64;
        let mut text: String = "-".to_owned();
        text.append(decimal_text((-wide) as u64).as_str());
        proof {
            reveal_strlit("-");
            assert("-"@ =~= seq!['-']);
        }
        text
    } else {
        decimal_text(n as u64)
    }
}

fn digit_number(c: char) -> (r: Option<u64>)
    ensures
        match r {
            Some(n) => is_digit(c) && n == digit_value(c) && n < 10,
            None => !is_digit(c),
        },
{
    let code: u32 = c as u32;
    if 48 <= code && code <= 57 {
        Some((code - 48) as u64)
    } else {
        None
    }
}

/// The number that a row of one or more decimal digits stands for, where it
/// is at most `max`.
pub fn digits_to_number(text: &str, max: u64) -> (r: Option<u64>)
    requires
        max <= 0xffff_ffff,
    ensures
        match r {
            Some(n) => digits_number(text@, max as nat) == Some(n as nat),
            None => digits_number(text@, max as nat) is None,
        },
{
    let chars: Vec<char> = chars_of(text);
    if chars.len() == 0 {
        return None;
    }
    let mut value: u64 = 0;
    let mut over: bool = false;
    let mut i: usize = 0;
    assert(text@.take(0) =~= Seq::empty());
    while i < chars.len()
        invariant
            chars@ == text@,
            i <= chars.len(),
            max <= 0xffff_ffff,
            forall|j: int| 0 <= j < i ==> is_digit(#[trigger] text@[j]),
            over ==> digits_value(text@.take(i as int)) > max,
            !over ==> value == digits_value(text@.take(i as int)) && value <= max,
        decreases chars.len() - i,
    {
        let next: Option<u64> = digit_number(chars[i]);
        assert(text@.take(i + 1).drop_last() =~= text@.take(i as int));
        assert(text@.take(i + 1).last() == text@[i as int]);
        match next {
            None => {
                return None;
            },
            Some(unit) => {
                if !over {
                    value = value * 10 + unit;
                    if value > max {
                        over = true;
                    }
                }
            },
        }
        i = i + 1;
    }
    assert(text@.take(text@.len() as int) =~= text@);
    if over {
        None
    } else {
        Some(value)
    }
}

/// The number that `text` stands for, where it is one or more decimal digits
/// with at most one plus sign in front and is at most `max`.
pub fn parse_decimal(text: &str, max: u64) -> (r: Option<u64>)
    requires
        max <= 0xffff_ffff,
    ensures
        match r {
            Some(n) => decimal_number(text@, max as nat) == Some(n as nat),
            None => decimal_number(text@, max as nat) is None,
        },
{
    let len: usize = text.unicode_len();
    if len > 0 && text.get_char(0) == '+' {
        assert(text@.subrange(1, len as int) =~= text@.drop_first());
        digits_to_number(text.substring_char(1, len), max)
    } else {
        digits_to_number(text, max)
    }
}

/// Whether `c` occurs in `text`.
pub fn contains_char(text: &str, c: char) -> (r: bool)
    ensures
        r == text@.contains(c),
{
    let chars: Vec<char> = chars_of(text);
    let mut i: usize = 0;
    while i < chars.len()
        invariant
            chars@ == text@,
            i <= chars.len(),
            forall|j: int| 0 <= j < i ==> text@[j] != c,
        decreases chars.len() - i,
    {
        if chars[i] == c {
            return true;
        }
        i = i + 1;
    }
    false
}

/// `c` occurs twice in a row at `i`.
pub open spec fn doubled_at(text: Seq<char>, c: char, i: int) -> bool {
    0 <= i < text.len() - 1 && text[i] == c && text[i + 1] == c
}

/// Whether `c` occurs twice in a row in `text`.
pub fn contains_doubled(text: &str, c: char) -> (r: bool)
    ensures
        r == (exists|i: int| doubled_at(text@, c, i)),
{
    let chars: Vec<char> = chars_of(text);
    let len: usize = chars.len();
    let mut i: usize = 0;
    while i < len && len - i >= 2
        invariant
            chars@ == text@,
            len == chars.len(),
            i <= len,
            forall|j: int| 0 <= j < i ==> !doubled_at(text@, c, j),
        decreases len - i,
    {
        if chars[i] == c && chars[i + 1] == c {
            assert(doubled_at(text@, c, i as int));
            return true;
        }
        i = i + 1;
    }
    false
}

/// The lower-case form of a text.
pub uninterp spec fn lowercased(text: Seq<char>) -> Seq<char>;

/// Text of ASCII characters alone.
pub open spec fn is_ascii_text(text: Seq<char>) -> bool {
    forall|i: int| 0 <= i < text.len() ==> (#[trigger] text[i]) as u32 <= 127
}

/// A text with each ASCII letter in lower case.
pub open spec fn ascii_lowered(text: Seq<char>) -> Seq<char> {
    Seq::new(text.len(), |i: int| ascii_lower(text[i]))
}

/// Calls `str::to_lowercase`. The contract claims that the outcome depends on
/// the text alone, that no text comes of none and of none alone, and that of a
/// text of ASCII characters the letters are lowered and all else is kept.
#[verifier::external_body]
pub(crate) fn to_lowercase(text: &str) -> (r: String)
    ensures
        r@ == lowercased(text@),
        r@.len() == 0 <==> text@.len() == 0,
        is_ascii_text(text@) ==> r@ == ascii_lowered(text@),
{
    text.to_lowercase()
}

/// A text in place of none.
pub fn text_or<'a>(text: Option<&'a str>, default: &'a str) -> (r: &'a str)
    ensures
        r@ == (match text {
            Some(value) => value@,
            None => default@,
        }),
{
    match text {
        Some(value) => value,
        None => default,
    }
}

/// The characters of an optional string.
pub open spec fn optional_string(text: Option<String>) -> Option<Seq<char>> {
    match text {
        Some(value) => Some(value@),
        None => None,
    }
}

} // verus!
