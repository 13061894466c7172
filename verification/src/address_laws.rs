//! What holds of the notation of addresses.
use crate::address::IpAddress;
use crate::address::SocketAddress;
use vstd::prelude::*;

verus! {

// ---------------------------------------------------------------------------
// IPv4.
// ---------------------------------------------------------------------------
/// Four numbers with dots between them.
pub open spec fn dotted(a: nat, b: nat, c: nat, d: nat) -> Seq<char> {
    crate::text_laws::joined_by(
        seq![
            crate::text::decimal(a),
            crate::text::decimal(b),
            crate::text::decimal(c),
            crate::text::decimal(d),
        ],
        '.',
    )
}

proof fn lemma_digits_hold_no_mark(text: Seq<char>, mark: char)
    requires
        crate::text::all_digits(text),
        !crate::text::is_digit(mark),
    ensures
        !text.contains(mark),
{
    if text.contains(mark) {
        let i = choose|i: int| 0 <= i < text.len() && text[i] == mark;
        assert(crate::text::is_digit(text[i]));
    }
}

proof fn lemma_octet(n: nat)
    requires
        n <= 255,
    ensures
        crate::address::octet_value(crate::text::decimal(n)) == Some(n),
        !crate::text::decimal(n).contains('.'),
{
    crate::text::lemma_decimal_round_trip(n);
    crate::text_laws::law_decimal_notation(n, 0);
    lemma_digits_hold_no_mark(crate::text::decimal(n), '.');
    assert(crate::text::decimal(n).len() <= 3) by {
        reveal_with_fuel(crate::text::decimal, 4);
    }
}

/// A row of digits without a needless nought at its front is the notation of
/// what it stands for.
pub proof fn lemma_decimal_of_digits(text: Seq<char>)
    requires
        text.len() > 0,
        crate::text::all_digits(text),
        text.len() > 1 ==> text[0] != '0',
    ensures
        crate::text::decimal(crate::text::digits_value(text)) == text,
    decreases text.len(),
{
    let front = text.drop_last();
    let d = crate::text::digit_value(text.last());
    assert(crate::text::is_digit(text[text.len() - 1]));
    assert(crate::text::digit(d) == text.last());
    if text.len() == 1 {
        assert(front =~= Seq::<char>::empty());
        assert(crate::text::digits_value(front) == 0);
        assert(crate::text::decimal(crate::text::digits_value(text)) =~= text);
    } else {
        assert forall|i: int| 0 <= i < front.len() implies crate::text::is_digit(
            #[trigger] front[i],
        ) by {
            assert(crate::text::is_digit(text[i]));
        }
        lemma_decimal_of_digits(front);
        let n = crate::text::digits_value(front);
        if n == 0 {
            assert(crate::text::decimal(0)[0] == '0');
        }
        crate::text_laws::law_decimal_notation(n, d);
        assert(crate::text::digit(d) == ((48 + d) as u32) as char);
        assert(crate::text::decimal(n * 10 + d) =~= text);
    }
}

/// Four numbers of up to eight bits with dots between them name the IPv4
/// address with these octets, the first one on top.
pub proof fn law_dotted_numbers_name_an_address(a: nat, b: nat, c: nat, d: nat)
    requires
        a <= 255,
        b <= 255,
        c <= 255,
        d <= 255,
    ensures
        crate::address::ip_address_of(dotted(a, b, c, d)) == Some(
            IpAddress::V4((a * 0x100_0000 + b * 0x1_0000 + c * 0x100 + d) as u32),
        ),
        crate::address::ipv4_value(dotted(a, b, c, d)) == Some(
            a * 0x100_0000 + b * 0x1_0000 + c * 0x100 + d,
        ),
{
    lemma_octet(a);
    lemma_octet(b);
    lemma_octet(c);
    lemma_octet(d);
    let parts = seq![
        crate::text::decimal(a),
        crate::text::decimal(b),
        crate::text::decimal(c),
        crate::text::decimal(d),
    ];
    lemma_split_of_joined(parts, '.');
}

/// Joining pieces without the separator and splitting again gives the pieces.
pub proof fn lemma_split_of_joined(pieces: Seq<Seq<char>>, separator: char)
    requires
        pieces.len() > 0,
        forall|i: int| 0 <= i < pieces.len() ==> !(#[trigger] pieces[i]).contains(separator),
    ensures
        crate::text::split(crate::text_laws::joined_by(pieces, separator), separator) == pieces,
    decreases pieces.len(),
{
    let joined = crate::text_laws::joined_by(pieces, separator);
    crate::text::lemma_split_without_separator(pieces.last(), separator);
    assert(!pieces[pieces.len() - 1].contains(separator));
    if pieces.len() == 1 {
        assert(seq![pieces[0]] =~= pieces);
    } else {
        let front = pieces.drop_last();
        assert forall|i: int| 0 <= i < front.len() implies !(#[trigger] front[i]).contains(
            separator,
        ) by {
            assert(front[i] == pieces[i]);
        }
        lemma_split_of_joined(front, separator);
        let text = crate::text_laws::joined_by(front, separator);
        crate::text::lemma_split_join(text, pieces.last(), separator);
        assert(joined =~= text + seq![separator] + pieces.last());
        assert(front + seq![pieces.last()] =~= pieces);
    }
}

/// An octet is the notation of a number of up to eight bits.
proof fn lemma_octet_is_decimal(text: Seq<char>)
    requires
        crate::address::octet_value(text) is Some,
    ensures
        crate::address::octet_value(text)->0 <= 255,
        text == crate::text::decimal(crate::address::octet_value(text)->0),
{
    lemma_decimal_of_digits(text);
}

/// A text is the notation of an IPv4 address in these octets.
pub open spec fn is_dotted(text: Seq<char>, octets: (nat, nat, nat, nat)) -> bool {
    &&& octets.0 <= 255
    &&& octets.1 <= 255
    &&& octets.2 <= 255
    &&& octets.3 <= 255
    &&& text == dotted(octets.0, octets.1, octets.2, octets.3)
}

/// No text but four numbers of up to eight bits with dots between them names an
/// IPv4 address.
pub proof fn law_only_dotted_numbers_name_ipv4(text: Seq<char>)
    ensures
        crate::address::ipv4_value(text) is Some ==> exists|octets: (nat, nat, nat, nat)|
            #[trigger] is_dotted(text, octets) && crate::address::ipv4_value(text)->0 == octets.0
                * 0x100_0000 + octets.1 * 0x1_0000 + octets.2 * 0x100 + octets.3,
        crate::address::ip_address_of(text) is Some && crate::address::ip_address_of(text)->0
            is V4 ==> crate::address::ipv4_value(text) is Some,
{
    if crate::address::ipv4_value(text) is Some {
        let parts = crate::text::split(text, '.');
        lemma_octet_is_decimal(parts[0]);
        lemma_octet_is_decimal(parts[1]);
        lemma_octet_is_decimal(parts[2]);
        lemma_octet_is_decimal(parts[3]);
        crate::text_laws::law_splitting_undoes_joining(text, '.');
        let octets = (
            crate::address::octet_value(parts[0])->0,
            crate::address::octet_value(parts[1])->0,
            crate::address::octet_value(parts[2])->0,
            crate::address::octet_value(parts[3])->0,
        );
        assert(parts =~= seq![
            crate::text::decimal(octets.0),
            crate::text::decimal(octets.1),
            crate::text::decimal(octets.2),
            crate::text::decimal(octets.3),
        ]);
        assert(is_dotted(text, octets));
    }
}

/// The addresses of the host itself are those whose first octet is 127 and, in
/// IPv6, the address one.
pub proof fn law_loopback_addresses(a: nat, rest: nat, bits: u128)
    requires
        a <= 255,
        rest < 0x100_0000,
    ensures
        IpAddress::V4((a * 0x100_0000 + rest) as u32).loopback() <==> a == 127,
        IpAddress::V6(bits).loopback() <==> bits == 1,
{
}

// ---------------------------------------------------------------------------
// IPv6.
// ---------------------------------------------------------------------------
/// The sixteen hexadecimal digits count from nought to fifteen, in either case,
/// and no other character is one.
pub proof fn law_hexadecimal_digits_count(c: char)
    ensures
        '0' <= c <= '9' ==> crate::address::hex_digit_value(c) == Some(
            ((c as u32) - ('0' as u32)) as nat,
        ),
        'a' <= c <= 'f' ==> crate::address::hex_digit_value(c) == Some(
            (10 + (c as u32) - ('a' as u32)) as nat,
        ),
        'A' <= c <= 'F' ==> crate::address::hex_digit_value(c) == Some(
            (10 + (c as u32) - ('A' as u32)) as nat,
        ),
        !('0' <= c <= '9' || 'a' <= c <= 'f' || 'A' <= c <= 'F')
            ==> crate::address::hex_digit_value(c) is None,
{
}

/// Hexadecimal digits are read in base sixteen, and one to four of them make a
/// group.
pub proof fn law_groups_are_hexadecimal(text: Seq<char>, c: char)
    ensures
        crate::address::hex_value(Seq::empty()) == Some(0nat),
        crate::address::hex_value(text.push(c)) == (if crate::address::hex_value(text) is Some
            && crate::address::hex_digit_value(c) is Some {
            Some(crate::address::hex_value(text)->0 * 16 + crate::address::hex_digit_value(c)->0)
        } else {
            None
        }),
        crate::address::group_value(text) == (if text.len() == 0 || text.len() > 4 {
            None
        } else {
            crate::address::hex_value(text)
        }),
        crate::address::group_value(text) is Some ==> crate::address::group_value(text)->0
            <= 0xffff,
{
    assert(text.push(c).drop_last() =~= text);
    if 1 <= text.len() <= 4 {
        crate::address::lemma_hex_fits(text);
    }
}

/// Every text is a group.
pub open spec fn are_groups(groups: Seq<Seq<char>>) -> bool {
    forall|i: int|
        0 <= i < groups.len() ==> crate::address::group_value(#[trigger] groups[i]) is Some
}

/// What each text of a row of groups stands for.
pub open spec fn group_numbers(groups: Seq<Seq<char>>) -> Seq<nat> {
    Seq::new(groups.len(), |i: int| crate::address::group_value(groups[i])->0)
}

/// A row of groups, with an IPv4 address at its end where there is one.
pub open spec fn row_texts(
    groups: Seq<Seq<char>>,
    octets: Option<(nat, nat, nat, nat)>,
) -> Seq<Seq<char>> {
    match octets {
        Some((a, b, c, d)) => groups.push(dotted(a, b, c, d)),
        None => groups,
    }
}

/// What a row stands for: an IPv4 address at its end stands for two groups.
pub open spec fn row_numbers(
    groups: Seq<Seq<char>>,
    octets: Option<(nat, nat, nat, nat)>,
) -> Seq<nat> {
    match octets {
        Some((a, b, c, d)) => group_numbers(groups).push(a * 256 + b).push(c * 256 + d),
        None => group_numbers(groups),
    }
}

/// The octets of a row are octets.
pub open spec fn are_octets(octets: Option<(nat, nat, nat, nat)>) -> bool {
    octets matches Some((a, b, c, d)) ==> a <= 255 && b <= 255 && c <= 255 && d <= 255
}

proof fn lemma_hex_value_holds_digits(text: Seq<char>, i: int)
    requires
        crate::address::hex_value(text) is Some,
        0 <= i < text.len(),
    ensures
        crate::address::hex_digit_value(text[i]) is Some,
    decreases text.len(),
{
    if i < text.len() - 1 {
        lemma_hex_value_holds_digits(text.drop_last(), i);
    }
}

proof fn lemma_groups_hold_no_marks(text: Seq<char>)
    requires
        crate::address::group_value(text) is Some,
    ensures
        !text.contains(':'),
        !text.contains('.'),
        crate::address::ipv4_value(text) is None,
{
    if text.contains(':') {
        let i = choose|i: int| 0 <= i < text.len() && text[i] == ':';
        lemma_hex_value_holds_digits(text, i);
    }
    if text.contains('.') {
        let i = choose|i: int| 0 <= i < text.len() && text[i] == '.';
        lemma_hex_value_holds_digits(text, i);
    }
    crate::text::lemma_split_without_separator(text, '.');
}

proof fn lemma_group_values(groups: Seq<Seq<char>>)
    ensures
        are_groups(groups) ==> crate::address::group_values(groups) == Some(group_numbers(groups)),
        crate::address::group_values(groups) is Some ==> are_groups(groups),
    decreases groups.len(),
{
    if groups.len() == 0 {
        assert(group_numbers(groups) =~= Seq::<nat>::empty());
    } else {
        let front = groups.drop_last();
        lemma_group_values(front);
        if are_groups(groups) {
            assert forall|i: int| 0 <= i < front.len() implies crate::address::group_value(
                #[trigger] front[i],
            ) is Some by {
                assert(crate::address::group_value(groups[i]) is Some);
            }
            assert(crate::address::group_value(groups[groups.len() - 1]) is Some);
            assert(group_numbers(front).push(crate::address::group_value(groups.last())->0)
                =~= group_numbers(groups));
        }
        if crate::address::group_values(groups) is Some {
            assert forall|i: int| 0 <= i < groups.len() implies crate::address::group_value(
                #[trigger] groups[i],
            ) is Some by {
                if i < groups.len() - 1 {
                    assert(crate::address::group_value(front[i]) is Some);
                }
            }
        }
    }
}

/// A dotted IPv4 address holds only digits and dots.
proof fn lemma_dotted_characters(a: nat, b: nat, c: nat, d: nat, i: int)
    requires
        0 <= i < dotted(a, b, c, d).len(),
    ensures
        dotted(a, b, c, d).len() > 0,
        crate::text::is_digit(dotted(a, b, c, d)[i]) || dotted(a, b, c, d)[i] == '.',
        crate::text::is_digit(dotted(a, b, c, d)[0]),
{
    let w = crate::text::decimal(a);
    let x = crate::text::decimal(b);
    let y = crate::text::decimal(c);
    let z = crate::text::decimal(d);
    crate::text::lemma_decimal_round_trip(a);
    crate::text::lemma_decimal_round_trip(b);
    crate::text::lemma_decimal_round_trip(c);
    crate::text::lemma_decimal_round_trip(d);
    lemma_dotted_is_joined(a, b, c, d);
    let text = dotted(a, b, c, d);
    assert(text[0] == w[0]);
    assert(crate::text::is_digit(w[0]));
    if i < w.len() {
        assert(text[i] == w[i]);
    } else if i == w.len() {
    } else if i < w.len() + 1 + x.len() {
        assert(text[i] == x[i - w.len() - 1]);
    } else if i == w.len() + 1 + x.len() {
    } else if i < w.len() + 1 + x.len() + 1 + y.len() {
        assert(text[i] == y[i - w.len() - 1 - x.len() - 1]);
    } else if i == w.len() + 1 + x.len() + 1 + y.len() {
    } else {
        assert(text[i] == z[i - w.len() - 1 - x.len() - 1 - y.len() - 1]);
    }
}

/// A dotted address is its four numbers one after another.
pub proof fn lemma_dotted_is_joined(a: nat, b: nat, c: nat, d: nat)
    ensures
        dotted(a, b, c, d) == crate::text::decimal(a) + seq!['.'] + crate::text::decimal(b) + seq![
            '.',
        ] + crate::text::decimal(c) + seq!['.'] + crate::text::decimal(d),
{
    let w = crate::text::decimal(a);
    let x = crate::text::decimal(b);
    let y = crate::text::decimal(c);
    let z = crate::text::decimal(d);
    let four = seq![w, x, y, z];
    let three = four.drop_last();
    let two = three.drop_last();
    let one = two.drop_last();
    assert(three =~= seq![w, x, y]);
    assert(two =~= seq![w, x]);
    assert(one =~= seq![w]);
    assert(crate::text_laws::joined_by(one, '.') == w);
    assert(crate::text_laws::joined_by(two, '.') == w.push('.') + x);
    assert(crate::text_laws::joined_by(three, '.') == (w.push('.') + x).push('.') + y);
    assert(dotted(a, b, c, d) == ((w.push('.') + x).push('.') + y).push('.') + z);
    assert(dotted(a, b, c, d) =~= w + seq!['.'] + x + seq!['.'] + y + seq!['.'] + z);
}

proof fn lemma_dotted_holds_no_colon(a: nat, b: nat, c: nat, d: nat)
    ensures
        !dotted(a, b, c, d).contains(':'),
        dotted(a, b, c, d).len() > 0,
{
    lemma_dotted_is_joined(a, b, c, d);
    let text = dotted(a, b, c, d);
    assert(text.len() > 0);
    if text.contains(':') {
        let i = choose|i: int| 0 <= i < text.len() && text[i] == ':';
        lemma_dotted_characters(a, b, c, d, i);
    }
}

proof fn lemma_joined_is_not_empty(pieces: Seq<Seq<char>>, separator: char)
    requires
        pieces.len() > 0,
        pieces.last().len() > 0,
    ensures
        crate::text_laws::joined_by(pieces, separator).len() > 0,
{
}

/// A row of groups with colons between them, at the end of which an IPv4
/// address may stand, is read as what its groups stand for.
pub proof fn law_rows_are_read(
    groups: Seq<Seq<char>>,
    octets: Option<(nat, nat, nat, nat)>,
    with_ipv4: bool,
)
    requires
        are_groups(groups),
        are_octets(octets),
        octets is Some ==> with_ipv4,
    ensures
        crate::address::row_values(
            crate::text_laws::joined_by(row_texts(groups, octets), ':'),
            with_ipv4,
        ) == Some(row_numbers(groups, octets)),
{
    let texts = row_texts(groups, octets);
    let text = crate::text_laws::joined_by(texts, ':');
    if texts.len() == 0 {
        assert(row_numbers(groups, octets) =~= Seq::<nat>::empty());
    } else {
        assert forall|i: int| 0 <= i < texts.len() implies !(#[trigger] texts[i]).contains(':') by {
            if i < groups.len() {
                assert(texts[i] == groups[i]);
                lemma_groups_hold_no_marks(groups[i]);
            } else {
                let (a, b, c, d) = octets->0;
                lemma_dotted_holds_no_colon(a, b, c, d);
            }
        }
        lemma_split_of_joined(texts, ':');
        match octets {
            Some((a, b, c, d)) => {
                lemma_dotted_holds_no_colon(a, b, c, d);
                lemma_joined_is_not_empty(texts, ':');
                law_dotted_numbers_name_an_address(a, b, c, d);
                assert(texts.last() == dotted(a, b, c, d));
                assert(texts.drop_last() =~= groups);
                lemma_group_values(groups);
                let bits: nat = a * 0x100_0000 + b * 0x1_0000 + c * 0x100 + d;
                assert(bits / 65536 == a * 256 + b && bits % 65536 == c * 256 + d)
                    by (nonlinear_arith)
                    requires
                        bits == a * 0x100_0000 + b * 0x1_0000 + c * 0x100 + d,
                        a <= 255,
                        b <= 255,
                        c <= 255,
                        d <= 255,
                ;
            },
            None => {
                lemma_groups_hold_no_marks(groups[groups.len() - 1]);
                assert(texts.last() == groups[groups.len() - 1]);
                lemma_joined_is_not_empty(texts, ':');
                lemma_group_values(groups);
            },
        }
    }
}

/// A text is a row of groups, at the end of which an IPv4 address may stand.
pub open spec fn is_row(
    text: Seq<char>,
    groups: Seq<Seq<char>>,
    octets: Option<(nat, nat, nat, nat)>,
) -> bool {
    &&& are_groups(groups)
    &&& are_octets(octets)
    &&& text == crate::text_laws::joined_by(row_texts(groups, octets), ':')
}

/// Nothing else is read as a row.
pub proof fn law_only_rows_are_read(text: Seq<char>, with_ipv4: bool)
    requires
        crate::address::row_values(text, with_ipv4) is Some,
    ensures
        exists|groups: Seq<Seq<char>>, octets: Option<(nat, nat, nat, nat)>|
            #[trigger] is_row(text, groups, octets) && (octets is Some ==> with_ipv4)
                && crate::address::row_values(text, with_ipv4)->0 == row_numbers(groups, octets),
{
    if text.len() == 0 {
        let groups = Seq::<Seq<char>>::empty();
        assert(text =~= Seq::<char>::empty());
        assert(is_row(text, groups, None));
        assert(row_numbers(groups, None) =~= Seq::<nat>::empty());
    } else {
        let parts = crate::text::split(text, ':');
        crate::text_laws::law_splitting_undoes_joining(text, ':');
        lemma_group_values(parts.drop_last());
        lemma_group_values(parts);
        if with_ipv4 && crate::address::ipv4_value(parts.last()) is Some {
            law_only_dotted_numbers_name_ipv4(parts.last());
            let octets = choose|octets: (nat, nat, nat, nat)|
                #[trigger] is_dotted(parts.last(), octets) && crate::address::ipv4_value(
                    parts.last(),
                )->0 == octets.0 * 0x100_0000 + octets.1 * 0x1_0000 + octets.2 * 0x100 + octets.3;
            let groups = parts.drop_last();
            assert(row_texts(groups, Some(octets)) =~= parts);
            assert(is_row(text, groups, Some(octets)));
            law_rows_are_read(groups, Some(octets), true);
        } else {
            assert(is_row(text, parts, None));
        }
    }
}

proof fn lemma_double_colon(text: Seq<char>, from: int, at: int)
    requires
        0 <= from <= at,
        at + 1 < text.len(),
        text[at] == ':',
        text[at + 1] == ':',
        forall|i: int| from <= i < at ==> !(#[trigger] text[i] == ':' && text[i + 1] == ':'),
    ensures
        crate::address::double_colon(text, from) == Some(at),
    decreases at - from,
{
    if from < at {
        assert(!(text[from] == ':' && text[from + 1] == ':'));
        lemma_double_colon(text, from + 1, at);
    }
}

proof fn lemma_no_double_colon(text: Seq<char>, from: int)
    requires
        0 <= from,
        forall|i: int|
            from <= i < text.len() - 1 ==> !(#[trigger] text[i] == ':' && text[i + 1] == ':'),
    ensures
        crate::address::double_colon(text, from) is None,
    decreases text.len() - from,
{
    if from + 1 < text.len() {
        assert(!(text[from] == ':' && text[from + 1] == ':'));
        lemma_no_double_colon(text, from + 1);
    }
}

proof fn lemma_found_double_colon(text: Seq<char>, from: int)
    requires
        0 <= from,
        crate::address::double_colon(text, from) is Some,
    ensures
        ({
            let at = crate::address::double_colon(text, from)->0;
            &&& from <= at
            &&& at + 1 < text.len()
            &&& text[at] == ':'
            &&& text[at + 1] == ':'
        }),
    decreases text.len() - from,
{
    if !(text[from] == ':' && text[from + 1] == ':') {
        lemma_found_double_colon(text, from + 1);
    }
}

/// Pieces that are not empty and hold no colon have no two colons in a row
/// between them, none at the front and none at the end.
proof fn lemma_joined_colons(pieces: Seq<Seq<char>>)
    requires
        forall|i: int|
            0 <= i < pieces.len() ==> (#[trigger] pieces[i]).len() > 0 && !pieces[i].contains(':'),
    ensures
        ({
            let text = crate::text_laws::joined_by(pieces, ':');
            &&& pieces.len() > 0 ==> text.len() > 0 && text[0] != ':' && text[text.len() - 1] != ':'
            &&& pieces.len() == 0 ==> text.len() == 0
            &&& forall|i: int|
                0 <= i < text.len() - 1 ==> !(#[trigger] text[i] == ':' && text[i + 1] == ':')
        }),
    decreases pieces.len(),
{
    let text = crate::text_laws::joined_by(pieces, ':');
    if pieces.len() > 0 {
        let last = pieces.last();
        assert(last == pieces[pieces.len() - 1]);
        assert(last.len() > 0 && !last.contains(':'));
        assert forall|i: int| 0 <= i < last.len() implies #[trigger] last[i] != ':' by {
            assert(last.contains(last[i]));
        }
        if pieces.len() == 1 {
            assert(text == last);
            assert(text[0] == last[0]);
            assert(text[text.len() - 1] == last[last.len() - 1]);
        } else {
            let front = pieces.drop_last();
            assert forall|i: int| 0 <= i < front.len() implies (#[trigger] front[i]).len() > 0
                && !front[i].contains(':') by {
                assert(front[i] == pieces[i]);
            }
            lemma_joined_colons(front);
            let before = crate::text_laws::joined_by(front, ':');
            assert(text == before.push(':') + last);
            assert(text[0] == before[0]);
            assert(text[text.len() - 1] == last[last.len() - 1]);
            assert forall|i: int| 0 <= i < text.len() - 1 implies !(#[trigger] text[i] == ':'
                && text[i + 1] == ':') by {
                if i < before.len() - 1 {
                    assert(text[i] == before[i]);
                    assert(text[i + 1] == before[i + 1]);
                } else if i == before.len() - 1 {
                    assert(text[i] == before[i]);
                } else if i == before.len() {
                    assert(text[i + 1] == last[0]);
                } else {
                    assert(text[i] == last[i - before.len() - 1]);
                }
            }
        }
    }
}

proof fn lemma_row_pieces(groups: Seq<Seq<char>>, octets: Option<(nat, nat, nat, nat)>)
    requires
        are_groups(groups),
        are_octets(octets),
    ensures
        forall|i: int|
            0 <= i < row_texts(groups, octets).len() ==> (#[trigger] row_texts(
                groups,
                octets,
            )[i]).len() > 0 && !row_texts(groups, octets)[i].contains(':'),
{
    let texts = row_texts(groups, octets);
    assert forall|i: int| 0 <= i < texts.len() implies (#[trigger] texts[i]).len() > 0
        && !texts[i].contains(':') by {
        if i < groups.len() {
            assert(texts[i] == groups[i]);
            assert(crate::address::group_value(groups[i]) is Some);
            lemma_groups_hold_no_marks(groups[i]);
        } else {
            let (a, b, c, d) = octets->0;
            lemma_dotted_holds_no_colon(a, b, c, d);
        }
    }
}

/// Eight groups, or six and an IPv4 address, with colons between them, are the
/// groups of an IPv6 address.
pub proof fn law_eight_groups_name_an_address(
    groups: Seq<Seq<char>>,
    octets: Option<(nat, nat, nat, nat)>,
)
    requires
        are_groups(groups),
        are_octets(octets),
        row_numbers(groups, octets).len() == 8,
    ensures
        crate::address::ipv6_groups(crate::text_laws::joined_by(row_texts(groups, octets), ':'))
            == Some(row_numbers(groups, octets)),
{
    let text = crate::text_laws::joined_by(row_texts(groups, octets), ':');
    lemma_row_pieces(groups, octets);
    lemma_joined_colons(row_texts(groups, octets));
    lemma_no_double_colon(text, 0);
    law_rows_are_read(groups, octets, true);
}

/// One run of groups of nought may be written as two colons: what stands before
/// them are the first groups, what stands behind them, at the end of which an
/// IPv4 address may stand, are the last ones.
pub proof fn law_two_colons_stand_for_noughts(
    head: Seq<Seq<char>>,
    tail: Seq<Seq<char>>,
    octets: Option<(nat, nat, nat, nat)>,
)
    requires
        are_groups(head),
        are_groups(tail),
        are_octets(octets),
        head.len() + row_numbers(tail, octets).len() <= 7,
    ensures
        ({
            let groups = crate::address::ipv6_groups(
                crate::text_laws::joined_by(head, ':') + seq![':', ':']
                    + crate::text_laws::joined_by(row_texts(tail, octets), ':'),
            );
            let last = row_numbers(tail, octets);
            &&& groups is Some
            &&& groups->0.len() == 8
            &&& forall|i: int|
                0 <= i < 8 ==> #[trigger] groups->0[i] == (if i < head.len() {
                    crate::address::group_value(head[i])->0
                } else if i < 8 - last.len() {
                    0
                } else {
                    last[i - (8 - last.len())]
                })
        }),
{
    let before = crate::text_laws::joined_by(head, ':');
    let after = crate::text_laws::joined_by(row_texts(tail, octets), ':');
    let text = before + seq![':', ':'] + after;
    lemma_row_pieces(head, None);
    assert(row_texts(head, None) == head);
    lemma_joined_colons(row_texts(head, None));
    let at = before.len() as int;
    assert(text[at] == ':');
    assert(text[at + 1] == ':');
    assert forall|i: int| 0 <= i < at implies !(#[trigger] text[i] == ':' && text[i + 1]
        == ':') by {
        assert(text[i] == before[i]);
        if i < at - 1 {
            assert(text[i + 1] == before[i + 1]);
        }
    }
    lemma_double_colon(text, 0, at);
    assert(text.take(at) =~= before);
    assert(text.skip(at + 2) =~= after);
    law_rows_are_read(head, None, false);
    law_rows_are_read(tail, octets, true);
}

/// A text is the notation of an IPv6 address, with two colons in it or not.
pub open spec fn is_ipv6_text(
    text: Seq<char>,
    head: Option<Seq<Seq<char>>>,
    tail: Seq<Seq<char>>,
    octets: Option<(nat, nat, nat, nat)>,
) -> bool {
    &&& are_groups(tail)
    &&& are_octets(octets)
    &&& match head {
        Some(head) => are_groups(head) && head.len() + row_numbers(tail, octets).len() <= 7 && text
            == crate::text_laws::joined_by(head, ':') + seq![':', ':']
            + crate::text_laws::joined_by(row_texts(tail, octets), ':'),
        None => row_numbers(tail, octets).len() == 8 && text == crate::text_laws::joined_by(
            row_texts(tail, octets),
            ':',
        ),
    }
}

/// No other text names an IPv6 address.
pub proof fn law_only_groups_name_ipv6(text: Seq<char>)
    requires
        crate::address::ipv6_groups(text) is Some,
    ensures
        exists|
            head: Option<Seq<Seq<char>>>,
            tail: Seq<Seq<char>>,
            octets: Option<(nat, nat, nat, nat)>,
        | #[trigger]
            is_ipv6_text(text, head, tail, octets),
{
    match crate::address::double_colon(text, 0) {
        None => {
            law_only_rows_are_read(text, true);
            let (groups, octets) = choose|
                groups: Seq<Seq<char>>,
                octets: Option<(nat, nat, nat, nat)>,
            |
                #[trigger] is_row(text, groups, octets) && crate::address::row_values(
                    text,
                    true,
                )->0 == row_numbers(groups, octets);
            assert(is_ipv6_text(text, None, groups, octets));
        },
        Some(at) => {
            lemma_found_double_colon(text, 0);
            let before = text.take(at);
            let after = text.skip(at + 2);
            assert(text =~= before + seq![':', ':'] + after);
            law_only_rows_are_read(before, false);
            law_only_rows_are_read(after, true);
            let (head, none) = choose|
                groups: Seq<Seq<char>>,
                octets: Option<(nat, nat, nat, nat)>,
            |
                #[trigger] is_row(before, groups, octets) && (octets is Some ==> false)
                    && crate::address::row_values(before, false)->0 == row_numbers(groups, octets);
            let (tail, octets) = choose|
                groups: Seq<Seq<char>>,
                octets: Option<(nat, nat, nat, nat)>,
            |
                #[trigger] is_row(after, groups, octets) && crate::address::row_values(
                    after,
                    true,
                )->0 == row_numbers(groups, octets);
            assert(is_ipv6_text(text, Some(head), tail, octets));
        },
    }
}

/// The groups of an IPv6 address are its bits, sixteen each, the first one on
/// top; a text that names an IPv6 address names no IPv4 address.
pub proof fn law_groups_make_up_the_address(text: Seq<char>)
    requires
        crate::address::ipv6_groups(text) is Some,
        crate::address::ipv4_value(text) is None,
    ensures
        ({
            let groups = crate::address::ipv6_groups(text)->0;
            &&& groups.len() == 8
            &&& crate::address::ip_address_of(text) is Some
            &&& crate::address::ip_address_of(text)->0 is V6
            &&& crate::address::ip_address_of(text)->0->V6_0 == groups[0]
                * 0x1_0000_0000_0000_0000_0000_0000_0000 + groups[1]
                * 0x1_0000_0000_0000_0000_0000_0000 + groups[2] * 0x1_0000_0000_0000_0000_0000
                + groups[3] * 0x1_0000_0000_0000_0000 + groups[4] * 0x1_0000_0000_0000 + groups[5]
                * 0x1_0000_0000 + groups[6] * 0x1_0000 + groups[7]
        }),
{
    let groups = crate::address::ipv6_groups(text)->0;
    lemma_ipv6_groups_fit(text);
    crate::address::lemma_groups_bound(groups);
    let g7 = groups.drop_last();
    let g6 = g7.drop_last();
    let g5 = g6.drop_last();
    let g4 = g5.drop_last();
    let g3 = g4.drop_last();
    let g2 = g3.drop_last();
    let g1 = g2.drop_last();
    let g0 = g1.drop_last();
    assert(crate::address::groups_bits(g0) == 0);
    assert(crate::address::groups_bits(g1) == groups[0]);
    assert(crate::address::groups_bits(g2) == crate::address::groups_bits(g1) * 65536 + groups[1]);
    assert(crate::address::groups_bits(g3) == crate::address::groups_bits(g2) * 65536 + groups[2]);
    assert(crate::address::groups_bits(g4) == crate::address::groups_bits(g3) * 65536 + groups[3]);
    assert(crate::address::groups_bits(g5) == crate::address::groups_bits(g4) * 65536 + groups[4]);
    assert(crate::address::groups_bits(g6) == crate::address::groups_bits(g5) * 65536 + groups[5]);
    assert(crate::address::groups_bits(g7) == crate::address::groups_bits(g6) * 65536 + groups[6]);
    assert(crate::address::groups_bits(groups) == crate::address::groups_bits(g7) * 65536
        + groups[7]);
}

proof fn lemma_row_numbers_fit(groups: Seq<Seq<char>>, octets: Option<(nat, nat, nat, nat)>)
    requires
        are_groups(groups),
        are_octets(octets),
    ensures
        crate::address::all_groups(row_numbers(groups, octets)),
{
    let numbers = row_numbers(groups, octets);
    assert forall|i: int| 0 <= i < numbers.len() implies #[trigger] numbers[i] < 65536 by {
        if i < groups.len() {
            law_groups_are_hexadecimal(groups[i], '0');
            assert(crate::address::group_value(groups[i]) is Some);
        }
    }
}

proof fn lemma_ipv6_groups_fit(text: Seq<char>)
    requires
        crate::address::ipv6_groups(text) is Some,
    ensures
        crate::address::ipv6_groups(text)->0.len() == 8,
        crate::address::all_groups(crate::address::ipv6_groups(text)->0),
{
    law_only_groups_name_ipv6(text);
    let (head, tail, octets) = choose|
        head: Option<Seq<Seq<char>>>,
        tail: Seq<Seq<char>>,
        octets: Option<(nat, nat, nat, nat)>,
    | #[trigger]
        is_ipv6_text(text, head, tail, octets);
    lemma_row_numbers_fit(tail, octets);
    match head {
        None => {
            law_eight_groups_name_an_address(tail, octets);
        },
        Some(head) => {
            law_two_colons_stand_for_noughts(head, tail, octets);
            lemma_row_numbers_fit(head, None);
            let groups = crate::address::ipv6_groups(text)->0;
            assert forall|i: int| 0 <= i < groups.len() implies #[trigger] groups[i] < 65536 by {
                if i < head.len() {
                    assert(row_numbers(head, None)[i] < 65536);
                } else if i >= 8 - row_numbers(tail, octets).len() {
                    assert(row_numbers(tail, octets)[i - (8 - row_numbers(tail, octets).len())]
                        < 65536);
                }
            }
        },
    }
}

/// The notation of an IPv6 address is not that of an IPv4 address.
pub proof fn law_families_do_not_overlap(text: Seq<char>)
    ensures
        crate::address::ipv4_value(text) is None || crate::address::ipv6_groups(text) is None,
{
    if crate::address::ipv4_value(text) is Some && crate::address::ipv6_groups(text) is Some {
        law_only_dotted_numbers_name_ipv4(text);
        let dots = choose|octets: (nat, nat, nat, nat)| #[trigger] is_dotted(text, octets);
        lemma_dotted_holds_no_colon(dots.0, dots.1, dots.2, dots.3);
        law_only_groups_name_ipv6(text);
        let (head, tail, octets) = choose|
            head: Option<Seq<Seq<char>>>,
            tail: Seq<Seq<char>>,
            octets: Option<(nat, nat, nat, nat)>,
        | #[trigger]
            is_ipv6_text(text, head, tail, octets);
        match head {
            Some(head) => {
                assert(text[crate::text_laws::joined_by(head, ':').len() as int] == ':');
            },
            None => {
                let texts = row_texts(tail, octets);
                let front = crate::text_laws::joined_by(texts.drop_last(), ':');
                assert(texts.len() >= 7);
                assert(text == front.push(':') + texts.last());
                assert(text[front.len() as int] == ':');
            },
        }
        assert(text.contains(':'));
    }
}

// ---------------------------------------------------------------------------
// Socket addresses.
// ---------------------------------------------------------------------------
/// An IPv4 address, a colon and a port of up to sixteen bits name a service.
pub proof fn law_ipv4_services_are_named(host: Seq<char>, port: Seq<char>)
    requires
        !host.contains(':'),
        !port.contains(':'),
    ensures
        crate::address::socket_v4_of(host + seq![':'] + port) == (
        if crate::address::ipv4_value(host) is Some && crate::text::digits_number(port, 0xffff)
            is Some {
            Some(
                SocketAddress {
                    ip: IpAddress::V4(crate::address::ipv4_value(host)->0 as u32),
                    port: crate::text::digits_number(port, 0xffff)->0 as u16,
                    scope_id: 0,
                },
            )
        } else {
            None
        }),
        crate::address::socket_v4_of(host + seq![':'] + port) is Some
            ==> crate::address::socket_address_of(host + seq![':'] + port)
            == crate::address::socket_v4_of(host + seq![':'] + port),
{
    crate::text::lemma_split_without_separator(host, ':');
    crate::text::lemma_split_without_separator(port, ':');
    crate::text::lemma_split_join(host, port, ':');
    assert(crate::text::split(host + seq![':'] + port, ':') =~= seq![host, port]);
}

/// An IPv6 address in square brackets, with a scope of up to thirty-two bits
/// behind a percent sign or without one, a colon and a port name a service.
pub proof fn law_ipv6_services_are_named(host: Seq<char>, scope: Seq<char>, port: Seq<char>)
    requires
        !host.contains('%'),
        !host.contains(']'),
        !scope.contains('%'),
        !scope.contains(']'),
        !port.contains(']'),
    ensures
        crate::address::socket_v6_of(seq!['['] + host + seq![']', ':'] + port) == (
        if crate::address::ipv6_value(host) is Some && crate::text::digits_number(port, 0xffff)
            is Some {
            Some(
                SocketAddress {
                    ip: IpAddress::V6(crate::address::ipv6_value(host)->0 as u128),
                    port: crate::text::digits_number(port, 0xffff)->0 as u16,
                    scope_id: 0,
                },
            )
        } else {
            None
        }),
        crate::address::socket_v6_of(
            seq!['['] + (host + seq!['%'] + scope) + seq![']', ':'] + port,
        ) == (if crate::address::ipv6_value(host) is Some && crate::text::digits_number(
            scope,
            0xffff_ffff,
        ) is Some && crate::text::digits_number(port, 0xffff) is Some {
            Some(
                SocketAddress {
                    ip: IpAddress::V6(crate::address::ipv6_value(host)->0 as u128),
                    port: crate::text::digits_number(port, 0xffff)->0 as u16,
                    scope_id: crate::text::digits_number(scope, 0xffff_ffff)->0 as u32,
                },
            )
        } else {
            None
        }),
{
    lemma_bracketed(host, port);
    lemma_bracketed(host + seq!['%'] + scope, port);
    crate::text::lemma_split_without_separator(host, '%');
    crate::text::lemma_split_without_separator(scope, '%');
    crate::text::lemma_split_join(host, scope, '%');
    assert(crate::text::split(host + seq!['%'] + scope, '%') =~= seq![host, scope]);
}

proof fn lemma_bracketed(inner: Seq<char>, port: Seq<char>)
    requires
        !inner.contains(']'),
        !port.contains(']'),
    ensures
        ({
            let parts = crate::text::split(seq!['['] + inner + seq![']', ':'] + port, ']');
            &&& parts.len() == 2
            &&& parts[0].len() > 0
            &&& parts[0][0] == '['
            &&& parts[0].drop_first() == inner
            &&& parts[1].len() > 0
            &&& parts[1][0] == ':'
            &&& parts[1].drop_first() == port
        }),
{
    let left = seq!['['] + inner;
    let right = seq![':'] + port;
    if left.contains(']') {
        let i = choose|i: int| 0 <= i < left.len() && left[i] == ']';
        assert(inner[i - 1] == ']');
    }
    if right.contains(']') {
        let i = choose|i: int| 0 <= i < right.len() && right[i] == ']';
        assert(port[i - 1] == ']');
    }
    crate::text::lemma_split_without_separator(left, ']');
    crate::text::lemma_split_without_separator(right, ']');
    crate::text::lemma_split_join(left, right, ']');
    assert(left + seq![']'] + right =~= seq!['['] + inner + seq![']', ':'] + port);
    assert(left.drop_first() =~= inner);
    assert(right.drop_first() =~= port);
}

/// No other text names a service: there is one colon behind an IPv4 address, or
/// an IPv6 address in square brackets, a colon behind them, and a port.
pub proof fn law_services_need_a_port(text: Seq<char>)
    ensures
        crate::address::socket_v4_of(text) is Some ==> exists|host: Seq<char>, port: Seq<char>|
            text == #[trigger] (host.push(':') + port) && crate::address::ipv4_value(host) is Some
                && crate::text::digits_number(port, 0xffff) is Some,
        crate::address::socket_v6_of(text) is Some ==> exists|inner: Seq<char>, port: Seq<char>|
            text == #[trigger] (inner.push(']') + port) && inner.len() > 0 && inner[0] == '['
                && port.len() > 0 && port[0] == ':' && crate::address::scoped_ipv6(
                inner.drop_first(),
            ) is Some && crate::text::digits_number(port.drop_first(), 0xffff) is Some,
        crate::address::socket_address_of(text) == (if crate::address::socket_v4_of(text) is Some {
            crate::address::socket_v4_of(text)
        } else {
            crate::address::socket_v6_of(text)
        }),
{
    if crate::address::socket_v4_of(text) is Some {
        crate::text_laws::law_splitting_undoes_joining(text, ':');
        let parts = crate::text::split(text, ':');
        assert(crate::text_laws::joined_by(parts.drop_last(), ':') == parts[0]);
        assert(text == parts[0].push(':') + parts[1]);
    }
    if crate::address::socket_v6_of(text) is Some {
        crate::text_laws::law_splitting_undoes_joining(text, ']');
        let parts = crate::text::split(text, ']');
        assert(crate::text_laws::joined_by(parts.drop_last(), ']') == parts[0]);
        assert(text == parts[0].push(']') + parts[1]);
    }
}

} // verus!
