//! Internet addresses and their text notation.
//!
//! An IPv4 address is four decimal octets without leading zeros. An IPv6
//! address is eight groups of up to four hexadecimal digits, of which the
//! last two may be written as an IPv4 address, and one run of zero groups may
//! be written as `::`. A socket address adds a port, with the IPv6 address and
//! its optional numeric scope in square brackets.
use crate::text::chars_of;
use crate::text::digits_to_number;
use crate::text::split_at_each;
use vstd::prelude::*;
use vstd::string::StrSliceExecFns;

verus! {

/// The address of a host, as the number that its bits stand for.
#[derive(Clone, Copy, Debug, PartialEq, Eq, Structural)]
pub enum IpAddress {
    V4(u32),
    V6(u128),
}

/// The address of a service: a host, a port and, for IPv6, a scope.
#[derive(Clone, Copy, Debug, PartialEq, Eq, Structural)]
pub struct SocketAddress {
    pub ip: IpAddress,
    pub port: u16,
    pub scope_id: u32,
}

/// The value of an IPv4 octet: one to three digits, no leading zero.
pub open spec fn octet_value(text: Seq<char>) -> Option<nat> {
    if text.len() <= 3 && !(text.len() > 1 && text[0] == '0') {
        crate::text::digits_number(text, 255)
    } else {
        None
    }
}

/// The bits of four octets.
pub open spec fn octets_bits(a: nat, b: nat, c: nat, d: nat) -> nat {
    ((a * 256 + b) * 256 + c) * 256 + d
}

/// The bits of an IPv4 address in text notation.
pub open spec fn ipv4_value(text: Seq<char>) -> Option<nat> {
    let parts = crate::text::split(text, '.');
    if parts.len() != 4 {
        None
    } else {
        match (
            octet_value(parts[0]),
            octet_value(parts[1]),
            octet_value(parts[2]),
            octet_value(parts[3]),
        ) {
            (Some(a), Some(b), Some(c), Some(d)) => Some(octets_bits(a, b, c, d)),
            _ => None,
        }
    }
}

/// What a hexadecimal digit stands for.
pub open spec fn hex_digit_value(c: char) -> Option<nat> {
    let code = c as u32;
    if 48 <= code <= 57 {
        Some((code - 48) as nat)
    } else if 97 <= code <= 102 {
        Some((code - 87) as nat)
    } else if 65 <= code <= 70 {
        Some((code - 55) as nat)
    } else {
        None
    }
}

/// What a row of hexadecimal digits stands for.
pub open spec fn hex_value(text: Seq<char>) -> Option<nat>
    decreases text.len(),
{
    if text.len() == 0 {
        Some(0)
    } else {
        match (hex_value(text.drop_last()), hex_digit_value(text.last())) {
            (Some(front), Some(unit)) => Some(front * 16 + unit),
            _ => None,
        }
    }
}

/// The value of an IPv6 group: one to four hexadecimal digits.
pub open spec fn group_value(text: Seq<char>) -> Option<nat> {
    if 1 <= text.len() <= 4 {
        hex_value(text)
    } else {
        None
    }
}

/// The values of groups in text notation, each of them a group.
pub open spec fn group_values(parts: Seq<Seq<char>>) -> Option<Seq<nat>>
    decreases parts.len(),
{
    if parts.len() == 0 {
        Some(Seq::empty())
    } else {
        match (group_values(parts.drop_last()), group_value(parts.last())) {
            (Some(front), Some(unit)) => Some(front.push(unit)),
            _ => None,
        }
    }
}

/// The groups of a colon-separated row of groups; where `with_ipv4` holds, the
/// last part may be an IPv4 address, which stands for two groups.
pub open spec fn row_values(text: Seq<char>, with_ipv4: bool) -> Option<Seq<nat>> {
    if text.len() == 0 {
        Some(Seq::empty())
    } else {
        let parts = crate::text::split(text, ':');
        match (with_ipv4, ipv4_value(parts.last()), group_values(parts.drop_last())) {
            (true, Some(bits), Some(front)) => Some(front.push(bits / 65536).push(bits % 65536)),
            (true, Some(_), None) => None,
            _ => group_values(parts),
        }
    }
}

/// Where the first `::` at or after `from` starts.
pub open spec fn double_colon(text: Seq<char>, from: int) -> Option<int>
    decreases text.len() - from,
{
    if from + 1 >= text.len() {
        None
    } else if text[from] == ':' && text[from + 1] == ':' {
        Some(from)
    } else {
        double_colon(text, from + 1)
    }
}

/// The bits of a row of groups.
pub open spec fn groups_bits(groups: Seq<nat>) -> nat
    decreases groups.len(),
{
    if groups.len() == 0 {
        0
    } else {
        groups_bits(groups.drop_last()) * 65536 + groups.last()
    }
}

/// A row of `count` zero groups.
pub open spec fn zero_groups(count: nat) -> Seq<nat> {
    Seq::new(count, |i: int| 0nat)
}

/// The eight groups of an IPv6 address in text notation.
pub open spec fn ipv6_groups(text: Seq<char>) -> Option<Seq<nat>> {
    match double_colon(text, 0) {
        None => match row_values(text, true) {
            Some(groups) => if groups.len() == 8 {
                Some(groups)
            } else {
                None
            },
            None => None,
        },
        Some(at) => match (row_values(text.take(at), false), row_values(text.skip(at + 2), true)) {
            (Some(head), Some(tail)) => if head.len() + tail.len() <= 7 {
                Some(head + zero_groups((8 - head.len() - tail.len()) as nat) + tail)
            } else {
                None
            },
            _ => None,
        },
    }
}

/// The bits of an IPv6 address in text notation.
pub open spec fn ipv6_value(text: Seq<char>) -> Option<nat> {
    match ipv6_groups(text) {
        Some(groups) => Some(groups_bits(groups)),
        None => None,
    }
}

/// The address that `text` is the notation of.
pub open spec fn ip_address_of(text: Seq<char>) -> Option<IpAddress> {
    match ipv4_value(text) {
        Some(bits) => Some(IpAddress::V4(bits as u32)),
        None => match ipv6_value(text) {
            Some(bits) => Some(IpAddress::V6(bits as u128)),
            None => None,
        },
    }
}

/// The IPv6 address and scope inside the brackets of a socket address; the
/// scope is zero where none is written.
pub open spec fn scoped_ipv6(text: Seq<char>) -> Option<(nat, nat)> {
    let parts = crate::text::split(text, '%');
    if parts.len() == 1 {
        match ipv6_value(parts[0]) {
            Some(bits) => Some((bits, 0)),
            None => None,
        }
    } else if parts.len() == 2 {
        match (ipv6_value(parts[0]), crate::text::digits_number(parts[1], 0xffff_ffff)) {
            (Some(bits), Some(scope)) => Some((bits, scope)),
            _ => None,
        }
    } else {
        None
    }
}

/// The IPv4 socket address that `text` is the notation of.
pub open spec fn socket_v4_of(text: Seq<char>) -> Option<SocketAddress> {
    let parts = crate::text::split(text, ':');
    if parts.len() != 2 {
        None
    } else {
        match (ipv4_value(parts[0]), crate::text::digits_number(parts[1], 65535)) {
            (Some(bits), Some(port)) => Some(
                SocketAddress { ip: IpAddress::V4(bits as u32), port: port as u16, scope_id: 0 },
            ),
            _ => None,
        }
    }
}

/// The IPv6 socket address that `text` is the notation of.
pub open spec fn socket_v6_of(text: Seq<char>) -> Option<SocketAddress> {
    let parts = crate::text::split(text, ']');
    if parts.len() != 2 || parts[0].len() == 0 || parts[0][0] != '[' || parts[1].len() == 0
        || parts[1][0] != ':' {
        None
    } else {
        match (
            scoped_ipv6(parts[0].drop_first()),
            crate::text::digits_number(parts[1].drop_first(), 65535),
        ) {
            (Some((bits, scope)), Some(port)) => Some(
                SocketAddress {
                    ip: IpAddress::V6(bits as u128),
                    port: port as u16,
                    scope_id: scope as u32,
                },
            ),
            _ => None,
        }
    }
}

/// The socket address that `text` is the notation of.
pub open spec fn socket_address_of(text: Seq<char>) -> Option<SocketAddress> {
    match socket_v4_of(text) {
        Some(address) => Some(address),
        None => socket_v6_of(text),
    }
}

impl IpAddress {
    /// An address that names the host itself: `127.0.0.0/8` or `::1`.
    pub open spec fn loopback(self) -> bool {
        match self {
            IpAddress::V4(bits) => bits / 0x0100_0000 == 127,
            IpAddress::V6(bits) => bits == 1,
        }
    }

    /// Whether the address names the host itself.
    pub fn is_loopback(self) -> (r: bool)
        ensures
            r == self.loopback(),
    {
        match self {
            IpAddress::V4(bits) => bits / 0x0100_0000 == 127,
            IpAddress::V6(bits) => bits == 1,
        }
    }
}

proof fn lemma_octets_fit(a: nat, b: nat, c: nat, d: nat)
    requires
        a <= 255,
        b <= 255,
        c <= 255,
        d <= 255,
    ensures
        octets_bits(a, b, c, d) <= 0xffff_ffff,
{
}

/// Up to four hexadecimal digits stand for a number of 16 bits.
pub proof fn lemma_hex_fits(text: Seq<char>)
    requires
        text.len() <= 4,
    ensures
        hex_value(text) matches Some(v) ==> (text.len() == 0 ==> v == 0) && (text.len() == 1 ==> v
            < 16) && (text.len() == 2 ==> v < 256) && (text.len() == 3 ==> v < 4096) && (text.len()
            == 4 ==> v < 65536) && v < 65536,
    decreases text.len(),
{
    if text.len() > 0 {
        lemma_hex_fits(text.drop_last());
    }
}

/// Every value is that of one group.
pub open spec fn all_groups(groups: Seq<nat>) -> bool {
    forall|i: int| 0 <= i < groups.len() ==> #[trigger] groups[i] < 65536
}

/// The bits of up to eight groups fit as many bits.
pub proof fn lemma_groups_bound(groups: Seq<nat>)
    requires
        all_groups(groups),
    ensures
        groups.len() <= 1 ==> groups_bits(groups) < 0x1_0000,
        groups.len() <= 2 ==> groups_bits(groups) < 0x1_0000_0000,
        groups.len() <= 3 ==> groups_bits(groups) < 0x1_0000_0000_0000,
        groups.len() <= 4 ==> groups_bits(groups) < 0x1_0000_0000_0000_0000,
        groups.len() <= 5 ==> groups_bits(groups) < 0x1_0000_0000_0000_0000_0000,
        groups.len() <= 6 ==> groups_bits(groups) < 0x1_0000_0000_0000_0000_0000_0000,
        groups.len() <= 7 ==> groups_bits(groups) < 0x1_0000_0000_0000_0000_0000_0000_0000,
        groups.len() <= 8 ==> groups_bits(groups) < 0x1_0000_0000_0000_0000_0000_0000_0000_0000,
    decreases groups.len(),
{
    if groups.len() > 0 {
        assert(groups.last() == groups[groups.len() - 1]);
        lemma_groups_bound(groups.drop_last());
    }
}

fn octet(text: &str) -> (r: Option<u32>)
    ensures
        match r {
            Some(n) => octet_value(text@) == Some(n as nat) && n <= 255,
            None => octet_value(text@) is None,
        },
{
    let len: usize = text.unicode_len();
    if len > 3 {
        return None;
    }
    if len > 1 && text.get_char(0) == '0' {
        return None;
    }
    match digits_to_number(text, 255) {
        Some(n) => Some(n as u32),
        None => None,
    }
}

/// Reads an IPv4 address.
pub fn parse_ipv4(text: &str) -> (r: Option<u32>)
    ensures
        match r {
            Some(bits) => ipv4_value(text@) == Some(bits as nat),
            None => ipv4_value(text@) is None,
        },
{
    let parts: Vec<&str> = split_at_each(text, '.');
    let ghost pieces = crate::text::split(text@, '.');
    assert(crate::text::views(parts@) == pieces);
    if parts.len() != 4 {
        return None;
    }
    assert(forall|i: int| 0 <= i < 4 ==> #[trigger] pieces[i] == parts@[i]@);
    match (octet(parts[0]), octet(parts[1]), octet(parts[2]), octet(parts[3])) {
        (Some(a), Some(b), Some(c), Some(d)) => {
            assert(octets_bits(a as nat, b as nat, c as nat, d as nat) <= 0xffff_ffff) by {
                lemma_octets_fit(a as nat, b as nat, c as nat, d as nat);
            }
            Some(((a * 256 + b) * 256 + c) * 256 + d)
        },
        _ => None,
    }
}

fn hex_digit(c: char) -> (r: Option<u32>)
    ensures
        match r {
            Some(n) => hex_digit_value(c) == Some(n as nat) && n < 16,
            None => hex_digit_value(c) is None,
        },
{
    let code: u32 = c as u32;
    if 48 <= code && code <= 57 {
        Some(code - 48)
    } else if 97 <= code && code <= 102 {
        Some(code - 87)
    } else if 65 <= code && code <= 70 {
        Some(code - 55)
    } else {
        None
    }
}

proof fn lemma_hex_prefix(text: Seq<char>, count: int)
    requires
        0 <= count <= text.len(),
        hex_value(text.take(count)) is None,
    ensures
        hex_value(text) is None,
    decreases text.len() - count,
{
    if count < text.len() {
        assert(text.take(count + 1).drop_last() =~= text.take(count));
        lemma_hex_prefix(text, count + 1);
    } else {
        assert(text.take(count) =~= text);
    }
}

fn group(text: &str) -> (r: Option<u16>)
    ensures
        match r {
            Some(n) => group_value(text@) == Some(n as nat),
            None => group_value(text@) is None,
        },
{
    let chars: Vec<char> = chars_of(text);
    let len: usize = chars.len();
    if len == 0 || len > 4 {
        return None;
    }
    let mut value: u32 = 0;
    let mut i: usize = 0;
    assert(text@.take(0) =~= Seq::empty());
    while i < len
        invariant
            chars@ == text@,
            len == chars.len(),
            len <= 4,
            i <= len,
            hex_value(text@.take(i as int)) == Some(value as nat),
            value < 65536,
            i < len ==> value < 4096,
        decreases len - i,
    {
        proof {
            assert(text@.take(i + 1).drop_last() =~= text@.take(i as int));
            assert(text@.take(i + 1).last() == text@[i as int]);
            lemma_hex_fits(text@.take(i + 1));
        }
        match hex_digit(chars[i]) {
            Some(unit) => {
                value = value * 16 + unit;
            },
            None => {
                proof {
                    lemma_hex_prefix(text@, i + 1);
                }
                return None;
            },
        }
        i = i + 1;
    }
    assert(text@.take(len as int) =~= text@);
    Some(value as u16)
}

/// The numbers that a row of words stands for.
pub open spec fn word_values(words: Seq<u16>) -> Seq<nat> {
    Seq::new(words.len(), |i: int| words[i] as nat)
}

proof fn lemma_group_values_prefix(parts: Seq<Seq<char>>, count: int)
    requires
        0 <= count <= parts.len(),
        group_values(parts.take(count)) is None,
    ensures
        group_values(parts) is None,
    decreases parts.len() - count,
{
    if count < parts.len() {
        assert(parts.take(count + 1).drop_last() =~= parts.take(count));
        lemma_group_values_prefix(parts, count + 1);
    } else {
        assert(parts.take(count) =~= parts);
    }
}

fn groups(parts: &Vec<&str>, count: usize) -> (r: Option<Vec<u16>>)
    requires
        count <= parts.len(),
    ensures
        match r {
            Some(words) => group_values(crate::text::views(parts@).take(count as int)) == Some(
                word_values(words@),
            ),
            None => group_values(crate::text::views(parts@).take(count as int)) is None,
        },
{
    let ghost pieces = crate::text::views(parts@).take(count as int);
    let mut words: Vec<u16> = Vec::new();
    let mut i: usize = 0;
    assert(pieces.take(0) =~= Seq::empty());
    assert(word_values(words@) =~= Seq::empty());
    while i < count
        invariant
            count <= parts.len(),
            i <= count,
            pieces == crate::text::views(parts@).take(count as int),
            group_values(pieces.take(i as int)) == Some(word_values(words@)),
        decreases count - i,
    {
        proof {
            assert(pieces.take(i + 1).drop_last() =~= pieces.take(i as int));
            assert(pieces.take(i + 1).last() == parts@[i as int]@);
        }
        match group(parts[i]) {
            Some(word) => {
                let ghost before = word_values(words@);
                words.push(word);
                assert(word_values(words@) =~= before.push(word as nat));
            },
            None => {
                proof {
                    lemma_group_values_prefix(pieces, i + 1);
                }
                return None;
            },
        }
        i = i + 1;
    }
    assert(pieces.take(count as int) =~= pieces);
    Some(words)
}

fn row(text: &str, with_ipv4: bool) -> (r: Option<Vec<u16>>)
    ensures
        match r {
            Some(words) => row_values(text@, with_ipv4) == Some(word_values(words@)),
            None => row_values(text@, with_ipv4) is None,
        },
{
    if text.is_empty() {
        let words: Vec<u16> = Vec::new();
        assert(word_values(words@) =~= Seq::empty());
        return Some(words);
    }
    let parts: Vec<&str> = split_at_each(text, ':');
    let count: usize = parts.len();
    let ghost pieces = crate::text::split(text@, ':');
    assert(crate::text::views(parts@) == pieces);
    assert(pieces.take(count as int) =~= pieces);
    assert(pieces.take(count - 1) =~= pieces.drop_last());
    assert(pieces.last() == parts@[count - 1]@);
    if with_ipv4 {
        match parse_ipv4(parts[count - 1]) {
            Some(bits) => {
                match groups(&parts, count - 1) {
                    Some(front) => {
                        let mut words: Vec<u16> = front;
                        let ghost before = word_values(words@);
                        let high: u16 = (bits / 65536) as u16;
                        let low: u16 = (bits % 65536) as u16;
                        words.push(high);
                        words.push(low);
                        assert(word_values(words@) =~= before.push(high as nat).push(low as nat));
                        return Some(words);
                    },
                    None => {
                        return None;
                    },
                }
            },
            None => {},
        }
    }
    groups(&parts, count)
}

fn find_double_colon(text: &str) -> (r: Option<usize>)
    ensures
        match r {
            Some(at) => double_colon(text@, 0) == Some(at as int) && at + 2 <= text@.len(),
            None => double_colon(text@, 0) is None,
        },
{
    let chars: Vec<char> = chars_of(text);
    let len: usize = chars.len();
    let mut i: usize = 0;
    while i < len && len - i >= 2
        invariant
            chars@ == text@,
            len == chars.len(),
            i <= len,
            double_colon(text@, 0) == double_colon(text@, i as int),
        decreases len - i,
    {
        if chars[i] == ':' && chars[i + 1] == ':' {
            return Some(i);
        }
        i = i + 1;
    }
    None
}

fn bits_of(words: &Vec<u16>) -> (r: u128)
    requires
        words@.len() <= 8,
    ensures
        r == groups_bits(word_values(words@)),
{
    let mut bits: u128 = 0;
    let mut i: usize = 0;
    let ghost values = word_values(words@);
    assert(values.take(0) =~= Seq::empty());
    while i < words.len()
        invariant
            words@.len() <= 8,
            i <= words.len(),
            values == word_values(words@),
            bits == groups_bits(values.take(i as int)),
        decreases words.len() - i,
    {
        proof {
            assert(values.take(i + 1).drop_last() =~= values.take(i as int));
            assert(values.take(i + 1).last() == words@[i as int] as nat);
            lemma_groups_bound(values.take(i + 1));
        }
        bits = bits * 65536 + words[i] as u128;
        i = i + 1;
    }
    assert(values.take(values.len() as int) =~= values);
    bits
}

/// Reads an IPv6 address.
pub fn parse_ipv6(text: &str) -> (r: Option<u128>)
    ensures
        match r {
            Some(bits) => ipv6_value(text@) == Some(bits as nat),
            None => ipv6_value(text@) is None,
        },
{
    match find_double_colon(text) {
        None => {
            match row(text, true) {
                Some(words) => {
                    if words.len() == 8 {
                        Some(bits_of(&words))
                    } else {
                        None
                    }
                },
                None => None,
            }
        },
        Some(at) => {
            let len: usize = text.unicode_len();
            assert(text@.subrange(0, at as int) =~= text@.take(at as int));
            assert(text@.subrange(at + 2, len as int) =~= text@.skip(at + 2));
            let head: Option<Vec<u16>> = row(text.substring_char(0, at), false);
            let tail: Option<Vec<u16>> = row(text.substring_char(at + 2, len), true);
            match (head, tail) {
                (Some(front), Some(back)) => {
                    let front_len: usize = front.len();
                    let back_len: usize = back.len();
                    if front_len > 7 || back_len > 7 - front_len {
                        return None;
                    }
                    let mut words: Vec<u16> = front;
                    let ghost first = words@;
                    let missing: usize = 8 - front_len - back_len;
                    let mut i: usize = 0;
                    while i < missing
                        invariant
                            i <= missing,
                            words@.len() == first.len() + i,
                            word_values(words@) == word_values(first) + zero_groups(i as nat),
                        decreases missing - i,
                    {
                        let ghost before = word_values(words@);
                        words.push(0);
                        assert(word_values(words@) =~= before.push(0));
                        assert(zero_groups((i + 1) as nat) =~= zero_groups(i as nat).push(0));
                        i = i + 1;
                        assert(word_values(words@) =~= word_values(first) + zero_groups(i as nat));
                    }
                    let mut j: usize = 0;
                    assert(word_values(back@).take(0) =~= Seq::empty());
                    while j < back_len
                        invariant
                            j <= back_len,
                            back_len == back@.len(),
                            words@.len() == first.len() + missing + j,
                            word_values(words@) == word_values(first) + zero_groups(missing as nat)
                                + word_values(back@).take(j as int),
                        decreases back_len - j,
                    {
                        let ghost before = word_values(words@);
                        words.push(back[j]);
                        assert(word_values(words@) =~= before.push(back@[j as int] as nat));
                        assert(word_values(back@).take(j + 1) =~= word_values(back@).take(
                            j as int,
                        ).push(back@[j as int] as nat));
                        j = j + 1;
                        assert(word_values(words@) =~= word_values(first) + zero_groups(
                            missing as nat,
                        ) + word_values(back@).take(j as int));
                    }
                    assert(word_values(back@).take(back_len as int) =~= word_values(back@));
                    Some(bits_of(&words))
                },
                _ => None,
            }
        },
    }
}

/// Reads an IPv4 or IPv6 address.
pub fn parse_ip_address(text: &str) -> (r: Option<IpAddress>)
    ensures
        r == ip_address_of(text@),
{
    match parse_ipv4(text) {
        Some(bits) => Some(IpAddress::V4(bits)),
        None => match parse_ipv6(text) {
            Some(bits) => Some(IpAddress::V6(bits)),
            None => None,
        },
    }
}

fn parse_scoped_ipv6(text: &str) -> (r: Option<(u128, u32)>)
    ensures
        match r {
            Some((bits, scope)) => scoped_ipv6(text@) == Some((bits as nat, scope as nat)),
            None => scoped_ipv6(text@) is None,
        },
{
    let parts: Vec<&str> = split_at_each(text, '%');
    let ghost pieces = crate::text::split(text@, '%');
    assert(crate::text::views(parts@) == pieces);
    assert(pieces[0] == parts@[0]@);
    if parts.len() == 1 {
        match parse_ipv6(parts[0]) {
            Some(bits) => Some((bits, 0)),
            None => None,
        }
    } else if parts.len() == 2 {
        assert(pieces[1] == parts@[1]@);
        match (parse_ipv6(parts[0]), digits_to_number(parts[1], 0xffff_ffff)) {
            (Some(bits), Some(scope)) => Some((bits, scope as u32)),
            _ => None,
        }
    } else {
        None
    }
}

fn parse_socket_v4(text: &str) -> (r: Option<SocketAddress>)
    ensures
        r == socket_v4_of(text@),
{
    let parts: Vec<&str> = split_at_each(text, ':');
    let ghost pieces = crate::text::split(text@, ':');
    assert(crate::text::views(parts@) == pieces);
    if parts.len() != 2 {
        return None;
    }
    assert(pieces[0] == parts@[0]@ && pieces[1] == parts@[1]@);
    match (parse_ipv4(parts[0]), digits_to_number(parts[1], 65535)) {
        (Some(bits), Some(port)) => Some(
            SocketAddress { ip: IpAddress::V4(bits), port: port as u16, scope_id: 0 },
        ),
        _ => None,
    }
}

fn parse_socket_v6(text: &str) -> (r: Option<SocketAddress>)
    ensures
        r == socket_v6_of(text@),
{
    let parts: Vec<&str> = split_at_each(text, ']');
    let ghost pieces = crate::text::split(text@, ']');
    assert(crate::text::views(parts@) == pieces);
    if parts.len() != 2 {
        return None;
    }
    assert(pieces[0] == parts@[0]@ && pieces[1] == parts@[1]@);
    let host: &str = parts[0];
    let service: &str = parts[1];
    if host.is_empty() || service.is_empty() {
        return None;
    }
    if host.get_char(0) != '[' || service.get_char(0) != ':' {
        return None;
    }
    let host_len: usize = host.unicode_len();
    let service_len: usize = service.unicode_len();
    assert(host@.subrange(1, host_len as int) =~= host@.drop_first());
    assert(service@.subrange(1, service_len as int) =~= service@.drop_first());
    match (
        parse_scoped_ipv6(host.substring_char(1, host_len)),
        digits_to_number(service.substring_char(1, service_len), 65535),
    ) {
        (Some((bits, scope)), Some(port)) => Some(
            SocketAddress { ip: IpAddress::V6(bits), port: port as u16, scope_id: scope },
        ),
        _ => None,
    }
}

/// Reads a socket address.
pub fn parse_socket_address(text: &str) -> (r: Option<SocketAddress>)
    ensures
        r == socket_address_of(text@),
{
    match parse_socket_v4(text) {
        Some(address) => Some(address),
        None => parse_socket_v6(text),
    }
}

} // verus!
