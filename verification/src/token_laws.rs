//! What holds of session tokens and of the claims in them.
use crate::claims::JsonScalar;
use crate::claims::JsonScalarView;
use crate::claims::Members;
use crate::claims::TokenClaims;
use crate::clock::Reading;
use crate::token::AuthIdentity;
use vstd::prelude::*;

verus! {

// ---------------------------------------------------------------------------
// Tokens.
// ---------------------------------------------------------------------------
/// A token that is issued at a time expires a day of 86400 seconds later.
pub proof fn law_tokens_expire_after_a_day(issued_at: int)
    requires
        0 <= issued_at,
        issued_at + 86_400 <= usize::MAX,
    ensures
        crate::token::expiry(issued_at) - issued_at == 86_400,
{
}

/// A token names its holder up to sixty seconds after its expiry, and nobody
/// from then on; whoever is named is the holder, unchanged.
pub proof fn law_holders_are_named_until_the_expiry(identity: AuthIdentity, now: i64)
    ensures
        now - identity.expires_at <= 60 ==> crate::token::valid_at(Some(identity), now) == Some(
            identity,
        ),
        now - identity.expires_at > 60 ==> crate::token::valid_at(Some(identity), now) is None,
        crate::token::valid_at(None, now) is None,
{
}

/// Who is recognised is the holder of the token, unchanged, and then the clock
/// showed no more than sixty seconds past the expiry when it was looked at;
/// who is not recognised is nobody, or then the clock showed more.
pub proof fn law_the_clock_decides_who_is_recognised(
    named: Option<AuthIdentity>,
    accepted: Option<AuthIdentity>,
)
    requires
        crate::token::recognised(named, accepted),
    ensures
        accepted is Some ==> named == accepted && exists|reading: Reading|
            0 <= (#[trigger] reading.seconds()) <= accepted->0.expires_at + 60,
        accepted is None && named is Some ==> exists|reading: Reading|
            (#[trigger] reading.seconds()) > named->0.expires_at + 60,
{
    if named is Some {
        let reading = choose|reading: Reading|
            crate::token::is_reading(reading.seconds()) && accepted
                == #[trigger] crate::token::valid_at(named, reading.seconds());
        assert(accepted == crate::token::valid_at(named, reading.seconds()));
        assert(reading.seconds() >= 0);
    }
}

/// The user who is recognised is the holder of the token, and then the clock
/// showed no more than sixty seconds past the expiry when it was looked at.
pub proof fn law_the_clock_decides_which_user_is_recognised(
    named: Option<AuthIdentity>,
    accepted: Option<i32>,
)
    requires
        crate::token::recognised_user(named, accepted),
    ensures
        accepted is Some ==> named is Some && named->0.user_id == accepted->0 && exists|
            reading: Reading,
        | 0 <= (#[trigger] reading.seconds()) <= named->0.expires_at + 60,
        accepted is None && named is Some ==> exists|reading: Reading|
            (#[trigger] reading.seconds()) > named->0.expires_at + 60,
{
    if named is Some {
        let reading = choose|reading: Reading|
            crate::token::is_reading(reading.seconds()) && accepted == crate::token::user_of(
                #[trigger] crate::token::valid_at(named, reading.seconds()),
            );
        assert(accepted == crate::token::user_of(
            crate::token::valid_at(named, reading.seconds()),
        ));
        assert(reading.seconds() >= 0);
    }
}

/// The user of an identity is the one in it.
pub proof fn law_identities_have_their_user(identity: AuthIdentity)
    ensures
        crate::token::user_of(Some(identity)) == Some(identity.user_id),
        crate::token::user_of(None) is None,
{
}

/// What is left of a lifetime reaches from the present to the expiry, and is
/// nothing past it. A time that `usize` cannot hold counts as the epoch.
pub proof fn law_lifetimes_reach_the_expiry(identity: AuthIdentity, now: i64)
    ensures
        0 <= now <= usize::MAX && now <= identity.expires_at ==> now + crate::token::seconds_left(
            identity,
            now,
        ) == identity.expires_at,
        0 <= now <= usize::MAX && now > identity.expires_at ==> crate::token::seconds_left(
            identity,
            now,
        ) == 0,
        now < 0 || now > usize::MAX ==> crate::token::seconds_left(identity, now)
            == identity.expires_at,
{
}

/// Only a signed token names somebody: the user and the expiry in its claims.
pub proof fn law_only_signed_tokens_name_somebody(token: Seq<char>, secret: Seq<char>)
    ensures
        match crate::token::token_identity(token, secret) {
            Some(identity) => crate::token::is_signed(token, secret) && crate::token::claims_of(token)
                == Some((TokenClaims { sub: identity.user_id, exp: identity.expires_at as u64 })),
            None => !crate::token::is_signed(token, secret) || crate::token::claims_of(token)
                is None || crate::token::claims_of(token)->0.exp > usize::MAX,
        },
{
}

/// The claims of a token are in the second of its three parts, and a text of
/// any other number of parts has none.
pub proof fn law_claims_are_in_the_second_part(
    first: Seq<char>,
    second: Seq<char>,
    third: Seq<char>,
    token: Seq<char>,
)
    requires
        !first.contains('.'),
        !second.contains('.'),
        !third.contains('.'),
    ensures
        crate::token::payload_of(first + seq!['.'] + (second + seq!['.'] + third))
            == crate::crypto::base64url_decoded(second),
        crate::token::claims_of(first + seq!['.'] + (second + seq!['.'] + third)) == (
        match crate::crypto::base64url_decoded(second) {
            Some(bytes) => crate::claims::claims_in(bytes),
            None => None,
        }),
        crate::token::payload_of(first) is None,
        crate::token::payload_of(first + seq!['.'] + second) is None,
        crate::token::payload_of(
            first + seq!['.'] + (second + seq!['.'] + (third + seq!['.'] + token)),
        ) is None,
{
    crate::text::lemma_split_without_separator(first, '.');
    crate::text::lemma_split_without_separator(second, '.');
    crate::text::lemma_split_without_separator(third, '.');
    crate::text::lemma_split_join(second, third, '.');
    crate::text::lemma_split_join(first, second, '.');
    crate::text::lemma_split_join(first, second + seq!['.'] + third, '.');
    let parts = crate::text::split(first + seq!['.'] + (second + seq!['.'] + third), '.');
    assert(parts =~= seq![first, second, third]);
    crate::text::lemma_split_nonempty(token, '.');
    crate::text::lemma_split_join(third, token, '.');
    crate::text::lemma_split_join(second, third + seq!['.'] + token, '.');
    crate::text::lemma_split_join(first, second + seq!['.'] + (third + seq!['.'] + token), '.');
}

/// Tokens are signed with the configured secret as it is, white space around it
/// included, and with the local one where none is configured or it is blank.
pub proof fn law_the_configured_secret_signs(secret: Seq<char>)
    ensures
        crate::text_laws::is_blank(secret) ==> crate::token::signing_secret(Some(secret))
            == "devbit-local-secret"@,
        !crate::text_laws::is_blank(secret) ==> crate::token::signing_secret(Some(secret))
            == secret,
        crate::token::signing_secret(None) == "devbit-local-secret"@,
{
    crate::text_laws::lemma_blank_trims_to_nothing(secret);
}

/// A token is made of letters, digits, hyphens, underscores and dots, and of
/// nothing else.
pub proof fn law_tokens_are_plain_text(token: Seq<char>, c: char)
    ensures
        crate::token::is_token_text(token) <==> token.len() > 0 && (forall|i: int|
            0 <= i < token.len() ==> is_plain(#[trigger] token[i])),
        crate::crypto::is_base64url_char(c) <==> is_plain(c) && c != '.',
{
    if crate::token::is_token_text(token) {
        assert forall|i: int| 0 <= i < token.len() implies is_plain(#[trigger] token[i]) by {
            assert(crate::crypto::is_base64url_char(token[i]) || token[i] == '.');
        }
    }
    if token.len() > 0 && (forall|i: int| 0 <= i < token.len() ==> is_plain(#[trigger] token[i])) {
        assert forall|i: int| 0 <= i < token.len() implies crate::crypto::is_base64url_char(
            #[trigger] token[i],
        ) || token[i] == '.' by {
            assert(is_plain(token[i]));
        }
    }
}

/// A letter or digit of ASCII, a hyphen, an underscore or a dot.
pub open spec fn is_plain(c: char) -> bool {
    ||| '0' <= c <= '9'
    ||| 'A' <= c <= 'Z'
    ||| 'a' <= c <= 'z'
    ||| c == '-'
    ||| c == '.'
    ||| c == '_'
}

/// Base64 without padding takes four characters for three bytes, two for a
/// single one, and three for two.
pub proof fn law_base64_takes_four_for_three(groups: nat)
    ensures
        crate::crypto::base64url_length(3 * groups) == 4 * groups,
        crate::crypto::base64url_length(3 * groups + 1) == 4 * groups + 2,
        crate::crypto::base64url_length(3 * groups + 2) == 4 * groups + 3,
{
}

// ---------------------------------------------------------------------------
// Claims.
// ---------------------------------------------------------------------------
/// Bytes of JSON white space alone.
pub open spec fn is_spacing(bytes: Seq<u8>) -> bool {
    forall|i: int|
        0 <= i < bytes.len() ==> (#[trigger] bytes[i] == 9 || bytes[i] == 10 || bytes[i] == 13
            || bytes[i] == 32)
}

/// JSON white space in front of something else is skipped, and nothing else is.
pub proof fn law_json_space_is_skipped(space: Seq<u8>, rest: Seq<u8>)
    requires
        is_spacing(space),
        rest.len() > 0 ==> rest[0] != 9 && rest[0] != 10 && rest[0] != 13 && rest[0] != 32,
    ensures
        crate::claims::past_space(space + rest) == rest,
    decreases space.len(),
{
    if space.len() == 0 {
        assert(space + rest =~= rest);
    } else {
        assert((space + rest)[0] == space[0]);
        assert((space + rest).drop_first() =~= space.drop_first() + rest);
        assert forall|i: int| 0 <= i < space.drop_first().len() implies (
        #[trigger] space.drop_first()[i] == 9 || space.drop_first()[i] == 10
            || space.drop_first()[i] == 13 || space.drop_first()[i] == 32) by {
            assert(space.drop_first()[i] == space[i + 1]);
        }
        law_json_space_is_skipped(space.drop_first(), rest);
    }
}

/// A mark is found behind white space, and what follows it stays as it is;
/// where something else stands there, no mark is found.
pub proof fn law_marks_are_found_behind_space(space: Seq<u8>, mark: u8, rest: Seq<u8>, other: u8)
    requires
        is_spacing(space),
        mark != 9 && mark != 10 && mark != 13 && mark != 32,
        other != mark,
    ensures
        crate::claims::past_mark(space + seq![mark] + rest, mark) == Some(rest),
        crate::claims::past_mark(space + seq![mark] + rest, other) is None,
        crate::claims::past_mark(space, mark) is None,
{
    law_json_space_is_skipped(space, seq![mark] + rest);
    assert(space + seq![mark] + rest =~= space + (seq![mark] + rest));
    assert((seq![mark] + rest).drop_first() =~= rest);
    law_json_space_is_skipped(space, Seq::empty());
    assert(space + Seq::<u8>::empty() =~= space);
}

/// A member is a name in quotes, a colon and a value.
pub proof fn law_members_are_named_values(
    name: Seq<u8>,
    text: Seq<char>,
    space: Seq<u8>,
    value: Seq<u8>,
    rest: Seq<u8>,
)
    requires
        is_spacing(space),
        name.len() > 0,
        value.len() > 0,
        crate::claims::json_value_length(name + space + seq![0x3au8] + (value + rest)) == Some(
            name.len(),
        ),
        crate::claims::json_scalar_of(name) == Some(JsonScalarView::Text(text)),
        crate::claims::json_value_length(value + rest) == Some(value.len()),
    ensures
        crate::claims::first_member(name + space + seq![0x3au8] + (value + rest)) == Some(
            (text, value, rest),
        ),
{
    let whole = name + space + seq![0x3au8] + (value + rest);
    assert(whole.take(name.len() as int) =~= name);
    assert(whole.skip(name.len() as int) =~= space + seq![0x3au8] + (value + rest));
    law_marks_are_found_behind_space(space, 0x3a, value + rest, 0x2c);
    assert((value + rest).take(value.len() as int) =~= value);
    assert((value + rest).skip(value.len() as int) =~= rest);
}

/// The members of an object are read one after another, with commas between
/// them, up to the closing brace, behind which only white space may stand.
pub proof fn law_members_are_read_in_order(
    bytes: Seq<u8>,
    members: Members,
    name: Seq<char>,
    value: Seq<u8>,
    space: Seq<u8>,
    more: Seq<u8>,
    end: Seq<u8>,
    stray: u8,
)
    requires
        is_spacing(space),
        is_spacing(end),
        more.len() < bytes.len(),
        stray != 9 && stray != 10 && stray != 13 && stray != 32,
    ensures
        crate::claims::first_member(bytes) == Some((name, value, space + seq![0x2cu8] + more))
            ==> crate::claims::members_from(bytes, members) == (match crate::claims::with_member(
            members,
            name,
            value,
        ) {
            Some(longer) => crate::claims::members_from(more, longer),
            None => None,
        }),
        crate::claims::first_member(bytes) == Some((name, value, space + seq![0x7du8] + end))
            ==> crate::claims::members_from(bytes, members) == crate::claims::with_member(
            members,
            name,
            value,
        ),
        crate::claims::first_member(bytes) == Some(
            (name, value, space + seq![0x7du8] + (end + seq![stray] + more)),
        ) ==> crate::claims::members_from(bytes, members) is None,
        stray != 0x2c && stray != 0x7d && crate::claims::first_member(bytes) == Some(
            (name, value, space + seq![stray] + more),
        ) ==> crate::claims::members_from(bytes, members) is None,
        crate::claims::first_member(bytes) is None ==> crate::claims::members_from(bytes, members)
            is None,
{
    law_marks_are_found_behind_space(space, 0x2c, more, 0x7d);
    law_marks_are_found_behind_space(space, 0x7d, end, 0x2c);
    law_marks_are_found_behind_space(space, 0x7d, end + seq![stray] + more, 0x2c);
    law_json_space_is_skipped(end, Seq::empty());
    assert(end + Seq::<u8>::empty() =~= end);
    law_json_space_is_skipped(end, seq![stray] + more);
    assert(end + seq![stray] + more =~= end + (seq![stray] + more));
    if stray != 0x2c && stray != 0x7d {
        law_marks_are_found_behind_space(space, stray, more, 0x2c);
        law_marks_are_found_behind_space(space, stray, more, 0x7d);
    }
}

/// The member `sub` has to be an integer of 32 bits, `email` a text or nothing,
/// `exp` an unsigned integer of 64 bits, each only once; any other member
/// changes nothing.
pub proof fn law_three_members_are_read(
    members: Members,
    name: Seq<char>,
    value: Seq<u8>,
    number: i64,
    count: u64,
    text: Seq<char>,
    width: Option<u64>,
    signed: Option<i64>,
)
    ensures
        crate::claims::json_scalar_of(value) == Some(JsonScalarView::Number(width, Some(number)))
            ==> crate::claims::with_member(members, "sub"@, value) == (if members.sub is None
            && -0x8000_0000 <= number <= 0x7fff_ffff {
            Some(Members { sub: Some(number as i32), email: members.email, exp: members.exp })
        } else {
            None
        }),
        crate::claims::json_scalar_of(value) == Some(JsonScalarView::Number(Some(count), signed))
            ==> crate::claims::with_member(members, "exp"@, value) == (if members.exp is None {
            Some(Members { sub: members.sub, email: members.email, exp: Some(count) })
        } else {
            None
        }),
        crate::claims::json_scalar_of(value) == Some(JsonScalarView::Text(text))
            || crate::claims::json_scalar_of(value) == Some(JsonScalarView::Null)
            ==> crate::claims::with_member(members, "email"@, value) == (if !members.email {
            Some(Members { sub: members.sub, email: true, exp: members.exp })
        } else {
            None
        }),
        crate::claims::json_scalar_of(value) is None || !(crate::claims::json_scalar_of(value)->0
            is Number) ==> crate::claims::with_member(members, "sub"@, value) is None
            && crate::claims::with_member(members, "exp"@, value) is None,
        crate::claims::json_scalar_of(value) == Some(JsonScalarView::Number(width, None))
            ==> crate::claims::with_member(members, "sub"@, value) is None,
        crate::claims::json_scalar_of(value) == Some(JsonScalarView::Number(None, signed))
            ==> crate::claims::with_member(members, "exp"@, value) is None,
        crate::claims::json_scalar_of(value) is None || crate::claims::json_scalar_of(value)->0
            is Number || crate::claims::json_scalar_of(value)->0 is Other
            ==> crate::claims::with_member(members, "email"@, value) is None,
        name != "sub"@ && name != "email"@ && name != "exp"@ ==> crate::claims::with_member(
            members,
            name,
            value,
        ) == Some(members),
{
    reveal_strlit("sub");
    reveal_strlit("email");
    reveal_strlit("exp");
    assert("sub"@.len() != "email"@.len());
    assert("exp"@.len() != "email"@.len());
    assert("sub"@[0] != "exp"@[0]);
}

/// The claims are those of the members of an object that has both a user and an
/// expiry; without a brace there is no object.
pub proof fn law_claims_are_an_object(space: Seq<u8>, rest: Seq<u8>, other: u8)
    requires
        is_spacing(space),
        other != 0x7b && other != 9 && other != 10 && other != 13 && other != 32,
    ensures
        ({
            let members = crate::claims::members_from(
                rest,
                Members { sub: None, email: false, exp: None },
            );
            match crate::claims::claims_in(space + seq![0x7bu8] + rest) {
                Some(claims) => members is Some && members->0.sub == Some(claims.sub)
                    && members->0.exp == Some(claims.exp),
                None => members is None || members->0.sub is None || members->0.exp is None,
            }
        }),
        crate::claims::claims_in(space + seq![other] + rest) is None,
        crate::claims::claims_in(space) is None,
{
    law_marks_are_found_behind_space(space, 0x7b, rest, 0);
    law_marks_are_found_behind_space(space, other, rest, 0x7b);
}

/// What a scalar says is what it holds.
pub proof fn law_scalars_say_what_they_hold(scalar: JsonScalar)
    ensures
        match scalar {
            JsonScalar::Null => scalar@ == JsonScalarView::Null,
            JsonScalar::Text(text) => scalar@ == JsonScalarView::Text(text@),
            JsonScalar::Number(unsigned, signed) => scalar@ == JsonScalarView::Number(
                unsigned,
                signed,
            ),
            JsonScalar::Other => scalar@ == JsonScalarView::Other,
        },
{
}

} // verus!
