//! Password hashes.
//!
//! A stored hash is `pbkdf2-sha256$iterations$salt$digest`, with the salt and
//! the digest in unpadded URL-safe Base64. Any other stored value is a legacy
//! password in plain text.
use crate::crypto::base64url_decode;
use crate::crypto::base64url_encode;
use crate::crypto::hmac_sha256;
use crate::crypto::random_salt;
use crate::crypto::sha256;
use crate::crypto::Salt;
use crate::crypto::HMAC_BLOCK_BYTES;
use crate::text::decimal_text;
use crate::text::parse_decimal;
use crate::text::same_text;
use crate::text::split_at_each;
use crate::text::starts_with;
use vstd::prelude::*;
use vstd::slice::slice_to_vec;
use vstd::string::StringExecFns;

verus! {

/// The first field of a stored hash.
pub const PASSWORD_HASH_PREFIX: &'static str = "pbkdf2-sha256";

/// The number of iterations of a new hash.
pub const PASSWORD_HASH_ITERATIONS: u32 = 100_000;

/// The greatest number of iterations that a stored hash may ask for.
pub const MAX_PASSWORD_HASH_ITERATIONS: u32 = 1_000_000;

/// The longest password, in bytes, that is accepted.
pub const MAX_PASSWORD_BYTES: usize = 1_024;

/// The length of a salt in bytes.
pub const PASSWORD_SALT_BYTES: usize = 16;

/// The length of a digest in bytes.
pub const PASSWORD_HASH_BYTES: usize = 32;

// ---------------------------------------------------------------------------
// Key derivation.
// ---------------------------------------------------------------------------
/// The four bytes of `n`, most significant first.
pub open spec fn big_endian(n: u32) -> Seq<u8> {
    seq![
        (n / 0x100_0000) as u8,
        (n / 0x1_0000 % 0x100) as u8,
        (n / 0x100 % 0x100) as u8,
        (n % 0x100) as u8,
    ]
}

/// Two rows of bytes combined by exclusive or.
pub open spec fn xor(a: Seq<u8>, b: Seq<u8>) -> Seq<u8> {
    Seq::new(a.len(), |i: int| a[i] ^ b[i])
}

/// The code that results from applying the code under `password` to `first`
/// a number of times.
pub open spec fn chained(password: Seq<u8>, first: Seq<u8>, times: nat) -> Seq<u8>
    decreases times,
{
    if times == 0 {
        first
    } else {
        crate::crypto::hmac_sha256_of(password, chained(password, first, (times - 1) as nat))
    }
}

/// The codes of a chain up to `times`, combined by exclusive or.
pub open spec fn folded(password: Seq<u8>, first: Seq<u8>, times: nat) -> Seq<u8>
    decreases times,
{
    if times == 0 {
        first
    } else {
        xor(folded(password, first, (times - 1) as nat), chained(password, first, times))
    }
}

/// The block of the derived key with the given number, counted from one.
pub open spec fn derived_block(
    password: Seq<u8>,
    salt: Seq<u8>,
    iterations: u32,
    number: u32,
) -> Seq<u8> {
    let first = crate::crypto::hmac_sha256_of(password, salt + big_endian(number));
    folded(
        password,
        first,
        if iterations == 0 {
            0
        } else {
            (iterations - 1) as nat
        },
    )
}

/// The key of `length` bytes that PBKDF2 with HMAC-SHA-256 derives.
pub open spec fn derived_key(
    password: Seq<u8>,
    salt: Seq<u8>,
    iterations: u32,
    length: nat,
) -> Seq<u8> {
    Seq::new(
        length,
        |i: int| derived_block(password, salt, iterations, (i / 32 + 1) as u32)[i % 32],
    )
}

fn joined(a: &[u8], b: &[u8]) -> (r: Vec<u8>)
    ensures
        r@ == a@ + b@,
{
    let mut bytes: Vec<u8> = slice_to_vec(a);
    let mut more: Vec<u8> = slice_to_vec(b);
    bytes.append(&mut more);
    bytes
}

fn big_endian_bytes(n: u32) -> (r: Vec<u8>)
    ensures
        r@ == big_endian(n),
{
    let bytes: Vec<u8> = vec![
        (n / 0x100_0000) as u8,
        (n / 0x1_0000 % 0x100) as u8,
        (n / 0x100 % 0x100) as u8,
        (n % 0x100) as u8,
    ];
    assert(bytes@ =~= big_endian(n));
    bytes
}

fn xor_into(target: &mut Vec<u8>, bytes: &Vec<u8>)
    requires
        old(target)@.len() == bytes@.len(),
    ensures
        final(target)@ == xor(old(target)@, bytes@),
{
    let ghost start = target@;
    let mut i: usize = 0;
    while i < bytes.len()
        invariant
            start.len() == bytes@.len(),
            target@.len() == start.len(),
            i <= bytes@.len(),
            forall|j: int| 0 <= j < i ==> #[trigger] target@[j] == start[j] ^ bytes@[j],
            forall|j: int| i <= j < start.len() ==> #[trigger] target@[j] == start[j],
        decreases bytes@.len() - i,
    {
        let mixed: u8 = target[i] ^ bytes[i];
        target.set(i, mixed);
        i = i + 1;
    }
    assert(target@ =~= xor(start, bytes@));
}

/// A key that serves HMAC-SHA-256 as `password` does and is no longer than a
/// block, so that the length of the password is not multiplied by the number
/// of iterations.
fn mac_key(password: &[u8]) -> (r: Vec<u8>)
    ensures
        forall|message: Seq<u8>| #[trigger]
            crate::crypto::hmac_sha256_of(r@, message) == crate::crypto::hmac_sha256_of(
                password@,
                message,
            ),
        r@.len() <= HMAC_BLOCK_BYTES,
{
    if password.len() > HMAC_BLOCK_BYTES {
        let key: Vec<u8> = sha256(password);
        assert forall|message: Seq<u8>| #[trigger]
            crate::crypto::hmac_sha256_of(key@, message) == crate::crypto::hmac_sha256_of(
                password@,
                message,
            ) by {
            assert(crate::crypto::hmac_sha256_of(password@, message)
                == crate::crypto::hmac_sha256_of(key@, message));
        }
        key
    } else {
        slice_to_vec(password)
    }
}

fn block(
    key: &Vec<u8>,
    Ghost(password): Ghost<Seq<u8>>,
    salt: &[u8],
    iterations: u32,
    number: u32,
) -> (r: Vec<u8>)
    requires
        forall|message: Seq<u8>| #[trigger]
            crate::crypto::hmac_sha256_of(key@, message) == crate::crypto::hmac_sha256_of(
                password,
                message,
            ),
    ensures
        r@ == derived_block(password, salt@, iterations, number),
        r@.len() == 32,
{
    let counter: Vec<u8> = big_endian_bytes(number);
    let message: Vec<u8> = joined(salt, counter.as_slice());
    let mut code: Vec<u8> = hmac_sha256(key.as_slice(), message.as_slice());
    let mut result: Vec<u8> = code.clone();
    let ghost first = code@;
    assert(result@ =~= first);
    let mut done: u32 = 1;
    while done < iterations
        invariant
            forall|message: Seq<u8>| #[trigger]
                crate::crypto::hmac_sha256_of(key@, message) == crate::crypto::hmac_sha256_of(
                    password,
                    message,
                ),
            1 <= done,
            iterations > 0 ==> done <= iterations,
            iterations == 0 ==> done == 1,
            code@.len() == 32,
            result@.len() == 32,
            code@ == chained(password, first, (done - 1) as nat),
            result@ == folded(password, first, (done - 1) as nat),
        decreases iterations - done,
    {
        code = hmac_sha256(key.as_slice(), code.as_slice());
        xor_into(&mut result, &code);
        done = done + 1;
    }
    result
}

/// Derives a key of `length` bytes from a password by PBKDF2 with
/// HMAC-SHA-256.
pub fn pbkdf2_hmac_sha256(password: &[u8], salt: &[u8], iterations: u32, length: usize) -> (r: Vec<
    u8,
>)
    requires
        length <= 32 * 0xffff_ffff,
    ensures
        r@ == derived_key(password@, salt@, iterations, length as nat),
{
    let key: Vec<u8> = mac_key(password);
    let mut output: Vec<u8> = Vec::new();
    let mut number: u32 = 0;
    while output.len() < length
        invariant
            length <= 32 * 0xffff_ffff,
            forall|message: Seq<u8>| #[trigger]
                crate::crypto::hmac_sha256_of(key@, message) == crate::crypto::hmac_sha256_of(
                    password@,
                    message,
                ),
            output@.len() <= length,
            output@.len() < length ==> output@.len() == 32 * number,
            output@ == derived_key(password@, salt@, iterations, output@.len()),
        decreases length - output@.len(),
    {
        number = number + 1;
        let bytes: Vec<u8> = block(&key, Ghost(password@), salt, iterations, number);
        let ghost start = output@;
        let mut i: usize = 0;
        while i < 32 && output.len() < length
            invariant
                i <= 32,
                1 <= number,
                bytes@ == derived_block(password@, salt@, iterations, number),
                bytes@.len() == 32,
                output@.len() == 32 * (number - 1) + i,
                output@.len() <= length,
                output@ == derived_key(password@, salt@, iterations, output@.len()),
            decreases 32 - i,
        {
            let ghost at = output@.len() as int;
            output.push(bytes[i]);
            i = i + 1;
            proof {
                assert(at / 32 == number - 1) by (nonlinear_arith)
                    requires
                        at == 32 * (number - 1) + (i - 1),
                        1 <= i <= 32,
                ;
                assert(at % 32 == i - 1) by (nonlinear_arith)
                    requires
                        at == 32 * (number - 1) + (i - 1),
                        1 <= i <= 32,
                ;
                assert(output@ =~= derived_key(password@, salt@, iterations, output@.len()));
            }
        }
    }
    output
}

/// Whether two rows of bytes are the same, in a time that does not depend on
/// where they differ.
pub fn constant_time_eq(left: &[u8], right: &[u8]) -> (r: bool)
    ensures
        r == (left@ == right@),
{
    if left.len() != right.len() {
        return false;
    }
    let mut difference: u8 = 0;
    let mut i: usize = 0;
    while i < left.len()
        invariant
            left@.len() == right@.len(),
            i <= left@.len(),
            difference == 0 <==> (forall|j: int| 0 <= j < i ==> left@[j] == right@[j]),
        decreases left@.len() - i,
    {
        let a: u8 = left[i];
        let b: u8 = right[i];
        let before: u8 = difference;
        difference = difference | (a ^ b);
        assert((before | (a ^ b)) == 0 <==> before == 0 && a == b) by (bit_vector);
        i = i + 1;
    }
    assert(difference == 0 ==> left@ =~= right@);
    difference == 0
}

// ---------------------------------------------------------------------------
// Stored hashes.
// ---------------------------------------------------------------------------
/// The stored form of a password under a salt.
pub open spec fn stored_form(password: Seq<char>, salt: Seq<u8>) -> Seq<char> {
    PASSWORD_HASH_PREFIX@ + seq!['$'] + crate::text::decimal(PASSWORD_HASH_ITERATIONS as nat)
        + seq!['$'] + crate::crypto::base64url_encoded(salt) + seq!['$']
        + crate::crypto::base64url_encoded(
        derived_key(
            vstd::utf8::encode_utf8(password),
            salt,
            PASSWORD_HASH_ITERATIONS,
            PASSWORD_HASH_BYTES as nat,
        ),
    )
}

/// A stored value is the stored form of a password under some salt.
pub open spec fn is_hash_of(stored: Seq<char>, password: Seq<char>) -> bool {
    exists|salt: Seq<u8>|
        salt.len() == PASSWORD_SALT_BYTES && stored == #[trigger] stored_form(password, salt)
}

/// A stored value is the stored form of a password under a salt that was drawn
/// by chance.
pub open spec fn is_salted_hash_of(stored: Seq<char>, password: Seq<char>) -> bool {
    exists|salt: crate::crypto::Salt| stored == #[trigger] stored_form(password, salt.bytes())
}

/// The iterations, salt and digest that the fields of a stored hash give,
/// where all of them are well-formed.
pub open spec fn stored_fields(parts: Seq<Seq<char>>) -> Option<(u32, Seq<u8>, Seq<u8>)> {
    if parts.len() != 4 {
        None
    } else {
        match (
            crate::text::decimal_number(parts[1], u32::MAX as nat),
            crate::crypto::base64url_decoded(parts[2]),
            crate::crypto::base64url_decoded(parts[3]),
        ) {
            (Some(iterations), Some(salt), Some(digest)) => if 0 < iterations
                <= MAX_PASSWORD_HASH_ITERATIONS && salt.len() == PASSWORD_SALT_BYTES && digest.len()
                == PASSWORD_HASH_BYTES {
                Some((iterations as u32, salt, digest))
            } else {
                None
            },
            _ => None,
        }
    }
}

/// A password fits a stored value: the digest of the password is the stored
/// one or, where the value is no hash, the password is the value.
pub open spec fn password_matches(password: Seq<char>, stored: Seq<char>) -> bool {
    let parts = crate::text::split(stored, '$');
    if parts[0] != PASSWORD_HASH_PREFIX@ {
        password == stored
    } else {
        match stored_fields(parts) {
            Some((iterations, salt, digest)) => derived_key(
                vstd::utf8::encode_utf8(password),
                salt,
                iterations,
                PASSWORD_HASH_BYTES as nat,
            ) == digest,
            None => false,
        }
    }
}

/// The fields of a stored hash that any password fits: the salt and the digest
/// are complete.
pub open spec fn is_full_length(parts: Seq<Seq<char>>) -> bool {
    &&& parts.len() == 4
    &&& parts[2].len() == crate::crypto::base64url_length(PASSWORD_SALT_BYTES as nat)
    &&& parts[3].len() == crate::crypto::base64url_length(PASSWORD_HASH_BYTES as nat)
}

/// A stored value that should be replaced by a hash at the next login.
pub open spec fn needs_upgrade(stored: Seq<char>) -> bool {
    !PASSWORD_HASH_PREFIX@.is_prefix_of(stored)
}

/// Four fields without `$`, joined by `$`, are found again.
pub proof fn lemma_four_fields(a: Seq<char>, b: Seq<char>, c: Seq<char>, d: Seq<char>)
    requires
        !a.contains('$'),
        !b.contains('$'),
        !c.contains('$'),
        !d.contains('$'),
    ensures
        crate::text::split(
            a + seq!['$'] + b + seq!['$'] + c + seq!['$'] + d,
            '$',
        ) == seq![a, b, c, d],
{
    let ab = a + seq!['$'] + b;
    let abc = ab + seq!['$'] + c;
    crate::text::lemma_split_without_separator(a, '$');
    crate::text::lemma_split_without_separator(b, '$');
    crate::text::lemma_split_without_separator(c, '$');
    crate::text::lemma_split_without_separator(d, '$');
    crate::text::lemma_split_join(a, b, '$');
    crate::text::lemma_split_join(ab, c, '$');
    crate::text::lemma_split_join(abc, d, '$');
    assert(abc + seq!['$'] + d =~= a + seq!['$'] + b + seq!['$'] + c + seq!['$'] + d);
    assert(seq![a] + seq![b] + seq![c] + seq![d] =~= seq![a, b, c, d]);
}

/// The stored form of a password under a given salt. The password fits it, and
/// so does exactly any other that gives the same digest.
pub fn hash_password_with_salt(password: &str, salt: &[u8]) -> (r: String)
    ensures
        r@ == stored_form(password@, salt@),
        r@.len() == 65 + crate::crypto::base64url_length(salt@.len()),
        !needs_upgrade(r@),
        salt@.len() == PASSWORD_SALT_BYTES ==> forall|other: Seq<char>|
            #[trigger] password_matches(other, r@) <==> derived_key(
                vstd::utf8::encode_utf8(other),
                salt@,
                PASSWORD_HASH_ITERATIONS,
                PASSWORD_HASH_BYTES as nat,
            ) == derived_key(
                vstd::utf8::encode_utf8(password@),
                salt@,
                PASSWORD_HASH_ITERATIONS,
                PASSWORD_HASH_BYTES as nat,
            ),
{
    let digest: Vec<u8> = pbkdf2_hmac_sha256(
        password.as_bytes(),
        salt,
        PASSWORD_HASH_ITERATIONS,
        PASSWORD_HASH_BYTES,
    );
    proof {
        reveal_strlit("$");
        assert("$"@ =~= seq!['$']);
    }
    let mut stored: String = PASSWORD_HASH_PREFIX.to_owned();
    stored.append("$");
    stored.append(decimal_text(PASSWORD_HASH_ITERATIONS as u64).as_str());
    stored.append("$");
    let salt_text: String = base64url_encode(salt);
    stored.append(salt_text.as_str());
    stored.append("$");
    let digest_text: String = base64url_encode(digest.as_slice());
    stored.append(digest_text.as_str());
    proof {
        let prefix = PASSWORD_HASH_PREFIX@;
        let count = crate::text::decimal(PASSWORD_HASH_ITERATIONS as nat);
        reveal_strlit("pbkdf2-sha256");
        crate::text::lemma_decimal_round_trip(PASSWORD_HASH_ITERATIONS as nat);
        assert(count.len() == 6) by {
            reveal_with_fuel(crate::text::decimal, 7);
        }
        crate::text::lemma_decimal_number_of_decimal(
            PASSWORD_HASH_ITERATIONS as nat,
            u32::MAX as nat,
        );
        lemma_four_fields(prefix, count, salt_text@, digest_text@);
        assert(stored@ =~= stored_form(password@, salt@));
        assert(stored@.subrange(0, prefix.len() as int) =~= prefix);
    }
    stored
}

/// The stored form of a password under a random salt. The password fits it.
pub fn hash_password(password: &str) -> (r: String)
    ensures
        is_hash_of(r@, password@),
        is_salted_hash_of(r@, password@),
        r@.len() == 87,
        password_matches(password@, r@),
        !needs_upgrade(r@),
{
    let salt: Salt = random_salt();
    let stored: String = hash_password_with_salt(password, salt.as_slice());
    stored
}

/// Whether a password fits a stored value.
pub fn verify_password(password: &str, stored_hash: &str) -> (r: bool)
    ensures
        r == password_matches(password@, stored_hash@),
        r && crate::text::split(stored_hash@, '$')[0] == PASSWORD_HASH_PREFIX@ ==> is_full_length(
            crate::text::split(stored_hash@, '$'),
        ),
{
    let parts: Vec<&str> = split_at_each(stored_hash, '$');
    let ghost pieces = crate::text::split(stored_hash@, '$');
    assert(crate::text::views(parts@) == pieces);
    assert(pieces[0] == parts@[0]@);
    if !same_text(parts[0], PASSWORD_HASH_PREFIX) {
        return same_text(password, stored_hash);
    }
    if parts.len() != 4 {
        return false;
    }
    assert(pieces[1] == parts@[1]@ && pieces[2] == parts@[2]@ && pieces[3] == parts@[3]@);
    let iterations: u32 = match parse_decimal(parts[1], u32::MAX as u64) {
        Some(value) => {
            if value > 0 && value <= MAX_PASSWORD_HASH_ITERATIONS as u64 {
                value as u32
            } else {
                return false;
            }
        },
        None => {
            return false;
        },
    };
    let salt: Vec<u8> = match base64url_decode(parts[2]) {
        Some(value) => value,
        None => {
            return false;
        },
    };
    let expected: Vec<u8> = match base64url_decode(parts[3]) {
        Some(value) => value,
        None => {
            return false;
        },
    };
    if salt.len() != PASSWORD_SALT_BYTES || expected.len() != PASSWORD_HASH_BYTES {
        return false;
    }
    let actual: Vec<u8> = pbkdf2_hmac_sha256(
        password.as_bytes(),
        salt.as_slice(),
        iterations,
        expected.len(),
    );
    constant_time_eq(actual.as_slice(), expected.as_slice())
}

/// A stored value that is due for an upgrade is a plain password: it fits that
/// password and no other.
pub proof fn law_legacy_passwords_fit_literally(password: Seq<char>, stored: Seq<char>)
    requires
        needs_upgrade(stored),
    ensures
        password_matches(password, stored) <==> password == stored,
{
    let parts = crate::text::split(stored, '$');
    if parts[0] == PASSWORD_HASH_PREFIX@ {
        crate::text::lemma_split_first_is_prefix(stored, '$');
    }
}

/// A stored hash whose fields are malformed fits no password.
pub proof fn law_malformed_hashes_fit_nothing(password: Seq<char>, stored: Seq<char>)
    requires
        crate::text::split(stored, '$')[0] == PASSWORD_HASH_PREFIX@,
        stored_fields(crate::text::split(stored, '$')) is None,
    ensures
        !password_matches(password, stored),
{
}

/// Whether a stored value should be replaced by a hash at the next login.
pub fn password_needs_upgrade(stored_hash: &str) -> (r: bool)
    ensures
        r == needs_upgrade(stored_hash@),
{
    !starts_with(stored_hash, PASSWORD_HASH_PREFIX)
}

} // verus!
