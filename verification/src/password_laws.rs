//! What holds of key derivation and of stored passwords.
use vstd::prelude::*;

verus! {

// ---------------------------------------------------------------------------
// Key derivation.
// ---------------------------------------------------------------------------
/// The number of a block is written in four bytes, the most significant first.
pub proof fn law_numbers_are_written_in_four_bytes(n: u32)
    ensures
        ({
            let bytes = crate::password::big_endian(n);
            &&& bytes.len() == 4
            &&& bytes[0] * 0x100_0000 + bytes[1] * 0x1_0000 + bytes[2] * 0x100 + bytes[3] == n
        }),
{
    let top: u32 = n / 0x100_0000;
    let second: u32 = n / 0x1_0000 % 0x100;
    let third: u32 = n / 0x100 % 0x100;
    let low: u32 = n % 0x100;
    assert(top <= 0xff);
    assert(top as u8 == top && second as u8 == second && third as u8 == third && low as u8 == low);
    assert(top * 0x100_0000 + second * 0x1_0000 + third * 0x100 + low == n);
}

/// Combining by exclusive or keeps the length, works byte by byte, and undoes
/// itself.
pub proof fn law_exclusive_or_undoes_itself(a: Seq<u8>, b: Seq<u8>)
    requires
        a.len() == b.len(),
    ensures
        crate::password::xor(a, b).len() == a.len(),
        forall|i: int|
            0 <= i < a.len() ==> #[trigger] crate::password::xor(a, b)[i] == a[i] ^ b[i],
        crate::password::xor(crate::password::xor(a, b), b) == a,
{
    let mixed = crate::password::xor(a, b);
    assert forall|i: int| 0 <= i < a.len() implies #[trigger] crate::password::xor(mixed, b)[i]
        == a[i] by {
        let x: u8 = a[i];
        let y: u8 = b[i];
        assert((x ^ y) ^ y == x) by (bit_vector);
    }
    assert(crate::password::xor(mixed, b) =~= a);
}

/// The code of an iteration of PBKDF2, counted from one: the first is that of
/// the salt and the number of the block, each later one that of the code before
/// it.
pub open spec fn code_of(password: Seq<u8>, salt: Seq<u8>, number: u32, iteration: nat) -> Seq<u8>
    decreases iteration,
{
    if iteration <= 1 {
        crate::crypto::hmac_sha256_of(password, salt + crate::password::big_endian(number))
    } else {
        crate::crypto::hmac_sha256_of(
            password,
            code_of(password, salt, number, (iteration - 1) as nat),
        )
    }
}

/// A byte of the codes of the first iterations, combined by exclusive or.
pub open spec fn mixed_byte(
    password: Seq<u8>,
    salt: Seq<u8>,
    number: u32,
    iterations: nat,
    i: int,
) -> u8
    decreases iterations,
{
    if iterations <= 1 {
        code_of(password, salt, number, 1)[i]
    } else {
        mixed_byte(password, salt, number, (iterations - 1) as nat, i) ^ code_of(
            password,
            salt,
            number,
            iterations,
        )[i]
    }
}

proof fn lemma_chain_is_code(password: Seq<u8>, salt: Seq<u8>, number: u32, times: nat)
    ensures
        crate::password::chained(password, code_of(password, salt, number, 1), times) == code_of(
            password,
            salt,
            number,
            times + 1,
        ),
    decreases times,
{
    if times > 0 {
        lemma_chain_is_code(password, salt, number, (times - 1) as nat);
    }
}

proof fn lemma_fold_is_mixed(password: Seq<u8>, salt: Seq<u8>, number: u32, times: nat, i: int)
    requires
        0 <= i < code_of(password, salt, number, 1).len(),
    ensures
        crate::password::folded(password, code_of(password, salt, number, 1), times).len()
            == code_of(password, salt, number, 1).len(),
        crate::password::folded(password, code_of(password, salt, number, 1), times)[i]
            == mixed_byte(password, salt, number, times + 1, i),
    decreases times,
{
    if times > 0 {
        lemma_fold_is_mixed(password, salt, number, (times - 1) as nat, i);
        lemma_chain_is_code(password, salt, number, times);
    }
}

/// A derived key is made of the blocks one, two and so on, thirty-two bytes
/// each, cut to its length; each byte of a block is the exclusive or of that
/// byte of the codes of all iterations.
pub proof fn law_keys_are_made_of_blocks(
    password: Seq<u8>,
    salt: Seq<u8>,
    iterations: u32,
    length: nat,
    block: nat,
    i: nat,
)
    requires
        iterations > 0,
        i < 32,
        block * 32 + i < length,
        block < 0xffff_ffff,
        crate::crypto::hmac_sha256_of(
            password,
            salt + crate::password::big_endian((block + 1) as u32),
        ).len() == 32,
    ensures
        crate::password::derived_key(password, salt, iterations, length).len() == length,
        crate::password::derived_key(password, salt, iterations, length)[(block * 32 + i) as int]
            == mixed_byte(password, salt, (block + 1) as u32, iterations as nat, i as int),
{
    let at: int = (block * 32 + i) as int;
    let number: u32 = (block + 1) as u32;
    assert(at / 32 == block && at % 32 == i) by (nonlinear_arith)
        requires
            at == block * 32 + i,
            i < 32,
    ;
    lemma_fold_is_mixed(password, salt, number, (iterations - 1) as nat, i as int);
}

/// No iterations derive what one does.
pub proof fn law_no_iterations_count_as_one(password: Seq<u8>, salt: Seq<u8>, length: nat)
    ensures
        crate::password::derived_key(password, salt, 0, length) == crate::password::derived_key(
            password,
            salt,
            1,
            length,
        ),
{
    assert(crate::password::derived_key(password, salt, 0, length)
        =~= crate::password::derived_key(password, salt, 1, length));
}

// ---------------------------------------------------------------------------
// Stored passwords.
// ---------------------------------------------------------------------------
/// The digest of a password: thirty-two bytes that are derived from its UTF-8
/// form.
pub open spec fn digest_of(password: Seq<char>, salt: Seq<u8>, iterations: u32) -> Seq<u8> {
    crate::password::derived_key(vstd::utf8::encode_utf8(password), salt, iterations, 32)
}

/// A new hash names its method and 100000 iterations, and holds the salt and
/// the digest in Base64; it belongs to a salt of sixteen bytes.
pub proof fn law_new_hashes_have_four_fields(
    password: Seq<char>,
    salt: Seq<u8>,
    stored: Seq<char>,
)
    ensures
        crate::password::stored_form(password, salt) == "pbkdf2-sha256"@ + seq!['$'] + "100000"@
            + seq!['$'] + crate::crypto::base64url_encoded(salt) + seq!['$']
            + crate::crypto::base64url_encoded(digest_of(password, salt, 100_000)),
        crate::password::is_hash_of(stored, password) <==> exists|bytes: Seq<u8>|
            bytes.len() == 16 && stored == #[trigger] crate::password::stored_form(password, bytes),
        crate::password::is_salted_hash_of(stored, password) ==> exists|
            drawn: crate::crypto::Salt,
        | stored == #[trigger] crate::password::stored_form(password, drawn.bytes()),
{
    reveal_strlit("100000");
    assert(crate::text::decimal(100_000) =~= "100000"@) by {
        reveal_with_fuel(crate::text::decimal, 7);
    }
}

/// A password fits a stored hash exactly where the hash asks for one to a
/// million iterations, its salt has sixteen and its digest thirty-two bytes,
/// and the digest is that of the password.
pub proof fn law_hashes_fit_their_password(
    password: Seq<char>,
    count: Seq<char>,
    salt: Seq<char>,
    digest: Seq<char>,
)
    requires
        !count.contains('$'),
        !salt.contains('$'),
        !digest.contains('$'),
    ensures
        ({
            let stored = "pbkdf2-sha256"@ + seq!['$'] + count + seq!['$'] + salt + seq!['$']
                + digest;
            let iterations = crate::text::decimal_number(count, 0xffff_ffff);
            let salt_bytes = crate::crypto::base64url_decoded(salt);
            let digest_bytes = crate::crypto::base64url_decoded(digest);
            crate::password::password_matches(password, stored) <==> {
                &&& iterations is Some
                &&& 1 <= iterations->0 <= 1_000_000
                &&& salt_bytes is Some
                &&& salt_bytes->0.len() == 16
                &&& digest_bytes is Some
                &&& digest_bytes->0.len() == 32
                &&& digest_of(password, salt_bytes->0, iterations->0 as u32) == digest_bytes->0
            }
        }),
{
    reveal_strlit("pbkdf2-sha256");
    let prefix = "pbkdf2-sha256"@;
    assert(!prefix.contains('$'));
    crate::password::lemma_four_fields(prefix, count, salt, digest);
}

/// A hash with more or fewer than four fields fits no password, and a stored
/// value that does not start as a hash does fits itself alone.
pub proof fn law_other_values_are_no_hashes(
    password: Seq<char>,
    fields: Seq<char>,
    stored: Seq<char>,
)
    ensures
        crate::text::split(fields, '$').len() != 3 ==> !crate::password::password_matches(
            password,
            "pbkdf2-sha256"@ + seq!['$'] + fields,
        ),
        (forall|rest: Seq<char>| stored != #[trigger] ("pbkdf2-sha256"@ + rest)) ==> (
        crate::password::password_matches(password, stored) <==> password == stored),
        !crate::password::password_matches(password, "pbkdf2-sha256"@),
{
    reveal_strlit("pbkdf2-sha256");
    let prefix = "pbkdf2-sha256"@;
    assert(!prefix.contains('$'));
    crate::text::lemma_split_without_separator(prefix, '$');
    crate::text::lemma_split_join(prefix, fields, '$');
    crate::text::lemma_split_nonempty(fields, '$');
    crate::text_laws::law_prefixes_come_off(prefix, fields, stored);
    if forall|rest: Seq<char>| stored != #[trigger] (prefix + rest) {
        law_plain_values_need_an_upgrade(fields, stored);
        crate::password::law_legacy_passwords_fit_literally(password, stored);
    }
}

/// A stored value needs an upgrade exactly where it does not start with the
/// name of the method.
pub proof fn law_plain_values_need_an_upgrade(rest: Seq<char>, stored: Seq<char>)
    ensures
        !crate::password::needs_upgrade("pbkdf2-sha256"@ + rest),
        (forall|tail: Seq<char>| stored != #[trigger] ("pbkdf2-sha256"@ + tail))
            ==> crate::password::needs_upgrade(stored),
{
    let prefix = "pbkdf2-sha256"@;
    crate::text_laws::law_prefixes_come_off(prefix, rest, stored);
    assert((prefix + rest).subrange(0, prefix.len() as int) =~= prefix);
}

/// The fields of a hash are of full length where the salt takes twenty-two and
/// the digest forty-three characters.
pub proof fn law_full_fields_have_their_length(parts: Seq<Seq<char>>)
    ensures
        crate::password::is_full_length(parts) <==> parts.len() == 4 && parts[2].len() == 22
            && parts[3].len() == 43,
{
}

} // verus!
