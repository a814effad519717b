use vstd::prelude::*;

use crate::text::push_char;

verus! {

/// Number of characters in a confirmation token.
pub const TOKEN_LENGTH: usize = 25;

/// Size of the token alphabet: `A-Z`, `a-z` and `0-9`.
pub const ALPHABET_SIZE: u8 = 62;

/// Random bytes at or above this bound are discarded, so that every
/// alphabet character is equally likely (248 is the largest multiple of 62
/// not above 256).
pub const DRAW_BOUND: u8 = 248;

/// The `k`-th character of the token alphabet.
pub open spec fn alphabet_char(k: u8) -> char
    recommends
        k < 62,
{
    if k < 26 {
        (65 + k) as char
    } else if k < 52 {
        (97 + (k - 26)) as char
    } else {
        (48 + (k - 52)) as char
    }
}

pub open spec fn is_alphanumeric(c: char) -> bool {
    ('A' <= c && c <= 'Z') || ('a' <= c && c <= 'z') || ('0' <= c && c <= '9')
}

/// The characters that a sequence of random bytes yields: each byte below
/// `DRAW_BOUND` picks the alphabet character at its remainder modulo 62, the
/// other bytes are skipped.
pub open spec fn drawn_chars(draws: Seq<u8>) -> Seq<char>
    decreases draws.len(),
{
    if draws.len() == 0 {
        Seq::empty()
    } else {
        let rest = drawn_chars(draws.drop_last());
        if draws.last() < DRAW_BOUND {
            rest.push(alphabet_char((draws.last() % ALPHABET_SIZE) as u8))
        } else {
            rest
        }
    }
}

fn alphabet_at(k: u8) -> (c: char)
    requires
        k < 62,
    ensures
        c == alphabet_char(k),
        is_alphanumeric(c),
{
    if k < 26 {
        (65 + k) as char
    } else if k < 52 {
        (97 + (k - 26)) as char
    } else {
        (48 + (k - 52)) as char
    }
}


proof fn lemma_drawn_chars_prefix(a: Seq<u8>, b: Seq<u8>)
    ensures
        drawn_chars(a).len() <= drawn_chars(a + b).len(),
        drawn_chars(a + b).take(drawn_chars(a).len() as int) == drawn_chars(a),
    decreases b.len(),
{
    if b.len() == 0 {
        assert(a + b == a);
    } else {
        assert((a + b).drop_last() == a + b.drop_last());
        lemma_drawn_chars_prefix(a, b.drop_last());
    }
}

/// Builds a token from random bytes, as many as needed from the start of
/// `draws`; `None` when they yield fewer than `TOKEN_LENGTH` characters.
pub fn token_from_draws(draws: &Vec<u8>) -> (r: Option<String>)
    ensures
        match r {
            Some(t) => drawn_chars(draws@).len() >= TOKEN_LENGTH && t@ == drawn_chars(
                draws@,
            ).take(TOKEN_LENGTH as int),
            None => drawn_chars(draws@).len() < TOKEN_LENGTH,
        },
{
    let mut token = String::new();
    let mut n: usize = 0;
    let mut i: usize = 0;
    while i < draws.len() && n < TOKEN_LENGTH
        invariant
            i <= draws.len(),
            n <= TOKEN_LENGTH,
            n == token@.len(),
            token@ == drawn_chars(draws@.take(i as int)),
        decreases draws.len() - i,
    {
        let d = draws[i];
        assert(draws@.take(i + 1).drop_last() == draws@.take(i as int));
        if d < DRAW_BOUND {
            let c = alphabet_at(d % ALPHABET_SIZE);
            push_char(&mut token, c);
            n = n + 1;
        }
        i = i + 1;
    }
    proof {
        let d = draws@;
        assert(d.take(i as int) + d.skip(i as int) == d);
        lemma_drawn_chars_prefix(d.take(i as int), d.skip(i as int));
    }
    if n == TOKEN_LENGTH {
        Some(token)
    } else {
        assert(draws@.take(i as int) == draws@);
        None
    }
}


/// A confirmation token: `TOKEN_LENGTH` characters of the alphanumeric
/// alphabet.
pub open spec fn is_token_shaped(t: Seq<char>) -> bool {
    t.len() == TOKEN_LENGTH && forall|i: int| 0 <= i < t.len() ==> is_alphanumeric(#[trigger] t[i])
}

proof fn lemma_alphabet_char_alphanumeric(k: u8)
    requires
        k < 62,
    ensures
        is_alphanumeric(alphabet_char(k)),
{
}

proof fn lemma_drawn_chars_alphanumeric(draws: Seq<u8>)
    ensures
        forall|i: int|
            0 <= i < drawn_chars(draws).len() ==> is_alphanumeric(#[trigger] drawn_chars(draws)[i]),
    decreases draws.len(),
{
    if draws.len() > 0 {
        let rest = drawn_chars(draws.drop_last());
        let k = (draws.last() % ALPHABET_SIZE) as u8;
        lemma_drawn_chars_alphanumeric(draws.drop_last());
        lemma_alphabet_char_alphanumeric(k);
        if draws.last() < DRAW_BOUND {
            assert(drawn_chars(draws) == rest.push(alphabet_char(k)));
            assert forall|i: int| 0 <= i < drawn_chars(draws).len() implies is_alphanumeric(
                #[trigger] drawn_chars(draws)[i],
            ) by {
                if i < rest.len() {
                    assert(drawn_chars(draws)[i] == rest[i]);
                }
            }
        }
    }
}

/// The bytes of a version 4 UUID that are random: all but byte 6, which holds
/// the version, and byte 8, which holds the variant.
pub open spec fn random_part(b: Seq<u8>) -> Seq<u8>
    recommends
        b.len() == 16,
{
    b.subrange(0, 6).push(b[7]) + b.subrange(9, 16)
}

pub fn random_bytes_of_uuid(b: [u8; 16]) -> (r: Vec<u8>)
    ensures
        r@ == random_part(b@),
{
    let mut r: Vec<u8> = Vec::new();
    let mut i: usize = 0;
    while i < 6
        invariant
            i <= 6,
            r@ == b@.subrange(0, i as int),
        decreases 6 - i,
    {
        r.push(b[i]);
        i = i + 1;
    }
    r.push(b[7]);
    let ghost head = r@;
    i = 9;
    while i < 16
        invariant
            9 <= i <= 16,
            head == b@.subrange(0, 6).push(b@[7]),
            r@ == head + b@.subrange(9, i as int),
        decreases 16 - i,
    {
        r.push(b[i]);
        i = i + 1;
    }
    r
}

/// Relies on `uuid::Uuid::new_v4` and `Uuid::into_bytes`: a UUID drawn from
/// the operating system's secure random source; nothing is known of its bytes.
#[verifier::external_body]
fn new_v4_bytes() -> [u8; 16] {
    uuid::Uuid::new_v4().into_bytes()
}

/// Number of UUIDs drawn for one token: 56 random bytes. Each byte is
/// discarded with probability 1/32, so fewer than 25 of them survive
/// `DRAW_BOUND` with probability below 10^-32.
pub const UUIDS_PER_TOKEN: usize = 4;

/// Generates a confirmation token from the operating system's secure random
/// source. It fails, returning `None`, only when the random bytes are far from
/// uniform (see `UUIDS_PER_TOKEN`): a working source never makes it fail in
/// practice, and callers treat `None` as a fault of the machine, not of the
/// input.
pub fn generate_token() -> (r: Option<String>)
    ensures
        r matches Some(t) ==> is_token_shaped(t@),
{
    let mut draws: Vec<u8> = Vec::new();
    let mut k: usize = 0;
    while k < UUIDS_PER_TOKEN
        decreases UUIDS_PER_TOKEN - k,
    {
        let mut part = random_bytes_of_uuid(new_v4_bytes());
        draws.append(&mut part);
        k = k + 1;
    }
    let r = token_from_draws(&draws);
    proof {
        lemma_drawn_chars_alphanumeric(draws@);
    }
    r
}

} // verus!
