//! The number that tells two plugin instances apart.
use vstd::prelude::*;

verus! {

/// The number that little-endian bytes denote.
pub open spec fn little_endian(bytes: Seq<u8>) -> nat
    decreases bytes.len(),
{
    if bytes.len() == 0 {
        0
    } else {
        bytes[0] as nat + 256 * little_endian(bytes.drop_first())
    }
}

pub open spec fn pow256(n: nat) -> nat
    decreases n,
{
    if n == 0 {
        1
    } else {
        256 * pow256((n - 1) as nat)
    }
}

proof fn lemma_little_endian_bound(bytes: Seq<u8>)
    ensures
        little_endian(bytes) < pow256(bytes.len()),
    decreases bytes.len(),
{
    if bytes.len() > 0 {
        lemma_little_endian_bound(bytes.drop_first());
    }
}

/// The nonce that 16 random bytes make.
pub fn instance_nonce_from_random(random: [u8; 16]) -> (nonce: u128)
    ensures
        nonce as nat == little_endian(random@),
{
    let mut nonce: u128 = 0;
    let mut i: usize = 16;
    assert(random@.skip(16) =~= Seq::<u8>::empty());
    while i > 0
        invariant
            i <= 16,
            random@.len() == 16,
            nonce as nat == little_endian(random@.skip(i as int)),
        decreases i,
    {
        proof {
            let tail = random@.skip(i as int);
            lemma_little_endian_bound(tail);
            lemma_pow256_monotonic(tail.len(), 15);
            assert(pow256(15) == 0x1_00_0000_0000_0000_0000_0000_0000_0000) by {
                reveal_with_fuel(pow256, 16);
            }
            assert(random@.skip(i - 1).drop_first() =~= tail);
        }
        i -= 1;
        nonce = nonce * 256 + random[i] as u128;
    }
    assert(random@.skip(0) =~= random@);
    nonce
}

proof fn lemma_pow256_monotonic(a: nat, b: nat)
    requires
        a <= b,
    ensures
        pow256(a) <= pow256(b),
    decreases b,
{
    if a < b {
        lemma_pow256_monotonic(a, (b - 1) as nat);
    }
}

/// The nonce keeps all entropy: different random bytes make different nonces.
pub proof fn law_nonce_preserves_all_entropy(a: Seq<u8>, b: Seq<u8>)
    requires
        a.len() == b.len(),
        little_endian(a) == little_endian(b),
    ensures
        a == b,
    decreases a.len(),
{
    if a.len() > 0 {
        let ra = a.drop_first();
        let rb = b.drop_first();
        assert(a[0] == b[0] && little_endian(ra) == little_endian(rb));
        law_nonce_preserves_all_entropy(ra, rb);
        assert(a =~= seq![a[0]] + ra);
        assert(b =~= seq![b[0]] + rb);
    } else {
        assert(a =~= b);
    }
}

/// The error of the host's random number source.
#[verifier::external_type_specification]
#[verifier::external_body]
pub struct ExRandomError(getrandom::Error);

/// `getrandom::getrandom` fills a buffer with random bytes from the host, or
/// fails. Nothing is promised of the bytes, nor of when it succeeds.
#[verifier::external_body]
fn random_bytes() -> Result<[u8; 16], getrandom::Error> {
    let mut random = [0u8; 16];
    getrandom::getrandom(&mut random)?;
    Ok(random)
}

/// Why no nonce could be made.
#[derive(Debug)]
pub struct NonceError {
    pub message: String,
}

/// Whether `message` is how an error of the random number source displays.
pub open spec fn displays(error: getrandom::Error, message: String) -> bool {
    vstd::string::to_string_from_display_ensures::<getrandom::Error>(&error, message)
}

/// Whether `nonce` is what comes of the random bytes, or of the failure to get
/// them.
pub open spec fn nonce_of(
    drawn: Result<[u8; 16], getrandom::Error>,
    nonce: Result<u128, NonceError>,
) -> bool {
    match drawn {
        Ok(random) => nonce matches Ok(nonce) && nonce as nat == little_endian(random@),
        Err(error) => nonce matches Err(failure) && displays(error, failure.message),
    }
}

/// Makes a nonce of the reply of the random number source.
pub fn instance_nonce_from_draw(drawn: Result<[u8; 16], getrandom::Error>) -> (nonce: Result<
    u128,
    NonceError,
>)
    ensures
        nonce_of(drawn, nonce),
{
    match drawn {
        Ok(random) => Ok(instance_nonce_from_random(random)),
        Err(error) => Err(NonceError { message: error.to_string() }),
    }
}

/// Draws a nonce from the host's random number source.
pub fn instance_nonce() -> (nonce: Result<u128, NonceError>)
    ensures
        exists|drawn: Result<[u8; 16], getrandom::Error>| nonce_of(drawn, nonce),
{
    instance_nonce_from_draw(random_bytes())
}

/// Each byte more weighs 256 times as much as the one before it.
pub proof fn law_later_bytes_weigh_more(bytes: Seq<u8>, b: u8)
    ensures
        little_endian(bytes.push(b)) == little_endian(bytes) + b as nat * pow256(bytes.len()),
        pow256(0) == 1,
        pow256(bytes.len() + 1) == 256 * pow256(bytes.len()),
    decreases bytes.len(),
{
    let more = bytes.push(b);
    if bytes.len() == 0 {
        assert(more.drop_first() =~= seq![]);
        assert(little_endian(more.drop_first()) == 0);
        assert(b as nat * pow256(0) == b as nat) by (nonlinear_arith)
            requires
                pow256(0) == 1,
        ;
    } else {
        let rest = bytes.drop_first();
        assert(more.drop_first() =~= rest.push(b));
        law_later_bytes_weigh_more(rest, b);
        let p = pow256(rest.len());
        assert(pow256(bytes.len()) == 256 * p);
        assert(b as nat * (256 * p) == 256 * (b as nat * p)) by (nonlinear_arith);
        assert(more[0] == bytes[0]);
    }
}

} // verus!
