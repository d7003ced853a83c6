use vstd::prelude::*;
use vstd::slice::slice_subrange;

verus! {

/// The SHA-256 digest (32 bytes) of a byte sequence, as `ring` computes it.
/// Left uninterpreted: it is a function of the input bytes alone.
pub uninterp spec fn sha256_of(bytes: Seq<u8>) -> Seq<u8>;

/// The standard-alphabet, padded base64 rendering of a byte sequence, as
/// `base64::encode` computes it. A function of the input bytes alone.
pub uninterp spec fn base64_of(bytes: Seq<u8>) -> Seq<char>;

/// The bytes absorbed so far by a running SHA-256 context.
pub uninterp spec fn fed_bytes(ctx: ring::digest::Context) -> Seq<u8>;

#[verifier::external_type_specification]
#[verifier::external_body]
pub struct ExDigestContext(ring::digest::Context);

/// Relies on `ring::digest::Context::new` with the SHA-256 algorithm: a fresh
/// context has absorbed no bytes yet.
#[verifier::external_body]
fn sha256_context_new() -> (c: ring::digest::Context)
    ensures
        fed_bytes(c) == Seq::<u8>::empty(),
{
    ring::digest::Context::new(&ring::digest::SHA256)
}

/// Relies on `ring::digest::Context::update`: it appends the chunk to the
/// absorbed stream, and nothing else about the context matters.
#[verifier::external_body]
fn sha256_context_update(c: &mut ring::digest::Context, data: &[u8])
    ensures
        fed_bytes(*final(c)) == fed_bytes(*old(c)) + data@,
{
    c.update(data)
}

/// Relies on `ring::digest::Context::finish` (and `Digest::as_ref`): the
/// SHA-256 digest is 32 bytes and depends on the absorbed stream alone.
#[verifier::external_body]
fn sha256_context_finish(c: ring::digest::Context) -> (d: Vec<u8>)
    ensures
        d@ == sha256_of(fed_bytes(c)),
        d@.len() == 32,
{
    c.finish().as_ref().to_vec()
}

/// True iff `c` may appear in a padded standard-alphabet base64 rendering:
/// a letter, a digit, `+`, `/`, or the `=` padding.
pub open spec fn is_base64_char(c: char) -> bool {
    ||| 'A' as u32 <= c as u32 && c as u32 <= 'Z' as u32
    ||| 'a' as u32 <= c as u32 && c as u32 <= 'z' as u32
    ||| '0' as u32 <= c as u32 && c as u32 <= '9' as u32
    ||| c == '+'
    ||| c == '/'
    ||| c == '='
}

/// Relies on `base64::encode`: the padded standard-alphabet encoding of the
/// input, a function of the input bytes alone. The rendering of `n` bytes is
/// `4 * ceil(n / 3)` characters, each a letter, digit, `+`, `/` or the `=`
/// padding.
#[verifier::external_body]
fn base64_encode(data: &Vec<u8>) -> (r: String)
    ensures
        r@ == base64_of(data@),
        r@.len() == 4 * ((data@.len() + 2) / 3),
        forall|i: int| 0 <= i < r@.len() ==> is_base64_char(#[trigger] r@[i]),
{
    base64::encode(data)
}

/// Computes the content digest used as the integrity fingerprint of a profile
/// body: the base64 rendering of the SHA-256 hash of `bytes`, a fixed-length,
/// text-safe string of 44 base64 characters.
///
/// The stream is folded into the hash accumulator in chunks of at most
/// `chunk_size` bytes; the contract shows the result depends on the content
/// alone, never on the chunk boundaries.
pub fn digest(bytes: &Vec<u8>, chunk_size: usize) -> (r: String)
    requires
        chunk_size >= 1,
    ensures
        r@ == base64_of(sha256_of(bytes@)),
        r@.len() == 44,
        forall|i: int| 0 <= i < r@.len() ==> is_base64_char(#[trigger] r@[i]),
{
    let mut ctx = sha256_context_new();
    let mut pos: usize = 0;
    while pos < bytes.len()
        invariant
            pos <= bytes.len(),
            chunk_size >= 1,
            fed_bytes(ctx) == bytes@.subrange(0, pos as int),
        decreases bytes.len() - pos,
    {
        let end = if bytes.len() - pos < chunk_size {
            bytes.len()
        } else {
            pos + chunk_size
        };
        let chunk = slice_subrange(bytes.as_slice(), pos, end);
        sha256_context_update(&mut ctx, chunk);
        proof {
            assert(bytes@.subrange(0, pos as int) + bytes@.subrange(pos as int, end as int)
                =~= bytes@.subrange(0, end as int));
        }
        pos = end;
    }
    proof {
        assert(bytes@.subrange(0, bytes@.len() as int) =~= bytes@);
    }
    let hash_bytes = sha256_context_finish(ctx);
    base64_encode(&hash_bytes)
}

/// The chunk size the profile-creation path uses when fingerprinting a body.
pub const DIGEST_CHUNK_SIZE: usize = 1024;

/// Computes the content digest with the default chunk size.
pub fn generate_file_hash(bytes: &Vec<u8>) -> (r: String)
    ensures
        r@ == base64_of(sha256_of(bytes@)),
        r@.len() == 44,
        forall|i: int| 0 <= i < r@.len() ==> is_base64_char(#[trigger] r@[i]),
{
    digest(bytes, DIGEST_CHUNK_SIZE)
}

} // verus!
