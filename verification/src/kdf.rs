//! The PBKDF2 derivation loop, built on keyed pseudorandom functions of an
//! outside crate.

use vstd::prelude::*;

use hmac::Mac;

use crate::algorithm::AlgorithmId;

verus! {

/// Largest output a canonical record can carry, in bytes.
pub const MAX_OUTPUT_LEN: usize = 64;

/// Smallest output a canonical record can carry, in bytes.
pub const MIN_OUTPUT_LEN: usize = 10;

/// Largest raw salt the hasher accepts, in bytes.
pub const MAX_SALT_LEN: usize = 64;

/// What HMAC-SHA-1 computes from a key and a message.
pub uninterp spec fn hmac_sha1_of(key: Seq<u8>, msg: Seq<u8>) -> Seq<u8>;

/// What HMAC-SHA-256 computes from a key and a message.
pub uninterp spec fn hmac_sha256_of(key: Seq<u8>, msg: Seq<u8>) -> Seq<u8>;

/// What HMAC-SHA-512 computes from a key and a message.
pub uninterp spec fn hmac_sha512_of(key: Seq<u8>, msg: Seq<u8>) -> Seq<u8>;

/// Relies on `hmac::SimpleHmac<sha1::Sha1>`: HMAC accepts keys of any
/// length, its output is one hash block (20 bytes for SHA-1), and it is a
/// function of key and message alone.
#[verifier::external_body]
fn hmac_sha1(key: &[u8], msg: &[u8]) -> (r: Vec<u8>)
    ensures
        r@ == hmac_sha1_of(key@, msg@),
        r@.len() == 20,
{
    let mut m = <hmac::SimpleHmac<sha1::Sha1> as hmac::KeyInit>::new_from_slice(key)
        .expect("HMAC accepts keys of any length");
    m.update(msg);
    m.finalize().into_bytes().as_slice().to_vec()
}

/// Relies on `hmac::SimpleHmac<sha2::Sha256>`: HMAC accepts keys of any
/// length, its output is one hash block (32 bytes for SHA-256), and it is a
/// function of key and message alone.
#[verifier::external_body]
fn hmac_sha256(key: &[u8], msg: &[u8]) -> (r: Vec<u8>)
    ensures
        r@ == hmac_sha256_of(key@, msg@),
        r@.len() == 32,
{
    let mut m = <hmac::SimpleHmac<sha2::Sha256> as hmac::KeyInit>::new_from_slice(key)
        .expect("HMAC accepts keys of any length");
    m.update(msg);
    m.finalize().into_bytes().as_slice().to_vec()
}

/// Relies on `hmac::SimpleHmac<sha2::Sha512>`: HMAC accepts keys of any
/// length, its output is one hash block (64 bytes for SHA-512), and it is a
/// function of key and message alone.
#[verifier::external_body]
fn hmac_sha512(key: &[u8], msg: &[u8]) -> (r: Vec<u8>)
    ensures
        r@ == hmac_sha512_of(key@, msg@),
        r@.len() == 64,
{
    let mut m = <hmac::SimpleHmac<sha2::Sha512> as hmac::KeyInit>::new_from_slice(key)
        .expect("HMAC accepts keys of any length");
    m.update(msg);
    m.finalize().into_bytes().as_slice().to_vec()
}

/// The keyed pseudorandom function each variant derives with.
pub open spec fn prf_of(alg: AlgorithmId, key: Seq<u8>, msg: Seq<u8>) -> Seq<u8> {
    match alg {
        AlgorithmId::Sha1 => hmac_sha1_of(key, msg),
        AlgorithmId::Sha256 => hmac_sha256_of(key, msg),
        AlgorithmId::Sha512 => hmac_sha512_of(key, msg),
    }
}

/// Output width of each variant's pseudorandom function, in bytes.
pub open spec fn prf_len(alg: AlgorithmId) -> nat {
    match alg {
        AlgorithmId::Sha1 => 20,
        AlgorithmId::Sha256 => 32,
        AlgorithmId::Sha512 => 64,
    }
}

/// Apply the variant's pseudorandom function.
fn prf(alg: AlgorithmId, key: &[u8], msg: &[u8]) -> (r: Vec<u8>)
    ensures
        r@ == prf_of(alg, key@, msg@),
        r@.len() == prf_len(alg),
{
    match alg {
        AlgorithmId::Sha1 => hmac_sha1(key, msg),
        AlgorithmId::Sha256 => hmac_sha256(key, msg),
        AlgorithmId::Sha512 => hmac_sha512(key, msg),
    }
}

/// Output width of the variant's pseudorandom function.
fn prf_out_len(alg: AlgorithmId) -> (r: usize)
    ensures
        r == prf_len(alg),
{
    match alg {
        AlgorithmId::Sha1 => 20,
        AlgorithmId::Sha256 => 32,
        AlgorithmId::Sha512 => 64,
    }
}

/// Big-endian bytes of a 32-bit block index.
pub open spec fn be32(x: u32) -> Seq<u8> {
    seq![
        ((x >> 24) & 0xff) as u8,
        ((x >> 16) & 0xff) as u8,
        ((x >> 8) & 0xff) as u8,
        (x & 0xff) as u8,
    ]
}

/// The `j`-th repeated application of the pseudorandom function: the first
/// is applied to `msg1`, each later one to the previous result.
pub open spec fn u_chain(alg: AlgorithmId, pw: Seq<u8>, msg1: Seq<u8>, j: nat) -> Seq<u8>
    decreases j,
{
    if j <= 1 {
        prf_of(alg, pw, msg1)
    } else {
        prf_of(alg, pw, u_chain(alg, pw, msg1, (j - 1) as nat))
    }
}

/// Bytewise exclusive or of two equal-length byte strings.
pub open spec fn xor_seq(a: Seq<u8>, b: Seq<u8>) -> Seq<u8> {
    Seq::new(a.len(), |i: int| a[i] ^ b[i])
}

/// One derivation block: the chain values folded together by exclusive or.
/// Zero rounds behaves as one.
pub open spec fn t_block(alg: AlgorithmId, pw: Seq<u8>, msg1: Seq<u8>, rounds: u32) -> Seq<u8>
    decreases rounds,
{
    if rounds <= 1 {
        u_chain(alg, pw, msg1, 1)
    } else {
        xor_seq(
            t_block(alg, pw, msg1, (rounds - 1) as u32),
            u_chain(alg, pw, msg1, rounds as nat),
        )
    }
}

/// The first `n` derivation blocks, concatenated. Block indices start at 1.
pub open spec fn blocks(alg: AlgorithmId, pw: Seq<u8>, salt: Seq<u8>, rounds: u32, n: nat) -> Seq<
    u8,
>
    decreases n,
{
    if n == 0 {
        Seq::empty()
    } else {
        blocks(alg, pw, salt, rounds, (n - 1) as nat) + t_block(
            alg,
            pw,
            salt + be32(n as u32),
            rounds,
        )
    }
}

/// How many blocks cover `dk` bytes.
pub open spec fn num_blocks(h: nat, dk: nat) -> nat {
    if h == 0 {
        0
    } else {
        ((dk + h - 1) as int / h as int) as nat
    }
}

/// The PBKDF2 output: as many blocks as needed, truncated to the requested
/// length.
pub open spec fn pbkdf2_spec(
    alg: AlgorithmId,
    pw: Seq<u8>,
    salt: Seq<u8>,
    rounds: u32,
    dk: nat,
) -> Seq<u8> {
    blocks(alg, pw, salt, rounds, num_blocks(prf_len(alg), dk)).take(dk as int)
}

/// Bytewise exclusive or, executable.
fn xor_vec(a: &Vec<u8>, b: &Vec<u8>) -> (r: Vec<u8>)
    requires
        a@.len() == b@.len(),
    ensures
        r@ == xor_seq(a@, b@),
{
    let len = a.len();
    let mut r: Vec<u8> = Vec::new();
    let mut i: usize = 0;
    while i < len
        invariant
            i <= len,
            len == a@.len() == b@.len(),
            r@ =~= xor_seq(a@, b@).take(i as int),
        decreases len - i,
    {
        r.push(a[i] ^ b[i]);
        proof {
            assert(r@ =~= xor_seq(a@, b@).take(i + 1));
        }
        i += 1;
    }
    proof {
        assert(xor_seq(a@, b@).take(len as int) =~= xor_seq(a@, b@));
    }
    r
}

/// Copy a byte slice into a vector.
fn copy_bytes(a: &[u8]) -> (r: Vec<u8>)
    ensures
        r@ == a@,
{
    let mut r: Vec<u8> = Vec::new();
    let mut i: usize = 0;
    while i < a.len()
        invariant
            i <= a@.len(),
            r@ =~= a@.take(i as int),
        decreases a@.len() - i,
    {
        r.push(a[i]);
        proof {
            assert(r@ =~= a@.take(i + 1));
        }
        i += 1;
    }
    proof {
        assert(a@.take(a@.len() as int) =~= a@);
    }
    r
}

/// Concatenate two byte slices into a vector.
fn concat_bytes(a: &[u8], b: &[u8]) -> (r: Vec<u8>)
    ensures
        r@ == a@ + b@,
{
    let mut r: Vec<u8> = Vec::new();
    let mut i: usize = 0;
    while i < a.len()
        invariant
            i <= a@.len(),
            r@ =~= a@.take(i as int),
        decreases a@.len() - i,
    {
        r.push(a[i]);
        proof {
            assert(r@ =~= a@.take(i + 1));
        }
        i += 1;
    }
    let mut j: usize = 0;
    while j < b.len()
        invariant
            j <= b@.len(),
            r@ =~= a@ + b@.take(j as int),
        decreases b@.len() - j,
    {
        r.push(b[j]);
        proof {
            assert(r@ =~= a@ + b@.take(j + 1));
        }
        j += 1;
    }
    proof {
        assert(a@ + b@.take(b@.len() as int) =~= a@ + b@);
    }
    r
}

/// Big-endian bytes of a block index, executable.
fn be32_bytes(x: u32) -> (r: Vec<u8>)
    ensures
        r@ == be32(x),
{
    proof {
        assert((x >> 24) & 0xff < 256 && (x >> 16) & 0xff < 256 && (x >> 8) & 0xff < 256 && x
            & 0xff < 256) by (bit_vector);
    }
    let mut r: Vec<u8> = Vec::new();
    r.push(((x >> 24) & 0xff) as u8);
    r.push(((x >> 16) & 0xff) as u8);
    r.push(((x >> 8) & 0xff) as u8);
    r.push((x & 0xff) as u8);
    proof {
        assert(r@ =~= be32(x));
    }
    r
}

/// Derive `dk_len` bytes from a password and raw salt with the chosen
/// variant, iterating its pseudorandom function `rounds` times per block
/// (zero rounds behaves as one round).
pub fn pbkdf2_derive(
    alg: AlgorithmId,
    password: &[u8],
    salt: &[u8],
    rounds: u32,
    dk_len: usize,
) -> (r: Vec<u8>)
    requires
        dk_len <= MAX_OUTPUT_LEN,
    ensures
        r@ == pbkdf2_spec(alg, password@, salt@, rounds, dk_len as nat),
        r@.len() == dk_len,
{
    let h = prf_out_len(alg);
    let mut out: Vec<u8> = Vec::new();
    let mut block: u32 = 0;
    while out.len() < dk_len
        invariant
            dk_len <= MAX_OUTPUT_LEN,
            h == prf_len(alg),
            block <= 4,
            out@ == blocks(alg, password@, salt@, rounds, block as nat),
            out@.len() == block * prf_len(alg),
            block > 0 ==> (block - 1) * prf_len(alg) < dk_len,
        decreases 4 - block,
    {
        proof {
            assert(block < 4) by (nonlinear_arith)
                requires
                    block * prf_len(alg) < dk_len,
                    dk_len <= 64,
                    prf_len(alg) >= 20,
            ;
        }
        block = block + 1;
        let idx = be32_bytes(block);
        let msg = concat_bytes(salt, idx.as_slice());
        let ghost msg1 = salt@ + be32(block);
        let mut t = prf(alg, password, msg.as_slice());
        let mut u = copy_bytes(t.as_slice());
        proof {
            assert(t@ == t_block(alg, password@, msg1, 1));
            assert(u@ == u_chain(alg, password@, msg1, 1));
        }
        let mut j: u32 = 1;
        while j < rounds
            invariant
                1 <= j,
                rounds > 1 ==> j <= rounds,
                rounds <= 1 ==> j == 1,
                h == prf_len(alg),
                t@ == t_block(alg, password@, msg1, j),
                u@ == u_chain(alg, password@, msg1, j as nat),
                t@.len() == prf_len(alg),
                u@.len() == prf_len(alg),
            decreases rounds - j,
        {
            u = prf(alg, password, u.as_slice());
            proof {
                assert(u@ == u_chain(alg, password@, msg1, (j + 1) as nat));
            }
            t = xor_vec(&t, &u);
            j = j + 1;
            proof {
                assert(t@ == t_block(alg, password@, msg1, j));
            }
        }
        proof {
            if rounds <= 1 {
                assert(t_block(alg, password@, msg1, rounds) == u_chain(alg, password@, msg1, 1));
            } else {
                assert(j == rounds);
            }
            assert(t@ == t_block(alg, password@, msg1, rounds));
        }
        let ghost old_out = out@;
        out.append(&mut t);
        proof {
            assert(out@ == blocks(alg, password@, salt@, rounds, block as nat));
            assert(out@.len() == old_out.len() + prf_len(alg));
            assert(prf_len(alg) >= 20);
            assert(out@.len() == block * prf_len(alg)) by (nonlinear_arith)
                requires
                    out@.len() == (block - 1) * prf_len(alg) + prf_len(alg),
                    block >= 1,
            ;
        }
    }
    proof {
        let h_i = prf_len(alg) as int;
        let dk = dk_len as int;
        let n = block as int;
        let x = dk + h_i - 1;
        let r_i = x - n * h_i;
        assert(n * h_i >= dk);
        if block > 0 {
            assert((n - 1) * h_i < dk);
            assert(n * h_i - h_i < dk) by (nonlinear_arith)
                requires
                    (n - 1) * h_i < dk,
            ;
        }
        assert(0 <= r_i < h_i);
        vstd::arithmetic::div_mod::lemma_fundamental_div_mod_converse(x, h_i, n, r_i);
        assert(n == x / h_i);
        assert(num_blocks(prf_len(alg), dk_len as nat) == block as nat);
    }
    out.truncate(dk_len);
    proof {
        assert(out@ == pbkdf2_spec(alg, password@, salt@, rounds, dk_len as nat));
    }
    out
}

} // verus!
