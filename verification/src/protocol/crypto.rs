//! Length-hiding padding: a plaintext travels as its length, itself, and up
//! to 256 random bytes.

use vstd::prelude::*;

verus! {

/// The largest number of padding bytes added to a plaintext.
pub const MAX_PADDING: usize = 256;

/// The four bytes of `n`, most significant first.
pub open spec fn be_bytes(n: u32) -> Seq<u8> {
    seq![
        (n / 0x100_0000) as u8,
        ((n / 0x1_0000) % 0x100) as u8,
        ((n / 0x100) % 0x100) as u8,
        (n % 0x100) as u8,
    ]
}

/// The number that four bytes spell, most significant first.
pub open spec fn be_value(b: Seq<u8>) -> nat
    recommends
        b.len() == 4,
{
    (b[0] as nat) * 0x100_0000 + (b[1] as nat) * 0x1_0000 + (b[2] as nat) * 0x100 + (b[3] as nat)
}

/// A plaintext's length as it is written in front of it: reduced modulo 2^32.
pub open spec fn length_field(len: nat) -> u32 {
    (len % 0x1_0000_0000) as u32
}

/// The padded form of `plaintext` under the padding `padding`.
pub open spec fn padded(plaintext: Seq<u8>, padding: Seq<u8>) -> Seq<u8> {
    be_bytes(length_field(plaintext.len())) + plaintext + padding
}

/// What `remove_padding` recovers from `data`, or the reason it cannot.
pub open spec fn unpadded(data: Seq<u8>) -> Result<Seq<u8>, Seq<char>> {
    if data.len() < 4 {
        Err("padded data too short"@)
    } else if data.len() - 4 < be_value(data.subrange(0, 4)) {
        Err("invalid plaintext length"@)
    } else {
        Ok(data.subrange(4, 4 + be_value(data.subrange(0, 4)) as int))
    }
}

pub proof fn be_value_of_be_bytes(n: u32)
    ensures
        be_bytes(n).len() == 4,
        be_value(be_bytes(n)) == n,
{
}

/// Removing the padding gives back the plaintext, whatever padding was
/// added, as long as the plaintext's length fits the 32-bit length field.
pub proof fn padding_round_trip(plaintext: Seq<u8>, padding: Seq<u8>)
    requires
        plaintext.len() <= u32::MAX,
    ensures
        unpadded(padded(plaintext, padding)) == Ok::<Seq<u8>, Seq<char>>(plaintext),
{
    let n = length_field(plaintext.len());
    let data = padded(plaintext, padding);
    be_value_of_be_bytes(n);
    assert(data.subrange(0, 4) =~= be_bytes(n));
    assert(data.subrange(4, 4 + plaintext.len() as int) =~= plaintext);
}

/// `thread_rng`, `gen_range(0..=max)` and `fill` of the rand crate: a vector
/// of at most `max` bytes. Its length and content are random, so no more is
/// promised.
#[verifier::external_body]
fn random_bytes(max: usize) -> (bytes: Vec<u8>)
    ensures
        bytes@.len() <= max,
{
    let mut rng = rand::thread_rng();
    let len = rand::Rng::gen_range(&mut rng, 0..=max);
    let mut bytes = vec![0u8; len];
    rand::Rng::fill(&mut rng, &mut bytes[..]);
    bytes
}

/// Between 0 and 256 random bytes.
pub fn generate_padding() -> (padding: Vec<u8>)
    ensures
        padding@.len() <= MAX_PADDING,
{
    random_bytes(MAX_PADDING)
}

fn be_encode(n: u32) -> (b: [u8; 4])
    ensures
        b@ == be_bytes(n),
{
    let b = [
        (n / 0x100_0000) as u8,
        ((n / 0x1_0000) % 0x100) as u8,
        ((n / 0x100) % 0x100) as u8,
        (n % 0x100) as u8,
    ];
    assert(b@ =~= be_bytes(n));
    b
}

/// Pads `plaintext` with the given padding.
pub fn add_padding_with(plaintext: &[u8], padding: &[u8]) -> (out: Vec<u8>)
    ensures
        out@ == padded(plaintext@, padding@),
{
    let plaintext_len: u32 = ((plaintext.len() as u64) % 0x1_0000_0000) as u32;
    let header = be_encode(plaintext_len);
    let mut out: Vec<u8> = Vec::new();
    out.push(header[0]);
    out.push(header[1]);
    out.push(header[2]);
    out.push(header[3]);
    assert(out@ =~= be_bytes(length_field(plaintext@.len())));
    out.extend_from_slice(plaintext);
    out.extend_from_slice(padding);
    out
}

/// Pads `plaintext` with fresh random padding: its length as four bytes, the
/// plaintext, then at most 256 bytes.
pub fn add_padding(plaintext: &[u8]) -> (out: Vec<u8>)
    ensures
        out@.len() >= 4 + plaintext@.len(),
        out@.len() <= 4 + plaintext@.len() + MAX_PADDING,
        out@ == padded(plaintext@, out@.subrange(4 + plaintext@.len() as int, out@.len() as int)),
        plaintext@.len() <= u32::MAX ==> unpadded(out@) == Ok::<Seq<u8>, Seq<char>>(plaintext@),
{
    let padding = generate_padding();
    let out = add_padding_with(plaintext, padding.as_slice());
    proof {
        assert(out@.subrange(4 + plaintext@.len() as int, out@.len() as int) =~= padding@);
        if plaintext@.len() <= u32::MAX {
            padding_round_trip(plaintext@, padding@);
        }
    }
    out
}

/// Recovers the plaintext from its padded form.
pub fn remove_padding(data: &[u8]) -> (r: Result<Vec<u8>, String>)
    ensures
        match r {
            Ok(plaintext) => unpadded(data@) == Ok::<Seq<u8>, Seq<char>>(plaintext@),
            Err(reason) => unpadded(data@) == Err::<Seq<u8>, Seq<char>>(reason@),
        },
{
    if data.len() < 4 {
        return Err("padded data too short".to_string());
    }
    let plaintext_len: u64 = (data[0] as u64) * 0x100_0000 + (data[1] as u64) * 0x1_0000 + (
    data[2] as u64) * 0x100 + (data[3] as u64);
    assert(plaintext_len == be_value(data@.subrange(0, 4)));
    if ((data.len() - 4) as u64) < plaintext_len {
        return Err("invalid plaintext length".to_string());
    }
    let end: usize = 4 + plaintext_len as usize;
    let body = vstd::slice::slice_subrange(data, 4, end);
    let out = vstd::slice::slice_to_vec(body);
    Ok(out)
}

} // verus!
