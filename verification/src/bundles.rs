//! The query that looks up the transaction hashes of a bundle in the edge table, encoded as a
//! CQL protocol-4 `QUERY` frame.
use vstd::prelude::*;
use vstd::string::StringSliceAdditionalSpecFns;

verus! {

/// The statement of the query: the transactions of the bundle bound to its one value.
pub const BUNDLE_STATEMENT: &'static str = "SELECT tx FROM tangle.edge WHERE vertex = ? AND kind = 'bundle'";

/// The four big-endian bytes of `n`.
pub open spec fn be32(n: nat) -> Seq<u8> {
    seq![(n / 0x1000000 % 0x100) as u8, (n / 0x10000 % 0x100) as u8, (n / 0x100 % 0x100) as u8, (n % 0x100) as u8]
}

/// The four bytes of `be32(n)` read back, most significant first, as `n`: the length fields of
/// a frame decode to the lengths they encode.
pub proof fn lemma_be32_decodes(n: nat)
    requires
        n < 0x1_0000_0000,
    ensures
        be32(n).len() == 4,
        be32(n)[0] as nat * 0x1000000 + be32(n)[1] as nat * 0x10000 + be32(n)[2] as nat * 0x100
            + be32(n)[3] as nat == n,
{
    let m = n as u32;
    assert(((m / 0x1000000 % 0x100) as u8) as nat * 0x1000000 + ((m / 0x10000 % 0x100) as u8) as nat * 0x10000
        + ((m / 0x100 % 0x100) as u8) as nat * 0x100 + ((m % 0x100) as u8) as nat == m) by (bit_vector);
}

/// The length field of a query frame (bytes 5 to 8) reads, big-endian, as the length of its body.
pub proof fn lemma_query_frame_length(body: Seq<u8>)
    requires
        body.len() < 0x1_0000_0000,
    ensures
        query_frame(body).len() == 9 + body.len(),
        query_frame(body)[5] as nat * 0x1000000 + query_frame(body)[6] as nat * 0x10000
            + query_frame(body)[7] as nat * 0x100 + query_frame(body)[8] as nat == body.len(),
        query_frame(body).subrange(9, 9 + body.len() as int) == body,
{
    lemma_be32_decodes(body.len());
    let f = query_frame(body);
    assert(f[5] == be32(body.len())[0]);
    assert(f[6] == be32(body.len())[1]);
    assert(f[7] == be32(body.len())[2]);
    assert(f[8] == be32(body.len())[3]);
    assert(f.subrange(9, 9 + body.len() as int) =~= body);
}

/// The body of a `QUERY` of `statement` with consistency `ONE`, the flags `SKIP_METADATA` and
/// `VALUES`, and the single value `value`: the statement as a long string, the consistency as a
/// short, the flags byte, the value count as a short, then the value as bytes.
pub open spec fn query_body(statement: Seq<u8>, value: Seq<u8>) -> Seq<u8> {
    be32(statement.len()) + statement + seq![0u8, 1u8] + seq![3u8] + seq![0u8, 1u8] + be32(value.len())
        + value
}

/// A protocol-4 request frame with no flags, stream 0 and opcode `QUERY`, around `body`.
pub open spec fn query_frame(body: Seq<u8>) -> Seq<u8> {
    seq![4u8, 0u8, 0u8, 0u8, 7u8] + be32(body.len()) + body
}

fn push_be32(v: &mut Vec<u8>, n: u32)
    ensures
        final(v)@ == old(v)@ + be32(n as nat),
{
    v.push((n / 0x1000000 % 0x100) as u8);
    v.push((n / 0x10000 % 0x100) as u8);
    v.push((n / 0x100 % 0x100) as u8);
    v.push((n % 0x100) as u8);
    assert(final(v)@ =~= old(v)@ + be32(n as nat));
}

fn push_bytes(v: &mut Vec<u8>, bytes: &[u8])
    ensures
        final(v)@ == old(v)@ + bytes@,
{
    let ghost start = v@;
    let mut i: usize = 0;
    while i < bytes.len()
        invariant
            i <= bytes@.len(),
            v@ == start + bytes@.subrange(0, i as int),
        decreases bytes.len() - i,
    {
        v.push(bytes[i]);
        i = i + 1;
        assert(v@ =~= start + bytes@.subrange(0, i as int));
    }
    assert(bytes@.subrange(0, i as int) =~= bytes@);
}

/// The frame that queries the transaction hashes of the bundle `bundle`.
pub fn query(bundle: String) -> (r: Vec<u8>)
    requires
        BUNDLE_STATEMENT.spec_bytes().len() + vstd::utf8::encode_utf8(bundle@).len() + 17 <= 0x7fffffff,
    ensures
        r@ == query_frame(query_body(BUNDLE_STATEMENT.spec_bytes(), vstd::utf8::encode_utf8(bundle@))),
{
    let statement = BUNDLE_STATEMENT.as_bytes();
    let value = bundle.as_str().as_bytes();
    let mut body: Vec<u8> = Vec::new();
    push_be32(&mut body, statement.len() as u32);
    push_bytes(&mut body, statement);
    body.push(0);
    body.push(1);
    body.push(3);
    body.push(0);
    body.push(1);
    push_be32(&mut body, value.len() as u32);
    push_bytes(&mut body, value);
    assert(body@ =~= query_body(statement@, value@));
    let mut frame: Vec<u8> = Vec::new();
    frame.push(4);
    frame.push(0);
    frame.push(0);
    frame.push(0);
    frame.push(7);
    push_be32(&mut frame, body.len() as u32);
    push_bytes(&mut frame, body.as_slice());
    assert(frame@ =~= query_frame(body@));
    frame
}

} // verus!
