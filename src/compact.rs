//! The compact proof format: the proof's field elements, each as its 32-byte
//! big-endian form, after a variable-length element count.
use vstd::prelude::*;

verus! {

/// Why a proof could not be put in the compact format.
#[derive(Clone, Copy, Debug, PartialEq, Eq, Structural)]
pub enum ProofError {
    /// The encoder refused the value.
    Encoding,
}

#[verifier::external_type_specification]
#[verifier::external_body]
pub struct ExEncodeError(bincode::error::EncodeError);

/// `256^n`.
pub open spec fn pow256(n: nat) -> nat
    decreases n,
{
    if n == 0 {
        1
    } else {
        256 * pow256((n - 1) as nat)
    }
}

/// The `n` low bytes of `v`, least significant first.
pub open spec fn le_bytes(v: nat, n: nat) -> Seq<u8>
    decreases n,
{
    if n == 0 {
        Seq::empty()
    } else {
        seq![(v % 256) as u8] + le_bytes(v / 256, (n - 1) as nat)
    }
}

/// The number that `b` writes, least significant byte first.
pub open spec fn le_value(b: Seq<u8>) -> nat
    decreases b.len(),
{
    if b.len() == 0 {
        0
    } else {
        b[0] as nat + 256 * le_value(b.drop_first())
    }
}

/// The element count as written before the elements: one byte up to 250,
/// else a marker byte (251, 252, 253) and the count in 2, 4 or 8 bytes,
/// least significant first.
pub open spec fn length_prefix(n: nat) -> Seq<u8> {
    if n <= 250 {
        seq![n as u8]
    } else if n <= 0xffff {
        seq![251u8] + le_bytes(n, 2)
    } else if n <= 0xffff_ffff {
        seq![252u8] + le_bytes(n, 4)
    } else {
        seq![253u8] + le_bytes(n, 8)
    }
}

/// The elements' bytes, one after another.
pub open spec fn flatten(es: Seq<[u8; 32]>) -> Seq<u8> {
    Seq::new((32 * es.len()) as nat, |k: int| es[k / 32]@[k % 32])
}

/// The compact encoding of a sequence of field elements.
pub open spec fn compact_bytes(es: Seq<[u8; 32]>) -> Seq<u8> {
    length_prefix(es.len()) + flatten(es)
}

/// The byte views of the elements.
pub open spec fn elems_view(es: Seq<[u8; 32]>) -> Seq<Seq<u8>> {
    es.map_values(|a: [u8; 32]| a@)
}

/// The element count and the header length that `b` starts with.
pub open spec fn parse_prefix(b: Seq<u8>) -> Option<(nat, nat)> {
    if b.len() == 0 {
        None
    } else if b[0] <= 250 {
        Some((b[0] as nat, 1))
    } else if b[0] == 251 && b.len() >= 3 {
        Some((le_value(b.subrange(1, 3)), 3))
    } else if b[0] == 252 && b.len() >= 5 {
        Some((le_value(b.subrange(1, 5)), 5))
    } else if b[0] == 253 && b.len() >= 9 {
        Some((le_value(b.subrange(1, 9)), 9))
    } else {
        None
    }
}

/// The elements that `b` holds, when `b` is a whole compact encoding: a
/// count, then exactly that many 32-byte elements.
pub open spec fn parse_compact(b: Seq<u8>) -> Option<Seq<Seq<u8>>> {
    match parse_prefix(b) {
        Some((n, h)) => if b.len() == h + 32 * n {
            Some(Seq::new(n, |i: int| b.subrange(h + 32 * i, h + 32 * i + 32)))
        } else {
            None
        },
        None => None,
    }
}

/// Relies on bincode::encode_to_vec with the standard configuration (little
/// endian, variable-length integers): a `Vec<[u8; 32]>` becomes its length,
/// encoded as a `u64` varint, followed by the bytes of each array. Writing
/// into a `Vec` never fails and the standard configuration sets no limit, so
/// the call always succeeds.
#[verifier::external_body]
fn bincode_encode(elems: &Vec<[u8; 32]>) -> (r: Result<Vec<u8>, bincode::error::EncodeError>)
    ensures
        r is Ok,
        r matches Ok(b) ==> b@ == compact_bytes(elems@),
{
    bincode::encode_to_vec(elems, bincode::config::standard())
}

/// The compact encoding of the proof's field elements, given in their
/// 32-byte big-endian form. The encoding always succeeds; the error type is
/// kept for the file-writing boundary.
pub fn encode_compact(elems: &Vec<[u8; 32]>) -> (r: Result<Vec<u8>, ProofError>)
    ensures
        r is Ok,
        r matches Ok(b) ==> b@ == compact_bytes(elems@),
{
    match bincode_encode(elems) {
        Ok(b) => Ok(b),
        Err(_) => Err(ProofError::Encoding),
    }
}

proof fn lemma_pow256_values()
    ensures
        pow256(0) == 1,
        pow256(1) == 0x100,
        pow256(2) == 0x1_0000,
        pow256(4) == 0x1_0000_0000,
        pow256(8) == 0x1_0000_0000_0000_0000,
{
    reveal_with_fuel(pow256, 9);
}

proof fn lemma_le_value_bound(b: Seq<u8>)
    ensures
        le_value(b) < pow256(b.len()),
    decreases b.len(),
{
    if b.len() > 0 {
        lemma_le_value_bound(b.drop_first());
        let r = le_value(b.drop_first());
        let p = pow256(b.drop_first().len());
        assert(b[0] as nat + 256 * r < 256 * p) by (nonlinear_arith)
            requires
                r < p,
                b[0] < 256,
        ;
    }
}

proof fn lemma_le_round_trip(v: nat, n: nat)
    requires
        v < pow256(n),
    ensures
        le_bytes(v, n).len() == n,
        le_value(le_bytes(v, n)) == v,
    decreases n,
{
    if n > 0 {
        let q = v / 256;
        let p = pow256((n - 1) as nat);
        assert(q < p) by (nonlinear_arith)
            requires
                v < 256 * p,
                q == v / 256,
        ;
        lemma_le_round_trip(q, (n - 1) as nat);
        assert(le_bytes(v, n).drop_first() =~= le_bytes(q, (n - 1) as nat));
    }
}

/// Round trip of the compact format: parsing the encoding of any sequence of
/// field elements gives back exactly that sequence, in order.
pub proof fn lemma_compact_round_trip(es: Seq<[u8; 32]>)
    requires
        es.len() <= u64::MAX,
    ensures
        parse_compact(compact_bytes(es)) == Some(elems_view(es)),
{
    let n = es.len();
    let b = compact_bytes(es);
    let pre = length_prefix(n);
    lemma_pow256_values();
    let h: nat = if n <= 250 {
        1
    } else if n <= 0xffff {
        lemma_le_round_trip(n, 2);
        assert(b.subrange(1, 3) =~= le_bytes(n, 2));
        3
    } else if n <= 0xffff_ffff {
        lemma_le_round_trip(n, 4);
        assert(b.subrange(1, 5) =~= le_bytes(n, 4));
        5
    } else {
        lemma_le_round_trip(n, 8);
        assert(b.subrange(1, 9) =~= le_bytes(n, 8));
        9
    };
    assert(pre.len() == h);
    assert(parse_prefix(b) == Some((n, h)));
    let parsed = Seq::new(n, |i: int| b.subrange(h + 32 * i, h + 32 * i + 32));
    assert forall|i: int| 0 <= i < n implies #[trigger] parsed[i] == elems_view(es)[i] by {
        assert forall|j: int| 0 <= j < 32 implies parsed[i][j] == es[i]@[j] by {
            assert((32 * i + j) / 32 == i);
            assert((32 * i + j) % 32 == j);
        }
        assert(parsed[i] =~= es[i]@);
    }
    assert(parsed =~= elems_view(es));
}

/// The number that `b[start..start + n]` writes, least significant byte
/// first.
fn read_le(b: &[u8], start: usize, n: usize) -> (r: u64)
    requires
        n <= 8,
        start + n <= b.len(),
    ensures
        r == le_value(b@.subrange(start as int, start + n)),
{
    let end: usize = start + n;
    let mut v: u64 = 0;
    let mut i: usize = end;
    proof {
        lemma_pow256_values();
        assert(b@.subrange(end as int, end as int) =~= Seq::<u8>::empty());
    }
    while i > start
        invariant
            start <= i <= end,
            end == start + n,
            n <= 8,
            end <= b@.len(),
            v == le_value(b@.subrange(i as int, end as int)),
            pow256(8) == 0x1_0000_0000_0000_0000,
        decreases i - start,
    {
        let ghost tail = b@.subrange(i as int, end as int);
        let ghost s = b@.subrange(i - 1, end as int);
        proof {
            assert(s.drop_first() =~= tail);
            lemma_le_value_bound(s);
            assert(pow256(s.len()) <= pow256(8)) by {
                lemma_pow256_mono(s.len(), 8);
            }
        }
        v = (b[i - 1] as u64) + 256 * v;
        i = i - 1;
    }
    v
}

proof fn lemma_pow256_mono(a: nat, b: nat)
    requires
        a <= b,
    ensures
        pow256(a) <= pow256(b),
    decreases b,
{
    if a < b {
        lemma_pow256_mono(a, (b - 1) as nat);
    }
}

/// Reads a whole compact encoding back into its field elements; `None` where
/// the bytes are not one.
pub fn decode_compact(bytes: &[u8]) -> (r: Option<Vec<[u8; 32]>>)
    ensures
        r matches Some(v) ==> parse_compact(bytes@) == Some(elems_view(v@)),
        r is None ==> parse_compact(bytes@) is None,
{
    let len: usize = bytes.len();
    if len == 0 {
        return None;
    }
    let tag: u8 = bytes[0];
    let (n, h): (u64, usize) = if tag <= 250 {
        (tag as u64, 1)
    } else if tag == 251 && len >= 3 {
        (read_le(bytes, 1, 2), 3)
    } else if tag == 252 && len >= 5 {
        (read_le(bytes, 1, 4), 5)
    } else if tag == 253 && len >= 9 {
        (read_le(bytes, 1, 8), 9)
    } else {
        return None;
    };
    assert(parse_prefix(bytes@) == Some((n as nat, h as nat)));
    let rest: usize = len - h;
    if rest % 32 != 0 || (rest / 32) as u64 != n {
        return None;
    }
    let count: usize = rest / 32;
    let ghost parsed = Seq::new(
        n as nat,
        |i: int| bytes@.subrange(h + 32 * i, h + 32 * i + 32),
    );
    let mut out: Vec<[u8; 32]> = Vec::new();
    let mut i: usize = 0;
    while i < count
        invariant
            len == bytes@.len(),
            len == h + 32 * count,
            count == n,
            i <= count,
            out@.len() == i,
            parsed.len() == count,
            forall|w: int|
                0 <= w < count ==> #[trigger] parsed[w] == bytes@.subrange(
                    h + 32 * w,
                    h + 32 * w + 32,
                ),
            forall|w: int| 0 <= w < i ==> (#[trigger] out@[w])@ == parsed[w],
        decreases count - i,
    {
        let base: usize = h + 32 * i;
        let mut a: [u8; 32] = [0u8; 32];
        let mut j: usize = 0;
        while j < 32
            invariant
                len == bytes@.len(),
                base + 32 <= len,
                j <= 32,
                forall|l: int| 0 <= l < j ==> a@[l] == bytes@[base + l],
            decreases 32 - j,
        {
            a[j] = bytes[base + j];
            j = j + 1;
        }
        proof {
            assert(base == h + 32 * i);
            assert(parsed[i as int] == bytes@.subrange(base as int, base + 32));
            assert forall|l: int| 0 <= l < 32 implies a@[l] == parsed[i as int][l] by {}
            assert(a@ =~= parsed[i as int]);
        }
        out.push(a);
        i = i + 1;
    }
    proof {
        assert(elems_view(out@) =~= parsed);
    }
    Some(out)
}

} // verus!
