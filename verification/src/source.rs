//! The array-source decoder: a retrieved byte buffer is parsed as a
//! self-describing binary numeric-array encoding. The header names the
//! element-type code, the element size, the byte order and the shape; the
//! payload holds the elements in row-major order, little-endian. Byte
//! retrieval itself is a collaborator's job; this module owns the format.
//!
//! Layout: byte 0 is the element-type code, byte 1 the element size in bytes
//! (1, 2, 4 or 8), byte 2 the byte-order mark, byte 3 the rank, followed by
//! one four-byte little-endian size per dimension, followed by the payload.

use vstd::prelude::*;

use crate::array::{lemma_shape_product_push, shape_product, LabelVector, RawArray};
use crate::error::{ParseFault, PipelineError};

verus! {

/// Element-type code for floating-point data.
pub const FLOAT_CODE: u8 = 0x66;

/// Element-type code for integer data.
pub const INT_CODE: u8 = 0x69;

/// Byte-order mark for little-endian payloads, the only order supported.
pub const LITTLE_ENDIAN_CODE: u8 = 0x4c;

/// The unsigned value of a little-endian byte sequence.
pub open spec fn le_value(s: Seq<u8>) -> nat
    decreases s.len(),
{
    if s.len() == 0 {
        0
    } else {
        s[0] as nat + 256 * le_value(s.subrange(1, s.len() as int))
    }
}

/// `256` to the power `n`: the number of values `n` bytes can take.
pub open spec fn pow256(n: nat) -> nat
    decreases n,
{
    if n == 0 {
        1
    } else {
        256 * pow256((n - 1) as nat)
    }
}

proof fn lemma_pow256_pos(n: nat)
    ensures
        pow256(n) >= 1,
    decreases n,
{
    if n > 0 {
        lemma_pow256_pos((n - 1) as nat);
    }
}

proof fn lemma_pow256_mono(a: nat, b: nat)
    requires
        a <= b,
    ensures
        pow256(a) <= pow256(b),
    decreases b,
{
    if a < b {
        lemma_pow256_mono(a, (b - 1) as nat);
        lemma_pow256_pos((b - 1) as nat);
    }
}

proof fn lemma_pow256_values()
    ensures
        pow256(4) == 0x1_0000_0000,
        pow256(7) == 0x100_0000_0000_0000,
        pow256(8) == 0x1_0000_0000_0000_0000,
{
    assert(pow256(0) == 1);
    assert(pow256(1) == 256);
    assert(pow256(2) == 0x1_0000);
    assert(pow256(3) == 0x100_0000);
    assert(pow256(4) == 0x1_0000_0000);
    assert(pow256(5) == 0x100_0000_0000);
    assert(pow256(6) == 0x1_0000_0000_0000);
    assert(pow256(7) == 0x100_0000_0000_0000);
    assert(pow256(8) == 0x1_0000_0000_0000_0000);
}

/// A little-endian value is bounded by the count of its bytes' values.
proof fn lemma_le_value_bound(s: Seq<u8>)
    ensures
        le_value(s) < pow256(s.len()),
    decreases s.len(),
{
    if s.len() > 0 {
        lemma_le_value_bound(s.subrange(1, s.len() as int));
    }
}

/// Reads the little-endian value of `size` bytes starting at `start`.
fn read_le(bytes: &Vec<u8>, start: usize, size: usize) -> (r: u64)
    requires
        size <= 8,
        start + size <= bytes@.len(),
    ensures
        r == le_value(bytes@.subrange(start as int, start + size)),
{
    let blen = bytes.len();
    let mut acc: u64 = 0;
    let mut j: usize = size;
    proof {
        assert(bytes@.subrange(start + size, start + size) =~= Seq::<u8>::empty());
    }
    while j > 0
        invariant
            size <= 8,
            start + size <= bytes@.len(),
            bytes@.len() == blen,
            j <= size,
            acc == le_value(bytes@.subrange(start + j, start + size)),
            acc < pow256((size - j) as nat),
        decreases j,
    {
        j -= 1;
        let b = bytes[start + j];
        proof {
            let sub = bytes@.subrange(start + j, start + size);
            assert(sub[0] == bytes@[start + j]);
            assert(sub.subrange(1, sub.len() as int) =~= bytes@.subrange(
                start + j + 1,
                start + size,
            ));
            lemma_pow256_mono((size - j - 1) as nat, 7);
            lemma_pow256_values();
            assert(pow256((size - j) as nat) == 256 * pow256((size - j - 1) as nat));
        }
        acc = (b as u64) + 256 * acc;
    }
    acc
}

/// Size `i` declared in the header's dimension list.
pub open spec fn dim_at(b: Seq<u8>, i: int) -> int {
    le_value(b.subrange(4 + 4 * i, 8 + 4 * i)) as int
}

/// Product of the first `r` declared dimension sizes.
pub open spec fn dims_product(b: Seq<u8>, r: int) -> int
    decreases r,
{
    if r <= 0 {
        1
    } else {
        dims_product(b, r - 1) * dim_at(b, r - 1)
    }
}

/// Bytes the header occupies for a given rank.
pub open spec fn header_size(rank: int) -> int {
    4 + 4 * rank
}

/// Element size the header declares.
pub open spec fn elem_size_of(b: Seq<u8>) -> int {
    b[1] as int
}

pub open spec fn valid_elem_size(s: int) -> bool {
    s == 1 || s == 2 || s == 4 || s == 8
}

/// The little-endian value of element `k` of the payload, zero-extended.
pub open spec fn chunk_value(b: Seq<u8>, start: int, esize: int, k: int) -> u64 {
    le_value(b.subrange(start + k * esize, start + (k + 1) * esize)) as u64
}

/// The first reason, if any, for which a buffer is rejected as an array of
/// kind `expected_kind` and rank `expected_rank`.
pub open spec fn parse_fault(b: Seq<u8>, expected_kind: u8, expected_rank: u8) -> Option<
    ParseFault,
> {
    if b.len() < 4 {
        Some(ParseFault::TruncatedHeader)
    } else if !(b[0] == expected_kind && (b[0] == FLOAT_CODE || b[0] == INT_CODE) && b[2]
        == LITTLE_ENDIAN_CODE && valid_elem_size(b[1] as int)) {
        Some(ParseFault::UnsupportedElement)
    } else if b[3] != expected_rank {
        Some(ParseFault::RankMismatch { expected: expected_rank, found: b[3] })
    } else if b.len() < header_size(expected_rank as int) {
        Some(ParseFault::TruncatedHeader)
    } else if exists|i: int| 0 <= i < expected_rank as int && dim_at(b, i) == 0 {
        Some(ParseFault::EmptyDimension)
    } else if b.len() != header_size(expected_rank as int) + dims_product(
        b,
        expected_rank as int,
    ) * elem_size_of(b) {
        Some(ParseFault::LengthMismatch)
    } else {
        None
    }
}

/// Parses a byte buffer as an array of the expected element kind and rank,
/// decoding each element's little-endian bits through `decode` into the
/// pipeline's element type.
///
/// Succeeds exactly when the buffer carries no fault for this kind and rank;
/// the result's shape is the declared dimension list and its element `k` is
/// the decoding of payload chunk `k`. A rejected buffer signals a parse error
/// carrying the first fault found.
pub fn parse_array<T, F: Fn(u64) -> T>(
    bytes: &Vec<u8>,
    expected_kind: u8,
    expected_rank: u8,
    decode: F,
) -> (r: Result<RawArray<T>, PipelineError>)
    requires
        forall|x: u64| #[trigger] call_requires(decode, (x,)),
    ensures
        match r {
            Ok(a) => {
                &&& parse_fault(bytes@, expected_kind, expected_rank) is None
                &&& a.wf()
                &&& a.shape@.len() == expected_rank
                &&& forall|i: int|
                    0 <= i < expected_rank as int ==> #[trigger] a.shape@[i] == dim_at(bytes@, i)
                &&& a.data@.len() == shape_product(a.shape@)
                &&& forall|k: int|
                    0 <= k < a.data@.len() ==> call_ensures(
                        decode,
                        (
                            chunk_value(
                                bytes@,
                                header_size(expected_rank as int),
                                elem_size_of(bytes@),
                                k,
                            ),
                        ),
                        #[trigger] a.data@[k],
                    )
            },
            Err(e) => {
                e matches PipelineError::ParseError { fault } && parse_fault(
                    bytes@,
                    expected_kind,
                    expected_rank,
                ) == Some(fault)
            },
        },
{
    let n = bytes.len();
    if n < 4 {
        return Err(PipelineError::ParseError { fault: ParseFault::TruncatedHeader });
    }
    let kind = bytes[0];
    let esize = bytes[1];
    let order = bytes[2];
    let rank = bytes[3];
    if !(kind == expected_kind && (kind == FLOAT_CODE || kind == INT_CODE) && order
        == LITTLE_ENDIAN_CODE && (esize == 1 || esize == 2 || esize == 4 || esize == 8)) {
        return Err(PipelineError::ParseError { fault: ParseFault::UnsupportedElement });
    }
    if rank != expected_rank {
        return Err(PipelineError::ParseError {
            fault: ParseFault::RankMismatch { expected: expected_rank, found: rank },
        });
    }
    let rank_n = rank as usize;
    let header: usize = 4 + 4 * rank_n;
    if n < header {
        return Err(PipelineError::ParseError { fault: ParseFault::TruncatedHeader });
    }

    let mut shape: Vec<usize> = Vec::new();
    let mut product: usize = 1;
    let mut overflow: bool = false;
    let mut j: usize = 0;
    proof {
        assert(shape@ =~= Seq::<usize>::empty());
    }
    while j < rank_n
        invariant
            rank_n == rank as int,
            header == header_size(rank as int),
            n == bytes@.len(),
            n >= header,
            n >= 4,
            bytes@[0] == expected_kind,
            bytes@[0] == FLOAT_CODE || bytes@[0] == INT_CODE,
            bytes@[1] == esize,
            valid_elem_size(esize as int),
            bytes@[2] == LITTLE_ENDIAN_CODE,
            bytes@[3] == rank,
            rank == expected_rank,
            0 <= j <= rank_n,
            shape@.len() == j,
            forall|i: int|
                0 <= i < j ==> #[trigger] shape@[i] == dim_at(bytes@, i) && shape@[i] >= 1,
            !overflow ==> product == dims_product(bytes@, j as int) && product == shape_product(
                shape@,
            ),
            overflow ==> dims_product(bytes@, j as int) > usize::MAX,
            product >= 1,
        decreases rank_n - j,
    {
        let d64 = read_le(bytes, 4 + 4 * j, 4);
        proof {
            lemma_le_value_bound(bytes@.subrange(4 + 4 * j, 4 + 4 * j + 4));
            lemma_pow256_values();
            assert(bytes@.subrange(4 + 4 * j, 4 + 4 * j + 4) =~= bytes@.subrange(
                4 + 4 * (j as int),
                8 + 4 * (j as int),
            ));
        }
        let d = d64 as usize;
        if d == 0 {
            proof {
                assert(dim_at(bytes@, j as int) == 0);
                assert(exists|i: int| 0 <= i < rank as int && dim_at(bytes@, i) == 0);
            }
            return Err(PipelineError::ParseError { fault: ParseFault::EmptyDimension });
        }
        let ghost pre = shape@;
        shape.push(d);
        proof {
            lemma_shape_product_push(pre, d);
            assert(dims_product(bytes@, j as int + 1) == dims_product(bytes@, j as int) * dim_at(
                bytes@,
                j as int,
            ));
        }
        if !overflow {
            match product.checked_mul(d) {
                Some(p) => {
                    proof {
                        assert(product * d >= 1) by (nonlinear_arith)
                            requires
                                product >= 1,
                                d >= 1,
                        ;
                    }
                    product = p;
                },
                None => {
                    overflow = true;
                },
            }
        } else {
            proof {
                assert(dims_product(bytes@, j as int) * dim_at(bytes@, j as int) >= dims_product(
                    bytes@,
                    j as int,
                )) by (nonlinear_arith)
                    requires
                        dims_product(bytes@, j as int) >= 0,
                        dim_at(bytes@, j as int) >= 1,
                ;
            }
        }
        j += 1;
    }
    proof {
        assert(forall|i: int| 0 <= i < rank as int ==> dim_at(bytes@, i) >= 1) by {
            assert(forall|i: int|
                0 <= i < rank as int ==> #[trigger] dim_at(bytes@, i) == shape@[i] && shape@[i]
                    >= 1);
        }
    }
    if overflow {
        proof {
            assert(dims_product(bytes@, rank as int) * elem_size_of(bytes@) >= dims_product(
                bytes@,
                rank as int,
            )) by (nonlinear_arith)
                requires
                    dims_product(bytes@, rank as int) >= 0,
                    elem_size_of(bytes@) >= 1,
            ;
        }
        return Err(PipelineError::ParseError { fault: ParseFault::LengthMismatch });
    }
    let es = esize as usize;
    let expected_payload = match product.checked_mul(es) {
        Some(pb) => pb,
        None => {
            proof {
                assert(dims_product(bytes@, rank as int) * elem_size_of(bytes@) > usize::MAX)
                    by (nonlinear_arith)
                    requires
                        dims_product(bytes@, rank as int) == product,
                        elem_size_of(bytes@) == es,
                        product * es > usize::MAX,
                ;
            }
            return Err(PipelineError::ParseError { fault: ParseFault::LengthMismatch });
        },
    };
    if n - header != expected_payload {
        return Err(PipelineError::ParseError { fault: ParseFault::LengthMismatch });
    }

    let count = product;
    let mut data: Vec<T> = Vec::new();
    let mut k: usize = 0;
    while k < count
        invariant
            forall|x: u64| #[trigger] call_requires(decode, (x,)),
            n == bytes@.len(),
            valid_elem_size(es as int),
            es == elem_size_of(bytes@),
            header == header_size(rank as int),
            n == header + count * es,
            0 <= k <= count,
            data@.len() == k,
            forall|m: int|
                0 <= m < k ==> call_ensures(
                    decode,
                    (chunk_value(bytes@, header as int, es as int, m),),
                    #[trigger] data@[m],
                ),
        decreases count - k,
    {
        proof {
            assert(k * es <= count * es && (k + 1) * es <= count * es && k * es + es == (k + 1)
                * es) by (nonlinear_arith)
                requires
                    0 <= k < count,
                    es >= 1,
            ;
        }
        let start = header + k * es;
        let v = read_le(bytes, start, es);
        proof {
            lemma_le_value_bound(bytes@.subrange(start as int, start + es));
            lemma_pow256_mono(es as nat, 8);
            lemma_pow256_values();
            assert(bytes@.subrange(start as int, start + es) =~= bytes@.subrange(
                header as int + k as int * es as int,
                header as int + (k as int + 1) * es as int,
            ));
        }
        data.push(decode(v));
        k += 1;
    }
    Ok(RawArray { shape, data })
}

/// Parses a rank-one integer array as the pipeline's label vector, widening
/// each element's little-endian bits to a signed integer label.
pub fn parse_label_vector(bytes: &Vec<u8>) -> (r: Result<LabelVector, PipelineError>)
    ensures
        match r {
            Ok(l) => {
                &&& parse_fault(bytes@, INT_CODE, 1) is None
                &&& l.values@.len() == dim_at(bytes@, 0)
                &&& forall|k: int|
                    0 <= k < l.values@.len() ==> #[trigger] l.values@[k] == chunk_value(
                        bytes@,
                        8,
                        elem_size_of(bytes@),
                        k,
                    ) as i32
            },
            Err(e) => {
                e matches PipelineError::ParseError { fault } && parse_fault(bytes@, INT_CODE, 1)
                    == Some(fault)
            },
        },
{
    let decode = |x: u64| -> (v: i32)
        ensures
            v == x as i32,
        { #[verifier::truncate] (x as i32) };
    match parse_array(bytes, INT_CODE, 1, decode) {
        Ok(raw) => {
            proof {
                assert(raw.shape@.len() == 1);
                assert(raw.shape@.subrange(1, 1) =~= Seq::<usize>::empty());
                assert(shape_product(Seq::<usize>::empty()) == 1);
                assert(shape_product(raw.shape@) == raw.shape@[0] * shape_product(
                    raw.shape@.subrange(1, 1),
                ));
            }
            Ok(LabelVector { values: raw.data })
        },
        Err(e) => Err(e),
    }
}

} // verus!
