use vstd::prelude::*;

use crate::bytes::i4_at;
use crate::decode::{offset_at, offset_width, Decoder};
use crate::error::{DecodeError, Field, RecordKind};
use crate::repr::{Encoding, Endian};

verus! {

/// Values follow little-endian byte order under this encoding.
pub open spec fn is_little(enc: Option<Encoding>) -> bool {
    enc matches Some(e) && e.spec_endian() == Some(Endian::Little)
}

/// An offset field where 0 means "none".
pub open spec fn nonzero(x: int) -> Option<i64> {
    if x == 0 {
        None
    } else {
        Some(x as i64)
    }
}

/// An offset field where -1 means "none".
pub open spec fn not_minus_one(x: int) -> Option<i64> {
    if x == -1 {
        None
    } else {
        Some(x as i64)
    }
}

/// The error for a record at `p` whose type tag is not `tag`, if it is not.
pub open spec fn tag_error(s: Seq<u8>, p: int, v3: bool, kind: RecordKind, tag: i32) -> Option<DecodeError> {
    let t = i4_at(s, p + offset_width(v3));
    if t != tag {
        Some(DecodeError::BadRecordType { record: kind, expected: tag, actual: t as i32 })
    } else {
        None
    }
}

/// The error for a reserved field at `p` that does not hold `expected`, if it does not.
pub open spec fn rfu_error(s: Seq<u8>, p: int, field: Field, expected: i32) -> Option<DecodeError> {
    let v = i4_at(s, p);
    if v != expected {
        Some(DecodeError::BadReservedValue { field, expected, actual: v as i32 })
    } else {
        None
    }
}

/// The first of two errors that is there.
pub open spec fn first_error(a: Option<DecodeError>, b: Option<DecodeError>) -> Option<DecodeError> {
    if a is Some {
        a
    } else {
        b
    }
}

/// Reads a record's size and type tag, and checks the tag; returns the size.
pub fn read_record_header(d: &mut Decoder, kind: RecordKind, tag: i32) -> (r: Result<i64, DecodeError>)
    ensures
        final(d).same_input(*old(d)),
        final(d).context == old(d).context,
        old(d).fits(old(d).ow() + 4) && tag_error(old(d).data@, old(d).pos as int, old(d).v3(), kind, tag) is None
            ==> (r matches Ok(v) && v == offset_at(old(d).data@, old(d).pos as int, old(d).v3()))
            && final(d).pos == old(d).pos + old(d).ow() + 4,
        old(d).fits(old(d).ow() + 4) && tag_error(old(d).data@, old(d).pos as int, old(d).v3(), kind, tag) is Some
            ==> r == Err::<i64, DecodeError>(tag_error(old(d).data@, old(d).pos as int, old(d).v3(), kind, tag).unwrap()),
        !old(d).fits(old(d).ow() + 4) ==> r is Err,
{
    let size = d.read_offset()?;
    let t = d.read_i32_be()?;
    if t != tag {
        return Err(DecodeError::BadRecordType { record: kind, expected: tag, actual: t });
    }
    Ok(size)
}

/// Reads a reserved field and checks that it holds `expected`.
pub fn read_reserved(d: &mut Decoder, field: Field, expected: i32) -> (r: Result<i32, DecodeError>)
    ensures
        final(d).same_input(*old(d)),
        final(d).context == old(d).context,
        old(d).fits(4) && rfu_error(old(d).data@, old(d).pos as int, field, expected) is None ==> r
            == Ok::<i32, DecodeError>(expected) && final(d).pos == old(d).pos + 4,
        old(d).fits(4) && rfu_error(old(d).data@, old(d).pos as int, field, expected) is Some ==> r
            == Err::<i32, DecodeError>(rfu_error(old(d).data@, old(d).pos as int, field, expected).unwrap()),
        !old(d).fits(4) ==> r is Err,
{
    let v = d.read_i32_be()?;
    if v != expected {
        return Err(DecodeError::BadReservedValue { field, expected, actual: v });
    }
    Ok(v)
}

/// The offset of the next record that a linked record at `p` names; 0
/// names none. Every kind of linked record keeps it right after its tag.
pub open spec fn link_at(s: Seq<u8>, p: int, v3: bool) -> Option<i64> {
    nonzero(offset_at(s, p + offset_width(v3) + 4, v3))
}

/// A record that is a link in a linked list of records of its kind.
pub trait RecordList: Decodable {
    /// The offset of the next record in the list; none at the end.
    spec fn spec_next(&self) -> Option<i64>;

    /// A decoded record names the next record that its bytes name.
    proof fn lemma_next(s: Seq<u8>, p: int, v3: bool, enc: Option<Encoding>, x: Self)
        requires
            Self::decoded(s, p, v3, enc, x),
        ensures
            x.spec_next() == link_at(s, p, v3),
    ;

    /// Returns the file offset of the next record in the linked list.
    fn next_record(&self) -> (r: Option<i64>)
        ensures
            r == self.spec_next(),
    ;
}

/// A record decoded from the bytes at the cursor, its header big-endian.
pub trait Decodable: Sized {
    /// Bytes of the leading part whose width the content does not decide.
    spec fn fixed_len(v3: bool) -> int;

    /// The error that the leading part calls for (a wrong tag, a reserved
    /// field that does not hold its value), if any.
    spec fn fixed_error(s: Seq<u8>, p: int, v3: bool) -> Option<DecodeError>;

    /// `r` is what the bytes at `p` hold.
    spec fn decoded(s: Seq<u8>, p: int, v3: bool, enc: Option<Encoding>, r: Self) -> bool;

    /// The rest of the record at `p` is there and well formed, so that
    /// decoding it succeeds once its leading part does, under the rVariable
    /// dimension sizes `rdims`. Where success rests on what a variable
    /// descriptor puts in the context (the records of values and the index
    /// trees), this promises nothing: those have conditions of their own.
    spec fn complete(s: Seq<u8>, p: int, v3: bool, enc: Option<Encoding>, rdims: Option<Seq<i32>>) -> bool;

    /// Decodes the record at the cursor.
    fn decode_be(d: &mut Decoder) -> (r: Result<Self, DecodeError>)
        ensures
            final(d).same_input(*old(d)),
            final(d).context.encoding == old(d).context.encoding,
            final(d).context.size_r_dims == old(d).context.size_r_dims,
            r matches Ok(x) ==> old(d).fits(Self::fixed_len(old(d).v3())) && Self::fixed_error(
                old(d).data@,
                old(d).pos as int,
                old(d).v3(),
            ) is None && Self::decoded(
                old(d).data@,
                old(d).pos as int,
                old(d).v3(),
                old(d).context.encoding,
                x,
            ),
            old(d).fits(Self::fixed_len(old(d).v3())) && Self::fixed_error(
                old(d).data@,
                old(d).pos as int,
                old(d).v3(),
            ) is Some ==> r == Err::<Self, DecodeError>(
                Self::fixed_error(old(d).data@, old(d).pos as int, old(d).v3()).unwrap(),
            ),
            !old(d).fits(Self::fixed_len(old(d).v3())) ==> r is Err,
            old(d).fits(Self::fixed_len(old(d).v3())) && Self::fixed_error(
                old(d).data@,
                old(d).pos as int,
                old(d).v3(),
            ) is None && Self::complete(
                old(d).data@,
                old(d).pos as int,
                old(d).v3(),
                old(d).context.encoding,
                old(d).context.r_dims(),
            ) ==> r is Ok,
    ;
}

/// The list that starts at `head` ends within `fuel` records, and each of
/// them is there in full and well formed.
pub open spec fn chain_ok<T: RecordList>(
    s: Seq<u8>,
    v3: bool,
    enc: Option<Encoding>,
    rdims: Option<Seq<i32>>,
    head: i64,
    fuel: nat,
) -> bool
    decreases fuel,
{
    if fuel == 0 {
        false
    } else {
        &&& 0 <= head <= s.len()
        &&& head + T::fixed_len(v3) <= s.len()
        &&& T::fixed_error(s, head as int, v3) is None
        &&& T::complete(s, head as int, v3, enc, rdims)
        &&& match link_at(s, head as int, v3) {
            None => true,
            Some(n) => chain_ok::<T>(s, v3, enc, rdims, n, (fuel - 1) as nat),
        }
    }
}

/// The number of records in the list that starts at `head`, counting at
/// most `fuel` of them.
pub open spec fn chain_len(s: Seq<u8>, v3: bool, head: i64, fuel: nat) -> nat
    decreases fuel,
{
    if fuel == 0 {
        0
    } else {
        1 + match link_at(s, head as int, v3) {
            None => 0,
            Some(n) => chain_len(s, v3, n, (fuel - 1) as nat),
        }
    }
}

/// `v` is the linked list of records that starts at `head`: each record is
/// decoded from where the one before points, and only the last points nowhere.
pub open spec fn chain_from<T: Decodable + RecordList>(
    s: Seq<u8>,
    v3: bool,
    enc: Option<Encoding>,
    head: i64,
    v: Seq<T>,
) -> bool {
    &&& v.len() > 0
    &&& forall|i: int|
        0 <= i < v.len() ==> T::decoded(
            s,
            (if i == 0 {
                head
            } else {
                v[i - 1].spec_next().unwrap()
            }) as int,
            v3,
            enc,
            #[trigger] v[i],
        )
    &&& forall|i: int| 0 <= i < v.len() - 1 ==> (#[trigger] v[i]).spec_next() is Some
    &&& v[v.len() - 1].spec_next() is None
}

/// Decodes the linked list of records that starts at `head`. A list that
/// would hold more records than the file has bytes loops back on itself and
/// is refused.
pub fn get_record_vec<T: Decodable + RecordList>(d: &mut Decoder, head: i64) -> (r: Result<Vec<T>, DecodeError>)
    ensures
        final(d).same_input(*old(d)),
        final(d).context.encoding == old(d).context.encoding,
        final(d).context.size_r_dims == old(d).context.size_r_dims,
        r matches Ok(v) ==> chain_from(old(d).data@, old(d).v3(), old(d).context.encoding, head, v@),
        chain_ok::<T>(old(d).data@, old(d).v3(), old(d).context.encoding, old(d).context.r_dims(), head, old(d).data@.len())
            ==> (r matches Ok(v) && v@.len() == chain_len(old(d).data@, old(d).v3(), head, old(d).data@.len())),
        head < 0 ==> r == Err::<Vec<T>, DecodeError>(DecodeError::IntegerOutOfRange(Field::Offset)),
{
    if head < 0 {
        return Err(DecodeError::IntegerOutOfRange(Field::Offset));
    }
    let ghost d0 = *d;
    let mut out: Vec<T> = Vec::new();
    let mut next = head;
    let limit = d.data.len();
    let mut count: usize = 0;
    loop
        invariant
            d0 == *old(d),
            head >= 0,
            d.same_input(d0),
            d.context.encoding == d0.context.encoding,
            d.context.size_r_dims == d0.context.size_r_dims,
            limit == d0.data@.len(),
            count == out@.len(),
            count <= limit,
            forall|i: int|
                0 <= i < out@.len() ==> T::decoded(
                    d0.data@,
                    (if i == 0 {
                        head
                    } else {
                        out@[i - 1].spec_next().unwrap()
                    }) as int,
                    d0.v3(),
                    d0.context.encoding,
                    #[trigger] out@[i],
                ),
            forall|i: int| 0 <= i < out@.len() ==> (#[trigger] out@[i]).spec_next() is Some,
            out@.len() > 0 ==> next == out@[out@.len() - 1].spec_next().unwrap(),
            out@.len() == 0 ==> next == head,
            chain_ok::<T>(d0.data@, d0.v3(), d0.context.encoding, d0.context.r_dims(), head, limit as nat) ==> chain_ok::<T>(
                d0.data@,
                d0.v3(),
                d0.context.encoding,
                d0.context.r_dims(),
                next,
                (limit - count) as nat,
            ) && chain_len(d0.data@, d0.v3(), head, limit as nat) == count + chain_len(
                d0.data@,
                d0.v3(),
                next,
                (limit - count) as nat,
            ),
        decreases limit - count,
    {
        if count == limit {
            return Err(DecodeError::OffsetCycle);
        }
        let ghost at = next;
        let ghost fuel = (limit - count) as nat;
        d.seek(next)?;
        let rec = T::decode_be(d)?;
        let n = rec.next_record();
        proof {
            T::lemma_next(d0.data@, at as int, d0.v3(), d0.context.encoding, rec);
        }
        out.push(rec);
        count = count + 1;
        match n {
            Some(p) => {
                next = p;
            },
            None => {
                return Ok(out);
            },
        }
    }
}

/// Exactly 0 marks a missing next record or head, and exactly -1 a missing
/// compression offset or index entry.
pub proof fn lemma_absence_sentinels(x: int)
    requires
        i64::MIN <= x <= i64::MAX,
    ensures
        nonzero(x) is None <==> x == 0,
        nonzero(x) matches Some(y) ==> y == x,
        not_minus_one(x) is None <==> x == -1,
        not_minus_one(x) matches Some(y) ==> y == x,
{
}

} // verus!
