//! The binary-serialization layer: a `BitcoinType` capability per wire type,
//! stating the byte-exact layout as spec-level encode and decode functions,
//! with executable encoders and decoders proved against them.
//!
//! Every numeric field is little-endian. Counts travel as variable-length
//! integers whose one-byte tag selects the trailing width.

use vstd::prelude::*;

use crate::scanner::DecodeError;
use crate::scanner::Scanner;

verus! {

broadcast use vstd::seq_lib::group_seq_properties;

/// A type with a bit-exact wire encoding.
///
/// The specification side speaks of a mathematical `Model` of the value
/// (sequences in place of vectors), so that a decoded value is pinned even
/// where the executable type is opaque to the solver. `m_enc` gives the wire
/// bytes of a model; `dec` gives, for every byte sequence, either the model
/// read from its front together with the exact number of bytes consumed, or
/// the failure. Encoding never fails on a well-formed (`m_wf`) model.
pub trait BitcoinType: Sized {
    /// The mathematical model of a value of this type.
    type Model;

    /// The model of this value.
    spec fn model(&self) -> Self::Model;

    /// Which models have a wire encoding.
    spec fn m_wf(m: Self::Model) -> bool;

    /// The byte-exact wire encoding of a model.
    spec fn m_enc(m: Self::Model) -> Seq<u8>;

    /// What decoding reads from the front of `s`: the model and the number
    /// of bytes consumed, or the failure.
    spec fn dec(s: Seq<u8>) -> Result<(Self::Model, int), DecodeError>;

    /// Decoding what was encoded yields the value back and consumes exactly
    /// its encoding, whatever bytes follow it.
    proof fn lemma_round_trip(m: Self::Model, rest: Seq<u8>)
        requires
            Self::m_wf(m),
        ensures
            Self::dec(Self::m_enc(m) + rest) == Ok::<(Self::Model, int), DecodeError>(
                (m, Self::m_enc(m).len() as int),
            );

    /// Serialize this value: the returned buffer holds exactly the model's
    /// encoding.
    fn to_blob(&self) -> (r: Vec<u8>)
        requires
            Self::m_wf(self.model()),
        ensures
            r@ == Self::m_enc(self.model());

    /// Deserialize a value from the scanner's cursor. The result and the
    /// cursor movement follow `Self::dec` of the unconsumed bytes exactly;
    /// on failure the cursor never moves backwards nor past the end.
    fn from_blob(blob: &mut Scanner) -> (r: Result<Self, DecodeError>)
        requires
            old(blob).wf(),
        ensures
            final(blob).wf(),
            final(blob).data() == old(blob).data(),
            final(blob).pos() >= old(blob).pos(),
            match Self::dec(old(blob).remaining()) {
                Ok((m, n)) => ({
                    &&& r matches Ok(v) && v.model() == m
                    &&& final(blob).pos() == old(blob).pos() + n
                }),
                Err(e) => r matches Err(e2) && e2 == e,
            },
    ;
}

/// After a decoder consumed some bytes, the unconsumed bytes are the old
/// unconsumed bytes past the consumed count. This is the glue between two
/// chained decoders on one scanner.
pub proof fn lemma_remaining_skip(pre: Scanner, post: Scanner)
    requires
        pre.wf(),
        post.wf(),
        post.data() == pre.data(),
        post.pos() >= pre.pos(),
    ensures
        post.remaining() == pre.remaining().skip(post.pos() - pre.pos()),
{
    vstd::seq_lib::lemma_seq_skip_of_skip(pre.data(), pre.pos(), post.pos() - pre.pos());
    assert(post.remaining() =~= pre.remaining().skip(post.pos() - pre.pos()));
}

impl BitcoinType for u8 {
    type Model = u8;

    open spec fn model(&self) -> u8 {
        *self
    }

    open spec fn m_wf(m: u8) -> bool {
        true
    }

    open spec fn m_enc(m: u8) -> Seq<u8> {
        seq![m]
    }

    open spec fn dec(s: Seq<u8>) -> Result<(u8, int), DecodeError> {
        if s.len() >= 1 {
            Ok((s[0], 1))
        } else {
            Err(DecodeError::Overrun)
        }
    }

    proof fn lemma_round_trip(m: u8, rest: Seq<u8>) {
        assert((seq![m] + rest)[0] == m);
    }

    fn to_blob(&self) -> (r: Vec<u8>) {
        let mut r: Vec<u8> = Vec::new();
        r.push(*self);
        proof {
            assert(r@ =~= seq![*self]);
        }
        r
    }

    fn from_blob(blob: &mut Scanner) -> (r: Result<Self, DecodeError>) {
        let ghost s = old(blob).remaining();
        proof {
            assert(Self::dec(s) == (if s.len() >= 1 {
                Ok::<(u8, int), DecodeError>((s[0], 1))
            } else {
                Err::<(u8, int), DecodeError>(DecodeError::Overrun)
            }));
        }
        let piece = blob.take(1)?;
        let v = piece[0];
        proof {
            assert(v == s[0]);
            assert(v.model() == v);
        }
        Ok(v)
    }
}

impl BitcoinType for u16 {
    type Model = u16;

    open spec fn model(&self) -> u16 {
        *self
    }

    open spec fn m_wf(m: u16) -> bool {
        true
    }

    open spec fn m_enc(m: u16) -> Seq<u8> {
        vstd::bytes::spec_u16_to_le_bytes(m)
    }

    open spec fn dec(s: Seq<u8>) -> Result<(u16, int), DecodeError> {
        if s.len() >= 2 {
            Ok((vstd::bytes::spec_u16_from_le_bytes(s.take(2)), 2))
        } else {
            Err(DecodeError::Overrun)
        }
    }

    proof fn lemma_round_trip(m: u16, rest: Seq<u8>) {
        vstd::bytes::lemma_auto_spec_u16_to_from_le_bytes();
    }

    fn to_blob(&self) -> (r: Vec<u8>) {
        vstd::bytes::u16_to_le_bytes(*self)
    }

    fn from_blob(blob: &mut Scanner) -> (r: Result<Self, DecodeError>) {
        let piece = blob.take(2)?;
        Ok(vstd::bytes::u16_from_le_bytes(piece.as_slice()))
    }
}

impl BitcoinType for u32 {
    type Model = u32;

    open spec fn model(&self) -> u32 {
        *self
    }

    open spec fn m_wf(m: u32) -> bool {
        true
    }

    open spec fn m_enc(m: u32) -> Seq<u8> {
        vstd::bytes::spec_u32_to_le_bytes(m)
    }

    open spec fn dec(s: Seq<u8>) -> Result<(u32, int), DecodeError> {
        if s.len() >= 4 {
            Ok((vstd::bytes::spec_u32_from_le_bytes(s.take(4)), 4))
        } else {
            Err(DecodeError::Overrun)
        }
    }

    proof fn lemma_round_trip(m: u32, rest: Seq<u8>) {
        vstd::bytes::lemma_auto_spec_u32_to_from_le_bytes();
    }

    fn to_blob(&self) -> (r: Vec<u8>) {
        vstd::bytes::u32_to_le_bytes(*self)
    }

    fn from_blob(blob: &mut Scanner) -> (r: Result<Self, DecodeError>) {
        let piece = blob.take(4)?;
        Ok(vstd::bytes::u32_from_le_bytes(piece.as_slice()))
    }
}

impl BitcoinType for u64 {
    type Model = u64;

    open spec fn model(&self) -> u64 {
        *self
    }

    open spec fn m_wf(m: u64) -> bool {
        true
    }

    open spec fn m_enc(m: u64) -> Seq<u8> {
        vstd::bytes::spec_u64_to_le_bytes(m)
    }

    open spec fn dec(s: Seq<u8>) -> Result<(u64, int), DecodeError> {
        if s.len() >= 8 {
            Ok((vstd::bytes::spec_u64_from_le_bytes(s.take(8)), 8))
        } else {
            Err(DecodeError::Overrun)
        }
    }

    proof fn lemma_round_trip(m: u64, rest: Seq<u8>) {
        vstd::bytes::lemma_auto_spec_u64_to_from_le_bytes();
    }

    fn to_blob(&self) -> (r: Vec<u8>) {
        vstd::bytes::u64_to_le_bytes(*self)
    }

    fn from_blob(blob: &mut Scanner) -> (r: Result<Self, DecodeError>) {
        let piece = blob.take(8)?;
        Ok(vstd::bytes::u64_from_le_bytes(piece.as_slice()))
    }
}

impl BitcoinType for bool {
    type Model = bool;

    open spec fn model(&self) -> bool {
        *self
    }

    open spec fn m_wf(m: bool) -> bool {
        true
    }

    open spec fn m_enc(m: bool) -> Seq<u8> {
        seq![if m { 1u8 } else { 0u8 }]
    }

    open spec fn dec(s: Seq<u8>) -> Result<(bool, int), DecodeError> {
        if s.len() >= 1 {
            Ok((s[0] != 0, 1))
        } else {
            Err(DecodeError::Overrun)
        }
    }

    proof fn lemma_round_trip(m: bool, rest: Seq<u8>) {
        assert((Self::m_enc(m) + rest)[0] == Self::m_enc(m)[0]);
    }

    fn to_blob(&self) -> (r: Vec<u8>) {
        let mut r: Vec<u8> = Vec::new();
        r.push(if *self { 1u8 } else { 0u8 });
        proof {
            assert(r@ =~= Self::m_enc(*self));
        }
        r
    }

    fn from_blob(blob: &mut Scanner) -> (r: Result<Self, DecodeError>) {
        let piece = blob.take(1)?;
        Ok(piece[0] != 0)
    }
}

/// The variable-length integer encoding: values below 0xFD stand alone in
/// one byte; otherwise a tag byte 0xFD/0xFE/0xFF announces a trailing
/// little-endian u16/u32/u64. The encoder picks the smallest form that holds
/// the value.
pub open spec fn varint_enc(v: u64) -> Seq<u8> {
    if v < 0xfd {
        seq![v as u8]
    } else if v <= 0xffff {
        seq![0xfdu8] + vstd::bytes::spec_u16_to_le_bytes(v as u16)
    } else if v <= 0xffff_ffff {
        seq![0xfeu8] + vstd::bytes::spec_u32_to_le_bytes(v as u32)
    } else {
        seq![0xffu8] + vstd::bytes::spec_u64_to_le_bytes(v)
    }
}

/// The variable-length integer decoding: dispatch on the first byte, then
/// read the announced width. Nothing is rejected for being non-minimal; the
/// reader policy follows the reference network.
pub open spec fn varint_dec(s: Seq<u8>) -> Result<(u64, int), DecodeError> {
    if s.len() < 1 {
        Err(DecodeError::Overrun)
    } else if s[0] == 0xfd {
        if s.len() >= 3 {
            Ok((vstd::bytes::spec_u16_from_le_bytes(s.subrange(1, 3)) as u64, 3))
        } else {
            Err(DecodeError::Overrun)
        }
    } else if s[0] == 0xfe {
        if s.len() >= 5 {
            Ok((vstd::bytes::spec_u32_from_le_bytes(s.subrange(1, 5)) as u64, 5))
        } else {
            Err(DecodeError::Overrun)
        }
    } else if s[0] == 0xff {
        if s.len() >= 9 {
            Ok((vstd::bytes::spec_u64_from_le_bytes(s.subrange(1, 9)), 9))
        } else {
            Err(DecodeError::Overrun)
        }
    } else {
        Ok((s[0] as u64, 1))
    }
}

/// Variable-length integer round trip, over the whole `u64` domain.
pub proof fn lemma_varint_round_trip(v: u64, rest: Seq<u8>)
    ensures
        varint_dec(varint_enc(v) + rest) == Ok::<(u64, int), DecodeError>(
            (v, varint_enc(v).len() as int),
        ),
{
    vstd::bytes::lemma_auto_spec_u16_to_from_le_bytes();
    vstd::bytes::lemma_auto_spec_u32_to_from_le_bytes();
    vstd::bytes::lemma_auto_spec_u64_to_from_le_bytes();
    let s = varint_enc(v) + rest;
    if v < 0xfd {
        assert(s[0] == v as u8);
    } else if v <= 0xffff {
        assert(s[0] == 0xfd);
        assert(s.subrange(1, 3) =~= vstd::bytes::spec_u16_to_le_bytes(v as u16));
    } else if v <= 0xffff_ffff {
        assert(s[0] == 0xfe);
        assert(s.subrange(1, 5) =~= vstd::bytes::spec_u32_to_le_bytes(v as u32));
    } else {
        assert(s[0] == 0xff);
        assert(s.subrange(1, 9) =~= vstd::bytes::spec_u64_to_le_bytes(v));
    }
}

/// Counts on the wire (vector lengths, string lengths) are `usize` in memory
/// and variable-length integers on the wire. A count that cannot exist in
/// memory (beyond `usize::MAX`) could only ever announce more bytes than any
/// buffer holds, so decoding reports it as an overrun.
impl BitcoinType for usize {
    type Model = usize;

    open spec fn model(&self) -> usize {
        *self
    }

    open spec fn m_wf(m: usize) -> bool {
        true
    }

    open spec fn m_enc(m: usize) -> Seq<u8> {
        varint_enc(m as u64)
    }

    open spec fn dec(s: Seq<u8>) -> Result<(usize, int), DecodeError> {
        match varint_dec(s) {
            Ok((v, n)) => if v <= usize::MAX as u64 {
                Ok((v as usize, n))
            } else {
                Err(DecodeError::Overrun)
            },
            Err(e) => Err(e),
        }
    }

    proof fn lemma_round_trip(m: usize, rest: Seq<u8>) {
        lemma_varint_round_trip(m as u64, rest);
    }

    fn to_blob(&self) -> (r: Vec<u8>) {
        let v = *self as u64;
        let mut r: Vec<u8> = Vec::new();
        if v < 0xfd {
            r.push(v as u8);
            proof {
                assert(r@ =~= varint_enc(v));
            }
        } else if v <= 0xffff {
            r.push(0xfd);
            let mut tail = vstd::bytes::u16_to_le_bytes(v as u16);
            r.append(&mut tail);
            proof {
                assert(r@ =~= varint_enc(v));
            }
        } else if v <= 0xffff_ffff {
            r.push(0xfe);
            let mut tail = vstd::bytes::u32_to_le_bytes(v as u32);
            r.append(&mut tail);
            proof {
                assert(r@ =~= varint_enc(v));
            }
        } else {
            r.push(0xff);
            let mut tail = vstd::bytes::u64_to_le_bytes(v);
            r.append(&mut tail);
            proof {
                assert(r@ =~= varint_enc(v));
            }
        }
        r
    }

    fn from_blob(blob: &mut Scanner) -> (r: Result<Self, DecodeError>) {
        let ghost s = old(blob).remaining();
        let tag = u8::from_blob(blob)?;
        let wide: u64 = if tag == 0xfd {
            let piece = blob.take(2)?;
            proof {
                assert(piece@ =~= s.subrange(1, 3));
            }
            vstd::bytes::u16_from_le_bytes(piece.as_slice()) as u64
        } else if tag == 0xfe {
            let piece = blob.take(4)?;
            proof {
                assert(piece@ =~= s.subrange(1, 5));
            }
            vstd::bytes::u32_from_le_bytes(piece.as_slice()) as u64
        } else if tag == 0xff {
            let piece = blob.take(8)?;
            proof {
                assert(piece@ =~= s.subrange(1, 9));
            }
            vstd::bytes::u64_from_le_bytes(piece.as_slice())
        } else {
            tag as u64
        };
        if wide <= usize::MAX as u64 {
            Ok(wide as usize)
        } else {
            Err(DecodeError::Overrun)
        }
    }
}

/// Fixed-size byte arrays travel as their bytes, with no length prefix.
impl<const N: usize> BitcoinType for [u8; N] {
    type Model = Seq<u8>;

    open spec fn model(&self) -> Seq<u8> {
        self@
    }

    open spec fn m_wf(m: Seq<u8>) -> bool {
        m.len() == N
    }

    open spec fn m_enc(m: Seq<u8>) -> Seq<u8> {
        m
    }

    open spec fn dec(s: Seq<u8>) -> Result<(Seq<u8>, int), DecodeError> {
        if s.len() >= N {
            Ok((s.take(N as int), N as int))
        } else {
            Err(DecodeError::Overrun)
        }
    }

    proof fn lemma_round_trip(m: Seq<u8>, rest: Seq<u8>) {
        assert((m + rest).take(m.len() as int) =~= m);
    }

    fn to_blob(&self) -> (r: Vec<u8>) {
        vstd::slice::slice_to_vec(self.as_slice())
    }

    fn from_blob(blob: &mut Scanner) -> (r: Result<Self, DecodeError>) {
        let piece = blob.take(N)?;
        let mut a: [u8; N] = vstd::array::array_fill_for_copy_types(0u8);
        let mut i: usize = 0;
        while i < N
            invariant
                piece@.len() == N,
                0 <= i <= N,
                forall|j: int| 0 <= j < i ==> a@[j] == piece@[j],
            decreases N - i,
        {
            a[i] = piece[i];
            i = i + 1;
        }
        proof {
            assert(a@ =~= piece@);
        }
        Ok(a)
    }
}

/// The models of the elements of `s`, in order.
pub open spec fn models_of<T: BitcoinType>(s: Seq<T>) -> Seq<T::Model>
    decreases s.len(),
{
    if s.len() == 0 {
        Seq::empty()
    } else {
        seq![s[0].model()] + models_of::<T>(s.skip(1))
    }
}

/// `models_of` maps the sequence element by element.
pub broadcast proof fn lemma_models_of<T: BitcoinType>(s: Seq<T>)
    ensures
        (#[trigger] models_of::<T>(s)).len() == s.len(),
        forall|i: int| 0 <= i < s.len() ==> models_of::<T>(s)[i] == s[i].model(),
    decreases s.len(),
{
    if s.len() > 0 {
        lemma_models_of::<T>(s.skip(1));
        assert forall|i: int| 0 <= i < s.len() implies models_of::<T>(s)[i] == s[i].model() by {
            if i > 0 {
                assert(models_of::<T>(s)[i] == models_of::<T>(s.skip(1))[i - 1]);
            }
        }
    }
}

/// Pushing an element onto a sequence appends its model.
pub broadcast proof fn lemma_models_of_push<T: BitcoinType>(s: Seq<T>, t: T)
    ensures
        #[trigger] models_of::<T>(s.push(t)) == models_of::<T>(s).push(t.model()),
    decreases s.len(),
{
    lemma_models_of::<T>(s);
    lemma_models_of::<T>(s.push(t));
    assert(models_of::<T>(s.push(t)) =~= models_of::<T>(s).push(t.model()));
}

/// The concatenated encodings of the models in `ms`, in order.
pub open spec fn enc_elems<T: BitcoinType>(ms: Seq<T::Model>) -> Seq<u8>
    decreases ms.len(),
{
    if ms.len() == 0 {
        Seq::empty()
    } else {
        T::m_enc(ms[0]) + enc_elems::<T>(ms.skip(1))
    }
}

/// Decoding `count` consecutive elements from the front of `s`: the models
/// and the total bytes consumed, or the first failure.
pub open spec fn dec_elems<T: BitcoinType>(s: Seq<u8>, count: int) -> Result<
    (Seq<T::Model>, int),
    DecodeError,
>
    decreases count,
{
    if count <= 0 {
        Ok((Seq::empty(), 0))
    } else {
        match T::dec(s) {
            Ok((m, n)) => match dec_elems::<T>(s.skip(n), count - 1) {
                Ok((ms, n2)) => Ok((seq![m] + ms, n + n2)),
                Err(e) => Err(e),
            },
            Err(e) => Err(e),
        }
    }
}

/// Appending one model to a batch appends its encoding to the batch's bytes.
pub proof fn lemma_enc_elems_snoc<T: BitcoinType>(ms: Seq<T::Model>, m: T::Model)
    ensures
        enc_elems::<T>(ms.push(m)) == enc_elems::<T>(ms) + T::m_enc(m),
    decreases ms.len(),
{
    if ms.len() == 0 {
        assert(ms.push(m)[0] == m);
        assert(ms.push(m).skip(1) =~= Seq::<T::Model>::empty());
        assert(enc_elems::<T>(ms.push(m)) =~= enc_elems::<T>(ms) + T::m_enc(m));
    } else {
        assert(ms.push(m).skip(1) =~= ms.skip(1).push(m));
        lemma_enc_elems_snoc::<T>(ms.skip(1), m);
        assert(enc_elems::<T>(ms.push(m)) =~= enc_elems::<T>(ms) + T::m_enc(m));
    }
}

/// Round trip for a batch of `count` elements, whatever bytes follow.
pub proof fn lemma_dec_elems_round_trip<T: BitcoinType>(ms: Seq<T::Model>, rest: Seq<u8>)
    requires
        forall|i: int| 0 <= i < ms.len() ==> T::m_wf(#[trigger] ms[i]),
    ensures
        dec_elems::<T>(enc_elems::<T>(ms) + rest, ms.len() as int) == Ok::<
            (Seq<T::Model>, int),
            DecodeError,
        >((ms, enc_elems::<T>(ms).len() as int)),
    decreases ms.len(),
{
    if ms.len() == 0 {
        assert(enc_elems::<T>(ms) + rest =~= rest);
        assert(ms =~= Seq::<T::Model>::empty());
    } else {
        let head = ms[0];
        let tail = ms.skip(1);
        let tail_bytes = enc_elems::<T>(tail) + rest;
        T::lemma_round_trip(head, tail_bytes);
        assert(enc_elems::<T>(ms) + rest =~= T::m_enc(head) + tail_bytes);
        vstd::seq_lib::lemma_seq_append_take_skip(T::m_enc(head), tail_bytes, T::m_enc(head).len() as int);
        lemma_dec_elems_round_trip::<T>(tail, rest);
        assert(seq![head] + tail =~= ms);
    }
}

/// Vectors travel as a variable-length count followed by that many element
/// encodings.
impl<T: BitcoinType> BitcoinType for Vec<T> {
    type Model = Seq<T::Model>;

    open spec fn model(&self) -> Seq<T::Model> {
        models_of::<T>(self@)
    }

    open spec fn m_wf(ms: Seq<T::Model>) -> bool {
        &&& ms.len() <= usize::MAX
        &&& forall|i: int| 0 <= i < ms.len() ==> T::m_wf(#[trigger] ms[i])
    }

    open spec fn m_enc(ms: Seq<T::Model>) -> Seq<u8> {
        varint_enc(ms.len() as u64) + enc_elems::<T>(ms)
    }

    open spec fn dec(s: Seq<u8>) -> Result<(Seq<T::Model>, int), DecodeError> {
        match <usize as BitcoinType>::dec(s) {
            Ok((count, n)) => match dec_elems::<T>(s.skip(n), count as int) {
                Ok((ms, n2)) => Ok((ms, n + n2)),
                Err(e) => Err(e),
            },
            Err(e) => Err(e),
        }
    }

    proof fn lemma_round_trip(ms: Seq<T::Model>, rest: Seq<u8>) {
        let count_bytes = varint_enc(ms.len() as u64);
        let elem_bytes = enc_elems::<T>(ms);
        lemma_varint_round_trip(ms.len() as u64, elem_bytes + rest);
        assert(Self::m_enc(ms) + rest =~= count_bytes + (elem_bytes + rest));
        vstd::seq_lib::lemma_seq_append_take_skip(count_bytes, elem_bytes + rest, count_bytes.len() as int);
        lemma_dec_elems_round_trip::<T>(ms, rest);
    }

    fn to_blob(&self) -> (r: Vec<u8>) {
        proof {
            lemma_models_of::<T>(self@);
        }
        let mut r = self.len().to_blob();
        let mut i: usize = 0;
        while i < self.len()
            invariant
                0 <= i <= self@.len(),
                Self::m_wf(self.model()),
                self.model().len() == self@.len(),
                r@ == varint_enc(self@.len() as u64) + enc_elems::<T>(self.model().take(i as int)),
            decreases self@.len() - i,
        {
            let ghost prefix = self.model().take(i as int);
            proof {
                lemma_models_of::<T>(self@);
            }
            assert(T::m_wf(self.model()[i as int]));
            let mut piece = self[i].to_blob();
            r.append(&mut piece);
            proof {
                lemma_enc_elems_snoc::<T>(prefix, self.model()[i as int]);
                assert(prefix.push(self.model()[i as int]) =~= self.model().take(i + 1));
            }
            i = i + 1;
        }
        proof {
            lemma_models_of::<T>(self@);
            assert(self.model().take(self@.len() as int) =~= self.model());
        }
        r
    }

    fn from_blob(blob: &mut Scanner) -> (r: Result<Self, DecodeError>) {
        let ghost s = old(blob).remaining();
        let count = usize::from_blob(blob)?;
        let ghost n0 = blob.pos() - old(blob).pos();
        let mut out: Vec<T> = Vec::new();
        let mut i: usize = 0;
        proof {
            assert(out.model() =~= Seq::<T::Model>::empty());
            vstd::seq_lib::lemma_seq_skip_of_skip(old(blob).data(), old(blob).pos(), n0);
            assert(blob.remaining() =~= s.skip(n0));
            assert forall|ms: Seq<T::Model>| #[trigger] (out.model() + ms) =~= ms by {}
        }
        while i < count
            invariant
                blob.wf(),
                blob.data() == old(blob).data(),
                old(blob).wf(),
                s == old(blob).remaining(),
                <usize as BitcoinType>::dec(s) == Ok::<(usize, int), DecodeError>((count, n0)),
                n0 >= 0,
                old(blob).pos() + n0 <= blob.pos() <= blob.data().len(),
                i <= count,
                out@.len() == i,
                dec_elems::<T>(s.skip(n0), count as int) == (match dec_elems::<T>(
                    blob.remaining(),
                    count - i,
                ) {
                    Ok((ms, n2)) => Ok::<(Seq<T::Model>, int), DecodeError>(
                        (out.model() + ms, (blob.pos() - old(blob).pos() - n0) + n2),
                    ),
                    Err(e) => Err(e),
                }),
            decreases count - i,
        {
            let ghost pre_models = out.model();
            let ghost pre_out = out@;
            let ghost pre_pos = blob.pos();
            let ghost cur = blob.remaining();
            let elem = match T::from_blob(blob) {
                Ok(elem) => elem,
                Err(e) => {
                    return Err(e);
                },
            };
            out.push(elem);
            i = i + 1;
            proof {
                let (m, n) = T::dec(cur)->Ok_0;
                lemma_models_of_push::<T>(pre_out, elem);
                vstd::seq_lib::lemma_seq_skip_of_skip(
                    blob.data(),
                    pre_pos,
                    n,
                );
                assert(blob.remaining() =~= cur.skip(n));
                assert(out.model() =~= pre_models.push(m));
                assert forall|ms2: Seq<T::Model>|
                    #[trigger] (out.model() + ms2) =~= pre_models + (seq![m] + ms2) by {}
            }
        }
        proof {
            assert(dec_elems::<T>(blob.remaining(), 0) == Ok::<(Seq<T::Model>, int), DecodeError>(
                (Seq::<T::Model>::empty(), 0),
            ));
            assert(out.model() + Seq::<T::Model>::empty() =~= out.model());
        }
        Ok(out)
    }
}

} // verus!

