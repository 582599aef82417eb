use vstd::prelude::*;

verus! {

/// `n`, or `u64::MAX` when `n` does not fit.
pub open spec fn saturate(n: int) -> u64 {
    if n > u64::MAX {
        u64::MAX
    } else {
        n as u64
    }
}

/// Multiplier of the byte-string key.
pub const KEY_MULTIPLIER: u64 = 31;

/// Multiplier that combines the keys of a pair.
pub const PAIR_MULTIPLIER: u64 = 1_000_003;

/// A polynomial key over bytes, with wrapping arithmetic.
pub open spec fn bytes_key(b: Seq<u8>) -> u64
    decreases b.len(),
{
    if b.len() == 0 {
        0
    } else {
        vstd::wrapping::u64_specs::wrapping_add(
            vstd::wrapping::u64_specs::wrapping_mul(bytes_key(b.drop_last()), KEY_MULTIPLIER),
            b.last() as u64,
        )
    }
}

/// Computes `bytes_key` of a byte slice.
pub fn key_of_bytes(b: &[u8]) -> (r: u64)
    ensures
        r == bytes_key(b@),
{
    let mut h: u64 = 0;
    let mut i: usize = 0;
    while i < b.len()
        invariant
            i <= b@.len(),
            h == bytes_key(b@.subrange(0, i as int)),
        decreases b.len() - i,
    {
        assert(b@.subrange(0, i + 1).drop_last() =~= b@.subrange(0, i as int));
        h = h.wrapping_mul(KEY_MULTIPLIER).wrapping_add(b[i] as u64);
        i = i + 1;
    }
    assert(b@.subrange(0, i as int) =~= b@);
    h
}

/// A value that a column can hold. Equality and copying are exact on the
/// value's model, its `deep_view`.
pub trait ColumnValue: Sized + DeepView {
    fn same(&self, other: &Self) -> (r: bool)
        ensures
            r == (self.deep_view() == other.deep_view()),
    ;

    fn duplicate(&self) -> (r: Self)
        ensures
            r.deep_view() == self.deep_view(),
    ;

    /// A 64-bit key that depends on the model alone, so equal values have
    /// equal keys.
    spec fn key_of(model: <Self as DeepView>::V) -> u64;

    fn key(&self) -> (r: u64)
        ensures
            r == Self::key_of(self.deep_view()),
    ;

    /// The bytes the value takes in memory; text counts one byte per
    /// character, which is exact for ASCII.
    spec fn size_in_bytes(&self) -> nat;

    fn byte_size(&self) -> (r: u64)
        ensures
            r == saturate(self.size_in_bytes() as int),
    ;
}

impl ColumnValue for u32 {
    fn same(&self, other: &Self) -> (r: bool) {
        *self == *other
    }

    fn duplicate(&self) -> (r: Self) {
        *self
    }

    open spec fn key_of(model: u32) -> u64 {
        model as u64
    }

    fn key(&self) -> (r: u64) {
        *self as u64
    }

    open spec fn size_in_bytes(&self) -> nat {
        4
    }

    fn byte_size(&self) -> (r: u64) {
        4
    }
}

impl ColumnValue for u64 {
    fn same(&self, other: &Self) -> (r: bool) {
        *self == *other
    }

    fn duplicate(&self) -> (r: Self) {
        *self
    }

    open spec fn key_of(model: u64) -> u64 {
        model
    }

    fn key(&self) -> (r: u64) {
        *self
    }

    open spec fn size_in_bytes(&self) -> nat {
        8
    }

    fn byte_size(&self) -> (r: u64) {
        8
    }
}

impl ColumnValue for String {
    fn same(&self, other: &Self) -> (r: bool) {
        *self == *other
    }

    fn duplicate(&self) -> (r: Self) {
        self.clone()
    }

    open spec fn key_of(model: Seq<char>) -> u64 {
        bytes_key(vstd::utf8::encode_utf8(model))
    }

    fn key(&self) -> (r: u64) {
        key_of_bytes(self.as_str().as_bytes())
    }

    open spec fn size_in_bytes(&self) -> nat {
        self@.len()
    }

    fn byte_size(&self) -> (r: u64) {
        self.as_str().unicode_len() as u64
    }
}

impl ColumnValue for Vec<u8> {
    fn same(&self, other: &Self) -> (r: bool) {
        if self.len() != other.len() {
            assert(self.deep_view().len() != other.deep_view().len());
            return false;
        }
        let mut i: usize = 0;
        while i < self.len()
            invariant
                self.len() == other.len(),
                i <= self.len(),
                forall|k: int| 0 <= k < i ==> self@[k] == other@[k],
            decreases self.len() - i,
        {
            if self[i] != other[i] {
                assert(self.deep_view()[i as int] != other.deep_view()[i as int]);
                return false;
            }
            i = i + 1;
        }
        assert(self.deep_view() =~= other.deep_view());
        true
    }

    fn duplicate(&self) -> (r: Self) {
        let mut out: Vec<u8> = Vec::new();
        let mut i: usize = 0;
        while i < self.len()
            invariant
                i <= self.len(),
                out@ =~= self@.subrange(0, i as int),
            decreases self.len() - i,
        {
            out.push(self[i]);
            i = i + 1;
        }
        assert(out.deep_view() =~= self.deep_view());
        out
    }

    open spec fn key_of(model: Seq<u8>) -> u64 {
        bytes_key(model)
    }

    fn key(&self) -> (r: u64) {
        assert(self.deep_view() =~= self@);
        key_of_bytes(self.as_slice())
    }

    open spec fn size_in_bytes(&self) -> nat {
        self@.len()
    }

    fn byte_size(&self) -> (r: u64) {
        self.len() as u64
    }
}

impl ColumnValue for (Vec<u8>, Vec<u8>) {
    fn same(&self, other: &Self) -> (r: bool) {
        self.0.same(&other.0) && self.1.same(&other.1)
    }

    fn duplicate(&self) -> (r: Self) {
        (self.0.duplicate(), self.1.duplicate())
    }

    open spec fn key_of(model: (Seq<u8>, Seq<u8>)) -> u64 {
        vstd::wrapping::u64_specs::wrapping_add(
            vstd::wrapping::u64_specs::wrapping_mul(bytes_key(model.0), PAIR_MULTIPLIER),
            bytes_key(model.1),
        )
    }

    fn key(&self) -> (r: u64) {
        self.0.key().wrapping_mul(PAIR_MULTIPLIER).wrapping_add(self.1.key())
    }

    open spec fn size_in_bytes(&self) -> nat {
        self.0.size_in_bytes() + self.1.size_in_bytes()
    }

    fn byte_size(&self) -> (r: u64) {
        self.0.byte_size().saturating_add(self.1.byte_size())
    }
}

} // verus!
