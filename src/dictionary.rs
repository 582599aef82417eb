use vstd::prelude::*;

use crate::error::CodecError;
use crate::value::ColumnValue;

verus! {

/// The distinct values of a column, each once, in the order in which they
/// first appear.
pub open spec fn first_occurrences<V>(column: Seq<V>) -> Seq<V>
    decreases column.len(),
{
    if column.len() == 0 {
        Seq::empty()
    } else {
        let earlier = first_occurrences(column.drop_last());
        if earlier.contains(column.last()) {
            earlier
        } else {
            earlier.push(column.last())
        }
    }
}

/// Each row's index looked up in the dictionary.
pub open spec fn lookup<V>(index: Seq<u32>, dictionary: Seq<V>) -> Seq<V> {
    Seq::new(index.len(), |r: int| dictionary[index[r] as int])
}

/// Every stored index points into the dictionary.
pub open spec fn indices_in_range(index: Seq<u32>, size: nat) -> bool {
    forall|r: int| 0 <= r < index.len() ==> (#[trigger] index[r]) < size
}

/// `index` and `dictionary` are the dictionary encoding of `column`: the
/// dictionary holds the distinct values in order of first appearance, and
/// each row stores the position of its value there.
pub open spec fn is_dictionary_of<V>(index: Seq<u32>, dictionary: Seq<V>, column: Seq<V>) -> bool {
    &&& dictionary == first_occurrences(column)
    &&& indices_in_range(index, dictionary.len())
    &&& lookup(index, dictionary) == column
}

/// What decoding a stored pair of sub-columns gives: the column, or nothing
/// when an index is out of range.
pub open spec fn dictionary_decoded<V>(index: Seq<u32>, dictionary: Seq<V>) -> Option<Seq<V>> {
    if indices_in_range(index, dictionary.len()) {
        Some(lookup(index, dictionary))
    } else {
        None
    }
}

/// The first row whose index is out of range.
pub open spec fn first_bad_row(index: Seq<u32>, size: nat, row: int) -> bool {
    &&& 0 <= row < index.len()
    &&& index[row] >= size
    &&& indices_in_range(index.subrange(0, row), size)
}

pub proof fn lemma_first_occurrences<V>(column: Seq<V>)
    ensures
        first_occurrences(column).no_duplicates(),
        first_occurrences(column).len() <= column.len(),
        forall|x: V| first_occurrences(column).contains(x) <==> column.contains(x),
    decreases column.len(),
{
    if column.len() > 0 {
        let rest = column.drop_last();
        lemma_first_occurrences(rest);
        assert forall|x: V| column.contains(x) <==> (rest.contains(x) || x == column.last()) by {
            if column.contains(x) {
                let k = choose|k: int| 0 <= k < column.len() && column[k] == x;
                if k < column.len() - 1 {
                    assert(rest[k] == x);
                }
            }
            if rest.contains(x) {
                let k = choose|k: int| 0 <= k < rest.len() && rest[k] == x;
                assert(column[k] == x);
            }
            if x == column.last() {
                assert(column[column.len() - 1] == x);
            }
        }
        let earlier = first_occurrences(rest);
        if !earlier.contains(column.last()) {
            let now = earlier.push(column.last());
            assert forall|x: V| now.contains(x) <==> (earlier.contains(x) || x == column.last()) by {
                if now.contains(x) {
                    let k = choose|k: int| 0 <= k < now.len() && now[k] == x;
                    if k < earlier.len() {
                        assert(earlier[k] == x);
                    }
                }
                if earlier.contains(x) {
                    let k = choose|k: int| 0 <= k < earlier.len() && earlier[k] == x;
                    assert(now[k] == x);
                }
                if x == column.last() {
                    assert(now[now.len() - 1] == x);
                }
            }
        }
    }
}

/// The dictionary of a column has as many entries as the column has
/// distinct values.
pub proof fn lemma_dictionary_size<V>(column: Seq<V>)
    ensures
        first_occurrences(column).len() == column.to_set().len(),
{
    lemma_first_occurrences(column);
    let d = first_occurrences(column);
    d.unique_seq_to_set();
    assert(d.to_set() =~= column.to_set());
}

/// The bucket of a value among `n` buckets.
pub open spec fn bucket_of<T: ColumnValue>(model: T::V, n: nat) -> int {
    (T::key_of(model) % (n as u64)) as int
}

/// Every dictionary position is listed in the bucket of its value's key,
/// and every listed position is inside the dictionary.
pub open spec fn buckets_index<T: ColumnValue>(buckets: Seq<Vec<usize>>, dictionary: Seq<T::V>) -> bool {
    &&& forall|p: int|
        0 <= p < dictionary.len() ==> buckets[bucket_of::<T>(#[trigger] dictionary[p], buckets.len())]@.contains(
            p as usize,
        )
    &&& forall|b: int, j: int|
        0 <= b < buckets.len() && 0 <= j < buckets[b]@.len() ==> #[trigger] buckets[b]@[j]
            < dictionary.len()
}

/// Position of `v` in `dictionary`, looked for among the positions of one
/// bucket.
fn position_in_bucket<T: ColumnValue>(dictionary: &Vec<T>, bucket: &Vec<usize>, v: &T) -> (r: Option<usize>)
    requires
        forall|j: int| 0 <= j < bucket@.len() ==> #[trigger] bucket@[j] < dictionary.len(),
    ensures
        match r {
            Some(k) => k < dictionary.len() && dictionary.deep_view()[k as int] == v.deep_view(),
            None => forall|j: int|
                0 <= j < bucket@.len() ==> dictionary.deep_view()[#[trigger] bucket@[j] as int]
                    != v.deep_view(),
        },
{
    let mut j: usize = 0;
    while j < bucket.len()
        invariant
            j <= bucket@.len(),
            forall|i: int| 0 <= i < bucket@.len() ==> #[trigger] bucket@[i] < dictionary.len(),
            forall|i: int|
                0 <= i < j ==> dictionary.deep_view()[#[trigger] bucket@[i] as int] != v.deep_view(),
        decreases bucket.len() - j,
    {
        let p = bucket[j];
        if dictionary[p].same(v) {
            return Some(p);
        }
        j = j + 1;
    }
    None
}

/// A copy of `positions` with `p` added at the end.
fn with_position(positions: &Vec<usize>, p: usize) -> (r: Vec<usize>)
    ensures
        r@ == positions@.push(p),
{
    let mut out: Vec<usize> = Vec::new();
    let mut j: usize = 0;
    while j < positions.len()
        invariant
            j <= positions@.len(),
            out@ == positions@.subrange(0, j as int),
        decreases positions.len() - j,
    {
        out.push(positions[j]);
        assert(out@ =~= positions@.subrange(0, j + 1));
        j = j + 1;
    }
    out.push(p);
    assert(out@ =~= positions@.push(p));
    out
}

/// Dictionary encoding of one column: one index per row into an ordered list
/// of the column's distinct values.
pub struct DictionaryArtifact<T> {
    pub index: Vec<u32>,
    pub values: Vec<T>,
}

impl<T: ColumnValue> DictionaryArtifact<T> {
    /// The dictionary, as models.
    pub open spec fn value_models(&self) -> Seq<T::V> {
        self.values.deep_view()
    }

    /// The artifact of an empty column.
    pub fn new() -> (r: Self)
        ensures
            r.index@.len() == 0,
            r.values@.len() == 0,
    {
        DictionaryArtifact { index: Vec::new(), values: Vec::new() }
    }

    /// Encodes a column. A value seen for the first time is added at the end
    /// of the dictionary; each row stores the position of its value.
    pub fn encode(column: &Vec<T>) -> (r: Self)
        requires
            column.len() <= u32::MAX,
        ensures
            is_dictionary_of(r.index@, r.value_models(), column.deep_view()),
    {
        let mut index: Vec<u32> = Vec::new();
        let mut values: Vec<T> = Vec::new();
        let n_buckets: usize = column.len() / 4 + 1;
        let mut buckets: Vec<Vec<usize>> = Vec::new();
        while buckets.len() < n_buckets
            invariant
                buckets.len() <= n_buckets,
                forall|b: int| 0 <= b < buckets.len() ==> (#[trigger] buckets@[b])@.len() == 0,
            decreases n_buckets - buckets.len(),
        {
            buckets.push(Vec::new());
        }
        let mut i: usize = 0;
        while i < column.len()
            invariant
                i <= column.len() <= u32::MAX,
                n_buckets >= 1,
                buckets.len() == n_buckets,
                index.len() == i,
                values.deep_view() == first_occurrences(column.deep_view().subrange(0, i as int)),
                indices_in_range(index@, values.len() as nat),
                forall|r: int| 0 <= r < i ==> values.deep_view()[#[trigger] index@[r] as int] == column.deep_view()[r],
                buckets_index::<T>(buckets@, values.deep_view()),
            decreases column.len() - i,
        {
            let ghost prefix = column.deep_view().subrange(0, i as int);
            let ghost next = column.deep_view().subrange(0, i + 1);
            proof {
                assert(next.drop_last() =~= prefix);
                lemma_first_occurrences(prefix);
            }
            let b = (column[i].key() % (n_buckets as u64)) as usize;
            assert(b == bucket_of::<T>(column.deep_view()[i as int], n_buckets as nat));
            match position_in_bucket(&values, &buckets[b], &column[i]) {
                Some(k) => {
                    index.push(k as u32);
                },
                None => {
                    proof {
                        if values.deep_view().contains(column.deep_view()[i as int]) {
                            let p = choose|p: int|
                                0 <= p < values.deep_view().len() && values.deep_view()[p]
                                    == column.deep_view()[i as int];
                            assert(buckets@[b as int]@.contains(p as usize));
                            let j = choose|j: int| 0 <= j < buckets@[b as int]@.len() && buckets@[b as int]@[j] == p as usize;
                            assert(values.deep_view()[buckets@[b as int]@[j] as int] != column.deep_view()[i as int]);
                        }
                    }
                    let k = values.len();
                    let ghost before = values.deep_view();
                    let ghost old_buckets = buckets@;
                    values.push(column[i].duplicate());
                    assert(values.deep_view() =~= before.push(column.deep_view()[i as int]));
                    let grown = with_position(&buckets[b], k);
                    buckets.set(b, grown);
                    proof {
                        let now = values.deep_view();
                        assert forall|p: int| 0 <= p < now.len() implies buckets@[bucket_of::<T>(
                            #[trigger] now[p],
                            buckets@.len(),
                        )]@.contains(p as usize) by {
                            let bp = bucket_of::<T>(now[p], buckets@.len());
                            if p < k {
                                assert(now[p] == before[p]);
                                assert(old_buckets[bp]@.contains(p as usize));
                                if bp == b {
                                    let j = choose|j: int| 0 <= j < old_buckets[bp]@.len() && old_buckets[bp]@[j] == p as usize;
                                    assert(buckets@[bp]@[j] == p as usize);
                                }
                            } else {
                                assert(buckets@[bp]@[old_buckets[b as int]@.len() as int] == k);
                            }
                        }
                        assert forall|c: int, j: int|
                            0 <= c < buckets@.len() && 0 <= j < buckets@[c]@.len() implies #[trigger] buckets@[c]@[j]
                                < now.len() by {
                            if c != b && j < old_buckets[c]@.len() {
                                assert(buckets@[c] == old_buckets[c]);
                            }
                            if c == b && j < old_buckets[c]@.len() {
                                assert(buckets@[c]@[j] == old_buckets[c]@[j]);
                            }
                        }
                    }
                    index.push(k as u32);
                },
            }
            i = i + 1;
        }
        proof {
            assert(column.deep_view().subrange(0, i as int) =~= column.deep_view());
            assert(lookup(index@, values.deep_view()) =~= column.deep_view());
        }
        DictionaryArtifact { index, values }
    }

    /// Looks every row up in the dictionary. Fails with
    /// `DictionaryIndexOutOfRange` at the first row whose index is not below
    /// the dictionary's length.
    pub fn decode(&self) -> (r: Result<Vec<T>, CodecError>)
        ensures
            match r {
                Ok(column) => dictionary_decoded(self.index@, self.value_models()) == Some(
                    column.deep_view(),
                ),
                Err(e) => dictionary_decoded(self.index@, self.value_models()) is None
                    && exists|row: int|
                    first_bad_row(self.index@, self.values.len() as nat, row)
                        && e == CodecError::DictionaryIndexOutOfRange { row: row as usize },
            },
    {
        let mut out: Vec<T> = Vec::new();
        let mut r: usize = 0;
        while r < self.index.len()
            invariant
                r <= self.index.len(),
                indices_in_range(self.index@.subrange(0, r as int), self.values.len() as nat),
                out.deep_view() == lookup(self.index@.subrange(0, r as int), self.value_models()),
            decreases self.index.len() - r,
        {
            let k = self.index[r];
            if k as usize >= self.values.len() {
                assert(first_bad_row(self.index@, self.values.len() as nat, r as int));
                return Err(CodecError::DictionaryIndexOutOfRange { row: r });
            }
            let ghost before = out.deep_view();
            out.push(self.values[k as usize].duplicate());
            proof {
                assert(out.deep_view() =~= before.push(self.value_models()[k as int]));
                assert(self.index@.subrange(0, r + 1).drop_last() =~= self.index@.subrange(0, r as int));
                assert(out.deep_view() =~= lookup(self.index@.subrange(0, r + 1), self.value_models()));
                assert forall|j: int| 0 <= j < r + 1 implies (#[trigger] self.index@.subrange(0, r + 1)[j])
                    < self.values.len() by {
                    if j < r {
                        assert(self.index@.subrange(0, r + 1)[j] == self.index@.subrange(0, r as int)[j]);
                    }
                }
            }
            r = r + 1;
        }
        assert(self.index@.subrange(0, r as int) =~= self.index@);
        Ok(out)
    }
}

/// Decoding the dictionary encoding of a column gives back that column, and
/// the dictionary has one entry per distinct value.
pub proof fn lemma_dictionary_round_trip<V>(column: Seq<V>, index: Seq<u32>, dictionary: Seq<V>)
    requires
        is_dictionary_of(index, dictionary, column),
    ensures
        dictionary_decoded(index, dictionary) == Some(column),
        dictionary.len() == column.to_set().len(),
{
    lemma_dictionary_size(column);
}

} // verus!
