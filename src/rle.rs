use vstd::prelude::*;

use crate::error::CodecError;
use crate::value::ColumnValue;

verus! {

/// `count` copies of `v`.
pub open spec fn repeat<V>(v: V, count: nat) -> Seq<V> {
    Seq::new(count, |_i: int| v)
}

/// The column that a list of runs stands for: each value repeated as often
/// as its count says, in order.
pub open spec fn expand<V>(values: Seq<V>, counts: Seq<u32>) -> Seq<V>
    decreases values.len(),
{
    if values.len() == 0 || counts.len() == 0 {
        Seq::empty()
    } else {
        expand(values.drop_last(), counts.drop_last()) + repeat(
            values.last(),
            counts.last() as nat,
        )
    }
}

/// The number of rows that a list of run lengths stands for.
pub open spec fn total(counts: Seq<u32>) -> int
    decreases counts.len(),
{
    if counts.len() == 0 {
        0
    } else {
        total(counts.drop_last()) + counts.last()
    }
}

/// Every run is at least one row long.
pub open spec fn runs_positive(counts: Seq<u32>) -> bool {
    forall|i: int| 0 <= i < counts.len() ==> counts[i] > 0
}

/// No two neighbouring runs hold equal values.
pub open spec fn runs_maximal<V>(values: Seq<V>) -> bool {
    forall|i: int| 0 < i < values.len() ==> #[trigger] values[i] != values[i - 1]
}

/// `values` and `counts` are the canonical run-length encoding of `column`.
pub open spec fn is_run_length_of<V>(values: Seq<V>, counts: Seq<u32>, column: Seq<V>) -> bool {
    &&& values.len() == counts.len()
    &&& runs_positive(counts)
    &&& runs_maximal(values)
    &&& expand(values, counts) == column
}

/// What decoding a stored pair of sub-columns gives: the column, or nothing
/// when the pair is malformed.
pub open spec fn run_length_decoded<V>(values: Seq<V>, counts: Seq<u32>) -> Option<Seq<V>> {
    if values.len() == counts.len() && runs_positive(counts) && total(counts) <= usize::MAX {
        Some(expand(values, counts))
    } else {
        None
    }
}

pub proof fn lemma_total_nonneg(counts: Seq<u32>)
    ensures
        total(counts) >= 0,
    decreases counts.len(),
{
    if counts.len() > 0 {
        lemma_total_nonneg(counts.drop_last());
    }
}

pub proof fn lemma_expand_len<V>(values: Seq<V>, counts: Seq<u32>)
    requires
        values.len() == counts.len(),
    ensures
        expand(values, counts).len() == total(counts),
    decreases values.len(),
{
    if values.len() > 0 {
        lemma_expand_len(values.drop_last(), counts.drop_last());
    }
}

/// Adding one more run at the end.
pub proof fn lemma_expand_push<V>(values: Seq<V>, counts: Seq<u32>, v: V, c: u32)
    requires
        values.len() == counts.len(),
    ensures
        expand(values.push(v), counts.push(c)) == expand(values, counts) + repeat(v, c as nat),
{
    assert(values.push(v).drop_last() =~= values);
    assert(counts.push(c).drop_last() =~= counts);
}

/// A prefix of the runs never stands for more rows than all of them.
pub proof fn lemma_total_prefix(counts: Seq<u32>, n: int)
    requires
        0 <= n <= counts.len(),
    ensures
        total(counts.subrange(0, n)) <= total(counts),
    decreases counts.len() - n,
{
    if n < counts.len() {
        lemma_total_prefix(counts, n + 1);
        assert(counts.subrange(0, n + 1).drop_last() =~= counts.subrange(0, n));
        lemma_total_nonneg(counts.subrange(0, n));
    } else {
        assert(counts.subrange(0, n) =~= counts);
    }
}

/// Run-length encoding of one column: the distinct values of consecutive
/// runs, and the length of each run.
pub struct RunLengthArtifact<T> {
    pub values: Vec<T>,
    pub counts: Vec<u32>,
}

impl<T: ColumnValue> RunLengthArtifact<T> {
    /// The values of the runs, as models.
    pub open spec fn value_models(&self) -> Seq<T::V> {
        self.values.deep_view()
    }

    /// The artifact of an empty column.
    pub fn new() -> (r: Self)
        ensures
            r.values@.len() == 0,
            r.counts@.len() == 0,
    {
        RunLengthArtifact { values: Vec::new(), counts: Vec::new() }
    }

    /// Encodes a column in one left-to-right scan. An empty column gives an
    /// empty artifact.
    pub fn encode(column: &Vec<T>) -> (r: Self)
        requires
            column.len() <= u32::MAX,
        ensures
            is_run_length_of(r.value_models(), r.counts@, column.deep_view()),
    {
        let mut values: Vec<T> = Vec::new();
        let mut counts: Vec<u32> = Vec::new();
        if column.len() == 0 {
            assert(expand(values.deep_view(), counts@) =~= column.deep_view());
            return RunLengthArtifact { values, counts };
        }
        let mut run_start: usize = 0;
        let mut i: usize = 1;
        while i < column.len()
            invariant
                column.len() <= u32::MAX,
                0 <= run_start < i <= column.len(),
                values.len() == counts.len(),
                runs_positive(counts@),
                runs_maximal(values.deep_view()),
                values.len() > 0 ==> values.deep_view().last() != column.deep_view()[run_start as int],
                expand(values.deep_view(), counts@) == column.deep_view().subrange(0, run_start as int),
                forall|k: int| run_start <= k < i ==> column.deep_view()[k] == column.deep_view()[run_start as int],
            decreases column.len() - i,
        {
            if !column[i].same(&column[run_start]) {
                let ghost old_values = values.deep_view();
                let ghost old_counts = counts@;
                values.push(column[run_start].duplicate());
                counts.push((i - run_start) as u32);
                proof {
                    assert(values.deep_view() =~= old_values.push(column.deep_view()[run_start as int]));
                    lemma_expand_push(old_values, old_counts, column.deep_view()[run_start as int], (i - run_start) as u32);
                    assert(column.deep_view().subrange(0, i as int) =~= column.deep_view().subrange(0, run_start as int)
                        + repeat(column.deep_view()[run_start as int], (i - run_start) as nat));
                }
                run_start = i;
            }
            i = i + 1;
        }
        let ghost old_values = values.deep_view();
        let ghost old_counts = counts@;
        values.push(column[run_start].duplicate());
        counts.push((i - run_start) as u32);
        proof {
            assert(values.deep_view() =~= old_values.push(column.deep_view()[run_start as int]));
            lemma_expand_push(old_values, old_counts, column.deep_view()[run_start as int], (i - run_start) as u32);
            assert(column.deep_view() =~= column.deep_view().subrange(0, run_start as int)
                + repeat(column.deep_view()[run_start as int], (i - run_start) as nat));
        }
        RunLengthArtifact { values, counts }
    }

    /// Expands the runs back into the column. Fails with `MalformedArtifact`
    /// when the two sub-columns differ in length, when a run is empty, or when
    /// the runs add up to more rows than a `usize` can count.
    pub fn decode(&self) -> (r: Result<Vec<T>, CodecError>)
        ensures
            match r {
                Ok(column) => run_length_decoded(self.value_models(), self.counts@) == Some(
                    column.deep_view(),
                ),
                Err(e) => e == CodecError::MalformedArtifact && run_length_decoded(
                    self.value_models(),
                    self.counts@,
                ) is None,
            },
    {
        let n = self.values.len();
        if n != self.counts.len() {
            return Err(CodecError::MalformedArtifact);
        }
        let mut rows: usize = 0;
        let mut i: usize = 0;
        while i < n
            invariant
                n == self.counts.len(),
                i <= n,
                runs_positive(self.counts@.subrange(0, i as int)),
                rows == total(self.counts@.subrange(0, i as int)),
            decreases n - i,
        {
            let c = self.counts[i];
            proof {
                assert(self.counts@.subrange(0, i + 1).drop_last() =~= self.counts@.subrange(0, i as int));
            }
            if c == 0 {
                return Err(CodecError::MalformedArtifact);
            }
            if c as usize > usize::MAX - rows {
                proof {
                    lemma_total_prefix(self.counts@, i + 1);
                }
                return Err(CodecError::MalformedArtifact);
            }
            rows = rows + c as usize;
            i = i + 1;
        }
        assert(self.counts@.subrange(0, n as int) =~= self.counts@);
        let mut out: Vec<T> = Vec::new();
        let mut j: usize = 0;
        while j < n
            invariant
                n == self.counts.len(),
                n == self.values.len(),
                j <= n,
                out.deep_view() == expand(
                    self.value_models().subrange(0, j as int),
                    self.counts@.subrange(0, j as int),
                ),
            decreases n - j,
        {
            let ghost before = out.deep_view();
            let c = self.counts[j];
            let mut k: u32 = 0;
            while k < c
                invariant
                    k <= c,
                    j < self.values.len(),
                    out.deep_view() == before + repeat(self.value_models()[j as int], k as nat),
                decreases c - k,
            {
                let ghost prev = out.deep_view();
                out.push(self.values[j].duplicate());
                assert(out.deep_view() =~= prev.push(self.value_models()[j as int]));
                assert(out.deep_view() =~= before + repeat(self.value_models()[j as int], (k + 1) as nat));
                k = k + 1;
            }
            proof {
                let vs = self.value_models().subrange(0, j + 1);
                let cs = self.counts@.subrange(0, j + 1);
                assert(vs.drop_last() =~= self.value_models().subrange(0, j as int));
                assert(cs.drop_last() =~= self.counts@.subrange(0, j as int));
            }
            j = j + 1;
        }
        assert(self.value_models().subrange(0, n as int) =~= self.value_models());
        Ok(out)
    }
}

/// Decoding the canonical encoding of a column gives back that column.
pub proof fn lemma_run_length_round_trip<V>(column: Seq<V>, values: Seq<V>, counts: Seq<u32>)
    requires
        is_run_length_of(values, counts, column),
        column.len() <= usize::MAX,
    ensures
        run_length_decoded(values, counts) == Some(column),
{
    lemma_expand_len(values, counts);
}

/// With positive counts, the last row of the expansion holds the last value.
pub proof fn lemma_expand_last<V>(values: Seq<V>, counts: Seq<u32>)
    requires
        values.len() == counts.len(),
        values.len() > 0,
        runs_positive(counts),
    ensures
        expand(values, counts).len() > 0,
        expand(values, counts).last() == values.last(),
        expand(values, counts) == expand(values.drop_last(), counts.drop_last()) + repeat(
            values.last(),
            counts.last() as nat,
        ),
{
    assert(counts.last() > 0) by {
        assert(counts[counts.len() - 1] > 0);
    }
}

/// A column has only one canonical run-length encoding.
pub proof fn lemma_run_length_unique<V>(
    column: Seq<V>,
    values1: Seq<V>,
    counts1: Seq<u32>,
    values2: Seq<V>,
    counts2: Seq<u32>,
)
    requires
        is_run_length_of(values1, counts1, column),
        is_run_length_of(values2, counts2, column),
    ensures
        values1 == values2,
        counts1 == counts2,
    decreases values1.len(),
{
    if values1.len() == 0 || values2.len() == 0 {
        if values1.len() > 0 {
            lemma_expand_last(values1, counts1);
        }
        if values2.len() > 0 {
            lemma_expand_last(values2, counts2);
        }
        assert(values1 =~= values2);
        assert(counts1 =~= counts2);
    } else {
        lemma_expand_last(values1, counts1);
        lemma_expand_last(values2, counts2);
        let x = column.last();
        let n = column.len() as int;
        let (front1, front_counts1) = (values1.drop_last(), counts1.drop_last());
        let (front2, front_counts2) = (values2.drop_last(), counts2.drop_last());
        let k1 = counts1.last() as int;
        let k2 = counts2.last() as int;
        let e1 = expand(front1, front_counts1);
        let e2 = expand(front2, front_counts2);
        assert(runs_positive(front_counts1)) by {
            assert forall|i: int| 0 <= i < front_counts1.len() implies front_counts1[i] > 0 by {
                assert(front_counts1[i] == counts1[i]);
            }
        }
        assert(runs_positive(front_counts2)) by {
            assert forall|i: int| 0 <= i < front_counts2.len() implies front_counts2[i] > 0 by {
                assert(front_counts2[i] == counts2[i]);
            }
        }
        assert(runs_maximal(front1)) by {
            assert forall|i: int| 0 < i < front1.len() implies #[trigger] front1[i] != front1[i - 1] by {
                assert(values1[i] != values1[i - 1]);
            }
        }
        assert(runs_maximal(front2)) by {
            assert forall|i: int| 0 < i < front2.len() implies #[trigger] front2[i] != front2[i - 1] by {
                assert(values2[i] != values2[i - 1]);
            }
        }
        assert(values1.last() == x);
        assert(values2.last() == x);
        // Each encoding's last run covers exactly the trailing rows equal to
        // `x`: the row before it, if any, is the previous run's value.
        if k1 < k2 {
            assert(e1.len() == n - k1);
            assert(e1.len() > 0);
            lemma_expand_last(front1, front_counts1);
            assert(column[n - k1 - 1] == e1.last());
            assert(front1.last() == values1[values1.len() - 2]);
            assert(values1[values1.len() - 1] != values1[values1.len() - 2]);
            assert(column[n - k1 - 1] == repeat(x, k2 as nat)[k2 - k1 - 1]);
            assert(false);
        }
        if k2 < k1 {
            assert(e2.len() == n - k2);
            assert(e2.len() > 0);
            lemma_expand_last(front2, front_counts2);
            assert(column[n - k2 - 1] == e2.last());
            assert(front2.last() == values2[values2.len() - 2]);
            assert(values2[values2.len() - 1] != values2[values2.len() - 2]);
            assert(column[n - k2 - 1] == repeat(x, k1 as nat)[k1 - k2 - 1]);
            assert(false);
        }
        assert(e1 =~= column.subrange(0, n - k1));
        assert(e2 =~= column.subrange(0, n - k2));
        lemma_run_length_unique(column.subrange(0, n - k1), front1, front_counts1, front2, front_counts2);
        assert(values1 =~= front1.push(x));
        assert(values2 =~= front2.push(x));
        assert(counts1 =~= front_counts1.push(counts1.last()));
        assert(counts2 =~= front_counts2.push(counts2.last()));
    }
}

} // verus!
