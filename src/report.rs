use vstd::prelude::*;

use crate::classify::Field;
use crate::dictionary::DictionaryArtifact;
use crate::rle::RunLengthArtifact;
use crate::table::{AddressArtifact, CompressedTable, TransferTable};
use crate::value::{saturate, ColumnValue};

verus! {

/// Bytes of a stored index, count or position.
pub const INDEX_BYTES: u64 = 4;

/// Bytes of one normalized entry: its position and its 64-bit float.
pub const NORMALIZED_ENTRY_BYTES: u64 = 12;

/// The bytes of all values of a column.
pub open spec fn column_size<T: ColumnValue>(s: Seq<T>) -> int
    decreases s.len(),
{
    if s.len() == 0 {
        0
    } else {
        column_size(s.drop_last()) + s.last().size_in_bytes()
    }
}

pub proof fn lemma_column_size_nonneg<T: ColumnValue>(s: Seq<T>)
    ensures
        column_size(s) >= 0,
    decreases s.len(),
{
    if s.len() > 0 {
        lemma_column_size_nonneg(s.drop_last());
    }
}

/// Adding saturated sizes saturates the sum.
pub proof fn lemma_saturate_add(a: int, b: int)
    requires
        a >= 0,
        b >= 0,
    ensures
        (if saturate(a) + saturate(b) > u64::MAX {
            u64::MAX
        } else {
            (saturate(a) + saturate(b)) as u64
        }) == saturate(a + b),
{
}

/// Sums the sizes of a column's values, saturating at `u64::MAX`.
pub fn column_byte_size<T: ColumnValue>(column: &Vec<T>) -> (r: u64)
    ensures
        r == saturate(column_size(column@)),
{
    let mut acc: u64 = 0;
    let mut k: usize = 0;
    while k < column.len()
        invariant
            k <= column.len(),
            acc == saturate(column_size(column@.subrange(0, k as int))),
        decreases column.len() - k,
    {
        let ghost prefix = column@.subrange(0, k as int);
        proof {
            assert(column@.subrange(0, k + 1).drop_last() =~= prefix);
            lemma_column_size_nonneg(prefix);
            lemma_saturate_add(column_size(prefix), column@[k as int].size_in_bytes() as int);
        }
        acc = acc.saturating_add(column[k].byte_size());
        k = k + 1;
    }
    assert(column@.subrange(0, k as int) =~= column@);
    acc
}

/// `n * width`, saturating at `u64::MAX`.
fn scaled(n: usize, width: u64) -> (r: u64)
    ensures
        r == saturate(n * width),
{
    let a = n as u128;
    let b = width as u128;
    assert(a * b <= u64::MAX as u128 * u64::MAX as u128) by (nonlinear_arith)
        requires
            a <= u64::MAX,
            b <= u64::MAX,
    ;
    let p = a * b;
    if p > u64::MAX as u128 {
        u64::MAX
    } else {
        p as u64
    }
}

/// How one column fared: its size before and after encoding.
#[derive(Clone, Copy, Debug, PartialEq, Eq, Structural)]
pub struct CompressionReport {
    pub field: Field,
    pub original_size_bytes: u64,
    pub encoded_size_bytes: u64,
}

impl CompressionReport {
    /// The compression ratio as `(numerator, denominator)`: original over
    /// encoded size, and one to one when nothing was encoded.
    pub fn ratio(&self) -> (r: (u64, u64))
        ensures
            self.encoded_size_bytes == 0 ==> r == (1u64, 1u64),
            self.encoded_size_bytes != 0 ==> r == (self.original_size_bytes, self.encoded_size_bytes),
    {
        if self.encoded_size_bytes == 0 {
            (1, 1)
        } else {
            (self.original_size_bytes, self.encoded_size_bytes)
        }
    }
}

/// Saturating sum of two sizes.
pub open spec fn size_sum(a: int, b: int) -> u64 {
    saturate(a + b)
}

pub open spec fn runs_report<T: ColumnValue>(field: Field, column: Vec<T>, a: RunLengthArtifact<T>) -> CompressionReport {
    CompressionReport {
        field,
        original_size_bytes: saturate(column_size(column@)),
        encoded_size_bytes: size_sum(column_size(a.values@), INDEX_BYTES * a.counts.len()),
    }
}

pub open spec fn dictionary_report<T: ColumnValue>(
    field: Field,
    original: int,
    d: DictionaryArtifact<T>,
) -> CompressionReport {
    CompressionReport {
        field,
        original_size_bytes: saturate(original),
        encoded_size_bytes: size_sum(INDEX_BYTES * d.index.len(), column_size(d.values@)),
    }
}

pub open spec fn plain_report(field: Field, column: Vec<String>) -> CompressionReport {
    CompressionReport {
        field,
        original_size_bytes: saturate(column_size(column@)),
        encoded_size_bytes: saturate(column_size(column@)),
    }
}

pub open spec fn normalized_report(column: Vec<String>) -> CompressionReport {
    CompressionReport {
        field: Field::ValueString,
        original_size_bytes: saturate(column_size(column@)),
        encoded_size_bytes: saturate(NORMALIZED_ENTRY_BYTES * column.len()),
    }
}

pub open spec fn runs_reports<T: ColumnValue>(
    field: Field,
    column: Option<Vec<T>>,
    a: Option<RunLengthArtifact<T>>,
) -> Seq<CompressionReport> {
    match (column, a) {
        (Some(c), Some(a)) => seq![runs_report(field, c, a)],
        _ => seq![],
    }
}

pub open spec fn address_reports(t: TransferTable, a: Option<AddressArtifact>) -> Seq<CompressionReport> {
    match (a, t.from_address, t.to_address) {
        (Some(AddressArtifact::Pairs(d)), Some(f), Some(g)) => seq![
            dictionary_report(Field::Address, column_size(f@) + column_size(g@), d),
        ],
        (Some(AddressArtifact::From(d)), Some(f), _) => seq![
            dictionary_report(Field::FromAddress, column_size(f@), d),
        ],
        (Some(AddressArtifact::To(d)), _, Some(g)) => seq![
            dictionary_report(Field::ToAddress, column_size(g@), d),
        ],
        (Some(AddressArtifact::Plain { .. }), f, g) => (match f {
            Some(f) => seq![plain_report(Field::FromAddress, f)],
            None => seq![],
        }) + (match g {
            Some(g) => seq![plain_report(Field::ToAddress, g)],
            None => seq![],
        }),
        _ => seq![],
    }
}

/// One report per artifact, in the order of the container layout.
pub open spec fn reports_of(t: TransferTable, c: CompressedTable) -> Seq<CompressionReport> {
    runs_reports(Field::BlockNumber, t.block_number, c.block_number) + runs_reports(
        Field::TransactionIndex,
        t.transaction_index,
        c.transaction_index,
    ) + runs_reports(Field::LogIndex, t.log_index, c.log_index) + (match (
        t.transaction_hash,
        c.transaction_hash,
    ) {
        (Some(col), Some(d)) => seq![dictionary_report(Field::TransactionHash, column_size(col@), d)],
        _ => seq![],
    }) + runs_reports(Field::Erc20, t.erc20, c.erc20) + address_reports(t, c.addresses) + (match (
        t.value_string,
        c.value_string,
    ) {
        (Some(col), Some(_)) => seq![normalized_report(col)],
        _ => seq![],
    }) + runs_reports(Field::ChainId, t.chain_id, c.chain_id)
}

fn report_runs<T: ColumnValue>(
    field: Field,
    column: &Option<Vec<T>>,
    a: &Option<RunLengthArtifact<T>>,
    out: &mut Vec<CompressionReport>,
)
    ensures
        final(out)@ == old(out)@ + runs_reports(field, *column, *a),
{
    match (column, a) {
        (Some(c), Some(a)) => {
            let original = column_byte_size(c);
            let values = column_byte_size(&a.values);
            let counts = scaled(a.counts.len(), INDEX_BYTES);
            proof {
                lemma_column_size_nonneg(a.values@);
                lemma_saturate_add(column_size(a.values@), INDEX_BYTES * a.counts.len());
            }
            out.push(
                CompressionReport {
                    field,
                    original_size_bytes: original,
                    encoded_size_bytes: values.saturating_add(counts),
                },
            );
        },
        _ => {},
    }
    assert(final(out)@ =~= old(out)@ + runs_reports(field, *column, *a));
}

fn report_dictionary<T: ColumnValue>(field: Field, original: u64, d: &DictionaryArtifact<T>) -> (r: CompressionReport)
    ensures
        forall|n: int| n >= 0 && original == saturate(n) ==> r == dictionary_report(field, n, *d),
{
    let index = scaled(d.index.len(), INDEX_BYTES);
    let values = column_byte_size(&d.values);
    proof {
        lemma_column_size_nonneg(d.values@);
        lemma_saturate_add(INDEX_BYTES * d.index.len(), column_size(d.values@));
    }
    CompressionReport { field, original_size_bytes: original, encoded_size_bytes: index.saturating_add(values) }
}

fn report_plain(field: Field, column: &Vec<String>) -> (r: CompressionReport)
    ensures
        r == plain_report(field, *column),
{
    let size = column_byte_size(column);
    CompressionReport { field, original_size_bytes: size, encoded_size_bytes: size }
}

/// Builds the report of every artifact of `c`, measured against the source
/// table `t`, in the order of the container layout.
pub fn reports(t: &TransferTable, c: &CompressedTable) -> (r: Vec<CompressionReport>)
    ensures
        r@ == reports_of(*t, *c),
{
    let mut out: Vec<CompressionReport> = Vec::new();
    report_runs(Field::BlockNumber, &t.block_number, &c.block_number, &mut out);
    report_runs(Field::TransactionIndex, &t.transaction_index, &c.transaction_index, &mut out);
    report_runs(Field::LogIndex, &t.log_index, &c.log_index, &mut out);
    let ghost before_hash = out@;
    match (&t.transaction_hash, &c.transaction_hash) {
        (Some(col), Some(d)) => {
            let original = column_byte_size(col);
            proof {
                lemma_column_size_nonneg(col@);
            }
            out.push(report_dictionary(Field::TransactionHash, original, d));
        },
        _ => {},
    }
    report_runs(Field::Erc20, &t.erc20, &c.erc20, &mut out);
    let ghost before_addresses = out@;
    match (&c.addresses, &t.from_address, &t.to_address) {
        (Some(AddressArtifact::Pairs(d)), Some(f), Some(g)) => {
            let original = column_byte_size(f).saturating_add(column_byte_size(g));
            proof {
                lemma_column_size_nonneg(f@);
                lemma_column_size_nonneg(g@);
                lemma_saturate_add(column_size(f@), column_size(g@));
            }
            out.push(report_dictionary(Field::Address, original, d));
        },
        (Some(AddressArtifact::From(d)), Some(f), _) => {
            let original = column_byte_size(f);
            proof {
                lemma_column_size_nonneg(f@);
            }
            out.push(report_dictionary(Field::FromAddress, original, d));
        },
        (Some(AddressArtifact::To(d)), _, Some(g)) => {
            let original = column_byte_size(g);
            proof {
                lemma_column_size_nonneg(g@);
            }
            out.push(report_dictionary(Field::ToAddress, original, d));
        },
        (Some(AddressArtifact::Plain { .. }), f, g) => {
            match f {
                Some(f) => out.push(report_plain(Field::FromAddress, f)),
                None => {},
            }
            match g {
                Some(g) => out.push(report_plain(Field::ToAddress, g)),
                None => {},
            }
        },
        _ => {},
    }
    assert(out@ =~= before_addresses + address_reports(*t, c.addresses));
    let ghost before_values = out@;
    match (&t.value_string, &c.value_string) {
        (Some(col), Some(_)) => {
            let original = column_byte_size(col);
            let encoded = scaled(col.len(), NORMALIZED_ENTRY_BYTES);
            out.push(
                CompressionReport {
                    field: Field::ValueString,
                    original_size_bytes: original,
                    encoded_size_bytes: encoded,
                },
            );
        },
        _ => {},
    }
    report_runs(Field::ChainId, &t.chain_id, &c.chain_id, &mut out);
    assert(out@ =~= reports_of(*t, *c));
    out
}

} // verus!
