//! Batch output: one flat buffer of values is cut into embeddings of a fixed
//! dimension, and each embedding is inspected for values that are not numbers.
//!
//! A value is held as the bit pattern of an IEEE 754 single-precision number.
//! An embedding that holds a value that is not a number is reported and still
//! returned: the caller decides what a report is worth.

use crate::error::EmbedError;
use vstd::prelude::*;

verus! {

/// Number of values in one embedding of the bundled model.
pub const EMBEDDING_DIM: usize = 384;

/// An embedding as bit patterns of single-precision values.
pub type EmbeddingBits = Vec<u32>;

/// Whether a bit pattern stands for a value that is not a number: all eight
/// exponent bits are set and the fraction is not zero.
pub open spec fn is_nan_bits(bits: u32) -> bool {
    (bits as int / 0x80_0000) % 0x100 == 0xff && bits as int % 0x80_0000 != 0
}

/// Whether some value of the row is not a number.
pub open spec fn has_nan(row: Seq<u32>) -> bool {
    exists|k: int| 0 <= k < row.len() && is_nan_bits(#[trigger] row[k])
}

/// Number of rows that a buffer of `len` values gives: full rows of `dim`
/// values and, where values are left over, one shorter row.
pub open spec fn row_count(len: nat, dim: nat) -> nat
    recommends
        dim > 0,
{
    if len % dim == 0 {
        len / dim
    } else {
        len / dim + 1
    }
}

/// Where row `i` ends in a buffer of `len` values.
pub open spec fn row_end(len: nat, dim: nat, i: int) -> int {
    if (i + 1) * dim <= len {
        (i + 1) * dim
    } else {
        len as int
    }
}

/// Row `i` of the buffer: the values from `i * dim` up to the row's end.
pub open spec fn row_of(flat: Seq<u32>, dim: nat, i: int) -> Seq<u32> {
    flat.subrange(i * dim, row_end(flat.len(), dim, i))
}

/// All rows of the buffer, in the order of the buffer.
pub open spec fn rows_of(flat: Seq<u32>, dim: nat) -> Seq<Seq<u32>> {
    Seq::new(row_count(flat.len(), dim), |i: int| row_of(flat, dim, i))
}

/// The values of each row of a list of embeddings.
pub open spec fn rows_view(rows: Seq<Vec<u32>>) -> Seq<Seq<u32>> {
    rows.map_values(|row: Vec<u32>| row@)
}

/// Whether `report` lists, in rising order and once each, exactly the
/// positions of the rows that hold a value that is not a number.
pub open spec fn reports_nan_rows(report: Seq<usize>, rows: Seq<Seq<u32>>) -> bool {
    &&& forall|a: int, b: int| 0 <= a < b < report.len() ==> report[a] < report[b]
    &&& forall|a: int| 0 <= a < report.len() ==> (#[trigger] report[a]) < rows.len()
    &&& forall|i: int|
        0 <= i < rows.len() ==> (has_nan(#[trigger] rows[i]) <==> exists|a: int|
            0 <= a < report.len() && report[a] == i)
}

/// The embeddings of one batch, in the order of the inputs, and the
/// positions of those that hold a value that is not a number.
pub struct BatchOutput {
    pub embeddings: Vec<EmbeddingBits>,
    pub nan_rows: Vec<usize>,
}

/// Every row but the last has `dim` values, and the last has at least one
/// and at most `dim`. Where the number of values is a multiple of `dim`,
/// every row has exactly `dim` values.
pub proof fn lemma_row_lengths(flat: Seq<u32>, dim: nat, i: int)
    requires
        dim > 0,
        0 <= i < row_count(flat.len(), dim),
    ensures
        0 < row_of(flat, dim, i).len() <= dim,
        i + 1 < row_count(flat.len(), dim) ==> row_of(flat, dim, i).len() == dim,
        flat.len() % dim == 0 ==> row_of(flat, dim, i).len() == dim,
{
    let len = flat.len();
    lemma_row_start(len, dim, i as nat);
    assert((i + 1) * dim == i * dim + dim) by (nonlinear_arith);
    if i + 1 < row_count(len, dim) {
        lemma_row_start(len, dim, (i + 1) as nat);
    }
    if len % dim == 0 && i + 1 == row_count(len, dim) {
        assert((i + 1) * dim == len) by (nonlinear_arith)
            requires
                dim > 0,
                len % dim == 0,
                i + 1 == len / dim,
        ;
    }
}

/// A row is made of its own stretch of the buffer and of nothing else: two
/// buffers of one length that agree on that stretch give the same row, and
/// the same answer on whether it holds a value that is not a number.
pub proof fn lemma_rows_independent(first: Seq<u32>, second: Seq<u32>, dim: nat, i: int)
    requires
        dim > 0,
        first.len() == second.len(),
        0 <= i < row_count(first.len(), dim),
        forall|k: int| i * dim <= k < row_end(first.len(), dim, i) ==> first[k] == second[k],
    ensures
        rows_of(first, dim)[i] == rows_of(second, dim)[i],
        has_nan(rows_of(first, dim)[i]) == has_nan(rows_of(second, dim)[i]),
{
    lemma_row_start(first.len(), dim, i as nat);
    assert((i + 1) * dim == i * dim + dim) by (nonlinear_arith);
    assert(i * dim >= 0) by (nonlinear_arith)
        requires
            i >= 0,
            dim > 0,
    ;
    assert(row_of(first, dim, i) =~= row_of(second, dim, i));
}

/// Tests one bit pattern.
pub fn is_nan(bits: u32) -> (nan: bool)
    ensures
        nan == is_nan_bits(bits),
{
    assert((bits & 0x7f80_0000 == 0x7f80_0000) == ((bits / 0x80_0000) % 0x100 == 0xff))
        by (bit_vector);
    assert((bits & 0x007f_ffff != 0) == (bits % 0x80_0000 != 0)) by (bit_vector);
    (bits & 0x7f80_0000) == 0x7f80_0000 && (bits & 0x007f_ffff) != 0
}

/// Tests a row value by value.
pub fn row_has_nan(row: &Vec<u32>) -> (found: bool)
    ensures
        found == has_nan(row@),
{
    let mut k: usize = 0;
    while k < row.len()
        invariant
            k <= row.len(),
            forall|j: int| 0 <= j < k ==> !is_nan_bits(#[trigger] row@[j]),
        decreases row.len() - k,
    {
        if is_nan(row[k]) {
            return true;
        }
        k = k + 1;
    }
    false
}

/// The values of `flat` from `start` up to `end`.
fn copy_range(flat: &Vec<u32>, start: usize, end: usize) -> (row: Vec<u32>)
    requires
        start <= end <= flat.len(),
    ensures
        row@ == flat@.subrange(start as int, end as int),
{
    let mut row: Vec<u32> = Vec::new();
    let mut k: usize = start;
    while k < end
        invariant
            start <= k <= end <= flat.len(),
            row@ == flat@.subrange(start as int, k as int),
        decreases end - k,
    {
        row.push(flat[k]);
        k = k + 1;
    }
    row
}

/// Row `i` starts inside the buffer exactly where `i` is one of its rows.
proof fn lemma_row_start(len: nat, dim: nat, i: nat)
    requires
        dim > 0,
        i <= row_count(len, dim),
    ensures
        i < row_count(len, dim) ==> i * dim < len,
        i == row_count(len, dim) ==> i * dim >= len,
{
    let q = len / dim;
    let r = len % dim;
    assert(len == q * dim + r && 0 <= r < dim) by (nonlinear_arith)
        requires
            dim > 0,
            q == len / dim,
            r == len % dim,
    ;
    if i < row_count(len, dim) {
        assert(i * dim < len) by (nonlinear_arith)
            requires
                len == q * dim + r,
                0 <= r < dim,
                i < q || (i == q && r > 0),
        ;
    } else {
        assert(i * dim >= len) by (nonlinear_arith)
            requires
                len == q * dim + r,
                0 <= r < dim,
                (i == q && r == 0) || i == q + 1,
        ;
    }
}

/// Cuts the buffer into rows of `dim` values, in the order of the buffer;
/// values that are left over form a last, shorter row.
pub fn split_rows(flat: &Vec<u32>, dim: usize) -> (rows: Vec<EmbeddingBits>)
    requires
        dim > 0,
    ensures
        rows_view(rows@) == rows_of(flat@, dim as nat),
{
    let len = flat.len();
    let mut rows: Vec<EmbeddingBits> = Vec::new();
    let mut start: usize = 0;
    while start < len
        invariant
            dim > 0,
            len == flat.len(),
            start <= len,
            rows.len() <= row_count(len as nat, dim as nat),
            start == row_end(len as nat, dim as nat, rows.len() - 1),
            forall|j: int|
                0 <= j < rows.len() ==> (#[trigger] rows@[j])@ == row_of(flat@, dim as nat, j),
        decreases len - start,
    {
        let ghost i = rows.len() as nat;
        proof {
            lemma_row_start(len as nat, dim as nat, i);
            assert((i - 1 + 1) * dim == i * dim);
            assert((i + 1) * dim == i * dim + dim) by (nonlinear_arith);
        }
        let end = if len - start >= dim {
            start + dim
        } else {
            len
        };
        let row = copy_range(flat, start, end);
        rows.push(row);
        start = end;
    }
    proof {
        lemma_row_start(len as nat, dim as nat, rows.len() as nat);
        assert((rows.len() - 1 + 1) * dim == rows.len() * dim);
        assert(rows_view(rows@) =~= rows_of(flat@, dim as nat));
    }
    rows
}

/// Lists the positions of the rows that hold a value that is not a number.
pub fn nan_rows(rows: &Vec<EmbeddingBits>) -> (report: Vec<usize>)
    ensures
        reports_nan_rows(report@, rows_view(rows@)),
{
    let mut report: Vec<usize> = Vec::new();
    let mut i: usize = 0;
    while i < rows.len()
        invariant
            i <= rows.len(),
            reports_nan_rows(report@, rows_view(rows@).take(i as int)),
        decreases rows.len() - i,
    {
        let ghost before = report@;
        let ghost seen = rows_view(rows@).take(i as int);
        let ghost next = rows_view(rows@).take(i as int + 1);
        let found = row_has_nan(&rows[i]);
        if found {
            report.push(i);
        }
        proof {
            assert(next[i as int] == rows@[i as int]@);
            assert forall|j: int| 0 <= j < next.len() implies (has_nan(#[trigger] next[j])
                <==> exists|a: int| 0 <= a < report.len() && report@[a] == j) by {
                if j < i {
                    assert(next[j] == seen[j]);
                    if has_nan(seen[j]) {
                        let a = choose|a: int| 0 <= a < before.len() && before[a] == j;
                        assert(report@[a] == j);
                    }
                    if exists|a: int| 0 <= a < report.len() && report@[a] == j {
                        let a = choose|a: int| 0 <= a < report.len() && report@[a] == j;
                        assert(a < before.len());
                        assert(before[a] == j);
                    }
                } else {
                    if found {
                        assert(report@[report.len() - 1] == j);
                    }
                }
            }
        }
        i = i + 1;
    }
    proof {
        assert(rows_view(rows@).take(i as int) =~= rows_view(rows@));
    }
    report
}

/// Cuts the flat output of one batch evaluation into embeddings of `dim`
/// values, in input order, and reports those that hold a value that is not a
/// number. A reported embedding is returned like the others.
pub fn partition_batch(flat: &Vec<u32>, dim: usize) -> (out: BatchOutput)
    requires
        dim > 0,
    ensures
        rows_view(out.embeddings@) == rows_of(flat@, dim as nat),
        reports_nan_rows(out.nan_rows@, rows_of(flat@, dim as nat)),
{
    let embeddings = split_rows(flat, dim);
    let nan_rows = nan_rows(&embeddings);
    BatchOutput { embeddings, nan_rows }
}

/// Whether the buffer holds exactly one full row of `dim` values for each of
/// `inputs` inputs.
pub open spec fn fills_batch(len: nat, dim: nat, inputs: nat) -> bool {
    len == inputs * dim
}

/// A buffer that holds one full row for each input gives as many rows as
/// there are inputs.
proof fn lemma_full_batch(len: nat, dim: nat, inputs: nat)
    requires
        dim > 0,
        fills_batch(len, dim, inputs),
    ensures
        len % dim == 0,
        row_count(len, dim) == inputs,
{
    vstd::arithmetic::div_mod::lemma_fundamental_div_mod_converse(
        len as int,
        dim as int,
        inputs as int,
        0,
    );
}

/// Cuts the flat output of a batch of `inputs` inputs into their embeddings
/// and reports those that hold a value that is not a number. The buffer must
/// hold exactly `dim` values for each input: then there is one embedding of
/// `dim` values for each input, in input order. Any other number of values
/// is an inference failure.
pub fn checked_batch(flat: &Vec<u32>, dim: usize, inputs: usize) -> (checked: Result<
    BatchOutput,
    EmbedError,
>)
    requires
        dim > 0,
    ensures
        match checked {
            Ok(out) => {
                &&& fills_batch(flat@.len(), dim as nat, inputs as nat)
                &&& out.embeddings@.len() == inputs
                &&& forall|i: int|
                    0 <= i < inputs ==> (#[trigger] out.embeddings@[i])@.len() == dim
                &&& rows_view(out.embeddings@) == rows_of(flat@, dim as nat)
                &&& reports_nan_rows(out.nan_rows@, rows_of(flat@, dim as nat))
            },
            Err(error) => {
                &&& error == EmbedError::Inference
                &&& !fills_batch(flat@.len(), dim as nat, inputs as nat)
            },
        },
{
    let len = flat.len();
    let expected = match inputs.checked_mul(dim) {
        Some(expected) => expected,
        None => {
            return Err(EmbedError::Inference);
        },
    };
    if len != expected {
        return Err(EmbedError::Inference);
    }
    let out = partition_batch(flat, dim);
    proof {
        lemma_full_batch(flat@.len(), dim as nat, inputs as nat);
        assert(out.embeddings@.len() == rows_view(out.embeddings@).len());
        assert forall|i: int| 0 <= i < inputs implies (#[trigger] out.embeddings@[i])@.len()
            == dim by {
            lemma_row_lengths(flat@, dim as nat, i);
            assert(rows_view(out.embeddings@)[i] == out.embeddings@[i]@);
        }
    }
    Ok(out)
}

/// `checked_batch` at the dimension of the bundled model: the embeddings of
/// a batch of `inputs` texts, one of `EMBEDDING_DIM` values for each text.
pub fn batch_embeddings(flat: &Vec<u32>, inputs: usize) -> (checked: Result<BatchOutput, EmbedError>)
    ensures
        match checked {
            Ok(out) => {
                &&& fills_batch(flat@.len(), EMBEDDING_DIM as nat, inputs as nat)
                &&& out.embeddings@.len() == inputs
                &&& forall|i: int|
                    0 <= i < inputs ==> (#[trigger] out.embeddings@[i])@.len() == EMBEDDING_DIM
                &&& rows_view(out.embeddings@) == rows_of(flat@, EMBEDDING_DIM as nat)
                &&& reports_nan_rows(out.nan_rows@, rows_of(flat@, EMBEDDING_DIM as nat))
            },
            Err(error) => {
                &&& error == EmbedError::Inference
                &&& !fills_batch(flat@.len(), EMBEDDING_DIM as nat, inputs as nat)
            },
        },
{
    checked_batch(flat, EMBEDDING_DIM, inputs)
}

/// Accepts the output of one inference call as an embedding where it has
/// exactly `dim` values, and hands it on untouched; any other number of
/// values is an inference failure.
pub fn checked_embedding<T>(values: Vec<T>, dim: usize) -> (checked: Result<Vec<T>, EmbedError>)
    ensures
        match checked {
            Ok(embedding) => embedding == values && values@.len() == dim,
            Err(error) => error == EmbedError::Inference && values@.len() != dim,
        },
{
    if values.len() == dim {
        Ok(values)
    } else {
        Err(EmbedError::Inference)
    }
}

/// Whether `embed` can give an embedding for the text.
pub open spec fn can_embed<T, E, F: Fn(&str) -> Result<T, E>>(embed: F, text: &str) -> bool {
    exists|embedding: T| #[trigger] call_ensures(embed, (text,), Ok::<T, E>(embedding))
}

/// Embeds the texts one after the other with `embed`, in their order, and
/// stops at the first failure, which it returns.
///
/// On success the result has one embedding for each text, at the position of
/// its text, and each is what `embed` gave for that text. A failure is that
/// of a text before which every text was embedded.
pub fn embed_each<T, E, F: Fn(&str) -> Result<T, E>>(texts: &Vec<&str>, embed: F) -> (out: Result<
    Vec<T>,
    E,
>)
    requires
        forall|i: int| 0 <= i < texts.len() ==> call_requires(embed, (#[trigger] texts@[i],)),
    ensures
        match out {
            Ok(embeddings) => {
                &&& embeddings.len() == texts.len()
                &&& forall|i: int|
                    0 <= i < texts.len() ==> call_ensures(
                        embed,
                        (#[trigger] texts@[i],),
                        Ok(embeddings@[i]),
                    )
            },
            Err(error) => exists|i: int|
                {
                    &&& 0 <= i < texts.len()
                    &&& call_ensures(embed, (#[trigger] texts@[i],), Err::<T, E>(error))
                    &&& forall|j: int| 0 <= j < i ==> can_embed(embed, #[trigger] texts@[j])
                },
        },
{
    let mut embeddings: Vec<T> = Vec::new();
    let mut k: usize = 0;
    while k < texts.len()
        invariant
            k <= texts.len(),
            embeddings.len() == k,
            forall|i: int| 0 <= i < texts.len() ==> call_requires(embed, (#[trigger] texts@[i],)),
            forall|i: int|
                0 <= i < k ==> call_ensures(embed, (#[trigger] texts@[i],), Ok(embeddings@[i])),
        decreases texts.len() - k,
    {
        match embed(texts[k]) {
            Ok(embedding) => {
                embeddings.push(embedding);
            },
            Err(error) => {
                proof {
                    assert forall|j: int| 0 <= j < k implies can_embed(
                        embed,
                        #[trigger] texts@[j],
                    ) by {
                        assert(call_ensures(embed, (texts@[j],), Ok::<T, E>(embeddings@[j])));
                    }
                    assert(call_ensures(embed, (texts@[k as int],), Err::<T, E>(error)));
                }
                return Err(error);
            },
        }
        k = k + 1;
    }
    Ok(embeddings)
}

} // verus!
