//! The sweep table: a header line, then one line per batch size holding the
//! batch size and six values, comma-separated, each line ended by `\n`.
use crate::batch::{range_error, range_len, BatchError};
use vstd::prelude::*;

verus! {

/// The header line of the sweep table.
pub open spec fn header_line() -> Seq<char> {
    "batch_size,fp32_energy,fp16_energy,int8_energy,fp32_efficiency,fp16_efficiency,int8_efficiency"@
}

/// Number of values on each row after the batch size.
pub const ROW_VALUES: usize = 6;

pub open spec fn digit_char(d: nat) -> char {
    seq!['0', '1', '2', '3', '4', '5', '6', '7', '8', '9'][d as int]
}

/// Decimal digits of `n`, most significant first, with no leading zero.
pub open spec fn decimal(n: nat) -> Seq<char>
    decreases n,
{
    if n < 10 {
        seq![digit_char(n)]
    } else {
        decimal(n / 10).push(digit_char(n % 10))
    }
}

/// The cells, each preceded by a comma.
pub open spec fn comma_cells(cells: Seq<Seq<char>>) -> Seq<char>
    decreases cells.len(),
{
    if cells.len() == 0 {
        seq![]
    } else {
        comma_cells(cells.drop_last()) + seq![','] + cells.last()
    }
}

/// The line of one batch size: the batch size in decimal, then its cells.
pub open spec fn row_line(batch: nat, cells: Seq<Seq<char>>) -> Seq<char> {
    decimal(batch) + comma_cells(cells)
}

/// The lines of the table whose first row is `min_batch`: the header, then
/// the row of `min_batch + k` for each `k`.
pub open spec fn table_lines(min_batch: nat, rows: Seq<Seq<Seq<char>>>) -> Seq<Seq<char>> {
    seq![header_line()] + Seq::new(rows.len(), |k: int| row_line((min_batch + k) as nat, rows[k]))
}

/// The lines, each ended by a newline.
pub open spec fn text_of(lines: Seq<Seq<char>>) -> Seq<char>
    decreases lines.len(),
{
    if lines.len() == 0 {
        seq![]
    } else {
        text_of(lines.drop_last()) + lines.last() + seq!['\n']
    }
}

pub open spec fn cells_view(cells: Vec<Vec<char>>) -> Seq<Seq<char>> {
    cells@.map_values(|c: Vec<char>| c@)
}

pub open spec fn rows_view(rows: Vec<Vec<Vec<char>>>) -> Seq<Seq<Seq<char>>> {
    rows@.map_values(|r: Vec<Vec<char>>| cells_view(r))
}

fn push_str(out: &mut Vec<char>, s: &str)
    ensures
        final(out)@ == old(out)@ + s@,
{
    let n = s.unicode_len();
    let mut i: usize = 0;
    while i < n
        invariant
            n == s@.len(),
            i <= n,
            out@ == old(out)@ + s@.subrange(0, i as int),
        decreases n - i,
    {
        out.push(s.get_char(i));
        i += 1;
        assert(out@ =~= old(out)@ + s@.subrange(0, i as int));
    }
    assert(s@.subrange(0, n as int) =~= s@);
}

fn push_chars(out: &mut Vec<char>, s: &Vec<char>)
    ensures
        final(out)@ == old(out)@ + s@,
{
    let mut i: usize = 0;
    while i < s.len()
        invariant
            i <= s@.len(),
            out@ == old(out)@ + s@.subrange(0, i as int),
        decreases s@.len() - i,
    {
        out.push(s[i]);
        i += 1;
        assert(out@ =~= old(out)@ + s@.subrange(0, i as int));
    }
    assert(s@.subrange(0, s@.len() as int) =~= s@);
}

/// Appends the decimal digits of `n`.
pub fn push_decimal(out: &mut Vec<char>, n: u32)
    ensures
        final(out)@ == old(out)@ + decimal(n as nat),
    decreases n,
{
    let digits: [char; 10] = ['0', '1', '2', '3', '4', '5', '6', '7', '8', '9'];
    assert(digits@ =~= seq!['0', '1', '2', '3', '4', '5', '6', '7', '8', '9']);
    if n >= 10 {
        push_decimal(out, n / 10);
    }
    let d = digits[(n % 10) as usize];
    out.push(d);
    if n >= 10 {
        assert(out@ =~= old(out)@ + decimal(n as nat));
    } else {
        assert(out@ =~= old(out)@ + decimal(n as nat));
    }
}

/// The header line, without its newline.
pub fn export_header() -> (r: Vec<char>)
    ensures
        r@ == header_line(),
{
    let mut out: Vec<char> = Vec::new();
    push_str(
        &mut out,
        "batch_size,fp32_energy,fp16_energy,int8_energy,fp32_efficiency,fp16_efficiency,int8_efficiency",
    );
    assert(out@ =~= header_line());
    out
}

/// The line of one batch size, without its newline.
pub fn export_row(batch: u32, cells: &Vec<Vec<char>>) -> (r: Vec<char>)
    ensures
        r@ == row_line(batch as nat, cells_view(*cells)),
{
    let mut out: Vec<char> = Vec::new();
    push_decimal(&mut out, batch);
    let mut i: usize = 0;
    while i < cells.len()
        invariant
            i <= cells@.len(),
            out@ == decimal(batch as nat) + comma_cells(cells_view(*cells).subrange(0, i as int)),
        decreases cells@.len() - i,
    {
        let ghost before = out@;
        out.push(',');
        push_chars(&mut out, &cells[i]);
        proof {
            let cv = cells_view(*cells);
            let pre = cv.subrange(0, i as int);
            let next = cv.subrange(0, i + 1);
            assert(next.drop_last() =~= pre);
            assert(next.last() == cells@[i as int]@);
            assert(out@ =~= decimal(batch as nat) + comma_cells(next));
        }
        i += 1;
    }
    assert(cells_view(*cells).subrange(0, cells@.len() as int) =~= cells_view(*cells));
    out
}

/// The error that `export_table` gives, if any: the range's own error, else
/// `ValueCount` when there is not one row per batch size of `ROW_VALUES` cells.
pub open spec fn table_error(min_batch: u32, max_batch: u32, rows: Seq<Seq<Seq<char>>>) -> Option<
    BatchError,
> {
    match range_error(min_batch, max_batch) {
        Some(e) => Some(e),
        None => if rows.len() == range_len(min_batch, max_batch) && forall|k: int|
            0 <= k < rows.len() ==> #[trigger] rows[k].len() == ROW_VALUES {
            None
        } else {
            Some(BatchError::ValueCount)
        },
    }
}

/// The whole sweep table over `[min_batch, max_batch]`: `rows[k]` holds the
/// six formatted values of batch size `min_batch + k`.
pub fn export_table(min_batch: u32, max_batch: u32, rows: &Vec<Vec<Vec<char>>>) -> (r: Result<
    Vec<char>,
    BatchError,
>)
    ensures
        r is Ok <==> table_error(min_batch, max_batch, rows_view(*rows)) is None,
        r matches Err(e) ==> table_error(min_batch, max_batch, rows_view(*rows)) == Some(e),
        r matches Ok(t) ==> t@ == text_of(table_lines(min_batch as nat, rows_view(*rows))),
{
    crate::batch::check_range(min_batch, max_batch)?;
    let n: u64 = (max_batch - min_batch) as u64 + 1;
    if rows.len() as u64 != n {
        assert(rows_view(*rows).len() != range_len(min_batch, max_batch));
        return Err(BatchError::ValueCount);
    }
    let mut k: usize = 0;
    while k < rows.len()
        invariant
            k <= rows@.len(),
            range_error(min_batch, max_batch) is None,
            rows@.len() == range_len(min_batch, max_batch),
            forall|j: int| 0 <= j < k ==> #[trigger] rows@[j]@.len() == ROW_VALUES,
        decreases rows@.len() - k,
    {
        if rows[k].len() != ROW_VALUES {
            assert(rows_view(*rows)[k as int].len() != ROW_VALUES);
            assert(!(forall|j: int|
                0 <= j < rows_view(*rows).len() ==> #[trigger] rows_view(*rows)[j].len() == ROW_VALUES));
            return Err(BatchError::ValueCount);
        }
        k += 1;
    }
    assert(forall|j: int| 0 <= j < rows@.len() ==> #[trigger] rows_view(*rows)[j].len() == ROW_VALUES);
    let ghost rv = rows_view(*rows);
    let mut out = export_header();
    out.push('\n');
    proof {
        let l1 = table_lines(min_batch as nat, rv).subrange(0, 1);
        assert(l1.drop_last() =~= Seq::<Seq<char>>::empty());
        assert(l1.last() == header_line());
        assert(text_of(l1.drop_last()) =~= Seq::<char>::empty());
        assert(out@ =~= text_of(l1));
    }
    let mut k: usize = 0;
    while k < rows.len()
        invariant
            k <= rows@.len(),
            rows@.len() == range_len(min_batch, max_batch),
            rv == rows_view(*rows),
            out@ == text_of(table_lines(min_batch as nat, rv).subrange(0, k + 1)),
        decreases rows@.len() - k,
    {
        let b: u32 = min_batch + k as u32;
        let line = export_row(b, &rows[k]);
        push_chars(&mut out, &line);
        out.push('\n');
        proof {
            let all = table_lines(min_batch as nat, rv);
            let next = all.subrange(0, k + 2);
            assert(next.drop_last() =~= all.subrange(0, k + 1));
            assert(next.last() == row_line((min_batch + k) as nat, rv[k as int]));
            assert(out@ =~= text_of(next));
        }
        k += 1;
    }
    proof {
        let all = table_lines(min_batch as nat, rv);
        assert(all.subrange(0, rows@.len() as int + 1) =~= all);
    }
    Ok(out)
}

/// Number of newline characters in `s`.
pub open spec fn newline_count(s: Seq<char>) -> nat
    decreases s.len(),
{
    if s.len() == 0 {
        0
    } else {
        newline_count(s.drop_last()) + if s.last() == '\n' { 1nat } else { 0nat }
    }
}

proof fn lemma_newline_count_concat(a: Seq<char>, b: Seq<char>)
    ensures
        newline_count(a + b) == newline_count(a) + newline_count(b),
    decreases b.len(),
{
    if b.len() > 0 {
        assert((a + b).drop_last() =~= a + b.drop_last());
        lemma_newline_count_concat(a, b.drop_last());
    } else {
        assert(a + b =~= a);
    }
}

proof fn lemma_newline_count_single(c: char)
    ensures
        newline_count(seq![c]) == if c == '\n' { 1nat } else { 0nat },
{
    assert(seq![c].drop_last() =~= Seq::<char>::empty());
    assert(newline_count(Seq::<char>::empty()) == 0);
    assert(seq![c].last() == c);
}

proof fn lemma_digit_not_newline(d: nat)
    requires
        d < 10,
    ensures
        digit_char(d) != '\n',
{
    let ds = seq!['0', '1', '2', '3', '4', '5', '6', '7', '8', '9'];
    assert(forall|i: int| 0 <= i < 10 ==> ds[i] != '\n');
}

proof fn lemma_no_newline(s: Seq<char>)
    requires
        forall|i: int| 0 <= i < s.len() ==> s[i] != '\n',
    ensures
        newline_count(s) == 0,
    decreases s.len(),
{
    if s.len() > 0 {
        lemma_no_newline(s.drop_last());
    }
}

proof fn lemma_text_newlines(lines: Seq<Seq<char>>)
    requires
        forall|k: int| 0 <= k < lines.len() ==> newline_count(#[trigger] lines[k]) == 0,
    ensures
        newline_count(text_of(lines)) == lines.len(),
    decreases lines.len(),
{
    if lines.len() > 0 {
        let init = lines.drop_last();
        lemma_text_newlines(init);
        lemma_newline_count_concat(text_of(init) + lines.last(), seq!['\n']);
        lemma_newline_count_concat(text_of(init), lines.last());
        lemma_newline_count_single('\n');
        assert(newline_count(init.last()) == 0 || init.len() == 0);
        assert(newline_count(lines[lines.len() - 1]) == 0);
    }
}

proof fn lemma_decimal_no_newline(n: nat)
    ensures
        newline_count(decimal(n)) == 0,
    decreases n,
{
    if n >= 10 {
        lemma_decimal_no_newline(n / 10);
        lemma_digit_not_newline(n % 10);
        lemma_newline_count_concat(decimal(n / 10), seq![digit_char(n % 10)]);
        lemma_newline_count_single(digit_char(n % 10));
        assert(decimal(n / 10) + seq![digit_char(n % 10)] =~= decimal(n));
    } else {
        lemma_digit_not_newline(n);
        lemma_newline_count_single(digit_char(n));
    }
}

proof fn lemma_comma_cells_no_newline(cells: Seq<Seq<char>>)
    requires
        forall|c: int| 0 <= c < cells.len() ==> newline_count(#[trigger] cells[c]) == 0,
    ensures
        newline_count(comma_cells(cells)) == 0,
    decreases cells.len(),
{
    if cells.len() > 0 {
        lemma_comma_cells_no_newline(cells.drop_last());
        lemma_newline_count_concat(comma_cells(cells.drop_last()) + seq![','], cells.last());
        lemma_newline_count_concat(comma_cells(cells.drop_last()), seq![',']);
        lemma_newline_count_single(',');
        assert(newline_count(cells[cells.len() - 1]) == 0);
    }
}

/// A table over `[min_batch, max_batch]` whose values hold no newline has
/// exactly one line more than the range has batch sizes: the header, then
/// one row per batch size, where the row after the header at position `k`
/// starts with the decimal digits of `min_batch + k` and a comma.
pub proof fn lemma_table_line_count(min_batch: u32, max_batch: u32, rows: Seq<Seq<Seq<char>>>)
    requires
        table_error(min_batch, max_batch, rows) is None,
        forall|k: int, c: int|
            0 <= k < rows.len() && 0 <= c < rows[k].len() ==> newline_count(#[trigger] rows[k][c]) == 0,
    ensures
        table_lines(min_batch as nat, rows).len() == range_len(min_batch, max_batch) + 1,
        newline_count(text_of(table_lines(min_batch as nat, rows))) == range_len(min_batch, max_batch) + 1,
        text_of(table_lines(min_batch as nat, rows)).last() == '\n',
        forall|k: int|
            0 <= k < range_len(min_batch, max_batch) ==> (#[trigger] table_lines(min_batch as nat, rows)[k + 1]).subrange(0, decimal((min_batch + k) as nat).len() as int + 1) == decimal((min_batch + k) as nat).push(','),
{
    let lines = table_lines(min_batch as nat, rows);
    reveal_strlit("batch_size,fp32_energy,fp16_energy,int8_energy,fp32_efficiency,fp16_efficiency,int8_efficiency");
    lemma_no_newline(header_line());
    assert forall|k: int| 0 <= k < lines.len() implies newline_count(#[trigger] lines[k]) == 0 by {
        if k > 0 {
            let b = (min_batch + (k - 1)) as nat;
            let cells = rows[k - 1];
            assert forall|c: int| 0 <= c < cells.len() implies newline_count(#[trigger] cells[c]) == 0 by {
                assert(newline_count(rows[k - 1][c]) == 0);
            }
            lemma_decimal_no_newline(b);
            lemma_comma_cells_no_newline(cells);
            lemma_newline_count_concat(decimal(b), comma_cells(cells));
        }
    }
    lemma_text_newlines(lines);
    assert forall|k: int| 0 <= k < range_len(min_batch, max_batch) implies (#[trigger] lines[k + 1]).subrange(0, decimal((min_batch + k) as nat).len() as int + 1) == decimal((min_batch + k) as nat).push(',') by {
        let d = decimal((min_batch + k) as nat);
        let cells = rows[k];
        assert(cells.len() == ROW_VALUES);
        lemma_comma_cells_first(cells);
        assert(lines[k + 1] == d + comma_cells(cells));
        assert((d + comma_cells(cells)).subrange(0, d.len() as int + 1) =~= d.push(','));
    }
}

proof fn lemma_comma_cells_first(cells: Seq<Seq<char>>)
    requires
        cells.len() > 0,
    ensures
        comma_cells(cells).len() > 0,
        comma_cells(cells)[0] == ',',
    decreases cells.len(),
{
    if cells.len() > 1 {
        lemma_comma_cells_first(cells.drop_last());
    } else {
        assert(comma_cells(cells.drop_last()) =~= Seq::<char>::empty());
    }
}

} // verus!
