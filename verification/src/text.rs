//! Decimal rendering of counts and statuses for diagnostic messages.

use vstd::prelude::*;
use vstd::string::*;

verus! {

/// The ASCII digit for `d` (meaningful for `d < 10`).
pub open spec fn digit_char(d: nat) -> char {
    if d == 0 { '0' }
    else if d == 1 { '1' }
    else if d == 2 { '2' }
    else if d == 3 { '3' }
    else if d == 4 { '4' }
    else if d == 5 { '5' }
    else if d == 6 { '6' }
    else if d == 7 { '7' }
    else if d == 8 { '8' }
    else { '9' }
}

/// Base-ten rendering of a natural number, most significant digit first,
/// without leading zeros.
pub open spec fn decimal(n: nat) -> Seq<char>
    decreases n,
{
    if n < 10 {
        seq![digit_char(n)]
    } else {
        decimal(n / 10).push(digit_char(n % 10))
    }
}

fn digit_str(d: u64) -> (s: &'static str)
    requires
        d < 10,
    ensures
        s@ == seq![digit_char(d as nat)],
{
    if d == 0 {
        proof { reveal_strlit("0"); }
        "0"
    } else if d == 1 {
        proof { reveal_strlit("1"); }
        "1"
    } else if d == 2 {
        proof { reveal_strlit("2"); }
        "2"
    } else if d == 3 {
        proof { reveal_strlit("3"); }
        "3"
    } else if d == 4 {
        proof { reveal_strlit("4"); }
        "4"
    } else if d == 5 {
        proof { reveal_strlit("5"); }
        "5"
    } else if d == 6 {
        proof { reveal_strlit("6"); }
        "6"
    } else if d == 7 {
        proof { reveal_strlit("7"); }
        "7"
    } else if d == 8 {
        proof { reveal_strlit("8"); }
        "8"
    } else {
        proof { reveal_strlit("9"); }
        "9"
    }
}

/// Appends the decimal rendering of `n`.
pub fn append_decimal(out: &mut String, n: u64)
    ensures
        final(out)@ == old(out)@ + decimal(n as nat),
    decreases n,
{
    if n < 10 {
        out.append(digit_str(n));
    } else {
        append_decimal(out, n / 10);
        out.append(digit_str(n % 10));
        proof {
            assert(decimal(n as nat) == decimal((n / 10) as nat).push(digit_char((n % 10) as nat)));
        }
    }
}

/// Base-ten rendering of an integer with a leading minus sign when negative.
pub open spec fn signed_decimal(n: int) -> Seq<char> {
    if n < 0 { seq!['-'] + decimal((-n) as nat) } else { decimal(n as nat) }
}

/// Appends the decimal rendering of a signed value.
pub fn append_signed_decimal(out: &mut String, n: i64)
    ensures
        final(out)@ == old(out)@ + signed_decimal(n as int),
{
    if n < 0 {
        proof { reveal_strlit("-"); }
        out.append("-");
        let magnitude: u64 = if n == i64::MIN { 9_223_372_036_854_775_808u64 } else { (-n) as u64 };
        append_decimal(out, magnitude);
        proof {
            assert(seq!['-'] + decimal((-(n as int)) as nat) == "-"@ + decimal(magnitude as nat));
        }
    } else {
        append_decimal(out, n as u64);
    }
}

/// Rendering of a list of integers as `[a, b, c]`.
pub open spec fn debug_row(values: Seq<i64>) -> Seq<char>
    decreases values.len(),
{
    if values.len() == 0 {
        seq![]
    } else if values.len() == 1 {
        signed_decimal(values[0] as int)
    } else {
        debug_row(values.drop_last()) + ", "@ + signed_decimal(values.last() as int)
    }
}

/// Rendering of a list of integer lists as `[[a, b], [c]]`, the `Debug`
/// form of nested vectors.
pub open spec fn debug_rows(rows: Seq<Seq<i64>>) -> Seq<char>
    decreases rows.len(),
{
    if rows.len() == 0 {
        seq![]
    } else if rows.len() == 1 {
        "["@ + debug_row(rows[0]) + "]"@
    } else {
        debug_rows(rows.drop_last()) + ", "@ + "["@ + debug_row(rows.last()) + "]"@
    }
}

/// Appends `[..]` with the comma-separated values of one row.
fn append_row(out: &mut String, row: &[i64])
    ensures
        final(out)@ == old(out)@ + "["@ + debug_row(row@) + "]"@,
{
    let ghost start = out@;
    out.append("[");
    let mut i: usize = 0;
    while i < row.len()
        invariant
            i <= row@.len(),
            out@ == start + "["@ + debug_row(row@.subrange(0, i as int)),
        decreases row@.len() - i,
    {
        let ghost before = out@;
        if i > 0 {
            out.append(", ");
        }
        append_signed_decimal(out, row[i]);
        proof {
            let prefix = row@.subrange(0, i as int + 1);
            assert(prefix.drop_last() =~= row@.subrange(0, i as int));
            assert(prefix.last() == row@[i as int]);
            if i == 0 {
                assert(row@.subrange(0, 0) =~= Seq::<i64>::empty());
                assert(out@ =~= start + "["@ + debug_row(prefix));
            } else {
                assert(out@ =~= start + "["@ + debug_row(prefix));
            }
        }
        i = i + 1;
    }
    assert(row@.subrange(0, row@.len() as int) =~= row@);
    out.append("]");
}

/// Appends the `Debug` rendering of nested rows.
pub fn append_rows(out: &mut String, rows: &Vec<Vec<i64>>)
    ensures
        final(out)@ == old(out)@ + "["@ + debug_rows(rows@.map_values(|r: Vec<i64>| r@)) + "]"@,
{
    let ghost start = out@;
    let ghost views = rows@.map_values(|r: Vec<i64>| r@);
    out.append("[");
    let mut i: usize = 0;
    while i < rows.len()
        invariant
            i <= rows@.len(),
            views == rows@.map_values(|r: Vec<i64>| r@),
            out@ == start + "["@ + debug_rows(views.subrange(0, i as int)),
        decreases rows@.len() - i,
    {
        if i > 0 {
            out.append(", ");
        }
        append_row(out, rows[i].as_slice());
        proof {
            let prefix = views.subrange(0, i as int + 1);
            assert(prefix.drop_last() =~= views.subrange(0, i as int));
            assert(prefix.last() == rows@[i as int]@);
            if i == 0 {
                assert(views.subrange(0, 0) =~= Seq::<Seq<i64>>::empty());
            }
            assert(out@ =~= start + "["@ + debug_rows(prefix));
        }
        i = i + 1;
    }
    assert(views.subrange(0, rows@.len() as int) =~= views);
    out.append("]");
}

/// The lower-case hexadecimal digit for `d` (meaningful for `d < 16`).
pub open spec fn hex_char(d: nat) -> char {
    if d < 10 { digit_char(d) }
    else if d == 10 { 'a' }
    else if d == 11 { 'b' }
    else if d == 12 { 'c' }
    else if d == 13 { 'd' }
    else if d == 14 { 'e' }
    else { 'f' }
}

/// The last `k` hexadecimal digits of `v`, zero-padded.
pub open spec fn hex_digits(v: nat, k: nat) -> Seq<char>
    decreases k,
{
    if k == 0 {
        seq![]
    } else {
        hex_digits(v / 16, (k - 1) as nat).push(hex_char(v % 16))
    }
}

fn hex_str(d: u64) -> (s: &'static str)
    requires
        d < 16,
    ensures
        s@ == seq![hex_char(d as nat)],
{
    if d < 10 {
        digit_str(d)
    } else if d == 10 {
        proof { reveal_strlit("a"); }
        "a"
    } else if d == 11 {
        proof { reveal_strlit("b"); }
        "b"
    } else if d == 12 {
        proof { reveal_strlit("c"); }
        "c"
    } else if d == 13 {
        proof { reveal_strlit("d"); }
        "d"
    } else if d == 14 {
        proof { reveal_strlit("e"); }
        "e"
    } else {
        proof { reveal_strlit("f"); }
        "f"
    }
}

/// Appends the last `k` hexadecimal digits of `v`, zero-padded.
pub fn append_hex_digits(out: &mut String, v: u64, k: u32)
    ensures
        final(out)@ == old(out)@ + hex_digits(v as nat, k as nat),
    decreases k,
{
    if k > 0 {
        append_hex_digits(out, v / 16, k - 1);
        out.append(hex_str(v % 16));
    }
}

/// Rendering of a list of sizes as `a, b, c`.
pub open spec fn debug_sizes(values: Seq<usize>) -> Seq<char>
    decreases values.len(),
{
    if values.len() == 0 {
        seq![]
    } else if values.len() == 1 {
        decimal(values[0] as nat)
    } else {
        debug_sizes(values.drop_last()) + ", "@ + decimal(values.last() as nat)
    }
}

/// Appends `[a, b, c]`, the `Debug` rendering of a list of sizes.
pub fn append_sizes(out: &mut String, values: &[usize])
    ensures
        final(out)@ == old(out)@ + "["@ + debug_sizes(values@) + "]"@,
{
    let ghost start = out@;
    out.append("[");
    let mut i: usize = 0;
    while i < values.len()
        invariant
            i <= values@.len(),
            out@ == start + "["@ + debug_sizes(values@.subrange(0, i as int)),
        decreases values@.len() - i,
    {
        if i > 0 {
            out.append(", ");
        }
        append_decimal(out, values[i] as u64);
        proof {
            let prefix = values@.subrange(0, i as int + 1);
            assert(prefix.drop_last() =~= values@.subrange(0, i as int));
            assert(prefix.last() == values@[i as int]);
            if i == 0 {
                assert(values@.subrange(0, 0) =~= Seq::<usize>::empty());
            }
            assert(out@ =~= start + "["@ + debug_sizes(prefix));
        }
        i = i + 1;
    }
    assert(values@.subrange(0, values@.len() as int) =~= values@);
    out.append("]");
}

} // verus!
