//! Shifting the cursor-position commands inside a stream of terminal graphics.

use vstd::prelude::*;

verus! {

/// The largest coordinate a cursor-position command carries.
pub const MAX_COORDINATE: u16 = 0xffff;

/// An ASCII digit.
pub open spec fn is_digit(b: u8) -> bool {
    0x30 <= b <= 0x39
}

/// How many digits `s` starts with.
pub open spec fn digit_run(s: Seq<u8>) -> nat
    decreases s.len(),
{
    if s.len() > 0 && is_digit(s[0]) {
        1 + digit_run(s.skip(1))
    } else {
        0
    }
}

/// The number that a run of digits stands for.
pub open spec fn digits_value(d: Seq<u8>) -> nat
    decreases d.len(),
{
    if d.len() == 0 {
        0
    } else {
        digits_value(d.drop_last()) * 10 + (d.last() - 0x30) as nat
    }
}

/// `n` in decimal, without leading zeros.
pub open spec fn decimal_bytes(n: nat) -> Seq<u8>
    decreases n,
{
    if n < 10 {
        seq![(0x30 + n) as u8]
    } else {
        decimal_bytes(n / 10).push((0x30 + n % 10) as u8)
    }
}

/// The coordinate that a run of digits names: its value, or 1 where that does
/// not fit a coordinate.
pub open spec fn coordinate(d: Seq<u8>) -> nat {
    if digits_value(d) <= MAX_COORDINATE {
        digits_value(d)
    } else {
        1
    }
}

/// A coordinate moved by an offset, held at the largest coordinate.
pub open spec fn offset_coordinate(value: nat, offset: nat) -> nat {
    if value + offset <= MAX_COORDINATE {
        value + offset
    } else {
        MAX_COORDINATE as nat
    }
}

/// Whether `s` starts with a cursor-position command `ESC [ row ; column H`:
/// the number of digits of the row and of the column.
pub open spec fn cursor_command(s: Seq<u8>) -> Option<(nat, nat)> {
    let rows = digit_run(s.skip(2));
    let columns = digit_run(s.skip(3 + rows as int));
    if {
        &&& s.len() >= 2
        &&& s[0] == 0x1b
        &&& s[1] == 0x5b
        &&& rows > 0
        &&& s.len() > 2 + rows
        &&& s[2 + rows as int] == 0x3b
        &&& columns > 0
        &&& s.len() > 3 + rows + columns
        &&& s[3 + rows as int + columns as int] == 0x48
    } {
        Some((rows, columns))
    } else {
        None
    }
}

/// The command that moves the cursor to `row` and `column`.
pub open spec fn command_bytes(row: nat, column: nat) -> Seq<u8> {
    seq![0x1bu8, 0x5bu8] + decimal_bytes(row) + seq![0x3bu8] + decimal_bytes(column) + seq![0x48u8]
}

/// The command that `s` starts with, shifted by the offsets.
pub open spec fn shifted_command(
    s: Seq<u8>,
    rows: nat,
    columns: nat,
    column_offset: nat,
    row_offset: nat,
) -> Seq<u8> {
    command_bytes(
        offset_coordinate(coordinate(s.subrange(2, 2 + rows as int)), row_offset),
        offset_coordinate(
            coordinate(s.subrange(3 + rows as int, 3 + rows as int + columns as int)),
            column_offset,
        ),
    )
}

/// `s` with every cursor-position command in it shifted, and every other byte
/// kept.
pub open spec fn shifted_stream(s: Seq<u8>, column_offset: nat, row_offset: nat) -> Seq<u8>
    decreases s.len(),
{
    if s.len() == 0 {
        seq![]
    } else {
        match cursor_command(s) {
            Some((rows, columns)) => shifted_command(s, rows, columns, column_offset, row_offset)
                + shifted_stream(s.skip(4 + rows as int + columns as int), column_offset, row_offset),
            None => seq![s[0]] + shifted_stream(s.skip(1), column_offset, row_offset),
        }
    }
}

/// What a frame's graphics become when its content is drawn at an offset: the
/// same bytes where there is no offset, else the shifted stream.
pub open spec fn shifted_graphics(s: Seq<u8>, column_offset: nat, row_offset: nat) -> Seq<u8> {
    if column_offset == 0 && row_offset == 0 {
        s
    } else {
        shifted_stream(s, column_offset, row_offset)
    }
}

proof fn lemma_digit_run_bound(s: Seq<u8>)
    ensures
        digit_run(s) <= s.len(),
        forall|i: int| 0 <= i < digit_run(s) ==> is_digit(#[trigger] s[i]),
        digit_run(s) < s.len() ==> !is_digit(s[digit_run(s) as int]),
    decreases s.len(),
{
    if s.len() > 0 && is_digit(s[0]) {
        lemma_digit_run_bound(s.skip(1));
        assert forall|i: int| 0 <= i < digit_run(s) implies is_digit(#[trigger] s[i]) by {
            if i > 0 {
                assert(s.skip(1)[i - 1] == s[i]);
            }
        }
    }
}

/// A run is as long as the digits in front of a byte that is none.
proof fn lemma_digit_run_exact(s: Seq<u8>, n: nat)
    requires
        n <= s.len(),
        forall|i: int| 0 <= i < n ==> is_digit(#[trigger] s[i]),
        n < s.len() ==> !is_digit(s[n as int]),
    ensures
        digit_run(s) == n,
    decreases n,
{
    if n > 0 {
        assert(is_digit(s[0]));
        let t = s.skip(1);
        assert forall|i: int| 0 <= i < n - 1 implies is_digit(#[trigger] t[i]) by {
            assert(t[i] == s[i + 1]);
        }
        lemma_digit_run_exact(t, (n - 1) as nat);
    }
}

/// The end of the run of digits that starts at `from`.
fn digits_end(g: &[u8], from: usize) -> (end: usize)
    requires
        from <= g@.len(),
    ensures
        end == from + digit_run(g@.skip(from as int)),
        end <= g@.len(),
{
    let mut end: usize = from;
    while end < g.len() && g[end] >= 0x30 && g[end] <= 0x39
        invariant
            from <= end <= g@.len(),
            digit_run(g@.skip(from as int)) == (end - from) + digit_run(g@.skip(end as int)),
        decreases g@.len() - end,
    {
        assert(g@.skip(end as int).skip(1) =~= g@.skip(end + 1));
        assert(g@.skip(end as int)[0] == g@[end as int]);
        end += 1;
    }
    proof {
        if end < g@.len() {
            assert(g@.skip(end as int)[0] == g@[end as int]);
        }
        lemma_digit_run_bound(g@.skip(from as int));
    }
    end
}

proof fn lemma_value_grows(d: Seq<u8>, n: int)
    requires
        0 <= n <= d.len(),
        forall|i: int| 0 <= i < d.len() ==> is_digit(#[trigger] d[i]),
    ensures
        digits_value(d.take(n)) <= digits_value(d),
    decreases d.len() - n,
{
    if n < d.len() {
        assert(d.take(n + 1).drop_last() =~= d.take(n));
        assert(d.take(n + 1).last() == d[n]);
        lemma_value_grows(d, n + 1);
    } else {
        assert(d.take(n) =~= d);
    }
}

/// The coordinate named by the digits of `g` from `from` up to `to`.
fn parse_coordinate(g: &[u8], from: usize, to: usize) -> (r: u16)
    requires
        from <= to <= g@.len(),
        forall|i: int| from <= i < to ==> is_digit(#[trigger] g@[i]),
    ensures
        r == coordinate(g@.subrange(from as int, to as int)),
{
    let ghost d = g@.subrange(from as int, to as int);
    let mut value: u32 = 0;
    let mut i: usize = from;
    assert(d.take(0) =~= Seq::<u8>::empty());
    while i < to
        invariant
            from <= i <= to <= g@.len(),
            d == g@.subrange(from as int, to as int),
            forall|k: int| from <= k < to ==> is_digit(#[trigger] g@[k]),
            value == digits_value(d.take(i - from)),
            value <= 0xffff,
        decreases to - i,
    {
        let digit: u32 = (g[i] - 0x30) as u32;
        proof {
            assert(d.take(i - from + 1).drop_last() =~= d.take(i - from));
            assert(d.take(i - from + 1).last() == g@[i as int]);
        }
        value = value * 10 + digit;
        i += 1;
        if value > 0xffff {
            proof {
                assert forall|k: int| 0 <= k < d.len() implies is_digit(#[trigger] d[k]) by {
                    assert(d[k] == g@[from + k]);
                }
                lemma_value_grows(d, i - from);
            }
            return 1;
        }
    }
    assert(d.take(to - from) =~= d);
    value as u16
}

/// Appends `n` in decimal.
fn push_decimal(out: &mut Vec<u8>, n: u16)
    ensures
        final(out)@ == old(out)@ + decimal_bytes(n as nat),
    decreases n,
{
    if n < 10 {
        out.push(0x30 + n as u8);
        assert(out@ =~= old(out)@ + decimal_bytes(n as nat));
    } else {
        push_decimal(out, n / 10);
        out.push(0x30 + (n % 10) as u8);
        assert(out@ =~= old(out)@ + decimal_bytes(n as nat));
    }
}

/// Reads the cursor-position command at `cursor`: the ends of its row and of
/// its column.
fn read_command(graphics: &[u8], cursor: usize) -> (r: Option<(usize, usize)>)
    requires
        cursor <= graphics@.len(),
    ensures
        match (r, cursor_command(graphics@.skip(cursor as int))) {
            (Some((row_end, column_end)), Some((rows, columns))) => {
                &&& row_end == cursor + 2 + rows
                &&& column_end == row_end + 1 + columns
                &&& column_end < graphics@.len()
                &&& forall|i: int| cursor + 2 <= i < row_end ==> is_digit(#[trigger] graphics@[i])
                &&& forall|i: int| row_end < i < column_end ==> is_digit(#[trigger] graphics@[i])
            },
            (None, None) => true,
            _ => false,
        },
{
    let ghost s = graphics@.skip(cursor as int);
    if graphics.len() - cursor < 2 || graphics[cursor] != 0x1b || graphics[cursor + 1] != 0x5b {
        return None;
    }
    let row_start: usize = cursor + 2;
    let row_end: usize = digits_end(graphics, row_start);
    let ghost rows = row_end - row_start;
    proof {
        assert(s.skip(2) =~= graphics@.skip(row_start as int));
        lemma_digit_run_bound(s.skip(2));
        assert forall|i: int| row_start <= i < row_end implies is_digit(#[trigger] graphics@[i]) by {
            assert(s.skip(2)[i - row_start] == graphics@[i]);
        }
    }
    if row_end == row_start || row_end >= graphics.len() || graphics[row_end] != 0x3b {
        return None;
    }
    let column_start: usize = row_end + 1;
    let column_end: usize = digits_end(graphics, column_start);
    proof {
        assert(s.skip(3 + rows) =~= graphics@.skip(column_start as int));
        lemma_digit_run_bound(s.skip(3 + rows));
        assert forall|i: int| column_start <= i < column_end implies is_digit(
            #[trigger] graphics@[i],
        ) by {
            assert(s.skip(3 + rows)[i - column_start] == graphics@[i]);
        }
    }
    if column_end == column_start || column_end >= graphics.len() || graphics[column_end] != 0x48 {
        return None;
    }
    Some((row_end, column_end))
}

/// Appends the command that moves the cursor to `row` and `column`.
fn push_command(out: &mut Vec<u8>, row: u16, column: u16)
    ensures
        final(out)@ == old(out)@ + command_bytes(row as nat, column as nat),
{
    out.push(0x1b);
    out.push(0x5b);
    push_decimal(out, row);
    out.push(0x3b);
    push_decimal(out, column);
    out.push(0x48);
    assert(out@ =~= old(out)@ + command_bytes(row as nat, column as nat));
}

/// Kitty image placements use absolute cursor coordinates. Content-surface
/// servers encode those coordinates relative to column zero, so shift each
/// cursor-position command past the aggregate sidebar before blitting it.
#[verifier::spinoff_prover]
pub fn shift_graphics_coordinates(
    graphics: &[u8],
    column_offset: u16,
    row_offset: u16,
) -> (shifted: Vec<u8>)
    ensures
        shifted@ == shifted_graphics(graphics@, column_offset as nat, row_offset as nat),
{
    if graphics.len() == 0 || (column_offset == 0 && row_offset == 0) {
        return vstd::slice::slice_to_vec(graphics);
    }
    let mut shifted: Vec<u8> = Vec::with_capacity(graphics.len());
    let mut cursor: usize = 0;
    let ghost all = shifted_stream(graphics@, column_offset as nat, row_offset as nat);
    assert(graphics@.skip(0) =~= graphics@);
    while cursor < graphics.len()
        invariant
            cursor <= graphics@.len(),
            all == shifted@ + shifted_stream(
                graphics@.skip(cursor as int),
                column_offset as nat,
                row_offset as nat,
            ),
        decreases graphics@.len() - cursor,
    {
        let ghost s = graphics@.skip(cursor as int);
        match read_command(graphics, cursor) {
            Some((row_end, column_end)) => {
                let row: u16 = parse_coordinate(graphics, cursor + 2, row_end);
                let column: u16 = parse_coordinate(graphics, row_end + 1, column_end);
                push_command(
                    &mut shifted,
                    row.saturating_add(row_offset),
                    column.saturating_add(column_offset),
                );
                proof {
                    let rows = row_end - (cursor + 2);
                    let columns = column_end - (row_end + 1);
                    assert(s.subrange(2, 2 + rows) =~= graphics@.subrange(
                        cursor + 2,
                        row_end as int,
                    ));
                    assert(s.subrange(3 + rows, 3 + rows + columns) =~= graphics@.subrange(
                        row_end + 1,
                        column_end as int,
                    ));
                    assert(s.skip(4 + rows + columns) =~= graphics@.skip(column_end + 1));
                }
                cursor = column_end + 1;
            },
            None => {
                shifted.push(graphics[cursor]);
                cursor += 1;
                assert(s.skip(1) =~= graphics@.skip(cursor as int));
            },
        }
        assert(all =~= shifted@ + shifted_stream(
            graphics@.skip(cursor as int),
            column_offset as nat,
            row_offset as nat,
        ));
    }
    assert(shifted@ =~= all);
    shifted
}

proof fn lemma_decimal_digits(n: nat)
    ensures
        decimal_bytes(n).len() > 0,
        forall|i: int| 0 <= i < decimal_bytes(n).len() ==> is_digit(#[trigger] decimal_bytes(n)[i]),
        digits_value(decimal_bytes(n)) == n,
    decreases n,
{
    if n < 10 {
        let d = decimal_bytes(n);
        assert(d.drop_last() =~= Seq::<u8>::empty());
        assert(digits_value(d.drop_last()) == 0);
    } else {
        lemma_decimal_digits(n / 10);
        assert(decimal_bytes(n).drop_last() =~= decimal_bytes(n / 10));
    }
}

proof fn lemma_stream_head(s: Seq<u8>, column_offset: nat, row_offset: nat)
    ensures
        s.len() == 0 <==> shifted_stream(s, column_offset, row_offset).len() == 0,
        s.len() > 0 ==> shifted_stream(s, column_offset, row_offset)[0] == s[0],
        s.len() > 0 && s[0] != 0x1b ==> shifted_stream(s, column_offset, row_offset) == seq![s[0]]
            + shifted_stream(s.skip(1), column_offset, row_offset),
{
}

proof fn lemma_stream_keeps_digits(s: Seq<u8>, column_offset: nat, row_offset: nat)
    ensures
        digit_run(shifted_stream(s, column_offset, row_offset)) == digit_run(s),
        digit_run(s) <= s.len(),
        shifted_stream(s, column_offset, row_offset) == s.take(digit_run(s) as int)
            + shifted_stream(s.skip(digit_run(s) as int), column_offset, row_offset),
    decreases s.len(),
{
    let t = shifted_stream(s, column_offset, row_offset);
    lemma_stream_head(s, column_offset, row_offset);
    lemma_digit_run_bound(s);
    if digit_run(s) > 0 {
        let rest = s.skip(1);
        lemma_stream_keeps_digits(rest, column_offset, row_offset);
        assert(t.skip(1) =~= shifted_stream(rest, column_offset, row_offset));
        let n = digit_run(s) as int;
        assert(rest.skip(n - 1) =~= s.skip(n));
        assert(s.take(n) =~= seq![s[0]] + rest.take(n - 1));
        assert(t =~= s.take(n) + shifted_stream(s.skip(n), column_offset, row_offset));
    } else {
        assert(s.take(0) + shifted_stream(s.skip(0), column_offset, row_offset) =~= t) by {
            assert(s.skip(0) =~= s);
        }
    }
}

/// Where a stream does not start with a command, its shifted form does not
/// either.
proof fn lemma_stream_keeps_no_command(s: Seq<u8>, column_offset: nat, row_offset: nat)
    requires
        s.len() > 0,
        cursor_command(s) is None,
    ensures
        cursor_command(shifted_stream(s, column_offset, row_offset)) is None,
{
    let t = shifted_stream(s, column_offset, row_offset);
    let t1 = shifted_stream(s.skip(1), column_offset, row_offset);
    assert(t == seq![s[0]] + t1);
    assert(t.skip(1) =~= t1);
    lemma_stream_head(s.skip(1), column_offset, row_offset);
    if s[0] == 0x1b && s.len() >= 2 && s[1] == 0x5b {
        let s2 = s.skip(2);
        assert(s.skip(1).skip(1) =~= s2);
        assert(s.skip(1)[0] == s[1]);
        let t2 = shifted_stream(s2, column_offset, row_offset);
        assert(t1 == seq![s[1]] + t2);
        assert(t.skip(2) =~= t2);
        lemma_stream_keeps_digits(s2, column_offset, row_offset);
        let rows = digit_run(s2) as int;
        let s3 = s.skip(2 + rows);
        assert(s2.skip(rows) =~= s3);
        let t3 = shifted_stream(s3, column_offset, row_offset);
        assert(t.skip(2 + rows) =~= t3) by {
            assert(t2.skip(rows) =~= t3);
        }
        lemma_stream_head(s3, column_offset, row_offset);
        if rows > 0 && s.len() > 2 + rows && s[2 + rows] == 0x3b {
            assert(s3[0] == s[2 + rows]);
            let s4 = s.skip(3 + rows);
            assert(s3.skip(1) =~= s4);
            let t4 = shifted_stream(s4, column_offset, row_offset);
            assert(t3 == seq![s3[0]] + t4);
            assert(t.skip(3 + rows) =~= t4) by {
                assert(t3.skip(1) =~= t4);
            }
            lemma_stream_keeps_digits(s4, column_offset, row_offset);
            let columns = digit_run(s4) as int;
            let s5 = s.skip(3 + rows + columns);
            assert(s4.skip(columns) =~= s5);
            let t5 = shifted_stream(s5, column_offset, row_offset);
            assert(t.skip(3 + rows + columns) =~= t5) by {
                assert(t4.skip(columns) =~= t5);
            }
            lemma_stream_head(s5, column_offset, row_offset);
            assert(t.len() > 3 + rows + columns ==> t[3 + rows + columns] == t5[0]);
            assert(s.len() > 3 + rows + columns ==> s[3 + rows + columns] == s5[0]);
        } else {
            assert(t.len() > 2 + rows ==> t[2 + rows] == t3[0]);
            assert(s.len() > 2 + rows ==> s[2 + rows] == s3[0]);
        }
    } else {
        assert(t.len() >= 2 ==> t[1] == t1[0]);
    }
}

/// A written command is read back as the coordinates it was written with.
proof fn lemma_command_read_back(row: nat, column: nat, rest: Seq<u8>)
    requires
        row <= MAX_COORDINATE,
        column <= MAX_COORDINATE,
    ensures
        ({
            let s = command_bytes(row, column) + rest;
            let rows = decimal_bytes(row).len();
            let columns = decimal_bytes(column).len();
            &&& cursor_command(s) == Some((rows, columns))
            &&& coordinate(s.subrange(2, 2 + rows as int)) == row
            &&& coordinate(s.subrange(3 + rows as int, 3 + rows as int + columns as int)) == column
            &&& s.skip(4 + rows as int + columns as int) == rest
        }),
{
    let s = command_bytes(row, column) + rest;
    let r = decimal_bytes(row);
    let c = decimal_bytes(column);
    let rows = r.len() as int;
    let columns = c.len() as int;
    lemma_decimal_digits(row);
    lemma_decimal_digits(column);
    assert forall|i: int| 0 <= i < rows implies is_digit(#[trigger] s.skip(2)[i]) by {
        assert(s.skip(2)[i] == r[i]);
    }
    assert(s.skip(2)[rows] == 0x3b);
    lemma_digit_run_exact(s.skip(2), rows as nat);
    assert forall|i: int| 0 <= i < columns implies is_digit(#[trigger] s.skip(3 + rows)[i]) by {
        assert(s.skip(3 + rows)[i] == c[i]);
    }
    assert(s.skip(3 + rows)[columns] == 0x48);
    lemma_digit_run_exact(s.skip(3 + rows), columns as nat);
    assert(s.subrange(2, 2 + rows) =~= r);
    assert(s.subrange(3 + rows, 3 + rows + columns) =~= c);
    assert(s.skip(4 + rows + columns) =~= rest);
}

proof fn lemma_stream_shift_twice(
    s: Seq<u8>,
    first_column: nat,
    first_row: nat,
    second_column: nat,
    second_row: nat,
)
    ensures
        shifted_stream(shifted_stream(s, first_column, first_row), second_column, second_row)
            == shifted_stream(s, first_column + second_column, first_row + second_row),
    decreases s.len(),
{
    let t = shifted_stream(s, first_column, first_row);
    if s.len() > 0 {
        match cursor_command(s) {
            Some((rows, columns)) => {
                let rest = s.skip(4 + rows as int + columns as int);
                let row = offset_coordinate(coordinate(s.subrange(2, 2 + rows as int)), first_row);
                let column = offset_coordinate(
                    coordinate(s.subrange(3 + rows as int, 3 + rows as int + columns as int)),
                    first_column,
                );
                lemma_command_read_back(row, column, shifted_stream(rest, first_column, first_row));
                lemma_stream_shift_twice(rest, first_column, first_row, second_column, second_row);
            },
            None => {
                let rest = s.skip(1);
                lemma_stream_keeps_no_command(s, first_column, first_row);
                lemma_stream_shift_twice(rest, first_column, first_row, second_column, second_row);
                assert(t.skip(1) =~= shifted_stream(rest, first_column, first_row));
            },
        }
    }
}

/// Shifting twice is shifting once by the sum of the offsets, whatever the
/// bytes are.
pub proof fn law_shift_twice(
    s: Seq<u8>,
    first_column: nat,
    first_row: nat,
    second_column: nat,
    second_row: nat,
)
    ensures
        shifted_graphics(shifted_graphics(s, first_column, first_row), second_column, second_row)
            == shifted_graphics(s, first_column + second_column, first_row + second_row),
{
    if !(first_column == 0 && first_row == 0) && !(second_column == 0 && second_row == 0) {
        lemma_stream_shift_twice(s, first_column, first_row, second_column, second_row);
    }
}

proof fn lemma_offset_held(value: nat, offset: nat, held: nat)
    requires
        value <= MAX_COORDINATE,
        held == if offset <= MAX_COORDINATE {
            offset
        } else {
            MAX_COORDINATE as nat
        },
    ensures
        offset_coordinate(value, offset) == offset_coordinate(value, held),
{
}

/// An offset past the largest coordinate does what the largest one does.
proof fn lemma_stream_offsets_held(s: Seq<u8>, column: nat, row: nat, held_column: nat, held_row: nat)
    requires
        held_column == if column <= MAX_COORDINATE {
            column
        } else {
            MAX_COORDINATE as nat
        },
        held_row == if row <= MAX_COORDINATE {
            row
        } else {
            MAX_COORDINATE as nat
        },
    ensures
        shifted_stream(s, column, row) == shifted_stream(s, held_column, held_row),
    decreases s.len(),
{
    if s.len() > 0 {
        match cursor_command(s) {
            Some((rows, columns)) => {
                let split = 3 + rows as int;
                lemma_offset_held(coordinate(s.subrange(2, 2 + rows as int)), row, held_row);
                lemma_offset_held(
                    coordinate(s.subrange(split, split + columns as int)),
                    column,
                    held_column,
                );
                lemma_stream_offsets_held(
                    s.skip(4 + rows as int + columns as int),
                    column,
                    row,
                    held_column,
                    held_row,
                );
            },
            None => {
                lemma_stream_offsets_held(s.skip(1), column, row, held_column, held_row);
            },
        }
    }
}

/// Shifting twice is shifting once by the saturating sum of the offsets.
pub proof fn law_shift_twice_saturates(
    s: Seq<u8>,
    first_column: u16,
    first_row: u16,
    second_column: u16,
    second_row: u16,
)
    ensures
        shifted_graphics(
            shifted_graphics(s, first_column as nat, first_row as nat),
            second_column as nat,
            second_row as nat,
        ) == shifted_graphics(
            s,
            first_column.saturating_add(second_column) as nat,
            first_row.saturating_add(second_row) as nat,
        ),
{
    law_shift_twice(
        s,
        first_column as nat,
        first_row as nat,
        second_column as nat,
        second_row as nat,
    );
    lemma_stream_offsets_held(
        s,
        first_column as nat + second_column as nat,
        first_row as nat + second_row as nat,
        first_column.saturating_add(second_column) as nat,
        first_row.saturating_add(second_row) as nat,
    );
}

/// Whether `s` starts with a command whose row and column have so many digits.
pub open spec fn is_command(s: Seq<u8>, rows: int, columns: int) -> bool {
    &&& rows > 0
    &&& columns > 0
    &&& s.len() > 3 + rows + columns
    &&& s[0] == 0x1b
    &&& s[1] == 0x5b
    &&& forall|i: int| 2 <= i < 2 + rows ==> is_digit(#[trigger] s[i])
    &&& s[2 + rows] == 0x3b
    &&& forall|i: int| 3 + rows <= i < 3 + rows + columns ==> is_digit(#[trigger] s[i])
    &&& s[3 + rows + columns] == 0x48
}

proof fn lemma_command_found(s: Seq<u8>)
    ensures
        cursor_command(s) matches Some((rows, columns)) ==> is_command(
            s,
            rows as int,
            columns as int,
        ),
{
    if let Some((rows, columns)) = cursor_command(s) {
        let split = 3 + rows as int;
        lemma_digit_run_bound(s.skip(2));
        lemma_digit_run_bound(s.skip(split));
        assert forall|i: int| 2 <= i < 2 + rows implies is_digit(#[trigger] s[i]) by {
            assert(s.skip(2)[i - 2] == s[i]);
        }
        assert forall|i: int| split <= i < split + columns implies is_digit(#[trigger] s[i]) by {
            assert(s.skip(split)[i - split] == s[i]);
        }
    }
}

proof fn lemma_command_is_read(s: Seq<u8>, rows: int, columns: int)
    requires
        is_command(s, rows, columns),
    ensures
        cursor_command(s) == Some((rows as nat, columns as nat)),
{
    let after = s.skip(2);
    assert forall|i: int| 0 <= i < rows implies is_digit(#[trigger] after[i]) by {
        assert(after[i] == s[i + 2]);
    }
    assert(after[rows] == s[2 + rows]);
    lemma_digit_run_exact(after, rows as nat);
    let rest = s.skip(3 + rows);
    assert forall|i: int| 0 <= i < columns implies is_digit(#[trigger] rest[i]) by {
        assert(rest[i] == s[i + 3 + rows]);
    }
    assert(rest[columns] == s[3 + rows + columns]);
    lemma_digit_run_exact(rest, columns as nat);
}

/// Whether a stream may be cut between two pieces: no command reaches across.
pub open spec fn may_be_cut(front: Seq<u8>, back: Seq<u8>) -> bool {
    ||| front.len() == 0
    ||| back.len() == 0
    ||| front.last() == 0x48
    ||| back[0] == 0x1b
}

/// Where a stream may be cut, the first piece starts with the command that the
/// whole starts with.
proof fn lemma_command_before_cut(front: Seq<u8>, back: Seq<u8>)
    requires
        front.len() > 0,
        may_be_cut(front, back),
    ensures
        cursor_command(front + back) == cursor_command(front),
{
    let whole = front + back;
    lemma_command_found(front);
    lemma_command_found(whole);
    if let Some((rows, columns)) = cursor_command(front) {
        assert forall|i: int| 0 <= i < front.len() implies #[trigger] whole[i] == front[i] by {}
        lemma_command_is_read(whole, rows as int, columns as int);
    } else if let Some((rows, columns)) = cursor_command(whole) {
        let end = 3 + rows as int + columns as int;
        if end < front.len() {
            assert forall|i: int| 0 <= i < front.len() implies #[trigger] front[i] == whole[i] by {}
            lemma_command_is_read(front, rows as int, columns as int);
        } else {
            assert(whole[front.len() as int] == back[0]);
            assert(whole[front.len() - 1] == front.last());
        }
    }
}

proof fn lemma_stream_by_pieces(front: Seq<u8>, back: Seq<u8>, column_offset: nat, row_offset: nat)
    requires
        may_be_cut(front, back),
    ensures
        shifted_stream(front + back, column_offset, row_offset) == shifted_stream(
            front,
            column_offset,
            row_offset,
        ) + shifted_stream(back, column_offset, row_offset),
    decreases front.len(),
{
    let whole = front + back;
    let after = shifted_stream(back, column_offset, row_offset);
    if front.len() == 0 {
        assert(whole =~= back);
        assert(seq![] + after =~= after);
    } else {
        lemma_command_before_cut(front, back);
        lemma_command_found(front);
        match cursor_command(front) {
            Some((rows, columns)) => {
                let split = 3 + rows as int;
                let end = split + columns as int;
                let rest = front.skip(end + 1);
                assert(whole.subrange(2, split - 1) =~= front.subrange(2, split - 1));
                assert(whole.subrange(split, end) =~= front.subrange(split, end));
                assert(whole.skip(end + 1) =~= rest + back);
                assert(rest.len() > 0 ==> rest.last() == front.last());
                lemma_stream_by_pieces(rest, back, column_offset, row_offset);
                assert(shifted_stream(whole, column_offset, row_offset) =~= shifted_stream(
                    front,
                    column_offset,
                    row_offset,
                ) + after);
            },
            None => {
                let rest = front.skip(1);
                assert(whole[0] == front[0]);
                assert(whole.skip(1) =~= rest + back);
                assert(rest.len() > 0 ==> rest.last() == front.last());
                lemma_stream_by_pieces(rest, back, column_offset, row_offset);
                assert(shifted_stream(whole, column_offset, row_offset) =~= shifted_stream(
                    front,
                    column_offset,
                    row_offset,
                ) + after);
            },
        }
    }
}

/// A stream that is cut before an escape byte, or after an `H`, is shifted piece
/// by piece.
pub proof fn law_shift_by_pieces(
    front: Seq<u8>,
    back: Seq<u8>,
    column_offset: nat,
    row_offset: nat,
)
    requires
        may_be_cut(front, back),
    ensures
        shifted_graphics(front + back, column_offset, row_offset) == shifted_graphics(
            front,
            column_offset,
            row_offset,
        ) + shifted_graphics(back, column_offset, row_offset),
{
    if !(column_offset == 0 && row_offset == 0) {
        lemma_stream_by_pieces(front, back, column_offset, row_offset);
    }
}

/// A command in front of a stream is the only thing in it that a shift
/// changes: both its coordinates move by their offset, held at the largest
/// coordinate, and what follows is shifted on its own.
pub proof fn law_shift_moves_command(
    row: nat,
    column: nat,
    rest: Seq<u8>,
    column_offset: nat,
    row_offset: nat,
)
    requires
        row <= MAX_COORDINATE,
        column <= MAX_COORDINATE,
    ensures
        shifted_graphics(command_bytes(row, column) + rest, column_offset, row_offset)
            == command_bytes(
            offset_coordinate(row, row_offset),
            offset_coordinate(column, column_offset),
        ) + shifted_graphics(rest, column_offset, row_offset),
{
    lemma_command_read_back(row, column, rest);
}

/// Graphics without an escape byte stay as they are.
pub proof fn law_shift_keeps_plain_bytes(s: Seq<u8>, column_offset: nat, row_offset: nat)
    requires
        !s.contains(0x1b),
    ensures
        shifted_graphics(s, column_offset, row_offset) == s,
    decreases s.len(),
{
    if s.len() > 0 && !(column_offset == 0 && row_offset == 0) {
        assert(s[0] != 0x1b);
        let rest = s.skip(1);
        assert forall|b: u8| rest.contains(b) implies s.contains(b) by {
            let i = choose|i: int| 0 <= i < rest.len() && rest[i] == b;
            assert(s[i + 1] == b);
        }
        law_shift_keeps_plain_bytes(rest, column_offset, row_offset);
        assert(s =~= seq![s[0]] + rest);
    }
}

/// A command whose coordinates leave room moves by just the offsets: its row by
/// that of the rows, and its column by that of the columns.
pub proof fn law_commands_move_by_the_offsets(
    row: nat,
    column: nat,
    rest: Seq<u8>,
    column_offset: nat,
    row_offset: nat,
)
    requires
        row + row_offset <= 0xffff,
        column + column_offset <= 0xffff,
    ensures
        shifted_graphics(command_bytes(row, column) + rest, column_offset, row_offset)
            == command_bytes(row + row_offset, column + column_offset) + shifted_graphics(
            rest,
            column_offset,
            row_offset,
        ),
{
    law_shift_moves_command(row, column, rest, column_offset, row_offset);
}

/// A command is an escape, a bracket, the row, a semicolon, the column and an
/// `H`, where the row and the column are digits that stand for them.
pub proof fn law_commands_are_spelled_out(row: nat, column: nat)
    ensures
        ({
            let r = decimal_bytes(row);
            let c = decimal_bytes(column);
            let s = command_bytes(row, column);
            &&& s.len() == 4 + r.len() + c.len()
            &&& s[0] == 0x1b
            &&& s[1] == 0x5b
            &&& s.subrange(2, 2 + r.len() as int) == r
            &&& s[2 + r.len() as int] == 0x3b
            &&& s.subrange(3 + r.len() as int, 3 + (r.len() + c.len()) as int) == c
            &&& s[3 + (r.len() + c.len()) as int] == 0x48
            &&& digits_value(r) == row
            &&& digits_value(c) == column
        }),
        forall|i: int|
            0 <= i < decimal_bytes(row).len() ==> 0x30 <= #[trigger] decimal_bytes(row)[i] <= 0x39,
        decimal_bytes(row).len() > 1 ==> decimal_bytes(row)[0] != 0x30,
{
    let s = command_bytes(row, column);
    let r = decimal_bytes(row);
    let c = decimal_bytes(column);
    lemma_decimal_digits(row);
    lemma_decimal_digits(column);
    lemma_no_leading_zero(row);
    assert(s.subrange(2, 2 + r.len() as int) =~= r);
    assert(s.subrange(3 + r.len() as int, 3 + (r.len() + c.len()) as int) =~= c);
    assert forall|i: int| 0 <= i < r.len() implies 0x30 <= #[trigger] r[i] <= 0x39 by {
        assert(is_digit(r[i]));
    }
}

proof fn lemma_no_leading_zero(n: nat)
    ensures
        n > 0 ==> decimal_bytes(n)[0] != 0x30,
        decimal_bytes(n).len() > 0,
        decimal_bytes(n).len() > 1 ==> n > 0,
    decreases n,
{
    if n >= 10 {
        lemma_no_leading_zero(n / 10);
    }
}

/// Each digit stands for ten times as much as the one that follows it.
pub proof fn law_digits_count_in_tens(digits: Seq<u8>, digit: u8)
    requires
        0x30 <= digit <= 0x39,
    ensures
        digits_value(digits.push(digit)) == 10 * digits_value(digits) + (digit - 0x30),
        digits_value(Seq::empty()) == 0,
{
    assert(digits.push(digit).drop_last() =~= digits);
}

/// Whatever digits a command names its place with, the place moves by the
/// offsets. A number that is no coordinate counts as one.
pub proof fn law_commands_are_read_by_their_digits(
    row: Seq<u8>,
    column: Seq<u8>,
    rest: Seq<u8>,
    column_offset: nat,
    row_offset: nat,
)
    requires
        row.len() > 0,
        column.len() > 0,
        forall|i: int| 0 <= i < row.len() ==> 0x30 <= #[trigger] row[i] <= 0x39,
        forall|i: int| 0 <= i < column.len() ==> 0x30 <= #[trigger] column[i] <= 0x39,
        column_offset > 0 || row_offset > 0,
    ensures
        ({
            let s = seq![0x1bu8, 0x5bu8] + row + seq![0x3bu8] + column + seq![0x48u8] + rest;
            let from_row = if digits_value(row) <= 0xffff {
                digits_value(row)
            } else {
                1
            };
            let from_column = if digits_value(column) <= 0xffff {
                digits_value(column)
            } else {
                1
            };
            let to_row = if from_row + row_offset <= 0xffff {
                from_row + row_offset
            } else {
                0xffff
            };
            let to_column = if from_column + column_offset <= 0xffff {
                from_column + column_offset
            } else {
                0xffff
            };
            shifted_graphics(s, column_offset, row_offset) == command_bytes(to_row, to_column)
                + shifted_graphics(rest, column_offset, row_offset)
        }),
{
    let s = seq![0x1bu8, 0x5bu8] + row + seq![0x3bu8] + column + seq![0x48u8] + rest;
    let rows = row.len() as int;
    let columns = column.len() as int;
    assert forall|i: int| 2 <= i < 2 + rows implies is_digit(#[trigger] s[i]) by {
        assert(s[i] == row[i - 2]);
    }
    assert forall|i: int| 3 + rows <= i < 3 + rows + columns implies is_digit(#[trigger] s[i]) by {
        assert(s[i] == column[i - 3 - rows]);
    }
    lemma_command_is_read(s, rows, columns);
    assert(s.subrange(2, 2 + rows) =~= row);
    assert(s.subrange(3 + rows, 3 + rows + columns) =~= column);
    assert(s.skip(4 + rows + columns) =~= rest);
}

/// A byte that no command starts with is kept, and what follows it is shifted on
/// its own: a command takes a digit at least for its row and for its column.
pub proof fn law_other_bytes_are_kept(s: Seq<u8>, column_offset: nat, row_offset: nat)
    requires
        s.len() > 0,
        forall|rows: int, columns: int| !#[trigger] is_command(s, rows, columns),
    ensures
        shifted_graphics(s, column_offset, row_offset) == seq![s[0]] + shifted_graphics(
            s.skip(1),
            column_offset,
            row_offset,
        ),
{
    lemma_command_found(s);
    if let Some((rows, columns)) = cursor_command(s) {
        assert(is_command(s, rows as int, columns as int));
    }
    assert(s =~= seq![s[0]] + s.skip(1));
}

} // verus!
