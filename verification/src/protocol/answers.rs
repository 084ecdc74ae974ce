//! The other end of the wire: what a server sends, and what the client reads from it.
//!
//! The writer here knows nothing of how the client reads. The client reads back what was written,
//! and takes nothing else for it.

use vstd::prelude::*;

use crate::error::{Error, ErrorView, ServerError};
use crate::protocol::backend::{
    async_of, asynchronous, column_at, columns_from, columns_of, complete_of, empty_of, error_of,
    fields_from, header_of, is_async_type, parse_async, parse_columns, parse_complete,
    parse_empty, parse_error, parse_header, parse_ready, parse_row, ready_of, row_from,
    row_of, texts_at, zero_at, ColumnView, CommandComplete, DataRow, RowDescription,
};
use crate::protocol::wire::{read16, read32};
use crate::types::{AsyncMessage, AsyncMessageView, TransactionStatus};

verus! {

/// A number in so many bytes, most significant byte first.
pub open spec fn bytes_of(n: nat, width: nat) -> Seq<u8>
    decreases width,
{
    if width == 0 {
        Seq::empty()
    } else {
        bytes_of(n / 256, (width - 1) as nat).push((n % 256) as u8)
    }
}

/// No byte is zero.
pub open spec fn no_zero(s: Seq<u8>) -> bool {
    forall|i: int| 0 <= i < s.len() ==> #[trigger] s[i] != 0
}

/// The values of a row, each with its length before it, -1 for NULL.
pub open spec fn written_values(values: Seq<Option<Seq<u8>>>) -> Seq<u8>
    decreases values.len(),
{
    if values.len() == 0 {
        Seq::empty()
    } else {
        (match values[0] {
            Some(b) => bytes_of(b.len(), 4) + b,
            None => bytes_of(0xffff_ffff, 4),
        }) + written_values(values.drop_first())
    }
}

/// The payload of a DataRow.
pub open spec fn written_row(values: Seq<Option<Seq<u8>>>) -> Seq<u8> {
    bytes_of(values.len(), 2) + written_values(values)
}

/// The values fit into a DataRow.
pub open spec fn row_fits(values: Seq<Option<Seq<u8>>>) -> bool {
    &&& values.len() <= 0xffff
    &&& forall|i: int|
        0 <= i < values.len() ==> (#[trigger] values[i] matches Some(b) ==> b.len() < 0xffff_ffff)
}

/// The description of a column: its name, zero-terminated, and its numbers.
pub open spec fn written_column(c: ColumnView) -> Seq<u8> {
    c.name + seq![0u8] + bytes_of(c.table_oid as nat, 4) + bytes_of(c.attribute as nat, 2)
        + bytes_of(c.type_oid as nat, 4) + bytes_of(c.type_length as nat, 2) + bytes_of(
        c.type_modifier as nat,
        4,
    ) + bytes_of(c.format as nat, 2)
}

/// The descriptions of columns, one after the other.
pub open spec fn written_columns(columns: Seq<ColumnView>) -> Seq<u8>
    decreases columns.len(),
{
    if columns.len() == 0 {
        Seq::empty()
    } else {
        written_column(columns[0]) + written_columns(columns.drop_first())
    }
}

/// The payload of a RowDescription.
pub open spec fn written_description(columns: Seq<ColumnView>) -> Seq<u8> {
    bytes_of(columns.len(), 2) + written_columns(columns)
}

/// The columns fit into a RowDescription.
pub open spec fn columns_fit(columns: Seq<ColumnView>) -> bool {
    &&& columns.len() <= 0xffff
    &&& forall|i: int| 0 <= i < columns.len() ==> no_zero((#[trigger] columns[i]).name)
}

/// The payload of an ErrorResponse or a NoticeResponse: fields, each a code and a zero-terminated
/// value, and a zero byte.
pub open spec fn written_fields(fields: Seq<(u8, Seq<u8>)>) -> Seq<u8>
    decreases fields.len(),
{
    if fields.len() == 0 {
        seq![0u8]
    } else {
        seq![fields[0].0] + fields[0].1 + seq![0u8] + written_fields(fields.drop_first())
    }
}

/// The fields can be told apart: no code and no byte of a value is zero.
pub open spec fn fields_fit(fields: Seq<(u8, Seq<u8>)>) -> bool {
    forall|i: int|
        0 <= i < fields.len() ==> (#[trigger] fields[i]).0 != 0 && no_zero(fields[i].1)
}

proof fn two_bytes(n: nat)
    requires
        n <= 0xffff,
    ensures
        bytes_of(n, 2).len() == 2,
        bytes_of(n, 2)[0] == n / 256,
        bytes_of(n, 2)[1] == n % 256,
{
    reveal_with_fuel(bytes_of, 3);
}

proof fn four_bytes(n: nat)
    requires
        n <= 0xffff_ffff,
    ensures
        bytes_of(n, 4).len() == 4,
        bytes_of(n, 4)[0] == n / 256 / 256 / 256,
        bytes_of(n, 4)[1] == n / 256 / 256 % 256,
        bytes_of(n, 4)[2] == n / 256 % 256,
        bytes_of(n, 4)[3] == n % 256,
{
    reveal_with_fuel(bytes_of, 5);
}

/// The client reads a number as it was written, wherever it stands.
pub proof fn numbers_read_back(prefix: Seq<u8>, n: u16, m: u32, rest: Seq<u8>)
    ensures
        read16(prefix + bytes_of(n as nat, 2) + rest, prefix.len() as int) == n,
        read32(prefix + bytes_of(m as nat, 4) + rest, prefix.len() as int) == m,
{
    two_bytes(n as nat);
    four_bytes(m as nat);
    let k = prefix.len() as int;
    let a = prefix + bytes_of(n as nat, 2) + rest;
    assert(a[k] == bytes_of(n as nat, 2)[0] && a[k + 1] == bytes_of(n as nat, 2)[1]);
    let b = prefix + bytes_of(m as nat, 4) + rest;
    assert(b[k] == bytes_of(m as nat, 4)[0] && b[k + 1] == bytes_of(m as nat, 4)[1]);
    assert(b[k + 2] == bytes_of(m as nat, 4)[2] && b[k + 3] == bytes_of(m as nat, 4)[3]);
}

proof fn numbers_stand(s: Seq<u8>, at: int)
    ensures
        0 <= at && at + 2 <= s.len() ==> s.subrange(at, at + 2) == bytes_of(
            read16(s, at) as nat,
            2,
        ),
        0 <= at && at + 4 <= s.len() ==> s.subrange(at, at + 4) == bytes_of(
            read32(s, at) as nat,
            4,
        ),
{
    two_bytes(read16(s, at) as nat);
    four_bytes(read32(s, at) as nat);
    if 0 <= at && at + 2 <= s.len() {
        assert(s.subrange(at, at + 2) =~= bytes_of(read16(s, at) as nat, 2));
    }
    if 0 <= at && at + 4 <= s.len() {
        assert(s.subrange(at, at + 4) =~= bytes_of(read32(s, at) as nat, 4));
    }
}

proof fn row_reads_on(prefix: Seq<u8>, values: Seq<Option<Seq<u8>>>, rest: Seq<u8>)
    requires
        row_fits(values),
    ensures
        row_from(prefix + written_values(values) + rest, prefix.len() as int, values.len())
            == Some(values),
    decreases values.len(),
{
    let s = prefix + written_values(values) + rest;
    if values.len() == 0 {
        assert(values =~= Seq::empty());
    } else {
        let tail = values.drop_first();
        assert forall|i: int| 0 <= i < tail.len() implies (#[trigger] tail[i] matches Some(b)
            ==> b.len() < 0xffff_ffff) by {
            assert(values[i + 1] == tail[i]);
        }
        assert(seq![values[0]] + tail =~= values);
        let at = prefix.len() as int;
        match values[0] {
            None => {
                four_bytes(0xffff_ffff);
                let next = prefix + bytes_of(0xffff_ffff, 4);
                numbers_read_back(prefix, 0, 0xffff_ffff, written_values(tail) + rest);
                assert(s =~= prefix + bytes_of(0xffff_ffff, 4) + (written_values(tail) + rest));
                assert(s =~= next + written_values(tail) + rest);
                row_reads_on(next, tail, rest);
            },
            Some(b) => {
                four_bytes(b.len());
                let next = prefix + bytes_of(b.len(), 4) + b;
                numbers_read_back(prefix, 0, b.len() as u32, b + written_values(tail) + rest);
                assert(s =~= prefix + bytes_of(b.len(), 4) + (b + written_values(tail) + rest));
                assert(s =~= next + written_values(tail) + rest);
                assert(s.subrange(at + 4, at + 4 + b.len()) =~= b);
                row_reads_on(next, tail, rest);
            },
        }
    }
}

/// A row is read as it was sent: every value as itself, NULL as NULL.
pub proof fn row_reads_back(values: Seq<Option<Seq<u8>>>, rest: Seq<u8>)
    requires
        row_fits(values),
    ensures
        row_of(written_row(values) + rest) == Ok::<Seq<Option<Seq<u8>>>, ErrorView>(values),
{
    two_bytes(values.len());
    numbers_read_back(Seq::empty(), values.len() as u16, 0, written_values(values) + rest);
    let s = written_row(values) + rest;
    assert(s =~= Seq::empty() + bytes_of(values.len(), 2) + (written_values(values) + rest));
    assert(s =~= bytes_of(values.len(), 2) + written_values(values) + rest);
    row_reads_on(bytes_of(values.len(), 2), values, rest);
}

proof fn row_stands(s: Seq<u8>, at: int, n: nat)
    requires
        0 <= at <= s.len(),
    ensures
        row_from(s, at, n) matches Some(values) ==> values.len() == n && at + written_values(
            values,
        ).len() <= s.len() && s.subrange(at, at + written_values(values).len())
            == written_values(values),
    decreases n,
{
    if n == 0 {
        assert(s.subrange(at, at) =~= Seq::empty());
    } else if at + 4 <= s.len() {
        let length = read32(s, at);
        numbers_stand(s, at);
        four_bytes(length as nat);
        let end = if length == 0xffff_ffff {
            at + 4
        } else {
            at + 4 + length
        };
        if end <= s.len() {
            row_stands(s, end, (n - 1) as nat);
            if let Some(rest) = row_from(s, end, (n - 1) as nat) {
                let values = row_from(s, at, n)->Some_0;
                assert(values.drop_first() =~= rest);
                let w = written_values(values);
                let r = written_values(rest);
                if length == 0xffff_ffff {
                    assert(values[0] is None);
                    assert(w == bytes_of(length as nat, 4) + r);
                } else {
                    let b = s.subrange(at + 4, end);
                    assert(values[0] == Some(b));
                    assert(w == bytes_of(b.len(), 4) + b + r);
                }
                assert(s.subrange(at, at + w.len()) =~= w);
            }
        }
    }
}

/// Whatever is taken for a row is one: the values that come out are those that the payload begins
/// with. All else is refused as malformed.
pub proof fn row_is_what_was_sent(payload: Seq<u8>)
    ensures
        match row_of(payload) {
            Ok(values) => payload.len() >= written_row(values).len() && payload.take(
                written_row(values).len() as int,
            ) == written_row(values),
            Err(e) => e == ErrorView::Protocol("malformed "@ + "DataRow"@),
        },
{
    if payload.len() >= 2 {
        numbers_stand(payload, 0);
        row_stands(payload, 2, read16(payload, 0) as nat);
        two_bytes(read16(payload, 0) as nat);
        if let Ok(values) = row_of(payload) {
            let w = written_values(values);
            assert(payload.take(2 + w.len() as int) =~= payload.subrange(0, 2) + payload.subrange(
                2,
                2 + w.len() as int,
            ));
        }
    }
}

proof fn zero_is_found(prefix: Seq<u8>, name: Seq<u8>, rest: Seq<u8>)
    requires
        no_zero(name),
    ensures
        zero_at(prefix + name + seq![0u8] + rest, prefix.len() as int) == Some(
            prefix.len() as int + name.len(),
        ),
    decreases name.len(),
{
    let s = prefix + name + seq![0u8] + rest;
    if name.len() > 0 {
        assert(s[prefix.len() as int] == name[0]);
        assert forall|i: int| 0 <= i < name.drop_first().len() implies #[trigger] name.drop_first()[i]
            != 0 by {
            assert(name[i + 1] == name.drop_first()[i]);
        }
        zero_is_found(prefix.push(name[0]), name.drop_first(), rest);
        assert(s =~= prefix.push(name[0]) + name.drop_first() + seq![0u8] + rest);
    }
}

proof fn zero_stands(s: Seq<u8>, from: int)
    requires
        0 <= from,
    ensures
        match zero_at(s, from) {
            Some(end) => from <= end < s.len() && s[end] == 0 && no_zero(s.subrange(from, end)),
            None => forall|i: int| from <= i < s.len() ==> #[trigger] s[i] != 0,
        },
    decreases s.len() - from,
{
    if from < s.len() && s[from] != 0 {
        zero_stands(s, from + 1);
        if let Some(end) = zero_at(s, from) {
            assert forall|i: int| 0 <= i < s.subrange(from, end).len() implies #[trigger] s.subrange(
                from,
                end,
            )[i] != 0 by {
                if i > 0 {
                    assert(s.subrange(from, end)[i] == s.subrange(from + 1, end)[i - 1]);
                }
            }
        }
    }
}

#[verifier::spinoff_prover]
#[verifier::rlimit(40)]
proof fn column_reads_back(prefix: Seq<u8>, c: ColumnView, rest: Seq<u8>)
    requires
        no_zero(c.name),
    ensures
        ({
            let s = prefix + written_column(c) + rest;
            let at = prefix.len() as int;
            let end = at + c.name.len();
            &&& zero_at(s, at) == Some(end)
            &&& column_at(s, at, end) == c
            &&& written_column(c).len() == c.name.len() + 19
        }),
{
    four_bytes(c.table_oid as nat);
    two_bytes(c.attribute as nat);
    four_bytes(c.type_oid as nat);
    two_bytes(c.type_length as nat);
    four_bytes(c.type_modifier as nat);
    two_bytes(c.format as nat);
    let b1 = bytes_of(c.table_oid as nat, 4);
    let b2 = bytes_of(c.attribute as nat, 2);
    let b3 = bytes_of(c.type_oid as nat, 4);
    let b4 = bytes_of(c.type_length as nat, 2);
    let b5 = bytes_of(c.type_modifier as nat, 4);
    let b6 = bytes_of(c.format as nat, 2);
    let s = prefix + written_column(c) + rest;
    let p0 = prefix + c.name + seq![0u8];
    let p1 = p0 + b1;
    let p2 = p1 + b2;
    let p3 = p2 + b3;
    let p4 = p3 + b4;
    let p5 = p4 + b5;
    assert(s =~= prefix + c.name + seq![0u8] + (b1 + b2 + b3 + b4 + b5 + b6 + rest));
    zero_is_found(prefix, c.name, b1 + b2 + b3 + b4 + b5 + b6 + rest);
    assert(s =~= p0 + b1 + (b2 + b3 + b4 + b5 + b6 + rest));
    numbers_read_back(p0, 0, c.table_oid, b2 + b3 + b4 + b5 + b6 + rest);
    assert(s =~= p1 + b2 + (b3 + b4 + b5 + b6 + rest));
    numbers_read_back(p1, c.attribute, 0, b3 + b4 + b5 + b6 + rest);
    assert(s =~= p2 + b3 + (b4 + b5 + b6 + rest));
    numbers_read_back(p2, 0, c.type_oid, b4 + b5 + b6 + rest);
    assert(s =~= p3 + b4 + (b5 + b6 + rest));
    numbers_read_back(p3, c.type_length, 0, b5 + b6 + rest);
    assert(s =~= p4 + b5 + (b6 + rest));
    numbers_read_back(p4, 0, c.type_modifier, b6 + rest);
    assert(s =~= p5 + b6 + rest);
    numbers_read_back(p5, c.format, 0, rest);
    assert(s.subrange(prefix.len() as int, prefix.len() as int + c.name.len()) =~= c.name);
}

proof fn columns_read_on(prefix: Seq<u8>, columns: Seq<ColumnView>, rest: Seq<u8>)
    requires
        columns_fit(columns),
    ensures
        columns_from(prefix + written_columns(columns) + rest, prefix.len() as int, columns.len())
            == Some(columns),
    decreases columns.len(),
{
    let s = prefix + written_columns(columns) + rest;
    if columns.len() == 0 {
        assert(columns =~= Seq::empty());
    } else {
        let tail = columns.drop_first();
        assert forall|i: int| 0 <= i < tail.len() implies no_zero((#[trigger] tail[i]).name) by {
            assert(columns[i + 1] == tail[i]);
        }
        let c = columns[0];
        assert(s =~= prefix + written_column(c) + (written_columns(tail) + rest));
        column_reads_back(prefix, c, written_columns(tail) + rest);
        let next = prefix + written_column(c);
        assert(s =~= next + written_columns(tail) + rest);
        columns_read_on(next, tail, rest);
        assert(seq![c] + tail =~= columns);
    }
}

/// The columns of a result are read as they were described: the name and every number of each, in
/// order.
pub proof fn columns_read_back(columns: Seq<ColumnView>, rest: Seq<u8>)
    requires
        columns_fit(columns),
    ensures
        columns_of(written_description(columns) + rest) == Ok::<Seq<ColumnView>, ErrorView>(
            columns,
        ),
{
    two_bytes(columns.len());
    numbers_read_back(Seq::empty(), columns.len() as u16, 0, written_columns(columns) + rest);
    let s = written_description(columns) + rest;
    assert(s =~= Seq::empty() + bytes_of(columns.len(), 2) + (written_columns(columns) + rest));
    assert(s =~= bytes_of(columns.len(), 2) + written_columns(columns) + rest);
    columns_read_on(bytes_of(columns.len(), 2), columns, rest);
}

#[verifier::spinoff_prover]
#[verifier::rlimit(40)]
proof fn column_stands(s: Seq<u8>, at: int, end: int)
    requires
        0 <= at <= end,
        end + 19 <= s.len(),
        s[end] == 0,
    ensures
        s.subrange(at, end + 19) == written_column(column_at(s, at, end)),
{
    numbers_stand(s, end + 1);
    numbers_stand(s, end + 5);
    numbers_stand(s, end + 7);
    numbers_stand(s, end + 11);
    numbers_stand(s, end + 13);
    numbers_stand(s, end + 17);
    assert(s.subrange(at, end + 19) =~= s.subrange(at, end) + seq![0u8] + s.subrange(
        end + 1,
        end + 5,
    ) + s.subrange(end + 5, end + 7) + s.subrange(end + 7, end + 11) + s.subrange(end + 11, end + 13)
        + s.subrange(end + 13, end + 17) + s.subrange(end + 17, end + 19));
}

proof fn columns_stand(s: Seq<u8>, at: int, n: nat)
    requires
        0 <= at <= s.len(),
    ensures
        columns_from(s, at, n) matches Some(columns) ==> columns.len() == n && at
            + written_columns(columns).len() <= s.len() && s.subrange(
            at,
            at + written_columns(columns).len(),
        ) == written_columns(columns),
    decreases n,
{
    if n == 0 {
        assert(s.subrange(at, at) =~= Seq::empty());
    } else {
        zero_stands(s, at);
        if let Some(end) = zero_at(s, at) {
            if end + 19 <= s.len() {
                columns_stand(s, end + 19, (n - 1) as nat);
                column_stands(s, at, end);
                if let Some(rest) = columns_from(s, end + 19, (n - 1) as nat) {
                    let columns = columns_from(s, at, n)->Some_0;
                    assert(columns.drop_first() =~= rest);
                    assert(columns[0] == column_at(s, at, end));
                    let w = written_columns(columns);
                    assert(w == written_column(columns[0]) + written_columns(rest));
                    assert(s.subrange(at, at + w.len()) =~= w);
                }
            }
        }
    }
}

/// Whatever is taken for a list of columns is one: the columns that come out are those that the
/// payload begins with. All else is refused as malformed.
pub proof fn columns_are_what_was_sent(payload: Seq<u8>)
    ensures
        match columns_of(payload) {
            Ok(columns) => payload.len() >= written_description(columns).len() && payload.take(
                written_description(columns).len() as int,
            ) == written_description(columns),
            Err(e) => e == ErrorView::Protocol("malformed "@ + "RowDescription"@),
        },
{
    if payload.len() >= 2 {
        numbers_stand(payload, 0);
        columns_stand(payload, 2, read16(payload, 0) as nat);
        two_bytes(read16(payload, 0) as nat);
        if let Ok(columns) = columns_of(payload) {
            let w = written_columns(columns);
            assert(payload.take(2 + w.len() as int) =~= payload.subrange(0, 2) + payload.subrange(
                2,
                2 + w.len() as int,
            ));
        }
    }
}

proof fn fields_read_on(prefix: Seq<u8>, fields: Seq<(u8, Seq<u8>)>, rest: Seq<u8>)
    requires
        fields_fit(fields),
    ensures
        fields_from(prefix + written_fields(fields) + rest, prefix.len() as int) == Some(fields),
    decreases fields.len(),
{
    let s = prefix + written_fields(fields) + rest;
    let at = prefix.len() as int;
    if fields.len() == 0 {
        assert(s[at] == 0);
        assert(fields =~= Seq::empty());
    } else {
        let (code, value) = fields[0];
        let tail = fields.drop_first();
        assert forall|i: int| 0 <= i < tail.len() implies (#[trigger] tail[i]).0 != 0 && no_zero(
            tail[i].1,
        ) by {
            assert(fields[i + 1] == tail[i]);
        }
        let before = prefix + seq![code];
        let next = before + value + seq![0u8];
        assert(s =~= before + value + seq![0u8] + (written_fields(tail) + rest));
        assert(s =~= next + written_fields(tail) + rest);
        assert(s[at] == code);
        zero_is_found(before, value, written_fields(tail) + rest);
        assert(s.subrange(at + 1, at + 1 + value.len()) =~= value);
        fields_read_on(next, tail, rest);
        assert(seq![(code, value)] + tail =~= fields);
    }
}

proof fn fields_stand(s: Seq<u8>, at: int)
    requires
        0 <= at <= s.len(),
    ensures
        fields_from(s, at) matches Some(fields) ==> at + written_fields(fields).len() <= s.len()
            && s.subrange(at, at + written_fields(fields).len()) == written_fields(fields)
            && fields_fit(fields),
    decreases s.len() - at,
{
    if at < s.len() {
        if s[at] == 0 {
            assert(s.subrange(at, at + 1) =~= seq![0u8]);
        } else {
            zero_stands(s, at + 1);
            if let Some(end) = zero_at(s, at + 1) {
                fields_stand(s, end + 1);
                if let Some(rest) = fields_from(s, end + 1) {
                    let fields = fields_from(s, at)->Some_0;
                    let value = s.subrange(at + 1, end);
                    assert(fields =~= seq![(s[at], value)] + rest);
                    assert(fields.drop_first() =~= rest);
                    assert(fields[0] == (s[at], value));
                    assert forall|i: int| 0 <= i < fields.len() implies (#[trigger] fields[i]).0 != 0
                        && no_zero(fields[i].1) by {
                        if i > 0 {
                            assert(fields[i] == rest[i - 1]);
                        }
                    }
                    let w = written_fields(fields);
                    assert(w == seq![s[at]] + value + seq![0u8] + written_fields(rest));
                    assert(s.subrange(at, at + w.len()) =~= w);
                }
            }
        }
    }
}

/// An error is read as the server reported it: every field, in order.
pub proof fn error_reads_back(fields: Seq<(u8, Seq<u8>)>, rest: Seq<u8>)
    requires
        fields_fit(fields),
    ensures
        error_of(written_fields(fields) + rest) == Ok::<Seq<(u8, Seq<u8>)>, ErrorView>(fields),
{
    let s = written_fields(fields) + rest;
    assert(s =~= Seq::empty() + written_fields(fields) + rest);
    fields_read_on(Seq::empty(), fields, rest);
}

/// Whatever is taken for an error is one: the fields that come out are those that the payload begins
/// with. All else is refused as malformed.
pub proof fn error_is_what_was_sent(payload: Seq<u8>)
    ensures
        match error_of(payload) {
            Ok(fields) => payload.len() >= written_fields(fields).len() && payload.take(
                written_fields(fields).len() as int,
            ) == written_fields(fields),
            Err(e) => e == ErrorView::Protocol("malformed "@ + "ErrorResponse"@),
        },
{
    fields_stand(payload, 0);
    if let Ok(fields) = error_of(payload) {
        let n = written_fields(fields).len() as int;
        assert(payload.take(n) =~= payload.subrange(0, n));
    }
}

/// The tag of a command is read up to its zero byte.
pub proof fn tag_reads_back(tag: Seq<u8>, rest: Seq<u8>, payload: Seq<u8>)
    requires
        no_zero(tag),
    ensures
        complete_of(tag + seq![0u8] + rest) == Ok::<Seq<u8>, ErrorView>(tag),
        match complete_of(payload) {
            Ok(read) => no_zero(read) && read.len() < payload.len() && payload.take(
                read.len() as int + 1,
            ) == read + seq![0u8],
            Err(e) => no_zero(payload) && e == ErrorView::Protocol(
                "malformed "@ + "CommandComplete"@,
            ),
        },
{
    zero_is_found(Seq::empty(), tag, rest);
    let s = tag + seq![0u8] + rest;
    assert(s =~= Seq::empty() + tag + seq![0u8] + rest);
    assert(s.subrange(0, tag.len() as int) =~= tag);
    zero_stands(payload, 0);
    if let Some(end) = zero_at(payload, 0) {
        assert(payload.take(end + 1) =~= payload.subrange(0, end) + seq![0u8]);
    }
}

/// ReadyForQuery brings the transaction status: I outside of a transaction, T inside of one, E
/// inside of one that has failed. Any other byte counts as I, any other length is refused.
pub proof fn status_reads_back(payload: Seq<u8>)
    ensures
        payload == seq![73u8] ==> ready_of(payload) == Ok::<TransactionStatus, ErrorView>(
            TransactionStatus::Idle,
        ),
        payload == seq![84u8] ==> ready_of(payload) == Ok::<TransactionStatus, ErrorView>(
            TransactionStatus::InTransaction,
        ),
        payload == seq![69u8] ==> ready_of(payload) == Ok::<TransactionStatus, ErrorView>(
            TransactionStatus::Failed,
        ),
        payload.len() == 1 && payload[0] != 84 && payload[0] != 69 ==> ready_of(payload)
            == Ok::<TransactionStatus, ErrorView>(TransactionStatus::Idle),
        payload.len() != 1 ==> ready_of(payload) == Err::<TransactionStatus, ErrorView>(
            ErrorView::Protocol("malformed "@ + "ReadyForQuery"@),
        ),
{
}

/// A message without a payload is one only if it has none.
pub proof fn bare_message_is_bare(payload: Seq<u8>, name: Seq<char>)
    ensures
        payload.len() == 0 ==> empty_of(payload, name) is Ok,
        payload.len() > 0 ==> empty_of(payload, name) == Err::<(), ErrorView>(
            ErrorView::Protocol("malformed "@ + name),
        ),
{
}

/// The server sends notifications (A), notices (N) and parameter changes (S) of its own accord, and
/// nothing else.
pub proof fn own_accord(kind: u8)
    ensures
        asynchronous(kind) <==> kind == 65 || kind == 78 || kind == 83,
        !asynchronous(kind) ==> forall|payload: Seq<u8>| async_of(kind, payload) is None,
{
}

/// Notifications, notices and parameter changes are read as they were sent.
pub proof fn own_accord_reads_back(
    process_id: u32,
    first: Seq<u8>,
    second: Seq<u8>,
    fields: Seq<(u8, Seq<u8>)>,
    rest: Seq<u8>,
)
    requires
        no_zero(first),
        no_zero(second),
        fields_fit(fields),
    ensures
        async_of(
            65,
            bytes_of(process_id as nat, 4) + first + seq![0u8] + second + seq![0u8] + rest,
        ) == Some(
            AsyncMessageView::Notification { process_id, channel: first, payload: second },
        ),
        async_of(83, first + seq![0u8] + second + seq![0u8] + rest) == Some(
            AsyncMessageView::ParameterChanged { name: first, value: second },
        ),
        async_of(78, written_fields(fields) + rest) == Some(AsyncMessageView::Notice(fields)),
{
    error_reads_back(fields, rest);
    let id = bytes_of(process_id as nat, 4);
    four_bytes(process_id as nat);
    texts_read_back(id, first, second, rest);
    texts_read_back(Seq::empty(), first, second, rest);
    let s = id + first + seq![0u8] + second + seq![0u8] + rest;
    numbers_read_back(Seq::empty(), 0, process_id, first + seq![0u8] + second + seq![0u8] + rest);
    assert(s =~= Seq::empty() + id + (first + seq![0u8] + second + seq![0u8] + rest));
    assert(first + seq![0u8] + second + seq![0u8] + rest =~= Seq::empty() + first + seq![0u8]
        + second + seq![0u8] + rest);
}

proof fn texts_read_back(prefix: Seq<u8>, first: Seq<u8>, second: Seq<u8>, rest: Seq<u8>)
    requires
        no_zero(first),
        no_zero(second),
    ensures
        texts_at(prefix + first + seq![0u8] + second + seq![0u8] + rest, prefix.len() as int)
            == Some((first, second)),
{
    let s = prefix + first + seq![0u8] + second + seq![0u8] + rest;
    let next = prefix + first + seq![0u8];
    assert(s =~= prefix + first + seq![0u8] + (second + seq![0u8] + rest));
    zero_is_found(prefix, first, second + seq![0u8] + rest);
    assert(s =~= next + second + seq![0u8] + rest);
    zero_is_found(next, second, rest);
    assert(s.subrange(prefix.len() as int, prefix.len() as int + first.len()) =~= first);
    assert(s.subrange(next.len() as int, next.len() as int + second.len()) =~= second);
}

/// The header of a message gives its type, and the length of its payload from a length field that
/// counts itself in. A length below that is refused.
pub proof fn header_reads_back(kind: u8, length: u32, rest: Seq<u8>)
    ensures
        length >= 4 ==> header_of(seq![kind] + bytes_of(length as nat, 4) + rest) == Ok::<
            (u8, nat),
            ErrorView,
        >((kind, (length - 4) as nat)),
        length < 4 ==> header_of(seq![kind] + bytes_of(length as nat, 4) + rest) == Err::<
            (u8, nat),
            ErrorView,
        >(ErrorView::Protocol("malformed "@ + "message header"@)),
{
    four_bytes(length as nat);
    numbers_read_back(seq![kind], 0, length, rest);
}

/// [`parse_row`] gives the values that were sent, each by its bytes, NULL as NULL.
pub proof fn parse_row_reads(
    payload: &[u8],
    values: Seq<Option<Seq<u8>>>,
    r: Result<DataRow, Error>,
)
    requires
        call_ensures(parse_row, (payload,), r),
        row_fits(values),
        payload@ == written_row(values),
    ensures
        r matches Ok(row) && row@ == values && row.values@.len() == values.len() && forall|i: int|
            0 <= i < values.len() ==> match #[trigger] values[i] {
                Some(b) => row.values@[i] matches Some(c) && c@ == b,
                None => row.values@[i] is None,
            },
{
    row_reads_back(values, Seq::empty());
    assert(written_row(values) + Seq::<u8>::empty() =~= written_row(values));
    if let Ok(row) = r {
        assert forall|i: int| 0 <= i < values.len() implies match #[trigger] values[i] {
            Some(b) => row.values@[i] matches Some(c) && c@ == b,
            None => row.values@[i] is None,
        } by {
            assert(row@[i] == values[i]);
        }
    }
}

/// [`parse_columns`] gives the columns that were described, each by its name and its numbers.
pub proof fn parse_columns_reads(
    payload: &[u8],
    columns: Seq<ColumnView>,
    r: Result<RowDescription, Error>,
)
    requires
        call_ensures(parse_columns, (payload,), r),
        columns_fit(columns),
        payload@ == written_description(columns),
    ensures
        r matches Ok(d) && d@ == columns && d.columns@.len() == columns.len() && forall|i: int|
            0 <= i < columns.len() ==> {
                let c = #[trigger] columns[i];
                let e = d.columns@[i];
                &&& e.name@ == c.name
                &&& e.table_oid == c.table_oid
                &&& e.attribute == c.attribute
                &&& e.type_oid == c.type_oid
                &&& e.type_length == c.type_length
                &&& e.type_modifier == c.type_modifier
                &&& e.format == c.format
            },
{
    columns_read_back(columns, Seq::empty());
    assert(written_description(columns) + Seq::<u8>::empty() =~= written_description(columns));
    if let Ok(d) = r {
        assert forall|i: int| 0 <= i < columns.len() implies d.columns@[i]@ == #[trigger] columns[i] by {
            assert(d@[i] == columns[i]);
        }
    }
}

/// [`parse_error`] gives the fields that were reported, each by its code and its bytes.
pub proof fn parse_error_reads(
    payload: &[u8],
    fields: Seq<(u8, Seq<u8>)>,
    r: Result<ServerError, Error>,
)
    requires
        call_ensures(parse_error, (payload,), r),
        fields_fit(fields),
        payload@ == written_fields(fields),
    ensures
        r matches Ok(e) && e@ == fields && e.fields@.len() == fields.len() && forall|i: int|
            0 <= i < fields.len() ==> e.fields@[i].0 == (#[trigger] fields[i]).0
                && e.fields@[i].1@ == fields[i].1,
{
    error_reads_back(fields, Seq::empty());
    assert(written_fields(fields) + Seq::<u8>::empty() =~= written_fields(fields));
    if let Ok(e) = r {
        assert forall|i: int| 0 <= i < fields.len() implies e.fields@[i].0 == (
        #[trigger] fields[i]).0 && e.fields@[i].1@ == fields[i].1 by {
            assert(e@[i] == fields[i]);
        }
    }
}

/// [`parse_complete`], [`parse_ready`], [`parse_empty`] and [`is_async_type`] say of a payload or a
/// type what was sent.
pub proof fn short_messages_read(
    payload: &[u8],
    tag: Seq<u8>,
    name: &str,
    kind: u8,
    complete: Result<CommandComplete, Error>,
    ready: Result<TransactionStatus, Error>,
    empty: Result<(), Error>,
    own: bool,
)
    requires
        call_ensures(parse_complete, (payload,), complete),
        call_ensures(parse_ready, (payload,), ready),
        call_ensures(parse_empty, (payload, name), empty),
        call_ensures(is_async_type, (kind,), own),
        no_zero(tag),
    ensures
        payload@ == tag + seq![0u8] ==> (complete matches Ok(c) && c.tag@ == tag),
        payload@ == seq![73u8] ==> ready == Ok::<TransactionStatus, Error>(TransactionStatus::Idle),
        payload@ == seq![84u8] ==> ready == Ok::<TransactionStatus, Error>(
            TransactionStatus::InTransaction,
        ),
        payload@ == seq![69u8] ==> ready == Ok::<TransactionStatus, Error>(
            TransactionStatus::Failed,
        ),
        empty is Ok <==> payload@.len() == 0,
        own <==> kind == 65 || kind == 78 || kind == 83,
{
    tag_reads_back(tag, Seq::empty(), payload@);
    assert(tag + seq![0u8] + Seq::<u8>::empty() =~= tag + seq![0u8]);
    status_reads_back(payload@);
}

/// [`parse_async`] gives the notification, the parameter change or the notice that was sent.
pub proof fn parse_async_reads(
    payload: &[u8],
    process_id: u32,
    first: Seq<u8>,
    second: Seq<u8>,
    fields: Seq<(u8, Seq<u8>)>,
    notified: Option<AsyncMessage>,
    changed: Option<AsyncMessage>,
    noticed: Option<AsyncMessage>,
)
    requires
        call_ensures(parse_async, (65u8, payload), notified),
        call_ensures(parse_async, (83u8, payload), changed),
        call_ensures(parse_async, (78u8, payload), noticed),
        no_zero(first),
        no_zero(second),
        fields_fit(fields),
    ensures
        payload@ == bytes_of(process_id as nat, 4) + first + seq![0u8] + second + seq![0u8] ==> (
        notified matches Some(AsyncMessage::Notification { process_id: id, channel, payload: text })
            && id == process_id && channel@ == first && text@ == second),
        payload@ == first + seq![0u8] + second + seq![0u8] ==> (changed matches Some(
            AsyncMessage::ParameterChanged { name, value },
        ) && name@ == first && value@ == second),
        payload@ == written_fields(fields) ==> (noticed matches Some(AsyncMessage::Notice(n)) && n@
            == fields),
{
    own_accord_reads_back(process_id, first, second, fields, Seq::empty());
    assert(payload@ + Seq::<u8>::empty() =~= payload@);
}

/// [`parse_header`] gives the type of a message and the length of its payload.
pub proof fn parse_header_reads(
    header: &[u8; 5],
    kind: u8,
    length: u32,
    r: Result<(u8, usize), Error>,
)
    requires
        call_ensures(parse_header, (header,), r),
        length >= 4,
        header@ == seq![kind] + bytes_of(length as nat, 4),
    ensures
        r matches Ok(h) && h.0 == kind && h.1 == length - 4,
{
    header_reads_back(kind, length, Seq::empty());
    assert(header@ + Seq::<u8>::empty() =~= header@);
}

/// Whatever is taken for a notification, a notice or a parameter change is one: what comes out is what
/// the payload begins with.
pub proof fn own_accord_is_what_was_sent(kind: u8, payload: Seq<u8>)
    ensures
        async_of(kind, payload) matches Some(m) ==> match m {
            AsyncMessageView::Notification { process_id, channel, payload: text } => kind == 65 && {
                let sent = bytes_of(process_id as nat, 4) + channel + seq![0u8] + text + seq![0u8];
                payload.len() >= sent.len() && payload.take(sent.len() as int) == sent
            },
            AsyncMessageView::ParameterChanged { name, value } => kind == 83 && {
                let sent = name + seq![0u8] + value + seq![0u8];
                payload.len() >= sent.len() && payload.take(sent.len() as int) == sent
            },
            AsyncMessageView::Notice(fields) => kind == 78 && payload.len() >= written_fields(
                fields,
            ).len() && payload.take(written_fields(fields).len() as int) == written_fields(fields),
        },
{
    if kind == 65 && payload.len() >= 4 {
        numbers_stand(payload, 0);
        four_bytes(read32(payload, 0) as nat);
        texts_stand(payload, 4);
        if let Some((channel, text)) = texts_at(payload, 4) {
            let texts = channel + seq![0u8] + text + seq![0u8];
            let id = payload.subrange(0, 4);
            assert(payload.take(4 + texts.len() as int) =~= id + payload.subrange(
                4,
                4 + texts.len() as int,
            ));
            assert(id + texts =~= id + channel + seq![0u8] + text + seq![0u8]);
        }
    } else if kind == 83 {
        texts_stand(payload, 0);
        if let Some((name, value)) = texts_at(payload, 0) {
            let texts = name + seq![0u8] + value + seq![0u8];
            assert(payload.take(texts.len() as int) =~= payload.subrange(0, texts.len() as int));
        }
    } else if kind == 78 {
        error_is_what_was_sent(payload);
    }
}

proof fn texts_stand(s: Seq<u8>, at: int)
    requires
        0 <= at,
    ensures
        texts_at(s, at) matches Some((first, second)) ==> ({
            let texts = first + seq![0u8] + second + seq![0u8];
            at + texts.len() <= s.len() && s.subrange(at, at + texts.len()) == texts
        }),
{
    zero_stands(s, at);
    if let Some(end) = zero_at(s, at) {
        zero_stands(s, end + 1);
        if let Some(last) = zero_at(s, end + 1) {
            let texts = s.subrange(at, end) + seq![0u8] + s.subrange(end + 1, last) + seq![0u8];
            assert(s.subrange(at, last + 1) =~= texts);
        }
    }
}

} // verus!
