//! Messages from the server.

use vstd::prelude::*;
use vstd::string::*;

use crate::error::{outcome, Error, ErrorView, ServerError};
use crate::protocol::wire::{frame, get16, get32, read16, read32};
use crate::types::{AsyncMessage, AsyncMessageView, TransactionStatus};

verus! {

pub const PARSE_COMPLETE: u8 = 49;

pub const BIND_COMPLETE: u8 = 50;

pub const CLOSE_COMPLETE: u8 = 51;

pub const NOTIFICATION_RESPONSE: u8 = 65;

pub const COMMAND_COMPLETE: u8 = 67;

pub const DATA_ROW: u8 = 68;

pub const ERROR_RESPONSE: u8 = 69;

pub const EMPTY_QUERY_RESPONSE: u8 = 73;

pub const NOTICE_RESPONSE: u8 = 78;

pub const PARAMETER_STATUS: u8 = 83;

pub const ROW_DESCRIPTION: u8 = 84;

pub const READY_FOR_QUERY: u8 = 90;

pub const NO_DATA: u8 = 110;

pub const PORTAL_SUSPENDED: u8 = 115;

/// A message without its length field.
#[derive(Debug)]
pub struct Message {
    pub type_byte: u8,
    pub payload: Vec<u8>,
}

/// The server may send a message of this type at any time.
pub open spec fn asynchronous(type_byte: u8) -> bool {
    type_byte == NOTICE_RESPONSE || type_byte == NOTIFICATION_RESPONSE || type_byte
        == PARAMETER_STATUS
}

/// Whether the server may send a message of this type at any time.
pub fn is_async_type(type_byte: u8) -> (r: bool)
    ensures
        r == asynchronous(type_byte),
{
    type_byte == NOTICE_RESPONSE || type_byte == NOTIFICATION_RESPONSE || type_byte
        == PARAMETER_STATUS
}

/// The error for a message of the named kind that cannot be decoded.
pub open spec fn malformed(name: Seq<char>) -> ErrorView {
    ErrorView::Protocol("malformed "@ + name)
}

fn malformed_error(name: &str) -> (e: Error)
    ensures
        e@ == malformed(name@),
{
    Error::Protocol(String::from_str("malformed ").concat(name))
}

/// The type and the payload length that the first five bytes of a message give.
pub open spec fn header_of(header: Seq<u8>) -> Result<(u8, nat), ErrorView> {
    if read32(header, 1) < 4 {
        Err(malformed("message header"@))
    } else {
        Ok((header[0], (read32(header, 1) - 4) as nat))
    }
}

/// Reads the type and the payload length from the first five bytes of a message.
pub fn parse_header(header: &[u8; 5]) -> (r: Result<(u8, usize), Error>)
    ensures
        match r {
            Ok((kind, length)) => header_of(header@) == Ok::<(u8, nat), ErrorView>(
                (kind, length as nat),
            ),
            Err(e) => header_of(header@) == Err::<(u8, nat), ErrorView>(e@),
        },
{
    let length: u32 = get32(header, 1);
    if length < 4 {
        Err(malformed_error("message header"))
    } else {
        Ok((header[0], (length - 4) as usize))
    }
}

/// A message reads back as it was framed: the header gives its type and the length of its body,
/// for every body whose length fits the length field.
#[verifier::spinoff_prover]
#[verifier::rlimit(40)]
pub proof fn header_of_frame(kind: u8, body: Seq<u8>, rest: Seq<u8>)
    requires
        body.len() + 4 <= u32::MAX,
    ensures
        header_of(frame(kind, body) + rest) == Ok::<(u8, nat), ErrorView>((kind, body.len())),
        (frame(kind, body) + rest).subrange(5, 5 + body.len() as int) == body,
        (frame(kind, body) + rest).skip(5 + body.len() as int) == rest,
{
    reveal(crate::protocol::wire::low32);
    let length = (body.len() + 4) as u32;
    crate::protocol::peer::numbers_are_read(0, length);
    let whole = frame(kind, body) + rest;
    assert(whole =~= seq![kind] + crate::protocol::wire::be32(length) + (body + rest));
    crate::protocol::wire::read_of_be(seq![kind], 0, length, body + rest);
    assert(whole.subrange(5, 5 + body.len() as int) =~= body);
    assert(whole.skip(5 + body.len() as int) =~= rest);
}

/// The transaction status that a byte stands for.
pub open spec fn status_of(byte: u8) -> Option<TransactionStatus> {
    if byte == 73 {
        Some(TransactionStatus::Idle)
    } else if byte == 84 {
        Some(TransactionStatus::InTransaction)
    } else if byte == 69 {
        Some(TransactionStatus::Failed)
    } else {
        None
    }
}

/// The status in a ReadyForQuery; idle where the byte is unknown.
pub open spec fn ready_of(payload: Seq<u8>) -> Result<TransactionStatus, ErrorView> {
    if payload.len() == 1 {
        Ok(
            match status_of(payload[0]) {
                Some(status) => status,
                None => TransactionStatus::Idle,
            },
        )
    } else {
        Err(malformed("ReadyForQuery"@))
    }
}

/// Reads the status in a ReadyForQuery; idle where the byte is unknown.
pub fn parse_ready(payload: &[u8]) -> (r: Result<TransactionStatus, Error>)
    ensures
        outcome(r) == ready_of(payload@),
{
    if payload.len() != 1 {
        return Err(malformed_error("ReadyForQuery"));
    }
    if payload[0] == 84 {
        Ok(TransactionStatus::InTransaction)
    } else if payload[0] == 69 {
        Ok(TransactionStatus::Failed)
    } else {
        Ok(TransactionStatus::Idle)
    }
}

/// A message that has no payload.
pub open spec fn empty_of(payload: Seq<u8>, name: Seq<char>) -> Result<(), ErrorView> {
    if payload.len() == 0 {
        Ok(())
    } else {
        Err(malformed(name))
    }
}

/// Checks a message that has no payload.
pub fn parse_empty(payload: &[u8], name: &str) -> (r: Result<(), Error>)
    ensures
        outcome(r) == empty_of(payload@, name@),
{
    if payload.len() == 0 {
        Ok(())
    } else {
        Err(malformed_error(name))
    }
}

/// The place of the first zero byte at or after `from`.
pub open spec fn zero_at(s: Seq<u8>, from: int) -> Option<int>
    decreases s.len() - from,
{
    if from < 0 || from >= s.len() {
        None
    } else if s[from] == 0 {
        Some(from)
    } else {
        zero_at(s, from + 1)
    }
}

/// A zero byte that is found lies inside the string.
pub proof fn zero_at_bounds(s: Seq<u8>, from: int)
    ensures
        zero_at(s, from) matches Some(end) ==> from <= end < s.len(),
    decreases s.len() - from,
{
    if 0 <= from < s.len() && s[from] != 0 {
        zero_at_bounds(s, from + 1);
    }
}

fn find_zero(s: &[u8], from: usize) -> (r: Option<usize>)
    requires
        from <= s@.len(),
    ensures
        match r {
            Some(end) => zero_at(s@, from as int) == Some(end as int) && from <= end < s@.len()
                <= usize::MAX,
            None => zero_at(s@, from as int) is None,
        },
{
    let mut i: usize = from;
    while i < s.len()
        invariant
            from <= i <= s@.len(),
            zero_at(s@, from as int) == zero_at(s@, i as int),
        decreases s@.len() - i,
    {
        if s[i] == 0 {
            return Some(i);
        }
        i = i + 1;
    }
    None
}

fn copy_range(s: &[u8], from: usize, to: usize) -> (r: Vec<u8>)
    requires
        from <= to <= s@.len(),
    ensures
        r@ == s@.subrange(from as int, to as int),
{
    let mut out: Vec<u8> = Vec::new();
    let mut i: usize = from;
    while i < to
        invariant
            from <= i <= to <= s@.len(),
            out@ == s@.subrange(from as int, i as int),
        decreases to - i,
    {
        out.push(s[i]);
        i = i + 1;
        assert(s@.subrange(from as int, i as int) =~= s@.subrange(from as int, i - 1).push(
            s@[i - 1],
        ));
    }
    out
}

/// Items in front of a list that may not be there.
pub open spec fn prepend<T>(items: Seq<T>, rest: Option<Seq<T>>) -> Option<Seq<T>> {
    match rest {
        Some(r) => Some(items + r),
        None => None,
    }
}

#[verifier::spinoff_prover]
proof fn prepend_one<T>(items: Seq<T>, item: T, rest: Option<Seq<T>>)
    ensures
        prepend(items, prepend(seq![item], rest)) == prepend(items.push(item), rest),
        prepend(Seq::<T>::empty(), rest) == rest,
{
    if let Some(r) = rest {
        assert(items + (seq![item] + r) =~= items.push(item) + r);
        assert(Seq::<T>::empty() + r =~= r);
    }
}

/// The fields of an error from `at` on: each a code and a zero-terminated value, a zero at the end.
pub open spec fn fields_from(s: Seq<u8>, at: int) -> Option<Seq<(u8, Seq<u8>)>>
    decreases s.len() - at,
{
    if at < 0 || at >= s.len() {
        None
    } else if s[at] == 0 {
        Some(Seq::empty())
    } else {
        match zero_at(s, at + 1) {
            Some(end) => {
                proof {
                    zero_at_bounds(s, at + 1);
                }
                prepend(seq![(s[at], s.subrange(at + 1, end))], fields_from(s, end + 1))
            },
            None => None,
        }
    }
}

/// The error that an ErrorResponse carries.
pub open spec fn error_of(payload: Seq<u8>) -> Result<Seq<(u8, Seq<u8>)>, ErrorView> {
    match fields_from(payload, 0) {
        Some(fields) => Ok(fields),
        None => Err(malformed("ErrorResponse"@)),
    }
}

/// Reads the error that an ErrorResponse carries.
pub fn parse_error(payload: &[u8]) -> (r: Result<ServerError, Error>)
    ensures
        match r {
            Ok(error) => error_of(payload@) == Ok::<Seq<(u8, Seq<u8>)>, ErrorView>(error@),
            Err(e) => error_of(payload@) == Err::<Seq<(u8, Seq<u8>)>, ErrorView>(e@),
        },
{
    let mut error = ServerError { fields: Vec::new() };
    let mut at: usize = 0;
    proof {
        assert(error@ =~= Seq::empty());
        prepend_one(error@, (0u8, Seq::<u8>::empty()), fields_from(payload@, 0));
    }
    while at < payload.len() && payload[at] != 0
        invariant
            at <= payload@.len(),
            fields_from(payload@, 0) == prepend(error@, fields_from(payload@, at as int)),
        decreases payload@.len() - at,
    {
        let end: usize = match find_zero(payload, at + 1) {
            Some(end) => end,
            None => return Err(malformed_error("ErrorResponse")),
        };
        let value = copy_range(payload, at + 1, end);
        let ghost before = error@;
        let ghost item = (payload@[at as int], value@);
        proof {
            prepend_one(before, item, fields_from(payload@, end + 1));
        }
        error.fields.push((payload[at], value));
        assert(error@ =~= before.push(item));
        at = end + 1;
    }
    if at < payload.len() {
        assert(error@ + Seq::empty() =~= error@);
        Ok(error)
    } else {
        Err(malformed_error("ErrorResponse"))
    }
}

/// Two zero-terminated texts from `at` on.
pub open spec fn texts_at(s: Seq<u8>, at: int) -> Option<(Seq<u8>, Seq<u8>)> {
    match zero_at(s, at) {
        Some(end) => match zero_at(s, end + 1) {
            Some(last) => Some((s.subrange(at, end), s.subrange(end + 1, last))),
            None => None,
        },
        None => None,
    }
}

fn read_texts(s: &[u8], at: usize) -> (r: Option<(Vec<u8>, Vec<u8>)>)
    requires
        at <= s@.len(),
    ensures
        match r {
            Some((a, b)) => texts_at(s@, at as int) == Some((a@, b@)),
            None => texts_at(s@, at as int) is None,
        },
{
    match find_zero(s, at) {
        Some(end) => match find_zero(s, end + 1) {
            Some(last) => Some((copy_range(s, at, end), copy_range(s, end + 1, last))),
            None => None,
        },
        None => None,
    }
}

/// The message that the server sends of its own accord; none where the type is another one or the
/// payload cannot be decoded.
pub open spec fn async_of(type_byte: u8, payload: Seq<u8>) -> Option<AsyncMessageView> {
    if type_byte == NOTIFICATION_RESPONSE {
        if payload.len() < 4 {
            None
        } else {
            match texts_at(payload, 4) {
                Some((channel, text)) => Some(
                    AsyncMessageView::Notification {
                        process_id: read32(payload, 0),
                        channel,
                        payload: text,
                    },
                ),
                None => None,
            }
        }
    } else if type_byte == NOTICE_RESPONSE {
        match fields_from(payload, 0) {
            Some(fields) => Some(AsyncMessageView::Notice(fields)),
            None => None,
        }
    } else if type_byte == PARAMETER_STATUS {
        match texts_at(payload, 0) {
            Some((name, value)) => Some(AsyncMessageView::ParameterChanged { name, value }),
            None => None,
        }
    } else {
        None
    }
}

/// Reads a message that the server sends of its own accord.
pub fn parse_async(type_byte: u8, payload: &[u8]) -> (r: Option<AsyncMessage>)
    ensures
        match r {
            Some(m) => async_of(type_byte, payload@) == Some(m@),
            None => async_of(type_byte, payload@) is None,
        },
{
    if type_byte == NOTIFICATION_RESPONSE {
        if payload.len() < 4 {
            return None;
        }
        match read_texts(payload, 4) {
            Some((channel, text)) => Some(
                AsyncMessage::Notification {
                    process_id: get32(payload, 0),
                    channel,
                    payload: text,
                },
            ),
            None => None,
        }
    } else if type_byte == NOTICE_RESPONSE {
        match parse_error(payload) {
            Ok(notice) => Some(AsyncMessage::Notice(notice)),
            Err(_) => None,
        }
    } else if type_byte == PARAMETER_STATUS {
        match read_texts(payload, 0) {
            Some((name, value)) => Some(AsyncMessage::ParameterChanged { name, value }),
            None => None,
        }
    } else {
        None
    }
}

/// The tag that a CommandComplete carries.
pub open spec fn complete_of(payload: Seq<u8>) -> Result<Seq<u8>, ErrorView> {
    match zero_at(payload, 0) {
        Some(end) => Ok(payload.subrange(0, end)),
        None => Err(malformed("CommandComplete"@)),
    }
}

/// A command has completed.
#[derive(Debug)]
pub struct CommandComplete {
    /// What the server says was done.
    pub tag: Vec<u8>,
}

/// Reads the tag that a CommandComplete carries.
pub fn parse_complete(payload: &[u8]) -> (r: Result<CommandComplete, Error>)
    ensures
        match r {
            Ok(c) => complete_of(payload@) == Ok::<Seq<u8>, ErrorView>(c.tag@),
            Err(e) => complete_of(payload@) == Err::<Seq<u8>, ErrorView>(e@),
        },
{
    match find_zero(payload, 0) {
        Some(end) => Ok(CommandComplete { tag: copy_range(payload, 0, end) }),
        None => Err(malformed_error("CommandComplete")),
    }
}

/// The description of one column.
#[derive(Debug)]
pub struct Column {
    pub name: Vec<u8>,
    pub table_oid: u32,
    pub attribute: u16,
    pub type_oid: u32,
    pub type_length: u16,
    pub type_modifier: u32,
    /// 0 for text, 1 for binary.
    pub format: u16,
}

/// A column description with its name as a sequence.
pub struct ColumnView {
    pub name: Seq<u8>,
    pub table_oid: u32,
    pub attribute: u16,
    pub type_oid: u32,
    pub type_length: u16,
    pub type_modifier: u32,
    pub format: u16,
}

impl View for Column {
    type V = ColumnView;

    open spec fn view(&self) -> ColumnView {
        ColumnView {
            name: self.name@,
            table_oid: self.table_oid,
            attribute: self.attribute,
            type_oid: self.type_oid,
            type_length: self.type_length,
            type_modifier: self.type_modifier,
            format: self.format,
        }
    }
}

/// The columns of a result.
#[derive(Debug)]
pub struct RowDescription {
    pub columns: Vec<Column>,
}

impl View for RowDescription {
    type V = Seq<ColumnView>;

    open spec fn view(&self) -> Seq<ColumnView> {
        self.columns@.map_values(|c: Column| c@)
    }
}

/// The column whose name spans `at..end` and whose numbers follow its zero byte.
pub open spec fn column_at(s: Seq<u8>, at: int, end: int) -> ColumnView {
    ColumnView {
        name: s.subrange(at, end),
        table_oid: read32(s, end + 1),
        attribute: read16(s, end + 5),
        type_oid: read32(s, end + 7),
        type_length: read16(s, end + 11),
        type_modifier: read32(s, end + 13),
        format: read16(s, end + 17),
    }
}

/// `n` column descriptions from `at` on.
pub open spec fn columns_from(s: Seq<u8>, at: int, n: nat) -> Option<Seq<ColumnView>>
    decreases n,
{
    if n == 0 {
        Some(Seq::empty())
    } else {
        match zero_at(s, at) {
            Some(end) => if end + 19 <= s.len() {
                prepend(seq![column_at(s, at, end)], columns_from(s, end + 19, (n - 1) as nat))
            } else {
                None
            },
            None => None,
        }
    }
}

/// The columns that a RowDescription lists.
pub open spec fn columns_of(payload: Seq<u8>) -> Result<Seq<ColumnView>, ErrorView> {
    if payload.len() < 2 {
        Err(malformed("RowDescription"@))
    } else {
        match columns_from(payload, 2, read16(payload, 0) as nat) {
            Some(columns) => Ok(columns),
            None => Err(malformed("RowDescription"@)),
        }
    }
}

/// Reads the columns that a RowDescription lists.
pub fn parse_columns(payload: &[u8]) -> (r: Result<RowDescription, Error>)
    ensures
        match r {
            Ok(d) => columns_of(payload@) == Ok::<Seq<ColumnView>, ErrorView>(d@),
            Err(e) => columns_of(payload@) == Err::<Seq<ColumnView>, ErrorView>(e@),
        },
{
    if payload.len() < 2 {
        return Err(malformed_error("RowDescription"));
    }
    let count: u16 = get16(payload, 0);
    let mut left: u16 = count;
    let mut at: usize = 2;
    let mut out = RowDescription { columns: Vec::new() };
    proof {
        assert(out@ =~= Seq::empty());
        prepend_one(out@, column_at(payload@, 0, 0), columns_from(payload@, 2, count as nat));
    }
    while left > 0
        invariant
            payload@.len() >= 2,
            at <= payload@.len(),
            count == read16(payload@, 0),
            columns_from(payload@, 2, count as nat) == prepend(
                out@,
                columns_from(payload@, at as int, left as nat),
            ),
        decreases left,
    {
        let end: usize = match find_zero(payload, at) {
            Some(end) => end,
            None => return Err(malformed_error("RowDescription")),
        };
        if payload.len() - end < 19 {
            return Err(malformed_error("RowDescription"));
        }
        let column = Column {
            name: copy_range(payload, at, end),
            table_oid: get32(payload, end + 1),
            attribute: get16(payload, end + 5),
            type_oid: get32(payload, end + 7),
            type_length: get16(payload, end + 11),
            type_modifier: get32(payload, end + 13),
            format: get16(payload, end + 17),
        };
        let ghost before = out@;
        let ghost item = column@;
        proof {
            prepend_one(before, item, columns_from(payload@, end + 19, (left - 1) as nat));
        }
        out.columns.push(column);
        assert(out@ =~= before.push(item));
        at = end + 19;
        left = left - 1;
    }
    assert(out@ + Seq::empty() =~= out@);
    Ok(out)
}

/// The values of one row, `None` for NULL.
#[derive(Debug)]
pub struct DataRow {
    pub values: Vec<Option<Vec<u8>>>,
}

impl View for DataRow {
    type V = Seq<Option<Seq<u8>>>;

    open spec fn view(&self) -> Seq<Option<Seq<u8>>> {
        crate::params::values_of(self.values@)
    }
}

/// `n` values from `at` on: each a length and that many bytes, a length of -1 for NULL.
pub open spec fn row_from(s: Seq<u8>, at: int, n: nat) -> Option<Seq<Option<Seq<u8>>>>
    decreases n,
{
    if n == 0 {
        Some(Seq::empty())
    } else if at + 4 > s.len() {
        None
    } else if read32(s, at) == 0xffff_ffff {
        prepend(seq![None::<Seq<u8>>], row_from(s, at + 4, (n - 1) as nat))
    } else if at + 4 + read32(s, at) > s.len() {
        None
    } else {
        prepend(
            seq![Some(s.subrange(at + 4, at + 4 + read32(s, at)))],
            row_from(s, at + 4 + read32(s, at), (n - 1) as nat),
        )
    }
}

/// The values that a DataRow carries.
pub open spec fn row_of(payload: Seq<u8>) -> Result<Seq<Option<Seq<u8>>>, ErrorView> {
    if payload.len() < 2 {
        Err(malformed("DataRow"@))
    } else {
        match row_from(payload, 2, read16(payload, 0) as nat) {
            Some(values) => Ok(values),
            None => Err(malformed("DataRow"@)),
        }
    }
}

/// Reads the values that a DataRow carries.
pub fn parse_row(payload: &[u8]) -> (r: Result<DataRow, Error>)
    ensures
        match r {
            Ok(row) => row_of(payload@) == Ok::<Seq<Option<Seq<u8>>>, ErrorView>(row@),
            Err(e) => row_of(payload@) == Err::<Seq<Option<Seq<u8>>>, ErrorView>(e@),
        },
{
    if payload.len() < 2 {
        return Err(malformed_error("DataRow"));
    }
    let count: u16 = get16(payload, 0);
    let mut left: u16 = count;
    let mut at: usize = 2;
    let mut out = DataRow { values: Vec::new() };
    proof {
        assert(out@ =~= Seq::empty());
        prepend_one(out@, None, row_from(payload@, 2, count as nat));
    }
    while left > 0
        invariant
            payload@.len() >= 2,
            at <= payload@.len(),
            count == read16(payload@, 0),
            row_from(payload@, 2, count as nat) == prepend(
                out@,
                row_from(payload@, at as int, left as nat),
            ),
        decreases left,
    {
        if payload.len() - at < 4 {
            return Err(malformed_error("DataRow"));
        }
        let length: u32 = get32(payload, at);
        let ghost before = out@;
        if length == 0xffff_ffff {
            proof {
                prepend_one(before, None, row_from(payload@, at + 4, (left - 1) as nat));
            }
            out.values.push(None);
            assert(out@ =~= before.push(None));
            at = at + 4;
        } else {
            if payload.len() - at - 4 < length as usize {
                return Err(malformed_error("DataRow"));
            }
            let end: usize = at + 4 + length as usize;
            let value = copy_range(payload, at + 4, end);
            let ghost item = Some(value@);
            proof {
                prepend_one(before, item, row_from(payload@, end as int, (left - 1) as nat));
            }
            out.values.push(Some(value));
            assert(out@ =~= before.push(item));
            at = end;
        }
        left = left - 1;
    }
    assert(out@ + Seq::empty() =~= out@);
    Ok(out)
}

} // verus!
