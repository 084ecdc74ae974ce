//! The other end of the wire: how a server reads what a client sends.
//!
//! The reader here knows nothing of how the client builds its messages. What it reads back from
//! them is what the client has said.

use vstd::prelude::*;
use vstd::string::*;
use vstd::utf8::*;

use crate::error::Error;
use crate::params::ToParams;
use crate::protocol::frontend::{
    bind_frame, close_portal_frame, describe_portal_frame, execute_frame, flush_frame, oid_bytes,
    parse_frame, sync_frame, terminate_frame, text_bytes, value_bytes, values_bytes, write_bind,
    write_close_portal, write_describe_portal, write_execute, write_flush, write_parse, write_sync,
    write_terminate,
};
use crate::protocol::wire::{be16, be32, frame, low16, low32};

verus! {

/// The number that bytes hold, most significant byte first.
pub open spec fn number(bytes: Seq<u8>) -> nat
    decreases bytes.len(),
{
    if bytes.len() == 0 {
        0
    } else {
        number(bytes.drop_last()) * 256 + bytes.last() as nat
    }
}

/// How many bytes precede the first zero byte.
pub open spec fn nul_at(s: Seq<u8>) -> nat
    decreases s.len(),
{
    if s.len() == 0 || s[0] == 0 {
        0
    } else {
        1 + nul_at(s.drop_first())
    }
}

/// A zero-terminated text is in front.
pub open spec fn has_text(s: Seq<u8>) -> bool {
    nul_at(s) < s.len()
}

/// The zero-terminated text in front.
pub open spec fn text(s: Seq<u8>) -> Seq<char> {
    decode_utf8(s.take(nul_at(s) as int))
}

/// What follows the zero-terminated text in front.
pub open spec fn after_text(s: Seq<u8>) -> Seq<u8> {
    s.skip(nul_at(s) as int + 1)
}

/// A list of 16-bit numbers, which its length precedes.
pub open spec fn has_codes(s: Seq<u8>) -> bool {
    s.len() >= 2 && s.len() >= 2 + 2 * number(s.take(2))
}

/// The 16-bit numbers of the list in front.
pub open spec fn codes(s: Seq<u8>) -> Seq<nat> {
    Seq::new(number(s.take(2)), |i: int| number(s.subrange(2 + 2 * i, 4 + 2 * i)))
}

/// What follows the list in front.
pub open spec fn after_codes(s: Seq<u8>) -> Seq<u8> {
    s.skip(2 + 2 * number(s.take(2)) as int)
}

/// The `n` values in front, each with its length before it, -1 for NULL, and what follows them.
pub open spec fn read_values(s: Seq<u8>, n: nat) -> Option<(Seq<Option<Seq<u8>>>, Seq<u8>)>
    decreases n,
{
    if n == 0 {
        Some((Seq::empty(), s))
    } else if s.len() < 4 {
        None
    } else {
        let length = number(s.take(4)) as int;
        if length == 0xffff_ffff {
            match read_values(s.skip(4), (n - 1) as nat) {
                Some((values, rest)) => Some((seq![None::<Seq<u8>>] + values, rest)),
                None => None,
            }
        } else if s.len() < 4 + length {
            None
        } else {
            match read_values(s.skip(4 + length), (n - 1) as nat) {
                Some((values, rest)) => Some(
                    (seq![Some(s.subrange(4, 4 + length))] + values, rest),
                ),
                None => None,
            }
        }
    }
}

/// What a client asks of a server.
pub enum Request {
    /// Prepare `sql` as `name`, for parameters of these types.
    Parse { name: Seq<char>, sql: Seq<char>, oids: Seq<nat> },
    /// Bind these values to a statement as `portal`, in these formats, 1 for binary.
    Bind {
        portal: Seq<char>,
        statement: Seq<char>,
        formats: Seq<nat>,
        values: Seq<Option<Seq<u8>>>,
        results: Seq<nat>,
    },
    DescribePortal { portal: Seq<char> },
    ClosePortal { portal: Seq<char> },
    /// Run a portal for at most `max_rows` rows, 0 for all.
    Execute { portal: Seq<char>, max_rows: nat },
    Sync,
    Flush,
    Terminate,
}

/// Parse.
pub open spec fn read_parse(body: Seq<u8>) -> Option<Request> {
    let second = after_text(body);
    let list = after_text(second);
    let count = number(list.take(2));
    if has_text(body) && has_text(second) && list.len() >= 2 && list.len() == 2 + 4 * count {
        Some(
            Request::Parse {
                name: text(body),
                sql: text(second),
                oids: Seq::new(count, |i: int| number(list.subrange(2 + 4 * i, 6 + 4 * i))),
            },
        )
    } else {
        None
    }
}

/// Bind.
pub open spec fn read_bind(body: Seq<u8>) -> Option<Request> {
    let second = after_text(body);
    let formats = after_text(second);
    let counted = after_codes(formats);
    if has_text(body) && has_text(second) && has_codes(formats) && counted.len() >= 2 {
        match read_values(counted.skip(2), number(counted.take(2))) {
            Some((values, results)) => if has_codes(results) && after_codes(results).len() == 0 {
                Some(
                    Request::Bind {
                        portal: text(body),
                        statement: text(second),
                        formats: codes(formats),
                        values,
                        results: codes(results),
                    },
                )
            } else {
                None
            },
            None => None,
        }
    } else {
        None
    }
}

/// The portal that Describe or Close is about: the letter P, and a name.
pub open spec fn read_portal(body: Seq<u8>) -> Option<Seq<char>> {
    let name = body.skip(1);
    if body.len() > 0 && body[0] == 80 && has_text(name) && after_text(name).len() == 0 {
        Some(text(name))
    } else {
        None
    }
}

/// The request in a message of this type.
pub open spec fn request_of(kind: u8, body: Seq<u8>) -> Option<Request> {
    if kind == 80 {
        read_parse(body)
    } else if kind == 66 {
        read_bind(body)
    } else if kind == 68 {
        match read_portal(body) {
            Some(portal) => Some(Request::DescribePortal { portal }),
            None => None,
        }
    } else if kind == 67 {
        match read_portal(body) {
            Some(portal) => Some(Request::ClosePortal { portal }),
            None => None,
        }
    } else if kind == 69 {
        if has_text(body) && after_text(body).len() == 4 {
            Some(Request::Execute { portal: text(body), max_rows: number(after_text(body)) })
        } else {
            None
        }
    } else if body.len() > 0 {
        None
    } else if kind == 83 {
        Some(Request::Sync)
    } else if kind == 72 {
        Some(Request::Flush)
    } else if kind == 88 {
        Some(Request::Terminate)
    } else {
        None
    }
}

/// The requests in a stream of bytes: each a type, a length that counts itself in, and a body.
pub open spec fn requests_of(s: Seq<u8>) -> Option<Seq<Request>>
    decreases s.len(),
{
    if s.len() == 0 {
        Some(Seq::empty())
    } else if s.len() < 5 {
        None
    } else {
        let length = number(s.subrange(1, 5)) as int;
        if length < 4 || s.len() < length + 1 {
            None
        } else {
            match (request_of(s[0], s.subrange(5, length + 1)), requests_of(s.skip(length + 1))) {
                (Some(request), Some(rest)) => Some(seq![request] + rest),
                _ => None,
            }
        }
    }
}

/// The bytes are messages that a server reads as these requests, whatever it gets after them.
pub open spec fn asks(bytes: Seq<u8>, requests: Seq<Request>) -> bool {
    forall|rest: Seq<u8>|
        requests_of(#[trigger] (bytes + rest)) == match requests_of(rest) {
            Some(more) => Some(requests + more),
            None => None,
        }
}

/// A server can read the text: it holds no zero character, which would end it.
pub open spec fn sendable(text: Seq<char>) -> bool {
    forall|i: int| 0 <= i < text.len() ==> #[trigger] text[i] != '\0'
}

/// How many bytes a text takes.
pub open spec fn text_size(text: Seq<char>) -> nat {
    encode_utf8(text).len() + 1
}

/// How many bytes parameter values take.
pub open spec fn values_size(values: Seq<Option<Seq<u8>>>) -> nat
    decreases values.len(),
{
    if values.len() == 0 {
        0
    } else {
        values_size(values.drop_last()) + 4 + match values.last() {
            Some(b) => b.len(),
            None => 0,
        }
    }
}

/// A Parse fits into a message.
pub open spec fn parse_fits(name: Seq<char>, sql: Seq<char>, oids: Seq<u32>) -> bool {
    &&& sendable(name)
    &&& sendable(sql)
    &&& oids.len() <= 0xffff
    &&& text_size(name) + text_size(sql) + 4 * oids.len() + 6 <= 0xffff_ffff
}

/// A Bind fits into a message.
pub open spec fn bind_fits(
    portal: Seq<char>,
    statement: Seq<char>,
    values: Seq<Option<Seq<u8>>>,
) -> bool {
    &&& sendable(portal)
    &&& sendable(statement)
    &&& values.len() <= 0xffff
    &&& text_size(portal) + text_size(statement) + values_size(values) + 14 <= 0xffff_ffff
}

/// The name of a portal fits into a message about it.
pub open spec fn portal_fits(portal: Seq<char>) -> bool {
    sendable(portal) && text_size(portal) + 8 <= 0xffff_ffff
}

proof fn number_of_two(s: Seq<u8>)
    requires
        s.len() == 2,
    ensures
        number(s) == s[0] * 256 + s[1],
{
    reveal_with_fuel(number, 3);
}

proof fn number_of_four(s: Seq<u8>)
    requires
        s.len() == 4,
    ensures
        number(s) == s[0] * 0x100_0000 + s[1] * 0x1_0000 + s[2] * 0x100 + s[3],
{
    reveal_with_fuel(number, 5);
}

/// The client writes its numbers most significant byte first, and loses nothing of them.
pub proof fn numbers_are_read(n: u16, m: u32)
    ensures
        be16(n).len() == 2 && number(be16(n)) == n,
        be32(m).len() == 4 && number(be32(m)) == m,
{
    wide_is_read(m);
    reveal(be16);
    number_of_two(be16(n));
}

#[verifier::spinoff_prover]
#[verifier::rlimit(40)]
proof fn wide_is_read(m: u32)
    ensures
        be32(m).len() == 4 && number(be32(m)) == m,
{
    reveal(be32);
    number_of_four(be32(m));
    assert(m == (m / 0x100_0000) * 0x100_0000 + (m / 0x1_0000 % 256) * 0x1_0000 + (m / 0x100 % 256)
        * 0x100 + m % 256) by (bit_vector);
}

proof fn lows_fit(n: nat)
    ensures
        n <= 0xffff ==> low16(n) == n,
        n <= 0xffff_ffff ==> low32(n) == n,
{
    reveal(low16);
    reveal(low32);
}

proof fn scalar_has_no_zero(c: u32)
    requires
        is_scalar(c),
        c != 0,
    ensures
        forall|i: int| 0 <= i < encode_scalar(c).len() ==> encode_scalar(c)[i] != 0,
{
    assert(c <= 0x7f ==> (c & 0x7f) as u8 != 0u8) by (bit_vector)
        requires
            c != 0,
    ;
    let a = ((c >> 6) & 0x1F) as u8;
    let b = ((c >> 12) & 0x0F) as u8;
    let d = ((c >> 18) & 0x7) as u8;
    let e = (c & 0x3F) as u8;
    let f = ((c >> 6) & 0x3F) as u8;
    let g = ((c >> 12) & 0x3F) as u8;
    assert(0xC0u8 | a != 0u8) by (bit_vector);
    assert(0xE0u8 | b != 0u8) by (bit_vector);
    assert(0xF0u8 | d != 0u8) by (bit_vector);
    assert(0x80u8 | e != 0u8) by (bit_vector);
    assert(0x80u8 | f != 0u8) by (bit_vector);
    assert(0x80u8 | g != 0u8) by (bit_vector);
}

proof fn text_has_no_zero(t: Seq<char>)
    requires
        sendable(t),
    ensures
        forall|i: int| 0 <= i < encode_utf8(t).len() ==> encode_utf8(t)[i] != 0,
    decreases t.len(),
{
    if t.len() > 0 {
        char_is_scalar(t[0]);
        char_u32_cast(t[0], t[0] as u32);
        scalar_has_no_zero(t[0] as u32);
        assert forall|i: int| 0 <= i < t.drop_first().len() implies #[trigger] t.drop_first()[i]
            != '\0' by {
            assert(t[i + 1] == t.drop_first()[i]);
        }
        text_has_no_zero(t.drop_first());
        let first = encode_scalar(t[0] as u32);
        let rest = encode_utf8(t.drop_first());
        assert forall|i: int| 0 <= i < encode_utf8(t).len() implies encode_utf8(t)[i] != 0 by {
            if i < first.len() {
                assert(encode_utf8(t)[i] == first[i]);
            } else {
                assert(encode_utf8(t)[i] == rest[i - first.len()]);
            }
        }
    }
}

proof fn nul_is_found(s: Seq<u8>, rest: Seq<u8>)
    requires
        forall|i: int| 0 <= i < s.len() ==> s[i] != 0,
    ensures
        nul_at(s + seq![0u8] + rest) == s.len(),
    decreases s.len(),
{
    let whole = s + seq![0u8] + rest;
    if s.len() > 0 {
        assert(whole.drop_first() =~= s.drop_first() + seq![0u8] + rest);
        nul_is_found(s.drop_first(), rest);
    }
}

/// A text reads back as it was written, whatever follows it.
pub proof fn text_is_read(t: Seq<char>, rest: Seq<u8>)
    requires
        sendable(t),
    ensures
        has_text(text_bytes(t) + rest),
        text(text_bytes(t) + rest) == t,
        after_text(text_bytes(t) + rest) == rest,
        text_bytes(t).len() == text_size(t),
{
    reveal(text_bytes);
    let s = encode_utf8(t);
    let whole = text_bytes(t) + rest;
    assert(whole =~= s + seq![0u8] + rest);
    text_has_no_zero(t);
    nul_is_found(s, rest);
    assert(whole.take(s.len() as int) =~= s);
    assert(whole.skip(s.len() as int + 1) =~= rest);
    encode_utf8_decode_utf8(t);
}

#[verifier::rlimit(40)]
proof fn frame_is_read(kind: u8, body: Seq<u8>, request: Request)
    requires
        body.len() + 4 <= 0xffff_ffff,
        request_of(kind, body) == Some(request),
    ensures
        asks(frame(kind, body), seq![request]),
{
    lows_fit(body.len() + 4);
    let length = (body.len() + 4) as u32;
    numbers_are_read(0, length);
    assert forall|rest: Seq<u8>|
        requests_of(#[trigger] (frame(kind, body) + rest)) == match requests_of(rest) {
            Some(more) => Some(seq![request] + more),
            None => None,
        } by {
        let s = frame(kind, body) + rest;
        assert(s =~= seq![kind] + be32(length) + body + rest);
        assert(s.subrange(1, 5) =~= be32(length));
        assert(s.subrange(5, length + 1) =~= body);
        assert(s.skip(length + 1) =~= rest);
    }
}

/// Requests one after the other are read one after the other.
pub proof fn asks_in_turn(a: Seq<u8>, first: Seq<Request>, b: Seq<u8>, second: Seq<Request>)
    requires
        asks(a, first),
        asks(b, second),
    ensures
        asks(a + b, first + second),
{
    assert forall|rest: Seq<u8>|
        requests_of(#[trigger] (a + b + rest)) == match requests_of(rest) {
            Some(more) => Some(first + second + more),
            None => None,
        } by {
        assert(a + b + rest =~= a + (b + rest));
        assert(requests_of(b + rest) == match requests_of(rest) {
            Some(more) => Some(second + more),
            None => None,
        });
        if let Some(more) = requests_of(rest) {
            assert(first + (second + more) =~= first + second + more);
        }
    }
}

/// No bytes are no requests.
pub proof fn nothing_asks_nothing()
    ensures
        asks(Seq::empty(), Seq::empty()),
{
    assert forall|rest: Seq<u8>|
        requests_of(#[trigger] (Seq::<u8>::empty() + rest)) == match requests_of(rest) {
            Some(more) => Some(Seq::<Request>::empty() + more),
            None => None,
        } by {
        assert(Seq::<u8>::empty() + rest =~= rest);
        if let Some(more) = requests_of(rest) {
            assert(Seq::<Request>::empty() + more =~= more);
        }
    }
}

/// What the bytes ask is all that they ask.
pub proof fn asks_says_all(bytes: Seq<u8>, requests: Seq<Request>)
    requires
        asks(bytes, requests),
    ensures
        requests_of(bytes) == Some(requests),
{
    assert(bytes + Seq::<u8>::empty() =~= bytes);
    assert(requests_of(Seq::<u8>::empty()) == Some(Seq::<Request>::empty()));
    assert(requests + Seq::<Request>::empty() =~= requests);
}

/// Bytes ask one thing.
pub proof fn asks_is_unique(bytes: Seq<u8>, first: Seq<Request>, second: Seq<Request>)
    requires
        asks(bytes, first),
        asks(bytes, second),
    ensures
        first == second,
{
    asks_says_all(bytes, first);
    asks_says_all(bytes, second);
}

proof fn oids_take(oids: Seq<u32>)
    ensures
        oid_bytes(oids).len() == 4 * oids.len(),
        forall|i: int| 0 <= i < oids.len() ==> number(
            #[trigger] oid_bytes(oids).subrange(4 * i, 4 * i + 4),
        ) == oids[i],
    decreases oids.len(),
{
    if oids.len() > 0 {
        let last = oids.len() - 1;
        oids_take(oids.drop_last());
        numbers_are_read(0, oids.last());
        assert forall|i: int| 0 <= i < oids.len() implies number(
            #[trigger] oid_bytes(oids).subrange(4 * i, 4 * i + 4),
        ) == oids[i] by {
            if i < last {
                assert(oid_bytes(oids).subrange(4 * i, 4 * i + 4) =~= oid_bytes(
                    oids.drop_last(),
                ).subrange(4 * i, 4 * i + 4));
            } else {
                assert(oid_bytes(oids).subrange(4 * i, 4 * i + 4) =~= be32(oids.last()));
            }
        }
    }
}

proof fn parse_body_is_read(name: Seq<char>, sql: Seq<char>, oids: Seq<u32>, list: Seq<u8>)
    requires
        sendable(name),
        sendable(sql),
        list.len() == 2 + 4 * oids.len(),
        number(list.take(2)) == oids.len(),
        forall|i: int| 0 <= i < oids.len() ==> number(
            #[trigger] list.subrange(2 + 4 * i, 6 + 4 * i),
        ) == oids[i],
    ensures
        read_parse(text_bytes(name) + (text_bytes(sql) + list)) == Some(
            Request::Parse { name, sql, oids: oids.map_values(|o: u32| o as nat) },
        ),
{
    text_is_read(name, text_bytes(sql) + list);
    text_is_read(sql, list);
    let read = Seq::new(oids.len(), |i: int| number(list.subrange(2 + 4 * i, 6 + 4 * i)));
    assert(read =~= oids.map_values(|o: u32| o as nat));
}

/// Parse asks the server to prepare this text under this name for parameters of these types.
#[verifier::rlimit(40)]
pub proof fn parse_is_read(name: Seq<char>, sql: Seq<char>, oids: Seq<u32>)
    requires
        parse_fits(name, sql, oids),
    ensures
        asks(
            parse_frame(name, sql, oids),
            seq![Request::Parse { name, sql, oids: oids.map_values(|o: u32| o as nat) }],
        ),
{
    let list = be16(low16(oids.len())) + oid_bytes(oids);
    let body = text_bytes(name) + (text_bytes(sql) + list);
    lows_fit(oids.len());
    numbers_are_read(oids.len() as u16, 0);
    oids_take(oids);
    assert(list.take(2) =~= be16(low16(oids.len())));
    assert forall|i: int| 0 <= i < oids.len() implies number(
        #[trigger] list.subrange(2 + 4 * i, 6 + 4 * i),
    ) == oids[i] by {
        assert(list.subrange(2 + 4 * i, 6 + 4 * i) =~= oid_bytes(oids).subrange(4 * i, 4 * i + 4));
    }
    parse_body_is_read(name, sql, oids, list);
    text_is_read(name, Seq::empty());
    text_is_read(sql, Seq::empty());
    assert(body =~= text_bytes(name) + text_bytes(sql) + be16(low16(oids.len())) + oid_bytes(oids));
    frame_is_read(
        80,
        body,
        Request::Parse { name, sql, oids: oids.map_values(|o: u32| o as nat) },
    );
}

/// Describe, Close and Execute are about the portal that is named, and Execute asks for at most
/// `max_rows` rows, for the unnamed portal as for any other.
pub proof fn portal_requests_are_read(portal: Seq<char>, max_rows: u32)
    requires
        portal_fits(portal),
    ensures
        asks(describe_portal_frame(portal), seq![Request::DescribePortal { portal }]),
        asks(close_portal_frame(portal), seq![Request::ClosePortal { portal }]),
        asks(
            execute_frame(portal, max_rows),
            seq![Request::Execute { portal, max_rows: max_rows as nat }],
        ),
{
    let named = seq![80u8] + text_bytes(portal);
    text_is_read(portal, Seq::empty());
    assert(text_bytes(portal) + Seq::<u8>::empty() =~= text_bytes(portal));
    assert(named.skip(1) =~= text_bytes(portal));
    frame_is_read(68, named, Request::DescribePortal { portal });
    frame_is_read(67, named, Request::ClosePortal { portal });
    numbers_are_read(0, max_rows);
    text_is_read(portal, be32(max_rows));
    frame_is_read(
        69,
        text_bytes(portal) + be32(max_rows),
        Request::Execute { portal, max_rows: max_rows as nat },
    );
}

/// Sync, Flush and Terminate say just that.
pub proof fn bare_requests_are_read()
    ensures
        asks(sync_frame(), seq![Request::Sync]),
        asks(flush_frame(), seq![Request::Flush]),
        asks(terminate_frame(), seq![Request::Terminate]),
{
    frame_is_read(83, Seq::empty(), Request::Sync);
    frame_is_read(72, Seq::empty(), Request::Flush);
    frame_is_read(88, Seq::empty(), Request::Terminate);
}

proof fn values_from_the_front(values: Seq<Option<Seq<u8>>>)
    requires
        values.len() > 0,
    ensures
        values_bytes(values) == value_bytes(values[0]) + values_bytes(values.drop_first()),
    decreases values.len(),
{
    let rest = values.drop_first();
    if values.len() == 1 {
        assert(values.drop_last() =~= Seq::empty());
        assert(values_bytes(values.drop_last()) =~= Seq::empty());
        assert(values_bytes(rest) =~= Seq::empty());
        assert(values_bytes(values) =~= value_bytes(values[0]) + values_bytes(rest));
    } else {
        values_from_the_front(values.drop_last());
        assert(values.drop_last().drop_first() =~= rest.drop_last());
        assert(values_bytes(values) =~= value_bytes(values[0]) + values_bytes(rest));
    }
}

proof fn values_size_from_the_front(values: Seq<Option<Seq<u8>>>)
    requires
        values.len() > 0,
    ensures
        values_size(values) == values_size(seq![values[0]]) + values_size(values.drop_first()),
        values_size(seq![values[0]]) == 4 + match values[0] {
            Some(b) => b.len(),
            None => 0,
        },
    decreases values.len(),
{
    reveal_with_fuel(values_size, 2);
    let one = seq![values[0]];
    assert(one.drop_last() =~= Seq::empty());
    if values.len() == 1 {
        assert(values =~= one);
        assert(values.drop_first() =~= Seq::empty());
    } else {
        values_size_from_the_front(values.drop_last());
        assert(values.drop_last().drop_first() =~= values.drop_first().drop_last());
    }
}

/// Values read back as they were written, whatever follows them: NULL as NULL, and every string of
/// bytes as itself, the empty one too.
pub proof fn values_are_read(values: Seq<Option<Seq<u8>>>, rest: Seq<u8>)
    requires
        values_size(values) < 0xffff_ffff,
    ensures
        read_values(values_bytes(values) + rest, values.len()) == Some((values, rest)),
        values_bytes(values).len() == values_size(values),
    decreases values.len(),
{
    if values.len() == 0 {
        assert(values_bytes(values) + rest =~= rest);
        assert(values =~= Seq::empty());
    } else {
        let tail = values.drop_first();
        values_from_the_front(values);
        values_size_from_the_front(values);
        values_are_read(tail, rest);
        let s = values_bytes(values) + rest;
        let after = values_bytes(tail) + rest;
        assert(seq![values[0]] + tail =~= values);
        match values[0] {
            None => {
                numbers_are_read(0, 0xffff_ffff);
                assert(s =~= be32(0xffff_ffff) + after);
                assert(s.take(4) =~= be32(0xffff_ffff));
                assert(s.skip(4) =~= after);
            },
            Some(b) => {
                lows_fit(b.len());
                numbers_are_read(0, b.len() as u32);
                assert(s =~= be32(b.len() as u32) + b + after);
                assert(s.take(4) =~= be32(b.len() as u32));
                assert(s.subrange(4, 4 + b.len() as int) =~= b);
                assert(s.skip(4 + b.len() as int) =~= after);
            },
        }
    }
}

proof fn bind_body_is_read(
    portal: Seq<char>,
    statement: Seq<char>,
    values: Seq<Option<Seq<u8>>>,
    formats: Seq<u8>,
    results: Seq<u8>,
)
    requires
        sendable(portal),
        sendable(statement),
        has_codes(formats),
        codes(formats) == seq![1nat],
        after_codes(formats).len() >= 2,
        read_values(after_codes(formats).skip(2), number(after_codes(formats).take(2))) == Some(
            (values, results),
        ),
        has_codes(results),
        codes(results) == seq![1nat],
        after_codes(results).len() == 0,
    ensures
        read_bind(text_bytes(portal) + (text_bytes(statement) + formats)) == Some(
            Request::Bind {
                portal,
                statement,
                formats: seq![1nat],
                values,
                results: seq![1nat],
            },
        ),
{
    text_is_read(portal, text_bytes(statement) + formats);
    text_is_read(statement, formats);
}

/// Bind asks the server to bind exactly these values to this statement as this portal, parameters
/// and results in binary.
#[verifier::rlimit(40)]
pub proof fn bind_is_read(portal: Seq<char>, statement: Seq<char>, values: Seq<Option<Seq<u8>>>)
    requires
        bind_fits(portal, statement, values),
    ensures
        asks(
            bind_frame(portal, statement, values),
            seq![
                Request::Bind {
                    portal,
                    statement,
                    formats: seq![1nat],
                    values,
                    results: seq![1nat],
                },
            ],
        ),
{
    let one = be16(1);
    let results = one + one;
    let counted = be16(low16(values.len())) + (values_bytes(values) + results);
    let formats = one + one + counted;
    let body = text_bytes(portal) + (text_bytes(statement) + formats);
    lows_fit(values.len());
    numbers_are_read(1, 0);
    numbers_are_read(values.len() as u16, 0);
    values_are_read(values, results);
    assert(formats.take(2) =~= one);
    assert(formats.subrange(2, 4) =~= one);
    assert(codes(formats) =~= seq![1nat]);
    assert(formats.skip(4) =~= counted);
    assert(counted.take(2) =~= be16(low16(values.len())));
    assert(counted.skip(2) =~= values_bytes(values) + results);
    assert(results.take(2) =~= one);
    assert(results.subrange(2, 4) =~= one);
    assert(codes(results) =~= seq![1nat]);
    bind_body_is_read(portal, statement, values, formats, results);
    text_is_read(portal, Seq::empty());
    text_is_read(statement, Seq::empty());
    assert(body =~= text_bytes(portal) + text_bytes(statement) + be16(1) + be16(1) + be16(
        low16(values.len()),
    ) + values_bytes(values) + be16(1) + be16(1));
    frame_is_read(
        66,
        body,
        Request::Bind {
            portal,
            statement,
            formats: seq![1nat],
            values,
            results: seq![1nat],
        },
    );
}

/// Two Binds that look alike bind the same values to the same statement as the same portal, so NULL
/// and the empty string, among others, are kept apart.
pub proof fn binds_differ(
    portal: Seq<char>,
    statement: Seq<char>,
    values: Seq<Option<Seq<u8>>>,
    other_portal: Seq<char>,
    other_statement: Seq<char>,
    other_values: Seq<Option<Seq<u8>>>,
)
    requires
        bind_fits(portal, statement, values),
        bind_fits(other_portal, other_statement, other_values),
        bind_frame(portal, statement, values) == bind_frame(
            other_portal,
            other_statement,
            other_values,
        ),
    ensures
        portal == other_portal,
        statement == other_statement,
        values == other_values,
{
    bind_is_read(portal, statement, values);
    bind_is_read(other_portal, other_statement, other_values);
    let first = seq![
        Request::Bind { portal, statement, formats: seq![1nat], values, results: seq![1nat] },
    ];
    let second = seq![
        Request::Bind {
            portal: other_portal,
            statement: other_statement,
            formats: seq![1nat],
            values: other_values,
            results: seq![1nat],
        },
    ];
    asks_is_unique(bind_frame(portal, statement, values), first, second);
    assert(first[0] == second[0]);
}

/// Two Executes that look alike run the same portal for the same number of rows at most. The limit
/// is in the last four bytes.
pub proof fn executes_differ(
    portal: Seq<char>,
    max_rows: u32,
    other_portal: Seq<char>,
    other_max_rows: u32,
)
    requires
        portal_fits(portal),
        portal_fits(other_portal),
    ensures
        execute_frame(portal, max_rows) == execute_frame(other_portal, other_max_rows) ==> portal
            == other_portal && max_rows == other_max_rows,
        ({
            let s = execute_frame(portal, max_rows);
            number(s.skip(s.len() - 4)) == max_rows
        }),
{
    portal_requests_are_read(portal, max_rows);
    portal_requests_are_read(other_portal, other_max_rows);
    let first = seq![Request::Execute { portal, max_rows: max_rows as nat }];
    let second = seq![
        Request::Execute { portal: other_portal, max_rows: other_max_rows as nat },
    ];
    let s = execute_frame(portal, max_rows);
    if s == execute_frame(other_portal, other_max_rows) {
        asks_is_unique(s, first, second);
        assert(first[0] == second[0]);
    }
    numbers_are_read(0, max_rows);
    assert(s.skip(s.len() - 4) =~= be32(max_rows));
}

/// What [`write_parse`] appends is one Parse with exactly its arguments.
pub proof fn write_parse_asks(buf: &mut Vec<u8>, name: &str, sql: &str, oids: &[u32])
    requires
        call_ensures(write_parse, (buf, name, sql, oids), ()),
        parse_fits(name@, sql@, oids@),
    ensures
        ({
            let n = old(buf)@.len() as int;
            &&& final(buf)@.len() >= n && final(buf)@.take(n) == old(buf)@
            &&& asks(
                final(buf)@.skip(n),
                seq![
                    Request::Parse {
                        name: name@,
                        sql: sql@,
                        oids: oids@.map_values(|o: u32| o as nat),
                    },
                ],
            )
        }),
{
    parse_is_read(name@, sql@, oids@);
    let m = parse_frame(name@, sql@, oids@);
    assert((old(buf)@ + m).take(old(buf)@.len() as int) =~= old(buf)@);
    assert((old(buf)@ + m).skip(old(buf)@.len() as int) =~= m);
}

/// What [`write_bind`] appends is one Bind of the encoded parameters, and where they cannot be
/// encoded it appends nothing and hands the error on.
pub proof fn write_bind_asks<P: ToParams>(
    buf: &mut Vec<u8>,
    portal: &str,
    statement: &str,
    params: &P,
    oids: &[u32],
    r: Result<(), Error>,
)
    requires
        call_ensures(write_bind::<P>, (buf, portal, statement, params, oids), r),
        params.encoded(oids@) matches Ok(values) ==> bind_fits(portal@, statement@, values),
    ensures
        ({
            let n = old(buf)@.len() as int;
            match params.encoded(oids@) {
                Ok(values) => r is Ok && final(buf)@.len() >= n && final(buf)@.take(n)
                    == old(buf)@ && asks(
                    final(buf)@.skip(n),
                    seq![
                        Request::Bind {
                            portal: portal@,
                            statement: statement@,
                            formats: seq![1nat],
                            values,
                            results: seq![1nat],
                        },
                    ],
                ),
                Err(e) => final(buf)@ == old(buf)@ && (r matches Err(f) && f@ == e),
            }
        }),
{
    if let Ok(values) = params.encoded(oids@) {
        bind_is_read(portal@, statement@, values);
        let m = bind_frame(portal@, statement@, values);
        assert((old(buf)@ + m).take(old(buf)@.len() as int) =~= old(buf)@);
        assert((old(buf)@ + m).skip(old(buf)@.len() as int) =~= m);
    }
}

/// What [`write_execute`] appends runs the portal for at most `max_rows` rows.
pub proof fn write_execute_asks(buf: &mut Vec<u8>, portal: &str, max_rows: u32)
    requires
        call_ensures(write_execute, (buf, portal, max_rows), ()),
        portal_fits(portal@),
    ensures
        ({
            let n = old(buf)@.len() as int;
            &&& final(buf)@.len() >= n && final(buf)@.take(n) == old(buf)@
            &&& asks(
                final(buf)@.skip(n),
                seq![Request::Execute { portal: portal@, max_rows: max_rows as nat }],
            )
        }),
{
    portal_requests_are_read(portal@, max_rows);
    let m = execute_frame(portal@, max_rows);
    assert((old(buf)@ + m).take(old(buf)@.len() as int) =~= old(buf)@);
    assert((old(buf)@ + m).skip(old(buf)@.len() as int) =~= m);
}

/// What [`write_describe_portal`] and [`write_close_portal`] append is about the portal that is
/// named.
pub proof fn write_portal_asks(
    described: &mut Vec<u8>,
    closed: &mut Vec<u8>,
    portal: &str,
)
    requires
        call_ensures(write_describe_portal, (described, portal), ()),
        call_ensures(write_close_portal, (closed, portal), ()),
        portal_fits(portal@),
        old(described)@.len() == 0,
        old(closed)@.len() == 0,
    ensures
        asks(final(described)@, seq![Request::DescribePortal { portal: portal@ }]),
        asks(final(closed)@, seq![Request::ClosePortal { portal: portal@ }]),
{
    portal_requests_are_read(portal@, 0);
    assert(final(described)@ =~= describe_portal_frame(portal@));
    assert(final(closed)@ =~= close_portal_frame(portal@));
}

/// What [`write_sync`], [`write_flush`] and [`write_terminate`] append, one after the other, is
/// Sync, Flush and Terminate.
pub proof fn bare_writes_ask(sync: &mut Vec<u8>, flush: &mut Vec<u8>, terminate: &mut Vec<u8>)
    requires
        call_ensures(write_sync, (sync,), ()),
        call_ensures(write_flush, (flush,), ()),
        call_ensures(write_terminate, (terminate,), ()),
        old(sync)@.len() == 0,
        old(flush)@ == final(sync)@,
        old(terminate)@ == final(flush)@,
    ensures
        asks(final(terminate)@, seq![Request::Sync, Request::Flush, Request::Terminate]),
{
    bare_requests_are_read();
    assert(final(sync)@ =~= sync_frame());
    asks_in_turn(sync_frame(), seq![Request::Sync], flush_frame(), seq![Request::Flush]);
    asks_in_turn(
        sync_frame() + flush_frame(),
        seq![Request::Sync] + seq![Request::Flush],
        terminate_frame(),
        seq![Request::Terminate],
    );
    assert(seq![Request::Sync] + seq![Request::Flush] + seq![Request::Terminate] =~= seq![
        Request::Sync,
        Request::Flush,
        Request::Terminate,
    ]);
}

} // verus!
