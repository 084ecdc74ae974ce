//! Messages to the server.

use vstd::prelude::*;
use vstd::string::*;
use vstd::utf8::*;

use crate::error::{outcome, Error};
use crate::params::{values_of, ToParams};
use crate::protocol::wire::{
    be16, be32, count16, cstr, frame, length32, low16, low32, push16, push32, push_bytes,
    push_cstr, push_frame,
};

verus! {

/// Sync.
pub open spec fn sync_frame() -> Seq<u8> {
    frame(83, Seq::empty())
}

/// Flush.
pub open spec fn flush_frame() -> Seq<u8> {
    frame(72, Seq::empty())
}

/// Terminate.
pub open spec fn terminate_frame() -> Seq<u8> {
    frame(88, Seq::empty())
}

/// A text in UTF-8, terminated by a zero byte.
#[verifier::opaque]
pub open spec fn text_bytes(text: Seq<char>) -> Seq<u8> {
    cstr(encode_utf8(text))
}

/// A list of type OIDs.
pub open spec fn oid_bytes(oids: Seq<u32>) -> Seq<u8>
    decreases oids.len(),
{
    if oids.len() == 0 {
        Seq::empty()
    } else {
        oid_bytes(oids.drop_last()) + be32(oids.last())
    }
}

/// Parse: prepare `sql` under `name` for parameters of these types.
pub open spec fn parse_frame(name: Seq<char>, sql: Seq<char>, oids: Seq<u32>) -> Seq<u8> {
    frame(
        80,
        text_bytes(name) + text_bytes(sql) + be16(low16(oids.len())) + oid_bytes(
            oids,
        ),
    )
}

/// Describe a portal.
pub open spec fn describe_portal_frame(portal: Seq<char>) -> Seq<u8> {
    frame(68, seq![80u8] + text_bytes(portal))
}

/// Close a portal.
pub open spec fn close_portal_frame(portal: Seq<char>) -> Seq<u8> {
    frame(67, seq![80u8] + text_bytes(portal))
}

/// Execute a portal for at most `max_rows` rows, 0 for all.
pub open spec fn execute_frame(portal: Seq<char>, max_rows: u32) -> Seq<u8> {
    frame(69, text_bytes(portal) + be32(max_rows))
}

/// One parameter value: its length and bytes, or a length of -1 for NULL.
pub open spec fn value_bytes(value: Option<Seq<u8>>) -> Seq<u8> {
    match value {
        Some(b) => be32(low32(b.len())) + b,
        None => be32(0xffff_ffff),
    }
}

/// The parameter values one after the other.
pub open spec fn values_bytes(values: Seq<Option<Seq<u8>>>) -> Seq<u8>
    decreases values.len(),
{
    if values.len() == 0 {
        Seq::empty()
    } else {
        values_bytes(values.drop_last()) + value_bytes(values.last())
    }
}

/// Bind parameter values to a statement as `portal`; parameters and results are binary.
pub open spec fn bind_frame(
    portal: Seq<char>,
    statement: Seq<char>,
    values: Seq<Option<Seq<u8>>>,
) -> Seq<u8> {
    frame(
        66,
        text_bytes(portal) + text_bytes(statement) + be16(1) + be16(1) + be16(
            low16(values.len()),
        ) + values_bytes(values) + be16(1) + be16(1),
    )
}

fn push_text(out: &mut Vec<u8>, text: &str)
    ensures
        final(out)@ == old(out)@ + text_bytes(text@),
{
    proof {
        reveal(text_bytes);
    }
    push_cstr(out, text.as_bytes());
}

/// Appends Sync.
pub fn write_sync(buf: &mut Vec<u8>)
    ensures
        final(buf)@ == old(buf)@ + sync_frame(),
{
    let body: [u8; 0] = [];
    assert(body@ =~= Seq::empty());
    push_frame(buf, 83, &body);
}

/// Appends Flush.
pub fn write_flush(buf: &mut Vec<u8>)
    ensures
        final(buf)@ == old(buf)@ + flush_frame(),
{
    let body: [u8; 0] = [];
    assert(body@ =~= Seq::empty());
    push_frame(buf, 72, &body);
}

/// Appends Terminate.
pub fn write_terminate(buf: &mut Vec<u8>)
    ensures
        final(buf)@ == old(buf)@ + terminate_frame(),
{
    let body: [u8; 0] = [];
    assert(body@ =~= Seq::empty());
    push_frame(buf, 88, &body);
}

fn push_oids(out: &mut Vec<u8>, oids: &[u32])
    ensures
        final(out)@ == old(out)@ + oid_bytes(oids@),
{
    let mut i: usize = 0;
    assert(out@ =~= old(out)@ + oid_bytes(oids@.take(0)));
    while i < oids.len()
        invariant
            i <= oids@.len(),
            out@ == old(out)@ + oid_bytes(oids@.take(i as int)),
        decreases oids@.len() - i,
    {
        push32(out, oids[i]);
        i = i + 1;
        assert(oids@.take(i as int).drop_last() =~= oids@.take(i - 1));
        assert(out@ =~= old(out)@ + oid_bytes(oids@.take(i as int)));
    }
    assert(oids@.take(i as int) =~= oids@);
}

/// Appends Parse.
pub fn write_parse(buf: &mut Vec<u8>, name: &str, sql: &str, oids: &[u32])
    ensures
        final(buf)@ == old(buf)@ + parse_frame(name@, sql@, oids@),
{
    let mut body: Vec<u8> = Vec::new();
    push_text(&mut body, name);
    push_text(&mut body, sql);
    push16(&mut body, count16(oids.len()));
    push_oids(&mut body, oids);
    assert(body@ =~= text_bytes(name@) + text_bytes(sql@) + be16(low16(oids@.len()))
        + oid_bytes(oids@));
    push_frame(buf, 80, body.as_slice());
}

/// Appends Describe for a portal.
pub fn write_describe_portal(buf: &mut Vec<u8>, portal: &str)
    ensures
        final(buf)@ == old(buf)@ + describe_portal_frame(portal@),
{
    let mut body: Vec<u8> = Vec::new();
    body.push(80);
    push_text(&mut body, portal);
    assert(body@ =~= seq![80u8] + text_bytes(portal@));
    push_frame(buf, 68, body.as_slice());
}

/// Appends Close for a portal.
pub fn write_close_portal(buf: &mut Vec<u8>, portal: &str)
    ensures
        final(buf)@ == old(buf)@ + close_portal_frame(portal@),
{
    let mut body: Vec<u8> = Vec::new();
    body.push(80);
    push_text(&mut body, portal);
    assert(body@ =~= seq![80u8] + text_bytes(portal@));
    push_frame(buf, 67, body.as_slice());
}

/// Appends Execute.
pub fn write_execute(buf: &mut Vec<u8>, portal: &str, max_rows: u32)
    ensures
        final(buf)@ == old(buf)@ + execute_frame(portal@, max_rows),
{
    let mut body: Vec<u8> = Vec::new();
    push_text(&mut body, portal);
    push32(&mut body, max_rows);
    assert(body@ =~= text_bytes(portal@) + be32(max_rows));
    push_frame(buf, 69, body.as_slice());
}

fn push_values(out: &mut Vec<u8>, values: &[Option<Vec<u8>>])
    ensures
        final(out)@ == old(out)@ + values_bytes(values_of(values@)),
{
    let mut i: usize = 0;
    let ghost all = values_of(values@);
    assert(out@ =~= old(out)@ + values_bytes(all.take(0)));
    while i < values.len()
        invariant
            i <= values@.len(),
            all == values_of(values@),
            out@ == old(out)@ + values_bytes(all.take(i as int)),
        decreases values@.len() - i,
    {
        match &values[i] {
            Some(bytes) => {
                push32(out, length32(bytes.len()));
                push_bytes(out, bytes.as_slice());
            },
            None => push32(out, 0xffff_ffff),
        }
        i = i + 1;
        assert(all.take(i as int).drop_last() =~= all.take(i - 1));
        assert(out@ =~= old(out)@ + values_bytes(all.take(i as int)));
    }
    assert(all.take(i as int) =~= all);
}

/// Appends Bind with the parameters encoded for `oids`; nothing where they cannot be.
pub fn write_bind<P: ToParams>(
    buf: &mut Vec<u8>,
    portal: &str,
    statement: &str,
    params: &P,
    oids: &[u32],
) -> (r: Result<(), Error>)
    ensures
        match params.encoded(oids@) {
            Ok(values) => r is Ok && final(buf)@ == old(buf)@ + bind_frame(
                portal@,
                statement@,
                values,
            ),
            Err(e) => outcome(r) == Err::<(), _>(e) && final(buf)@ == old(buf)@,
        },
{
    let values = match params.encode(oids) {
        Ok(values) => values,
        Err(e) => return Err(e),
    };
    let mut body: Vec<u8> = Vec::new();
    push_text(&mut body, portal);
    push_text(&mut body, statement);
    push16(&mut body, 1);
    push16(&mut body, 1);
    push16(&mut body, count16(values.len()));
    push_values(&mut body, values.as_slice());
    push16(&mut body, 1);
    push16(&mut body, 1);
    let ghost vs = values_of(values@);
    assert(body@ =~= text_bytes(portal@) + text_bytes(statement@) + be16(1) + be16(1)
        + be16(low16(vs.len())) + values_bytes(vs) + be16(1) + be16(1));
    push_frame(buf, 66, body.as_slice());
    Ok(())
}

} // verus!
