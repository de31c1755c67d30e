use vstd::prelude::*;
use vstd::slice::{slice_subrange, slice_to_vec};

use crate::error::SLError;
use crate::header::{header_error, header_ok, header_result, header_value, parse_header};

verus! {

/// Length of a record: an eight-byte header and a 512-byte payload.
pub const RECORD_LEN: usize = 520;

/// Length of a record's payload.
pub const PAYLOAD_LEN: usize = 512;

/// `s` starts with a complete record whose header decodes.
pub open spec fn frame_ok(s: Seq<u8>) -> bool {
    s.len() >= RECORD_LEN && header_ok(s)
}

/// The records that draining `s` takes off its front, in order: complete
/// records up to the first one whose header does not decode.
pub open spec fn drained(s: Seq<u8>) -> Seq<Seq<u8>>
    decreases s.len(),
{
    if frame_ok(s) {
        seq![s.take(RECORD_LEN as int)] + drained(s.skip(RECORD_LEN as int))
    } else {
        seq![]
    }
}

/// What remains of `s` once the records of `drained(s)` are taken off.
pub open spec fn left(s: Seq<u8>) -> Seq<u8>
    decreases s.len(),
{
    if frame_ok(s) {
        left(s.skip(RECORD_LEN as int))
    } else {
        s
    }
}

/// A decoded record: its header value and its opaque payload.
#[derive(Debug)]
pub struct Record {
    pub header: i64,
    pub payload: Vec<u8>,
}

impl Record {
    /// The record was decoded from the 520 bytes at the front of `f`.
    pub open spec fn decodes(&self, f: Seq<u8>) -> bool {
        self.header == header_value(f) && self.payload@ == f.subrange(8, RECORD_LEN as int)
    }
}

/// Takes one record off the front of `buf`. On a header that does not
/// decode, `buf` is left as it was.
pub fn split_record(buf: &mut Vec<u8>) -> (r: Result<Record, SLError>)
    requires
        old(buf)@.len() >= RECORD_LEN,
    ensures
        r is Ok <==> header_ok(old(buf)@),
        match r {
            Ok(rec) => rec.decodes(old(buf)@) && final(buf)@ == old(buf)@.skip(RECORD_LEN as int),
            Err(e) => header_error(old(buf)@, e) && final(buf)@ == old(buf)@,
        },
{
    match parse_header(buf.as_slice()) {
        Ok(h) => {
            let payload = slice_to_vec(slice_subrange(buf.as_slice(), 8, RECORD_LEN));
            let rest = buf.split_off(RECORD_LEN);
            *buf = rest;
            assert(payload@ =~= old(buf)@.subrange(8, RECORD_LEN as int));
            assert(buf@ =~= old(buf)@.skip(RECORD_LEN as int));
            Ok(Record { header: h, payload })
        },
        Err(e) => Err(e),
    }
}

proof fn lemma_frame_prefix(s: Seq<u8>)
    requires
        s.len() >= RECORD_LEN,
    ensures
        frame_ok(s) == frame_ok(s.take(RECORD_LEN as int)),
        header_value(s) == header_value(s.take(RECORD_LEN as int)),
{
    assert(s.subrange(2, 8) =~= s.take(RECORD_LEN as int).subrange(2, 8));
}

/// The chunks laid end to end.
pub open spec fn joined(chunks: Seq<Seq<u8>>) -> Seq<u8>
    decreases chunks.len(),
{
    if chunks.len() == 0 {
        Seq::<u8>::empty()
    } else {
        chunks[0] + joined(chunks.drop_first())
    }
}

/// The records a framer holding `s` yields when fed `chunks` one at a time
/// and drained after each.
pub open spec fn chunked_records(s: Seq<u8>, chunks: Seq<Seq<u8>>) -> Seq<Seq<u8>>
    decreases chunks.len(),
{
    if chunks.len() == 0 {
        Seq::<Seq<u8>>::empty()
    } else {
        drained(s + chunks[0]) + chunked_records(left(s + chunks[0]), chunks.drop_first())
    }
}

/// What such a framer holds at the end.
pub open spec fn chunked_rest(s: Seq<u8>, chunks: Seq<Seq<u8>>) -> Seq<u8>
    decreases chunks.len(),
{
    if chunks.len() == 0 {
        s
    } else {
        chunked_rest(left(s + chunks[0]), chunks.drop_first())
    }
}

/// Every drain in such a run succeeds.
pub open spec fn chunked_drains_succeed(s: Seq<u8>, chunks: Seq<Seq<u8>>) -> bool
    decreases chunks.len(),
{
    chunks.len() == 0 || (left(s + chunks[0]).len() < RECORD_LEN && chunked_drains_succeed(
        left(s + chunks[0]),
        chunks.drop_first(),
    ))
}

/// A valid record: 520 bytes whose header decodes.
pub open spec fn valid_record(r: Seq<u8>) -> bool {
    r.len() == RECORD_LEN && header_ok(r)
}

proof fn lemma_header_prefix(a: Seq<u8>, b: Seq<u8>)
    requires
        a.len() >= 8,
    ensures
        header_ok(a + b) == header_ok(a),
        header_value(a + b) == header_value(a),
{
    assert((a + b).subrange(2, 8) =~= a.subrange(2, 8));
}

proof fn lemma_left_settled(s: Seq<u8>)
    ensures
        !frame_ok(left(s)),
    decreases s.len(),
{
    if frame_ok(s) {
        lemma_left_settled(s.skip(RECORD_LEN as int));
    }
}

/// Draining, appending and draining again takes off the same records as
/// appending first and draining once.
proof fn lemma_drain_append(a: Seq<u8>, b: Seq<u8>)
    ensures
        drained(a) + drained(left(a) + b) == drained(a + b),
        left(left(a) + b) == left(a + b),
        left(a).len() >= RECORD_LEN ==> left(a + b) == left(a) + b,
    decreases a.len(),
{
    if frame_ok(a) {
        let n = RECORD_LEN as int;
        lemma_header_prefix(a, b);
        assert((a + b).take(n) =~= a.take(n));
        assert((a + b).skip(n) =~= a.skip(n) + b);
        lemma_drain_append(a.skip(n), b);
        assert(drained(a + b) == seq![a.take(n)] + drained(a.skip(n) + b));
        assert(drained(a) + drained(left(a) + b) =~= drained(a + b));
    } else {
        assert(drained(a) + drained(left(a) + b) =~= drained(a + b));
        if a.len() >= RECORD_LEN {
            lemma_header_prefix(a, b);
        }
    }
}

proof fn lemma_drain_valid(records: Seq<Seq<u8>>)
    requires
        forall|i: int| 0 <= i < records.len() ==> valid_record(#[trigger] records[i]),
    ensures
        drained(joined(records)) == records,
        left(joined(records)) == Seq::<u8>::empty(),
    decreases records.len(),
{
    if records.len() > 0 {
        let n = RECORD_LEN as int;
        let r0 = records[0];
        let rest = records.drop_first();
        assert(valid_record(r0));
        assert forall|i: int| 0 <= i < rest.len() implies valid_record(#[trigger] rest[i]) by {
            assert(rest[i] == records[i + 1]);
        }
        lemma_drain_valid(rest);
        lemma_header_prefix(r0, joined(rest));
        assert((r0 + joined(rest)).take(n) =~= r0);
        assert((r0 + joined(rest)).skip(n) =~= joined(rest));
        assert(drained(joined(records)) =~= records);
    } else {
        assert(!frame_ok(joined(records)));
    }
}

proof fn lemma_chunked_run(s: Seq<u8>, chunks: Seq<Seq<u8>>)
    requires
        !frame_ok(s),
        left(s + joined(chunks)).len() < RECORD_LEN,
    ensures
        chunked_records(s, chunks) == drained(s + joined(chunks)),
        chunked_rest(s, chunks) == left(s + joined(chunks)),
        chunked_drains_succeed(s, chunks),
    decreases chunks.len(),
{
    if chunks.len() == 0 {
        assert(s + joined(chunks) =~= s);
    } else {
        let t = s + chunks[0];
        let rest = chunks.drop_first();
        assert(s + joined(chunks) =~= t + joined(rest));
        lemma_drain_append(t, joined(rest));
        lemma_left_settled(t);
        lemma_chunked_run(left(t), rest);
    }
}

/// Feeding valid records to a new framer through chunks of any sizes, and
/// draining after each chunk, yields exactly those records, in their order,
/// with every drain succeeding and nothing left over.
pub proof fn lemma_chunked_framing(records: Seq<Seq<u8>>, chunks: Seq<Seq<u8>>)
    requires
        forall|i: int| 0 <= i < records.len() ==> valid_record(#[trigger] records[i]),
        joined(chunks) == joined(records),
    ensures
        chunked_drains_succeed(Seq::<u8>::empty(), chunks),
        chunked_records(Seq::<u8>::empty(), chunks) == records,
        chunked_rest(Seq::<u8>::empty(), chunks) == Seq::<u8>::empty(),
{
    let e = Seq::<u8>::empty();
    assert(e + joined(chunks) =~= joined(records));
    lemma_drain_valid(records);
    lemma_chunked_run(e, chunks);
}

/// Cuts a byte stream that arrives in chunks of any size into records.
pub struct Framer {
    buf: Vec<u8>,
}

impl View for Framer {
    type V = Seq<u8>;

    /// The bytes received and not yet taken off as records.
    closed spec fn view(&self) -> Seq<u8> {
        self.buf@
    }
}

impl Framer {
    pub fn new() -> (r: Framer)
        ensures
            r@ == Seq::<u8>::empty(),
    {
        Framer { buf: Vec::new() }
    }

    /// Number of bytes held back, waiting for the rest of their record.
    pub fn pending(&self) -> (r: usize)
        ensures
            r == self@.len(),
    {
        self.buf.len()
    }

    /// Appends bytes read from the connection.
    pub fn feed(&mut self, bytes: &[u8])
        ensures
            final(self)@ == old(self)@ + bytes@,
    {
        self.buf.extend_from_slice(bytes);
    }

    /// Takes every complete record off the front, in arrival order, leaving a
    /// trailing partial record in place. Fails, taking nothing, when a
    /// complete record has a header that does not decode.
    pub fn drain(&mut self) -> (r: Result<Vec<Record>, SLError>)
        ensures
            r is Ok <==> left(old(self)@).len() < RECORD_LEN,
            match r {
                Ok(recs) => {
                    &&& final(self)@ == left(old(self)@)
                    &&& final(self)@.len() < RECORD_LEN
                    &&& recs@.len() == drained(old(self)@).len()
                    &&& forall|i: int|
                        0 <= i < recs@.len() ==> #[trigger] recs@[i].decodes(drained(old(self)@)[i])
                },
                Err(e) => final(self)@ == old(self)@ && header_error(left(old(self)@), e),
            },
    {
        let ghost s = self.buf@;
        let mut out: Vec<Record> = Vec::new();
        let mut pos: usize = 0;
        assert(s.skip(0) =~= s);
        while pos <= self.buf.len() && self.buf.len() - pos >= RECORD_LEN
            invariant
                self.buf@ == s,
                pos <= s.len(),
                left(s.skip(pos as int)) == left(s),
                out@.len() + drained(s.skip(pos as int)).len() == drained(s).len(),
                forall|i: int| 0 <= i < out@.len() ==> #[trigger] out@[i].decodes(drained(s)[i]),
                forall|j: int|
                    0 <= j < drained(s.skip(pos as int)).len() ==> #[trigger] drained(
                        s.skip(pos as int),
                    )[j] == drained(s)[out@.len() + j],
            decreases s.len() - pos,
        {
            let ghost t = s.skip(pos as int);
            let rest = slice_subrange(self.buf.as_slice(), pos, self.buf.len());
            assert(rest@ =~= t);
            match parse_header(rest) {
                Ok(h) => {
                    let payload = slice_to_vec(
                        slice_subrange(self.buf.as_slice(), pos + 8, pos + RECORD_LEN),
                    );
                    proof {
                        lemma_frame_prefix(t);
                        assert(t.skip(RECORD_LEN as int) =~= s.skip(pos + RECORD_LEN));
                        assert(drained(t)[0] == t.take(RECORD_LEN as int));
                        assert(payload@ =~= t.take(RECORD_LEN as int).subrange(8, RECORD_LEN as int));
                    }
                    let rec = Record { header: h, payload };
                    assert(rec.decodes(drained(t)[0]));
                    out.push(rec);
                    pos = pos + RECORD_LEN;
                    proof {
                        assert forall|j: int|
                            0 <= j < drained(s.skip(pos as int)).len() implies #[trigger] drained(
                            s.skip(pos as int),
                        )[j] == drained(s)[out@.len() + j] by {
                            assert(drained(s.skip(pos as int))[j] == drained(t)[j + 1]);
                        }
                    }
                },
                Err(e) => {
                    assert(left(t) == t);
                    return Err(e);
                },
            }
        }
        let ghost t = s.skip(pos as int);
        assert(!frame_ok(t));
        let tail = self.buf.split_off(pos);
        self.buf = tail;
        assert(self.buf@ =~= t);
        Ok(out)
    }
}

} // verus!
