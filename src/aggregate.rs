use vstd::prelude::*;

use crate::error::SLError;
use crate::framer::{drained, left, Framer, Record, RECORD_LEN};
use crate::header::{header_error, TERMINAL_INFO};

verus! {

/// Assembles the text of a multi-record catalog response. The caller feeds it
/// what each read returns, decodes the payload of every record it hands out,
/// and passes the decoded text back with the record's header, until the
/// terminal sentinel has been seen.
pub struct Aggregator {
    framer: Framer,
    text: String,
    last: Option<i64>,
}

impl Aggregator {
    /// Bytes received and not yet cut into records.
    pub closed spec fn buffered(&self) -> Seq<u8> {
        self.framer@
    }

    /// The text assembled so far.
    pub closed spec fn assembled(&self) -> Seq<char> {
        self.text@
    }

    /// The header of the most recent record whose text was accepted.
    pub closed spec fn last_header(&self) -> Option<i64> {
        self.last
    }

    pub fn new() -> (r: Aggregator)
        ensures
            r.buffered() == Seq::<u8>::empty(),
            r.assembled() == Seq::<char>::empty(),
            r.last_header() is None,
    {
        Aggregator { framer: Framer::new(), text: String::new(), last: None }
    }

    /// Takes the bytes of one read and hands out the records completed by
    /// them, as `Framer::drain` does.
    pub fn absorb(&mut self, bytes: &[u8]) -> (r: Result<Vec<Record>, SLError>)
        ensures
            final(self).assembled() == old(self).assembled(),
            final(self).last_header() == old(self).last_header(),
            r is Ok <==> left(old(self).buffered() + bytes@).len() < RECORD_LEN,
            match r {
                Ok(recs) => {
                    &&& final(self).buffered() == left(old(self).buffered() + bytes@)
                    &&& recs@.len() == drained(old(self).buffered() + bytes@).len()
                    &&& forall|i: int|
                        0 <= i < recs@.len() ==> #[trigger] recs@[i].decodes(
                            drained(old(self).buffered() + bytes@)[i],
                        )
                },
                Err(e) => final(self).buffered() == old(self).buffered() + bytes@ && header_error(
                    left(old(self).buffered() + bytes@),
                    e,
                ),
            },
    {
        self.framer.feed(bytes);
        self.framer.drain()
    }

    /// Appends the decoded text of a record and notes its header.
    pub fn accept(&mut self, header: i64, text: &str)
        ensures
            final(self).assembled() == old(self).assembled() + text@,
            final(self).last_header() == Some(header),
            final(self).buffered() == old(self).buffered(),
    {
        self.text.append(text);
        self.last = Some(header);
    }

    /// The most recent accepted record carried the terminal sentinel.
    pub fn is_done(&self) -> (r: bool)
        ensures
            r == (self.last_header() == Some(TERMINAL_INFO)),
    {
        match self.last {
            Some(h) => h == TERMINAL_INFO,
            None => false,
        }
    }

    /// The assembled text.
    pub fn finish(self) -> (r: String)
        ensures
            r@ == self.assembled(),
    {
        self.text
    }
}

} // verus!
