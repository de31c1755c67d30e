use vstd::prelude::*;

use crate::error::SLError;
use crate::time::{format_time, timestamp_text, Timestamp};

verus! {

/// The channel a subscription targets.
#[derive(Debug, Clone)]
pub struct StreamID {
    /// Network, typically two characters.
    pub network: String,
    pub station: String,
    /// Location, e.g. 00, 10, 20.
    pub location: String,
    /// Channel, e.g. BHZ, HHE, LHN.
    pub channel: String,
}

impl StreamID {
    pub fn new(net: &str, sta: &str, loc: &str, cha: &str) -> (r: StreamID)
        ensures
            r.network@ == net@,
            r.station@ == sta@,
            r.location@ == loc@,
            r.channel@ == cha@,
    {
        StreamID {
            network: net.to_owned(),
            station: sta.to_owned(),
            location: loc.to_owned(),
            channel: cha.to_owned(),
        }
    }
}

pub open spec fn crlf() -> Seq<char> {
    seq!['\r', '\n']
}

/// `s`, followed by spaces up to `w` characters; never cut.
pub open spec fn padded(s: Seq<char>, w: nat) -> Seq<char> {
    if s.len() >= w {
        s
    } else {
        s + Seq::new((w - s.len()) as nat, |_i: int| ' ')
    }
}

pub open spec fn station_text(id: StreamID) -> Seq<char> {
    "STATION "@ + id.station@ + " "@ + id.network@
}

pub open spec fn select_text(id: StreamID) -> Seq<char> {
    "SELECT "@ + padded(id.location@, 2) + padded(id.channel@, 3)
}

pub open spec fn backfill_text(t: Timestamp) -> Seq<char> {
    "TIME "@ + timestamp_text(t)
}

pub open spec fn time_range_text(t0: Timestamp, t1: Timestamp) -> Seq<char> {
    "TIME "@ + timestamp_text(t0) + " "@ + timestamp_text(t1)
}

/// The bytes of the acknowledgment `OK`, with its line end.
pub open spec fn ok_reply() -> Seq<u8> {
    seq![0x4fu8, 0x4bu8, 0x0du8, 0x0au8]
}

/// The bytes of the refusal `ERROR`, with its line end.
pub open spec fn error_reply() -> Seq<u8> {
    seq![0x45u8, 0x52u8, 0x52u8, 0x4fu8, 0x52u8, 0x0du8, 0x0au8]
}

/// What `String::from_utf8_lossy` makes of a byte string.
pub uninterp spec fn lossy_text(b: Seq<u8>) -> Seq<char>;

/// Relies on `String::from_utf8_lossy`: the bytes read as UTF-8, each invalid
/// sequence replaced; the text depends on the bytes alone.
#[verifier::external_body]
fn lossy(b: &[u8]) -> (r: String)
    ensures
        r@ == lossy_text(b@),
{
    String::from_utf8_lossy(b).into_owned()
}

fn bytes_equal(a: &[u8], b: &[u8]) -> (r: bool)
    ensures
        r == (a@ == b@),
{
    if a.len() != b.len() {
        return false;
    }
    let mut i: usize = 0;
    while i < a.len()
        invariant
            a@.len() == b@.len(),
            i <= a@.len(),
            forall|j: int| 0 <= j < i ==> a@[j] == b@[j],
        decreases a@.len() - i,
    {
        if a[i] != b[i] {
            return false;
        }
        i = i + 1;
    }
    assert(a@ =~= b@);
    true
}

/// Reads one response to a command that the server acknowledges: `Ok(0)` on
/// `OK`, `ServerRejected` on `ERROR`, `UnexpectedResponse` with the text otherwise.
pub fn check_ack(resp: &[u8]) -> (r: Result<usize, SLError>)
    ensures
        resp@ == ok_reply() ==> r == Ok::<usize, SLError>(0),
        resp@ == error_reply() ==> r == Err::<usize, SLError>(SLError::ServerRejected),
        resp@ != ok_reply() && resp@ != error_reply() ==> match r {
            Err(SLError::UnexpectedResponse(s)) => s@ == lossy_text(resp@),
            _ => false,
        },
{
    let ok: [u8; 4] = [0x4fu8, 0x4bu8, 0x0du8, 0x0au8];
    let error: [u8; 7] = [0x45u8, 0x52u8, 0x52u8, 0x4fu8, 0x52u8, 0x0du8, 0x0au8];
    assert(ok@ =~= ok_reply());
    assert(error@ =~= error_reply());
    if bytes_equal(resp, &ok) {
        Ok(0)
    } else if bytes_equal(resp, &error) {
        Err(SLError::ServerRejected)
    } else {
        Err(SLError::UnexpectedResponse(lossy(resp)))
    }
}

fn pad(s: &str, w: usize) -> (r: String)
    ensures
        r@ == padded(s@, w as nat),
{
    let mut r = s.to_owned();
    let n = s.unicode_len();
    let mut k = n;
    while k < w
        invariant
            n == s@.len(),
            n <= k,
            k <= w || k == n,
            r@ == s@ + Seq::new((k - n) as nat, |_i: int| ' '),
        decreases w - k,
    {
        r.append(" ");
        proof {
            reveal_strlit(" ");
        }
        assert(r@ =~= s@ + Seq::new((k + 1 - n) as nat, |_i: int| ' '));
        k = k + 1;
    }
    assert(n >= w ==> r@ =~= s@);
    assert(n < w ==> k == w);
    r
}

/// Where the command/response handshake stands.
#[derive(Debug, Clone, Copy, PartialEq, Eq, Structural)]
pub enum SessionState {
    /// Connected; no command sent yet.
    Connected,
    /// `HELLO` sent; the server answers with a banner.
    Negotiating,
    /// A station or channel selection is under way.
    Selecting,
    /// `END` sent; every read from now on yields binary records.
    Streaming,
    /// `BYE` sent; no command is valid any more.
    Closed,
}

/// The protocol engine of one connection: decides what each command writes and
/// how the session moves on. The caller writes the returned text to the
/// connection and hands back what the server answers.
#[derive(Debug)]
pub struct Session {
    pub state: SessionState,
    /// Whether the caller echoes commands and responses.
    pub verbose: bool,
}

/// A command call on session `s0`, which became `s1` and returned `r`: on a
/// closed session nothing is sent; otherwise `text` with its line end is sent
/// and the session moves to `next`.
pub open spec fn issued(
    s0: Session,
    s1: Session,
    r: Result<String, SLError>,
    text: Seq<char>,
    next: SessionState,
) -> bool {
    if s0.state == SessionState::Closed {
        s1 == s0 && r == Err::<String, SLError>(SLError::SessionClosed)
    } else {
        &&& s1.state == next
        &&& s1.verbose == s0.verbose
        &&& match r {
            Ok(c) => c@ == text + crlf(),
            Err(_) => false,
        }
    }
}

impl Session {
    pub fn new(verbose: bool) -> (r: Session)
        ensures
            r.state == SessionState::Connected,
            r.verbose == verbose,
    {
        Session { state: SessionState::Connected, verbose }
    }

    pub fn set_verbose(&mut self, verbose: bool)
        ensures
            final(self).verbose == verbose,
            final(self).state == old(self).state,
    {
        self.verbose = verbose;
    }

    pub fn is_closed(&self) -> (r: bool)
        ensures
            r == (self.state == SessionState::Closed),
    {
        self.state == SessionState::Closed
    }

    fn send(&mut self, text: String, next: SessionState) -> (r: Result<String, SLError>)
        ensures
            issued(*old(self), *final(self), r, text@, next),
    {
        if self.state == SessionState::Closed {
            return Err(SLError::SessionClosed);
        }
        let mut c = text;
        c.append("\r\n");
        proof {
            reveal_strlit("\r\n");
        }
        assert(c@ =~= text@ + crlf());
        self.state = next;
        Ok(c)
    }

    /// Any command, sent as it is.
    pub fn cmd(&mut self, text: &str) -> (r: Result<String, SLError>)
        ensures
            issued(*old(self), *final(self), r, text@, old(self).state),
    {
        let st = self.state;
        self.send(text.to_owned(), st)
    }

    /// Ends the session: `BYE`.
    pub fn bye(&mut self) -> (r: Result<String, SLError>)
        ensures
            issued(*old(self), *final(self), r, "BYE"@, SessionState::Closed),
    {
        self.send("BYE".to_owned(), SessionState::Closed)
    }

    /// Asks for the list of stations: `CAT`.
    pub fn cat(&mut self) -> (r: Result<String, SLError>)
        ensures
            issued(*old(self), *final(self), r, "CAT"@, old(self).state),
    {
        let st = self.state;
        self.send("CAT".to_owned(), st)
    }

    /// Starts the handshake: `HELLO`.
    pub fn hello(&mut self) -> (r: Result<String, SLError>)
        ensures
            issued(*old(self), *final(self), r, "HELLO"@, SessionState::Negotiating),
    {
        self.send("HELLO".to_owned(), SessionState::Negotiating)
    }

    /// Ends the handshake and starts the data stream: `END`.
    pub fn end(&mut self) -> (r: Result<String, SLError>)
        ensures
            issued(*old(self), *final(self), r, "END"@, SessionState::Streaming),
    {
        self.send("END".to_owned(), SessionState::Streaming)
    }

    /// The same as `end`.
    pub fn start(&mut self) -> (r: Result<String, SLError>)
        ensures
            issued(*old(self), *final(self), r, "END"@, SessionState::Streaming),
    {
        self.end()
    }

    /// The same as `end`.
    pub fn data_please(&mut self) -> (r: Result<String, SLError>)
        ensures
            issued(*old(self), *final(self), r, "END"@, SessionState::Streaming),
    {
        self.end()
    }

    /// Asks for the catalog of streams: `INFO STREAMS`.
    pub fn info_streams(&mut self) -> (r: Result<String, SLError>)
        ensures
            issued(*old(self), *final(self), r, "INFO STREAMS"@, old(self).state),
    {
        let st = self.state;
        self.send("INFO STREAMS".to_owned(), st)
    }

    /// Selects a station: `STATION <station> <network>`; the server acknowledges it.
    pub fn station(&mut self, id: &StreamID) -> (r: Result<String, SLError>)
        ensures
            issued(*old(self), *final(self), r, station_text(*id), SessionState::Selecting),
    {
        let mut c = "STATION ".to_owned();
        c.append(id.station.as_str());
        c.append(" ");
        c.append(id.network.as_str());
        proof {
            reveal_strlit("STATION ");
            reveal_strlit(" ");
        }
        assert(c@ =~= station_text(*id));
        self.send(c, SessionState::Selecting)
    }

    /// Selects location and channel: `SELECT`, then the location padded to two
    /// characters and the channel padded to three; the server acknowledges it.
    pub fn select(&mut self, id: &StreamID) -> (r: Result<String, SLError>)
        ensures
            issued(*old(self), *final(self), r, select_text(*id), SessionState::Selecting),
    {
        let mut c = "SELECT ".to_owned();
        let loc = pad(id.location.as_str(), 2);
        let cha = pad(id.channel.as_str(), 3);
        c.append(loc.as_str());
        c.append(cha.as_str());
        proof {
            reveal_strlit("SELECT ");
        }
        assert(c@ =~= select_text(*id));
        self.send(c, SessionState::Selecting)
    }

    /// Asks for data from a time on: `TIME y,m,d,H,M,S`.
    pub fn backfill(&mut self, since: &Timestamp) -> (r: Result<String, SLError>)
        requires
            since.wf(),
        ensures
            issued(*old(self), *final(self), r, backfill_text(*since), old(self).state),
    {
        let mut c = "TIME ".to_owned();
        let t = format_time(since);
        c.append(t.as_str());
        proof {
            reveal_strlit("TIME ");
        }
        assert(c@ =~= backfill_text(*since));
        let st = self.state;
        self.send(c, st)
    }

    /// Asks for data between two times: `TIME <t0> <t1>`; the server
    /// acknowledges it. Equal times make no range: nothing is sent.
    pub fn time_range(&mut self, t0: &Timestamp, t1: &Timestamp) -> (r: Result<String, SLError>)
        requires
            t0.wf(),
            t1.wf(),
        ensures
            *t0 == *t1 ==> *final(self) == *old(self) && r == Err::<String, SLError>(
                SLError::InvalidTimeRange,
            ),
            *t0 != *t1 ==> issued(
                *old(self),
                *final(self),
                r,
                time_range_text(*t0, *t1),
                old(self).state,
            ),
    {
        if *t0 == *t1 {
            return Err(SLError::InvalidTimeRange);
        }
        let mut c = "TIME ".to_owned();
        let a = format_time(t0);
        let b = format_time(t1);
        c.append(a.as_str());
        c.append(" ");
        c.append(b.as_str());
        proof {
            reveal_strlit("TIME ");
            reveal_strlit(" ");
        }
        assert(c@ =~= time_range_text(*t0, *t1));
        let st = self.state;
        self.send(c, st)
    }

    /// Reads the server's answer to an acknowledged command, as `check_ack` does.
    pub fn expect_ok(&self, resp: &[u8]) -> (r: Result<usize, SLError>)
        ensures
            resp@ == ok_reply() ==> r == Ok::<usize, SLError>(0),
            resp@ == error_reply() ==> r == Err::<usize, SLError>(SLError::ServerRejected),
            resp@ != ok_reply() && resp@ != error_reply() ==> match r {
                Err(SLError::UnexpectedResponse(s)) => s@ == lossy_text(resp@),
                _ => false,
            },
    {
        check_ack(resp)
    }
}

} // verus!
