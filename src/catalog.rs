use vstd::prelude::*;

verus! {

/// What `str::trim` returns for a text: the text without its leading and
/// trailing whitespace.
pub uninterp spec fn trimmed(s: Seq<char>) -> Seq<char>;

/// Relies on `str::trim`: the result depends on the text alone.
#[verifier::external_body]
fn trim_text(s: &str) -> (r: String)
    ensures
        r@ == trimmed(s@),
{
    s.trim().to_string()
}

/// `a` comes before `b`, or equals it, comparing characters by code point,
/// and a proper prefix first.
pub open spec fn lex_le(a: Seq<char>, b: Seq<char>) -> bool
    decreases a.len(),
{
    if a.len() == 0 {
        true
    } else if b.len() == 0 {
        false
    } else if a[0] != b[0] {
        (a[0] as u32) < (b[0] as u32)
    } else {
        lex_le(a.drop_first(), b.drop_first())
    }
}

/// Each text is at most the one after it.
pub open spec fn sorted_texts(s: Seq<Seq<char>>) -> bool {
    forall|i: int, j: int| 0 <= i < j < s.len() ==> lex_le(#[trigger] s[i], #[trigger] s[j])
}

pub open spec fn texts(v: Seq<String>) -> Seq<Seq<char>> {
    v.map_values(|s: String| s@)
}

/// Relies on `slice::sort` over `String`: ascending by `String`'s `Ord`, which
/// compares the UTF-8 bytes lexicographically and so orders characters by code
/// point; the same strings come out, each as often as it went in.
#[verifier::external_body]
fn sort_texts(v: &mut Vec<String>)
    ensures
        sorted_texts(texts(final(v)@)),
        texts(final(v)@).to_multiset() == texts(old(v)@).to_multiset(),
{
    v.sort();
}

/// One channel a station offers.
#[derive(Debug)]
pub struct Stream {
    /// Channel code, e.g. BHZ.
    pub seedname: String,
    /// Location code, e.g. 00.
    pub location: String,
    /// Data type.
    pub stype: String,
    pub begin_time: String,
    pub end_time: String,
    /// Present only when the server checks for gaps.
    pub begin_recno: Option<String>,
    pub end_recno: Option<String>,
    pub gap_check: Option<String>,
    pub gap_threshold: Option<String>,
}

/// One station and the channels it offers.
#[derive(Debug)]
pub struct Station {
    pub name: String,
    pub network: String,
    pub description: String,
    pub begin_seq: String,
    pub end_seq: String,
    /// Whether the server checks the station's streams.
    pub stream_check: String,
    pub stream: Vec<Stream>,
}

/// The catalog of stations and channels a server offers.
#[derive(Debug)]
pub struct Seedlink {
    pub software: String,
    pub organization: String,
    pub started: String,
    pub station: Vec<Station>,
}

/// `a_b`: two texts joined by an underscore.
pub open spec fn underscored(a: Seq<char>, b: Seq<char>) -> Seq<char> {
    a + seq!['_'] + b
}

/// The identifier of a channel: network, station, location and channel,
/// each trimmed, joined by underscores.
pub open spec fn channel_id(net: Seq<char>, sta: Seq<char>, loc: Seq<char>, cha: Seq<char>) -> Seq<
    char,
> {
    underscored(
        underscored(trimmed(net), trimmed(sta)),
        underscored(trimmed(loc), trimmed(cha)),
    )
}

/// The identifiers of one station's channels, in the station's order.
pub open spec fn station_ids(st: Station) -> Seq<Seq<char>> {
    st.stream@.map_values(
        |c: Stream| channel_id(st.network@, st.name@, c.location@, c.seedname@),
    )
}

/// The identifiers of every channel, station by station, in catalog order.
pub open spec fn catalog_ids(sts: Seq<Station>) -> Seq<Seq<char>>
    decreases sts.len(),
{
    if sts.len() == 0 {
        Seq::<Seq<char>>::empty()
    } else {
        catalog_ids(sts.drop_last()) + station_ids(sts.last())
    }
}

impl Stream {
    /// A stream without the gap-check fields.
    pub fn new(seedname: &str, location: &str, stype: &str, begin_time: &str, end_time: &str) -> (r:
        Stream)
        ensures
            r.seedname@ == seedname@,
            r.location@ == location@,
            r.stype@ == stype@,
            r.begin_time@ == begin_time@,
            r.end_time@ == end_time@,
            r.begin_recno is None,
            r.end_recno is None,
            r.gap_check is None,
            r.gap_threshold is None,
    {
        Stream {
            seedname: seedname.to_owned(),
            location: location.to_owned(),
            stype: stype.to_owned(),
            begin_time: begin_time.to_owned(),
            end_time: end_time.to_owned(),
            begin_recno: None,
            end_recno: None,
            gap_check: None,
            gap_threshold: None,
        }
    }

    /// `location_channel`, each part trimmed.
    pub fn to_string(&self) -> (r: String)
        ensures
            r@ == underscored(trimmed(self.location@), trimmed(self.seedname@)),
    {
        let mut r = trim_text(self.location.as_str());
        let cha = trim_text(self.seedname.as_str());
        r.append("_");
        r.append(cha.as_str());
        proof {
            reveal_strlit("_");
        }
        r
    }
}

impl Station {
    pub fn new(
        name: &str,
        network: &str,
        description: &str,
        begin_seq: &str,
        end_seq: &str,
        stream_check: &str,
        stream: Vec<Stream>,
    ) -> (r: Station)
        ensures
            r.name@ == name@,
            r.network@ == network@,
            r.description@ == description@,
            r.begin_seq@ == begin_seq@,
            r.end_seq@ == end_seq@,
            r.stream_check@ == stream_check@,
            r.stream == stream,
    {
        Station {
            name: name.to_owned(),
            network: network.to_owned(),
            description: description.to_owned(),
            begin_seq: begin_seq.to_owned(),
            end_seq: end_seq.to_owned(),
            stream_check: stream_check.to_owned(),
            stream,
        }
    }

    /// `network_name`, each part trimmed.
    pub fn to_string(&self) -> (r: String)
        ensures
            r@ == underscored(trimmed(self.network@), trimmed(self.name@)),
    {
        let mut r = trim_text(self.network.as_str());
        let sta = trim_text(self.name.as_str());
        r.append("_");
        r.append(sta.as_str());
        proof {
            reveal_strlit("_");
        }
        r
    }
}

impl Seedlink {
    pub fn new(software: &str, organization: &str, started: &str, station: Vec<Station>) -> (r:
        Seedlink)
        ensures
            r.software@ == software@,
            r.organization@ == organization@,
            r.started@ == started@,
            r.station == station,
    {
        Seedlink {
            software: software.to_owned(),
            organization: organization.to_owned(),
            started: started.to_owned(),
            station,
        }
    }

    /// The identifiers of every channel in the catalog, sorted ascending.
    pub fn streams(&self) -> (r: Vec<String>)
        ensures
            sorted_texts(texts(r@)),
            texts(r@).to_multiset() == catalog_ids(self.station@).to_multiset(),
    {
        let mut st: Vec<String> = Vec::new();
        let mut i: usize = 0;
        while i < self.station.len()
            invariant
                i <= self.station@.len(),
                texts(st@) == catalog_ids(self.station@.take(i as int)),
            decreases self.station@.len() - i,
        {
            let sta = &self.station[i];
            let sid = sta.to_string();
            let mut j: usize = 0;
            assert(self.station@.take(i + 1).drop_last() =~= self.station@.take(i as int));
            while j < sta.stream.len()
                invariant
                    i < self.station@.len(),
                    sta == self.station@[i as int],
                    j <= sta.stream@.len(),
                    sid@ == underscored(trimmed(sta.network@), trimmed(sta.name@)),
                    texts(st@) == catalog_ids(self.station@.take(i as int)) + station_ids(
                        *sta,
                    ).take(j as int),
                decreases sta.stream@.len() - j,
            {
                let cid = sta.stream[j].to_string();
                let mut id = sid.clone();
                id.append("_");
                id.append(cid.as_str());
                proof {
                    reveal_strlit("_");
                }
                assert(id@ =~= underscored(sid@, cid@));
                assert(station_ids(*sta)[j as int] == id@);
                let ghost before = texts(st@);
                st.push(id);
                assert(texts(st@) =~= before.push(id@));
                assert(station_ids(*sta).take(j + 1) =~= station_ids(*sta).take(j as int).push(
                    id@,
                ));
                j = j + 1;
            }
            assert(station_ids(*sta).take(j as int) =~= station_ids(*sta));
            i = i + 1;
        }
        assert(self.station@.take(i as int) =~= self.station@);
        sort_texts(&mut st);
        st
    }
}

} // verus!
