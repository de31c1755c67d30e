use seedlink::{
    check_ack, parse_header, split_record, Aggregator, Framer, SLError, Seedlink, Session,
    SessionState, Station, Stream, StreamID, Timestamp, CONTINUATION_INFO, PAYLOAD_LEN,
    RECORD_LEN, TERMINAL_INFO,
};

fn record(field: &[u8; 6], fill: u8) -> Vec<u8> {
    let mut r = b"SL".to_vec();
    r.extend_from_slice(field);
    r.extend(std::iter::repeat(fill).take(PAYLOAD_LEN));
    r
}

fn ts(y: i32, mo: u32, d: u32, h: u32, mi: u32, s: u32) -> Timestamp {
    Timestamp::new(y, mo, d, h, mi, s).expect("valid time")
}

#[test]
fn header_without_magic_is_bad_magic() {
    for buf in [&b"XL0000FF"[..], &b"SX0000FF"[..], &b"slINFO *"[..], &b"\0\0\0\0\0\0\0\0"[..]] {
        assert!(matches!(parse_header(buf), Err(SLError::BadMagic)));
    }
}

#[test]
fn header_sentinels() {
    assert_eq!(parse_header(b"SLINFO *").unwrap(), TERMINAL_INFO);
    assert_eq!(parse_header(b"SLINFO *").unwrap(), 0);
    assert_eq!(parse_header(b"SLINFO  ").unwrap(), CONTINUATION_INFO);
    assert_eq!(parse_header(b"SLINFO  ").unwrap(), -1);
}

#[test]
fn header_non_hex_field_is_bad_sequence_number() {
    match parse_header(b"SLINFO x") {
        Err(SLError::BadSequenceNumber(f)) => assert_eq!(f, b"INFO x".to_vec()),
        other => panic!("unexpected {:?}", other),
    }
    assert!(matches!(parse_header(b"SLinfo *"), Err(SLError::BadSequenceNumber(_))));
    assert!(matches!(parse_header(b"SL-0000F"), Err(SLError::BadSequenceNumber(_))));
    assert!(matches!(parse_header(b"SL00 0FF"), Err(SLError::BadSequenceNumber(_))));
}

#[test]
fn header_hex_sequence_number() {
    assert_eq!(parse_header(b"SL0000FF").unwrap(), 255);
    assert_eq!(parse_header(b"SL0000ff").unwrap(), 255);
    assert_eq!(parse_header(b"SL000000").unwrap(), 0);
    assert_eq!(parse_header(b"SLFFFFFF").unwrap(), 0xFFFFFF);
    assert_eq!(parse_header(b"SL00A1b2rest of record").unwrap(), 0xA1B2);
}

fn framed_through(chunk: usize, records: &[Vec<u8>]) -> Vec<(i64, Vec<u8>)> {
    let stream: Vec<u8> = records.concat();
    let mut framer = Framer::new();
    let mut out = vec![];
    for piece in stream.chunks(chunk) {
        framer.feed(piece);
        for r in framer.drain().expect("valid records") {
            out.push((r.header, r.payload));
        }
        assert!(framer.pending() < RECORD_LEN);
    }
    assert_eq!(framer.pending(), 0);
    out
}

#[test]
fn framer_any_chunking_yields_records_in_order() {
    let records = vec![record(b"000001", 1), record(b"000002", 2), record(b"00000A", 3)];
    for chunk in [1usize, 7, 520, 1000] {
        let out = framed_through(chunk, &records);
        assert_eq!(out.len(), 3);
        assert_eq!(out[0], (1, vec![1u8; PAYLOAD_LEN]));
        assert_eq!(out[1], (2, vec![2u8; PAYLOAD_LEN]));
        assert_eq!(out[2], (10, vec![3u8; PAYLOAD_LEN]));
    }
}

#[test]
fn framer_holds_partial_record() {
    let rec = record(b"000007", 9);
    let mut framer = Framer::new();
    framer.feed(&rec[..519]);
    assert!(framer.drain().unwrap().is_empty());
    assert_eq!(framer.pending(), 519);
    framer.feed(&rec[519..]);
    let out = framer.drain().unwrap();
    assert_eq!(out.len(), 1);
    assert_eq!(out[0].header, 7);
    assert_eq!(framer.pending(), 0);
}

#[test]
fn framer_bad_header_takes_nothing() {
    let mut bytes = record(b"000001", 1);
    bytes.extend(record(b"00000Z", 2));
    let mut framer = Framer::new();
    framer.feed(&bytes);
    assert!(matches!(framer.drain(), Err(SLError::BadSequenceNumber(_))));
    assert_eq!(framer.pending(), 2 * RECORD_LEN);
}

#[test]
fn split_record_takes_one_record() {
    let mut buf = record(b"0000FF", 5);
    buf.extend_from_slice(b"SL00");
    let rec = split_record(&mut buf).unwrap();
    assert_eq!(rec.header, 255);
    assert_eq!(rec.payload, vec![5u8; PAYLOAD_LEN]);
    assert_eq!(buf, b"SL00".to_vec());

    let mut bad = record(b"0000FF", 5);
    bad[0] = b'X';
    assert!(matches!(split_record(&mut bad), Err(SLError::BadMagic)));
    assert_eq!(bad.len(), RECORD_LEN);
}

#[test]
fn time_range_equal_times_sends_nothing() {
    let mut s = Session::new(false);
    s.hello().unwrap();
    let t = ts(2018, 1, 2, 3, 4, 5);
    assert!(matches!(s.time_range(&t, &t), Err(SLError::InvalidTimeRange)));
    assert_eq!(s.state, SessionState::Negotiating);
}

#[test]
fn time_commands() {
    let mut s = Session::new(false);
    let t0 = ts(2018, 1, 2, 3, 4, 5);
    let t1 = ts(2018, 12, 31, 23, 59, 58);
    assert_eq!(s.backfill(&t0).unwrap(), "TIME 2018,01,02,03,04,05\r\n");
    assert_eq!(
        s.time_range(&t0, &t1).unwrap(),
        "TIME 2018,01,02,03,04,05 2018,12,31,23,59,58\r\n"
    );
}

#[test]
fn select_pads_location_and_channel() {
    let mut s = Session::new(false);
    let id = StreamID::new("IU", "ANMO", "00", "BHZ");
    assert_eq!(s.select(&id).unwrap(), "SELECT 00BHZ\r\n");
    let id = StreamID::new("IU", "ANMO", "0", "HZ");
    assert_eq!(s.select(&id).unwrap(), "SELECT 0 HZ \r\n");
    let id = StreamID::new("IU", "ANMO", "100", "BHZZ");
    assert_eq!(s.select(&id).unwrap(), "SELECT 100BHZZ\r\n");
    assert_eq!(s.state, SessionState::Selecting);
}

#[test]
fn session_commands_and_states() {
    let mut s = Session::new(false);
    assert_eq!(s.state, SessionState::Connected);
    assert_eq!(s.hello().unwrap(), "HELLO\r\n");
    assert_eq!(s.state, SessionState::Negotiating);
    let id = StreamID::new("IU", "ANMO", "00", "BHZ");
    assert_eq!(s.station(&id).unwrap(), "STATION ANMO IU\r\n");
    assert_eq!(s.state, SessionState::Selecting);
    assert_eq!(s.cat().unwrap(), "CAT\r\n");
    assert_eq!(s.info_streams().unwrap(), "INFO STREAMS\r\n");
    assert_eq!(s.cmd("ANYTHING").unwrap(), "ANYTHING\r\n");
    assert_eq!(s.start().unwrap(), "END\r\n");
    assert_eq!(s.state, SessionState::Streaming);
    assert_eq!(s.data_please().unwrap(), "END\r\n");
    assert_eq!(s.bye().unwrap(), "BYE\r\n");
    assert!(s.is_closed());
    assert!(matches!(s.hello(), Err(SLError::SessionClosed)));
    assert!(matches!(s.end(), Err(SLError::SessionClosed)));
    assert_eq!(s.state, SessionState::Closed);
}

#[test]
fn acknowledgments() {
    assert_eq!(check_ack(b"OK\r\n").unwrap(), 0);
    assert!(matches!(check_ack(b"ERROR\r\n"), Err(SLError::ServerRejected)));
    match check_ack(b"OK") {
        Err(SLError::UnexpectedResponse(t)) => assert_eq!(t, "OK"),
        other => panic!("unexpected {:?}", other),
    }
    match check_ack(b"huh\xff\r\n") {
        Err(SLError::UnexpectedResponse(t)) => assert_eq!(t, "huh\u{fffd}\r\n"),
        other => panic!("unexpected {:?}", other),
    }
    let s = Session::new(true);
    assert_eq!(s.expect_ok(b"OK\r\n").unwrap(), 0);
    assert!(matches!(s.expect_ok(b"OK\r\nOK\r\n"), Err(SLError::UnexpectedResponse(_))));
}

#[test]
fn timestamps_are_checked() {
    assert!(Timestamp::new(2016, 2, 29, 0, 0, 0).is_some());
    assert!(Timestamp::new(2015, 2, 29, 0, 0, 0).is_none());
    assert!(Timestamp::new(1900, 2, 29, 0, 0, 0).is_none());
    assert!(Timestamp::new(2000, 2, 29, 0, 0, 0).is_some());
    assert!(Timestamp::new(-4, 2, 29, 0, 0, 0).is_some());
    assert!(Timestamp::new(2015, 4, 31, 0, 0, 0).is_none());
    assert!(Timestamp::new(2015, 13, 1, 0, 0, 0).is_none());
    assert!(Timestamp::new(2015, 1, 1, 24, 0, 0).is_none());
    assert!(Timestamp::new(2015, 1, 1, 0, 60, 0).is_none());
    assert!(Timestamp::new(2015, 1, 1, 0, 0, 60).is_none());
    assert!(Timestamp::new(400000, 1, 1, 0, 0, 0).is_none());
    assert!(Timestamp::new(262142, 12, 31, 23, 59, 59).is_some());
}

fn catalog() -> Seedlink {
    let anto = Station::new(
        "ANTO",
        "IU",
        "Ankara, Turkey",
        "000000",
        "FFFFFF",
        "enabled",
        vec![Stream::new("BHE", "00", "D", "2018/01/01", "2018/01/02")],
    );
    let anmo = Station::new(
        "ANMO",
        "IU",
        "Albuquerque, New Mexico",
        "000000",
        "FFFFFF",
        "enabled",
        vec![Stream::new("BHZ", "00", "D", "2018/01/01", "2018/01/02")],
    );
    Seedlink::new("SeedLink v3.1", "IRIS DMC", "2018/01/01 00:00:00", vec![anto, anmo])
}

#[test]
fn streams_are_sorted_identifiers() {
    assert_eq!(catalog().streams(), vec!["IU_ANMO_00_BHZ", "IU_ANTO_00_BHE"]);
}

#[test]
fn streams_trim_each_part() {
    let sta = Station::new(
        " ANMO ",
        "IU  ",
        "",
        "",
        "",
        "",
        vec![
            Stream::new(" LHZ", "10 ", "D", "", ""),
            Stream::new("BHZ", "  ", "D", "", ""),
        ],
    );
    assert_eq!(sta.to_string(), "IU_ANMO");
    assert_eq!(sta.stream[0].to_string(), "10_LHZ");
    let cat = Seedlink::new("", "", "", vec![sta]);
    assert_eq!(cat.streams(), vec!["IU_ANMO_10_LHZ", "IU_ANMO__BHZ"]);
    assert!(Seedlink::new("", "", "", vec![]).streams().is_empty());
}

#[test]
fn aggregation_stops_after_terminal_record() {
    let mut bytes = record(b"INFO  ", b'a');
    bytes.extend(record(b"INFO *", b'b'));
    let mut agg = Aggregator::new();
    let mut done_after = vec![];
    for piece in bytes.chunks(300) {
        for rec in agg.absorb(piece).unwrap() {
            let text = String::from_utf8(rec.payload.clone()).unwrap();
            agg.accept(rec.header, &text);
        }
        done_after.push(agg.is_done());
    }
    assert_eq!(done_after, vec![false, false, false, true]);
    let text = agg.finish();
    assert_eq!(text, "a".repeat(512) + &"b".repeat(512));
}

#[test]
fn aggregation_read_without_records_is_not_done() {
    let mut agg = Aggregator::new();
    assert!(agg.absorb(b"SLINFO").unwrap().is_empty());
    assert!(!agg.is_done());
    agg.accept(CONTINUATION_INFO, "x");
    assert!(!agg.is_done());
    assert!(agg.absorb(b"").unwrap().is_empty());
    assert!(!agg.is_done());
    agg.accept(TERMINAL_INFO, "y");
    assert!(agg.is_done());
    assert_eq!(agg.finish(), "xy");
}
