use dat_store::codec::{EVENTS_AT, EVENT_LEN, HEADER_LEN, MIN_RECORD_LEN};
use dat_store::{decode, encode, DatError, Event, Header, Settings, AES_IV};

fn scenario_header() -> Header {
    Header {
        version: 1,
        event_count: 1,
        timestamp_resolution: 1000,
        size: 9,
        record_type: 0,
        cipher_key: AES_IV,
    }
}

fn scenario_events() -> Vec<Event> {
    vec![Event { timestamp: 1000, polarity: true }]
}

fn scenario_settings() -> Settings {
    Settings { websocket_port: 9090, http_port: 9000, host: "10.0.0.5".to_string() }
}

fn scenario_bytes() -> Vec<u8> {
    vec![
        0x00, 0x00, 0x00, 0x01, 0x00, 0x00, 0x00, 0x00, 0x00, 0x00, 0x00, 0x01,
        0x00, 0x00, 0x00, 0x00, 0x00, 0x00, 0x03, 0xe8, 0x00, 0x00, 0x00, 0x09,
        0x00, 0x00, 0x00, 0x00, 0x61, 0x62, 0x63, 0x64, 0x65, 0x66, 0x30, 0x31,
        0x32, 0x33, 0x34, 0x35, 0x36, 0x37, 0x38, 0x39, 0x00, 0x00, 0x00, 0x00,
        0x00, 0x00, 0x00, 0x01, 0x00, 0x00, 0x00, 0x00, 0x00, 0x00, 0x03, 0xe8,
        0x01, 0x23, 0x82, 0x23, 0x28, 0x00, 0x00, 0x00, 0x00, 0x00, 0x00, 0x00,
        0x08, 0x31, 0x30, 0x2e, 0x30, 0x2e, 0x30, 0x2e, 0x35,
    ]
}

fn wide_header() -> Header {
    Header {
        version: 0xdead_beef,
        event_count: 0x0102_0304_0506_0708,
        timestamp_resolution: 0x1112_1314_1516_1718,
        size: 0x2122_2324,
        record_type: 0x3132_3334,
        cipher_key: [0, 1, 2, 3, 4, 5, 6, 7, 8, 9, 10, 11, 12, 13, 14, 15],
    }
}

fn wide_events() -> Vec<Event> {
    vec![
        Event { timestamp: 0, polarity: false },
        Event { timestamp: u64::MAX, polarity: true },
        Event { timestamp: 258, polarity: false },
    ]
}

fn wide_settings() -> Settings {
    Settings { websocket_port: 0xfffe, http_port: 1, host: "höst.例".to_string() }
}

fn wide_bytes() -> Vec<u8> {
    vec![
        0xde, 0xad, 0xbe, 0xef, 0x01, 0x02, 0x03, 0x04, 0x05, 0x06, 0x07, 0x08,
        0x11, 0x12, 0x13, 0x14, 0x15, 0x16, 0x17, 0x18, 0x21, 0x22, 0x23, 0x24,
        0x31, 0x32, 0x33, 0x34, 0x00, 0x01, 0x02, 0x03, 0x04, 0x05, 0x06, 0x07,
        0x08, 0x09, 0x0a, 0x0b, 0x0c, 0x0d, 0x0e, 0x0f, 0x00, 0x00, 0x00, 0x00,
        0x00, 0x00, 0x00, 0x03, 0x00, 0x00, 0x00, 0x00, 0x00, 0x00, 0x00, 0x00,
        0x00, 0xff, 0xff, 0xff, 0xff, 0xff, 0xff, 0xff, 0xff, 0x01, 0x00, 0x00,
        0x00, 0x00, 0x00, 0x00, 0x01, 0x02, 0x00, 0xff, 0xfe, 0x00, 0x01, 0x00,
        0x00, 0x00, 0x00, 0x00, 0x00, 0x00, 0x09, 0x68, 0xc3, 0xb6, 0x73, 0x74,
        0x2e, 0xe4, 0xbe, 0x8b,
    ]
}

#[test]
fn layout_constants() {
    assert_eq!(HEADER_LEN, 44);
    assert_eq!(EVENT_LEN, 9);
    assert_eq!(EVENTS_AT, 52);
    assert_eq!(MIN_RECORD_LEN, 64);
}

#[test]
fn header_write_gives_the_fixed_layout() {
    let mut out = Vec::new();
    wide_header().write(&mut out);
    assert_eq!(out.len(), 44);
    assert_eq!(out, wide_bytes()[..44].to_vec());
}

#[test]
fn header_write_appends() {
    let mut out = vec![7, 7];
    scenario_header().write(&mut out);
    assert_eq!(out.len(), 46);
    assert_eq!(out[..2], [7, 7]);
    assert_eq!(out[2..], scenario_bytes()[..44]);
}

#[test]
fn header_read_inverts_write() {
    let mut out = Vec::new();
    wide_header().write(&mut out);
    assert_eq!(Header::read(&out), Ok(wide_header()));
}

#[test]
fn header_read_takes_the_first_44_bytes_only() {
    assert_eq!(Header::read(&wide_bytes()), Ok(wide_header()));
    assert_eq!(Header::read(&scenario_bytes()), Ok(scenario_header()));
}

#[test]
fn header_read_rejects_short_input() {
    assert_eq!(Header::read(&[]), Err(DatError::FramingError));
    assert_eq!(Header::read(&wide_bytes()[..43]), Err(DatError::FramingError));
}

#[test]
fn encode_gives_the_documented_bytes() {
    let bytes = encode(&scenario_header(), &scenario_events(), &scenario_settings());
    assert_eq!(bytes, scenario_bytes());
}

#[test]
fn encode_keeps_event_order_and_writes_utf8() {
    let bytes = encode(&wide_header(), &wide_events(), &wide_settings());
    assert_eq!(bytes, wide_bytes());
}

#[test]
fn encode_of_nothing_but_a_header_is_the_shortest_record() {
    let settings = Settings { websocket_port: 0, http_port: 0, host: String::new() };
    let bytes = encode(&scenario_header(), &[], &settings);
    assert_eq!(bytes.len(), MIN_RECORD_LEN);
    assert_eq!(decode(&bytes), Ok((scenario_header(), Vec::new(), settings)));
}

#[test]
fn encode_does_not_look_at_the_event_count_field() {
    let mut header = scenario_header();
    header.event_count = 77;
    let bytes = encode(&header, &scenario_events(), &scenario_settings());
    assert_eq!(bytes[44..52], [0, 0, 0, 0, 0, 0, 0, 1]);
    assert_eq!(decode(&bytes), Ok((header, scenario_events(), scenario_settings())));
}

#[test]
fn decode_reads_the_documented_bytes() {
    assert_eq!(
        decode(&scenario_bytes()),
        Ok((scenario_header(), scenario_events(), scenario_settings()))
    );
    assert_eq!(decode(&wide_bytes()), Ok((wide_header(), wide_events(), wide_settings())));
}

#[test]
fn decode_inverts_encode() {
    let events: Vec<Event> =
        (0..300u64).map(|i| Event { timestamp: i * i, polarity: i % 3 == 0 }).collect();
    let bytes = encode(&wide_header(), &events, &wide_settings());
    assert_eq!(bytes.len(), 64 + 9 * 300 + 9);
    assert_eq!(decode(&bytes), Ok((wide_header(), events, wide_settings())));
}

#[test]
fn encode_inverts_decode() {
    let (header, events, settings) = decode(&wide_bytes()).unwrap();
    assert_eq!(encode(&header, &events, &settings), wide_bytes());
}

#[test]
fn decode_rejects_every_truncation() {
    let bytes = wide_bytes();
    for len in 0..bytes.len() {
        assert_eq!(decode(&bytes[..len]), Err(DatError::FramingError), "length {}", len);
    }
}

#[test]
fn decode_rejects_trailing_bytes() {
    let mut bytes = scenario_bytes();
    bytes.push(0);
    assert_eq!(decode(&bytes), Err(DatError::FramingError));
}

#[test]
fn decode_rejects_a_polarity_that_is_not_0_or_1() {
    let mut bytes = scenario_bytes();
    assert_eq!(bytes[60], 1);
    bytes[60] = 2;
    assert_eq!(decode(&bytes), Err(DatError::FramingError));
    bytes[60] = 0xff;
    assert_eq!(decode(&bytes), Err(DatError::FramingError));
    bytes[60] = 0;
    let events = vec![Event { timestamp: 1000, polarity: false }];
    assert_eq!(decode(&bytes), Ok((scenario_header(), events, scenario_settings())));
}

#[test]
fn decode_rejects_a_host_that_is_not_utf8() {
    let mut bytes = scenario_bytes();
    let last = bytes.len() - 1;
    bytes[last] = 0xff;
    assert_eq!(decode(&bytes), Err(DatError::FramingError));
    let mut cut = wide_bytes();
    let last = cut.len() - 1;
    cut[last] = 0x2e;
    assert_eq!(decode(&cut), Err(DatError::FramingError));
}

#[test]
fn decode_rejects_a_count_that_announces_too_many_events() {
    let mut bytes = scenario_bytes();
    bytes[51] = 2;
    assert_eq!(decode(&bytes), Err(DatError::FramingError));
    for i in 44..52 {
        bytes[i] = 0xff;
    }
    assert_eq!(decode(&bytes), Err(DatError::FramingError));
}

#[test]
fn decode_rejects_a_host_length_that_is_off() {
    let mut bytes = scenario_bytes();
    assert_eq!(bytes[72], 8);
    bytes[72] = 7;
    assert_eq!(decode(&bytes), Err(DatError::FramingError));
    bytes[72] = 9;
    assert_eq!(decode(&bytes), Err(DatError::FramingError));
    bytes[65] = 0x80;
    assert_eq!(decode(&bytes), Err(DatError::FramingError));
}

#[test]
fn decode_rejects_the_empty_input() {
    assert_eq!(decode(&[]), Err(DatError::FramingError));
}

#[test]
fn error_messages() {
    assert_eq!(DatError::KeyError.message(), "the key must be exactly 16 bytes long");
    assert_eq!(
        DatError::PaddingError.message(),
        "the ciphertext did not open: wrong key or damaged data"
    );
    assert_eq!(DatError::FramingError.message(), "the bytes are not the framing of a generation");
    assert_eq!(DatError::IOError.message(), "the file could not be read or written");
}
