//! The framing of one generation as bytes.
//!
//! Layout, every integer big-endian:
//!
//! | bytes            | field                              |
//! |------------------|------------------------------------|
//! | 4                | header: version                    |
//! | 8                | header: event count                |
//! | 8                | header: timestamp resolution       |
//! | 4                | header: size                       |
//! | 4                | header: record type                |
//! | 16               | header: cipher key                 |
//! | 8                | number of events that follow, `n`  |
//! | 9 each, `n` times| event: timestamp (8), polarity (1) |
//! | 2                | settings: websocket port           |
//! | 2                | settings: http port                |
//! | 8                | length of the host in bytes, `m`   |
//! | `m`              | settings: host, as UTF-8           |
//!
//! The first 44 bytes are the header's own fixed-width framing, which
//! `Header::write` and `Header::read` also offer on its own. A polarity is the
//! byte 0 or 1. Nothing may follow the host.

use crate::error::DatError;
use crate::record::{Event, Header, HeaderView, RecordView, Settings, SettingsView, record_view};
use crate::wire::{
    be_bytes, be_value, get_u16, get_u32, get_u64, lemma_be_bytes_len, lemma_be_bytes_of_value,
    lemma_be_value_of_bytes, lemma_pow256_widths, put_u16, put_u32, put_u64,
};
use vstd::prelude::*;
use vstd::slice::{slice_subrange, slice_to_vec};
use vstd::utf8::{
    decode_utf8, decode_utf8_encode_utf8, encode_utf8, encode_utf8_decode_utf8,
    encode_utf8_valid_utf8, valid_utf8,
};

verus! {

/// Length of a framed header.
pub const HEADER_LEN: usize = 44;

/// Length of a framed event.
pub const EVENT_LEN: usize = 9;

/// Where the first framed event starts: after the header and the count.
pub const EVENTS_AT: usize = 52;

/// Length of the shortest framed generation: no events and an empty host.
pub const MIN_RECORD_LEN: usize = 64;

impl RecordView {
    /// What holds of every generation that fits in memory: the key has its 16
    /// bytes, and the two lengths that the framing writes fit in 64 bits.
    pub open spec fn wf(self) -> bool {
        &&& self.header.cipher_key.len() == 16
        &&& self.events.len() <= u64::MAX
        &&& encode_utf8(self.settings.host).len() <= u64::MAX
    }
}

/// The framing of a header.
pub open spec fn header_bytes(header: HeaderView) -> Seq<u8> {
    be_bytes(header.version as nat, 4) + be_bytes(header.event_count as nat, 8) + be_bytes(
        header.timestamp_resolution as nat,
        8,
    ) + be_bytes(header.size as nat, 4) + be_bytes(header.record_type as nat, 4)
        + header.cipher_key
}

/// The byte that stands for a polarity.
pub open spec fn flag_byte(polarity: bool) -> u8 {
    if polarity {
        1
    } else {
        0
    }
}

/// The framing of one event.
pub open spec fn event_bytes(event: Event) -> Seq<u8> {
    be_bytes(event.timestamp as nat, 8).push(flag_byte(event.polarity))
}

/// The framing of a sequence of events: one after the other, in order.
pub open spec fn events_bytes(events: Seq<Event>) -> Seq<u8>
    decreases events.len(),
{
    if events.len() == 0 {
        Seq::empty()
    } else {
        events_bytes(events.drop_last()) + event_bytes(events.last())
    }
}

/// The framing of the settings.
pub open spec fn settings_bytes(settings: SettingsView) -> Seq<u8> {
    let host = encode_utf8(settings.host);
    be_bytes(settings.websocket_port as nat, 2) + be_bytes(settings.http_port as nat, 2)
        + be_bytes(host.len(), 8) + host
}

/// The framing of a generation: header, number of events, events, settings.
pub open spec fn record_bytes(record: RecordView) -> Seq<u8> {
    header_bytes(record.header) + be_bytes(record.events.len(), 8) + events_bytes(record.events)
        + settings_bytes(record.settings)
}

/// The header that the first 44 bytes of `bytes` frame.
pub open spec fn header_at(bytes: Seq<u8>) -> HeaderView {
    HeaderView {
        version: be_value(bytes.subrange(0, 4)) as u32,
        event_count: be_value(bytes.subrange(4, 12)) as u64,
        timestamp_resolution: be_value(bytes.subrange(12, 20)) as u64,
        size: be_value(bytes.subrange(20, 24)) as u32,
        record_type: be_value(bytes.subrange(24, 28)) as u32,
        cipher_key: bytes.subrange(28, 44),
    }
}

/// Where the framing of event number `index` starts in a framed generation.
pub open spec fn event_offset(index: int) -> int {
    52 + 9 * index
}

/// The polarity byte of event number `index` in a framed generation.
pub open spec fn flag_at(bytes: Seq<u8>, index: int) -> u8 {
    bytes[event_offset(index) + 8]
}

/// Event number `index` of a framed generation.
pub open spec fn event_at(bytes: Seq<u8>, index: int) -> Event {
    Event {
        timestamp: be_value(bytes.subrange(event_offset(index), event_offset(index) + 8)) as u64,
        polarity: flag_at(bytes, index) == 1,
    }
}

/// The first `count` events of a framed generation.
pub open spec fn events_at(bytes: Seq<u8>, count: nat) -> Seq<Event> {
    Seq::new(count, |index: int| event_at(bytes, index))
}

/// The settings that `bytes` frame from offset `at` to their end.
pub open spec fn settings_at(bytes: Seq<u8>, at: int) -> SettingsView {
    SettingsView {
        websocket_port: be_value(bytes.subrange(at, at + 2)) as u16,
        http_port: be_value(bytes.subrange(at + 2, at + 4)) as u16,
        host: decode_utf8(bytes.subrange(at + 12, bytes.len() as int)),
    }
}

/// The generation that `bytes` frame, if they frame one.
///
/// They do when they are long enough for the header, the count, the events
/// that the count announces and the fixed part of the settings; every
/// polarity byte is 0 or 1; the host's length field says exactly how many
/// bytes are left; and those bytes are UTF-8.
pub open spec fn parse_record(bytes: Seq<u8>) -> Option<RecordView> {
    let count = be_value(bytes.subrange(44, 52));
    let fixed_end = event_offset(count as int) + 12;
    if bytes.len() < 64 || fixed_end > bytes.len() {
        None
    } else if exists|index: int| 0 <= index < count && #[trigger] flag_at(bytes, index) > 1 {
        None
    } else if be_value(bytes.subrange(fixed_end - 8, fixed_end)) != bytes.len() - fixed_end {
        None
    } else if !valid_utf8(bytes.subrange(fixed_end, bytes.len() as int)) {
        None
    } else {
        Some(
            RecordView {
                header: header_at(bytes),
                events: events_at(bytes, count),
                settings: settings_at(bytes, fixed_end - 12),
            },
        )
    }
}

/// A framed header is 44 bytes long.
pub proof fn lemma_header_bytes_len(header: HeaderView)
    requires
        header.cipher_key.len() == 16,
    ensures
        header_bytes(header).len() == 44,
{
    lemma_be_bytes_len(header.version as nat, 4);
    lemma_be_bytes_len(header.event_count as nat, 8);
    lemma_be_bytes_len(header.timestamp_resolution as nat, 8);
    lemma_be_bytes_len(header.size as nat, 4);
    lemma_be_bytes_len(header.record_type as nat, 4);
}

/// Reading a framed header gives the header back, whatever follows it.
pub proof fn lemma_header_at_of_bytes(header: HeaderView, tail: Seq<u8>)
    requires
        header.cipher_key.len() == 16,
    ensures
        header_at(header_bytes(header) + tail) == header,
{
    let bytes = header_bytes(header) + tail;
    lemma_pow256_widths();
    lemma_be_bytes_len(header.version as nat, 4);
    lemma_be_bytes_len(header.event_count as nat, 8);
    lemma_be_bytes_len(header.timestamp_resolution as nat, 8);
    lemma_be_bytes_len(header.size as nat, 4);
    lemma_be_bytes_len(header.record_type as nat, 4);
    lemma_be_value_of_bytes(header.version as nat, 4);
    lemma_be_value_of_bytes(header.event_count as nat, 8);
    lemma_be_value_of_bytes(header.timestamp_resolution as nat, 8);
    lemma_be_value_of_bytes(header.size as nat, 4);
    lemma_be_value_of_bytes(header.record_type as nat, 4);
    assert(bytes.subrange(0, 4) =~= be_bytes(header.version as nat, 4));
    assert(bytes.subrange(4, 12) =~= be_bytes(header.event_count as nat, 8));
    assert(bytes.subrange(12, 20) =~= be_bytes(header.timestamp_resolution as nat, 8));
    assert(bytes.subrange(20, 24) =~= be_bytes(header.size as nat, 4));
    assert(bytes.subrange(24, 28) =~= be_bytes(header.record_type as nat, 4));
    assert(bytes.subrange(28, 44) =~= header.cipher_key);
}

/// Framing the header that 44 bytes spell gives those bytes back.
pub proof fn lemma_header_bytes_of_at(bytes: Seq<u8>)
    requires
        bytes.len() >= 44,
    ensures
        header_bytes(header_at(bytes)) == bytes.subrange(0, 44),
        header_at(bytes).cipher_key.len() == 16,
{
    lemma_pow256_widths();
    lemma_be_bytes_of_value(bytes.subrange(0, 4));
    lemma_be_bytes_of_value(bytes.subrange(4, 12));
    lemma_be_bytes_of_value(bytes.subrange(12, 20));
    lemma_be_bytes_of_value(bytes.subrange(20, 24));
    lemma_be_bytes_of_value(bytes.subrange(24, 28));
    assert(header_bytes(header_at(bytes)) =~= bytes.subrange(0, 44));
}

/// Framed events take nine bytes each.
pub proof fn lemma_events_bytes_len(events: Seq<Event>)
    ensures
        events_bytes(events).len() == 9 * events.len(),
    decreases events.len(),
{
    if events.len() > 0 {
        lemma_events_bytes_len(events.drop_last());
        lemma_be_bytes_len(events.last().timestamp as nat, 8);
    }
}

/// Event number `index` is framed in the nine bytes from `9 * index` on.
pub proof fn lemma_events_bytes_index(events: Seq<Event>, index: int)
    requires
        0 <= index < events.len(),
    ensures
        events_bytes(events).len() == 9 * events.len(),
        events_bytes(events).subrange(9 * index, 9 * index + 9) == event_bytes(events[index]),
    decreases events.len(),
{
    let front = events.drop_last();
    lemma_events_bytes_len(events);
    lemma_events_bytes_len(front);
    lemma_be_bytes_len(events.last().timestamp as nat, 8);
    if index == events.len() - 1 {
        assert(events_bytes(events).subrange(9 * index, 9 * index + 9) =~= event_bytes(
            events.last(),
        ));
    } else {
        lemma_events_bytes_index(front, index);
        assert(events_bytes(events).subrange(9 * index, 9 * index + 9) =~= events_bytes(
            front,
        ).subrange(9 * index, 9 * index + 9));
    }
}

/// Reading framed events gives the events back, whatever stands after them.
pub proof fn lemma_events_at_of_bytes(head: Seq<u8>, events: Seq<Event>, tail: Seq<u8>)
    requires
        head.len() == 52,
    ensures
        events_at(head + events_bytes(events) + tail, events.len()) == events,
        forall|index: int|
            0 <= index < events.len() ==> #[trigger] flag_at(
                head + events_bytes(events) + tail,
                index,
            ) <= 1,
{
    let framed = events_bytes(events);
    let bytes = head + framed + tail;
    lemma_pow256_widths();
    lemma_events_bytes_len(events);
    assert forall|index: int| 0 <= index < events.len() implies event_at(bytes, index)
        == events[index] && #[trigger] flag_at(bytes, index) <= 1 by {
        let event = events[index];
        lemma_events_bytes_index(events, index);
        lemma_be_bytes_len(event.timestamp as nat, 8);
        lemma_be_value_of_bytes(event.timestamp as nat, 8);
        let slot = framed.subrange(9 * index, 9 * index + 9);
        assert(slot == event_bytes(event));
        assert(bytes.subrange(event_offset(index), event_offset(index) + 8) =~= slot.subrange(
            0,
            8,
        ));
        assert(slot.subrange(0, 8) =~= be_bytes(event.timestamp as nat, 8));
        assert(bytes[event_offset(index) + 8] == slot[8]);
    }
    assert(events_at(bytes, events.len()) =~= events);
}

/// Framing the events that the slots of `bytes` spell gives those slots back.
pub proof fn lemma_events_bytes_of_at(bytes: Seq<u8>, count: nat)
    requires
        event_offset(count as int) <= bytes.len(),
        forall|index: int| 0 <= index < count ==> #[trigger] flag_at(bytes, index) <= 1,
    ensures
        events_bytes(events_at(bytes, count)) == bytes.subrange(52, event_offset(count as int)),
    decreases count,
{
    if count == 0 {
        assert(bytes.subrange(52, 52) =~= Seq::<u8>::empty());
    } else {
        let fewer = (count - 1) as nat;
        let at = event_offset(fewer as int);
        lemma_events_bytes_of_at(bytes, fewer);
        lemma_pow256_widths();
        lemma_be_bytes_of_value(bytes.subrange(at, at + 8));
        assert(events_at(bytes, count).drop_last() =~= events_at(bytes, fewer));
        assert(events_at(bytes, count).last() == event_at(bytes, fewer as int));
        assert(flag_at(bytes, fewer as int) <= 1);
        assert(event_bytes(event_at(bytes, fewer as int)) =~= bytes.subrange(at, at + 9));
        assert(bytes.subrange(52, at) + bytes.subrange(at, at + 9) =~= bytes.subrange(
            52,
            event_offset(count as int),
        ));
    }
}

/// Decoding inverts encoding: the framing of a generation parses, and parses
/// to that generation.
pub proof fn lemma_parse_of_record_bytes(record: RecordView)
    requires
        record.wf(),
    ensures
        parse_record(record_bytes(record)) == Some(record),
{
    let head = header_bytes(record.header);
    let count = be_bytes(record.events.len(), 8);
    let framed = events_bytes(record.events);
    let host = encode_utf8(record.settings.host);
    let tail = settings_bytes(record.settings);
    let bytes = record_bytes(record);
    let at = event_offset(record.events.len() as int);
    lemma_pow256_widths();
    lemma_header_bytes_len(record.header);
    lemma_be_bytes_len(record.events.len(), 8);
    lemma_events_bytes_len(record.events);
    lemma_be_bytes_len(record.settings.websocket_port as nat, 2);
    lemma_be_bytes_len(record.settings.http_port as nat, 2);
    lemma_be_bytes_len(host.len(), 8);
    assert(bytes.len() == 64 + 9 * record.events.len() + host.len());

    assert(bytes.subrange(44, 52) =~= count);
    lemma_be_value_of_bytes(record.events.len(), 8);

    assert(bytes =~= head + (count + framed + tail));
    lemma_header_at_of_bytes(record.header, count + framed + tail);

    assert(bytes =~= (head + count) + framed + tail);
    lemma_events_at_of_bytes(head + count, record.events, tail);

    assert(bytes.subrange(at, at + 2) =~= be_bytes(record.settings.websocket_port as nat, 2));
    lemma_be_value_of_bytes(record.settings.websocket_port as nat, 2);
    assert(bytes.subrange(at + 2, at + 4) =~= be_bytes(record.settings.http_port as nat, 2));
    lemma_be_value_of_bytes(record.settings.http_port as nat, 2);
    assert(bytes.subrange(at + 4, at + 12) =~= be_bytes(host.len(), 8));
    lemma_be_value_of_bytes(host.len(), 8);
    assert(bytes.subrange(at + 12, bytes.len() as int) =~= host);
    encode_utf8_valid_utf8(record.settings.host);
    encode_utf8_decode_utf8(record.settings.host);
    assert(settings_at(bytes, at) == record.settings);
}

/// Encoding inverts decoding: bytes that parse are the framing of what they
/// parse to, byte for byte. No other bytes decode to that generation, and
/// nothing may trail it.
pub proof fn lemma_record_bytes_of_parse(bytes: Seq<u8>)
    requires
        parse_record(bytes) is Some,
    ensures
        parse_record(bytes)->0.wf(),
        record_bytes(parse_record(bytes)->0) == bytes,
{
    let record = parse_record(bytes)->0;
    let count = be_value(bytes.subrange(44, 52));
    let at = event_offset(count as int);
    let host = bytes.subrange(at + 12, bytes.len() as int);
    lemma_pow256_widths();
    lemma_be_bytes_of_value(bytes.subrange(44, 52));
    lemma_header_bytes_of_at(bytes);
    lemma_events_bytes_of_at(bytes, count);
    lemma_be_bytes_of_value(bytes.subrange(at, at + 2));
    lemma_be_bytes_of_value(bytes.subrange(at + 2, at + 4));
    lemma_be_bytes_of_value(bytes.subrange(at + 4, at + 12));
    decode_utf8_encode_utf8(host);
    assert(settings_bytes(record.settings) =~= bytes.subrange(at, bytes.len() as int));
    assert(record_bytes(record) =~= bytes);
}

/// Bytes that do not parse are the framing of no generation.
pub proof fn lemma_unparsed_frames_nothing(bytes: Seq<u8>)
    requires
        parse_record(bytes) is None,
    ensures
        forall|record: RecordView| record.wf() ==> #[trigger] record_bytes(record) != bytes,
{
    assert forall|record: RecordView| record.wf() implies #[trigger] record_bytes(record)
        != bytes by {
        lemma_parse_of_record_bytes(record);
    }
}

/// `String::from_utf8`: it succeeds exactly on valid UTF-8, and the string it
/// gives then has the given bytes as its UTF-8 encoding.
#[verifier::external_body]
fn text_from_utf8(bytes: Vec<u8>) -> (text: Result<String, std::string::FromUtf8Error>)
    ensures
        text is Ok <==> valid_utf8(bytes@),
        text matches Ok(s) ==> encode_utf8(s@) == bytes@,
{
    String::from_utf8(bytes)
}

/// The error of `String::from_utf8`, carried through untouched.
#[verifier::external_type_specification]
#[verifier::external_body]
pub struct ExFromUtf8Error(std::string::FromUtf8Error);

/// The generation that a decoded triple stands for.
pub open spec fn triple_view(triple: (Header, Vec<Event>, Settings)) -> RecordView {
    record_view(triple.0, triple.1@, triple.2)
}

impl Header {
    /// Appends the header's fixed-width framing, 44 bytes, to `writer`.
    pub fn write(&self, writer: &mut Vec<u8>)
        ensures
            final(writer)@ == old(writer)@ + header_bytes(self@),
            final(writer)@.len() == old(writer)@.len() + 44,
    {
        put_u32(writer, self.version);
        put_u64(writer, self.event_count);
        put_u64(writer, self.timestamp_resolution);
        put_u32(writer, self.size);
        put_u32(writer, self.record_type);
        writer.extend_from_slice(self.cipher_key.as_slice());
        assert(writer@ =~= old(writer)@ + header_bytes(self@));
    }

    /// Reads a header from the first 44 bytes of `reader`. What follows them
    /// is not looked at; fewer than 44 bytes are a framing error.
    pub fn read(reader: &[u8]) -> (r: Result<Header, DatError>)
        ensures
            r is Err <==> reader@.len() < 44,
            r matches Err(e) ==> e == DatError::FramingError,
            r matches Ok(header) ==> header@ == header_at(reader@) && header_bytes(header@)
                == reader@.subrange(0, 44),
    {
        if reader.len() < HEADER_LEN {
            return Err(DatError::FramingError);
        }
        let version = get_u32(reader, 0);
        let event_count = get_u64(reader, 4);
        let timestamp_resolution = get_u64(reader, 12);
        let size = get_u32(reader, 20);
        let record_type = get_u32(reader, 24);
        let mut cipher_key = [0u8; 16];
        let mut i: usize = 0;
        while i < 16
            invariant
                i <= 16,
                reader@.len() >= 44,
                forall|k: int| 0 <= k < i ==> cipher_key@[k] == reader@[28 + k],
            decreases 16 - i,
        {
            cipher_key[i] = reader[28 + i];
            i += 1;
        }
        let header = Header {
            version,
            event_count,
            timestamp_resolution,
            size,
            record_type,
            cipher_key,
        };
        proof {
            assert(cipher_key@ =~= reader@.subrange(28, 44));
            lemma_header_bytes_of_at(reader@);
        }
        Ok(header)
    }
}

/// Frames a generation: header, then the events in order, then the settings.
/// Every value of the three types can be framed, and what comes out decodes
/// back to the generation that went in.
pub fn encode(header: &Header, events: &[Event], settings: &Settings) -> (bytes: Vec<u8>)
    ensures
        bytes@ == record_bytes(record_view(*header, events@, *settings)),
        record_view(*header, events@, *settings).wf(),
        parse_record(bytes@) == Some(record_view(*header, events@, *settings)),
{
    let mut bytes: Vec<u8> = Vec::new();
    header.write(&mut bytes);
    put_u64(&mut bytes, events.len() as u64);
    let ghost head = bytes@;
    let mut i: usize = 0;
    assert(events@.take(0) =~= Seq::<Event>::empty());
    while i < events.len()
        invariant
            i <= events.len(),
            bytes@ == head + events_bytes(events@.take(i as int)),
        decreases events.len() - i,
    {
        let event = &events[i];
        put_u64(&mut bytes, event.timestamp);
        bytes.push(if event.polarity { 1u8 } else { 0u8 });
        proof {
            let taken = events@.take(i + 1);
            assert(taken.drop_last() =~= events@.take(i as int));
            assert(taken.last() == events@[i as int]);
            assert(bytes@ =~= head + events_bytes(taken));
        }
        i += 1;
    }
    assert(events@.take(events.len() as int) =~= events@);
    let host = settings.host.as_str().as_bytes();
    put_u16(&mut bytes, settings.websocket_port);
    put_u16(&mut bytes, settings.http_port);
    put_u64(&mut bytes, host.len() as u64);
    bytes.extend_from_slice(host);
    assert(bytes@ =~= record_bytes(record_view(*header, events@, *settings)));
    proof {
        lemma_parse_of_record_bytes(record_view(*header, events@, *settings));
    }
    bytes
}

/// Reads a generation back from its framing.
///
/// It succeeds on exactly the byte strings that `encode` can produce, and
/// gives the generation that was encoded. Bytes that are cut short, that
/// carry anything after the host, that hold a polarity other than 0 or 1, or
/// whose host is not UTF-8 are a framing error.
pub fn decode(bytes: &[u8]) -> (r: Result<(Header, Vec<Event>, Settings), DatError>)
    ensures
        r is Ok <==> parse_record(bytes@) is Some,
        r matches Ok(triple) ==> parse_record(bytes@) == Some(triple_view(triple))
            && record_bytes(triple_view(triple)) == bytes@,
        r matches Err(e) ==> e == DatError::FramingError && forall|record: RecordView|
            record.wf() ==> #[trigger] record_bytes(record) != bytes@,
{
    let len = bytes.len();
    if len < MIN_RECORD_LEN {
        proof {
            lemma_unparsed_frames_nothing(bytes@);
        }
        return Err(DatError::FramingError);
    }
    let count = get_u64(bytes, HEADER_LEN);
    if count > ((len - MIN_RECORD_LEN) / EVENT_LEN) as u64 {
        proof {
            lemma_unparsed_frames_nothing(bytes@);
        }
        return Err(DatError::FramingError);
    }
    let n = count as usize;
    let settings_start = EVENTS_AT + EVENT_LEN * n;
    let header = match Header::read(bytes) {
        Ok(header) => header,
        Err(e) => {
            return Err(e);
        },
    };
    let mut events: Vec<Event> = Vec::new();
    let mut i: usize = 0;
    while i < n
        invariant
            i <= n,
            settings_start == 52 + 9 * n,
            settings_start + 12 <= bytes@.len(),
            n == be_value(bytes@.subrange(44, 52)),
            events@ =~= events_at(bytes@, i as nat),
            forall|k: int| 0 <= k < i ==> #[trigger] flag_at(bytes@, k) <= 1,
        decreases n - i,
    {
        let at = EVENTS_AT + EVENT_LEN * i;
        let timestamp = get_u64(bytes, at);
        let flag = bytes[at + 8];
        if flag > 1 {
            proof {
                assert(flag_at(bytes@, i as int) > 1);
                lemma_unparsed_frames_nothing(bytes@);
            }
            return Err(DatError::FramingError);
        }
        events.push(Event { timestamp, polarity: flag == 1 });
        i += 1;
    }
    let websocket_port = get_u16(bytes, settings_start);
    let http_port = get_u16(bytes, settings_start + 2);
    let host_len = get_u64(bytes, settings_start + 4);
    if host_len != (len - settings_start - 12) as u64 {
        proof {
            lemma_unparsed_frames_nothing(bytes@);
        }
        return Err(DatError::FramingError);
    }
    let host_bytes = slice_to_vec(slice_subrange(bytes, settings_start + 12, len));
    match text_from_utf8(host_bytes) {
        Ok(host) => {
            let settings = Settings { websocket_port, http_port, host };
            proof {
                encode_utf8_decode_utf8(host@);
                assert(parse_record(bytes@) == Some(record_view(header, events@, settings)));
                lemma_record_bytes_of_parse(bytes@);
            }
            Ok((header, events, settings))
        },
        Err(_) => {
            proof {
                lemma_unparsed_frames_nothing(bytes@);
            }
            Err(DatError::FramingError)
        },
    }
}

} // verus!
