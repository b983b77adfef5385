//! The two messages that open a session: the host asks the mcu to identify itself,
//! and the mcu answers with a body whose layout never changes.
//!
//! The response body, 81 bytes:
//!
//! | bytes  | field         |                          |
//! |--------|---------------|--------------------------|
//! | 0      | proto_version |                          |
//! | 1..5   | firmware_ver  | least significant first  |
//! | 5..25  | build_hash    |                          |
//! | 25..57 | schema_hash   |                          |
//! | 57..61 | reset_epoch   | least significant first  |
//! | 61..69 | capabilities  | least significant first  |
//! | 69..81 | mcu_serial    |                          |

use crate::protocol::PER_MESSAGE_HEADER_LEN;
use crate::text::append_decimal;
use vstd::prelude::*;
use vstd::string::*;

verus! {

pub const IDENTIFY_BODY_LEN: usize = 1;

pub const IDENTIFY_RESPONSE_BODY_LEN: usize = 81;

/// An identify request with its header.
pub const BOOTSTRAP_IDENTIFY_LEN: usize = 8;

/// An identify response with its header.
pub const BOOTSTRAP_IDENTIFY_RESPONSE_LEN: usize = 88;

#[derive(Debug, Clone, Copy, PartialEq, Eq)]
pub struct IdentifyResponse {
    pub proto_version: u8,
    pub firmware_ver: u32,
    pub build_hash: [u8; 20],
    pub schema_hash: [u8; 32],
    pub reset_epoch: u32,
    pub capabilities: u64,
    pub mcu_serial: [u8; 12],
}

#[derive(Debug, Clone, Copy, PartialEq, Eq, Structural)]
pub enum BootstrapDecodeError {
    WrongLength { expected: usize, got: usize },
}

impl BootstrapDecodeError {
    pub open spec fn text(self) -> Seq<char> {
        match self {
            BootstrapDecodeError::WrongLength { expected, got } =>
                "bootstrap message wrong length: expected "@ + crate::text::decimal(
                    expected as nat,
                ) + " bytes, got "@ + crate::text::decimal(got as nat),
        }
    }

    pub fn message(&self) -> (message: String)
        ensures
            message@ == self.text(),
    {
        match self {
            BootstrapDecodeError::WrongLength { expected, got } => {
                let mut message = "bootstrap message wrong length: expected ".to_owned();
                append_decimal(&mut message, *expected as u64);
                message.append(" bytes, got ");
                append_decimal(&mut message, *got as u64);
                message
            },
        }
    }
}

/// A number in four bytes, least significant first.
pub open spec fn four_bytes(value: u32) -> Seq<u8> {
    seq![
        (value % 256) as u8,
        (value / 256 % 256) as u8,
        (value / 0x1_0000 % 256) as u8,
        (value / 0x100_0000) as u8,
    ]
}

/// A number in eight bytes, least significant first.
pub open spec fn eight_bytes(value: u64) -> Seq<u8> {
    four_bytes((value % 0x1_0000_0000) as u32) + four_bytes((value / 0x1_0000_0000) as u32)
}

/// The body of a response.
pub open spec fn body_bytes(response: IdentifyResponse) -> Seq<u8> {
    seq![response.proto_version] + four_bytes(response.firmware_ver) + response.build_hash@
        + response.schema_hash@ + four_bytes(response.reset_epoch) + eight_bytes(
        response.capabilities,
    ) + response.mcu_serial@
}

fn put_four(out: &mut Vec<u8>, value: u32)
    ensures
        final(out)@ == old(out)@ + four_bytes(value),
{
    out.push((value % 256) as u8);
    out.push((value / 256 % 256) as u8);
    out.push((value / 0x1_0000 % 256) as u8);
    out.push((value / 0x100_0000) as u8);
    assert(out@ =~= old(out)@ + four_bytes(value));
}

fn get_four(buf: &[u8], at: usize) -> (value: u32)
    requires
        at + 4 <= buf@.len(),
    ensures
        four_bytes(value) == buf@.subrange(at as int, at + 4),
{
    let (b0, b1, b2, b3): (u32, u32, u32, u32) = (
        buf[at] as u32,
        buf[at + 1] as u32,
        buf[at + 2] as u32,
        buf[at + 3] as u32,
    );
    let value: u32 = b0 + 256 * b1 + 0x1_0000 * b2 + 0x100_0000 * b3;
    assert(value % 256 == b0);
    assert(value / 256 % 256 == b1);
    assert(value / 0x1_0000 % 256 == b2);
    assert(value / 0x100_0000 == b3);
    assert(four_bytes(value) =~= buf@.subrange(at as int, at + 4));
    value
}

fn get_array<const N: usize>(buf: &[u8], at: usize) -> (array: [u8; N])
    requires
        at + N <= buf@.len(),
    ensures
        array@ == buf@.subrange(at as int, at + N),
{
    let length: usize = buf.len();
    let mut array: [u8; N] = vstd::array::array_fill_for_copy_types(0u8);
    let mut index: usize = 0;
    while index < N
        invariant
            index <= N,
            at + N <= length,
            length == buf@.len(),
            array@.len() == N,
            forall|i: int| 0 <= i < index ==> array@[i] == buf@[at + i],
        decreases N - index,
    {
        array[index] = buf[at + index];
        index += 1;
    }
    assert(array@ =~= buf@.subrange(at as int, at + N));
    array
}

impl IdentifyResponse {
    /// Appends the body.
    pub fn encode_body(&self, out: &mut Vec<u8>)
        ensures
            final(out)@ == old(out)@ + body_bytes(*self),
    {
        out.push(self.proto_version);
        put_four(out, self.firmware_ver);
        out.extend_from_slice(&self.build_hash);
        out.extend_from_slice(&self.schema_hash);
        put_four(out, self.reset_epoch);
        put_four(out, (self.capabilities % 0x1_0000_0000) as u32);
        put_four(out, (self.capabilities / 0x1_0000_0000) as u32);
        out.extend_from_slice(&self.mcu_serial);
        assert(out@ =~= old(out)@ + body_bytes(*self));
    }

    /// The body.
    pub fn encode_body_to_array(&self) -> (body: [u8; 81])
        ensures
            body@ == body_bytes(*self),
    {
        let mut out: Vec<u8> = Vec::with_capacity(IDENTIFY_RESPONSE_BODY_LEN);
        self.encode_body(&mut out);
        assert(out@ =~= body_bytes(*self));
        let body = get_array::<81>(out.as_slice(), 0);
        assert(body@ =~= body_bytes(*self));
        body
    }

    /// Reads a body. Every 81 bytes are one, and nothing else is.
    pub fn decode_body(buf: &[u8]) -> (response: Result<Self, BootstrapDecodeError>)
        ensures
            match response {
                Ok(decoded) => body_bytes(decoded) == buf@,
                Err(error) => buf@.len() != IDENTIFY_RESPONSE_BODY_LEN && error == (
                BootstrapDecodeError::WrongLength {
                    expected: IDENTIFY_RESPONSE_BODY_LEN,
                    got: buf@.len() as usize,
                }),
            },
            response is Ok <==> buf@.len() == IDENTIFY_RESPONSE_BODY_LEN,
    {
        if buf.len() != IDENTIFY_RESPONSE_BODY_LEN {
            return Err(
                BootstrapDecodeError::WrongLength {
                    expected: IDENTIFY_RESPONSE_BODY_LEN,
                    got: buf.len(),
                },
            );
        }
        let low: u32 = get_four(buf, 61);
        let high: u32 = get_four(buf, 65);
        let capabilities: u64 = low as u64 + 0x1_0000_0000 * (high as u64);
        assert(capabilities % 0x1_0000_0000 == low);
        assert(capabilities / 0x1_0000_0000 == high);
        let response = IdentifyResponse {
            proto_version: buf[0],
            firmware_ver: get_four(buf, 1),
            build_hash: get_array::<20>(buf, 5),
            schema_hash: get_array::<32>(buf, 25),
            reset_epoch: get_four(buf, 57),
            capabilities,
            mcu_serial: get_array::<12>(buf, 69),
        };
        assert(body_bytes(response) =~= buf@);
        Ok(response)
    }
}

/// The kind and correlation id of a message's header.
#[derive(Debug, Clone, Copy, PartialEq, Eq, Structural)]
pub struct MessageHeader {
    pub kind_raw: u16,
    pub correlation_id: u32,
}

/// An identify request: the message's header and the protocol version the host speaks.
pub fn encode_identify(header: [u8; 7], proto_version: u8) -> (message: Vec<u8>)
    ensures
        message@ == header@.push(proto_version),
        message@.len() == BOOTSTRAP_IDENTIFY_LEN,
{
    let mut message: Vec<u8> = Vec::with_capacity(BOOTSTRAP_IDENTIFY_LEN);
    message.extend_from_slice(&header);
    message.push(proto_version);
    assert(message@ =~= header@.push(proto_version));
    message
}

/// Reads an identify response. `header` is what the message's first bytes decode to;
/// `response_kind` is the number of the kind that answers an identification.
pub fn decode_identify_response(
    payload: &[u8],
    header: Option<MessageHeader>,
    response_kind: u16,
) -> (response: Option<(u32, IdentifyResponse)>)
    ensures
        response is Some <==> payload@.len() == BOOTSTRAP_IDENTIFY_RESPONSE_LEN && (header matches
            Some(read) && read.kind_raw == response_kind),
        response matches Some((correlation_id, decoded)) ==> header matches Some(read)
            && correlation_id == read.correlation_id && body_bytes(decoded) == payload@.skip(
            PER_MESSAGE_HEADER_LEN as int,
        ),
{
    if payload.len() != BOOTSTRAP_IDENTIFY_RESPONSE_LEN {
        return None;
    }
    let read = match header {
        Some(read) => read,
        None => {
            return None;
        },
    };
    if read.kind_raw != response_kind {
        return None;
    }
    let body = get_array::<81>(payload, PER_MESSAGE_HEADER_LEN);
    assert(body@ =~= payload@.skip(PER_MESSAGE_HEADER_LEN as int));
    match IdentifyResponse::decode_body(&body) {
        Ok(decoded) => Some((read.correlation_id, decoded)),
        Err(_) => None,
    }
}

proof fn lemma_four_bytes_determine_the_value(a: u32, b: u32)
    requires
        four_bytes(a) == four_bytes(b),
    ensures
        a == b,
{
    assert(four_bytes(a)[0] == four_bytes(b)[0]);
    assert(four_bytes(a)[1] == four_bytes(b)[1]);
    assert(four_bytes(a)[2] == four_bytes(b)[2]);
    assert(four_bytes(a)[3] == four_bytes(b)[3]);
    lemma_value_is_its_four_bytes(a);
    lemma_value_is_its_four_bytes(b);
}

proof fn lemma_value_is_its_four_bytes(v: u32)
    ensures
        v == four_bytes(v)[0] + 0x100 * four_bytes(v)[1] + 0x1_0000 * four_bytes(v)[2]
            + 0x100_0000 * four_bytes(v)[3],
{
    let high = v / 0x100;
    let higher = high / 0x100;
    assert(v == v % 0x100 + 0x100 * high);
    assert(high == high % 0x100 + 0x100 * higher);
    assert(v / 0x1_0000 == higher);
    assert(v / 0x100_0000 == higher / 0x100);
    assert(higher == higher % 0x100 + 0x100 * (higher / 0x100));
}

/// Every body has the same length.
pub proof fn law_body_length_is_frozen(response: IdentifyResponse)
    ensures
        body_bytes(response).len() == IDENTIFY_RESPONSE_BODY_LEN,
{
}

/// What is read is what was written: two responses with the same body agree in every
/// field, so decoding an encoded response gives it back.
pub proof fn law_decoding_gives_back_what_was_encoded(a: IdentifyResponse, b: IdentifyResponse)
    requires
        body_bytes(a) == body_bytes(b),
    ensures
        a.proto_version == b.proto_version,
        a.firmware_ver == b.firmware_ver,
        a.build_hash@ == b.build_hash@,
        a.schema_hash@ == b.schema_hash@,
        a.reset_epoch == b.reset_epoch,
        a.capabilities == b.capabilities,
        a.mcu_serial@ == b.mcu_serial@,
{
    let bytes = body_bytes(a);
    assert(a.proto_version == bytes[0] && b.proto_version == bytes[0]);
    assert(four_bytes(a.firmware_ver) =~= bytes.subrange(1, 5));
    assert(four_bytes(b.firmware_ver) =~= bytes.subrange(1, 5));
    lemma_four_bytes_determine_the_value(a.firmware_ver, b.firmware_ver);
    assert(a.build_hash@ =~= bytes.subrange(5, 25));
    assert(b.build_hash@ =~= bytes.subrange(5, 25));
    assert(a.schema_hash@ =~= bytes.subrange(25, 57));
    assert(b.schema_hash@ =~= bytes.subrange(25, 57));
    assert(four_bytes(a.reset_epoch) =~= bytes.subrange(57, 61));
    assert(four_bytes(b.reset_epoch) =~= bytes.subrange(57, 61));
    lemma_four_bytes_determine_the_value(a.reset_epoch, b.reset_epoch);
    let (a_low, a_high) = (
        (a.capabilities % 0x1_0000_0000) as u32,
        (a.capabilities / 0x1_0000_0000) as u32,
    );
    let (b_low, b_high) = (
        (b.capabilities % 0x1_0000_0000) as u32,
        (b.capabilities / 0x1_0000_0000) as u32,
    );
    assert(four_bytes(a_low) =~= bytes.subrange(61, 65));
    assert(four_bytes(b_low) =~= bytes.subrange(61, 65));
    lemma_four_bytes_determine_the_value(a_low, b_low);
    assert(four_bytes(a_high) =~= bytes.subrange(65, 69));
    assert(four_bytes(b_high) =~= bytes.subrange(65, 69));
    lemma_four_bytes_determine_the_value(a_high, b_high);
    assert(a.mcu_serial@ =~= bytes.subrange(69, 81));
    assert(b.mcu_serial@ =~= bytes.subrange(69, 81));
}

/// The number in four bytes, least significant first.
pub open spec fn number_at(bytes: Seq<u8>, at: int) -> int {
    bytes[at] + 256 * bytes[at + 1] + 0x1_0000 * bytes[at + 2] + 0x100_0000 * bytes[at + 3]
}

/// Four bytes hold the number they spell, least significant first.
pub proof fn law_bytes_spell_their_number(value: u32)
    ensures
        four_bytes(value).len() == 4,
        number_at(four_bytes(value), 0) == value,
{
}

/// Each field stands at its own place in the body.
pub proof fn law_fields_stand_at_their_places(response: IdentifyResponse, body: [u8; 81])
    requires
        call_ensures(IdentifyResponse::encode_body_to_array, (&response,), body),
    ensures
        body@[0] == response.proto_version,
        number_at(body@, 1) == response.firmware_ver,
        body@.subrange(5, 25) == response.build_hash@,
        body@.subrange(25, 57) == response.schema_hash@,
        number_at(body@, 57) == response.reset_epoch,
        number_at(body@, 61) + 0x1_0000_0000 * number_at(body@, 65) == response.capabilities,
        body@.subrange(69, 81) == response.mcu_serial@,
{
    lemma_body_layout(response);
}

proof fn lemma_body_layout(response: IdentifyResponse)
    ensures
        ({
            let body = body_bytes(response);
            &&& body.len() == 81
            &&& body[0] == response.proto_version
            &&& number_at(body, 1) == response.firmware_ver
            &&& body.subrange(5, 25) == response.build_hash@
            &&& body.subrange(25, 57) == response.schema_hash@
            &&& number_at(body, 57) == response.reset_epoch
            &&& number_at(body, 61) + 0x1_0000_0000 * number_at(body, 65) == response.capabilities
            &&& body.subrange(69, 81) == response.mcu_serial@
        }),
{
    let body = body_bytes(response);
    let low = (response.capabilities % 0x1_0000_0000) as u32;
    let high = (response.capabilities / 0x1_0000_0000) as u32;
    law_bytes_spell_their_number(response.firmware_ver);
    law_bytes_spell_their_number(response.reset_epoch);
    law_bytes_spell_their_number(low);
    law_bytes_spell_their_number(high);
    let version = four_bytes(response.firmware_ver);
    let epoch = four_bytes(response.reset_epoch);
    assert(body[1] == version[0] && body[2] == version[1] && body[3] == version[2] && body[4]
        == version[3]);
    assert(body[57] == epoch[0] && body[58] == epoch[1] && body[59] == epoch[2] && body[60]
        == epoch[3]);
    let (lower, upper) = (four_bytes(low), four_bytes(high));
    assert(body[61] == lower[0] && body[62] == lower[1] && body[63] == lower[2] && body[64]
        == lower[3]);
    assert(body[65] == upper[0] && body[66] == upper[1] && body[67] == upper[2] && body[68]
        == upper[3]);
    assert(body.subrange(5, 25) =~= response.build_hash@);
    assert(body.subrange(25, 57) =~= response.schema_hash@);
    assert(body.subrange(69, 81) =~= response.mcu_serial@);
}

/// A body is read exactly where it has 81 bytes, each field from its own place; else the
/// error tells both lengths.
pub proof fn law_fields_are_read_from_their_places(
    buf: &[u8],
    response: Result<IdentifyResponse, BootstrapDecodeError>,
)
    requires
        call_ensures(IdentifyResponse::decode_body, (buf,), response),
    ensures
        response is Ok <==> buf@.len() == 81,
        response matches Err(BootstrapDecodeError::WrongLength { expected, got }) ==> expected == 81
            && got == buf@.len(),
        response matches Ok(read) ==> {
            &&& buf@[0] == read.proto_version
            &&& number_at(buf@, 1) == read.firmware_ver
            &&& buf@.subrange(5, 25) == read.build_hash@
            &&& buf@.subrange(25, 57) == read.schema_hash@
            &&& number_at(buf@, 57) == read.reset_epoch
            &&& number_at(buf@, 61) + 0x1_0000_0000 * number_at(buf@, 65) == read.capabilities
            &&& buf@.subrange(69, 81) == read.mcu_serial@
        },
{
    assert(buf.len() == buf@.len());
    if let Ok(read) = response {
        lemma_body_layout(read);
    }
}

/// A response is read exactly where its kind is the one that answers and it has a header of
/// seven bytes and a body; it keeps its header's correlation id.
pub proof fn law_response_is_read_behind_its_header(
    payload: &[u8],
    header: Option<MessageHeader>,
    response_kind: u16,
    response: Option<(u32, IdentifyResponse)>,
)
    requires
        call_ensures(decode_identify_response, (payload, header, response_kind), response),
    ensures
        response is Some <==> payload@.len() == 88 && header is Some && header->0.kind_raw
            == response_kind,
        response matches Some((correlation_id, read)) ==> {
            &&& correlation_id == header->0.correlation_id
            &&& read.proto_version == payload@[7]
            &&& read.firmware_ver == number_at(payload@, 8)
            &&& read.reset_epoch == number_at(payload@, 64)
        },
{
    if let Some((correlation_id, read)) = response {
        lemma_body_layout(read);
        let body = payload@.skip(7);
        assert(body_bytes(read) == body);
        assert(body[0] == payload@[7]);
        assert(number_at(body, 1) == number_at(payload@, 8));
        assert(number_at(body, 57) == number_at(payload@, 64));
    }
}

/// An identification is its header with the version behind it; a body is written behind what
/// the buffer holds, as the array is.
pub proof fn law_identification_is_its_header_and_version(
    header: [u8; 7],
    proto_version: u8,
    message: Vec<u8>,
    response: IdentifyResponse,
    out: &mut Vec<u8>,
    body: [u8; 81],
)
    requires
        call_ensures(encode_identify, (header, proto_version), message),
        call_ensures(IdentifyResponse::encode_body, (&response, out), ()),
        call_ensures(IdentifyResponse::encode_body_to_array, (&response,), body),
    ensures
        message@.len() == 8,
        message@[7] == proto_version,
        message@.take(7) == header@,
        final(out)@.take(old(out)@.len() as int) == old(out)@,
        final(out)@.skip(old(out)@.len() as int) == body@,
        final(out)@.len() == old(out)@.len() + 81,
{
    assert(message@.take(7) =~= header@);
    assert(final(out)@.take(old(out)@.len() as int) =~= old(out)@);
    assert(final(out)@.skip(old(out)@.len() as int) =~= body@);
}

} // verus!
