use kalico_motion::protocol::bootstrap::{
    decode_identify_response, encode_identify, BootstrapDecodeError, IdentifyResponse,
    MessageHeader, IDENTIFY_RESPONSE_BODY_LEN,
};
use kalico_motion::protocol::result_codes;

#[test]
fn result_codes_are_stable() {
    assert_eq!(result_codes::OK, 0);
    assert_eq!(result_codes::RING_FULL, -309);
    assert_eq!(result_codes::STREAM_HALTED, -142);
    assert_eq!(result_codes::EC_PIECES_WHILE_HALTED, -315);
}

fn response() -> IdentifyResponse {
    let mut build_hash = [0u8; 20];
    build_hash[19] = 7;
    let mut schema_hash = [0u8; 32];
    schema_hash[0] = 9;
    IdentifyResponse {
        proto_version: 1,
        firmware_ver: 0x0102_0304,
        build_hash,
        schema_hash,
        reset_epoch: 5,
        capabilities: 0x0807_0605_0403_0201,
        mcu_serial: [3; 12],
    }
}

fn same(a: &IdentifyResponse, b: &IdentifyResponse) -> bool {
    a.encode_body_to_array() == b.encode_body_to_array()
}

#[test]
fn an_encoded_response_is_decoded_back() {
    let sent = response();
    let mut body = vec![0xEE];
    sent.encode_body(&mut body);
    assert_eq!(body.len(), 1 + IDENTIFY_RESPONSE_BODY_LEN);
    assert_eq!(&body[1..], &sent.encode_body_to_array()[..]);
    let read = IdentifyResponse::decode_body(&body[1..]).unwrap();
    assert_eq!(read.firmware_ver, 0x0102_0304);
    assert_eq!(read.capabilities, 0x0807_0605_0403_0201);
    assert_eq!(read.mcu_serial, [3; 12]);
    assert!(same(&read, &sent));
}

#[test]
fn a_body_of_the_wrong_length_is_refused() {
    match IdentifyResponse::decode_body(&[0; 80]) {
        Err(error) => {
            let BootstrapDecodeError::WrongLength { expected, got } = &error;
            assert_eq!((*expected, *got), (81, 80));
            assert!(error.message().contains("81"));
        }
        Ok(_) => panic!("a short body was decoded"),
    }
}

#[test]
fn an_identify_message_is_its_header_and_version() {
    let message = encode_identify([1, 2, 3, 4, 5, 6, 7], 1);
    assert_eq!(message, vec![1, 2, 3, 4, 5, 6, 7, 1]);
}

#[test]
fn only_an_identify_response_is_decoded() {
    let sent = response();
    let mut payload = vec![0u8; 7];
    sent.encode_body(&mut payload);
    let header = MessageHeader {
        kind_raw: 0x21,
        correlation_id: 77,
    };
    let (correlation, read) = decode_identify_response(&payload, Some(header), 0x21).unwrap();
    assert_eq!(correlation, 77);
    assert!(same(&read, &sent));
    assert!(decode_identify_response(&payload, Some(header), 0x22).is_none());
    assert!(decode_identify_response(&payload, None, 0x21).is_none());
    assert!(decode_identify_response(&payload[..80], Some(header), 0x21).is_none());
}
