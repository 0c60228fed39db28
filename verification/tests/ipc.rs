use uuid::Uuid;

use warp_common::ipc::{
    decode_frame, decode_frame_length, encode_frame, ConnectionAddress, FrameError, Request,
    Response, ServiceId,
};

// --- ConnectionAddress ---

#[test]
fn connection_address_new_contains_warp_prefix() {
    let addr = ConnectionAddress::new();
    assert!(addr.0.starts_with("/tmp/warp-ipc-"));
    assert!(addr.0.ends_with(".sock"));
}

#[test]
fn connection_address_holds_a_version_4_uuid() {
    let addr = ConnectionAddress::new();
    let uuid_text = &addr.0["/tmp/warp-ipc-".len()..addr.0.len() - ".sock".len()];
    let u = Uuid::parse_str(uuid_text).unwrap();
    assert_eq!(u.get_version_num(), 4);
    assert_eq!((u.as_u128() >> 62) & 0x3, 2);
    let r = Request::new("s".to_string(), vec![]);
    assert_eq!((r.id() >> 76) & 0xf, 4);
    assert_eq!((r.id() >> 62) & 0x3, 2);
}

#[test]
fn connection_address_display() {
    let addr = ConnectionAddress::from("/tmp/test.sock".to_string());
    assert_eq!(addr.to_string(), "/tmp/test.sock");
}

#[test]
fn connection_address_from_string() {
    let addr = ConnectionAddress::from("/tmp/my.sock".to_string());
    assert_eq!(addr.0, "/tmp/my.sock");
}

// --- Request ---

#[test]
fn request_new_generates_unique_ids() {
    let r1 = Request::new("svc1".to_string(), vec![1, 2, 3]);
    let r2 = Request::new("svc1".to_string(), vec![1, 2, 3]);
    assert_ne!(r1.id(), r2.id());
}

#[test]
fn request_preserves_service_id_and_bytes() {
    let svc: ServiceId = "my_service".to_string();
    let data = vec![10, 20, 30];
    let req = Request::new(svc.clone(), data.clone());
    assert_eq!(req.service_id, svc);
    assert_eq!(req.bytes, data);
}

// --- Response ---

#[test]
fn response_success_has_correct_fields() {
    let req_id = Uuid::new_v4().as_u128();
    let svc: ServiceId = "my_service".to_string();
    let resp = Response::success(req_id, svc.clone(), vec![42]);
    match resp {
        Response::Success {
            request_id,
            service_id,
            bytes,
        } => {
            assert_eq!(request_id, req_id);
            assert_eq!(service_id, svc);
            assert_eq!(bytes, vec![42]);
        }
        _ => panic!("Expected Success variant"),
    }
}

#[test]
fn response_failure_has_correct_fields() {
    let req_id = Uuid::new_v4().as_u128();
    let resp = Response::failure(req_id, "something went wrong".to_string());
    match resp {
        Response::Failure {
            request_id,
            error_message,
        } => {
            assert_eq!(request_id, req_id);
            assert_eq!(error_message, "something went wrong");
        }
        _ => panic!("Expected Failure variant"),
    }
}

// --- framing ---

#[test]
fn frame_is_big_endian_length_then_payload() {
    let payload = vec![1u8, 2, 3, 4, 5];
    let frame = encode_frame(&payload);
    let mut expected = payload.len().to_be_bytes().to_vec();
    expected.extend_from_slice(&payload);
    assert_eq!(frame, expected);
    assert_eq!(decode_frame_length(&frame[..8]), 5);
}

#[test]
fn frame_roundtrip_with_trailing_bytes() {
    let payload = b"hello world".to_vec();
    let mut buf = encode_frame(&payload);
    buf.extend_from_slice(&[9, 9, 9]);
    let (decoded, used) = decode_frame(&buf).unwrap();
    assert_eq!(decoded, payload);
    assert_eq!(used, 8 + payload.len());
}

#[test]
fn frame_of_empty_payload() {
    let frame = encode_frame(&[]);
    assert_eq!(frame, vec![0u8; 8]);
    assert_eq!(decode_frame(&frame).unwrap(), (vec![], 8));
}

#[test]
fn frame_header_without_payload_is_incomplete() {
    let payload = b"test".to_vec();
    let frame = encode_frame(&payload);
    assert_eq!(decode_frame(&frame[..8]), Err(FrameError::IncompletePayload));
    assert_eq!(decode_frame(&frame[..11]), Err(FrameError::IncompletePayload));
    assert_eq!(decode_frame(&frame[..3]), Err(FrameError::IncompleteHeader));
    assert_eq!(decode_frame(&[]), Err(FrameError::IncompleteHeader));
}

#[test]
fn response_request_id_of_both_variants() {
    assert_eq!(Response::success(7, "s".to_string(), vec![]).request_id(), 7);
    assert_eq!(Response::failure(8, "e".to_string()).request_id(), 8);
}
