//! Interprocess protocol tests: framing and client/server handles.

use ffi::ipc::{decode_frame_len, encode_frame, frame_len_ok, IpcClient, IpcServer,
    MAX_MESSAGE_SIZE, PIPE_NAME};

#[test]
fn test_ipc_client_creation() {
    let client = IpcClient::new();
    let _ = client;
}

#[test]
fn test_ipc_client_default() {
    let client = IpcClient::default();
    let _ = client;
}

#[test]
fn test_service_not_available_when_not_running() {
    let client = IpcClient::new();
    assert!(!client.is_service_available());
}

#[test]
fn test_ipc_server_creation() {
    let server = IpcServer::new("index.db".to_string());
    assert_eq!(server.db_path, "index.db");
}

#[test]
fn test_pipe_name() {
    assert_eq!(PIPE_NAME, r"\\.\pipe\FFI_Search");
}

#[test]
fn test_encode_frame() {
    let payload = vec![1u8, 2, 3];
    let frame = encode_frame(&payload).unwrap();
    assert_eq!(frame, vec![3u8, 0, 0, 0, 1, 2, 3]);
}

#[test]
fn test_frame_roundtrip() {
    let payload: Vec<u8> = (0..=255u8).collect();
    let frame = encode_frame(&payload).unwrap();
    let len = decode_frame_len(frame[0], frame[1], frame[2], frame[3]);
    assert_eq!(len as usize, payload.len());
    assert_eq!(&frame[4..], &payload[..]);
}

#[test]
fn test_frame_len_limit() {
    assert!(frame_len_ok(0));
    assert!(frame_len_ok(MAX_MESSAGE_SIZE as u32));
    assert!(!frame_len_ok(MAX_MESSAGE_SIZE as u32 + 1));
}
