//! Interprocess protocol types and message framing.
//!
//! A message is a 4-byte little-endian length prefix followed by the
//! payload bytes; the framing and its size check are verified here. The
//! transport (a named pipe) and the payload encoding are the surrounding
//! program's business.

use vstd::prelude::*;

use crate::FFIError;

verus! {

/// Named pipe path of the search service.
pub const PIPE_NAME: &'static str = "\\\\.\\pipe\\FFI_Search";

/// Largest message a reader accepts, in bytes.
pub const MAX_MESSAGE_SIZE: usize = 16 * 1024 * 1024;

/// Search request from the client to the service.
#[derive(Debug, Clone)]
pub struct SearchRequest {
    /// Search query string (supports wildcards).
    pub query: String,
    /// Maximum number of results to return.
    pub limit: usize,
    /// Offset for pagination.
    pub offset: usize,
}

/// Search response from the service to the client.
#[derive(Debug, Clone)]
pub struct SearchResponse {
    /// The matching files.
    pub results: Vec<FileResult>,
    /// Total count of matches (more than `results` holds when paginated).
    pub total_count: usize,
    /// Time the search took, in milliseconds.
    pub search_time_ms: u64,
}

/// A single file returned from a search.
#[derive(Debug, Clone)]
pub struct FileResult {
    /// Catalog id of the file.
    pub id: i64,
    /// Filename (not the full path).
    pub name: String,
    /// Full reconstructed path.
    pub path: String,
    /// File size in bytes.
    pub size: i64,
    /// Last modified time as an epoch second.
    pub modified: i64,
    /// Whether this is a directory.
    pub is_dir: bool,
}

/// The little-endian bytes of a 32-bit length.
pub open spec fn spec_le_bytes(n: u32) -> Seq<u8> {
    seq![
        (n & 0xff) as u8,
        ((n >> 8) & 0xff) as u8,
        ((n >> 16) & 0xff) as u8,
        ((n >> 24) & 0xff) as u8,
    ]
}

/// Frame a payload: the 4-byte little-endian length, then the payload.
/// A payload too long for a 32-bit length is refused.
pub fn encode_frame(payload: &Vec<u8>) -> (r: Result<Vec<u8>, FFIError>)
    ensures
        payload@.len() <= u32::MAX ==> (r matches Ok(v) && v@ =~= spec_le_bytes(
            payload@.len() as u32,
        ) + payload@),
        payload@.len() > u32::MAX ==> r is Err,
{
    if payload.len() > 0xffff_ffff_usize {
        return Err(FFIError::Ipc(String::from_str("Message too large to frame")));
    }
    let len = payload.len() as u32;
    let mut frame: Vec<u8> = Vec::new();
    frame.push((len & 0xff) as u8);
    frame.push(((len >> 8) & 0xff) as u8);
    frame.push(((len >> 16) & 0xff) as u8);
    frame.push(((len >> 24) & 0xff) as u8);
    let ghost header = frame@;
    proof {
        assert(header =~= spec_le_bytes(len));
    }
    frame.extend_from_slice(payload.as_slice());
    proof {
        assert(frame@ =~= header + payload@);
    }
    Ok(frame)
}

/// Read a 32-bit length from its little-endian bytes.
pub fn decode_frame_len(b0: u8, b1: u8, b2: u8, b3: u8) -> (r: u32)
    ensures
        r == b0 + (b1 as u32) * 0x100 + (b2 as u32) * 0x10000 + (b3 as u32) * 0x1000000,
{
    (b0 as u32) + (b1 as u32) * 0x100 + (b2 as u32) * 0x10000 + (b3 as u32) * 0x1000000
}

/// Whether a decoded message length is acceptable to read.
pub fn frame_len_ok(len: u32) -> (r: bool)
    ensures
        r == (len <= MAX_MESSAGE_SIZE as u32),
{
    len <= 16777216u32
}

/// Decoding the bytes that framed a length gives the length back.
pub proof fn lemma_frame_len_roundtrip(n: u32)
    ensures
        (n & 0xff) + ((n >> 8) & 0xff) as u32 * 0x100 + ((n >> 16) & 0xff) as u32 * 0x10000 + ((n
            >> 24) & 0xff) as u32 * 0x1000000 == n,
{
    assert((n & 0xff) + ((n >> 8) & 0xff) * 0x100 + ((n >> 16) & 0xff) * 0x10000 + ((n >> 24)
        & 0xff) * 0x1000000 == n) by (bit_vector);
}

/// Client handle for the search service.
///
/// The transport lives in the surrounding program; this handle only names
/// the service. On a host without the service's pipe transport it reports
/// the service unavailable.
pub struct IpcClient;

impl IpcClient {
    /// Create a client; no connection is made until a request is sent.
    pub fn new() -> IpcClient {
        IpcClient
    }

    /// Whether the search service can be reached from here.
    pub fn is_service_available(&self) -> (r: bool)
        ensures
            !r,
    {
        false
    }
}

impl Default for IpcClient {
    fn default() -> (r: Self) {
        IpcClient::new()
    }
}

/// Server handle for the search service: holds the catalog path each
/// connection opens its own store from. The accept loop and transport
/// live in the surrounding program.
pub struct IpcServer {
    /// Path of the catalog file.
    pub db_path: String,
}

impl IpcServer {
    /// Create a server handle over the catalog path.
    pub fn new(db_path: String) -> (r: IpcServer)
        ensures
            r.db_path == db_path,
    {
        IpcServer { db_path }
    }
}

} // verus!
