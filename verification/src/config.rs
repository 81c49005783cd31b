//! The configuration both programs start from.

use vstd::prelude::*;

verus! {

/// Where the server listens and the largest frame either side accepts.
pub struct ChatConfig {
    pub server_addr: String,
    pub max_frame_size: usize,
}

impl ChatConfig {
    /// The server on the loopback address, port 8000, with frames of at
    /// most 64 KiB.
    pub fn default() -> (r: ChatConfig)
        ensures
            r.server_addr@ == "127.0.0.1:8000"@,
            r.max_frame_size == 64 * 1024,
    {
        ChatConfig { server_addr: String::from_str("127.0.0.1:8000"), max_frame_size: 64 * 1024 }
    }
}

} // verus!
