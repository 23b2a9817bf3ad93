//! Tuning knobs of the Noise and wire layers.
//!
//! Values that the peer relies on are constants of the modules that use them;
//! what an operator may tune is gathered here.

use vstd::prelude::*;

verus! {

/// The default cap on the plaintext of one transport frame.
pub const DEFAULT_MAX_FRAME_PAYLOAD: usize = 4096;

/// The default size of the buffer for a handshake message.
pub const DEFAULT_HANDSHAKE_SCRATCH_BYTES: usize = 256;

/// The default limit on the size of HTTP response headers.
pub const DEFAULT_MAX_HEADER_BYTES: usize = 8192;

/// The default initial capacity of the buffer for HTTP response headers.
pub const DEFAULT_HEADER_READ_INITIAL_CAPACITY: usize = 512;

/// The default size of one read of the key endpoint's response.
pub const DEFAULT_RESPONSE_READ_CHUNK_BYTES: usize = 4096;

/// The default limit on the size of the key endpoint's response.
pub const DEFAULT_KEY_RESPONSE_MAX_BYTES: usize = 65536;

/// Knobs of the Noise layer.
#[derive(Clone, Copy, Debug, PartialEq, Eq)]
pub struct NoiseConfig {
    /// The largest plaintext that one transport frame may carry.
    pub max_frame_payload: usize,
    /// The size of the buffer in which a handshake message is built or read.
    pub handshake_scratch_bytes: usize,
}

impl NoiseConfig {
    /// The buffer for the first handshake message can be allocated, and is not
    /// of a size that takes the static key but not its tag.
    pub open spec fn can_initiate(self) -> bool {
        &&& self.handshake_scratch_bytes <= isize::MAX
        &&& !(64 <= self.handshake_scratch_bytes < 80)
    }

    /// The buffer for the handshake reply can be allocated.
    pub open spec fn can_finish(self) -> bool {
        self.handshake_scratch_bytes <= isize::MAX
    }

    /// Whether a handshake can be started with these knobs.
    pub fn allows_initiation(&self) -> (b: bool)
        ensures
            b == self.can_initiate(),
    {
        let n: usize = self.handshake_scratch_bytes;
        n <= isize::MAX as usize && !(64 <= n && n < 80)
    }
}

impl Default for NoiseConfig {
    fn default() -> (config: Self)
        ensures
            config.max_frame_payload == DEFAULT_MAX_FRAME_PAYLOAD,
            config.max_frame_payload == 4096,
            config.handshake_scratch_bytes == DEFAULT_HANDSHAKE_SCRATCH_BYTES,
            config.handshake_scratch_bytes == 256,
    {
        NoiseConfig {
            max_frame_payload: DEFAULT_MAX_FRAME_PAYLOAD,
            handshake_scratch_bytes: DEFAULT_HANDSHAKE_SCRATCH_BYTES,
        }
    }
}

/// Knobs of the wire layer.
#[derive(Clone, Copy, Debug, PartialEq, Eq)]
pub struct WireConfig {
    /// The largest size of HTTP response headers.
    pub max_header_bytes: usize,
    /// The initial capacity of the buffer for HTTP response headers.
    pub header_read_initial_capacity: usize,
    /// The size of one read of the key endpoint's response.
    pub response_read_chunk_bytes: usize,
    /// The largest size of the key endpoint's response.
    pub key_response_limit: usize,
}

impl WireConfig {
    /// The largest size of the key endpoint's response, in bytes.
    pub fn key_response_max_bytes(&self) -> (n: usize)
        ensures
            n == self.key_response_limit,
    {
        self.key_response_limit
    }
}

impl Default for WireConfig {
    fn default() -> (config: Self)
        ensures
            config.max_header_bytes == DEFAULT_MAX_HEADER_BYTES,
            config.max_header_bytes == 8192,
            config.header_read_initial_capacity == DEFAULT_HEADER_READ_INITIAL_CAPACITY,
            config.header_read_initial_capacity == 512,
            config.response_read_chunk_bytes == DEFAULT_RESPONSE_READ_CHUNK_BYTES,
            config.response_read_chunk_bytes == 4096,
            config.key_response_limit == DEFAULT_KEY_RESPONSE_MAX_BYTES,
            config.key_response_limit == 65536,
    {
        WireConfig {
            max_header_bytes: DEFAULT_MAX_HEADER_BYTES,
            header_read_initial_capacity: DEFAULT_HEADER_READ_INITIAL_CAPACITY,
            response_read_chunk_bytes: DEFAULT_RESPONSE_READ_CHUNK_BYTES,
            key_response_limit: DEFAULT_KEY_RESPONSE_MAX_BYTES,
        }
    }
}

/// All knobs of a control connection.
#[derive(Clone, Copy, Debug, PartialEq, Eq)]
pub struct Config {
    /// Knobs of the Noise layer.
    pub noise: NoiseConfig,
    /// Knobs of the wire layer.
    pub wire: WireConfig,
}

impl Default for Config {
    fn default() -> (config: Self)
        ensures
            config.noise.max_frame_payload == DEFAULT_MAX_FRAME_PAYLOAD,
            config.noise.max_frame_payload == 4096,
            config.noise.handshake_scratch_bytes == DEFAULT_HANDSHAKE_SCRATCH_BYTES,
            config.noise.handshake_scratch_bytes == 256,
            config.wire.max_header_bytes == DEFAULT_MAX_HEADER_BYTES,
            config.wire.max_header_bytes == 8192,
            config.wire.header_read_initial_capacity == DEFAULT_HEADER_READ_INITIAL_CAPACITY,
            config.wire.header_read_initial_capacity == 512,
            config.wire.response_read_chunk_bytes == DEFAULT_RESPONSE_READ_CHUNK_BYTES,
            config.wire.response_read_chunk_bytes == 4096,
            config.wire.key_response_limit == DEFAULT_KEY_RESPONSE_MAX_BYTES,
            config.wire.key_response_limit == 65536,
    {
        Config { noise: NoiseConfig::default(), wire: WireConfig::default() }
    }
}

} // verus!
