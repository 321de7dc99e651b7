//! Typed, bounds-checked configuration for the engine: transport parameters
//! shared by every connection, endpoint-wide parameters, and the server and
//! client parameter sets. Construction fails with `OutOfBounds` where a value
//! overflows its wire encoding or violates an invariant.
//!
//! Durations are carried as whole milliseconds, the unit their wire encoding
//! uses.

use crate::varint::{MAX_VARINT, VarInt, VarIntBoundsExceeded};
use vstd::prelude::*;

verus! {

/// Errors in the configuration of an endpoint.
#[derive(Debug, Clone, Copy, PartialEq, Eq, Structural)]
pub enum ConfigError {
    /// Value exceeds supported bounds.
    OutOfBounds,
}

impl From<VarIntBoundsExceeded> for ConfigError {
    fn from(_e: VarIntBoundsExceeded) -> (r: Self) {
        ConfigError::OutOfBounds
    }
}

impl vstd::std_specs::convert::FromSpecImpl<VarIntBoundsExceeded> for ConfigError {
    open spec fn obeys_from_spec() -> bool {
        true
    }

    open spec fn from_spec(e: VarIntBoundsExceeded) -> Self {
        ConfigError::OutOfBounds
    }
}

impl From<core::num::TryFromIntError> for ConfigError {
    fn from(_e: core::num::TryFromIntError) -> (r: Self) {
        ConfigError::OutOfBounds
    }
}

impl vstd::std_specs::convert::FromSpecImpl<core::num::TryFromIntError> for ConfigError {
    open spec fn obeys_from_spec() -> bool {
        true
    }

    open spec fn from_spec(e: core::num::TryFromIntError) -> Self {
        ConfigError::OutOfBounds
    }
}

/// Which congestion controller a connection is built with. Both controllers
/// follow the QUIC recovery specification; CUBIC is the default.
#[derive(Debug, Clone, Copy, PartialEq, Eq, Structural)]
pub enum CongestionControllerKind {
    Cubic,
    NewReno,
}

/// Round-trip time assumed for the default windows, in milliseconds.
pub const EXPECTED_RTT: u32 = 100;

/// Per-stream bandwidth to make room for, in bytes per second.
pub const MAX_STREAM_BANDWIDTH: u32 = 12500 * 1000;

/// Window size needed to avoid pipeline stalls at the expected round-trip
/// time.
pub const STREAM_RWND: u32 = MAX_STREAM_BANDWIDTH / 1000 * EXPECTED_RTT;

/// Parameters governing the core QUIC state machine.
///
/// The defaults suit most internet applications; data window sizes can be
/// tuned for an expected round-trip time, link capacity and memory budget.
#[derive(Debug, Clone)]
pub struct TransportConfig {
    pub max_concurrent_bidi_streams: VarInt,
    pub max_concurrent_uni_streams: VarInt,
    /// Milliseconds of inactivity to accept before timing the connection
    /// out; `None` is an infinite timeout.
    pub max_idle_timeout: Option<u64>,
    pub stream_receive_window: VarInt,
    pub receive_window: VarInt,
    pub send_window: u64,
    pub max_tlps: u32,
    pub packet_threshold: u32,
    pub initial_rtt: u64,
    pub persistent_congestion_threshold: u32,
    pub keep_alive_interval: Option<u64>,
    pub crypto_buffer_size: usize,
    pub allow_spin: bool,
    pub datagram_receive_buffer_size: Option<usize>,
    pub datagram_send_buffer_size: usize,
    pub congestion_controller_factory: CongestionControllerKind,
}

impl TransportConfig {
    /// Maximum number of bidirectional streams the peer may open
    /// concurrently. Fails exactly where the value exceeds the
    /// variable-length integer range.
    pub fn max_concurrent_bidi_streams(&mut self, value: u64) -> (r: Result<(), ConfigError>)
        ensures
            value <= MAX_VARINT <==> r is Ok,
            r is Ok ==> *final(self) == (TransportConfig {
                max_concurrent_bidi_streams: final(self).max_concurrent_bidi_streams,
                ..*old(self)
            }) && final(self).max_concurrent_bidi_streams@ == value,
            r is Err ==> *final(self) == *old(self),
    {
        match VarInt::new(value) {
            Ok(v) => {
                self.max_concurrent_bidi_streams = v;
                Ok(())
            },
            Err(e) => Err(ConfigError::from(e)),
        }
    }

    /// Variant of `max_concurrent_bidi_streams` affecting unidirectional
    /// streams.
    pub fn max_concurrent_uni_streams(&mut self, value: u64) -> (r: Result<(), ConfigError>)
        ensures
            value <= MAX_VARINT <==> r is Ok,
            r is Ok ==> *final(self) == (TransportConfig {
                max_concurrent_uni_streams: final(self).max_concurrent_uni_streams,
                ..*old(self)
            }) && final(self).max_concurrent_uni_streams@ == value,
            r is Err ==> *final(self) == *old(self),
    {
        match VarInt::new(value) {
            Ok(v) => {
                self.max_concurrent_uni_streams = v;
                Ok(())
            },
            Err(e) => Err(ConfigError::from(e)),
        }
    }

    /// Maximum duration of inactivity to accept before timing out the
    /// connection, in milliseconds; `None` is an infinite timeout. Fails
    /// exactly where the value exceeds the variable-length integer range.
    pub fn max_idle_timeout(&mut self, value: Option<u64>) -> (r: Result<(), ConfigError>)
        ensures
            (match value {
                Some(ms) => ms <= MAX_VARINT,
                None => true,
            }) <==> r is Ok,
            r is Ok ==> *final(self) == (TransportConfig { max_idle_timeout: value, ..*old(self) }),
            r is Err ==> *final(self) == *old(self),
    {
        match value {
            Some(ms) if ms > MAX_VARINT => Err(ConfigError::OutOfBounds),
            _ => {
                self.max_idle_timeout = value;
                Ok(())
            },
        }
    }

    /// Maximum number of bytes the peer may transmit without acknowledgement
    /// on any one stream before becoming blocked.
    pub fn stream_receive_window(&mut self, value: u64) -> (r: Result<(), ConfigError>)
        ensures
            value <= MAX_VARINT <==> r is Ok,
            r is Ok ==> *final(self) == (TransportConfig {
                stream_receive_window: final(self).stream_receive_window,
                ..*old(self)
            }) && final(self).stream_receive_window@ == value,
            r is Err ==> *final(self) == *old(self),
    {
        match VarInt::new(value) {
            Ok(v) => {
                self.stream_receive_window = v;
                Ok(())
            },
            Err(e) => Err(ConfigError::from(e)),
        }
    }

    /// Maximum number of bytes the peer may transmit across all streams of a
    /// connection before becoming blocked.
    pub fn receive_window(&mut self, value: u64) -> (r: Result<(), ConfigError>)
        ensures
            value <= MAX_VARINT <==> r is Ok,
            r is Ok ==> *final(self) == (TransportConfig {
                receive_window: final(self).receive_window,
                ..*old(self)
            }) && final(self).receive_window@ == value,
            r is Err ==> *final(self) == *old(self),
    {
        match VarInt::new(value) {
            Ok(v) => {
                self.receive_window = v;
                Ok(())
            },
            Err(e) => Err(ConfigError::from(e)),
        }
    }

    /// Maximum number of bytes to transmit to a peer without
    /// acknowledgment.
    pub fn send_window(&mut self, value: u64)
        ensures
            *final(self) == (TransportConfig { send_window: value, ..*old(self) }),
    {
        self.send_window = value;
    }

    /// Maximum number of tail loss probes before an RTO fires.
    pub fn max_tlps(&mut self, value: u32)
        ensures
            *final(self) == (TransportConfig { max_tlps: value, ..*old(self) }),
    {
        self.max_tlps = value;
    }

    /// Maximum reordering in packet number space before packet-threshold
    /// loss detection considers a packet lost. Should not be less than 3.
    pub fn packet_threshold(&mut self, value: u32)
        ensures
            *final(self) == (TransportConfig { packet_threshold: value, ..*old(self) }),
    {
        self.packet_threshold = value;
    }

    /// The round-trip time used before an RTT sample is taken, in
    /// milliseconds.
    pub fn initial_rtt(&mut self, value: u64)
        ensures
            *final(self) == (TransportConfig { initial_rtt: value, ..*old(self) }),
    {
        self.initial_rtt = value;
    }

    /// Number of consecutive PTOs after which the network is considered to
    /// be experiencing persistent congestion.
    pub fn persistent_congestion_threshold(&mut self, value: u32)
        ensures
            *final(self) == (TransportConfig {
                persistent_congestion_threshold: value,
                ..*old(self)
            }),
    {
        self.persistent_congestion_threshold = value;
    }

    /// Period of inactivity before sending a keep-alive packet, in
    /// milliseconds; `None` disables keep-alive.
    pub fn keep_alive_interval(&mut self, value: Option<u64>)
        ensures
            *final(self) == (TransportConfig { keep_alive_interval: value, ..*old(self) }),
    {
        self.keep_alive_interval = value;
    }

    /// Maximum quantity of out-of-order crypto layer data to buffer.
    pub fn crypto_buffer_size(&mut self, value: usize)
        ensures
            *final(self) == (TransportConfig { crypto_buffer_size: value, ..*old(self) }),
    {
        self.crypto_buffer_size = value;
    }

    /// Whether the implementation is permitted to set the spin bit on this
    /// connection.
    pub fn allow_spin(&mut self, value: bool)
        ensures
            *final(self) == (TransportConfig { allow_spin: value, ..*old(self) }),
    {
        self.allow_spin = value;
    }

    /// Maximum number of incoming application datagram bytes to buffer, or
    /// `None` to disable incoming datagrams.
    pub fn datagram_receive_buffer_size(&mut self, value: Option<usize>)
        ensures
            *final(self) == (TransportConfig {
                datagram_receive_buffer_size: value,
                ..*old(self)
            }),
    {
        self.datagram_receive_buffer_size = value;
    }

    /// Maximum number of outgoing application datagram bytes to buffer.
    pub fn datagram_send_buffer_size(&mut self, value: usize)
        ensures
            *final(self) == (TransportConfig { datagram_send_buffer_size: value, ..*old(self) }),
    {
        self.datagram_send_buffer_size = value;
    }

    /// How to construct the congestion controller of new connections.
    pub fn congestion_controller_factory(&mut self, factory: CongestionControllerKind)
        ensures
            *final(self) == (TransportConfig {
                congestion_controller_factory: factory,
                ..*old(self)
            }),
    {
        self.congestion_controller_factory = factory;
    }
}

impl Default for TransportConfig {
    /// The defaults of the specification: 100 concurrent streams of either
    /// direction, a 10 s idle timeout, a 1.25 MB stream receive window, the
    /// whole variable-length integer range as connection receive window, an
    /// 8 x 1.25 MB send window, and CUBIC congestion control.
    fn default() -> (r: Self)
        ensures
            r.max_concurrent_bidi_streams@ == 100,
            r.max_concurrent_uni_streams@ == 100,
            r.max_idle_timeout == Some(10_000u64),
            r.stream_receive_window@ == STREAM_RWND,
            r.receive_window@ == MAX_VARINT,
            r.send_window == 8 * STREAM_RWND as u64,
            r.max_tlps == 2,
            r.packet_threshold == 3,
            r.initial_rtt == 333,
            r.persistent_congestion_threshold == 3,
            r.keep_alive_interval is None,
            r.crypto_buffer_size == 16 * 1024,
            r.allow_spin,
            r.datagram_receive_buffer_size == Some(STREAM_RWND as usize),
            r.datagram_send_buffer_size == 1024 * 1024,
            r.congestion_controller_factory == CongestionControllerKind::Cubic,
    {
        TransportConfig {
            max_concurrent_bidi_streams: VarInt::from_u32(100),
            max_concurrent_uni_streams: VarInt::from_u32(100),
            max_idle_timeout: Some(10_000),
            stream_receive_window: VarInt::from_u32(STREAM_RWND),
            receive_window: VarInt::max(),
            send_window: 8 * STREAM_RWND as u64,
            max_tlps: 2,
            packet_threshold: 3,
            initial_rtt: 333,
            persistent_congestion_threshold: 3,
            keep_alive_interval: None,
            crypto_buffer_size: 16 * 1024,
            allow_spin: true,
            datagram_receive_buffer_size: Some(STREAM_RWND as usize),
            datagram_send_buffer_size: 1024 * 1024,
            congestion_controller_factory: CongestionControllerKind::Cubic,
        }
    }
}


/// Longest connection ID the wire format allows, in bytes.
pub const MAX_CID_SIZE: usize = 20;

/// Length of a freshly generated reset or token key, in bytes.
pub const KEY_LEN: usize = 64;

/// The QUIC version 1 wire identifier.
pub const QUIC_VERSION_V1: u32 = 1;

/// Smallest maximum-UDP-payload value the transport parameter encoding
/// admits, in bytes.
pub const MIN_UDP_PAYLOAD_SIZE: u64 = 1200;

/// Largest UDP payload a datagram can carry, in bytes.
pub const MAX_UDP_PAYLOAD_SIZE: u64 = 65527;

/// How an endpoint builds its local connection IDs: fresh random IDs of a
/// fixed length, at most `MAX_CID_SIZE` bytes.
#[derive(Debug, Clone, Copy, PartialEq, Eq, Structural)]
pub struct CidGeneratorConfig {
    length: usize,
}

impl CidGeneratorConfig {
    #[verifier::type_invariant]
    pub closed spec fn wf(self) -> bool {
        self.length <= MAX_CID_SIZE
    }

    pub closed spec fn spec_length(self) -> usize {
        self.length
    }

    /// Succeeds exactly on lengths the wire format allows.
    pub fn new(length: usize) -> (r: Result<Self, ConfigError>)
        ensures
            length <= MAX_CID_SIZE <==> r is Ok,
            r is Ok ==> r->Ok_0.spec_length() == length,
    {
        if length <= MAX_CID_SIZE {
            Ok(CidGeneratorConfig { length })
        } else {
            Err(ConfigError::OutOfBounds)
        }
    }

    /// The length of every connection ID the generator will produce.
    pub fn length(&self) -> (r: usize)
        ensures
            r == self.spec_length(),
            r <= MAX_CID_SIZE,
    {
        proof {
            use_type_invariant(self);
        }
        self.length
    }
}

impl Default for CidGeneratorConfig {
    /// Random connection IDs of 8 bytes.
    fn default() -> (r: Self)
        ensures
            r.spec_length() == 8,
    {
        CidGeneratorConfig { length: 8 }
    }
}

/// Relies on `rand::thread_rng` and `rand::RngCore::fill_bytes`: fills the
/// whole buffer with bytes from the thread-local cryptographically secure
/// generator. The contents are random, so nothing is promised of them; only
/// the length is kept.
#[verifier::external_body]
fn fill_random(dest: &mut Vec<u8>)
    ensures
        final(dest)@.len() == old(dest)@.len(),
{
    rand::RngCore::fill_bytes(&mut rand::thread_rng(), dest.as_mut_slice());
}

/// A freshly generated random key of the given length.
fn random_key(len: usize) -> (r: Vec<u8>)
    ensures
        r@.len() == len,
{
    let mut v: Vec<u8> = Vec::new();
    while v.len() < len
        invariant
            v@.len() <= len,
        decreases len - v@.len(),
    {
        v.push(0);
    }
    fill_random(&mut v);
    v
}

/// Global configuration for the endpoint, affecting all connections.
///
/// Well-formed values keep the maximum UDP payload inside the range the
/// wire encoding admits and the initial version among the supported ones.
#[derive(Debug, Clone)]
pub struct EndpointConfig {
    /// Key used to send authenticated connection resets to peers who were
    /// talking to a previous instance of this endpoint.
    pub reset_key: Vec<u8>,
    pub max_udp_payload_size: VarInt,
    /// How each `Endpoint` built from this configuration generates the
    /// connection IDs used for its incoming packets.
    pub connection_id_generator_factory: CidGeneratorConfig,
    pub supported_versions: Vec<u32>,
    pub initial_version: u32,
}

impl EndpointConfig {
    pub open spec fn wf(self) -> bool {
        &&& MIN_UDP_PAYLOAD_SIZE <= self.max_udp_payload_size@ <= MAX_UDP_PAYLOAD_SIZE
        &&& self.supported_versions@.contains(self.initial_version)
    }

    /// A default configuration with a particular `reset_key`: a 1480-byte
    /// UDP payload bound (a typical internet MTU minus IP and UDP overhead),
    /// random 8-byte connection IDs, and QUIC version 1 alone.
    pub fn new(reset_key: Vec<u8>) -> (r: Self)
        ensures
            r.wf(),
            r.reset_key == reset_key,
            r.max_udp_payload_size@ == 1480,
            r.connection_id_generator_factory.spec_length() == 8,
            r.supported_versions@ =~= seq![QUIC_VERSION_V1],
            r.initial_version == QUIC_VERSION_V1,
    {
        let mut versions: Vec<u32> = Vec::new();
        versions.push(QUIC_VERSION_V1);
        let r = EndpointConfig {
            reset_key,
            max_udp_payload_size: VarInt::from_u32(1480),
            connection_id_generator_factory: CidGeneratorConfig::default(),
            supported_versions: versions,
            initial_version: QUIC_VERSION_V1,
        };
        proof {
            assert(r.supported_versions@[0] == QUIC_VERSION_V1);
        }
        r
    }

    /// Supply a custom connection ID generator configuration, used by each
    /// `Endpoint` built from this configuration.
    pub fn cid_generator(&mut self, factory: CidGeneratorConfig)
        ensures
            *final(self) == (EndpointConfig {
                connection_id_generator_factory: factory,
                ..*old(self)
            }),
    {
        self.connection_id_generator_factory = factory;
    }

    /// Set the key used to send authenticated connection resets. Any byte
    /// string makes a key.
    pub fn reset_key(&mut self, value: &[u8]) -> (r: Result<(), ConfigError>)
        ensures
            r is Ok,
            *final(self) == (EndpointConfig {
                reset_key: final(self).reset_key,
                ..*old(self)
            }),
            final(self).reset_key@ == value@,
    {
        self.reset_key = vstd::slice::slice_to_vec(value);
        Ok(())
    }

    /// Maximum UDP payload size accepted from peers, excluding UDP and IP
    /// overhead. Fails exactly where the value leaves the range the wire
    /// encoding admits.
    pub fn max_udp_payload_size(&mut self, value: u64) -> (r: Result<(), ConfigError>)
        ensures
            MIN_UDP_PAYLOAD_SIZE <= value <= MAX_UDP_PAYLOAD_SIZE <==> r is Ok,
            r is Ok ==> *final(self) == (EndpointConfig {
                max_udp_payload_size: final(self).max_udp_payload_size,
                ..*old(self)
            }) && final(self).max_udp_payload_size@ == value,
            r is Err ==> *final(self) == *old(self),
            old(self).wf() ==> final(self).wf(),
    {
        if MIN_UDP_PAYLOAD_SIZE <= value && value <= MAX_UDP_PAYLOAD_SIZE {
            match VarInt::new(value) {
                Ok(v) => {
                    self.max_udp_payload_size = v;
                    Ok(())
                },
                Err(e) => Err(ConfigError::from(e)),
            }
        } else {
            Err(ConfigError::OutOfBounds)
        }
    }

    /// The current value of `max_udp_payload_size`, exposed so higher
    /// layers can size their receive buffers.
    pub fn get_max_udp_payload_size(&self) -> (r: u64)
        ensures
            r == self.max_udp_payload_size@,
    {
        self.max_udp_payload_size.into_u64()
    }

    /// Override the supported QUIC versions. Fails exactly where the
    /// initial version is not among the supported ones.
    pub fn supported_versions(&mut self, supported_versions: Vec<u32>, initial_version: u32) -> (r:
        Result<(), ConfigError>)
        ensures
            supported_versions@.contains(initial_version) <==> r is Ok,
            r is Ok ==> *final(self) == (EndpointConfig {
                supported_versions: supported_versions,
                initial_version: initial_version,
                ..*old(self)
            }),
            r is Err ==> *final(self) == *old(self),
            old(self).wf() ==> final(self).wf(),
    {
        let mut found = false;
        let mut i: usize = 0;
        while i < supported_versions.len()
            invariant
                i <= supported_versions@.len(),
                found <==> exists|j: int| 0 <= j < i && supported_versions@[j] == initial_version,
            decreases supported_versions@.len() - i,
        {
            if supported_versions[i] == initial_version {
                found = true;
            }
            i = i + 1;
        }
        if !found {
            return Err(ConfigError::OutOfBounds);
        }
        self.supported_versions = supported_versions;
        self.initial_version = initial_version;
        Ok(())
    }
}

impl Default for EndpointConfig {
    /// The configuration of `new`, under a freshly generated random reset
    /// key.
    fn default() -> (r: Self)
        ensures
            r.wf(),
            r.reset_key@.len() == KEY_LEN,
            r.max_udp_payload_size@ == 1480,
            r.connection_id_generator_factory.spec_length() == 8,
            r.supported_versions@ =~= seq![QUIC_VERSION_V1],
            r.initial_version == QUIC_VERSION_V1,
    {
        EndpointConfig::new(random_key(KEY_LEN))
    }
}

/// The transport defaults of the specification, as `TransportConfig::default`
/// builds them.
pub open spec fn is_default_transport(t: TransportConfig) -> bool {
    &&& t.max_concurrent_bidi_streams@ == 100
    &&& t.max_concurrent_uni_streams@ == 100
    &&& t.max_idle_timeout == Some(10_000u64)
    &&& t.stream_receive_window@ == STREAM_RWND
    &&& t.receive_window@ == MAX_VARINT
    &&& t.send_window == 8 * STREAM_RWND as u64
    &&& t.max_tlps == 2
    &&& t.packet_threshold == 3
    &&& t.initial_rtt == 333
    &&& t.persistent_congestion_threshold == 3
    &&& t.keep_alive_interval is None
    &&& t.crypto_buffer_size == 16 * 1024
    &&& t.allow_spin
    &&& t.datagram_receive_buffer_size == Some(STREAM_RWND as usize)
    &&& t.datagram_send_buffer_size == 1024 * 1024
    &&& t.congestion_controller_factory == CongestionControllerKind::Cubic
}

/// Parameters governing incoming connections.
#[derive(Debug, Clone)]
pub struct ServerConfig {
    /// Transport configuration to use for incoming connections.
    pub transport: TransportConfig,
    /// Master secret used to authenticate data included in handshake
    /// tokens.
    pub token_key: Vec<u8>,
    /// Whether to require clients to prove ownership of an address before
    /// committing resources, at the cost of one extra round trip.
    pub use_stateless_retry: bool,
    /// Milliseconds after a stateless retry token was issued for which it
    /// is considered valid.
    pub retry_token_lifetime: u64,
    /// Maximum number of concurrent connections.
    pub concurrent_connections: u32,
    /// Whether to allow clients to migrate to new addresses.
    pub migration: bool,
}

impl ServerConfig {
    /// A default configuration with a particular token master key: no
    /// stateless retry, 15 s token lifetime, 100 000 concurrent
    /// connections, migration allowed.
    pub fn new(prk: Vec<u8>) -> (r: Self)
        ensures
            is_default_transport(r.transport),
            r.token_key == prk,
            !r.use_stateless_retry,
            r.retry_token_lifetime == 15_000,
            r.concurrent_connections == 100_000,
            r.migration,
    {
        ServerConfig {
            transport: TransportConfig::default(),
            token_key: prk,
            use_stateless_retry: false,
            retry_token_lifetime: 15_000,
            concurrent_connections: 100_000,
            migration: true,
        }
    }

    /// Set the master secret used to authenticate data included in
    /// handshake tokens. Any byte string makes a key.
    pub fn token_key(&mut self, master_key: &[u8]) -> (r: Result<(), ConfigError>)
        ensures
            r is Ok,
            *final(self) == (ServerConfig { token_key: final(self).token_key, ..*old(self) }),
            final(self).token_key@ == master_key@,
    {
        self.token_key = vstd::slice::slice_to_vec(master_key);
        Ok(())
    }

    /// Whether to require clients to prove ownership of an address before
    /// committing resources.
    pub fn use_stateless_retry(&mut self, value: bool)
        ensures
            *final(self) == (ServerConfig { use_stateless_retry: value, ..*old(self) }),
    {
        self.use_stateless_retry = value;
    }

    /// Milliseconds after a stateless retry token was issued for which it
    /// is considered valid.
    pub fn retry_token_lifetime(&mut self, value: u64)
        ensures
            *final(self) == (ServerConfig { retry_token_lifetime: value, ..*old(self) }),
    {
        self.retry_token_lifetime = value;
    }

    /// Maximum number of simultaneous connections to accept.
    pub fn concurrent_connections(&mut self, value: u32)
        ensures
            *final(self) == (ServerConfig { concurrent_connections: value, ..*old(self) }),
    {
        self.concurrent_connections = value;
    }

    /// Whether to allow clients to migrate to new addresses.
    pub fn migration(&mut self, value: bool)
        ensures
            *final(self) == (ServerConfig { migration: value, ..*old(self) }),
    {
        self.migration = value;
    }
}

impl Default for ServerConfig {
    /// The configuration of `new`, under a freshly generated random token
    /// master key.
    fn default() -> (r: Self)
        ensures
            is_default_transport(r.transport),
            r.token_key@.len() == KEY_LEN,
            !r.use_stateless_retry,
            r.retry_token_lifetime == 15_000,
            r.concurrent_connections == 100_000,
            r.migration,
    {
        ServerConfig::new(random_key(KEY_LEN))
    }
}

/// Configuration for outgoing connections.
#[derive(Debug, Clone)]
pub struct ClientConfig {
    /// Transport configuration to use.
    pub transport: TransportConfig,
}

impl Default for ClientConfig {
    fn default() -> (r: Self)
        ensures
            is_default_transport(r.transport),
    {
        ClientConfig { transport: TransportConfig::default() }
    }
}

} // verus!
