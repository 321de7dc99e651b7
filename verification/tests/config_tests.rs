use quic_core::config::{
    CidGeneratorConfig, ClientConfig, ConfigError, CongestionControllerKind, EndpointConfig,
    ServerConfig, TransportConfig, KEY_LEN,
};
use quic_core::varint::MAX_VARINT;

#[test]
fn transport_defaults_match_specification() {
    let t = TransportConfig::default();
    assert_eq!(t.max_concurrent_bidi_streams.into_u64(), 100);
    assert_eq!(t.max_concurrent_uni_streams.into_u64(), 100);
    assert_eq!(t.max_idle_timeout, Some(10_000));
    assert_eq!(t.stream_receive_window.into_u64(), 1_250_000);
    assert_eq!(t.receive_window.into_u64(), MAX_VARINT);
    assert_eq!(t.send_window, 8 * 1_250_000);
    assert_eq!(t.max_tlps, 2);
    assert_eq!(t.packet_threshold, 3);
    assert_eq!(t.initial_rtt, 333);
    assert_eq!(t.persistent_congestion_threshold, 3);
    assert_eq!(t.keep_alive_interval, None);
    assert_eq!(t.crypto_buffer_size, 16 * 1024);
    assert!(t.allow_spin);
    assert_eq!(t.datagram_receive_buffer_size, Some(1_250_000));
    assert_eq!(t.datagram_send_buffer_size, 1024 * 1024);
    assert_eq!(t.congestion_controller_factory, CongestionControllerKind::Cubic);
}

#[test]
fn transport_setters_check_bounds() {
    let mut t = TransportConfig::default();
    assert!(t.max_concurrent_bidi_streams(200).is_ok());
    assert_eq!(t.max_concurrent_bidi_streams.into_u64(), 200);
    assert_eq!(
        t.max_concurrent_bidi_streams(MAX_VARINT + 1),
        Err(ConfigError::OutOfBounds)
    );
    assert_eq!(t.max_concurrent_bidi_streams.into_u64(), 200);
    assert!(t.max_concurrent_uni_streams(0).is_ok());
    assert!(t.max_idle_timeout(None).is_ok());
    assert!(t.max_idle_timeout(Some(30_000)).is_ok());
    assert_eq!(
        t.max_idle_timeout(Some(MAX_VARINT + 1)),
        Err(ConfigError::OutOfBounds)
    );
    assert!(t.stream_receive_window(16_384).is_ok());
    assert_eq!(
        t.receive_window(MAX_VARINT + 1),
        Err(ConfigError::OutOfBounds)
    );
    t.send_window(1_000_000);
    assert_eq!(t.send_window, 1_000_000);
    t.packet_threshold(5);
    assert_eq!(t.packet_threshold, 5);
    t.congestion_controller_factory(CongestionControllerKind::NewReno);
    assert_eq!(t.congestion_controller_factory, CongestionControllerKind::NewReno);
}

#[test]
fn endpoint_config_defaults_and_bounds() {
    let mut e = EndpointConfig::new(vec![7; 32]);
    assert_eq!(e.reset_key, vec![7; 32]);
    assert_eq!(e.get_max_udp_payload_size(), 1480);
    assert_eq!(e.connection_id_generator_factory.length(), 8);
    assert_eq!(e.supported_versions, vec![1]);
    assert_eq!(e.initial_version, 1);

    assert_eq!(e.max_udp_payload_size(1199), Err(ConfigError::OutOfBounds));
    assert!(e.max_udp_payload_size(1200).is_ok());
    assert!(e.max_udp_payload_size(65527).is_ok());
    assert_eq!(e.max_udp_payload_size(65528), Err(ConfigError::OutOfBounds));
    assert_eq!(e.get_max_udp_payload_size(), 65527);

    assert!(e.reset_key(&[1, 2, 3]).is_ok());
    assert_eq!(e.reset_key, vec![1, 2, 3]);
}

#[test]
fn endpoint_supported_versions_needs_initial_among_them() {
    let mut e = EndpointConfig::new(vec![0; 8]);
    assert_eq!(
        e.supported_versions(vec![2, 3], 1),
        Err(ConfigError::OutOfBounds)
    );
    assert_eq!(e.initial_version, 1);
    assert!(e.supported_versions(vec![2, 3], 3).is_ok());
    assert_eq!(e.supported_versions, vec![2, 3]);
    assert_eq!(e.initial_version, 3);
}

#[test]
fn endpoint_default_generates_random_key() {
    let e = EndpointConfig::default();
    assert_eq!(e.reset_key.len(), KEY_LEN);
    assert_eq!(e.get_max_udp_payload_size(), 1480);
}

#[test]
fn cid_generator_length_is_bounded() {
    assert_eq!(CidGeneratorConfig::new(21).err(), Some(ConfigError::OutOfBounds));
    let g = CidGeneratorConfig::new(20).unwrap();
    assert_eq!(g.length(), 20);
    assert_eq!(CidGeneratorConfig::default().length(), 8);
}

#[test]
fn server_config_defaults_and_setters() {
    let mut s = ServerConfig::new(vec![9; 64]);
    assert_eq!(s.token_key, vec![9; 64]);
    assert!(!s.use_stateless_retry);
    assert_eq!(s.retry_token_lifetime, 15_000);
    assert_eq!(s.concurrent_connections, 100_000);
    assert!(s.migration);
    assert_eq!(s.transport.packet_threshold, 3);

    s.use_stateless_retry(true);
    assert!(s.use_stateless_retry);
    s.retry_token_lifetime(5_000);
    assert_eq!(s.retry_token_lifetime, 5_000);
    s.concurrent_connections(10);
    assert_eq!(s.concurrent_connections, 10);
    s.migration(false);
    assert!(!s.migration);
    assert!(s.token_key(&[1; 16]).is_ok());
    assert_eq!(s.token_key, vec![1; 16]);
}

#[test]
fn server_and_client_defaults() {
    let s = ServerConfig::default();
    assert_eq!(s.token_key.len(), KEY_LEN);
    let c = ClientConfig::default();
    assert_eq!(c.transport.initial_rtt, 333);
}
