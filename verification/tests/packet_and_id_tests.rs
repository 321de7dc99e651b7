use quic_core::packet_number::PacketNumberSpace;
use quic_core::stream_id::{Dir, RemoteOpens, Side, StreamId, StreamOpens};

#[test]
fn send_packet_numbers_are_strictly_monotonic() {
    let mut pns = PacketNumberSpace::new();
    let a = pns.next_packet_number();
    let b = pns.next_packet_number();
    let c = pns.next_packet_number();
    assert_eq!((a, b, c), (0, 1, 2));
    assert!(a < b && b < c);
}

#[test]
fn duplicate_receives_are_ignored() {
    let mut pns = PacketNumberSpace::new();
    assert!(pns.on_receive(7));
    assert!(pns.on_receive(3));
    assert!(!pns.on_receive(7));
    assert!(!pns.on_receive(3));
    assert!(pns.on_receive(8));
    assert_eq!(pns.largest_received, 9);
}

#[test]
fn stream_id_encodes_category_bits() {
    let id = StreamId::new(Side::Client, Dir::Bi, 0);
    assert_eq!(id.value(), 0);
    let id = StreamId::new(Side::Server, Dir::Bi, 0);
    assert_eq!(id.value(), 1);
    let id = StreamId::new(Side::Client, Dir::Uni, 0);
    assert_eq!(id.value(), 2);
    let id = StreamId::new(Side::Server, Dir::Uni, 3);
    assert_eq!(id.value(), 15);
    assert_eq!(id.initiator(), Side::Server);
    assert_eq!(id.dir(), Dir::Uni);
    assert_eq!(id.index(), 3);
    assert_eq!(Side::Client.other(), Side::Server);
}

#[test]
fn local_streams_open_in_ascending_order() {
    let mut opens = StreamOpens::new(3);
    let a = opens.open(Side::Client, Dir::Uni).unwrap();
    let b = opens.open(Side::Client, Dir::Uni).unwrap();
    let c = opens.open(Side::Client, Dir::Uni).unwrap();
    assert!(a.index() < b.index() && b.index() < c.index());
    // the peer's stream limit is reached: reported locally, not an error
    assert!(opens.open(Side::Client, Dir::Uni).is_none());
    opens.set_max(5);
    assert_eq!(opens.open(Side::Client, Dir::Uni).unwrap().index(), 3);
    // limits never regress
    opens.set_max(2);
    assert_eq!(opens.max, 5);
}

#[test]
fn remote_open_implicitly_opens_lower_indexes() {
    let mut remote = RemoteOpens::new(10);
    // skipping to index 4 opens indexes 0 through 4 at once
    assert_eq!(remote.on_remote_open(4), Ok(true));
    assert_eq!(remote.opened, 5);
    assert_eq!(remote.on_remote_open(2), Ok(false));
    assert_eq!(remote.opened, 5);
    assert_eq!(remote.on_remote_open(9), Ok(true));
    assert!(remote.on_remote_open(10).is_err());
    assert_eq!(remote.opened, 10);
}
