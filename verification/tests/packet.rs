use s2n_quic_sync::connection::LocalId;
use s2n_quic_sync::frame::{AckElicitation, Probe};
use s2n_quic_sync::inet::{DatagramInfo, ExplicitCongestionNotification};
use s2n_quic_sync::packet::number::{PacketNumberSpace, MAX_PACKET_NUMBER};
use s2n_quic_sync::packet::processed::Outcome;
use s2n_quic_sync::slice::segments::IterMut;
use s2n_quic_sync::transport::packet_buffers::Descriptor;

fn datagram() -> DatagramInfo {
    DatagramInfo {
        timestamp: 1_234,
        payload_len: 1200,
        ecn: ExplicitCongestionNotification::Ect0,
        destination_connection_id: LocalId::try_from_bytes(&[1, 2, 3, 4]).unwrap(),
    }
}

#[test]
fn outcome_tracks_the_frames() {
    let info = datagram();
    let pn = PacketNumberSpace::ApplicationData.new_packet_number(7);
    let mut outcome = Outcome::new(pn, &info);
    assert!(!outcome.is_ack_eliciting());
    assert_eq!(outcome.frames, 0);
    assert_eq!(outcome.path_validation_probing, Probe::Probing);
    assert_eq!(outcome.packet_number(), pn);
    assert_eq!(outcome.ecn(), ExplicitCongestionNotification::Ect0);
    assert_eq!(outcome.timestamp(), 1_234);
    assert!(!outcome.path_challenge_on_active_path());

    outcome.on_processed_frame(AckElicitation::NonEliciting, Probe::Probing);
    assert!(!outcome.is_ack_eliciting());
    assert_eq!(outcome.path_validation_probing, Probe::Probing);

    // one eliciting frame makes the packet eliciting, one non-probing frame non-probing
    outcome.on_processed_frame(AckElicitation::Eliciting, Probe::NonProbing);
    outcome.on_processed_frame(AckElicitation::NonEliciting, Probe::Probing);
    assert!(outcome.is_ack_eliciting());
    assert_eq!(outcome.path_validation_probing, Probe::NonProbing);
    assert_eq!(outcome.frames, 3);
}

#[test]
fn frame_properties_combine() {
    let (non, eli) = (AckElicitation::NonEliciting, AckElicitation::Eliciting);
    assert_eq!(AckElicitation::default(), non);
    assert_eq!(non.combine(non), non);
    assert_eq!(non.combine(eli), eli);
    assert_eq!(eli.combine(non), eli);
    assert!(eli.is_ack_eliciting());
    assert_eq!(Probe::default(), Probe::Probing);
    assert_eq!(Probe::Probing.combine(Probe::Probing), Probe::Probing);
    assert_eq!(Probe::Probing.combine(Probe::NonProbing), Probe::NonProbing);
    assert_eq!(Probe::NonProbing.combine(Probe::Probing), Probe::NonProbing);
    assert_eq!(ExplicitCongestionNotification::default(), ExplicitCongestionNotification::NotEct);
}

#[test]
fn packet_numbers_keep_space_and_value() {
    let pn = PacketNumberSpace::Initial.new_packet_number(MAX_PACKET_NUMBER);
    assert_eq!(pn.space(), PacketNumberSpace::Initial);
    assert_eq!(pn.as_u64(), MAX_PACKET_NUMBER);
    let other = PacketNumberSpace::Handshake.new_packet_number(0);
    assert_ne!(pn, other);
    assert_eq!(other.as_u64(), 0);
}

#[test]
fn segments_split_the_payload() {
    let mut payload: Vec<u8> = (0..10).collect();
    let mut segments = IterMut::new(&mut payload, 4);
    assert_eq!(segments.next().unwrap(), &[0, 1, 2, 3]);
    let second = segments.next().unwrap();
    assert_eq!(second, &[4, 5, 6, 7]);
    second[0] = 40;
    // the last segment may be shorter
    assert_eq!(segments.next().unwrap(), &[8, 9]);
    assert!(segments.next().is_none());
    assert_eq!(payload[4], 40);

    let mut whole = [1u8, 2, 3];
    let mut once = IterMut::once(&mut whole);
    assert_eq!(once.next().unwrap(), &[1, 2, 3]);
    assert!(once.next().is_none());

    let mut empty = IterMut::<u8>::empty();
    assert!(empty.next().is_none());

    // segments of size zero give nothing
    let mut data = [1u8, 2];
    let mut zero = IterMut::new(&mut data, 0);
    assert!(zero.next().is_none());
}

#[test]
fn descriptors_address_the_shared_memory() {
    let mut umem: Vec<u8> = (0..10).collect();
    let d = Descriptor {
        address: 2,
        len: 3,
        segment_size: 1200u16,
    };
    let packet = d.slice(&mut umem);
    assert_eq!(packet, &[2, 3, 4]);
    packet[0] = 20;
    assert_eq!(umem, vec![0, 1, 20, 3, 4, 5, 6, 7, 8, 9]);
    let empty = Descriptor {
        address: 10,
        len: 0,
        segment_size: 0u16,
    };
    assert!(empty.slice(&mut umem).is_empty());
}

#[test]
fn segments_cover_the_payload_in_order() {
    for len in 0..20usize {
        for size in 1..7usize {
            let mut payload: Vec<usize> = (0..len).collect();
            let expected: Vec<Vec<usize>> = payload.chunks(size).map(|c| c.to_vec()).collect();
            let mut segments = IterMut::new(&mut payload, size);
            let mut got = Vec::new();
            while let Some(seg) = segments.next() {
                got.push(seg.to_vec());
            }
            assert_eq!(got, expected);
            assert!(segments.next().is_none());
        }
    }
}
