use pose_publisher::multicast::{bind_multicast, payload_text, Endpoint, MAX_DATAGRAM_BYTES};
use pose_publisher::PosePublisherError;

#[test]
fn binding_a_unicast_address_fails_with_not_multicast() {
    let address = Endpoint::new([10, 0, 0, 5], 7072);
    assert_eq!(bind_multicast(address), Err(PosePublisherError::AddressNotMulticast(address)));
}

#[test]
fn binding_a_group_binds_wildcard_on_its_port() {
    let group = Endpoint::new([239, 0, 0, 22], 7072);
    let binding = bind_multicast(group).unwrap();
    assert_eq!(binding.group, group);
    assert_eq!(binding.local, Endpoint::new([0, 0, 0, 0], 7072));
}

#[test]
fn multicast_range_edges() {
    assert!(bind_multicast(Endpoint::new([224, 0, 0, 0], 1)).is_ok());
    assert!(bind_multicast(Endpoint::new([239, 255, 255, 255], 1)).is_ok());
    assert!(bind_multicast(Endpoint::new([223, 255, 255, 255], 1)).is_err());
    assert!(bind_multicast(Endpoint::new([240, 0, 0, 0], 1)).is_err());
    assert!(Endpoint::new([230, 1, 2, 3], 9).is_multicast());
    assert!(!Endpoint::new([127, 0, 0, 1], 9).is_multicast());
}

#[test]
fn payload_text_decodes_utf8() {
    let bytes = "{\"id\":\"é\"}".as_bytes();
    assert_eq!(payload_text(bytes), Ok("{\"id\":\"é\"}".to_string()));
    assert_eq!(payload_text(&[]), Ok(String::new()));
}

#[test]
fn payload_text_rejects_malformed_utf8() {
    assert_eq!(payload_text(&[b'{', 0xff, b'}']), Err(PosePublisherError::StringConversionError));
    assert_eq!(payload_text(&[0xc3]), Err(PosePublisherError::StringConversionError));
}

#[test]
fn payload_text_reads_at_most_the_buffer() {
    let long = vec![b'a'; MAX_DATAGRAM_BYTES + 10];
    let text = payload_text(&long).unwrap();
    assert_eq!(text.len(), 65000);

    let mut cut = vec![b'a'; MAX_DATAGRAM_BYTES - 1];
    cut.extend_from_slice("é".as_bytes());
    assert_eq!(payload_text(&cut), Err(PosePublisherError::StringConversionError));
}
