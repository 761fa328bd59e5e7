use skypulse::{nal_payload_start, Config};

#[test]
fn rtp_header_is_stripped() {
    let mut pkt = vec![0x80u8, 96, 0, 1, 0, 0, 0, 0, 0, 0, 0, 0];
    pkt.extend_from_slice(&[0x40, 0x01, 0x0C]);
    assert_eq!(nal_payload_start(&pkt), Some(12));
    // two CSRCs
    let mut pkt = vec![0x82u8; 1];
    pkt.extend_from_slice(&[0; 19]);
    pkt.extend_from_slice(&[0x26, 0x01]);
    assert_eq!(nal_payload_start(&pkt), Some(20));
    // extension header of one word
    let mut pkt = vec![0x90u8];
    pkt.extend_from_slice(&[0; 11]);
    pkt.extend_from_slice(&[0xBE, 0xDE, 0x00, 0x01, 1, 2, 3, 4, 0x42, 0x01]);
    assert_eq!(nal_payload_start(&pkt), Some(20));
}

#[test]
fn raw_nal_and_skipped_packets() {
    let pkt = [0x40u8, 0x01, 0x0C, 1, 1, 1, 1, 1, 1, 1, 1, 1, 1];
    assert_eq!(nal_payload_start(&pkt), Some(0));
    assert_eq!(nal_payload_start(&[0x80u8; 12]), None);
    // header only
    let mut pkt = vec![0x81u8];
    pkt.extend_from_slice(&[0; 15]);
    assert_eq!(nal_payload_start(&pkt), None);
}

#[test]
fn config_defaults_and_given_values() {
    let c = Config::from_settings(None, None, None, None, None, None, None);
    assert_eq!(c.drone_ip, "10.8.0.2");
    assert_eq!((c.rc_port, c.telem_port, c.web_port, c.cell_count), (2223, 2224, 8080, 0));
    assert_eq!(c.traccar_url, None);
    assert_eq!(c.traccar_id, "skypulse");
    let c = Config::from_settings(
        Some("1.2.3.4".to_string()),
        Some(1),
        Some(2),
        Some(3),
        Some(4),
        Some("http://t".to_string()),
        Some("id".to_string()),
    );
    assert_eq!(c.drone_ip, "1.2.3.4");
    assert_eq!((c.rc_port, c.telem_port, c.web_port, c.cell_count), (1, 2, 3, 4));
    assert_eq!(c.traccar_url.as_deref(), Some("http://t"));
    assert_eq!(c.traccar_id, "id");
}
