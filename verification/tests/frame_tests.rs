use paymoncoin::addr::PeerAddr;
use paymoncoin::neighbor::Neighbor;

fn prepare(payload: &[u8]) -> Vec<u8> {
    Neighbor::<(), ()>::prepare_data(payload)
}

fn body(len: usize, payload: &[u8], pad: usize) -> Vec<u8> {
    let mut b = vec![0u8; 8];
    b.extend_from_slice(&(len as u32).to_le_bytes());
    b.extend_from_slice(payload);
    b.extend(std::iter::repeat(0u8).take(pad));
    b
}

#[test]
fn empty_payload_is_three_words() {
    let d = prepare(&[]);
    let mut expected = vec![3u8];
    expected.extend(vec![0u8; 12]);
    assert_eq!(d, expected);
}

#[test]
fn one_byte_payload_is_padded_to_a_word() {
    let d = prepare(&[7]);
    assert_eq!(d, vec![4, 0, 0, 0, 0, 0, 0, 0, 0, 1, 0, 0, 0, 7, 0, 0, 0]);
}

#[test]
fn aligned_payload_gets_no_padding() {
    let d = prepare(&[1, 2, 3, 4]);
    assert_eq!(d, vec![4, 0, 0, 0, 0, 0, 0, 0, 0, 4, 0, 0, 0, 1, 2, 3, 4]);
}

#[test]
fn five_byte_payload_gets_three_padding_bytes() {
    let p = [104u8, 101, 108, 108, 111];
    let d = prepare(&p);
    let mut expected = vec![5u8];
    expected.extend(body(5, &p, 3));
    assert_eq!(d, expected);
    assert_eq!(d.len(), 21);
}

#[test]
fn largest_short_prefix() {
    // 492 bytes of payload make a body of 504 bytes, 126 words.
    let p: Vec<u8> = (0..492u32).map(|i| (i % 251) as u8).collect();
    let d = prepare(&p);
    let mut expected = vec![126u8];
    expected.extend(body(492, &p, 0));
    assert_eq!(d, expected);
}

#[test]
fn smallest_long_prefix() {
    // 496 bytes of payload make a body of 508 bytes, 127 words.
    let p: Vec<u8> = (0..496u32).map(|i| (i % 13) as u8).collect();
    let d = prepare(&p);
    let mut expected = vec![0x7f, 127, 0, 0];
    expected.extend(body(496, &p, 0));
    assert_eq!(d, expected);
}

#[test]
fn long_prefix_spreads_word_count_over_three_bytes() {
    // 1021 bytes of payload: padding 3, body 1036 bytes, 259 words = 0x103.
    let p = vec![9u8; 1021];
    let d = prepare(&p);
    let mut expected = vec![0x7f, 0x03, 0x01, 0x00];
    expected.extend(body(1021, &p, 3));
    assert_eq!(d, expected);
}

#[test]
fn length_field_carries_payload_length() {
    let p = vec![0xabu8; 70000];
    let d = prepare(&p);
    // 70012 bytes of body, 17503 words = 0x445f.
    assert_eq!(&d[0..4], &[0x7f, 0x5f, 0x44, 0x00]);
    assert_eq!(&d[12..16], &70000u32.to_le_bytes());
}

#[test]
fn receiver_reads_back_the_payload() {
    for len in [0usize, 1, 2, 3, 4, 5, 126, 491, 492, 493, 496, 2000] {
        let p: Vec<u8> = (0..len).map(|i| (i * 7 % 256) as u8).collect();
        let d = prepare(&p);
        let h = if d[0] == 0x7f { 4 } else { 1 };
        let words = if h == 1 {
            d[0] as usize
        } else {
            d[1] as usize | (d[2] as usize) << 8 | (d[3] as usize) << 16
        };
        assert_eq!(d.len(), h + 4 * words);
        assert_eq!(d.len() % 4, h % 4);
        assert_eq!(&d[h..h + 8], &[0u8; 8]);
        let n = u32::from_le_bytes([d[h + 8], d[h + 9], d[h + 10], d[h + 11]]) as usize;
        assert_eq!(n, len);
        assert_eq!(&d[h + 12..h + 12 + n], &p[..]);
        assert!(d[h + 12 + n..].iter().all(|b| *b == 0));
        assert!(d.len() - h - 12 - n < 4);
    }
}

fn v4() -> PeerAddr {
    PeerAddr::V4 { ip: [127, 0, 0, 1], port: 10002 }
}

#[test]
fn from_address_has_no_replicators() {
    let n = Neighbor::<u32, u64>::from_address(v4());
    assert_eq!(n.addr, v4());
    assert!(n.sink.is_none());
    assert!(n.source.is_none());
    assert!(!n.connecting);
    assert_eq!(n.get_sockaddr(), v4());
}

#[test]
fn from_connection_keeps_peer_address() {
    let a = PeerAddr::V6 { ip: [0, 0, 0, 0, 0, 0, 0, 1], port: 70, flowinfo: 5, scope_id: 2 };
    let n = Neighbor::<u32, u64>::from_connection(a);
    assert_eq!(n.get_sockaddr(), a);
    assert!(n.sink.is_none());
    assert!(n.source.is_none());
    assert!(!n.connecting);
}

#[test]
fn from_replicator_source_sets_source_only() {
    let n = Neighbor::<u32, u64>::from_replicator_source(44, v4());
    assert_eq!(n.source, Some(44));
    assert!(n.sink.is_none());
    assert!(!n.connecting);
    assert_eq!(n.addr, v4());
}

#[test]
fn from_replicator_sink_sets_sink_only() {
    let n = Neighbor::<u32, u64>::from_replicator_sink(45, v4());
    assert_eq!(n.sink, Some(45));
    assert!(n.source.is_none());
    assert!(!n.connecting);
    assert_eq!(n.addr, v4());
}

#[test]
fn send_packet_without_sink_sends_nothing() {
    let n = Neighbor::<u32, u64>::from_replicator_source(1, v4());
    assert_eq!(n.send_packet(&[1, 2, 3]), None);
}

#[test]
fn send_packet_with_sink_sends_the_frame() {
    let n = Neighbor::<u32, u64>::from_replicator_sink(1, v4());
    let p = [1u8, 2, 3];
    assert_eq!(n.send_packet(&p), Some(prepare(&p)));
    assert_eq!(n.send_packet(&p), Some(vec![4, 0, 0, 0, 0, 0, 0, 0, 0, 3, 0, 0, 0, 1, 2, 3, 0]));
}

#[test]
fn send_packets_leaves_neighbor_unchanged() {
    let mut n = Neighbor::<u32, u64>::from_replicator_sink(8, v4());
    n.send_packets(vec![vec![1u8, 2]]);
    assert_eq!(n.sink, Some(8));
    assert!(n.source.is_none());
    assert!(!n.connecting);
    assert_eq!(n.addr, v4());
}
