use opus_voip_traffic::packet::{
    finish_frame, frame_for, generate_ip4, ip4_from_draws, keepalive_payload, make_voice_payload, prep_packet,
    random_port, voice_payload, FrameAddrs,
};
use opus_voip_traffic::IpStrategy;

fn addrs() -> FrameAddrs {
    FrameAddrs {
        src_mac: Some([2, 0, 0, 0, 0, 7]),
        src_ip: [45, 1, 2, 4],
        src_port: 31337,
        dst_ip: [192, 168, 1, 9],
        dst_port: 50864,
    }
}

fn ones_complement_sum(header: &[u8]) -> u32 {
    let mut sum: u32 = header.chunks(2).map(|w| u32::from(w[0]) << 8 | u32::from(w[1])).sum();
    while sum >> 16 != 0 {
        sum = (sum >> 16) + (sum & 0xffff);
    }
    sum
}

#[test]
fn generated_addresses_follow_strategy() {
    for _ in 0..10_000 {
        let even = generate_ip4(IpStrategy::Even);
        assert_eq!(even[3] % 2, 0);
        let odd = generate_ip4(IpStrategy::Odd);
        assert_eq!(odd[3] % 2, 1);
        let any = generate_ip4(IpStrategy::Vanilla);
        for ip in [even, odd, any] {
            assert!(ip[0] >= 1 && ip[0] <= 223);
            assert!(ip[0] != 10 && ip[0] != 127 && ip[0] != 172);
        }
    }
}

#[test]
fn first_octet_skips_reserved() {
    let first = |d: u8| ip4_from_draws(d, 0, 0, 0, IpStrategy::Vanilla)[0];
    assert_eq!(first(1), 1);
    assert_eq!(first(9), 9);
    assert_eq!(first(10), 11);
    assert_eq!(first(125), 126);
    assert_eq!(first(126), 128);
    assert_eq!(first(169), 171);
    assert_eq!(first(170), 173);
    assert_eq!(first(220), 223);
    assert_eq!(ip4_from_draws(5, 6, 7, 201, IpStrategy::Even), [5, 6, 7, 200]);
    assert_eq!(ip4_from_draws(5, 6, 7, 200, IpStrategy::Odd), [5, 6, 7, 201]);
    assert_eq!(ip4_from_draws(5, 6, 7, 200, IpStrategy::Vanilla), [5, 6, 7, 200]);
}

#[test]
fn template_headers() {
    let mut buf = vec![0u8; 60];
    assert_eq!(prep_packet(&mut buf, Some(&addrs())), 42);
    assert_eq!(&buf[0..6], &[0xff; 6]);
    assert_eq!(&buf[6..12], &[2, 0, 0, 0, 0, 7]);
    assert_eq!(&buf[12..14], &[0x08, 0x00]);
    assert_eq!(buf[14], 0x45);
    assert_eq!(buf[22], 64);
    assert_eq!(buf[23], 17);
    assert_eq!(&buf[26..30], &[45, 1, 2, 4]);
    assert_eq!(&buf[30..34], &[192, 168, 1, 9]);
    assert_eq!(&buf[34..38], &[0x7a, 0x69, 0xc6, 0xb0]);
    assert_eq!(&buf[40..42], &[0, 0]);
    let mut plain = vec![5u8; 60];
    assert_eq!(prep_packet(&mut plain, None), 0);
    assert_eq!(plain, vec![5u8; 60]);
}

#[test]
fn finished_frame_has_lengths_and_valid_checksum() {
    let mut template = vec![0u8; 42];
    prep_packet(&mut template, Some(&addrs()));
    let payload = vec![9u8; 100];
    let frame = frame_for(&template, &payload);
    assert_eq!(frame.len(), 142);
    assert_eq!(&frame[16..18], &[0, 128]);
    assert_eq!(&frame[38..40], &[0, 108]);
    assert_ne!(&frame[24..26], &[0, 0]);
    assert_eq!(ones_complement_sum(&frame[14..34]), 0xffff);
    assert_eq!(&frame[42..], &payload[..]);

    let mut again = frame.clone();
    finish_frame(&mut again, 100);
    assert_eq!(again, frame);
}

#[test]
fn payloads() {
    assert_eq!(keepalive_payload(1), vec![1, 0, 0, 0, 0, 0, 0, 0]);
    assert_eq!(keepalive_payload(0x0102030405060708), vec![8, 7, 6, 5, 4, 3, 2, 1]);
    let p = voice_payload(0x01020304, vec![0xaa; 30]);
    assert_eq!(&p[..8], &[0xaa; 8]);
    assert_eq!(&p[8..12], &[1, 2, 3, 4]);
    assert_eq!(&p[12..], &[0xaa; 18]);
    let v = make_voice_payload(100, 0xdeadbeef);
    assert_eq!(v.len(), 128);
    assert_eq!(&v[8..12], &[0xde, 0xad, 0xbe, 0xef]);
    for _ in 0..200 {
        let port = random_port();
        assert!((31000..=61000).contains(&port));
    }
}
