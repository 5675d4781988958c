use nethint_bpf::flow::FlowLabel;
use nethint_bpf::packet::{parse_frame, Packet};

fn frame(proto: u8, ihl: u8, total: u16, src: [u8; 4], dst: [u8; 4], sport: u16, dport: u16) -> Vec<u8> {
    let mut f = vec![0u8; 14];
    f[12] = 0x08;
    f[13] = 0x00;
    let mut ip = vec![0u8; ihl as usize * 4];
    ip[0] = 0x40 | ihl;
    ip[2] = (total >> 8) as u8;
    ip[3] = (total & 0xff) as u8;
    ip[9] = proto;
    ip[12..16].copy_from_slice(&src);
    ip[16..20].copy_from_slice(&dst);
    f.extend_from_slice(&ip);
    let mut transport = vec![0u8; if proto == 6 { 20 } else { 8 }];
    transport[0] = (sport >> 8) as u8;
    transport[1] = (sport & 0xff) as u8;
    transport[2] = (dport >> 8) as u8;
    transport[3] = (dport & 0xff) as u8;
    f.extend_from_slice(&transport);
    f
}

#[test]
fn tcp_frame_is_parsed() {
    let f = frame(6, 5, 1000, [10, 0, 0, 1], [10, 0, 0, 2], 40000, 443);
    let p = parse_frame(&f).unwrap();
    assert_eq!(
        p,
        Packet {
            proto: 6,
            saddr: 0x0100_000a,
            daddr: 0x0200_000a,
            sport: 40000,
            dport: 443,
            length: 1000,
        }
    );
}

#[test]
fn udp_frame_is_parsed() {
    let f = frame(17, 5, 60, [192, 168, 1, 7], [8, 8, 8, 8], 5353, 53);
    let p = parse_frame(&f).unwrap();
    assert_eq!(p.proto, 17);
    assert_eq!(p.saddr, u32::from_le_bytes([192, 168, 1, 7]));
    assert_eq!(p.daddr, u32::from_le_bytes([8, 8, 8, 8]));
    assert_eq!(p.sport, 5353);
    assert_eq!(p.dport, 53);
    assert_eq!(p.length, 60);
}

#[test]
fn transport_header_follows_the_ip_options() {
    let f = frame(6, 7, 1500, [1, 2, 3, 4], [5, 6, 7, 8], 0x1234, 0xabcd);
    let p = parse_frame(&f).unwrap();
    assert_eq!(p.sport, 0x1234);
    assert_eq!(p.dport, 0xabcd);
    assert_eq!(p.length, 1500);
}

#[test]
fn short_frames_are_skipped() {
    let f = frame(6, 5, 1000, [10, 0, 0, 1], [10, 0, 0, 2], 1, 2);
    assert!(parse_frame(&[]).is_none());
    assert!(parse_frame(&f[..13]).is_none());
    assert!(parse_frame(&f[..33]).is_none());
    assert!(parse_frame(&f[..34]).is_none());
    assert!(parse_frame(&f[..53]).is_none());
    assert!(parse_frame(&f[..54]).is_some());
    let u = frame(17, 5, 28, [10, 0, 0, 1], [10, 0, 0, 2], 1, 2);
    assert!(parse_frame(&u[..41]).is_none());
    assert!(parse_frame(&u[..42]).is_some());
}

#[test]
fn other_protocols_are_skipped() {
    let mut f = frame(6, 5, 1000, [10, 0, 0, 1], [10, 0, 0, 2], 1, 2);
    f[23] = 1;
    assert!(parse_frame(&f).is_none());
    let mut g = frame(6, 5, 1000, [10, 0, 0, 1], [10, 0, 0, 2], 1, 2);
    g[12] = 0x86;
    g[13] = 0xdd;
    assert!(parse_frame(&g).is_none());
    let mut h = frame(6, 5, 1000, [10, 0, 0, 1], [10, 0, 0, 2], 1, 2);
    h[13] = 0x06;
    assert!(parse_frame(&h).is_none());
}

#[test]
fn options_beyond_the_frame_are_skipped() {
    let mut f = frame(17, 5, 28, [10, 0, 0, 1], [10, 0, 0, 2], 1, 2);
    f[14] = 0x4f;
    assert!(parse_frame(&f).is_none());
}

#[test]
fn packet_gives_label_and_record() {
    let f = frame(6, 5, 1000, [10, 0, 0, 1], [10, 0, 0, 2], 3, 4);
    let p = parse_frame(&f).unwrap();
    assert_eq!(p.label(), FlowLabel::new(6, 0x0100_000a, 0x0200_000a, 3, 4));
    let r = p.record();
    assert_eq!(r.bytes, 1000);
    assert_eq!(r.source(), 0x0a00_0001);
    assert_eq!(r.destination(), 0x0a00_0002);
}
