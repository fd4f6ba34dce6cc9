use gtp_controller::packet::{GtpuHeader, IpHeader, IpPacket, Ipv4Header, Ipv6Header};

fn ipv4(ihl: u8, length: u16) -> Ipv4Header {
    Ipv4Header {
        ihl,
        dscp: 0,
        ecn: 0,
        length,
        identification: 0x1234,
        flags: 2,
        offset: 0,
        ttl: 64,
        protocol: 17,
        checksum: 0,
        src: 0x0A00_0001,
        dst: 0x0A00_0002,
    }
}

#[test]
fn options_size_is_what_ihl_leaves_over_four() {
    assert_eq!(ipv4(4, 100).options_size(), 0);
    assert_eq!(ipv4(5, 100).options_size(), 1);
    assert_eq!(ipv4(15, 100).options_size(), 11);
    assert_eq!(ipv4(255, 100).options_size(), 251);
}

#[test]
fn options_size_is_zero_for_a_short_ihl() {
    assert_eq!(ipv4(0, 100).options_size(), 0);
    assert_eq!(ipv4(3, 100).options_size(), 0);
}

#[test]
fn payload_size_is_what_length_leaves_over_ihl() {
    assert_eq!(ipv4(5, 100).payload_size(), 95);
    assert_eq!(ipv4(5, 5).payload_size(), 0);
    assert_eq!(ipv4(0, 65535).payload_size(), 65535);
    assert_eq!(ipv4(255, 65535).payload_size(), 65280);
}

#[test]
fn payload_size_is_zero_for_a_short_length() {
    assert_eq!(ipv4(5, 4).payload_size(), 0);
    assert_eq!(ipv4(255, 0).payload_size(), 0);
}

#[test]
fn wrap_records_identifier_and_length() {
    let header = GtpuHeader::wrap(0xDEAD_BEEF, &[1, 2, 3, 4, 5]);
    assert_eq!(header.teid, 0xDEAD_BEEF);
    assert_eq!(header.length, 5);
    assert_eq!(header, GtpuHeader { teid: 0xDEAD_BEEF, length: 5 });
}

#[test]
fn wrap_of_an_empty_payload() {
    let header = GtpuHeader::wrap(0, &[]);
    assert_eq!(header, GtpuHeader { teid: 0, length: 0 });
}

#[test]
fn packets_compare_by_their_fields() {
    let a = IpPacket { version: 4, header: IpHeader::Ipv4(ipv4(5, 40)) };
    let b = IpPacket { version: 4, header: IpHeader::Ipv4(ipv4(5, 40)) };
    let c = IpPacket { version: 4, header: IpHeader::Ipv4(ipv4(5, 41)) };
    assert_eq!(a, b);
    assert_ne!(a, c);
    let v6 = Ipv6Header {
        dscp: 0,
        ecn: 0,
        fl: 7,
        length: 20,
        protocol: 6,
        hl: 64,
        src: 1,
        dst: 2,
    };
    let d = IpPacket { version: 6, header: IpHeader::Ipv6(v6) };
    assert_ne!(a, d);
}
