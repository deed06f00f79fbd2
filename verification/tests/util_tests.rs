use loramesh::addr::{push_decimal, Ipv4Addr};
use loramesh::message::MessageError;
use loramesh::random::{random_broadcast_interval, random_frame_id};
use loramesh::tun::{ipassign, iplinkup, iproute, tun_datagram, tunnel_stub_address, TunError};
use loramesh::util::{composite_key, parse_bool, parse_byte, parse_ipv4, parse_string, to_octets};

#[test]
fn booleans_are_one_byte() {
    assert_eq!(parse_bool(0), Ok(false));
    assert_eq!(parse_bool(1), Ok(true));
    assert_eq!(parse_bool(2), Err(MessageError::InvalidBoolean));
    assert_eq!(parse_bool(255), Err(MessageError::InvalidBoolean));
    assert_eq!(parse_byte(false), 0);
    assert_eq!(parse_byte(true), 1);
}

#[test]
fn octets_and_addresses() {
    assert_eq!(to_octets(&[172, 16, 0, 5]), [172, 16, 0, 5]);
    assert_eq!(parse_ipv4(&[172, 16, 0, 5]), Ipv4Addr::new(172, 16, 0, 5));
    assert_eq!(parse_ipv4(&[172, 16, 0, 5]).octets(), [172, 16, 0, 5]);
    assert_eq!(parse_string(b"abc"), vec![b'a', b'b', b'c']);
    assert_eq!(Ipv4Addr::new(1, 2, 3, 4).to_u32(), 0x01020304);
    assert_eq!(Ipv4Addr::new(255, 255, 255, 255).to_u32(), u32::MAX);
    assert_eq!(Ipv4Addr::new(0, 0, 0, 0).to_u32(), 0);
}

#[test]
fn composite_keys_are_decimal_pairs() {
    assert_eq!(composite_key(&3, &17), "3-17");
    assert_eq!(composite_key(&0, &0), "0-0");
    assert_eq!(composite_key(&255, &100), "255-100");
    assert_eq!(composite_key(&10, &9), "10-9");
    assert_eq!(composite_key(&109, &200), "109-200");
}

#[test]
fn decimal_text_of_every_byte() {
    for value in 0..=255u8 {
        let mut text = String::from("x");
        push_decimal(&mut text, value);
        assert_eq!(text, format!("x{}", value));
    }
}

#[test]
fn address_text_and_privacy() {
    assert_eq!(Ipv4Addr::new(172, 16, 0, 4).to_string(), "172.16.0.4");
    assert_eq!(Ipv4Addr::new(10, 107, 1, 3).to_string(), "10.107.1.3");
    assert_eq!(Ipv4Addr::new(0, 0, 0, 0).to_string(), "0.0.0.0");
    assert_eq!(Ipv4Addr::new(255, 255, 255, 255).to_string(), "255.255.255.255");
    for (addr, private) in [
        ([10, 0, 0, 1], true),
        ([10, 255, 255, 255], true),
        ([9, 255, 255, 255], false),
        ([11, 0, 0, 0], false),
        ([172, 16, 0, 1], true),
        ([172, 31, 255, 255], true),
        ([172, 15, 0, 1], false),
        ([172, 32, 0, 1], false),
        ([192, 168, 0, 1], true),
        ([192, 169, 0, 1], false),
        ([192, 167, 1, 1], false),
        ([8, 8, 8, 8], false),
    ] {
        let ip = Ipv4Addr::new(addr[0], addr[1], addr[2], addr[3]);
        assert_eq!(ip.is_private(), private, "{}", ip.to_string());
        assert_eq!(ip.to_string(), format!("{}.{}.{}.{}", addr[0], addr[1], addr[2], addr[3]));
        assert_eq!(ip.to_u32(), u32::from_be_bytes(addr));
    }
}

#[test]
fn random_numbers_stay_in_range() {
    for _ in 0..2000 {
        let id = random_frame_id();
        assert!((1..=243).contains(&id));
        let seconds = random_broadcast_interval();
        assert!((40..80).contains(&seconds));
    }
}

#[test]
fn tunnel_read_strips_the_prefix() {
    let mut buffer = vec![0u8; 1504];
    buffer[2] = 0x08;
    buffer[4] = 0x45;
    buffer[7] = 20;
    buffer[16..20].copy_from_slice(&[172, 16, 0, 1]);
    buffer[20..24].copy_from_slice(&[172, 16, 0, 3]);
    let packet = tun_datagram(&buffer, 24).unwrap();
    assert_eq!(packet.source(), Ipv4Addr::new(172, 16, 0, 1));
    assert_eq!(packet.destination(), Ipv4Addr::new(172, 16, 0, 3));
    assert_eq!(packet.to_bytes().len(), 20);
    assert_eq!(tun_datagram(&buffer, 3).unwrap_err(), TunError::ShortRead);
    assert_eq!(tun_datagram(&buffer, 0).unwrap_err(), TunError::ShortRead);
    assert_eq!(tun_datagram(&buffer, 4).unwrap_err(), TunError::NotIpv4);
    assert_eq!(tun_datagram(&buffer, 23).unwrap_err(), TunError::NotIpv4);
    buffer[4] = 0x60;
    assert_eq!(tun_datagram(&buffer, 24).unwrap_err(), TunError::NotIpv4);
}

#[test]
fn kernel_commands() {
    assert_eq!(tunnel_stub_address(), Ipv4Addr::new(10, 107, 1, 3));
    assert_eq!(ipassign("loratun0", &Ipv4Addr::new(10, 107, 1, 3)), vec!["addr", "add", "10.107.1.3", "dev", "loratun0"]);
    assert_eq!(
        iproute("loratun0", &Ipv4Addr::new(172, 16, 0, 3), &Ipv4Addr::new(10, 107, 1, 3)),
        vec!["route", "add", "172.16.0.3", "via", "10.107.1.3", "dev", "loratun0"]
    );
    assert_eq!(iplinkup("loratun7"), vec!["link", "set", "dev", "loratun7", "up"]);
}
