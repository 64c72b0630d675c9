use lucky_wol_agent::wake::{
    build_magic_packet, default_mac_address, mac_address_text, plan_wake_up, ReplyWakeUp,
};

fn packet_of(address: [u8; 6]) -> Vec<u8> {
    let mut packet = vec![0xffu8; 6];
    for _ in 0..16 {
        packet.extend_from_slice(&address);
    }
    packet
}

fn request(macs: &[&str], broadcasts: &[&str], port: u16, repeat: u8) -> ReplyWakeUp {
    ReplyWakeUp {
        mac_list: macs.iter().map(|mac| mac.to_string()).collect(),
        broadcast_ips: broadcasts.iter().map(|ip| ip.to_string()).collect(),
        port,
        repeat,
    }
}

#[test]
fn a_magic_packet_repeats_the_address() {
    let packet = build_magic_packet("00:1a:2B:3c:4D:5e").unwrap();
    assert_eq!(packet.len(), 102);
    assert_eq!(packet, packet_of([0x00, 0x1a, 0x2b, 0x3c, 0x4d, 0x5e]));
}

#[test]
fn separators_do_not_matter() {
    let packet = build_magic_packet("001A2B3C4D5E").unwrap();
    for mac in ["00-1A-2B-3C-4D-5E", "00:1a:2b:3c:4d:5e", "::001a-2b3c4d-5e:", "0-0:1A2B3C4D5E"] {
        assert_eq!(build_magic_packet(mac).unwrap(), packet);
    }
    assert_eq!(build_magic_packet("00:1g:00:00:00:00"), build_magic_packet("001g00000000"));
}

#[test]
fn an_address_has_twelve_digits() {
    for mac in ["", "00:1A:2B:3C:4D", "00:1A:2B:3C:4D:5E:6F", "00 1A 2B 3C 4D 5E", "日本"] {
        assert_eq!(build_magic_packet(mac), Err(format!("Invalid MAC address: {}", mac)));
    }
}

#[test]
fn pairs_that_are_no_bytes_are_refused() {
    assert_eq!(
        build_magic_packet("00:1A:2B:3C:4D:5G"),
        Err("invalid digit found in string".to_string())
    );
    assert_eq!(
        build_magic_packet("日本語abc"),
        Err("incomplete utf-8 byte sequence from index 0".to_string())
    );
    assert_eq!(build_magic_packet("é0000000000"), Err("invalid digit found in string".to_string()));
}

#[test]
fn a_plus_sign_stands_in_front_of_a_digit() {
    assert_eq!(build_magic_packet("+1+a+F+0+9+f").unwrap(), packet_of([1, 10, 15, 0, 9, 15]));
    assert_eq!(
        build_magic_packet("1+0000000000"),
        Err("invalid digit found in string".to_string())
    );
}

#[test]
fn the_text_of_an_address_is_upper_case() {
    assert_eq!(mac_address_text(Some([0x00, 0x1a, 0x2b, 0x3c, 0x4d, 0xff])), "00:1A:2B:3C:4D:FF");
    assert_eq!(mac_address_text(None), "");
}

#[test]
fn the_own_address_can_be_woken() {
    for address in [[0u8; 6], [255; 6], [1, 0x23, 0x45, 0x67, 0x89, 0xab]] {
        assert_eq!(
            build_magic_packet(&mac_address_text(Some(address))).unwrap(),
            packet_of(address)
        );
    }
    let own = default_mac_address();
    if !own.is_empty() {
        assert_eq!(build_magic_packet(&own).unwrap().len(), 102);
        assert_ne!(own, "00:00:00:00:00:00");
    }
}

#[test]
fn every_broadcast_address_gets_every_packet() {
    let plan = plan_wake_up(&request(
        &["00:00:00:00:00:01", "00:00:00:00:00:02"],
        &["192.168.1.255", "10.0.0.255"],
        9,
        5,
    ));
    assert_eq!(plan.outcome, Ok(()));
    let sent: Vec<(String, u8, u8)> = plan
        .datagrams
        .iter()
        .map(|datagram| (datagram.target.clone(), datagram.packet[11], datagram.copies))
        .collect();
    assert_eq!(
        sent,
        vec![
            ("192.168.1.255:9".to_string(), 1, 5),
            ("192.168.1.255:9".to_string(), 2, 5),
            ("10.0.0.255:9".to_string(), 1, 5),
            ("10.0.0.255:9".to_string(), 2, 5),
        ]
    );
    assert_eq!(plan.datagrams[3].packet, packet_of([0, 0, 0, 0, 0, 2]));
}

#[test]
fn a_packet_goes_out_at_least_once() {
    let plan = plan_wake_up(&request(&["000000000001"], &["255.255.255.255"], 40000, 0));
    assert_eq!(plan.datagrams.len(), 1);
    assert_eq!(plan.datagrams[0].copies, 1);
    assert_eq!(plan.datagrams[0].target, "255.255.255.255:40000");
}

#[test]
fn an_invalid_address_ends_the_work_at_its_turn() {
    let plan = plan_wake_up(&request(&["000000000001", "oops", "000000000003"], &["a", "b"], 7, 2));
    assert_eq!(plan.outcome, Err("Invalid MAC address: oops".to_string()));
    assert_eq!(plan.datagrams.len(), 1);
    assert_eq!(plan.datagrams[0].target, "a:7");
}

#[test]
fn without_broadcast_addresses_nothing_is_sent() {
    let plan = plan_wake_up(&request(&["oops"], &[], 9, 1));
    assert_eq!(plan.outcome, Ok(()));
    assert!(plan.datagrams.is_empty());
    let plan = plan_wake_up(&request(&[], &["a"], 9, 1));
    assert_eq!(plan.outcome, Ok(()));
    assert!(plan.datagrams.is_empty());
}

#[test]
fn letter_case_does_not_matter() {
    let packet = build_magic_packet("aa:bb:cc:dd:ee:0f").unwrap();
    for mac in ["AA:BB:CC:DD:EE:0F", "Aa-bBCc-dD:eE0f", "aabbccddee0f"] {
        assert_eq!(build_magic_packet(mac).unwrap(), packet);
    }
    assert_eq!(build_magic_packet("+A+b+C+d+E+f"), build_magic_packet("+a+B+c+D+e+F"));
    for i in 6..102 {
        assert_eq!(packet[i], packet[6 + (i - 6) % 6]);
    }
}
