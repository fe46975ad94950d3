use hello_pi::ip::Address;
use hello_pi::ip::Interface;
use hello_pi::ip::InterfaceError;
use hello_pi::ip::RawNode;
use hello_pi::ip::RawSockaddr;
use hello_pi::ip::decode_ipv4;
use hello_pi::ip::decode_ipv6;
use hello_pi::ip::get_if_addresses;
use hello_pi::ip::non_loopback_v4;

const AF4: u16 = 2;
const AF6: u16 = 10;

fn v4_node(name: &str, octets: [u8; 4]) -> RawNode {
    RawNode {
        name: name.as_bytes().to_vec(),
        addr: Some(RawSockaddr { family: AF4, addr_bytes: octets.to_vec() }),
    }
}

fn v6_node(name: &str, bytes: [u8; 16]) -> RawNode {
    RawNode {
        name: name.as_bytes().to_vec(),
        addr: Some(RawSockaddr { family: AF6, addr_bytes: bytes.to_vec() }),
    }
}

fn pairs(records: &[Interface]) -> Vec<(String, Address)> {
    let mut out = Vec::new();
    for rec in records {
        out.push((rec.name.clone(), rec.addr));
    }
    out
}

fn same_set(a: &[(String, Address)], b: &[(String, Address)]) -> bool {
    a.iter().all(|x| b.contains(x)) && b.iter().all(|x| a.contains(x))
}

#[test]
fn decode_ipv4_splits_big_endian_octets() {
    // 192.168.1.10 as a raw big-endian 32-bit value.
    assert_eq!(decode_ipv4(0xC0A8_010A), Address::V4(192, 168, 1, 10));
    assert_eq!(decode_ipv4(0x7F00_0001), Address::V4(127, 0, 0, 1));
    assert_eq!(decode_ipv4(0), Address::V4(0, 0, 0, 0));
}

#[test]
fn decode_ipv6_groups_network_order_bytes() {
    // 2001:0db8::1 in network byte order.
    let bytes = vec![0x20, 0x01, 0x0d, 0xb8, 0, 0, 0, 0, 0, 0, 0, 0, 0, 0, 0, 1];
    assert_eq!(
        decode_ipv6(&bytes),
        Address::V6(0x2001, 0x0db8, 0, 0, 0, 0, 0, 1)
    );
}

#[test]
fn unrecognized_family_is_skipped_without_error() {
    let nodes = vec![
        RawNode {
            name: b"ll0".to_vec(),
            addr: Some(RawSockaddr { family: 17, addr_bytes: vec![1, 2, 3, 4, 5, 6] }),
        },
        v4_node("eth0", [10, 0, 0, 5]),
    ];
    let records = get_if_addresses(Some(nodes), AF4, AF6).unwrap();
    assert_eq!(records.len(), 1);
    assert_eq!(records[0].name, "eth0");
    assert_eq!(records[0].addr, Address::V4(10, 0, 0, 5));
}

#[test]
fn absent_address_is_skipped_without_error() {
    let nodes = vec![
        RawNode { name: b"dummy0".to_vec(), addr: None },
        v4_node("eth0", [10, 0, 0, 5]),
    ];
    let records = get_if_addresses(Some(nodes), AF4, AF6).unwrap();
    assert_eq!(records.len(), 1);
    assert_eq!(records[0].name, "eth0");
}

#[test]
fn malformed_extent_is_skipped_without_error() {
    let nodes = vec![RawNode {
        name: b"bad0".to_vec(),
        addr: Some(RawSockaddr { family: AF4, addr_bytes: vec![1, 2, 3] }),
    }];
    let records = get_if_addresses(Some(nodes), AF4, AF6).unwrap();
    assert!(records.is_empty());
}

#[test]
fn query_failure_yields_query_failed() {
    let r = get_if_addresses(None, AF4, AF6);
    assert!(matches!(r, Err(InterfaceError::QueryFailed)));
}

#[test]
fn empty_list_yields_no_records() {
    let records = get_if_addresses(Some(Vec::new()), AF4, AF6).unwrap();
    assert!(records.is_empty());
}

#[test]
fn returned_names_are_nonempty() {
    let nodes = vec![
        v4_node("lo0", [127, 0, 0, 1]),
        v6_node("lo0", [0, 0, 0, 0, 0, 0, 0, 0, 0, 0, 0, 0, 0, 0, 0, 1]),
        v4_node("eth0", [10, 0, 0, 5]),
    ];
    let records = get_if_addresses(Some(nodes), AF4, AF6).unwrap();
    assert_eq!(records.len(), 3);
    for rec in &records {
        assert!(!rec.name.is_empty());
    }
}

#[test]
fn invalid_name_bytes_are_substituted_not_fatal() {
    let nodes = vec![RawNode {
        name: vec![0xff, 0xfe],
        addr: Some(RawSockaddr { family: AF4, addr_bytes: vec![10, 0, 0, 5] }),
    }];
    let records = get_if_addresses(Some(nodes), AF4, AF6).unwrap();
    assert_eq!(records.len(), 1);
    assert_eq!(records[0].name, "\u{FFFD}\u{FFFD}");
}

#[test]
fn two_calls_on_same_nodes_agree_as_sets() {
    let make = |order: bool| {
        let mut nodes = vec![
            v4_node("lo0", [127, 0, 0, 1]),
            v6_node("lo0", [0, 0, 0, 0, 0, 0, 0, 0, 0, 0, 0, 0, 0, 0, 0, 1]),
            v4_node("eth0", [10, 0, 0, 5]),
        ];
        if !order {
            nodes.reverse();
        }
        nodes
    };
    let first = get_if_addresses(Some(make(true)), AF4, AF6).unwrap();
    let second = get_if_addresses(Some(make(false)), AF4, AF6).unwrap();
    assert!(same_set(&pairs(&first), &pairs(&second)));
}

#[test]
fn end_to_end_three_nodes_and_display_filter() {
    let nodes = vec![
        v4_node("lo0", [127, 0, 0, 1]),
        v6_node("lo0", [0, 0, 0, 0, 0, 0, 0, 0, 0, 0, 0, 0, 0, 0, 0, 1]),
        v4_node("eth0", [10, 0, 0, 5]),
    ];
    let records = get_if_addresses(Some(nodes), AF4, AF6).unwrap();
    let expected = vec![
        ("lo0".to_owned(), Address::V4(127, 0, 0, 1)),
        ("lo0".to_owned(), Address::V6(0, 0, 0, 0, 0, 0, 0, 1)),
        ("eth0".to_owned(), Address::V4(10, 0, 0, 5)),
    ];
    assert!(same_set(&pairs(&records), &expected));

    let kept = non_loopback_v4(&records);
    assert_eq!(kept.len(), 1);
    assert_eq!(kept[0].name, "eth0");
    assert_eq!(kept[0].addr, Address::V4(10, 0, 0, 5));
}

#[test]
fn loopback_filter_drops_loopback_v4_and_all_v6() {
    let records = vec![
        Interface { name: "lo0".to_owned(), addr: Address::V4(127, 0, 0, 1) },
        Interface { name: "lo1".to_owned(), addr: Address::V4(127, 1, 2, 3) },
        Interface { name: "eth1".to_owned(), addr: Address::V6(0xfe80, 0, 0, 0, 0, 0, 0, 1) },
        Interface { name: "eth0".to_owned(), addr: Address::V4(192, 168, 1, 10) },
    ];
    let kept = non_loopback_v4(&records);
    assert_eq!(kept.len(), 1);
    assert_eq!(kept[0], Interface { name: "eth0".to_owned(), addr: Address::V4(192, 168, 1, 10) });
}
