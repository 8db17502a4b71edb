use sendme_core::ticket::{create_nearby_ticket, is_direct, TicketFormat, TransportAddress};

#[test]
fn ticket_drops_relay_addresses() {
    let addrs = vec![
        TransportAddress::Direct("192.168.1.5:4433".to_string()),
        TransportAddress::Relay("https://relay.example/".to_string()),
        TransportAddress::Direct("192.168.1.6:4433".to_string()),
    ];
    let ticket = create_nearby_ticket("node-1".to_string(), &addrs, vec![0xab, 0xcd]);
    assert_eq!(ticket.node_id, "node-1");
    assert_eq!(ticket.hash, vec![0xab, 0xcd]);
    assert_eq!(ticket.format, TicketFormat::HashSeq);
    assert_eq!(
        ticket.addresses,
        vec![
            TransportAddress::Direct("192.168.1.5:4433".to_string()),
            TransportAddress::Direct("192.168.1.6:4433".to_string()),
        ]
    );
}

#[test]
fn ticket_with_only_relay_addresses_is_empty() {
    let addrs = vec![
        TransportAddress::Relay("https://relay-a.example/".to_string()),
        TransportAddress::Relay("https://relay-b.example/".to_string()),
    ];
    let ticket = create_nearby_ticket("node-1".to_string(), &addrs, vec![1]);
    assert!(ticket.addresses.is_empty());
    assert_eq!(ticket.format, TicketFormat::HashSeq);
}

#[test]
fn ticket_keeps_direct_addresses_in_order() {
    let addrs = vec![
        TransportAddress::Direct("a".to_string()),
        TransportAddress::Direct("b".to_string()),
        TransportAddress::Direct("c".to_string()),
    ];
    let ticket = create_nearby_ticket("n".to_string(), &addrs, vec![]);
    assert_eq!(
        ticket.addresses,
        vec![
            TransportAddress::Direct("a".to_string()),
            TransportAddress::Direct("b".to_string()),
            TransportAddress::Direct("c".to_string()),
        ]
    );
}

#[test]
fn is_direct_distinguishes_kinds() {
    assert!(is_direct(&TransportAddress::Direct("1.2.3.4:5".to_string())));
    assert!(!is_direct(&TransportAddress::Relay("https://relay.example/".to_string())));
}
