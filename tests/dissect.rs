use netdissect::layers::{dissect_ethernet, dissect_ipv4, dissect_tcp, dissect_udp, DissectError, NextLayer, Reason};
use netdissect::pipeline::{dissect_frame, DissectOutcome, MAX_DEPTH};
use netdissect::registry::{Dissector, DissectorRegistry, Scope};
use netdissect::render::render_outcome;
use netdissect::tree::{FieldTree, FieldValue, LayerNode};

fn ethernet_header(ethertype: u16) -> Vec<u8> {
    let mut f = vec![0x00, 0x11, 0x22, 0x33, 0x44, 0x55, 0x66, 0x77, 0x88, 0x99, 0xaa, 0xbb];
    f.push((ethertype >> 8) as u8);
    f.push(ethertype as u8);
    f
}

fn ipv4_header(protocol: u8) -> Vec<u8> {
    vec![
        0x45, 0x00, 0x00, 0x2a, 0x12, 0x34, 0x40, 0x00, 0x40, protocol, 0xbe, 0xef, 192, 168, 0, 1, 10, 0, 0, 2,
    ]
}

fn udp_header() -> Vec<u8> {
    vec![0x1f, 0x90, 0xc3, 0x50, 0x00, 0x0a, 0xab, 0xcd]
}

fn tcp_header() -> Vec<u8> {
    vec![
        0x00, 0x50, 0xd4, 0x31, 0x00, 0x00, 0x00, 0x01, 0x00, 0x00, 0x00, 0x02, 0x50, 0x18, 0x01, 0x00, 0x12, 0x34, 0x00,
        0x00,
    ]
}

fn field<'a>(l: &'a LayerNode, name: &str) -> &'a FieldValue {
    &l.fields.iter().find(|f| f.name == name).expect("field present").value
}

fn check_ranges(t: &FieldTree, len: usize) {
    assert_eq!(t.start, 0);
    assert_eq!(t.end, len);
    for (i, l) in t.layers.iter().enumerate() {
        assert!(l.start <= l.end && l.end <= len);
        if i > 0 {
            assert!(t.layers[i - 1].end <= l.start);
            assert!(t.layers[i - 1].start < l.start);
        }
        for (j, f) in l.fields.iter().enumerate() {
            assert!(l.start <= f.start && f.start <= f.end && f.end <= l.end);
            if j > 0 {
                assert!(l.fields[j - 1].end <= f.start);
                assert!(l.fields[j - 1].start < f.start);
            }
        }
    }
}

fn dissect(frame: &[u8]) -> DissectOutcome {
    dissect_frame(&DissectorRegistry::standard(), frame)
}

#[test]
fn end_to_end_udp_three_layers() {
    let mut frame = ethernet_header(0x0800);
    frame.extend(ipv4_header(17));
    frame.extend(udp_header());
    let o = dissect(&frame);
    assert!(o.is_complete());
    let names: Vec<&str> = o.tree.layers.iter().map(|l| l.name.as_str()).collect();
    assert_eq!(names, vec!["Ethernet", "IPv4", "UDP"]);
    assert_eq!(field(&o.tree.layers[1], "Version"), &FieldValue::Uint(4));
    assert_eq!(field(&o.tree.layers[1], "Protocol"), &FieldValue::Uint(17));
    assert_eq!(field(&o.tree.layers[2], "Source port"), &FieldValue::Uint(0x1f90));
    assert_eq!(field(&o.tree.layers[2], "Destination port"), &FieldValue::Uint(0xc350));
    assert_eq!(o.tree.layers[1].start, 14);
    assert_eq!(o.tree.layers[1].end, 34);
    assert_eq!(o.tree.layers[2].start, 34);
    assert_eq!(o.tree.layers[2].end, 42);
    check_ranges(&o.tree, frame.len());
}

#[test]
fn end_to_end_tcp_with_payload() {
    let mut frame = ethernet_header(0x0800);
    frame.extend(ipv4_header(6));
    frame.extend(tcp_header());
    frame.extend(vec![1, 2, 3]);
    let o = dissect(&frame);
    assert!(o.is_complete());
    assert_eq!(o.tree.layers.len(), 4);
    assert_eq!(o.tree.layers[2].name, "TCP");
    assert_eq!(field(&o.tree.layers[1], "Protocol"), &FieldValue::Uint(6));
    assert_eq!(field(&o.tree.layers[2], "Source port"), &FieldValue::Uint(80));
    assert_eq!(field(&o.tree.layers[2], "Destination port"), &FieldValue::Uint(0xd431));
    assert_eq!(field(&o.tree.layers[2], "Sequence number"), &FieldValue::Uint(1));
    assert_eq!(o.tree.layers[3].name, "Payload");
    assert_eq!(o.tree.layers[3].value, FieldValue::Bytes(vec![1, 2, 3]));
    assert_eq!(o.tree.layers[3].start, 54);
    check_ranges(&o.tree, frame.len());
}

#[test]
fn short_buffers_fail_at_link_layer() {
    for n in 0..14usize {
        let frame = vec![0u8; n];
        let e = dissect_ethernet(&frame, 0).unwrap_err();
        assert_eq!(e, DissectError { layer: Dissector::Ethernet, reason: Reason::Truncated });
        let o = dissect(&frame);
        assert_eq!(o.error, Some(e));
        assert!(o.tree.layers.is_empty());
        check_ranges(&o.tree, n);
    }
}

#[test]
fn unknown_ethertype_gives_opaque_leaf() {
    let mut frame = ethernet_header(0x86dd);
    frame.extend(vec![9, 8, 7, 6, 5]);
    let o = dissect(&frame);
    assert!(o.is_complete());
    assert_eq!(o.tree.layers.len(), 2);
    let leaf = &o.tree.layers[1];
    assert_eq!(leaf.name, "Unknown payload");
    assert!(leaf.fields.is_empty());
    assert_eq!(leaf.value, FieldValue::Bytes(vec![9, 8, 7, 6, 5]));
    assert_eq!((leaf.start, leaf.end), (14, 19));
    check_ranges(&o.tree, frame.len());
}

#[test]
fn unknown_ethertype_with_nothing_after() {
    let frame = ethernet_header(0x0806);
    let o = dissect(&frame);
    assert!(o.is_complete());
    assert_eq!(o.tree.layers[1].value, FieldValue::Bytes(vec![]));
    assert_eq!((o.tree.layers[1].start, o.tree.layers[1].end), (14, 14));
}

#[test]
fn dissection_is_deterministic() {
    let mut frame = ethernet_header(0x0800);
    frame.extend(ipv4_header(6));
    frame.extend(vec![0u8; 7]);
    let a = dissect(&frame);
    let b = dissect(&frame);
    assert_eq!(a, b);
    assert_eq!(render_outcome(&a), render_outcome(&b));
}

#[test]
fn partial_tree_kept_on_failure() {
    let mut frame = ethernet_header(0x0800);
    frame.extend(ipv4_header(6));
    frame.extend(vec![0u8; 7]);
    let o = dissect(&frame);
    assert_eq!(o.error, Some(DissectError { layer: Dissector::Tcp, reason: Reason::Truncated }));
    assert_eq!(o.tree.layers.len(), 2);
    assert_eq!(o.tree.layers[1].name, "IPv4");
    check_ranges(&o.tree, frame.len());
}

#[test]
fn vlan_tags_are_skipped() {
    let mut frame = ethernet_header(0x8100);
    frame.extend(vec![0x00, 0x05, 0x81, 0x00, 0x00, 0x07, 0x08, 0x00]);
    frame.extend(ipv4_header(17));
    frame.extend(udp_header());
    let o = dissect(&frame);
    assert!(o.is_complete());
    let eth = &o.tree.layers[0];
    assert_eq!(eth.end, 22);
    let tags: Vec<&FieldValue> = eth.fields.iter().filter(|f| f.name == "VLAN tag").map(|f| &f.value).collect();
    assert_eq!(tags, vec![&FieldValue::Uint(5), &FieldValue::Uint(7)]);
    assert_eq!(field(eth, "Type"), &FieldValue::Uint(0x0800));
    assert_eq!(o.tree.layers[1].name, "IPv4");
    check_ranges(&o.tree, frame.len());
}

#[test]
fn third_vlan_tag_is_not_followed() {
    let mut frame = ethernet_header(0x8100);
    frame.extend(vec![0x00, 0x01, 0x81, 0x00, 0x00, 0x02, 0x81, 0x00, 0x00, 0x03]);
    let out = dissect_ethernet(&frame, 0).unwrap();
    assert_eq!(out.consumed, 22);
    assert_eq!(out.next, NextLayer::Key(Scope::EtherType, 0x8100));
}

#[test]
fn truncated_vlan_tag() {
    let mut frame = ethernet_header(0x8100);
    frame.extend(vec![0x00, 0x01, 0x08]);
    let e = dissect_ethernet(&frame, 0).unwrap_err();
    assert_eq!(e.reason, Reason::Truncated);
}

#[test]
fn ipv4_bad_version() {
    let mut h = ipv4_header(6);
    h[0] = 0x65;
    let e = dissect_ipv4(&h, 0).unwrap_err();
    assert_eq!(e, DissectError { layer: Dissector::Ipv4, reason: Reason::BadVersion });
}

#[test]
fn ipv4_bad_header_length() {
    let mut h = ipv4_header(6);
    h[0] = 0x44;
    assert_eq!(dissect_ipv4(&h, 0).unwrap_err().reason, Reason::BadHeaderLength);
    h[0] = 0x46;
    assert_eq!(dissect_ipv4(&h, 0).unwrap_err().reason, Reason::BadHeaderLength);
    h.extend(vec![1, 2, 3, 4]);
    let out = dissect_ipv4(&h, 0).unwrap();
    assert_eq!(out.consumed, 24);
    assert_eq!(field(&out.node, "Options"), &FieldValue::Bytes(vec![1, 2, 3, 4]));
}

#[test]
fn ipv4_truncated() {
    let h = ipv4_header(6);
    assert_eq!(dissect_ipv4(&h[..19], 0).unwrap_err().reason, Reason::Truncated);
}

#[test]
fn tcp_bad_data_offset() {
    let mut h = tcp_header();
    h[12] = 0x40;
    assert_eq!(dissect_tcp(&h, 0).unwrap_err(), DissectError { layer: Dissector::Tcp, reason: Reason::BadHeaderLength });
    h[12] = 0x60;
    assert_eq!(dissect_tcp(&h, 0).unwrap_err().reason, Reason::BadHeaderLength);
}

#[test]
fn udp_fields_at_offset() {
    let mut data = vec![0xff, 0xff];
    data.extend(udp_header());
    assert_eq!(dissect_udp(&data, 3).unwrap_err(), DissectError { layer: Dissector::Udp, reason: Reason::Truncated });
    let out = dissect_udp(&data, 2).unwrap();
    assert_eq!((out.node.start, out.node.end, out.consumed), (2, 10, 8));
    assert_eq!(out.next, NextLayer::Payload);
    assert_eq!(field(&out.node, "Length"), &FieldValue::Uint(10));
    assert_eq!(field(&out.node, "Checksum"), &FieldValue::Uint(0xabcd));
    assert_eq!(out.node.fields[1].start, 4);
}

#[test]
fn nested_ipv4_stops_at_depth_bound() {
    let mut frame = ethernet_header(0x0800);
    for _ in 0..10 {
        frame.extend(ipv4_header(4));
    }
    let o = dissect(&frame);
    assert_eq!(o.error, Some(DissectError { layer: Dissector::Ipv4, reason: Reason::DepthExceeded }));
    assert_eq!(o.tree.layers.len(), MAX_DEPTH);
    check_ranges(&o.tree, frame.len());
}

#[test]
fn empty_registry_leaves_network_layer_opaque() {
    let mut frame = ethernet_header(0x0800);
    frame.extend(ipv4_header(17));
    let o = dissect_frame(&DissectorRegistry::new(), &frame);
    assert!(o.is_complete());
    assert_eq!(o.tree.layers.len(), 2);
    assert_eq!(o.tree.layers[1].name, "Unknown payload");
    assert_eq!(o.tree.layers[1].value, FieldValue::Bytes(ipv4_header(17)));
}

#[test]
fn registry_later_registration_wins() {
    let mut r = DissectorRegistry::new();
    assert_eq!(r.lookup(Scope::IpProtocol, 6), None);
    r.register(Scope::IpProtocol, 6, Dissector::Udp);
    r.register(Scope::IpProtocol, 6, Dissector::Tcp);
    assert_eq!(r.lookup(Scope::IpProtocol, 6), Some(Dissector::Tcp));
    assert_eq!(r.lookup(Scope::EtherType, 6), None);
    let s = DissectorRegistry::standard();
    assert_eq!(s.lookup(Scope::EtherType, 0x0800), Some(Dissector::Ipv4));
    assert_eq!(s.lookup(Scope::IpProtocol, 17), Some(Dissector::Udp));
}
