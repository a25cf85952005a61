use netdissect::layers::{DissectError, Reason};
use netdissect::pipeline::{dissect_frame, DissectOutcome};
use netdissect::registry::{Dissector, DissectorRegistry};
use netdissect::render::{push_decimal, push_hex, render_outcome, render_tree, statistics_line};
use netdissect::tree::{Field, FieldTree, FieldValue, LayerNode};

#[test]
fn decimal_digits() {
    let mut s = String::new();
    push_decimal(&mut s, 0);
    assert_eq!(s, "0");
    let mut s = String::from("x");
    push_decimal(&mut s, 18446744073709551615);
    assert_eq!(s, "x18446744073709551615");
}

#[test]
fn hex_bytes_with_colons() {
    let mut s = String::new();
    push_hex(&mut s, &[0x00, 0xab, 0x7f]);
    assert_eq!(s, "00:ab:7f");
    let mut s = String::new();
    push_hex(&mut s, &[]);
    assert_eq!(s, "");
}

#[test]
fn statistics_line_format() {
    assert_eq!(statistics_line(12, 0, 3), "Received: 12, dropped: 0, if_dropped: 3");
}

#[test]
fn tree_rendering_is_indented_depth_first() {
    let t = FieldTree {
        name: "Frame".to_string(),
        start: 0,
        end: 3,
        layers: vec![LayerNode {
            name: "L".to_string(),
            value: FieldValue::Uint(3),
            start: 0,
            end: 3,
            fields: vec![
                Field { name: "a".to_string(), value: FieldValue::Uint(258), start: 0, end: 2 },
                Field { name: "b".to_string(), value: FieldValue::Bytes(vec![0x0f]), start: 2, end: 3 },
            ],
        }],
    };
    assert_eq!(render_tree(&t), "Frame: 3\n  L: 3\n    a: 258\n    b: 0f\n");
}

#[test]
fn failed_outcome_ends_with_diagnostic() {
    let o = DissectOutcome {
        tree: FieldTree { name: "Frame".to_string(), start: 0, end: 5, layers: vec![] },
        error: Some(DissectError { layer: Dissector::Ethernet, reason: Reason::Truncated }),
    };
    assert_eq!(render_outcome(&o), "Frame: 5\nError in Ethernet: truncated header\n");
}

#[test]
fn rendered_frame() {
    let mut frame = vec![1, 2, 3, 4, 5, 6, 7, 8, 9, 10, 11, 12, 0x88, 0xb5];
    frame.push(0xee);
    let o = dissect_frame(&DissectorRegistry::standard(), &frame);
    let text = render_outcome(&o);
    assert_eq!(
        text,
        "Frame: 15\n  Ethernet: 14\n    Destination: 01:02:03:04:05:06\n    Source: 07:08:09:0a:0b:0c\n    Type: 34997\n  Unknown payload: ee\n"
    );
}
