use vstd::prelude::*;
use crate::bytes::{be_value, bytes_field, bytes_model, read_be, uint_field, uint_model};
use crate::registry::{Dissector, Scope};
use crate::tree::{
    ranges_ordered, field_starts, field_ends, fields_model, layer_wf, Field, FieldModel, FieldValue,
    LayerModel, LayerNode, ValueModel,
};

verus! {

/// Why a layer could not be decoded.
#[derive(Clone, Copy, Debug, PartialEq, Eq, Structural)]
pub enum Reason {
    /// Fewer bytes remain than the header needs.
    Truncated,
    /// The version field holds another version than the layer's.
    BadVersion,
    /// The declared header length is below the minimum or past the end.
    BadHeaderLength,
    /// The bound on the number of layers was reached.
    DepthExceeded,
}

/// A layer that failed to decode, and why.
#[derive(Clone, Copy, Debug, PartialEq, Eq, Structural)]
pub struct DissectError {
    pub layer: Dissector,
    pub reason: Reason,
}

/// What selects the layer after a decoded header.
#[derive(Clone, Copy, Debug, PartialEq, Eq, Structural)]
pub enum NextLayer {
    /// A key to look up in the registry.
    Key(Scope, u16),
    /// The rest is payload that this library does not interpret.
    Payload,
}

/// A decoded header: its node, how many bytes it took, and what follows it.
#[derive(Clone, Debug, PartialEq, Eq)]
pub struct LayerOutput {
    pub node: LayerNode,
    pub consumed: usize,
    pub next: NextLayer,
}

pub ghost struct OutputModel {
    pub node: LayerModel,
    pub consumed: int,
    pub next: NextLayer,
}

impl View for LayerOutput {
    type V = OutputModel;

    open spec fn view(&self) -> OutputModel {
        OutputModel { node: self.node@, consumed: self.consumed as int, next: self.next }
    }
}

pub open spec fn result_view(r: Result<LayerOutput, DissectError>) -> Result<OutputModel, DissectError> {
    match r {
        Ok(o) => Ok(o@),
        Err(e) => Err(e),
    }
}

pub open spec fn fail(layer: Dissector, reason: Reason) -> Result<OutputModel, DissectError> {
    Err(DissectError { layer, reason })
}

/// A decoded header of `consumed` bytes at `off` with the given fields.
pub open spec fn header_out(name: Seq<char>, off: int, consumed: int, fields: Seq<FieldModel>, next: NextLayer) -> Result<OutputModel, DissectError> {
    Ok(OutputModel {
        node: LayerModel { name, value: ValueModel::Uint(consumed), start: off, end: off + consumed, fields },
        consumed,
        next,
    })
}

pub const ETHERNET_HEADER_LEN: usize = 14;
pub const VLAN_TPID: u64 = 0x8100;
pub const VLAN_TAG_LEN: usize = 4;
pub const IPV4_MIN_HEADER_LEN: usize = 20;
pub const TCP_MIN_HEADER_LEN: usize = 20;
pub const UDP_HEADER_LEN: usize = 8;

/// Whether an 802.1Q tag starts at `p`: its first two bytes are the tag
/// protocol identifier where a type field would otherwise stand.
pub open spec fn vlan_tag_at(s: Seq<u8>, p: int) -> bool {
    p + 2 <= s.len() && be_value(s, p, 2) == VLAN_TPID
}

/// The number of tags after the addresses of the frame at `off` (at most two).
pub open spec fn vlan_tag_count(s: Seq<u8>, off: int) -> int {
    if !vlan_tag_at(s, off + 12) {
        0
    } else if !vlan_tag_at(s, off + 16) {
        1
    } else {
        2
    }
}

pub open spec fn vlan_fields(s: Seq<u8>, off: int) -> Seq<FieldModel> {
    let n = vlan_tag_count(s, off);
    if n == 0 {
        seq![]
    } else if n == 1 {
        seq![uint_model("VLAN tag"@, s, off + 14, 2)]
    } else {
        seq![uint_model("VLAN tag"@, s, off + 14, 2), uint_model("VLAN tag"@, s, off + 18, 2)]
    }
}

/// The link-layer header at `off`: two hardware addresses, up to two 802.1Q
/// tags, and a type field that selects the next layer.
pub open spec fn ethernet_model(s: Seq<u8>, off: int) -> Result<OutputModel, DissectError> {
    let q = off + 12 + 4 * vlan_tag_count(s, off);
    if s.len() - off < 14 || q + 2 > s.len() {
        fail(Dissector::Ethernet, Reason::Truncated)
    } else {
        header_out(
            "Ethernet"@,
            off,
            q + 2 - off,
            seq![bytes_model("Destination"@, s, off, off + 6), bytes_model("Source"@, s, off + 6, off + 12)]
                + vlan_fields(s, off) + seq![uint_model("Type"@, s, q, 2)],
            NextLayer::Key(Scope::EtherType, be_value(s, q, 2) as u16),
        )
    }
}

/// The version-4 network header at `off`.
pub open spec fn ipv4_model(s: Seq<u8>, off: int) -> Result<OutputModel, DissectError> {
    let hl = (s[off] as int % 16) * 4;
    if s.len() - off < 20 {
        fail(Dissector::Ipv4, Reason::Truncated)
    } else if s[off] as int / 16 != 4 {
        fail(Dissector::Ipv4, Reason::BadVersion)
    } else if hl < 20 || hl > s.len() - off {
        fail(Dissector::Ipv4, Reason::BadHeaderLength)
    } else {
        header_out(
            "IPv4"@,
            off,
            hl as int,
            seq![
                FieldModel { name: "Version"@, value: ValueModel::Uint(s[off] as int / 16), start: off, end: off + 1 },
                uint_model("Type of service"@, s, off + 1, 1),
                uint_model("Total length"@, s, off + 2, 2),
                uint_model("Identification"@, s, off + 4, 2),
                uint_model("Flags and fragment offset"@, s, off + 6, 2),
                uint_model("Time to live"@, s, off + 8, 1),
                uint_model("Protocol"@, s, off + 9, 1),
                uint_model("Header checksum"@, s, off + 10, 2),
                bytes_model("Source"@, s, off + 12, off + 16),
                bytes_model("Destination"@, s, off + 16, off + 20),
            ] + (if hl > 20 { seq![bytes_model("Options"@, s, off + 20, off + hl)] } else { seq![] }),
            NextLayer::Key(Scope::IpProtocol, s[off + 9] as u16),
        )
    }
}

/// The TCP header at `off`; what follows it is payload.
pub open spec fn tcp_model(s: Seq<u8>, off: int) -> Result<OutputModel, DissectError> {
    let hl = (s[off + 12] as int / 16) * 4;
    if s.len() - off < 20 {
        fail(Dissector::Tcp, Reason::Truncated)
    } else if hl < 20 || hl > s.len() - off {
        fail(Dissector::Tcp, Reason::BadHeaderLength)
    } else {
        header_out(
            "TCP"@,
            off,
            hl as int,
            seq![
                uint_model("Source port"@, s, off, 2),
                uint_model("Destination port"@, s, off + 2, 2),
                uint_model("Sequence number"@, s, off + 4, 4),
                uint_model("Acknowledgment number"@, s, off + 8, 4),
                uint_model("Data offset and flags"@, s, off + 12, 2),
                uint_model("Window"@, s, off + 14, 2),
                uint_model("Checksum"@, s, off + 16, 2),
                uint_model("Urgent pointer"@, s, off + 18, 2),
            ] + (if hl > 20 { seq![bytes_model("Options"@, s, off + 20, off + hl)] } else { seq![] }),
            NextLayer::Payload,
        )
    }
}

/// The UDP header at `off`; what follows it is payload.
pub open spec fn udp_model(s: Seq<u8>, off: int) -> Result<OutputModel, DissectError> {
    if s.len() - off < 8 {
        fail(Dissector::Udp, Reason::Truncated)
    } else {
        header_out(
            "UDP"@,
            off,
            8,
            seq![
                uint_model("Source port"@, s, off, 2),
                uint_model("Destination port"@, s, off + 2, 2),
                uint_model("Length"@, s, off + 4, 2),
                uint_model("Checksum"@, s, off + 6, 2),
            ],
            NextLayer::Payload,
        )
    }
}

#[verifier::opaque]
pub open spec fn layer_model(d: Dissector, s: Seq<u8>, off: int) -> Result<OutputModel, DissectError> {
    match d {
        Dissector::Ethernet => ethernet_model(s, off),
        Dissector::Ipv4 => ipv4_model(s, off),
        Dissector::Tcp => tcp_model(s, off),
        Dissector::Udp => udp_model(s, off),
    }
}

/// What holds of every header that decodes: it starts at `off`, takes at
/// least one byte and no more than remain, and its fields are ordered,
/// disjoint and inside it.
pub open spec fn output_ok(o: OutputModel, s: Seq<u8>, off: int) -> bool {
    &&& o.node.start == off
    &&& o.node.end == off + o.consumed
    &&& 0 < o.consumed <= s.len() - off
    &&& layer_wf(o.node)
}

/// Appends a field that starts after the last one and ends within `[lo, hi)`.
fn push_field(fields: &mut Vec<Field>, f: Field, lo: usize, hi: usize)
    requires
        ranges_ordered(field_starts(fields_model(old(fields)@)), field_ends(fields_model(old(fields)@)), lo as int, hi as int),
        lo <= f.start <= f.end <= hi,
        old(fields)@.len() > 0 ==> old(fields)@.last().end <= f.start && old(fields)@.last().start < f.start,
    ensures
        fields_model(final(fields)@) == fields_model(old(fields)@).push(f@),
        ranges_ordered(field_starts(fields_model(final(fields)@)), field_ends(fields_model(final(fields)@)), lo as int, hi as int),
        final(fields)@.len() > 0,
        final(fields)@.last().start == f.start,
        final(fields)@.last().end == f.end,
{
    let ghost old_fields = fields@;
    fields.push(f);
    assert(fields_model(fields@) =~= fields_model(old_fields).push(fields@.last()@));
    let ghost fm = fields_model(fields@);
    assert(field_starts(fm) =~= field_starts(fields_model(old_fields)).push(fields@.last().start as int));
    assert(field_ends(fm) =~= field_ends(fields_model(old_fields)).push(fields@.last().end as int));
}

fn header_node(name: &str, off: usize, consumed: usize, fields: Vec<Field>, next: NextLayer) -> (o: LayerOutput)
    requires
        off + consumed <= usize::MAX,
    ensures
        o@ == (OutputModel {
            node: (LayerModel { name: name@, value: ValueModel::Uint(consumed as int), start: off as int, end: off + consumed, fields: fields_model(fields@) }),
            consumed: consumed as int,
            next,
        }),
{
    LayerOutput {
        node: LayerNode { name: String::from_str(name), value: FieldValue::Uint(consumed as u64), start: off, end: off + consumed, fields },
        consumed,
        next,
    }
}

/// Decodes the link-layer header at `off`.
pub fn dissect_ethernet(data: &[u8], off: usize) -> (r: Result<LayerOutput, DissectError>)
    requires
        off <= data@.len(),
    ensures
        result_view(r) == ethernet_model(data@, off as int),
        (r is Ok ==> output_ok(r->Ok_0@, data@, off as int)),
{
    let len = data.len();
    if len - off < ETHERNET_HEADER_LEN {
        return Err(DissectError { layer: Dissector::Ethernet, reason: Reason::Truncated });
    }
    let ghost s = data@;
    let mut tags: usize = 0;
    if read_be(data, off + 12, 2) == VLAN_TPID {
        tags = 1;
        if len - off >= 18 && read_be(data, off + 16, 2) == VLAN_TPID {
            tags = 2;
        }
    }
    if len - off < 14 + VLAN_TAG_LEN * tags {
        return Err(DissectError { layer: Dissector::Ethernet, reason: Reason::Truncated });
    }
    let q: usize = off + 12 + VLAN_TAG_LEN * tags;
    let hi: usize = q + 2;
    let mut fields: Vec<Field> = Vec::new();
    assert(fields_model(fields@) =~= seq![]);
    push_field(&mut fields, bytes_field("Destination", data, off, off + 6), off, hi);
    push_field(&mut fields, bytes_field("Source", data, off + 6, off + 12), off, hi);
    if tags >= 1 {
        push_field(&mut fields, uint_field("VLAN tag", data, off + 14, 2), off, hi);
    }
    if tags >= 2 {
        push_field(&mut fields, uint_field("VLAN tag", data, off + 18, 2), off, hi);
    }
    assert(q == off + 12 + 4 * vlan_tag_count(s, off as int));
    push_field(&mut fields, uint_field("Type", data, q, 2), off, hi);
    let key = read_be(data, q, 2) as u16;
    assert(fields_model(fields@) =~= seq![bytes_model("Destination"@, s, off as int, off + 6), bytes_model("Source"@, s, off + 6, off + 12)]
        + vlan_fields(s, off as int) + seq![uint_model("Type"@, s, q as int, 2)]);
    Ok(header_node("Ethernet", off, q + 2 - off, fields, NextLayer::Key(Scope::EtherType, key)))
}

/// Decodes the version-4 network header at `off`.
pub fn dissect_ipv4(data: &[u8], off: usize) -> (r: Result<LayerOutput, DissectError>)
    requires
        off <= data@.len(),
    ensures
        result_view(r) == ipv4_model(data@, off as int),
        (r is Ok ==> output_ok(r->Ok_0@, data@, off as int)),
{
    let len = data.len();
    if len - off < IPV4_MIN_HEADER_LEN {
        return Err(DissectError { layer: Dissector::Ipv4, reason: Reason::Truncated });
    }
    let version: u8 = data[off] / 16;
    let hl: usize = (data[off] % 16) as usize * 4;
    if version != 4 {
        return Err(DissectError { layer: Dissector::Ipv4, reason: Reason::BadVersion });
    }
    if hl < IPV4_MIN_HEADER_LEN || hl > len - off {
        return Err(DissectError { layer: Dissector::Ipv4, reason: Reason::BadHeaderLength });
    }
    let ghost s = data@;
    let hi: usize = off + hl;
    let mut fields: Vec<Field> = Vec::new();
    assert(fields_model(fields@) =~= seq![]);
    let f = Field { name: String::from_str("Version"), value: FieldValue::Uint(version as u64), start: off, end: off + 1 };
    push_field(&mut fields, f, off, hi);
    push_field(&mut fields, uint_field("Type of service", data, off + 1, 1), off, hi);
    push_field(&mut fields, uint_field("Total length", data, off + 2, 2), off, hi);
    push_field(&mut fields, uint_field("Identification", data, off + 4, 2), off, hi);
    push_field(&mut fields, uint_field("Flags and fragment offset", data, off + 6, 2), off, hi);
    push_field(&mut fields, uint_field("Time to live", data, off + 8, 1), off, hi);
    push_field(&mut fields, uint_field("Protocol", data, off + 9, 1), off, hi);
    push_field(&mut fields, uint_field("Header checksum", data, off + 10, 2), off, hi);
    push_field(&mut fields, bytes_field("Source", data, off + 12, off + 16), off, hi);
    push_field(&mut fields, bytes_field("Destination", data, off + 16, off + 20), off, hi);
    if hl > IPV4_MIN_HEADER_LEN {
        push_field(&mut fields, bytes_field("Options", data, off + 20, hi), off, hi);
    }
    let key = data[off + 9] as u16;
    assert(fields_model(fields@) =~= seq![
        FieldModel { name: "Version"@, value: ValueModel::Uint(s[off as int] as int / 16), start: off as int, end: off + 1 },
        uint_model("Type of service"@, s, off + 1, 1),
        uint_model("Total length"@, s, off + 2, 2),
        uint_model("Identification"@, s, off + 4, 2),
        uint_model("Flags and fragment offset"@, s, off + 6, 2),
        uint_model("Time to live"@, s, off + 8, 1),
        uint_model("Protocol"@, s, off + 9, 1),
        uint_model("Header checksum"@, s, off + 10, 2),
        bytes_model("Source"@, s, off + 12, off + 16),
        bytes_model("Destination"@, s, off + 16, off + 20),
    ] + (if hl > 20 { seq![bytes_model("Options"@, s, off + 20, off + hl)] } else { seq![] }));
    Ok(header_node("IPv4", off, hl, fields, NextLayer::Key(Scope::IpProtocol, key)))
}

/// Decodes the TCP header at `off`.
pub fn dissect_tcp(data: &[u8], off: usize) -> (r: Result<LayerOutput, DissectError>)
    requires
        off <= data@.len(),
    ensures
        result_view(r) == tcp_model(data@, off as int),
        (r is Ok ==> output_ok(r->Ok_0@, data@, off as int)),
{
    let len = data.len();
    if len - off < TCP_MIN_HEADER_LEN {
        return Err(DissectError { layer: Dissector::Tcp, reason: Reason::Truncated });
    }
    let hl: usize = (data[off + 12] / 16) as usize * 4;
    if hl < TCP_MIN_HEADER_LEN || hl > len - off {
        return Err(DissectError { layer: Dissector::Tcp, reason: Reason::BadHeaderLength });
    }
    let ghost s = data@;
    let hi: usize = off + hl;
    let mut fields: Vec<Field> = Vec::new();
    assert(fields_model(fields@) =~= seq![]);
    push_field(&mut fields, uint_field("Source port", data, off, 2), off, hi);
    push_field(&mut fields, uint_field("Destination port", data, off + 2, 2), off, hi);
    push_field(&mut fields, uint_field("Sequence number", data, off + 4, 4), off, hi);
    push_field(&mut fields, uint_field("Acknowledgment number", data, off + 8, 4), off, hi);
    push_field(&mut fields, uint_field("Data offset and flags", data, off + 12, 2), off, hi);
    push_field(&mut fields, uint_field("Window", data, off + 14, 2), off, hi);
    push_field(&mut fields, uint_field("Checksum", data, off + 16, 2), off, hi);
    push_field(&mut fields, uint_field("Urgent pointer", data, off + 18, 2), off, hi);
    if hl > TCP_MIN_HEADER_LEN {
        push_field(&mut fields, bytes_field("Options", data, off + 20, hi), off, hi);
    }
    assert(fields_model(fields@) =~= seq![
        uint_model("Source port"@, s, off as int, 2),
        uint_model("Destination port"@, s, off + 2, 2),
        uint_model("Sequence number"@, s, off + 4, 4),
        uint_model("Acknowledgment number"@, s, off + 8, 4),
        uint_model("Data offset and flags"@, s, off + 12, 2),
        uint_model("Window"@, s, off + 14, 2),
        uint_model("Checksum"@, s, off + 16, 2),
        uint_model("Urgent pointer"@, s, off + 18, 2),
    ] + (if hl > 20 { seq![bytes_model("Options"@, s, off + 20, off + hl)] } else { seq![] }));
    Ok(header_node("TCP", off, hl, fields, NextLayer::Payload))
}

/// Decodes the UDP header at `off`.
pub fn dissect_udp(data: &[u8], off: usize) -> (r: Result<LayerOutput, DissectError>)
    requires
        off <= data@.len(),
    ensures
        result_view(r) == udp_model(data@, off as int),
        (r is Ok ==> output_ok(r->Ok_0@, data@, off as int)),
{
    let len = data.len();
    if len - off < UDP_HEADER_LEN {
        return Err(DissectError { layer: Dissector::Udp, reason: Reason::Truncated });
    }
    let ghost s = data@;
    let hi: usize = off + UDP_HEADER_LEN;
    let mut fields: Vec<Field> = Vec::new();
    assert(fields_model(fields@) =~= seq![]);
    push_field(&mut fields, uint_field("Source port", data, off, 2), off, hi);
    push_field(&mut fields, uint_field("Destination port", data, off + 2, 2), off, hi);
    push_field(&mut fields, uint_field("Length", data, off + 4, 2), off, hi);
    push_field(&mut fields, uint_field("Checksum", data, off + 6, 2), off, hi);
    assert(fields_model(fields@) =~= seq![
        uint_model("Source port"@, s, off as int, 2),
        uint_model("Destination port"@, s, off + 2, 2),
        uint_model("Length"@, s, off + 4, 2),
        uint_model("Checksum"@, s, off + 6, 2),
    ]);
    Ok(header_node("UDP", off, UDP_HEADER_LEN, fields, NextLayer::Payload))
}

/// Runs dissector `d` on the header at `off`.
pub fn dissect_layer(d: Dissector, data: &[u8], off: usize) -> (r: Result<LayerOutput, DissectError>)
    requires
        off <= data@.len(),
    ensures
        result_view(r) == layer_model(d, data@, off as int),
        (r is Ok ==> output_ok(r->Ok_0@, data@, off as int)),
{
    proof {
        reveal(layer_model);
    }
    match d {
        Dissector::Ethernet => dissect_ethernet(data, off),
        Dissector::Ipv4 => dissect_ipv4(data, off),
        Dissector::Tcp => dissect_tcp(data, off),
        Dissector::Udp => dissect_udp(data, off),
    }
}

} // verus!
