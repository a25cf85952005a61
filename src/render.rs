use vstd::prelude::*;
use crate::layers::{DissectError, Reason};
use crate::pipeline::{DissectOutcome, OutcomeModel};
use crate::registry::Dissector;
use crate::tree::{fields_model, layers_model, Field, FieldModel, FieldTree, FieldValue, LayerModel, LayerNode, TreeModel, ValueModel};

verus! {

/// Relies on `String::push`, which appends one character at the end.
#[verifier::external_body]
fn push_char(s: &mut String, c: char)
    ensures
        final(s)@ == old(s)@.push(c),
{
    s.push(c);
}

/// The lowercase hexadecimal digit of `d` (below 16); its decimal digit
/// where `d` is below 10.
pub open spec fn digit_char(d: u8) -> char {
    if d < 10 {
        ((48 + d) as u8) as char
    } else {
        ((87 + d) as u8) as char
    }
}

/// The decimal digits of `n`, most significant first, with no leading zero.
pub open spec fn decimal(n: nat) -> Seq<char>
    decreases n,
{
    if n < 10 {
        seq![digit_char(n as u8)]
    } else {
        decimal(n / 10).push(digit_char((n % 10) as u8))
    }
}

pub open spec fn hex_byte(b: u8) -> Seq<char> {
    seq![digit_char(b / 16), digit_char(b % 16)]
}

/// Two hexadecimal digits per byte, the bytes separated by colons.
pub open spec fn hex_bytes(s: Seq<u8>) -> Seq<char>
    decreases s.len(),
{
    if s.len() == 0 {
        seq![]
    } else if s.len() == 1 {
        hex_byte(s[0])
    } else {
        hex_bytes(s.drop_last()) + seq![':'] + hex_byte(s.last())
    }
}

pub open spec fn value_text(v: ValueModel) -> Seq<char> {
    match v {
        ValueModel::Uint(n) => decimal(n as nat),
        ValueModel::Bytes(b) => hex_bytes(b),
    }
}

/// Two spaces per level of depth.
pub open spec fn indent(depth: nat) -> Seq<char> {
    Seq::new(2 * depth, |i: int| ' ')
}

/// One printed node: `<indentation><name>: <value>` and a line break.
pub open spec fn line(depth: nat, name: Seq<char>, value: Seq<char>) -> Seq<char> {
    indent(depth) + name + seq![':', ' '] + value + seq!['\n']
}

pub open spec fn fields_text(fs: Seq<FieldModel>) -> Seq<char>
    decreases fs.len(),
{
    if fs.len() == 0 {
        seq![]
    } else {
        fields_text(fs.drop_last()) + line(2, fs.last().name, value_text(fs.last().value))
    }
}

pub open spec fn layer_text(l: LayerModel) -> Seq<char> {
    line(1, l.name, value_text(l.value)) + fields_text(l.fields)
}

pub open spec fn layers_text(ls: Seq<LayerModel>) -> Seq<char>
    decreases ls.len(),
{
    if ls.len() == 0 {
        seq![]
    } else {
        layers_text(ls.drop_last()) + layer_text(ls.last())
    }
}

/// The tree printed depth first: the frame and its length, then each layer
/// one level in, each followed by its fields two levels in.
pub open spec fn tree_text(t: TreeModel) -> Seq<char> {
    line(0, t.name, decimal((t.end - t.start) as nat)) + layers_text(t.layers)
}

pub open spec fn dissector_name(d: Dissector) -> Seq<char> {
    match d {
        Dissector::Ethernet => "Ethernet"@,
        Dissector::Ipv4 => "IPv4"@,
        Dissector::Tcp => "TCP"@,
        Dissector::Udp => "UDP"@,
    }
}

pub open spec fn reason_text(r: Reason) -> Seq<char> {
    match r {
        Reason::Truncated => "truncated header"@,
        Reason::BadVersion => "unexpected version"@,
        Reason::BadHeaderLength => "invalid header length"@,
        Reason::DepthExceeded => "too many layers"@,
    }
}

/// The diagnostic line of a failure: the layer and the reason.
pub open spec fn error_text(e: DissectError) -> Seq<char> {
    "Error in "@ + dissector_name(e.layer) + ": "@ + reason_text(e.reason) + seq!['\n']
}

/// The printed outcome: the tree, then the diagnostic line of the failure
/// if there was one.
pub open spec fn outcome_text(o: OutcomeModel) -> Seq<char> {
    tree_text(o.tree) + match o.error {
        None => Seq::<char>::empty(),
        Some(e) => error_text(e),
    }
}

fn digit(d: u8) -> (c: char)
    requires
        d < 16,
    ensures
        c == digit_char(d),
{
    if d < 10 {
        (48 + d) as char
    } else {
        (87 + d) as char
    }
}

/// Appends the decimal digits of `n`.
pub fn push_decimal(out: &mut String, n: u64)
    ensures
        final(out)@ == old(out)@ + decimal(n as nat),
    decreases n,
{
    if n >= 10 {
        push_decimal(out, n / 10);
    }
    push_char(out, digit((n % 10) as u8));
    assert(final(out)@ =~= old(out)@ + decimal(n as nat));
}

/// Appends the bytes in hexadecimal, separated by colons.
pub fn push_hex(out: &mut String, b: &[u8])
    ensures
        final(out)@ == old(out)@ + hex_bytes(b@),
{
    let ghost start = out@;
    let mut i: usize = 0;
    assert(b@.take(0) =~= seq![]);
    while i < b.len()
        invariant
            i <= b@.len(),
            out@ == start + hex_bytes(b@.take(i as int)),
        decreases b@.len() - i,
    {
        if i > 0 {
            push_char(out, ':');
        }
        push_char(out, digit(b[i] / 16));
        push_char(out, digit(b[i] % 16));
        assert(b@.take(i + 1).drop_last() =~= b@.take(i as int));
        assert(out@ =~= start + hex_bytes(b@.take(i + 1)));
        i = i + 1;
    }
    assert(b@.take(i as int) =~= b@);
}

fn push_value(out: &mut String, v: &FieldValue)
    ensures
        final(out)@ == old(out)@ + value_text(v@),
{
    match v {
        FieldValue::Uint(n) => push_decimal(out, *n),
        FieldValue::Bytes(b) => push_hex(out, b.as_slice()),
    }
}

fn push_indent(out: &mut String, depth: usize)
    requires
        depth <= 2,
    ensures
        final(out)@ == old(out)@ + indent(depth as nat),
{
    let ghost start = out@;
    let mut i: usize = 0;
    while i < 2 * depth
        invariant
            i <= 2 * depth <= 4,
            out@ == start + Seq::new(i as nat, |k: int| ' '),
        decreases 2 * depth - i,
    {
        push_char(out, ' ');
        i = i + 1;
        assert(out@ =~= start + Seq::new(i as nat, |k: int| ' '));
    }
    assert(out@ =~= start + indent(depth as nat));
}

fn push_line(out: &mut String, depth: usize, name: &String, v: &FieldValue)
    requires
        depth <= 2,
    ensures
        final(out)@ == old(out)@ + line(depth as nat, name@, value_text(v@)),
{
    let ghost start = out@;
    push_indent(out, depth);
    out.append(name.as_str());
    push_char(out, ':');
    push_char(out, ' ');
    push_value(out, v);
    push_char(out, '\n');
    assert(out@ =~= start + line(depth as nat, name@, value_text(v@)));
}

fn push_layer(out: &mut String, l: &LayerNode)
    ensures
        final(out)@ == old(out)@ + layer_text(l@),
{
    let ghost start = out@;
    push_line(out, 1, &l.name, &l.value);
    let ghost mid = out@;
    let ghost fs = fields_model(l.fields@);
    let mut i: usize = 0;
    assert(fs.take(0) =~= seq![]);
    while i < l.fields.len()
        invariant
            i <= l.fields@.len(),
            fs == fields_model(l.fields@),
            out@ == mid + fields_text(fs.take(i as int)),
        decreases l.fields@.len() - i,
    {
        let f: &Field = &l.fields[i];
        push_line(out, 2, &f.name, &f.value);
        assert(fs.take(i + 1).drop_last() =~= fs.take(i as int));
        assert(out@ =~= mid + fields_text(fs.take(i + 1)));
        i = i + 1;
    }
    assert(fs.take(i as int) =~= fs);
    assert(out@ =~= start + layer_text(l@));
}

/// Prints a tree as indented text, one line per node, depth first.
pub fn render_tree(t: &FieldTree) -> (r: String)
    requires
        t.start <= t.end,
    ensures
        r@ == tree_text(t@),
{
    let mut out = String::new();
    push_indent(&mut out, 0);
    out.append(t.name.as_str());
    push_char(&mut out, ':');
    push_char(&mut out, ' ');
    push_decimal(&mut out, (t.end - t.start) as u64);
    push_char(&mut out, '\n');
    let ghost mid = out@;
    assert(mid =~= line(0, t.name@, decimal((t@.end - t@.start) as nat)));
    let ghost ls = layers_model(t.layers@);
    let mut i: usize = 0;
    assert(ls.take(0) =~= seq![]);
    while i < t.layers.len()
        invariant
            i <= t.layers@.len(),
            ls == layers_model(t.layers@),
            out@ == mid + layers_text(ls.take(i as int)),
        decreases t.layers@.len() - i,
    {
        push_layer(&mut out, &t.layers[i]);
        assert(ls.take(i + 1).drop_last() =~= ls.take(i as int));
        assert(out@ =~= mid + layers_text(ls.take(i + 1)));
        i = i + 1;
    }
    assert(ls.take(i as int) =~= ls);
    out
}

fn dissector_label(d: Dissector) -> (r: &'static str)
    ensures
        r@ == dissector_name(d),
{
    match d {
        Dissector::Ethernet => "Ethernet",
        Dissector::Ipv4 => "IPv4",
        Dissector::Tcp => "TCP",
        Dissector::Udp => "UDP",
    }
}

fn reason_label(r: Reason) -> (s: &'static str)
    ensures
        s@ == reason_text(r),
{
    match r {
        Reason::Truncated => "truncated header",
        Reason::BadVersion => "unexpected version",
        Reason::BadHeaderLength => "invalid header length",
        Reason::DepthExceeded => "too many layers",
    }
}

/// Prints an outcome: the tree, then a diagnostic line naming the failing
/// layer and the reason, if decoding failed.
pub fn render_outcome(o: &DissectOutcome) -> (r: String)
    requires
        o.tree.start <= o.tree.end,
    ensures
        r@ == outcome_text(o@),
{
    let mut out = render_tree(&o.tree);
    let ghost t = out@;
    match o.error {
        None => {
            assert(out@ =~= outcome_text(o@));
        },
        Some(e) => {
            out.append("Error in ");
            out.append(dissector_label(e.layer));
            out.append(": ");
            out.append(reason_label(e.reason));
            push_char(&mut out, '\n');
            assert(out@ =~= outcome_text(o@));
        },
    }
    out
}

/// The closing line of a capture: `Received: R, dropped: D, if_dropped: I`.
pub open spec fn statistics_text(received: nat, dropped: nat, if_dropped: nat) -> Seq<char> {
    "Received: "@ + decimal(received) + ", dropped: "@ + decimal(dropped) + ", if_dropped: "@ + decimal(if_dropped)
}

/// Prints the capture source's counters of received frames, frames dropped
/// for want of buffer space, and frames dropped by the interface.
pub fn statistics_line(received: u32, dropped: u32, if_dropped: u32) -> (r: String)
    ensures
        r@ == statistics_text(received as nat, dropped as nat, if_dropped as nat),
{
    let mut out = String::new();
    out.append("Received: ");
    push_decimal(&mut out, received as u64);
    out.append(", dropped: ");
    push_decimal(&mut out, dropped as u64);
    out.append(", if_dropped: ");
    push_decimal(&mut out, if_dropped as u64);
    assert(out@ =~= statistics_text(received as nat, dropped as nat, if_dropped as nat));
    out
}

} // verus!
