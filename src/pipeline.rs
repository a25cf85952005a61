use vstd::prelude::*;
use crate::bytes::copy_range;
use crate::layers::{dissect_layer, ethernet_model, layer_model, DissectError, NextLayer, Reason, ETHERNET_HEADER_LEN};
use crate::render::outcome_text;
use crate::registry::{lookup_in, Dissector, DissectorRegistry, Registration};
use crate::tree::{
    layer_ends, layer_starts, layer_wf, layers_model, ranges_ordered, tree_wf, FieldTree, FieldValue,
    LayerModel, LayerNode, TreeModel, ValueModel,
};

verus! {

/// The most layers that one frame is decoded into before dissection stops.
pub const MAX_DEPTH: usize = 8;

/// The tree of a frame, and the failure that stopped decoding, if any. On a
/// failure the tree holds the layers decoded before it.
#[derive(Clone, Debug, PartialEq, Eq)]
pub struct DissectOutcome {
    pub tree: FieldTree,
    pub error: Option<DissectError>,
}

pub ghost struct OutcomeModel {
    pub tree: TreeModel,
    pub error: Option<DissectError>,
}

impl View for DissectOutcome {
    type V = OutcomeModel;

    open spec fn view(&self) -> OutcomeModel {
        OutcomeModel { tree: self.tree@, error: self.error }
    }
}

impl DissectOutcome {
    /// Whether every layer decoded.
    pub fn is_complete(&self) -> (r: bool)
        ensures
            r == (self.error is None),
    {
        self.error.is_none()
    }
}

/// A leaf holding the frame's bytes from `start` to its end, undecoded.
pub open spec fn opaque_model(name: Seq<char>, s: Seq<u8>, start: int) -> LayerModel {
    LayerModel { name, value: ValueModel::Bytes(s.subrange(start, s.len() as int)), start, end: s.len() as int, fields: seq![] }
}

/// The layers decoded from `off` on, starting with dissector `d` after
/// `depth` layers, and the failure that stopped decoding, if any.
///
/// A decoded header is followed by the layer that its key selects in the
/// registry; by an opaque leaf of the remaining bytes where the key selects
/// nothing; and by a payload leaf of the remaining bytes, if there are any,
/// where the header ends the chain.
#[verifier::opaque]
pub open spec fn chain(reg: Seq<Registration>, s: Seq<u8>, d: Dissector, off: int, depth: int) -> (Seq<LayerModel>, Option<DissectError>)
    decreases MAX_DEPTH - depth,
{
    if depth >= MAX_DEPTH {
        (seq![], Some(DissectError { layer: d, reason: Reason::DepthExceeded }))
    } else {
        match layer_model(d, s, off) {
            Err(e) => (seq![], Some(e)),
            Ok(o) => {
                let next_off = off + o.consumed;
                match o.next {
                    NextLayer::Payload => if next_off < s.len() {
                        (seq![o.node, opaque_model("Payload"@, s, next_off)], None)
                    } else {
                        (seq![o.node], None)
                    },
                    NextLayer::Key(scope, key) => match lookup_in(reg, scope, key) {
                        None => (seq![o.node, opaque_model("Unknown payload"@, s, next_off)], None),
                        Some(d2) => if next_off >= s.len() {
                            (seq![o.node], None)
                        } else {
                            let rest = chain(reg, s, d2, next_off, depth + 1);
                            (seq![o.node] + rest.0, rest.1)
                        },
                    },
                }
            },
        }
    }
}

/// The outcome of dissecting frame `s` from its link layer on.
pub open spec fn frame_model(reg: Seq<Registration>, s: Seq<u8>) -> OutcomeModel {
    let c = chain(reg, s, Dissector::Ethernet, 0, 0);
    OutcomeModel { tree: TreeModel { name: "Frame"@, start: 0, end: s.len() as int, layers: c.0 }, error: c.1 }
}

/// Layers ordered, disjoint and inside `[0, hi)`, each well formed.
pub open spec fn layers_ok(ls: Seq<LayerModel>, hi: int) -> bool {
    &&& ranges_ordered(layer_starts(ls), layer_ends(ls), 0, hi)
    &&& forall|i: int| 0 <= i < ls.len() ==> layer_wf(#[trigger] ls[i])
}

fn push_layer(layers: &mut Vec<LayerNode>, l: LayerNode, hi: usize)
    requires
        layers_ok(layers_model(old(layers)@), hi as int),
        layer_wf(l@),
        l.start <= l.end <= hi,
        old(layers)@.len() > 0 ==> old(layers)@.last().end <= l.start && old(layers)@.last().start < l.start,
    ensures
        layers_model(final(layers)@) == layers_model(old(layers)@).push(l@),
        layers_ok(layers_model(final(layers)@), hi as int),
        final(layers)@.len() > 0,
        final(layers)@.last().start == l.start,
        final(layers)@.last().end == l.end,
{
    let ghost old_layers = layers@;
    layers.push(l);
    let ghost lm = layers_model(layers@);
    assert(lm =~= layers_model(old_layers).push(layers@.last()@));
    assert(layer_starts(lm) =~= layer_starts(layers_model(old_layers)).push(layers@.last().start as int));
    assert(layer_ends(lm) =~= layer_ends(layers_model(old_layers)).push(layers@.last().end as int));
}

fn opaque_node(name: &str, data: &[u8], start: usize) -> (l: LayerNode)
    requires
        start <= data@.len(),
    ensures
        l@ == opaque_model(name@, data@, start as int),
        layer_wf(l@),
{
    let fields = Vec::new();
    let l = LayerNode { name: String::from_str(name), value: FieldValue::Bytes(copy_range(data, start, data.len())), start, end: data.len(), fields };
    assert(l@.fields =~= seq![]);
    l
}

fn finish(layers: Vec<LayerNode>, len: usize, error: Option<DissectError>) -> (r: DissectOutcome)
    ensures
        r@ == (OutcomeModel { tree: (TreeModel { name: "Frame"@, start: 0, end: len as int, layers: layers_model(layers@) }), error }),
{
    DissectOutcome { tree: FieldTree { name: String::from_str("Frame"), start: 0, end: len, layers }, error }
}

/// Dissects a frame from its link layer on, following the keys of each
/// header through `reg`. A failing layer ends decoding and is reported
/// beside the layers decoded before it.
#[verifier::rlimit(60)]
pub fn dissect_frame(reg: &DissectorRegistry, data: &[u8]) -> (r: DissectOutcome)
    ensures
        r@ == frame_model(reg@, data@),
        tree_wf(r@.tree, data@.len() as int),
{
    let len = data.len();
    let ghost s = data@;
    let ghost whole = chain(reg@, s, Dissector::Ethernet, 0, 0);
    let mut layers: Vec<LayerNode> = Vec::new();
    let mut d = Dissector::Ethernet;
    let mut off: usize = 0;
    let mut depth: usize = 0;
    assert(layers_model(layers@) + whole.0 =~= whole.0);
    assert(layers_ok(layers_model(layers@), len as int)) by {
        assert(layers_model(layers@) =~= seq![]);
        assert(layer_starts(layers_model(layers@)) =~= seq![]);
        assert(layer_ends(layers_model(layers@)) =~= seq![]);
    }
    loop
        invariant
            off <= len,
            len == s.len(),
            s == data@,
            depth <= MAX_DEPTH,
            whole == chain(reg@, s, Dissector::Ethernet, 0, 0),
            whole.0 == layers_model(layers@) + chain(reg@, s, d, off as int, depth as int).0,
            whole.1 == chain(reg@, s, d, off as int, depth as int).1,
            layers_ok(layers_model(layers@), len as int),
            layers@.len() > 0 ==> layers@.last().end <= off && layers@.last().start < off,
        decreases MAX_DEPTH - depth,
    {
        let ghost rest = chain(reg@, s, d, off as int, depth as int);
        proof {
            reveal(chain);
        }
        if depth >= MAX_DEPTH {
            assert(whole.0 =~= layers_model(layers@));
            return finish(layers, len, Some(DissectError { layer: d, reason: Reason::DepthExceeded }));
        }
        match dissect_layer(d, data, off) {
            Err(e) => {
                assert(whole.0 =~= layers_model(layers@));
                return finish(layers, len, Some(e));
            },
            Ok(o) => {
                let ghost prev = layers_model(layers@);
                let ghost node = o.node@;
                let next_off = off + o.consumed;
                let next = o.next;
                push_layer(&mut layers, o.node, len);
                off = next_off;
                match next {
                    NextLayer::Payload => {
                        if off < len {
                            push_layer(&mut layers, opaque_node("Payload", data, off), len);
                        }
                        assert(whole.0 =~= layers_model(layers@));
                        return finish(layers, len, None);
                    },
                    NextLayer::Key(scope, key) => {
                        match reg.lookup(scope, key) {
                            None => {
                                push_layer(&mut layers, opaque_node("Unknown payload", data, off), len);
                                assert(whole.0 =~= layers_model(layers@));
                                return finish(layers, len, None);
                            },
                            Some(d2) => {
                                if off >= len {
                                    assert(whole.0 =~= layers_model(layers@));
                                    return finish(layers, len, None);
                                }
                                let ghost rest2 = chain(reg@, s, d2, off as int, depth + 1);
                                assert(rest.0 == seq![node] + rest2.0);
                                assert(whole.0 =~= layers_model(layers@) + rest2.0);
                                d = d2;
                                depth = depth + 1;
                            },
                        }
                    },
                }
            },
        }
    }
}

/// Dissection is a function of the registry and the frame: two runs on the
/// same frame give the same tree, the same failure and the same text.
pub proof fn lemma_dissection_deterministic(reg: Seq<Registration>, s: Seq<u8>, first: OutcomeModel, second: OutcomeModel)
    requires
        first == frame_model(reg, s),
        second == frame_model(reg, s),
    ensures
        first == second,
        outcome_text(first) == outcome_text(second),
{
}

/// A frame too short for a link-layer header fails at the link layer as
/// truncated, with no layer decoded.
pub proof fn lemma_short_frame_truncated(reg: Seq<Registration>, s: Seq<u8>)
    requires
        s.len() < ETHERNET_HEADER_LEN,
    ensures
        frame_model(reg, s).error == Some(DissectError { layer: Dissector::Ethernet, reason: Reason::Truncated }),
        frame_model(reg, s).tree.layers == Seq::<LayerModel>::empty(),
{
    reveal(chain);
    reveal(layer_model);
}

/// A link-layer header whose type selects nothing in the registry is
/// followed by one opaque leaf that holds exactly the remaining bytes, and
/// decoding succeeds.
pub proof fn lemma_unknown_type_is_opaque(reg: Seq<Registration>, s: Seq<u8>)
    requires
        ethernet_model(s, 0) is Ok,
        ({
            let o = ethernet_model(s, 0)->Ok_0;
            o.next matches NextLayer::Key(scope, key) && lookup_in(reg, scope, key) is None
        }),
    ensures
        ({
            let o = ethernet_model(s, 0)->Ok_0;
            let f = frame_model(reg, s);
            &&& f.error is None
            &&& f.tree.layers == seq![o.node, opaque_model("Unknown payload"@, s, o.consumed)]
            &&& f.tree.layers[1].value == ValueModel::Bytes(s.subrange(o.consumed, s.len() as int))
            &&& f.tree.layers[1].fields.len() == 0
        }),
{
    reveal(chain);
    reveal(layer_model);
}

} // verus!
