use vstd::prelude::*;

verus! {

/// A decoded scalar or an opaque run of bytes.
#[derive(Clone, Debug, PartialEq, Eq)]
pub enum FieldValue {
    Uint(u64),
    Bytes(Vec<u8>),
}

/// The mathematical value of a `FieldValue`.
pub ghost enum ValueModel {
    Uint(int),
    Bytes(Seq<u8>),
}

impl View for FieldValue {
    type V = ValueModel;

    open spec fn view(&self) -> ValueModel {
        match self {
            FieldValue::Uint(n) => ValueModel::Uint(*n as int),
            FieldValue::Bytes(b) => ValueModel::Bytes(b@),
        }
    }
}

/// One decoded header field; its bytes are `[start, end)` of the frame.
#[derive(Clone, Debug, PartialEq, Eq)]
pub struct Field {
    pub name: String,
    pub value: FieldValue,
    pub start: usize,
    pub end: usize,
}

pub ghost struct FieldModel {
    pub name: Seq<char>,
    pub value: ValueModel,
    pub start: int,
    pub end: int,
}

impl View for Field {
    type V = FieldModel;

    open spec fn view(&self) -> FieldModel {
        FieldModel { name: self.name@, value: self.value@, start: self.start as int, end: self.end as int }
    }
}

/// One protocol layer: its header fields, or, for an opaque payload, no
/// fields and the bytes themselves as its value.
#[derive(Clone, Debug, PartialEq, Eq)]
pub struct LayerNode {
    pub name: String,
    pub value: FieldValue,
    pub start: usize,
    pub end: usize,
    pub fields: Vec<Field>,
}

pub ghost struct LayerModel {
    pub name: Seq<char>,
    pub value: ValueModel,
    pub start: int,
    pub end: int,
    pub fields: Seq<FieldModel>,
}

pub open spec fn fields_model(fs: Seq<Field>) -> Seq<FieldModel> {
    fs.map_values(|f: Field| f@)
}

impl View for LayerNode {
    type V = LayerModel;

    open spec fn view(&self) -> LayerModel {
        LayerModel {
            name: self.name@,
            value: self.value@,
            start: self.start as int,
            end: self.end as int,
            fields: fields_model(self.fields@),
        }
    }
}

/// The decoded frame: the root spans the whole frame and holds one child per
/// layer, in the order the layers were decoded.
#[derive(Clone, Debug, PartialEq, Eq)]
pub struct FieldTree {
    pub name: String,
    pub start: usize,
    pub end: usize,
    pub layers: Vec<LayerNode>,
}

pub ghost struct TreeModel {
    pub name: Seq<char>,
    pub start: int,
    pub end: int,
    pub layers: Seq<LayerModel>,
}

pub open spec fn layers_model(ls: Seq<LayerNode>) -> Seq<LayerModel> {
    ls.map_values(|l: LayerNode| l@)
}

impl View for FieldTree {
    type V = TreeModel;

    open spec fn view(&self) -> TreeModel {
        TreeModel { name: self.name@, start: self.start as int, end: self.end as int, layers: layers_model(self.layers@) }
    }
}

/// Siblings with ranges `[start, end)`: each range is well formed and lies
/// inside `[lo, hi)`, and each one starts strictly after the previous one
/// and at or after its end.
pub open spec fn ranges_ordered(starts: Seq<int>, ends: Seq<int>, lo: int, hi: int) -> bool {
    &&& starts.len() == ends.len()
    &&& forall|i: int| 0 <= i < starts.len() ==> lo <= #[trigger] starts[i] <= ends[i] <= hi
    &&& forall|i: int| 0 <= i < starts.len() - 1 ==> #[trigger] ends[i] <= starts[i + 1] && starts[i] < starts[i + 1]
}

pub open spec fn field_starts(fs: Seq<FieldModel>) -> Seq<int> {
    fs.map_values(|f: FieldModel| f.start)
}

pub open spec fn field_ends(fs: Seq<FieldModel>) -> Seq<int> {
    fs.map_values(|f: FieldModel| f.end)
}

pub open spec fn layer_starts(ls: Seq<LayerModel>) -> Seq<int> {
    ls.map_values(|l: LayerModel| l.start)
}

pub open spec fn layer_ends(ls: Seq<LayerModel>) -> Seq<int> {
    ls.map_values(|l: LayerModel| l.end)
}

/// A layer whose fields are ordered, disjoint and inside the layer.
pub open spec fn layer_wf(l: LayerModel) -> bool {
    ranges_ordered(field_starts(l.fields), field_ends(l.fields), l.start, l.end)
}

/// The range invariant of a tree of a frame of `len` bytes: the root spans
/// `[0, len)`, the layers are ordered, disjoint and inside it, and so are
/// the fields of each layer.
pub open spec fn tree_wf(t: TreeModel, len: int) -> bool {
    &&& t.start == 0
    &&& t.end == len
    &&& ranges_ordered(layer_starts(t.layers), layer_ends(t.layers), t.start, t.end)
    &&& forall|i: int| 0 <= i < t.layers.len() ==> layer_wf(#[trigger] t.layers[i])
}

} // verus!
