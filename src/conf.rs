use vstd::prelude::*;

use crate::schema::{
    field_pairs, fields_unique, find_key, lemma_fields_map_put, pairs_to_map, Primitive,
    PrimitiveView, Schema, SchemaView,
};

verus! {

broadcast use vstd::std_specs::vec::group_vec_axioms;

/// A numeric leaf, held as the bit pattern of its `f32` value: the shape
/// logic never reads the number itself.
#[derive(Debug, Clone)]
pub struct CustomConfF32(pub u32);

/// A boolean leaf; not (yet) a variant of `CustomConf`.
#[derive(Debug, Clone)]
pub struct CustomConfBool(pub bool);

/// One field of a struct value.
#[derive(Debug)]
pub struct CustomKeyValue {
    pub key: String,
    pub value: CustomConf,
}

/// A list value; its elements are assumed to share one shape.
#[derive(Debug)]
pub struct CustomConfVec(pub Vec<CustomConf>);

/// A struct value: its fields in order, keys expected to be unique.
#[derive(Debug)]
pub struct CustomConfStruct(pub Vec<CustomKeyValue>);

/// A choice among named options; not (yet) a variant of `CustomConf`.
#[derive(Debug)]
pub struct CustomConfEnum {
    pub choice: String,
    pub options: Vec<CustomKeyValue>,
}

/// A configuration value tree.
#[derive(Debug)]
pub enum CustomConf {
    F32(CustomConfF32),
    Vec(CustomConfVec),
    Struct(CustomConfStruct),
}

/// The drawable part of a configuration.
#[derive(Debug)]
pub struct DrawingConf {
    pub data: CustomConf,
}

/// Why a schema could not be derived or a candidate was refused.
#[derive(Debug, Clone, PartialEq, Eq)]
pub enum GateError {
    /// The configuration text did not parse.
    Parse(String),
    /// A list with no element was met: it has no representative shape.
    EmptyList,
    /// The hints could not be applied to the derived schema.
    Hint(String),
    /// The candidate's shape differs from the committed one.
    SchemaMismatch,
}

/// The tag given to every struct node of a derived schema.
pub open spec fn struct_tag() -> Seq<char> {
    seq!['s', 't', 'r', 'u', 'c', 't']
}

/// Whether every field of a struct has a derivable shape.
pub open spec fn fields_derivable(fs: Vec<CustomKeyValue>) -> bool
    decreases fs,
{
    forall|i: int| 0 <= i < fs.len() ==> derived_shape((#[trigger] fs[i]).value) is Some
}

/// The (key, shape) pairs of a struct's fields, in order.
pub open spec fn field_entries(fs: Vec<CustomKeyValue>) -> Seq<(Seq<char>, SchemaView)>
    decreases fs,
{
    Seq::new(
        fs.len() as nat,
        |i: int|
            if 0 <= i < fs.len() {
                (fs[i].key@, derived_shape(fs[i].value)->Some_0)
            } else {
                (Seq::empty(), SchemaView::Val(PrimitiveView::Num))
            },
    )
}

/// The shape of a value: a scalar is a number; a list has the shape of its
/// first element (the others are not read); a struct maps each key to the
/// shape of its value, a later duplicate key overriding an earlier one.
/// `None` when an empty list occurs anywhere in the tree.
pub open spec fn derived_shape(c: CustomConf) -> Option<SchemaView>
    decreases c,
{
    match c {
        CustomConf::F32(_) => Some(SchemaView::Val(PrimitiveView::Num)),
        CustomConf::Vec(v) => if v.0.len() == 0 {
            None
        } else {
            match derived_shape(v.0[0]) {
                Some(s) => Some(SchemaView::List(Box::new(s))),
                None => None,
            }
        },
        CustomConf::Struct(s) => if fields_derivable(s.0) {
            Some(SchemaView::Struct(struct_tag(), pairs_to_map(field_entries(s.0))))
        } else {
            None
        },
    }
}

/// Keys equal, every derived shape well-formed, and the fields' map equal to
/// that of the first `i` entries.
pub open spec fn struct_progress(fs: Vec<CustomKeyValue>, out: Vec<(String, Schema)>, i: int) -> bool {
    &&& fields_unique(out)
    &&& forall|x: int| 0 <= x < out.len() ==> (#[trigger] out[x]).1.wf()
    &&& forall|x: int| 0 <= x < i ==> derived_shape((#[trigger] fs[x]).value) is Some
    &&& pairs_to_map(field_pairs(out)) == pairs_to_map(field_entries(fs).take(i))
}

/// Two values whose trees differ at most in their numbers: same variants,
/// same list lengths, same keys in the same order.
pub open spec fn same_shape(a: CustomConf, b: CustomConf) -> bool
    decreases a,
{
    match a {
        CustomConf::F32(_) => b is F32,
        CustomConf::Vec(x) => match b {
            CustomConf::Vec(y) => x.0.len() == y.0.len() && forall|i: int|
                0 <= i < x.0.len() ==> same_shape(#[trigger] x.0[i], y.0[i]),
            _ => false,
        },
        CustomConf::Struct(x) => match b {
            CustomConf::Struct(y) => x.0.len() == y.0.len() && forall|i: int|
                0 <= i < x.0.len() ==> (#[trigger] x.0[i]).key@ == y.0[i].key@ && same_shape(
                    x.0[i].value,
                    y.0[i].value,
                ),
            _ => false,
        },
    }
}

/// Derivation is a function of the value: two derivations of one value give
/// equal shapes.
pub proof fn lemma_derivation_deterministic(v: CustomConf, a: Schema, b: Schema)
    requires
        derived_shape(v) == Some(a.view()),
        derived_shape(v) == Some(b.view()),
    ensures
        a.view() == b.view(),
{
}

/// The shape ignores the numbers: values that differ only in their scalars
/// derive equal shapes (or both fail).
pub proof fn lemma_shape_only(a: CustomConf, b: CustomConf)
    requires
        same_shape(a, b),
    ensures
        derived_shape(a) == derived_shape(b),
    decreases a,
{
    match a {
        CustomConf::F32(_) => {},
        CustomConf::Vec(x) => {
            if let CustomConf::Vec(y) = b {
                if x.0.len() > 0 {
                    assert(same_shape(x.0[0], y.0[0]));
                    lemma_shape_only(x.0[0], y.0[0]);
                }
            }
        },
        CustomConf::Struct(x) => {
            if let CustomConf::Struct(y) = b {
                assert forall|i: int| 0 <= i < x.0.len() implies derived_shape((#[trigger] x.0[i]).value)
                    == derived_shape(y.0[i].value) by {
                    lemma_shape_only(x.0[i].value, y.0[i].value);
                }
                assert(fields_derivable(x.0) == fields_derivable(y.0)) by {
                    if fields_derivable(x.0) {
                        assert forall|i: int| 0 <= i < y.0.len() implies derived_shape(
                            (#[trigger] y.0[i]).value,
                        ) is Some by {
                            assert(derived_shape(x.0[i].value) is Some);
                        }
                    }
                    if fields_derivable(y.0) {
                        assert forall|i: int| 0 <= i < x.0.len() implies derived_shape(
                            (#[trigger] x.0[i]).value,
                        ) is Some by {
                            assert(derived_shape(y.0[i].value) is Some);
                        }
                    }
                }
                assert(field_entries(x.0) =~= field_entries(y.0));
            }
        },
    }
}

impl CustomConf {
    /// Derives the shape of this value; fails exactly when an empty list
    /// occurs somewhere in the tree.
    pub fn to_schema(&self) -> (r: Result<Schema, GateError>)
        ensures
            match r {
                Ok(s) => derived_shape(*self) == Some(s.view()) && s.wf(),
                Err(e) => derived_shape(*self) is None && e == GateError::EmptyList,
            },
        decreases self,
    {
        match self {
            CustomConf::F32(_) => Ok(Schema::Val(Primitive::Num)),
            CustomConf::Vec(v) => {
                if v.0.len() == 0 {
                    return Err(GateError::EmptyList);
                }
                match v.0[0].to_schema() {
                    Ok(s) => Ok(Schema::List(Box::new(s))),
                    Err(e) => Err(e),
                }
            },
            CustomConf::Struct(st) => {
                let fs = &st.0;
                let mut out: Vec<(String, Schema)> = Vec::new();
                let mut i: usize = 0;
                assert(field_entries(*fs).take(0) =~= Seq::empty());
                assert(pairs_to_map(field_pairs(out)) =~= Map::empty());
                while i < fs.len()
                    invariant
                        *self == CustomConf::Struct(*st),
                        *fs == st.0,
                        i <= fs.len(),
                        struct_progress(*fs, out, i as int),
                    decreases fs.len() - i,
                {
                    let s = match fs[i].value.to_schema() {
                        Ok(s) => s,
                        Err(e) => {
                            assert(derived_shape(fs[i as int].value) is None);
                            assert(!fields_derivable(*fs));
                            return Err(e);
                        },
                    };
                    let key = fs[i].key.clone();
                    let ghost before = out;
                    let ghost sv = s.view();
                    match find_key(&out, &key) {
                        Some(j) => {
                            out[j] = (key, s);
                        },
                        None => {
                            out.push((key, s));
                        },
                    }
                    proof {
                        lemma_fields_map_put(before, out, key, s);
                        let e = field_entries(*fs);
                        assert(e.take(i + 1).drop_last() =~= e.take(i as int));
                        assert(e[i as int] == (fs[i as int].key@, sv));
                        assert forall|x: int| 0 <= x < out.len() implies (#[trigger] out[x]).1.wf() by {
                            if x < before.len() && out[x] == before[x] {
                            }
                        }
                    }
                    i = i + 1;
                }
                proof {
                    assert(field_entries(*fs).take(fs.len() as int) =~= field_entries(*fs));
                    reveal_strlit("struct");
                    assert(fields_derivable(*fs));
                }
                let tag = "struct".to_owned();
                assert(tag@ == struct_tag());
                let r = Schema::Struct(tag, out);
                assert(r.view() == SchemaView::Struct(struct_tag(), pairs_to_map(field_pairs(out))));
                assert(r.wf());
                Ok(r)
            },
        }
    }
}

impl DrawingConf {
    /// Derives the shape of the drawable configuration.
    pub fn to_schema(&self) -> (r: Result<Schema, GateError>)
        ensures
            match r {
                Ok(s) => derived_shape(self.data) == Some(s.view()) && s.wf(),
                Err(e) => derived_shape(self.data) is None && e == GateError::EmptyList,
            },
    {
        self.data.to_schema()
    }
}

} // verus!
