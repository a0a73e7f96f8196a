//! Runtime configuration values and their mathematical model, together
//! with the typing relation between a value and a type shape.

use vstd::prelude::*;
use crate::shape::ShapeModel;

verus! {

/// Mathematical model of a configuration value.
pub enum ValueModel {
    StringV { chars: Seq<char> },
    BoolV { b: bool },
    I32V { n: i32 },
    I64V { n: i64 },
    U32V { n: u32 },
    U64V { n: u64 },
    /// Floating-point values are carried as their validated source text.
    F32V { text: Seq<char> },
    F64V { text: Seq<char> },
    /// The declaration-order index of the matched variant.
    EnumV { index: int },
    VecV { elems: Seq<ValueModel> },
    CustomV { parts: Seq<ValueModel> },
}

/// A configuration value.  Floating-point fields hold the token text of
/// the value, validated against the standard floating-point grammar; the
/// embedding application converts the text when it needs the number.
#[derive(Debug, PartialEq)]
pub enum ConfigValue {
    StringVal { s: String },
    BoolVal { b: bool },
    I32Val { n: i32 },
    I64Val { n: i64 },
    U32Val { n: u32 },
    U64Val { n: u64 },
    F32Val { text: String },
    F64Val { text: String },
    EnumVal { index: usize },
    VecVal { elems: Vec<ConfigValue> },
    CustomVal { parts: Vec<ConfigValue> },
}

pub open spec fn value_views(vs: Seq<ConfigValue>) -> Seq<ValueModel>
    decreases vs,
{
    if vs.len() == 0 {
        Seq::empty()
    } else {
        value_views(vs.drop_last()).push(value_view(vs.last()))
    }
}

pub open spec fn value_view(v: ConfigValue) -> ValueModel
    decreases v,
{
    match v {
        ConfigValue::StringVal { s } => ValueModel::StringV { chars: s@ },
        ConfigValue::BoolVal { b } => ValueModel::BoolV { b },
        ConfigValue::I32Val { n } => ValueModel::I32V { n },
        ConfigValue::I64Val { n } => ValueModel::I64V { n },
        ConfigValue::U32Val { n } => ValueModel::U32V { n },
        ConfigValue::U64Val { n } => ValueModel::U64V { n },
        ConfigValue::F32Val { text } => ValueModel::F32V { text: text@ },
        ConfigValue::F64Val { text } => ValueModel::F64V { text: text@ },
        ConfigValue::EnumVal { index } => ValueModel::EnumV { index: index as int },
        ConfigValue::VecVal { elems } => ValueModel::VecV { elems: value_views(elems@) },
        ConfigValue::CustomVal { parts } => ValueModel::CustomV { parts: value_views(parts@) },
    }
}

impl View for ConfigValue {
    type V = ValueModel;

    open spec fn view(&self) -> ValueModel {
        value_view(*self)
    }
}

pub proof fn lemma_value_views_cons(v: ConfigValue, vs: Seq<ConfigValue>)
    ensures
        value_views(seq![v] + vs) == seq![value_view(v)] + value_views(vs),
    decreases vs.len(),
{
    if vs.len() == 0 {
        let single = seq![v];
        assert(single + vs =~= single);
        assert(single.drop_last() =~= Seq::<ConfigValue>::empty());
        assert(value_views(Seq::<ConfigValue>::empty()) == Seq::<ValueModel>::empty());
        assert(value_views(single) == value_views(single.drop_last()).push(value_view(
            single.last(),
        )));
        assert(value_views(single) =~= seq![value_view(v)]);
        assert(seq![value_view(v)] + value_views(vs) =~= seq![value_view(v)]);
    } else {
        let whole = seq![v] + vs;
        assert(whole.drop_last() =~= seq![v] + vs.drop_last());
        assert(whole.last() == vs.last());
        lemma_value_views_cons(v, vs.drop_last());
        assert(value_views(whole) == value_views(seq![v] + vs.drop_last()).push(
            value_view(vs.last()),
        ));
        assert((seq![value_view(v)] + value_views(vs.drop_last())).push(value_view(vs.last()))
            =~= seq![value_view(v)] + value_views(vs.drop_last()).push(value_view(vs.last())));
        assert(value_views(vs) == value_views(vs.drop_last()).push(value_view(vs.last())));
    }
}

/// The typing relation: `value_matches(v, m)` says that value `v` has
/// shape `m`.  An enum value is an in-range variant index; the elements
/// of a vector all have the element shape; the parts of a composite
/// match its part shapes pointwise.
pub open spec fn value_matches(v: ValueModel, m: ShapeModel) -> bool
    decreases v,
{
    match v {
        ValueModel::StringV { .. } => m is StringSh,
        ValueModel::BoolV { .. } => m is BoolSh,
        ValueModel::I32V { .. } => m is I32Sh,
        ValueModel::I64V { .. } => m is I64Sh,
        ValueModel::U32V { .. } => m is U32Sh,
        ValueModel::U64V { .. } => m is U64Sh,
        ValueModel::F32V { .. } => m is F32Sh,
        ValueModel::F64V { .. } => m is F64Sh,
        ValueModel::EnumV { index } => m matches ShapeModel::EnumSh { variants, .. }
            && 0 <= index < variants.len(),
        ValueModel::VecV { elems } => m matches ShapeModel::VecSh { elem }
            && all_match(elems, *elem),
        ValueModel::CustomV { parts } => m matches ShapeModel::CustomSh { parts: shapes, .. }
            && pair_match(parts, shapes),
    }
}

/// Every element of `vs` has shape `m`.
pub open spec fn all_match(vs: Seq<ValueModel>, m: ShapeModel) -> bool
    decreases vs,
{
    if vs.len() == 0 {
        true
    } else {
        all_match(vs.drop_last(), m) && value_matches(vs.last(), m)
    }
}

/// The values `vs` match the shapes `ms` pointwise.
pub open spec fn pair_match(vs: Seq<ValueModel>, ms: Seq<ShapeModel>) -> bool
    decreases vs,
{
    if vs.len() != ms.len() {
        false
    } else if vs.len() == 0 {
        true
    } else {
        pair_match(vs.drop_last(), ms.drop_last()) && value_matches(vs.last(), ms.last())
    }
}

pub proof fn lemma_all_match_cons(v: ValueModel, vs: Seq<ValueModel>, m: ShapeModel)
    requires
        value_matches(v, m),
        all_match(vs, m),
    ensures
        all_match(seq![v] + vs, m),
    decreases vs.len(),
{
    if vs.len() == 0 {
        assert(seq![v] + vs =~= seq![v]);
        assert(seq![v].drop_last() =~= Seq::<ValueModel>::empty());
        assert(all_match(Seq::<ValueModel>::empty(), m));
    } else {
        let whole = seq![v] + vs;
        assert(whole.drop_last() =~= seq![v] + vs.drop_last());
        assert(whole.last() == vs.last());
        lemma_all_match_cons(v, vs.drop_last(), m);
    }
}

pub proof fn lemma_pair_match_cons(
    v: ValueModel,
    vs: Seq<ValueModel>,
    m: ShapeModel,
    ms: Seq<ShapeModel>,
)
    requires
        value_matches(v, m),
        pair_match(vs, ms),
    ensures
        pair_match(seq![v] + vs, seq![m] + ms),
    decreases vs.len(),
{
    if vs.len() == 0 {
        assert(seq![v] + vs =~= seq![v]);
        assert(seq![m] + ms =~= seq![m]);
        assert(seq![v].drop_last() =~= Seq::<ValueModel>::empty());
        assert(seq![m].drop_last() =~= Seq::<ShapeModel>::empty());
        assert(pair_match(Seq::<ValueModel>::empty(), Seq::<ShapeModel>::empty()));
    } else {
        let vw = seq![v] + vs;
        let mw = seq![m] + ms;
        assert(vw.drop_last() =~= seq![v] + vs.drop_last());
        assert(mw.drop_last() =~= seq![m] + ms.drop_last());
        assert(vw.last() == vs.last());
        assert(mw.last() == ms.last());
        lemma_pair_match_cons(v, vs.drop_last(), m, ms.drop_last());
    }
}

} // verus!
