//! The type-shape grammar: the static descriptor of what token pattern a
//! field's type consumes, together with its mathematical model and the
//! rendering of the human-readable parameter description.

use vstd::prelude::*;

verus! {

/// Mathematical model of a type shape.  Strings are modelled as
/// sequences of characters.
pub enum ShapeModel {
    /// One token, used verbatim.
    StringSh,
    /// One token, `true` or `false`.
    BoolSh,
    /// One token, a signed 32-bit decimal integer.
    I32Sh,
    /// One token, a signed 64-bit decimal integer.
    I64Sh,
    /// One token, an unsigned 32-bit decimal integer.
    U32Sh,
    /// One token, an unsigned 64-bit decimal integer.
    U64Sh,
    /// One token, single-precision floating-point text, kept as text.
    F32Sh,
    /// One token, double-precision floating-point text, kept as text.
    F64Sh,
    /// One token, matched exactly against the closed set of variant
    /// names; the enum's type name appears in error messages.
    EnumSh { name: Seq<char>, variants: Seq<Seq<char>> },
    /// A start-marker token, any number of elements, and the end marker `]`.
    VecSh { elem: Box<ShapeModel> },
    /// A nested composite: a fixed sequence of parts, parsed in order,
    /// with a caller-supplied parameter description for the help text.
    CustomSh { params: Seq<char>, parts: Seq<ShapeModel> },
}

/// A type descriptor for one configuration field.  Each variant says how
/// many tokens a value of the type consumes and how they are interpreted.
#[derive(Debug, PartialEq)]
pub enum TypeShape {
    StringType,
    BoolType,
    I32Type,
    I64Type,
    U32Type,
    U64Type,
    F32Type,
    F64Type,
    EnumType { name: String, variants: Vec<String> },
    VecType { elem: Box<TypeShape> },
    CustomType { params: String, parts: Vec<TypeShape> },
}

pub open spec fn shape_views(ts: Seq<TypeShape>) -> Seq<ShapeModel>
    decreases ts,
{
    if ts.len() == 0 {
        Seq::empty()
    } else {
        shape_views(ts.drop_last()).push(shape_view(ts.last()))
    }
}

pub open spec fn shape_view(t: TypeShape) -> ShapeModel
    decreases t,
{
    match t {
        TypeShape::StringType => ShapeModel::StringSh,
        TypeShape::BoolType => ShapeModel::BoolSh,
        TypeShape::I32Type => ShapeModel::I32Sh,
        TypeShape::I64Type => ShapeModel::I64Sh,
        TypeShape::U32Type => ShapeModel::U32Sh,
        TypeShape::U64Type => ShapeModel::U64Sh,
        TypeShape::F32Type => ShapeModel::F32Sh,
        TypeShape::F64Type => ShapeModel::F64Sh,
        TypeShape::EnumType { name, variants } => ShapeModel::EnumSh {
            name: name@,
            variants: Seq::new(variants@.len(), |i: int| variants@[i]@),
        },
        TypeShape::VecType { elem } => ShapeModel::VecSh { elem: Box::new(shape_view(*elem)) },
        TypeShape::CustomType { params, parts } => ShapeModel::CustomSh {
            params: params@,
            parts: shape_views(parts@),
        },
    }
}

impl View for TypeShape {
    type V = ShapeModel;

    open spec fn view(&self) -> ShapeModel {
        shape_view(*self)
    }
}

/// The enum variant names joined by `|`.
pub open spec fn join_bar(names: Seq<Seq<char>>) -> Seq<char>
    decreases names.len(),
{
    if names.len() == 0 {
        Seq::empty()
    } else if names.len() == 1 {
        names[0]
    } else {
        join_bar(names.drop_last()) + "|"@ + names.last()
    }
}

/// The rendering of the token pattern a shape expects, as it appears in
/// the help text: scalars as their type name in angle brackets, enums
/// as the `|`-joined variant names, vectors as the bracketed element
/// pattern, composites as their own parameter description.
pub open spec fn params_text(m: ShapeModel) -> Seq<char>
    decreases m,
{
    match m {
        ShapeModel::StringSh => "<String>"@,
        ShapeModel::BoolSh => "<bool>"@,
        ShapeModel::I32Sh => "<i32>"@,
        ShapeModel::I64Sh => "<i64>"@,
        ShapeModel::U32Sh => "<u32>"@,
        ShapeModel::U64Sh => "<u64>"@,
        ShapeModel::F32Sh => "<f32>"@,
        ShapeModel::F64Sh => "<f64>"@,
        ShapeModel::EnumSh { variants, .. } => "<"@ + join_bar(variants) + ">"@,
        ShapeModel::VecSh { elem } => "[ "@ + params_text(*elem) + " ... ]"@,
        ShapeModel::CustomSh { params, .. } => "<"@ + params + ">"@,
    }
}

/// Renders the token pattern a type shape expects, for the help text.
pub fn params_of(t: &TypeShape) -> (r: String)
    ensures
        r@ == params_text(t@),
    decreases *t,
{
    match t {
        TypeShape::StringType => String::from_str("<String>"),
        TypeShape::BoolType => String::from_str("<bool>"),
        TypeShape::I32Type => String::from_str("<i32>"),
        TypeShape::I64Type => String::from_str("<i64>"),
        TypeShape::U32Type => String::from_str("<u32>"),
        TypeShape::U64Type => String::from_str("<u64>"),
        TypeShape::F32Type => String::from_str("<f32>"),
        TypeShape::F64Type => String::from_str("<f64>"),
        TypeShape::EnumType { variants, .. } => {
            let ghost vm = Seq::new(variants@.len(), |i: int| variants@[i]@);
            let mut m = String::from_str("<");
            let n = variants.len();
            let mut i: usize = 0;
            while i < n
                invariant
                    0 <= i <= n,
                    n == variants@.len(),
                    vm == Seq::new(variants@.len(), |k: int| variants@[k]@),
                    m@ == "<"@ + join_bar(vm.take(i as int)),
                decreases n - i,
            {
                if i > 0 {
                    m.append("|");
                }
                m.append(variants[i].as_str());
                proof {
                    let t = vm.take(i + 1);
                    assert(t.drop_last() =~= vm.take(i as int));
                    assert(t.last() == vm[i as int]);
                    if i == 0 {
                        assert(join_bar(t) == vm[0]);
                    }
                }
                i += 1;
            }
            proof {
                assert(vm.take(n as int) =~= vm);
            }
            m.append(">");
            m
        },
        TypeShape::VecType { elem } => {
            let inner = params_of(&**elem);
            let mut m = String::from_str("[ ");
            m.append(inner.as_str());
            m.append(" ... ]");
            m
        },
        TypeShape::CustomType { params, .. } => {
            let mut m = String::from_str("<");
            m.append(params.as_str());
            m.append(">");
            m
        },
    }
}

pub proof fn lemma_shape_views_index(ts: Seq<TypeShape>, i: int)
    requires
        0 <= i < ts.len(),
    ensures
        shape_views(ts).len() == ts.len(),
        shape_views(ts)[i] == shape_view(ts[i]),
    decreases ts.len(),
{
    if ts.len() > 0 && i < ts.len() - 1 {
        lemma_shape_views_index(ts.drop_last(), i);
    } else if ts.len() > 0 {
        lemma_shape_views_len(ts.drop_last());
    }
}

pub proof fn lemma_shape_views_len(ts: Seq<TypeShape>)
    ensures
        shape_views(ts).len() == ts.len(),
    decreases ts.len(),
{
    if ts.len() > 0 {
        lemma_shape_views_len(ts.drop_last());
    }
}

} // verus!
