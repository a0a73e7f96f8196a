//! Parsing one value of a given type shape from a token stream.
//!
//! The meaning of a parse is given by `parse_value_model`: a partial
//! function from a shape, a token sequence and a start position to the
//! parsed value and the position just past the consumed tokens.
//! Scalars and enum values consume exactly one token; a vector consumes
//! its start-marker token, then elements until the literal end marker
//! `]`; a composite consumes its parts in declaration order.  The
//! executable parser returns a value exactly when the model does, and
//! a descriptive error otherwise.

use vstd::prelude::*;
use crate::shape::{TypeShape, ShapeModel, shape_views, lemma_shape_views_index, lemma_shape_views_len, params_text, params_of};
use crate::value::{ConfigValue, ValueModel, value_views, lemma_value_views_cons};
use crate::scalar::{bool_of_text, i32_of_text, i64_of_text, u32_of_text, u64_of_text};
use crate::scalar::{parse_bool_token, parse_i32_token, parse_i64_token, parse_u32_token, parse_u64_token, str_eq};
use crate::float_text::{is_float_text, is_float_token};

verus! {

/// The mathematical model of a token stream: the characters of each
/// token.
pub open spec fn toks_model(toks: Seq<String>) -> Seq<Seq<char>> {
    Seq::new(toks.len(), |i: int| toks[i]@)
}

/// The position reached after a sub-parse that started at `lo` and
/// reported `q`, clamped into `[lo, len]`.  In a vector, an element
/// parse starts on an already-popped token, so the loop advances past
/// that token even when the element consumed nothing.
pub open spec fn step_from(lo: int, q: int, len: int) -> int {
    if q < lo {
        lo
    } else if q > len {
        len
    } else {
        q
    }
}

/// The declaration-order index of the first variant named `tok`.
pub open spec fn enum_index(variants: Seq<Seq<char>>, tok: Seq<char>) -> Option<int>
    decreases variants.len(),
{
    if variants.len() == 0 {
        None
    } else if variants[0] == tok {
        Some(0int)
    } else {
        match enum_index(variants.drop_first(), tok) {
            Some(i) => Some(i + 1),
            None => None,
        }
    }
}

/// Parses one value of shape `m` from `toks` at position `pos`; yields
/// the value and the position just past the tokens it consumed, or
/// nothing if the stream is rejected.
pub open spec fn parse_value_model(m: ShapeModel, toks: Seq<Seq<char>>, pos: int) -> Option<
    (ValueModel, int),
>
    decreases toks.len() - pos, m, 0int,
{
    if !(0 <= pos <= toks.len()) {
        None
    } else {
        match m {
            ShapeModel::StringSh => if pos == toks.len() {
                None
            } else {
                Some((ValueModel::StringV { chars: toks[pos] }, pos + 1))
            },
            ShapeModel::BoolSh => if pos == toks.len() {
                None
            } else {
                match bool_of_text(toks[pos]) {
                    Some(b) => Some((ValueModel::BoolV { b }, pos + 1)),
                    None => None,
                }
            },
            ShapeModel::I32Sh => if pos == toks.len() {
                None
            } else {
                match i32_of_text(toks[pos]) {
                    Some(n) => Some((ValueModel::I32V { n }, pos + 1)),
                    None => None,
                }
            },
            ShapeModel::I64Sh => if pos == toks.len() {
                None
            } else {
                match i64_of_text(toks[pos]) {
                    Some(n) => Some((ValueModel::I64V { n }, pos + 1)),
                    None => None,
                }
            },
            ShapeModel::U32Sh => if pos == toks.len() {
                None
            } else {
                match u32_of_text(toks[pos]) {
                    Some(n) => Some((ValueModel::U32V { n }, pos + 1)),
                    None => None,
                }
            },
            ShapeModel::U64Sh => if pos == toks.len() {
                None
            } else {
                match u64_of_text(toks[pos]) {
                    Some(n) => Some((ValueModel::U64V { n }, pos + 1)),
                    None => None,
                }
            },
            ShapeModel::F32Sh => if pos == toks.len() {
                None
            } else if is_float_text(toks[pos]) {
                Some((ValueModel::F32V { text: toks[pos] }, pos + 1))
            } else {
                None
            },
            ShapeModel::F64Sh => if pos == toks.len() {
                None
            } else if is_float_text(toks[pos]) {
                Some((ValueModel::F64V { text: toks[pos] }, pos + 1))
            } else {
                None
            },
            ShapeModel::EnumSh { variants, .. } => if pos == toks.len() {
                None
            } else {
                match enum_index(variants, toks[pos]) {
                    Some(i) => Some((ValueModel::EnumV { index: i }, pos + 1)),
                    None => None,
                }
            },
            ShapeModel::VecSh { elem } => if pos == toks.len() {
                None
            } else {
                match vec_elems_model(*elem, toks, pos + 1) {
                    Some((vs, q)) => Some((ValueModel::VecV { elems: vs }, q)),
                    None => None,
                }
            },
            ShapeModel::CustomSh { parts, .. } => match parts_model(parts, 0, toks, pos) {
                Some((vs, q)) => Some((ValueModel::CustomV { parts: vs }, q)),
                None => None,
            },
        }
    }
}

/// Parses vector elements of shape `elem` until the end marker `]`,
/// which is consumed.
pub open spec fn vec_elems_model(elem: ShapeModel, toks: Seq<Seq<char>>, pos: int) -> Option<
    (Seq<ValueModel>, int),
>
    decreases toks.len() - pos, elem, 1int,
{
    if !(0 <= pos < toks.len()) {
        None
    } else if toks[pos] == "]"@ {
        Some((Seq::empty(), pos + 1))
    } else {
        match parse_value_model(elem, toks, pos) {
            None => None,
            Some((v, q)) => {
                let q2 = step_from(pos + 1, q, toks.len() as int);
                match vec_elems_model(elem, toks, q2) {
                    None => None,
                    Some((vs, r)) => Some((seq![v] + vs, r)),
                }
            },
        }
    }
}

/// Parses the parts `parts[k..]` of a composite, in order.
pub open spec fn parts_model(
    parts: Seq<ShapeModel>,
    k: int,
    toks: Seq<Seq<char>>,
    pos: int,
) -> Option<(Seq<ValueModel>, int)>
    decreases toks.len() - pos, parts, parts.len() - k + 1,
{
    if !(0 <= pos <= toks.len()) {
        None
    } else if !(0 <= k <= parts.len()) {
        None
    } else if k == parts.len() {
        Some((Seq::empty(), pos))
    } else {
        match parse_value_model(parts[k], toks, pos) {
            None => None,
            Some((v, q)) => {
                let q2 = step_from(pos, q, toks.len() as int);
                match parts_model(parts, k + 1, toks, q2) {
                    None => None,
                    Some((vs, r)) => Some((seq![v] + vs, r)),
                }
            },
        }
    }
}

/// The error text for a token that names no field.
pub open spec fn unknown_field_text(tok: Seq<char>) -> Seq<char> {
    "Invalid setting: "@ + tok
}

/// The error text for a stream that ends before a field's value.
pub open spec fn missing_value_text(field: Seq<char>) -> Seq<char> {
    "Missing value for "@ + field
}

/// The error text for a token that fails a scalar conversion.
pub open spec fn bad_scalar_text(ty: Seq<char>, field: Seq<char>, tok: Seq<char>) -> Seq<char> {
    "could not parse value of type "@ + ty + " for field "@ + field + ": "@ + tok
}

/// The error text for a stream that ends before an enum value.
pub open spec fn missing_enum_text(name: Seq<char>) -> Seq<char> {
    "Missing enum value for "@ + name
}

/// The error text for a token that names no variant of the enum.
pub open spec fn invalid_enum_text(name: Seq<char>, tok: Seq<char>) -> Seq<char> {
    "Invalid value for enum "@ + name + ": "@ + tok
}

/// The error text for a stream that ends before a vector's start marker.
pub open spec fn vec_start_text(field: Seq<char>) -> Seq<char> {
    "Vector "@ + field + " must start with a [ followed by a space"@
}

/// The error text for a vector whose end marker never comes.
pub open spec fn vec_end_text(field: Seq<char>) -> Seq<char> {
    "Vector "@ + field + " must end with a space followed by a ]"@
}

/// The scalar type's name as it appears in error messages.
pub open spec fn scalar_type_text(m: ShapeModel) -> Seq<char> {
    match m {
        ShapeModel::BoolSh => "bool"@,
        ShapeModel::I32Sh => "i32"@,
        ShapeModel::I64Sh => "i64"@,
        ShapeModel::U32Sh => "u32"@,
        ShapeModel::U64Sh => "u64"@,
        ShapeModel::F32Sh => "f32"@,
        ShapeModel::F64Sh => "f64"@,
        _ => Seq::empty(),
    }
}

/// The error message reported when the parse of shape `m` from `toks`
/// at `pos` fails.  `field` is the field being parsed; scalar messages
/// carry the offending token, enum messages the enum's type name.
pub open spec fn parse_error_text(
    m: ShapeModel,
    field: Seq<char>,
    toks: Seq<Seq<char>>,
    pos: int,
) -> Seq<char>
    decreases toks.len() - pos, m, 0int,
{
    if !(0 <= pos <= toks.len()) {
        Seq::empty()
    } else {
        match m {
            ShapeModel::StringSh => missing_value_text(field),
            ShapeModel::EnumSh { name, .. } => if pos == toks.len() {
                missing_enum_text(name)
            } else {
                invalid_enum_text(name, toks[pos])
            },
            ShapeModel::VecSh { elem } => if pos == toks.len() {
                vec_start_text(field)
            } else {
                vec_error_text(*elem, field, toks, pos + 1)
            },
            ShapeModel::CustomSh { parts, .. } => parts_error_text(parts, 0, field, toks, pos),
            _ => if pos == toks.len() {
                missing_value_text(field)
            } else {
                bad_scalar_text(scalar_type_text(m), field, toks[pos])
            },
        }
    }
}

/// The error message of a failing vector-element run.
pub open spec fn vec_error_text(
    elem: ShapeModel,
    field: Seq<char>,
    toks: Seq<Seq<char>>,
    pos: int,
) -> Seq<char>
    decreases toks.len() - pos, elem, 1int,
{
    if !(0 <= pos < toks.len()) {
        vec_end_text(field)
    } else if toks[pos] == "]"@ {
        // The run succeeds here; no error arises.
        vec_end_text(field)
    } else {
        match parse_value_model(elem, toks, pos) {
            None => parse_error_text(elem, field, toks, pos),
            Some((v, q)) => vec_error_text(
                elem,
                field,
                toks,
                step_from(pos + 1, q, toks.len() as int),
            ),
        }
    }
}

/// The error message of a failing composite-part run.
pub open spec fn parts_error_text(
    parts: Seq<ShapeModel>,
    k: int,
    field: Seq<char>,
    toks: Seq<Seq<char>>,
    pos: int,
) -> Seq<char>
    decreases toks.len() - pos, parts, parts.len() - k + 1,
{
    if !(0 <= pos <= toks.len()) || !(0 <= k < parts.len()) {
        // The run succeeds here; no error arises.
        Seq::empty()
    } else {
        match parse_value_model(parts[k], toks, pos) {
            None => parse_error_text(parts[k], field, toks, pos),
            Some((v, q)) => parts_error_text(
                parts,
                k + 1,
                field,
                toks,
                step_from(pos, q, toks.len() as int),
            ),
        }
    }
}

proof fn lemma_enum_index_at(variants: Seq<Seq<char>>, tok: Seq<char>, j: int)
    requires
        0 <= j <= variants.len(),
        forall|k: int| 0 <= k < j ==> variants[k] != tok,
        j == variants.len() || variants[j] == tok,
    ensures
        enum_index(variants, tok) == (if j == variants.len() {
            None
        } else {
            Some(j)
        }),
    decreases j,
{
    if j > 0 {
        let t = variants.drop_first();
        assert(forall|k: int| 0 <= k < j - 1 ==> t[k] == variants[k + 1] && variants[k + 1] != tok);
        assert(j - 1 == t.len() || t[j - 1] == tok);
        lemma_enum_index_at(t, tok, j - 1);
    }
}

fn missing_value_msg(field: &str) -> (r: String)
    ensures
        r@ == missing_value_text(field@),
{
    let mut m = String::from_str("Missing value for ");
    m.append(field);
    m
}

fn bad_scalar_msg(ty: &str, field: &str, tok: &str) -> (r: String)
    ensures
        r@ == bad_scalar_text(ty@, field@, tok@),
{
    let mut m = String::from_str("could not parse value of type ");
    m.append(ty);
    m.append(" for field ");
    m.append(field);
    m.append(": ");
    m.append(tok);
    m
}

fn missing_enum_msg(name: &str) -> (r: String)
    ensures
        r@ == missing_enum_text(name@),
{
    let mut m = String::from_str("Missing enum value for ");
    m.append(name);
    m
}

fn invalid_enum_msg(name: &str, tok: &str) -> (r: String)
    ensures
        r@ == invalid_enum_text(name@, tok@),
{
    let mut m = String::from_str("Invalid value for enum ");
    m.append(name);
    m.append(": ");
    m.append(tok);
    m
}

fn vec_start_msg(field: &str) -> (r: String)
    ensures
        r@ == vec_start_text(field@),
{
    let mut m = String::from_str("Vector ");
    m.append(field);
    m.append(" must start with a [ followed by a space");
    m
}

fn vec_end_msg(field: &str) -> (r: String)
    ensures
        r@ == vec_end_text(field@),
{
    let mut m = String::from_str("Vector ");
    m.append(field);
    m.append(" must end with a space followed by a ]");
    m
}

fn parse_scalar_tok<'a>(t: &TypeShape, field: &str, tok: &'a str) -> (r: Result<
    ConfigValue,
    String,
>)
    requires
        !(t is StringType),
        !(t is EnumType),
        !(t is VecType),
        !(t is CustomType),
    ensures
        ({
            let one = match t@ {
                ShapeModel::BoolSh => match bool_of_text(tok@) {
                    Some(b) => Some(ValueModel::BoolV { b }),
                    None => None,
                },
                ShapeModel::I32Sh => match i32_of_text(tok@) {
                    Some(n) => Some(ValueModel::I32V { n }),
                    None => None,
                },
                ShapeModel::I64Sh => match i64_of_text(tok@) {
                    Some(n) => Some(ValueModel::I64V { n }),
                    None => None,
                },
                ShapeModel::U32Sh => match u32_of_text(tok@) {
                    Some(n) => Some(ValueModel::U32V { n }),
                    None => None,
                },
                ShapeModel::U64Sh => match u64_of_text(tok@) {
                    Some(n) => Some(ValueModel::U64V { n }),
                    None => None,
                },
                ShapeModel::F32Sh => if is_float_text(tok@) {
                    Some(ValueModel::F32V { text: tok@ })
                } else {
                    None
                },
                ShapeModel::F64Sh => if is_float_text(tok@) {
                    Some(ValueModel::F64V { text: tok@ })
                } else {
                    None
                },
                _ => None,
            };
            match r {
                Ok(v) => one == Some(v@),
                Err(e) => one is None && e@ == bad_scalar_text(
                    scalar_type_text(t@),
                    field@,
                    tok@,
                ),
            }
        }),
{
    match t {
        TypeShape::BoolType => match parse_bool_token(tok) {
            Some(b) => Ok(ConfigValue::BoolVal { b }),
            None => Err(bad_scalar_msg("bool", field, tok)),
        },
        TypeShape::I32Type => match parse_i32_token(tok) {
            Some(n) => Ok(ConfigValue::I32Val { n }),
            None => Err(bad_scalar_msg("i32", field, tok)),
        },
        TypeShape::I64Type => match parse_i64_token(tok) {
            Some(n) => Ok(ConfigValue::I64Val { n }),
            None => Err(bad_scalar_msg("i64", field, tok)),
        },
        TypeShape::U32Type => match parse_u32_token(tok) {
            Some(n) => Ok(ConfigValue::U32Val { n }),
            None => Err(bad_scalar_msg("u32", field, tok)),
        },
        TypeShape::U64Type => match parse_u64_token(tok) {
            Some(n) => Ok(ConfigValue::U64Val { n }),
            None => Err(bad_scalar_msg("u64", field, tok)),
        },
        TypeShape::F32Type => if is_float_token(tok) {
            Ok(ConfigValue::F32Val { text: String::from_str(tok) })
        } else {
            Err(bad_scalar_msg("f32", field, tok))
        },
        TypeShape::F64Type => if is_float_token(tok) {
            Ok(ConfigValue::F64Val { text: String::from_str(tok) })
        } else {
            Err(bad_scalar_msg("f64", field, tok))
        },
        _ => unreached(),
    }
}

/// Parses one value of shape `t` from `toks` at `pos`, returning the
/// value and the position just past the consumed tokens.  `field` is
/// the field name being parsed, used only in error messages.
fn parse_at(t: &TypeShape, field: &str, toks: &Vec<String>, pos: usize) -> (r: Result<
    (ConfigValue, usize),
    String,
>)
    requires
        pos <= toks@.len(),
    ensures
        match r {
            Ok((v, q)) => parse_value_model(t@, toks_model(toks@), pos as int) == Some(
                (v@, q as int),
            ) && pos <= q <= toks@.len(),
            Err(e) => parse_value_model(t@, toks_model(toks@), pos as int) is None && e@
                == parse_error_text(t@, field@, toks_model(toks@), pos as int),
        },
    decreases toks@.len() - pos, *t, 0int,
{
    let ghost tm = toks_model(toks@);
    let len = toks.len();
    match t {
        TypeShape::StringType => {
            if pos == len {
                Err(missing_value_msg(field))
            } else {
                let v = ConfigValue::StringVal { s: toks[pos].clone() };
                assert(v@ == ValueModel::StringV { chars: tm[pos as int] });
                Ok((v, pos + 1))
            }
        },
        TypeShape::EnumType { name, variants } => {
            if pos == len {
                Err(missing_enum_msg(name.as_str()))
            } else {
                let ghost vm = Seq::new(variants@.len(), |i: int| variants@[i]@);
                let tok = &toks[pos];
                let nv = variants.len();
                let mut i: usize = 0;
                let mut found = false;
                while !found && i < nv
                    invariant
                        0 <= i <= nv,
                        nv == variants@.len(),
                        vm == Seq::new(variants@.len(), |k: int| variants@[k]@),
                        tok@ == tm[pos as int],
                        pos < toks@.len(),
                        tm == toks_model(toks@),
                        forall|k: int| 0 <= k < i ==> vm[k] != tm[pos as int],
                        found ==> i < nv && vm[i as int] == tm[pos as int],
                    decreases nv - i + (if found {
                        0int
                    } else {
                        1int
                    }),
                {
                    if str_eq(variants[i].as_str(), tok.as_str()) {
                        found = true;
                    } else {
                        i += 1;
                    }
                }
                proof {
                    lemma_enum_index_at(vm, tm[pos as int], i as int);
                }
                if found {
                    Ok((ConfigValue::EnumVal { index: i }, pos + 1))
                } else {
                    Err(invalid_enum_msg(name.as_str(), tok.as_str()))
                }
            }
        },
        TypeShape::VecType { elem } => {
            if pos == len {
                Err(vec_start_msg(field))
            } else {
                match parse_vec_at(&**elem, field, toks, pos + 1) {
                    Ok((vs, q)) => Ok((ConfigValue::VecVal { elems: vs }, q)),
                    Err(e) => Err(e),
                }
            }
        },
        TypeShape::CustomType { parts, .. } => {
            match parse_parts_at(parts, 0, field, toks, pos) {
                Ok((vs, q)) => Ok((ConfigValue::CustomVal { parts: vs }, q)),
                Err(e) => Err(e),
            }
        },
        _ => {
            if pos == len {
                Err(missing_value_msg(field))
            } else {
                match parse_scalar_tok(t, field, toks[pos].as_str()) {
                    Ok(v) => Ok((v, pos + 1)),
                    Err(e) => Err(e),
                }
            }
        },
    }
}

/// Parses vector elements of shape `elem` until the end marker `]`.
fn parse_vec_at(elem: &TypeShape, field: &str, toks: &Vec<String>, pos: usize) -> (r: Result<
    (Vec<ConfigValue>, usize),
    String,
>)
    requires
        pos <= toks@.len(),
    ensures
        match r {
            Ok((vs, q)) => vec_elems_model(elem@, toks_model(toks@), pos as int) == Some(
                (value_views(vs@), q as int),
            ) && pos < q <= toks@.len(),
            Err(e) => vec_elems_model(elem@, toks_model(toks@), pos as int) is None && e@
                == vec_error_text(elem@, field@, toks_model(toks@), pos as int),
        },
    decreases toks@.len() - pos, *elem, 1int,
{
    let ghost tm = toks_model(toks@);
    let len = toks.len();
    if pos == len {
        return Err(vec_end_msg(field));
    }
    if str_eq(toks[pos].as_str(), "]") {
        proof {
            assert(tm[pos as int] == "]"@);
            assert(value_views(Seq::<ConfigValue>::empty()) =~= Seq::<ValueModel>::empty());
        }
        return Ok((Vec::new(), pos + 1));
    }
    assert(tm[pos as int] != "]"@);
    match parse_at(elem, field, toks, pos) {
        Err(e) => Err(e),
        Ok((v, q)) => {
            let q2: usize = if q < pos + 1 {
                pos + 1
            } else {
                q
            };
            assert(q2 as int == step_from(pos + 1, q as int, tm.len() as int));
            match parse_vec_at(elem, field, toks, q2) {
                Err(e) => Err(e),
                Ok((vs, r)) => {
                    let mut vs = vs;
                    let ghost pre = vs@;
                    vs.insert(0, v);
                    proof {
                        assert(vs@ =~= seq![v] + pre);
                        lemma_value_views_cons(v, pre);
                    }
                    Ok((vs, r))
                },
            }
        },
    }
}

/// Parses the parts `parts[k..]` of a composite, in order.
fn parse_parts_at(
    parts: &Vec<TypeShape>,
    k: usize,
    field: &str,
    toks: &Vec<String>,
    pos: usize,
) -> (r: Result<(Vec<ConfigValue>, usize), String>)
    requires
        pos <= toks@.len(),
        k <= parts@.len(),
    ensures
        match r {
            Ok((vs, q)) => parts_model(shape_views(parts@), k as int, toks_model(toks@), pos as int)
                == Some((value_views(vs@), q as int)) && pos <= q <= toks@.len(),
            Err(e) => parts_model(shape_views(parts@), k as int, toks_model(toks@), pos as int)
                is None && e@ == parts_error_text(
                shape_views(parts@),
                k as int,
                field@,
                toks_model(toks@),
                pos as int,
            ),
        },
    decreases toks@.len() - pos, *parts, parts@.len() - k + 1,
{
    let ghost pm = shape_views(parts@);
    proof {
        lemma_shape_views_len(parts@);
    }
    if k == parts.len() {
        proof {
            assert(value_views(Seq::<ConfigValue>::empty()) =~= Seq::<ValueModel>::empty());
        }
        return Ok((Vec::new(), pos));
    }
    proof {
        lemma_shape_views_index(parts@, k as int);
    }
    match parse_at(&parts[k], field, toks, pos) {
        Err(e) => Err(e),
        Ok((v, q)) => {
            assert(q as int == step_from(pos as int, q as int, toks@.len() as int));
            match parse_parts_at(parts, k + 1, field, toks, q) {
                Err(e) => Err(e),
                Ok((vs, r)) => {
                    let mut vs = vs;
                    let ghost pre = vs@;
                    vs.insert(0, v);
                    proof {
                        assert(vs@ =~= seq![v] + pre);
                        lemma_value_views_cons(v, pre);
                    }
                    Ok((vs, r))
                },
            }
        },
    }
}

/// The capability of a type to construct a value from a prefix of a
/// token stream and to describe the token pattern it expects.  An
/// implementor's view is the shape of tokens it consumes, and both
/// methods are held exactly to that shape: the parse must return a
/// value precisely when the model parse of the shape does, and the
/// parameter description must be the shape's rendering.
pub trait ConfigType: Sized + View<V = ShapeModel> {
    /// Parses one value of this type from `toks`, starting at `*pos`
    /// and advancing `*pos` past the consumed tokens on success.
    /// `field` is the name of the field being parsed, used in error
    /// messages.
    fn parse_config(&self, field: &str, toks: &Vec<String>, pos: &mut usize) -> (r: Result<
        ConfigValue,
        String,
    >)
        requires
            *old(pos) <= toks@.len(),
        ensures
            match r {
                Ok(v) => parse_value_model(self@, toks_model(toks@), *old(pos) as int) == Some(
                    (v@, *final(pos) as int),
                ) && *old(pos) <= *final(pos) <= toks@.len(),
                Err(e) => parse_value_model(self@, toks_model(toks@), *old(pos) as int) is None
                    && e@ == parse_error_text(
                    self@,
                    field@,
                    toks_model(toks@),
                    *old(pos) as int,
                ) && *final(pos) == *old(pos),
            },
    ;

    /// Renders the token pattern this type expects, for the help text.
    fn get_params(&self) -> (r: String)
        ensures
            r@ == params_text(self@),
    ;
}

impl ConfigType for TypeShape {
    fn parse_config(&self, field: &str, toks: &Vec<String>, pos: &mut usize) -> (r: Result<
        ConfigValue,
        String,
    >) {
        match parse_at(self, field, toks, *pos) {
            Ok((v, q)) => {
                *pos = q;
                Ok(v)
            },
            Err(e) => Err(e),
        }
    }

    fn get_params(&self) -> (r: String) {
        params_of(self)
    }
}

} // verus!
