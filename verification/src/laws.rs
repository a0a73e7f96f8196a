//! General laws of the dispatch loop and the help rendering, proved
//! over the mathematical models.

use vstd::prelude::*;
use crate::config::{FieldModel, field_index, dispatch_model, help_text, join_lines, help_line, config_wf};
use crate::parse::{parse_value_model, vec_elems_model, parts_model, enum_index, step_from};
use crate::shape::ShapeModel;
use crate::value::{ValueModel, value_matches, all_match, pair_match, lemma_all_match_cons, lemma_pair_match_cons};

verus! {

proof fn lemma_enum_index_bounds(variants: Seq<Seq<char>>, tok: Seq<char>)
    ensures
        enum_index(variants, tok) matches Some(i) ==> 0 <= i < variants.len(),
    decreases variants.len(),
{
    if variants.len() > 0 && variants[0] != tok {
        lemma_enum_index_bounds(variants.drop_first(), tok);
    }
}

/// A parsed value has the shape it was parsed by.
pub proof fn lemma_parse_value_matches(m: ShapeModel, toks: Seq<Seq<char>>, pos: int)
    ensures
        parse_value_model(m, toks, pos) matches Some((v, q)) ==> value_matches(v, m),
    decreases toks.len() - pos, m, 0int,
{
    if 0 <= pos <= toks.len() {
        match m {
            ShapeModel::EnumSh { variants, .. } => {
                if pos < toks.len() {
                    lemma_enum_index_bounds(variants, toks[pos]);
                }
            },
            ShapeModel::VecSh { elem } => {
                if pos < toks.len() {
                    lemma_vec_elems_match(*elem, toks, pos + 1);
                }
            },
            ShapeModel::CustomSh { parts, .. } => {
                lemma_parts_match(parts, 0, toks, pos);
                assert(parts.skip(0) =~= parts);
            },
            _ => {},
        }
    }
}

proof fn lemma_vec_elems_match(elem: ShapeModel, toks: Seq<Seq<char>>, pos: int)
    ensures
        vec_elems_model(elem, toks, pos) matches Some((vs, q)) ==> all_match(vs, elem),
    decreases toks.len() - pos, elem, 1int,
{
    if 0 <= pos < toks.len() && toks[pos] != "]"@ {
        lemma_parse_value_matches(elem, toks, pos);
        match parse_value_model(elem, toks, pos) {
            None => {},
            Some((v, q)) => {
                let q2 = step_from(pos + 1, q, toks.len() as int);
                lemma_vec_elems_match(elem, toks, q2);
                match vec_elems_model(elem, toks, q2) {
                    None => {},
                    Some((vs, r)) => {
                        lemma_all_match_cons(v, vs, elem);
                    },
                }
            },
        }
    }
}

proof fn lemma_parts_match(parts: Seq<ShapeModel>, k: int, toks: Seq<Seq<char>>, pos: int)
    ensures
        parts_model(parts, k, toks, pos) matches Some((vs, q)) ==> pair_match(vs, parts.skip(k)),
    decreases toks.len() - pos, parts, parts.len() - k + 1,
{
    if 0 <= pos <= toks.len() && 0 <= k < parts.len() {
        lemma_parse_value_matches(parts[k], toks, pos);
        match parse_value_model(parts[k], toks, pos) {
            None => {},
            Some((v, q)) => {
                let q2 = step_from(pos, q, toks.len() as int);
                lemma_parts_match(parts, k + 1, toks, q2);
                match parts_model(parts, k + 1, toks, q2) {
                    None => {},
                    Some((vs, r)) => {
                        lemma_pair_match_cons(v, vs, parts[k], parts.skip(k + 1));
                        assert(seq![parts[k]] + parts.skip(k + 1) =~= parts.skip(k));
                    },
                }
            },
        }
    } else if 0 <= pos <= toks.len() && k == parts.len() {
        assert(parts.skip(k) =~= Seq::<ShapeModel>::empty());
        assert(pair_match(Seq::<ValueModel>::empty(), Seq::<ShapeModel>::empty()));
    }
}

/// The dispatch loop keeps the configuration well typed: when every
/// stored value has its field's declared shape before the call, the
/// same holds after it, whether or not the call succeeds.
pub proof fn lemma_dispatch_preserves_wf(fields: Seq<FieldModel>, toks: Seq<Seq<char>>, pos: int)
    requires
        config_wf(fields),
    ensures
        config_wf(dispatch_model(fields, toks, pos).0),
    decreases toks.len() - pos,
{
    if 0 <= pos < toks.len() {
        match field_index(fields, toks[pos]) {
            None => {},
            Some(i) => {
                lemma_field_index_props(fields, toks[pos]);
                match parse_value_model(fields[i].shape, toks, pos + 1) {
                    None => {},
                    Some((v, q)) => {
                        lemma_parse_value_matches(fields[i].shape, toks, pos + 1);
                        let f2 = fields.update(
                            i,
                            FieldModel { name: fields[i].name, shape: fields[i].shape, value: v },
                        );
                        assert(config_wf(f2));
                        let q2 = step_from(pos + 1, q, toks.len() as int);
                        lemma_dispatch_preserves_wf(f2, toks, q2);
                    },
                }
            },
        }
    }
}

/// A found field index is in range and names the field it was found by.
pub proof fn lemma_field_index_props(fields: Seq<FieldModel>, name: Seq<char>)
    ensures
        field_index(fields, name) matches Some(i) ==> 0 <= i < fields.len() && fields[i].name
            == name,
    decreases fields.len(),
{
    if fields.len() > 0 && fields[0].name != name {
        lemma_field_index_props(fields.drop_first(), name);
    }
}

/// Fields with the same names are dispatched alike: looking a name up
/// does not depend on the stored values or shapes.
pub proof fn lemma_field_index_names(fields1: Seq<FieldModel>, fields2: Seq<FieldModel>, name: Seq<char>)
    requires
        fields1.len() == fields2.len(),
        forall|i: int| 0 <= i < fields1.len() ==> fields1[i].name == (#[trigger] fields2[i]).name,
    ensures
        field_index(fields1, name) == field_index(fields2, name),
    decreases fields1.len(),
{
    if fields1.len() > 0 {
        let t1 = fields1.drop_first();
        let t2 = fields2.drop_first();
        assert(forall|i: int| 0 <= i < t1.len() ==> t1[i] == fields1[i + 1] && t2[i] == fields2[i
            + 1]);
        lemma_field_index_names(t1, t2, name);
    }
}

/// The dispatch loop changes only values: the number, the names and
/// the shapes of the fields stay as declared, whether or not the call
/// succeeds.
pub proof fn lemma_dispatch_preserves_decl(fields: Seq<FieldModel>, toks: Seq<Seq<char>>, pos: int)
    ensures
        ({
            let (fs, ok) = dispatch_model(fields, toks, pos);
            fs.len() == fields.len() && forall|i: int|
                0 <= i < fields.len() ==> (#[trigger] fs[i]).name == fields[i].name && fs[i].shape
                    == fields[i].shape
        }),
    decreases toks.len() - pos,
{
    if 0 <= pos < toks.len() {
        match field_index(fields, toks[pos]) {
            None => {},
            Some(i) => {
                lemma_field_index_props(fields, toks[pos]);
                match parse_value_model(fields[i].shape, toks, pos + 1) {
                    None => {},
                    Some((v, q)) => {
                        let f2 = fields.update(
                            i,
                            FieldModel { name: fields[i].name, shape: fields[i].shape, value: v },
                        );
                        let q2 = step_from(pos + 1, q, toks.len() as int);
                        lemma_dispatch_preserves_decl(f2, toks, q2);
                    },
                }
            },
        }
    }
}

/// A field whose name does not occur among the remaining tokens keeps
/// its value, whether or not the call succeeds: fields absent from the
/// token stream retain their pre-call value.
pub proof fn lemma_unmentioned_field_preserved(
    fields: Seq<FieldModel>,
    toks: Seq<Seq<char>>,
    pos: int,
    i: int,
)
    requires
        0 <= i < fields.len(),
        forall|j: int| pos <= j < toks.len() ==> toks[j] != fields[i].name,
    ensures
        dispatch_model(fields, toks, pos).0[i] == fields[i],
    decreases toks.len() - pos,
{
    if 0 <= pos < toks.len() {
        match field_index(fields, toks[pos]) {
            None => {},
            Some(k) => {
                lemma_field_index_props(fields, toks[pos]);
                assert(fields[k].name == toks[pos]);
                assert(toks[pos] != fields[i].name);
                match parse_value_model(fields[k].shape, toks, pos + 1) {
                    None => {},
                    Some((v, q)) => {
                        let f2 = fields.update(
                            k,
                            FieldModel { name: fields[k].name, shape: fields[k].shape, value: v },
                        );
                        let q2 = step_from(pos + 1, q, toks.len() as int);
                        assert(f2[i] == fields[i]);
                        lemma_unmentioned_field_preserved(f2, toks, q2, i);
                    },
                }
            },
        }
    }
}

/// One step of the dispatch loop, spelled out: a token that names a
/// field, followed by tokens its value is parsed from, stores that
/// value and continues past them.
pub proof fn lemma_dispatch_step(
    fields: Seq<FieldModel>,
    toks: Seq<Seq<char>>,
    pos: int,
    i: int,
    v: ValueModel,
    q: int,
)
    requires
        0 <= pos < toks.len(),
        field_index(fields, toks[pos]) == Some(i),
        0 <= i < fields.len(),
        parse_value_model(fields[i].shape, toks, pos + 1) == Some((v, q)),
    ensures
        dispatch_model(fields, toks, pos) == dispatch_model(
            fields.update(i, FieldModel { name: fields[i].name, shape: fields[i].shape, value: v }),
            toks,
            step_from(pos + 1, q, toks.len() as int),
        ),
{
}

/// Overwrite semantics: when a field is mentioned twice, the value of
/// the later mention is the one that remains after the call.  Here the
/// two mentions follow one another, from any starting state and with
/// any further tokens after them that do not mention the field again.
pub proof fn lemma_overwrite(
    fields: Seq<FieldModel>,
    toks: Seq<Seq<char>>,
    pos: int,
    i: int,
    v1: ValueModel,
    q1: int,
    v2: ValueModel,
    q2: int,
)
    requires
        0 <= pos < toks.len(),
        field_index(fields, toks[pos]) == Some(i),
        parse_value_model(fields[i].shape, toks, pos + 1) == Some((v1, q1)),
        ({
            let second = step_from(pos + 1, q1, toks.len() as int);
            &&& second < toks.len()
            &&& toks[second] == toks[pos]
            &&& parse_value_model(fields[i].shape, toks, second + 1) == Some((v2, q2))
            &&& forall|j: int|
                step_from(second + 1, q2, toks.len() as int) <= j < toks.len() ==> toks[j]
                    != fields[i].name
        }),
    ensures
        dispatch_model(fields, toks, pos).0[i].value == v2,
        v1 != v2 ==> dispatch_model(fields, toks, pos).0[i].value != v1,
{
    lemma_field_index_props(fields, toks[pos]);
    let len = toks.len() as int;
    let second = step_from(pos + 1, q1, len);
    let f1 = fields.update(
        i,
        FieldModel { name: fields[i].name, shape: fields[i].shape, value: v1 },
    );
    lemma_dispatch_step(fields, toks, pos, i, v1, q1);
    assert(forall|k: int| 0 <= k < fields.len() ==> (#[trigger] f1[k]).name == fields[k].name);
    lemma_field_index_names(fields, f1, toks[second]);
    assert(field_index(f1, toks[second]) == Some(i));
    assert(f1[i].shape == fields[i].shape);
    let f2 = f1.update(i, FieldModel { name: f1[i].name, shape: f1[i].shape, value: v2 });
    lemma_dispatch_step(f1, toks, second, i, v2, q2);
    let rest = step_from(second + 1, q2, len);
    assert(f2[i].name == fields[i].name);
    lemma_unmentioned_field_preserved(f2, toks, rest, i);
    assert(dispatch_model(fields, toks, pos).0[i] == f2[i]);
}

/// Round trip for vectors: a start marker, three element token runs
/// and the end marker parse to the three element values, in order.
pub proof fn lemma_vector_round_trip(
    elem: crate::shape::ShapeModel,
    toks: Seq<Seq<char>>,
    pos: int,
    v1: ValueModel,
    e1: int,
    v2: ValueModel,
    e2: int,
    v3: ValueModel,
    e3: int,
)
    requires
        0 <= pos < toks.len(),
        ({
            let s1 = pos + 1;
            let s2 = step_from(s1 + 1, e1, toks.len() as int);
            let s3 = step_from(s2 + 1, e2, toks.len() as int);
            let s4 = step_from(s3 + 1, e3, toks.len() as int);
            &&& s1 < toks.len() && toks[s1] != "]"@
            &&& parse_value_model(elem, toks, s1) == Some((v1, e1))
            &&& s2 < toks.len() && toks[s2] != "]"@
            &&& parse_value_model(elem, toks, s2) == Some((v2, e2))
            &&& s3 < toks.len() && toks[s3] != "]"@
            &&& parse_value_model(elem, toks, s3) == Some((v3, e3))
            &&& s4 < toks.len() && toks[s4] == "]"@
        }),
    ensures
        ({
            let s1 = pos + 1;
            let s2 = step_from(s1 + 1, e1, toks.len() as int);
            let s3 = step_from(s2 + 1, e2, toks.len() as int);
            let s4 = step_from(s3 + 1, e3, toks.len() as int);
            parse_value_model(
                crate::shape::ShapeModel::VecSh { elem: Box::new(elem) },
                toks,
                pos,
            ) == Some((ValueModel::VecV { elems: seq![v1, v2, v3] }, s4 + 1))
        }),
{
    let len = toks.len() as int;
    let s1 = pos + 1;
    let s2 = step_from(s1 + 1, e1, len);
    let s3 = step_from(s2 + 1, e2, len);
    let s4 = step_from(s3 + 1, e3, len);
    assert(seq![v3] + Seq::<ValueModel>::empty() =~= seq![v3]);
    assert(seq![v1] + (seq![v2] + seq![v3]) =~= seq![v1, v2, v3]);
    assert(crate::parse::vec_elems_model(elem, toks, s4) == Some(
        (Seq::<ValueModel>::empty(), s4 + 1),
    ));
    assert(crate::parse::vec_elems_model(elem, toks, s3) == Some((seq![v3], s4 + 1)));
    assert(crate::parse::vec_elems_model(elem, toks, s2) == Some((seq![v2] + seq![v3], s4 + 1)));
    assert(crate::parse::vec_elems_model(elem, toks, s1) == Some(
        (seq![v1, v2, v3], s4 + 1),
    ));
}

/// The help text is a pure function of the fields: two renderings of
/// the same fields are identical.
pub proof fn lemma_help_idempotent(fields: Seq<FieldModel>, r1: Seq<char>, r2: Seq<char>)
    requires
        r1 == help_text(fields),
        r2 == help_text(fields),
    ensures
        r1 == r2,
{
}

/// The help text depends only on the declared names and shapes, which
/// the dispatch loop never changes: it is the same before and after
/// any `add_source` call, whatever the tokens held.
pub proof fn lemma_help_unaffected_by_dispatch(
    fields: Seq<FieldModel>,
    toks: Seq<Seq<char>>,
    pos: int,
)
    ensures
        help_text(dispatch_model(fields, toks, pos).0) == help_text(fields),
{
    lemma_dispatch_preserves_decl(fields, toks, pos);
    lemma_join_lines_names(dispatch_model(fields, toks, pos).0, fields);
}

proof fn lemma_join_lines_names(fields1: Seq<FieldModel>, fields2: Seq<FieldModel>)
    requires
        fields1.len() == fields2.len(),
        forall|i: int|
            0 <= i < fields1.len() ==> (#[trigger] fields1[i]).name == fields2[i].name
                && fields1[i].shape == fields2[i].shape,
    ensures
        join_lines(fields1) == join_lines(fields2),
    decreases fields1.len(),
{
    if fields1.len() > 0 {
        let t1 = fields1.drop_last();
        let t2 = fields2.drop_last();
        assert(forall|i: int|
            0 <= i < t1.len() ==> t1[i] == fields1[i] && t2[i] == fields2[i]);
        lemma_join_lines_names(t1, t2);
        assert(help_line(fields1.last()) == help_line(fields2.last()));
    }
}

} // verus!
