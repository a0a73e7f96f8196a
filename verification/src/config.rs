//! The configuration object: a list of named, typed fields with their
//! current values, the field-dispatch loop that consumes a token
//! stream, and the help-text rendering.

use vstd::prelude::*;
use crate::shape::{TypeShape, ShapeModel, params_text};
use crate::value::{ConfigValue, ValueModel, value_matches};
use crate::parse::{parse_value_model, parse_error_text, unknown_field_text, toks_model, step_from, ConfigType};
use crate::scalar::str_eq;

verus! {

/// Mathematical model of one configuration field.
pub struct FieldModel {
    pub name: Seq<char>,
    pub shape: ShapeModel,
    pub value: ValueModel,
}

/// One configuration field: its name, its type shape, and its current
/// value.  The initial value is the caller-supplied default.
pub struct ConfigField {
    pub name: String,
    pub shape: TypeShape,
    pub value: ConfigValue,
}

impl View for ConfigField {
    type V = FieldModel;

    open spec fn view(&self) -> FieldModel {
        FieldModel { name: self.name@, shape: self.shape@, value: self.value@ }
    }
}

/// A configuration object: fields in declaration order.
pub struct Config {
    pub fields: Vec<ConfigField>,
}

impl View for Config {
    type V = Seq<FieldModel>;

    open spec fn view(&self) -> Seq<FieldModel> {
        Seq::new(self.fields@.len(), |i: int| self.fields@[i]@)
    }
}

/// Every field's value has the field's declared shape.
pub open spec fn config_wf(fields: Seq<FieldModel>) -> bool {
    forall|i: int|
        0 <= i < fields.len() ==> value_matches(
            (#[trigger] fields[i]).value,
            fields[i].shape,
        )
}

/// The declaration-order index of the first field named `name`.
pub open spec fn field_index(fields: Seq<FieldModel>, name: Seq<char>) -> Option<int>
    decreases fields.len(),
{
    if fields.len() == 0 {
        None
    } else if fields[0].name == name {
        Some(0int)
    } else {
        match field_index(fields.drop_first(), name) {
            Some(i) => Some(i + 1),
            None => None,
        }
    }
}

/// The field-dispatch loop: each token in turn names a field, whose
/// value is parsed from the tokens that follow and stored, overwriting
/// the previous value; an unknown name or a failed parse stops the loop
/// with failure, keeping the assignments already made.  The result is
/// the final fields and whether the whole stream was consumed
/// successfully.
pub open spec fn dispatch_model(fields: Seq<FieldModel>, toks: Seq<Seq<char>>, pos: int) -> (
    Seq<FieldModel>,
    bool,
)
    decreases toks.len() - pos,
{
    if !(0 <= pos < toks.len()) {
        (fields, true)
    } else {
        match field_index(fields, toks[pos]) {
            None => (fields, false),
            Some(i) => match parse_value_model(fields[i].shape, toks, pos + 1) {
                None => (fields, false),
                Some((v, q)) => {
                    let q2 = step_from(pos + 1, q, toks.len() as int);
                    dispatch_model(
                        fields.update(
                            i,
                            FieldModel { name: fields[i].name, shape: fields[i].shape, value: v },
                        ),
                        toks,
                        q2,
                    )
                },
            },
        }
    }
}

/// The error message of a failing dispatch run: the unknown-field
/// message for the first token that names no field, or the failing
/// value parse's own message.  Meaningful only when the run fails.
pub open spec fn dispatch_error_text(
    fields: Seq<FieldModel>,
    toks: Seq<Seq<char>>,
    pos: int,
) -> Seq<char>
    decreases toks.len() - pos,
{
    if !(0 <= pos < toks.len()) {
        Seq::empty()
    } else {
        match field_index(fields, toks[pos]) {
            None => unknown_field_text(toks[pos]),
            Some(i) => match parse_value_model(fields[i].shape, toks, pos + 1) {
                None => parse_error_text(fields[i].shape, fields[i].name, toks, pos + 1),
                Some((v, q)) => dispatch_error_text(
                    fields.update(
                        i,
                        FieldModel { name: fields[i].name, shape: fields[i].shape, value: v },
                    ),
                    toks,
                    step_from(pos + 1, q, toks.len() as int),
                ),
            },
        }
    }
}

proof fn lemma_field_index_at(fields: Seq<FieldModel>, name: Seq<char>, j: int)
    requires
        0 <= j <= fields.len(),
        forall|k: int| 0 <= k < j ==> fields[k].name != name,
        j == fields.len() || fields[j].name == name,
    ensures
        field_index(fields, name) == (if j == fields.len() {
            None
        } else {
            Some(j)
        }),
    decreases j,
{
    if j > 0 {
        let t = fields.drop_first();
        assert(forall|k: int|
            0 <= k < j - 1 ==> t[k] == fields[k + 1] && fields[k + 1].name != name);
        assert(j - 1 == t.len() || t[j - 1].name == name);
        lemma_field_index_at(t, name, j - 1);
    }
}

/// One line of the help text.
pub open spec fn help_line(f: FieldModel) -> Seq<char> {
    f.name + " "@ + params_text(f.shape)
}

/// The per-field lines of the help text, one per field in declaration
/// order, joined by newlines.
pub open spec fn join_lines(fields: Seq<FieldModel>) -> Seq<char>
    decreases fields.len(),
{
    if fields.len() == 0 {
        Seq::empty()
    } else if fields.len() == 1 {
        help_line(fields[0])
    } else {
        join_lines(fields.drop_last()) + "\n"@ + help_line(fields.last())
    }
}

/// The whole help text: a fixed banner line, then one line per field.
pub open spec fn help_text(fields: Seq<FieldModel>) -> Seq<char> {
    "List of arguments with their respective parameters:\n"@ + join_lines(fields)
}

impl Config {
    /// A configuration object with the given fields, in declaration
    /// order, each holding its default value.
    pub fn new(fields: Vec<ConfigField>) -> (r: Config)
        ensures
            r.fields == fields,
    {
        Config { fields }
    }

    /// Consumes a token stream: each token in turn names a field, and
    /// the following tokens are parsed as that field's value, which
    /// overwrites the stored one.  An unknown field name or a value
    /// that fails to parse stops the call with an error; assignments
    /// already made are kept.
    pub fn add_source(&mut self, toks: &Vec<String>) -> (r: Result<(), String>)
        ensures
            ({
                let (fs, ok) = dispatch_model(old(self)@, toks_model(toks@), 0);
                final(self)@ == fs && (r is Ok <==> ok)
            }),
            r matches Err(m) ==> m@ == dispatch_error_text(old(self)@, toks_model(toks@), 0),
    {
        let ghost tm = toks_model(toks@);
        let len = toks.len();
        let mut pos: usize = 0;
        while pos < len
            invariant
                0 <= pos <= len,
                len == toks@.len(),
                tm == toks_model(toks@),
                dispatch_model(old(self)@, tm, 0) == dispatch_model(self@, tm, pos as int),
                dispatch_error_text(old(self)@, tm, 0) == dispatch_error_text(
                    self@,
                    tm,
                    pos as int,
                ),
            decreases len - pos,
        {
            let n = self.fields.len();
            let mut i: usize = 0;
            let mut found = false;
            while !found && i < n
                invariant
                    0 <= i <= n,
                    n == self.fields@.len(),
                    pos < toks@.len(),
                    tm == toks_model(toks@),
                    forall|k: int| 0 <= k < i ==> self@[k].name != tm[pos as int],
                    found ==> i < n && self@[i as int].name == tm[pos as int],
                decreases n - i + (if found {
                    0int
                } else {
                    1int
                }),
            {
                if str_eq(self.fields[i].name.as_str(), toks[pos].as_str()) {
                    found = true;
                } else {
                    i += 1;
                }
            }
            proof {
                lemma_field_index_at(self@, tm[pos as int], i as int);
            }
            if !found {
                let mut m = String::from_str("Invalid setting: ");
                m.append(toks[pos].as_str());
                return Err(m);
            }
            let mut vpos: usize = pos + 1;
            let parsed = self.fields[i].shape.parse_config(
                self.fields[i].name.as_str(),
                toks,
                &mut vpos,
            );
            match parsed {
                Ok(v) => {
                    let ghost before = self@;
                    self.fields[i].value = v;
                    proof {
                        assert(self@ =~= before.update(
                            i as int,
                            FieldModel {
                                name: before[i as int].name,
                                shape: before[i as int].shape,
                                value: v@,
                            },
                        ));
                        assert(vpos as int == step_from(
                            pos + 1,
                            vpos as int,
                            tm.len() as int,
                        ));
                    }
                    pos = vpos;
                },
                Err(e) => {
                    return Err(e);
                },
            }
        }
        Ok(())
    }

    /// Renders the help text: the banner line, then one line per field
    /// in declaration order, each the field's name, a space, and the
    /// description of the token pattern its type expects.
    pub fn get_help(&self) -> (r: String)
        ensures
            r@ == help_text(self@),
    {
        let mut m = String::from_str("List of arguments with their respective parameters:\n");
        let n = self.fields.len();
        let mut i: usize = 0;
        while i < n
            invariant
                0 <= i <= n,
                n == self.fields@.len(),
                m@ == "List of arguments with their respective parameters:\n"@ + join_lines(
                    self@.take(i as int),
                ),
            decreases n - i,
        {
            if i > 0 {
                m.append("\n");
            }
            m.append(self.fields[i].name.as_str());
            m.append(" ");
            let params = self.fields[i].shape.get_params();
            m.append(params.as_str());
            proof {
                let t = self@.take(i + 1);
                assert(t.drop_last() =~= self@.take(i as int));
                assert(t.last() == self@[i as int]);
                if i == 0 {
                    assert(join_lines(t) == help_line(self@[0]));
                }
            }
            i += 1;
        }
        proof {
            assert(self@.take(n as int) =~= self@);
        }
        m
    }

    /// The current value of the field named `name`, if there is one.
    pub fn get(&self, name: &str) -> (r: Option<&ConfigValue>)
        ensures
            match r {
                Some(v) => field_index(self@, name@) matches Some(i) && v@ == self@[i].value,
                None => field_index(self@, name@) is None,
            },
    {
        let n = self.fields.len();
        let mut i: usize = 0;
        let mut found = false;
        while !found && i < n
            invariant
                0 <= i <= n,
                n == self.fields@.len(),
                forall|k: int| 0 <= k < i ==> self@[k].name != name@,
                found ==> i < n && self@[i as int].name == name@,
            decreases n - i + (if found {
                0int
            } else {
                1int
            }),
        {
            if str_eq(self.fields[i].name.as_str(), name) {
                found = true;
            } else {
                i += 1;
            }
        }
        proof {
            lemma_field_index_at(self@, name@, i as int);
        }
        if found {
            Some(&self.fields[i].value)
        } else {
            None
        }
    }
}

} // verus!
