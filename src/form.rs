use vstd::prelude::*;
use crate::schema::{names_unique, str_equals, FieldDef, Schema, Validator};

verus! {

/// The state of one rendered form: its schema's fields, the current
/// string-encoded value of each field, and the error each field got on the
/// last validation pass.
pub struct FormModel {
    pub fields: Seq<FieldDef>,
    pub values: Seq<Option<Seq<char>>>,
    pub errors: Seq<Option<Validator>>,
}

pub open spec fn opt_view(o: Option<String>) -> Option<Seq<char>> {
    match o {
        Some(s) => Some(s@),
        None => None,
    }
}

/// The default value of each field, as a fresh form holds them.
pub open spec fn defaults(fields: Seq<FieldDef>) -> Seq<Option<Seq<char>>> {
    Seq::new(fields.len(), |i: int| opt_view(fields[i].default))
}

/// `v` is one of `values`.
pub open spec fn one_of(v: Seq<char>, values: Seq<String>) -> bool {
    exists|k: int| 0 <= k < values.len() && #[trigger] values[k]@ == v
}

/// Whether `v` makes validator `val` fail.
pub open spec fn fails(val: Validator, v: Option<Seq<char>>) -> bool {
    match val {
        Validator::Required => v is None || v.unwrap().len() == 0,
    }
}

/// The first validator of `vals` that `v` fails, if any.
pub open spec fn first_failure(vals: Seq<Validator>, v: Option<Seq<char>>) -> Option<Validator>
    decreases vals.len(),
{
    if vals.len() == 0 {
        None
    } else if fails(vals[0], v) {
        Some(vals[0])
    } else {
        first_failure(vals.skip(1), v)
    }
}

/// No field carries an error.
pub open spec fn no_errors(errors: Seq<Option<Validator>>) -> bool {
    forall|i: int| 0 <= i < errors.len() ==> #[trigger] errors[i] is None
}

impl FormModel {
    pub open spec fn wf(self) -> bool {
        &&& names_unique(self.fields)
        &&& self.values.len() == self.fields.len()
        &&& self.errors.len() == self.fields.len()
    }

    /// The value stored for the field called `name`; absent for an unknown name.
    pub open spec fn stored(self, name: Seq<char>) -> Option<Seq<char>> {
        if exists|i: int| 0 <= i < self.fields.len() && #[trigger] self.fields[i].name@ == name {
            let i = choose|i: int| 0 <= i < self.fields.len() && #[trigger] self.fields[i].name@ == name;
            self.values[i]
        } else {
            None
        }
    }

    /// Whether field `f` is shown under the current values.
    pub open spec fn shows(self, f: FieldDef) -> bool {
        match f.display_if {
            None => true,
            Some(c) => match self.stored(c.field@) {
                Some(v) => one_of(v, c.values@),
                None => false,
            },
        }
    }

    /// Whether the field called `name` exists and is shown.
    pub open spec fn visible(self, name: Seq<char>) -> bool {
        exists|i: int|
            0 <= i < self.fields.len() && #[trigger] self.fields[i].name@ == name && self.shows(
                self.fields[i],
            )
    }

    /// The error that validation gives field `i`: none while the field is
    /// hidden, else its first failing validator.
    pub open spec fn error_for(self, i: int) -> Option<Validator> {
        if self.shows(self.fields[i]) {
            first_failure(self.fields[i].validators@, self.values[i])
        } else {
            None
        }
    }

    /// The state after a validation pass.
    pub open spec fn validated(self) -> FormModel {
        FormModel {
            fields: self.fields,
            values: self.values,
            errors: Seq::new(self.fields.len(), |i: int| self.error_for(i)),
        }
    }

    /// The state after storing `v` in the field called `name`; an unknown
    /// name changes nothing.
    pub open spec fn with_value(self, name: Seq<char>, v: Seq<char>) -> FormModel {
        FormModel {
            fields: self.fields,
            values: Seq::new(
                self.values.len(),
                |i: int|
                    if self.fields[i].name@ == name {
                        Some(v)
                    } else {
                        self.values[i]
                    },
            ),
            errors: self.errors,
        }
    }
}

pub proof fn lemma_stored_at(m: FormModel, name: Seq<char>, i: int)
    requires
        m.wf(),
        0 <= i < m.fields.len(),
        m.fields[i].name@ == name,
    ensures
        m.stored(name) == m.values[i],
{
    let j = choose|j: int| 0 <= j < m.fields.len() && #[trigger] m.fields[j].name@ == name;
    if j < i {
        assert(m.fields[j].name@ != m.fields[i].name@);
    } else if i < j {
        assert(m.fields[i].name@ != m.fields[j].name@);
    }
}

pub proof fn lemma_stored_absent(m: FormModel, name: Seq<char>)
    requires
        forall|i: int| 0 <= i < m.fields.len() ==> #[trigger] m.fields[i].name@ != name,
    ensures
        m.stored(name) is None,
{
}

/// With `Required` the only kind of validator, a list of validators has a
/// failure exactly when it is non-empty and the value is absent or empty.
pub proof fn lemma_first_failure_required(vals: Seq<Validator>, v: Option<Seq<char>>)
    ensures
        (first_failure(vals, v) is Some) == (vals.len() > 0 && fails(Validator::Required, v)),
    decreases vals.len(),
{
    if vals.len() > 0 {
        lemma_first_failure_required(vals.skip(1), v);
    }
}

/// Validating twice without a change in between leaves the same errors as
/// validating once.
pub proof fn lemma_validate_idempotent(m: FormModel)
    ensures
        m.validated().validated() == m.validated(),
        no_errors(m.validated().validated().errors) == no_errors(m.validated().errors),
{
    assert(m.validated().validated().errors =~= m.validated().errors);
}

/// A field that is always shown and carries `Required` gets an error exactly
/// when its value is absent or empty, and then validation fails.
pub proof fn lemma_required_field(m: FormModel, i: int)
    requires
        m.wf(),
        0 <= i < m.fields.len(),
        m.fields[i].display_if is None,
        m.fields[i].validators@.contains(Validator::Required),
    ensures
        (m.validated().errors[i] is Some) == (m.values[i] is None || m.values[i].unwrap().len()
            == 0),
        (m.values[i] is None || m.values[i].unwrap().len() == 0) ==> !no_errors(
            m.validated().errors,
        ),
{
    lemma_first_failure_required(m.fields[i].validators@, m.values[i]);
}

/// A field hidden by its condition never gets an error, whatever it holds.
pub proof fn lemma_hidden_field(m: FormModel, i: int)
    requires
        0 <= i < m.fields.len(),
        !m.shows(m.fields[i]),
    ensures
        m.validated().errors[i] is None,
{
}

/// A form bound to a schema, holding the current values and validation errors.
pub struct FormData<'a> {
    schema: &'a Schema,
    values: Vec<Option<String>>,
    errors: Vec<Option<Validator>>,
}

impl<'a> View for FormData<'a> {
    type V = FormModel;

    closed spec fn view(&self) -> FormModel {
        FormModel {
            fields: self.schema.fields@,
            values: self.values@.map_values(|o: Option<String>| opt_view(o)),
            errors: self.errors@,
        }
    }
}

impl<'a> FormData<'a> {
    pub open spec fn wf(&self) -> bool {
        self@.wf()
    }

    /// A fresh form for `schema`: each field holds its default, no errors.
    pub fn new(schema: &'a Schema) -> (r: FormData<'a>)
        requires
            schema.wf(),
        ensures
            r.wf(),
            r@.fields == schema.fields@,
            r@.values == defaults(schema.fields@),
            no_errors(r@.errors),
    {
        let n = schema.fields.len();
        let mut values: Vec<Option<String>> = Vec::new();
        let mut errors: Vec<Option<Validator>> = Vec::new();
        let mut i: usize = 0;
        while i < n
            invariant
                n == schema.fields.len(),
                i <= n,
                values.len() == i,
                errors.len() == i,
                forall|j: int| 0 <= j < i ==> opt_view(#[trigger] values@[j]) == opt_view(schema.fields@[j].default),
                forall|j: int| 0 <= j < i ==> #[trigger] errors@[j] is None,
            decreases n - i,
        {
            let d = match &schema.fields[i].default {
                Some(s) => Some(s.clone()),
                None => None,
            };
            values.push(d);
            errors.push(None);
            i = i + 1;
        }
        let r = FormData { schema, values, errors };
        proof {
            assert(r@.values =~= defaults(schema.fields@));
        }
        r
    }

    /// The schema this form is bound to.
    pub fn schema(&self) -> (r: &'a Schema)
        ensures
            r.fields@ == self@.fields,
    {
        self.schema
    }

    fn field_index(&self, name: &str) -> (r: Option<usize>)
        requires
            self.wf(),
        ensures
            match r {
                Some(i) => i < self@.fields.len() && self@.fields[i as int].name@ == name@,
                None => forall|i: int| 0 <= i < self@.fields.len() ==> #[trigger] self@.fields[i].name@ != name@,
            },
    {
        let mut i: usize = 0;
        while i < self.schema.fields.len()
            invariant
                self.wf(),
                i <= self.schema.fields.len(),
                forall|j: int| 0 <= j < i ==> #[trigger] self@.fields[j].name@ != name@,
            decreases self.schema.fields.len() - i,
        {
            if str_equals(self.schema.fields[i].name.as_str(), name) {
                return Some(i);
            }
            i = i + 1;
        }
        None
    }

    fn stored_ref(&self, name: &str) -> (r: Option<&String>)
        requires
            self.wf(),
        ensures
            match r {
                Some(s) => self@.stored(name@) == Some(s@),
                None => self@.stored(name@) is None,
            },
    {
        match self.field_index(name) {
            Some(i) => {
                proof {
                    lemma_stored_at(self@, name@, i as int);
                }
                match &self.values[i] {
                    Some(s) => Some(s),
                    None => None,
                }
            },
            None => {
                proof {
                    lemma_stored_absent(self@, name@);
                }
                None
            },
        }
    }

    /// The value stored for `name`; absent when the field is unset or unknown.
    pub fn value(&self, name: &str) -> (r: Option<String>)
        requires
            self.wf(),
        ensures
            opt_view(r) == self@.stored(name@),
    {
        match self.stored_ref(name) {
            Some(s) => Some(s.clone()),
            None => None,
        }
    }

    /// Stores `value` in the field called `name`. A name the schema does not
    /// hold is ignored. Nothing is validated here.
    pub fn set(&mut self, name: &str, value: &str)
        requires
            old(self).wf(),
        ensures
            final(self).wf(),
            final(self)@ == old(self)@.with_value(name@, value@),
    {
        let ghost before = self@;
        match self.field_index(name) {
            Some(i) => {
                self.values.set(i, Some(value.to_owned()));
                proof {
                    assert forall|j: int| 0 <= j < self@.values.len() implies #[trigger] self@.values[j]
                        == before.with_value(name@, value@).values[j] by {
                        if j != i {
                            if self@.fields[j].name@ == name@ {
                                if j < i {
                                    assert(self@.fields[j].name@ != self@.fields[i as int].name@);
                                } else {
                                    assert(self@.fields[i as int].name@ != self@.fields[j].name@);
                                }
                            }
                        }
                    }
                    assert(self@.values =~= before.with_value(name@, value@).values);
                }
            },
            None => {
                proof {
                    assert(self@.values =~= before.with_value(name@, value@).values);
                }
            },
        }
    }

    fn shows_field(&self, i: usize) -> (r: bool)
        requires
            self.wf(),
            i < self@.fields.len(),
        ensures
            r == self@.shows(self@.fields[i as int]),
    {
        match &self.schema.fields[i].display_if {
            None => true,
            Some(c) => match self.stored_ref(c.field.as_str()) {
                None => false,
                Some(v) => {
                    let mut k: usize = 0;
                    while k < c.values.len()
                        invariant
                            self.wf(),
                            i < self@.fields.len(),
                            self@.fields[i as int].display_if == Some(*c),
                            self@.stored(c.field@) == Some(v@),
                            k <= c.values.len(),
                            forall|j: int| 0 <= j < k ==> #[trigger] c.values@[j]@ != v@,
                        decreases c.values.len() - k,
                    {
                        if str_equals(c.values[k].as_str(), v.as_str()) {
                            return true;
                        }
                        k = k + 1;
                    }
                    false
                },
            },
        }
    }

    /// Whether the field called `name` is shown: a field without a condition
    /// always is, an unknown name never.
    pub fn is_visible(&self, name: &str) -> (r: bool)
        requires
            self.wf(),
        ensures
            r == self@.visible(name@),
    {
        match self.field_index(name) {
            Some(i) => {
                let r = self.shows_field(i);
                proof {
                    if !r {
                        assert forall|j: int|
                            0 <= j < self@.fields.len() && #[trigger] self@.fields[j].name@ == name@
                            implies !self@.shows(self@.fields[j]) by {
                            if j < i {
                                assert(self@.fields[j].name@ != self@.fields[i as int].name@);
                            } else if i < j {
                                assert(self@.fields[i as int].name@ != self@.fields[j].name@);
                            }
                        }
                    }
                }
                r
            },
            None => false,
        }
    }

    /// The error recorded for the field called `name` by the last validation.
    pub fn error(&self, name: &str) -> (r: Option<Validator>)
        requires
            self.wf(),
        ensures
            match r {
                Some(e) => exists|i: int|
                    0 <= i < self@.fields.len() && #[trigger] self@.fields[i].name@ == name@
                        && self@.errors[i] == Some(e),
                None => forall|i: int|
                    0 <= i < self@.fields.len() && #[trigger] self@.fields[i].name@ == name@
                        ==> self@.errors[i] is None,
            },
    {
        match self.field_index(name) {
            Some(i) => {
                let e = self.errors[i];
                proof {
                    assert forall|j: int|
                        0 <= j < self@.fields.len() && #[trigger] self@.fields[j].name@ == name@
                        implies j == i by {
                        if j < i {
                            assert(self@.fields[j].name@ != self@.fields[i as int].name@);
                        } else if i < j {
                            assert(self@.fields[i as int].name@ != self@.fields[j].name@);
                        }
                    }
                }
                e
            },
            None => None,
        }
    }

    fn first_failing(vals: &Vec<Validator>, v: &Option<String>) -> (r: Option<Validator>)
        ensures
            r == first_failure(vals@, opt_view(*v)),
    {
        let ghost value = opt_view(*v);
        let mut k: usize = 0;
        proof {
            assert(vals@.skip(0) =~= vals@);
        }
        while k < vals.len()
            invariant
                k <= vals.len(),
                value == opt_view(*v),
                first_failure(vals@, value) == first_failure(vals@.skip(k as int), value),
            decreases vals.len() - k,
        {
            let failed = match vals[k] {
                Validator::Required => match v {
                    None => true,
                    Some(s) => s.as_str().is_empty(),
                },
            };
            proof {
                assert(vals@.skip(k as int).skip(1) =~= vals@.skip(k + 1));
            }
            if failed {
                return Some(vals[k]);
            }
            k = k + 1;
        }
        None
    }

    /// Runs the validators of every shown field in schema order, recording the
    /// first failure of each; hidden fields get no error. True when no field
    /// failed.
    pub fn validate(&mut self) -> (r: bool)
        requires
            old(self).wf(),
        ensures
            final(self).wf(),
            final(self)@ == old(self)@.validated(),
            r == no_errors(final(self)@.errors),
    {
        let ghost before = self@;
        let n = self.schema.fields.len();
        let mut ok = true;
        let mut i: usize = 0;
        while i < n
            invariant
                n == self@.fields.len(),
                i <= n,
                self.wf(),
                self@.fields == before.fields,
                self@.values == before.values,
                forall|j: int| 0 <= j < i ==> #[trigger] self@.errors[j] == before.error_for(j),
                ok == (forall|j: int| 0 <= j < i ==> #[trigger] before.error_for(j) is None),
            decreases n - i,
        {
            let e = if self.shows_field(i) {
                FormData::first_failing(&self.schema.fields[i].validators, &self.values[i])
            } else {
                None
            };
            proof {
                assert(opt_view(self.values@[i as int]) == self@.values[i as int]);
            }
            self.errors.set(i, e);
            if e.is_some() {
                ok = false;
            }
            proof {
                assert(self@.errors[i as int] == e);
                assert(e == before.error_for(i as int));
                assert(self@.values =~= before.values);
            }
            i = i + 1;
        }
        proof {
            assert(self@.errors =~= before.validated().errors);
            if !ok {
                let j = choose|j: int| 0 <= j < n && !(#[trigger] before.error_for(j) is None);
                assert(!(self@.errors[j] is None));
            }
        }
        ok
    }
}

} // verus!
