use vstd::prelude::*;

verus! {

/// A check that a visible field must pass before the form is accepted.
#[derive(Clone, Copy, Debug, PartialEq, Eq, Structural)]
pub enum Validator {
    /// The field holds a non-empty value.
    Required,
}

/// One entry of a selector: the stored value and the text shown for it.
pub struct SelectOption {
    pub value: String,
    pub label: String,
}

/// How a field's value is entered.
pub enum FieldType {
    Text,
    Select { options: Vec<SelectOption>, multi: bool },
}

/// Shows a field only while `field` holds one of `values`.
pub struct Condition {
    pub field: String,
    pub values: Vec<String>,
}

/// Static description of one form field.
pub struct FieldDef {
    pub name: String,
    pub typ: FieldType,
    pub default: Option<String>,
    pub validators: Vec<Validator>,
    pub display_if: Option<Condition>,
}

/// The ordered fields of one form.
pub struct Schema {
    pub fields: Vec<FieldDef>,
}

/// The names of `fields`, in order.
pub open spec fn field_names(fields: Seq<FieldDef>) -> Seq<Seq<char>> {
    fields.map_values(|f: FieldDef| f.name@)
}

/// No two fields share a name.
pub open spec fn names_unique(fields: Seq<FieldDef>) -> bool {
    forall|i: int, j: int|
        0 <= i < j < fields.len() ==> #[trigger] fields[i].name@ != #[trigger] fields[j].name@
}

impl Schema {
    pub open spec fn wf(&self) -> bool {
        names_unique(self.fields@)
    }
}

/// Compares two strings by their characters.
pub fn str_equals(a: &str, b: &str) -> (r: bool)
    ensures
        r == (a@ == b@),
{
    a.to_owned() == b.to_owned()
}

/// Whether no two of `fields` share a name: what `Schemas::register` asks of
/// its fields.
pub fn has_unique_names(fields: &Vec<FieldDef>) -> (r: bool)
    ensures
        r == names_unique(fields@),
{
    let n = fields.len();
    let mut j: usize = 1;
    while j < n
        invariant
            n == fields.len(),
            1 <= j || n == 0,
            j <= n || n == 0,
            forall|a: int, b: int|
                0 <= a < b < j && b < n ==> #[trigger] fields@[a].name@ != #[trigger] fields@[b].name@,
        decreases n - j,
    {
        let mut i: usize = 0;
        while i < j
            invariant
                n == fields.len(),
                1 <= j < n,
                i <= j,
                forall|a: int| 0 <= a < i ==> #[trigger] fields@[a].name@ != fields@[j as int].name@,
            decreases j - i,
        {
            if str_equals(fields[i].name.as_str(), fields[j].name.as_str()) {
                return false;
            }
            i = i + 1;
        }
        j = j + 1;
    }
    true
}

/// Map of the registered schemas, a later entry of a name hiding an earlier one.
pub open spec fn entries_map(s: Seq<(String, Schema)>) -> Map<Seq<char>, Schema>
    decreases s.len(),
{
    if s.len() == 0 {
        Map::empty()
    } else {
        entries_map(s.drop_last()).insert(s.last().0@, s.last().1)
    }
}

proof fn lemma_entries_prefix(s: Seq<(String, Schema)>, k: Seq<char>, i: int)
    requires
        0 <= i <= s.len(),
        forall|j: int| i <= j < s.len() ==> #[trigger] s[j].0@ != k,
    ensures
        entries_map(s).contains_key(k) == entries_map(s.take(i)).contains_key(k),
        entries_map(s).contains_key(k) ==> entries_map(s)[k] == entries_map(s.take(i))[k],
    decreases s.len() - i,
{
    if i < s.len() {
        assert(s.drop_last().take(i) =~= s.take(i));
        lemma_entries_prefix(s.drop_last(), k, i);
        assert(s.last().0@ != k);
    } else {
        assert(s.take(i) =~= s);
    }
}

/// The registry of schemas, keyed by schema name.
pub struct Schemas {
    entries: Vec<(String, Schema)>,
}

impl View for Schemas {
    type V = Map<Seq<char>, Schema>;

    closed spec fn view(&self) -> Map<Seq<char>, Schema> {
        entries_map(self.entries@)
    }
}

impl Schemas {
    /// Every registered schema has unique field names.
    pub open spec fn wf(&self) -> bool {
        forall|k: Seq<char>| #[trigger] self@.contains_key(k) ==> self@[k].wf()
    }

    pub fn new() -> (r: Schemas)
        ensures
            r@ == Map::<Seq<char>, Schema>::empty(),
            r.wf(),
    {
        Schemas { entries: Vec::new() }
    }

    /// Registers `fields` under `name`, replacing an earlier schema of that name.
    pub fn register(&mut self, name: &str, fields: Vec<FieldDef>)
        requires
            old(self).wf(),
            names_unique(fields@),
        ensures
            final(self).wf(),
            final(self)@.contains_key(name@),
            final(self)@[name@].fields@ == fields@,
            final(self)@ == old(self)@.insert(name@, final(self)@[name@]),
    {
        let schema = Schema { fields };
        let ghost before = self.entries@;
        self.entries.push((name.to_owned(), schema));
        proof {
            assert(self.entries@.drop_last() =~= before);
            assert forall|k: Seq<char>| #[trigger] self@.contains_key(k) implies self@[k].wf() by {
                if k != name@ {
                    assert(old(self)@.contains_key(k));
                }
            }
        }
    }

    /// Whether a schema is registered under `name`.
    pub fn contains(&self, name: &str) -> (r: bool)
        ensures
            r == self@.contains_key(name@),
    {
        let mut i: usize = self.entries.len();
        while i > 0
            invariant
                i <= self.entries.len(),
                forall|j: int| i <= j < self.entries.len() ==> #[trigger] self.entries@[j].0@ != name@,
            decreases i,
        {
            if str_equals(self.entries[i - 1].0.as_str(), name) {
                proof {
                    lemma_entries_prefix(self.entries@, name@, i as int);
                    assert(self.entries@.take(i as int).drop_last() =~= self.entries@.take(i - 1));
                }
                return true;
            }
            i = i - 1;
        }
        proof {
            lemma_entries_prefix(self.entries@, name@, 0);
        }
        false
    }

    /// The schema registered under `name`.
    pub fn lookup(&self, name: &str) -> (r: &Schema)
        requires
            self@.contains_key(name@),
        ensures
            *r == self@[name@],
    {
        let mut i: usize = self.entries.len();
        proof {
            assert(self.entries@.take(i as int) =~= self.entries@);
        }
        while !str_equals(self.entries[i - 1].0.as_str(), name)
            invariant
                0 < i <= self.entries.len(),
                entries_map(self.entries@.take(i as int)).contains_key(name@),
                entries_map(self.entries@.take(i as int))[name@] == self@[name@],
            decreases i,
        {
            proof {
                let t = self.entries@.take(i as int);
                assert(t.drop_last() =~= self.entries@.take(i - 1));
                assert(t.last() == self.entries@[i - 1]);
                assert(entries_map(t) == entries_map(t.drop_last()).insert(t.last().0@, t.last().1));
                if i == 1 {
                    assert(self.entries@.take(0) =~= Seq::<(String, Schema)>::empty());
                }
            }
            i = i - 1;
        }
        proof {
            let t = self.entries@.take(i as int);
            assert(t.last() == self.entries@[i - 1]);
        }
        &self.entries[i - 1].1
    }
}

/// Looking a name up right after registering fields under it yields those
/// fields, in the same order and with the same names; other names keep what
/// they had.
pub proof fn lemma_lookup_after_register(
    before: Schemas,
    after: Schemas,
    name: Seq<char>,
    fields: Seq<FieldDef>,
)
    requires
        after@.contains_key(name),
        after@[name].fields@ == fields,
        after@ == before@.insert(name, after@[name]),
    ensures
        field_names(after@[name].fields@) == field_names(fields),
        forall|k: Seq<char>|
            k != name ==> (#[trigger] after@.contains_key(k) == before@.contains_key(k)) && (
            before@.contains_key(k) ==> after@[k] == before@[k]),
{
}

/// Collects schemas into a registry.
pub struct Builder {
    schemas: Schemas,
}

impl View for Builder {
    type V = Map<Seq<char>, Schema>;

    closed spec fn view(&self) -> Map<Seq<char>, Schema> {
        self.schemas@
    }
}

impl Builder {
    pub open spec fn wf(&self) -> bool {
        forall|k: Seq<char>| #[trigger] self@.contains_key(k) ==> self@[k].wf()
    }

    pub fn new() -> (r: Builder)
        ensures
            r@ == Map::<Seq<char>, Schema>::empty(),
            r.wf(),
    {
        Builder { schemas: Schemas::new() }
    }

    /// Adds a schema of `fields` under `name`.
    pub fn new_schema(self, name: &str, fields: Vec<FieldDef>) -> (r: Builder)
        requires
            self.wf(),
            names_unique(fields@),
        ensures
            r.wf(),
            r@.contains_key(name@),
            r@[name@].fields@ == fields@,
            r@ == self@.insert(name@, r@[name@]),
    {
        let mut schemas = self.schemas;
        schemas.register(name, fields);
        Builder { schemas }
    }

    /// The registry holding every schema added.
    pub fn build(self) -> (r: Schemas)
        requires
            self.wf(),
        ensures
            r@ == self@,
            r.wf(),
    {
        proof {
            assert forall|k: Seq<char>| #[trigger] self.schemas@.contains_key(k) implies self.schemas@[k].wf() by {
                assert(self@.contains_key(k));
            }
        }
        self.schemas
    }
}

} // verus!
