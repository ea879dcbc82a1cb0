use vstd::prelude::*;
use crate::form::{
    defaults, lemma_first_failure_required, lemma_stored_at, no_errors, one_of, opt_view, FormData, FormModel,
};
use crate::schema::{
    names_unique, str_equals, Builder, Condition, FieldDef, FieldType, SelectOption, Validator,
};

verus! {

/// Symmetric cipher used to encrypt stored messages.
#[derive(Clone, Copy, Debug, PartialEq, Eq, Structural)]
pub enum Algorithm {
    Aes128,
    Aes256,
}

/// Public-key scheme that wraps the message key.
#[derive(Clone, Copy, Debug, PartialEq, Eq, Structural)]
pub enum EncryptionMethod {
    PGP,
    SMIME,
}

/// Encryption-at-rest settings of an account.
#[derive(Clone, Debug, PartialEq, Eq)]
pub enum EncryptionType {
    PGP { algo: Algorithm, certs: String },
    SMIME { algo: Algorithm, certs: String },
    Disabled,
}

impl Default for EncryptionType {
    fn default() -> (r: EncryptionType)
        ensures
            r is Disabled,
    {
        EncryptionType::Disabled
    }
}

/// Name of the schema that describes the encryption-at-rest form.
pub const CRYPTO_SCHEMA: &'static str = "crypto-at-rest";

pub open spec fn method_name(m: EncryptionMethod) -> Seq<char> {
    match m {
        EncryptionMethod::PGP => "pgp"@,
        EncryptionMethod::SMIME => "smime"@,
    }
}

pub open spec fn parse_method(s: Seq<char>) -> Option<EncryptionMethod> {
    if s == "pgp"@ {
        Some(EncryptionMethod::PGP)
    } else if s == "smime"@ {
        Some(EncryptionMethod::SMIME)
    } else {
        None
    }
}

pub open spec fn algorithm_name(a: Algorithm) -> Seq<char> {
    match a {
        Algorithm::Aes128 => "aes128"@,
        Algorithm::Aes256 => "aes256"@,
    }
}

pub open spec fn parse_algorithm(s: Seq<char>) -> Option<Algorithm> {
    if s == "aes128"@ {
        Some(Algorithm::Aes128)
    } else if s == "aes256"@ {
        Some(Algorithm::Aes256)
    } else {
        None
    }
}

impl EncryptionMethod {
    pub fn as_str(&self) -> (r: &'static str)
        ensures
            r@ == method_name(*self),
    {
        match self {
            EncryptionMethod::PGP => "pgp",
            EncryptionMethod::SMIME => "smime",
        }
    }

    pub fn from_str(s: &str) -> (r: Result<EncryptionMethod, ()>)
        ensures
            match r {
                Ok(m) => parse_method(s@) == Some(m),
                Err(_) => parse_method(s@) is None,
            },
    {
        if str_equals(s, "pgp") {
            Ok(EncryptionMethod::PGP)
        } else if str_equals(s, "smime") {
            Ok(EncryptionMethod::SMIME)
        } else {
            Err(())
        }
    }
}

impl Algorithm {
    pub fn as_str(&self) -> (r: &'static str)
        ensures
            r@ == algorithm_name(*self),
    {
        match self {
            Algorithm::Aes128 => "aes128",
            Algorithm::Aes256 => "aes256",
        }
    }

    pub fn from_str(s: &str) -> (r: Result<Algorithm, ()>)
        ensures
            match r {
                Ok(a) => parse_algorithm(s@) == Some(a),
                Err(_) => parse_algorithm(s@) is None,
            },
    {
        if str_equals(s, "aes128") {
            Ok(Algorithm::Aes128)
        } else if str_equals(s, "aes256") {
            Ok(Algorithm::Aes256)
        } else {
            Err(())
        }
    }
}

pub open spec fn option_pairs(opts: Seq<SelectOption>) -> Seq<(Seq<char>, Seq<char>)> {
    opts.map_values(|o: SelectOption| (o.value@, o.label@))
}

/// `t` is a single-choice selector offering `pairs` of value and label.
pub open spec fn is_select(t: FieldType, pairs: Seq<(Seq<char>, Seq<char>)>) -> bool {
    match t {
        FieldType::Select { options, multi } => !multi && option_pairs(options@) == pairs,
        FieldType::Text => false,
    }
}

pub open spec fn string_views(v: Seq<String>) -> Seq<Seq<char>> {
    v.map_values(|s: String| s@)
}

/// `c` shows its field while the selector holds an encryption method.
pub open spec fn shown_with_method(c: Option<Condition>) -> bool {
    match c {
        Some(c) => c.field@ == "type"@ && string_views(c.values@) == seq![
            "pgp"@,
            "smime"@,
        ],
        None => false,
    }
}

/// The encryption-at-rest form: the method selector, the cipher and the
/// certificates (both shown only while a method is chosen), and the account
/// password.
pub open spec fn is_crypto_schema(fields: Seq<FieldDef>) -> bool {
    &&& fields.len() == 4
    &&& fields[0].name@ == "type"@
    &&& is_select(
        fields[0].typ,
        seq![("pgp"@, "OpenPGP"@), ("smime"@, "S/MIME"@), (""@, "Disabled"@)],
    )
    &&& opt_view(fields[0].default) == Some(""@)
    &&& fields[0].validators@ == Seq::<Validator>::empty()
    &&& fields[0].display_if is None
    &&& fields[1].name@ == "algo"@
    &&& is_select(fields[1].typ, seq![("aes128"@, "AES-128"@), ("aes256"@, "AES-256"@)])
    &&& opt_view(fields[1].default) == Some("aes256"@)
    &&& fields[1].validators@ == Seq::<Validator>::empty()
    &&& shown_with_method(fields[1].display_if)
    &&& fields[2].name@ == "certs"@
    &&& fields[2].typ is Text
    &&& fields[2].default is None
    &&& fields[2].validators@ == seq![Validator::Required]
    &&& shown_with_method(fields[2].display_if)
    &&& fields[3].name@ == "password"@
    &&& fields[3].typ is Text
    &&& fields[3].default is None
    &&& fields[3].validators@ == seq![Validator::Required]
    &&& fields[3].display_if is None
}

fn select_option(value: &str, label: &str) -> (r: SelectOption)
    ensures
        r.value@ == value@,
        r.label@ == label@,
{
    SelectOption { value: value.to_owned(), label: label.to_owned() }
}

fn method_condition() -> (r: Option<Condition>)
    ensures
        shown_with_method(r),
{
    let mut values: Vec<String> = Vec::new();
    values.push(EncryptionMethod::PGP.as_str().to_owned());
    values.push(EncryptionMethod::SMIME.as_str().to_owned());
    let r = Some(Condition { field: "type".to_owned(), values });
    proof {
        assert(string_views(values@) =~= seq!["pgp"@, "smime"@]);
    }
    r
}

impl Builder {
    /// Adds the encryption-at-rest schema.
    pub fn build_crypto(self) -> (r: Builder)
        requires
            self.wf(),
        ensures
            r.wf(),
            r@.contains_key(CRYPTO_SCHEMA@),
            is_crypto_schema(r@[CRYPTO_SCHEMA@].fields@),
            r@ == self@.insert(CRYPTO_SCHEMA@, r@[CRYPTO_SCHEMA@]),
    {
        let mut methods: Vec<SelectOption> = Vec::new();
        methods.push(select_option(EncryptionMethod::PGP.as_str(), "OpenPGP"));
        methods.push(select_option(EncryptionMethod::SMIME.as_str(), "S/MIME"));
        methods.push(select_option("", "Disabled"));
        let mut algos: Vec<SelectOption> = Vec::new();
        algos.push(select_option(Algorithm::Aes128.as_str(), "AES-128"));
        algos.push(select_option(Algorithm::Aes256.as_str(), "AES-256"));
        proof {
            assert(option_pairs(methods@) =~= seq![
                ("pgp"@, "OpenPGP"@),
                ("smime"@, "S/MIME"@),
                (""@, "Disabled"@),
            ]);
            assert(option_pairs(algos@) =~= seq![("aes128"@, "AES-128"@), ("aes256"@, "AES-256"@)]);
        }
        let mut required: Vec<Validator> = Vec::new();
        required.push(Validator::Required);
        let mut required2: Vec<Validator> = Vec::new();
        required2.push(Validator::Required);
        let mut fields: Vec<FieldDef> = Vec::new();
        fields.push(
            FieldDef {
                name: "type".to_owned(),
                typ: FieldType::Select { options: methods, multi: false },
                default: Some("".to_owned()),
                validators: Vec::new(),
                display_if: None,
            },
        );
        fields.push(
            FieldDef {
                name: "algo".to_owned(),
                typ: FieldType::Select { options: algos, multi: false },
                default: Some(Algorithm::Aes256.as_str().to_owned()),
                validators: Vec::new(),
                display_if: method_condition(),
            },
        );
        fields.push(
            FieldDef {
                name: "certs".to_owned(),
                typ: FieldType::Text,
                default: None,
                validators: required,
                display_if: method_condition(),
            },
        );
        fields.push(
            FieldDef {
                name: "password".to_owned(),
                typ: FieldType::Text,
                default: None,
                validators: required2,
                display_if: None,
            },
        );
        proof {
            reveal_strlit("type");
            reveal_strlit("algo");
            reveal_strlit("certs");
            reveal_strlit("password");
            assert(required@ =~= seq![Validator::Required]);
            assert(fields@[0].name@ == "type"@);
            assert(fields@[1].name@ == "algo"@);
            assert(fields@[2].name@ == "certs"@);
            assert(fields@[3].name@ == "password"@);
            assert("type"@[0] != "algo"@[0] && "type"@[0] != "certs"@[0] && "type"@[0] != "password"@[0]);
            assert("algo"@[0] != "certs"@[0] && "algo"@[0] != "password"@[0]);
            assert("certs"@[0] != "password"@[0]);
            assert(names_unique(fields@));
        }
        self.new_schema(CRYPTO_SCHEMA, fields)
    }
}

/// The form after writing `p` into it: the method, cipher and certificates of
/// an enabled configuration; for a disabled one only a blank method, the
/// other fields left as they were.
pub open spec fn flattened(m: FormModel, p: EncryptionType) -> FormModel {
    match p {
        EncryptionType::PGP { algo, certs } => m.with_value("type"@, "pgp"@).with_value(
            "algo"@,
            algorithm_name(algo),
        ).with_value("certs"@, certs@),
        EncryptionType::SMIME { algo, certs } => m.with_value("type"@, "smime"@).with_value(
            "algo"@,
            algorithm_name(algo),
        ).with_value("certs"@, certs@),
        EncryptionType::Disabled => m.with_value("type"@, ""@),
    }
}

/// The method the selector holds; absent when it holds nothing it knows.
pub open spec fn chosen_method(m: FormModel) -> Option<EncryptionMethod> {
    match m.stored("type"@) {
        Some(s) => parse_method(s),
        None => None,
    }
}

pub open spec fn chosen_algorithm(m: FormModel) -> Option<Algorithm> {
    match m.stored("algo"@) {
        Some(s) => parse_algorithm(s),
        None => None,
    }
}

/// The values spell out a whole configuration: no method, or a method with
/// a known cipher and some certificates.
pub open spec fn decodable(m: FormModel) -> bool {
    chosen_method(m) is None || (chosen_algorithm(m) is Some && m.stored("certs"@) is Some)
}

/// `p` is the configuration that the values spell out.
pub open spec fn decodes_to(m: FormModel, p: EncryptionType) -> bool {
    match chosen_method(m) {
        None => p is Disabled,
        Some(EncryptionMethod::PGP) => match p {
            EncryptionType::PGP { algo, certs } => chosen_algorithm(m) == Some(algo) && m.stored(
                "certs"@,
            ) == Some(certs@),
            _ => false,
        },
        Some(EncryptionMethod::SMIME) => match p {
            EncryptionType::SMIME { algo, certs } => chosen_algorithm(m) == Some(algo)
                && m.stored("certs"@) == Some(certs@),
            _ => false,
        },
    }
}

/// A form as it is created for `fields`: defaults, no errors.
pub open spec fn fresh(fields: Seq<FieldDef>) -> FormModel {
    FormModel {
        fields,
        values: defaults(fields),
        errors: Seq::new(fields.len(), |i: int| None::<Validator>),
    }
}

impl<'a> FormData<'a> {
    /// Writes `params` into the form.
    pub fn from_encryption_params(&mut self, params: &EncryptionType)
        requires
            old(self).wf(),
        ensures
            final(self).wf(),
            final(self)@ == flattened(old(self)@, *params),
    {
        match params {
            EncryptionType::PGP { algo, certs } => {
                self.set("type", EncryptionMethod::PGP.as_str());
                self.set("algo", algo.as_str());
                self.set("certs", certs.as_str());
            },
            EncryptionType::SMIME { algo, certs } => {
                self.set("type", EncryptionMethod::SMIME.as_str());
                self.set("algo", algo.as_str());
                self.set("certs", certs.as_str());
            },
            EncryptionType::Disabled => {
                self.set("type", "");
            },
        }
    }

    /// Validates the form and, when it passes, reads the configuration it
    /// holds. An unknown or blank method reads as disabled; an enabled method
    /// whose cipher or certificates cannot be read gives nothing.
    pub fn to_encryption_params(&mut self) -> (r: Option<EncryptionType>)
        requires
            old(self).wf(),
        ensures
            final(self).wf(),
            final(self)@ == old(self)@.validated(),
            r is Some <==> no_errors(final(self)@.errors) && decodable(final(self)@),
            r is Some ==> decodes_to(final(self)@, r.unwrap()),
    {
        if !self.validate() {
            return None;
        }
        let method = match self.value("type") {
            Some(s) => match EncryptionMethod::from_str(s.as_str()) {
                Ok(m) => Some(m),
                Err(_) => None,
            },
            None => None,
        };
        match method {
            None => Some(EncryptionType::Disabled),
            Some(m) => {
                let algo = match self.value("algo") {
                    Some(s) => match Algorithm::from_str(s.as_str()) {
                        Ok(a) => a,
                        Err(_) => {
                            return None;
                        },
                    },
                    None => {
                        return None;
                    },
                };
                let certs = match self.value("certs") {
                    Some(c) => c,
                    None => {
                        return None;
                    },
                };
                match m {
                    EncryptionMethod::PGP => Some(EncryptionType::PGP { algo, certs }),
                    EncryptionMethod::SMIME => Some(EncryptionType::SMIME { algo, certs }),
                }
            },
        }
    }
}

proof fn lemma_crypto_names()
    ensures
        "type"@ != "algo"@,
        "type"@ != "certs"@,
        "type"@ != "password"@,
        "algo"@ != "certs"@,
        "algo"@ != "password"@,
        "certs"@ != "password"@,
        "pgp"@ != "smime"@,
        "pgp"@ != ""@,
        "smime"@ != ""@,
        "aes128"@ != "aes256"@,
{
    reveal_strlit("type");
    reveal_strlit("algo");
    reveal_strlit("certs");
    reveal_strlit("password");
    reveal_strlit("pgp");
    reveal_strlit("smime");
    reveal_strlit("");
    reveal_strlit("aes128");
    reveal_strlit("aes256");
    assert("type"@[0] != "algo"@[0]);
    assert("type"@[0] != "certs"@[0]);
    assert("type"@[0] != "password"@[0]);
    assert("algo"@[0] != "certs"@[0]);
    assert("algo"@[0] != "password"@[0]);
    assert("certs"@[0] != "password"@[0]);
    assert("pgp"@[0] != "smime"@[0]);
    assert("pgp"@.len() != ""@.len());
    assert("smime"@.len() != ""@.len());
    assert("aes128"@[4] != "aes256"@[4]);
}

/// Writing an enabled or disabled configuration into a fresh form, then
/// filling in the password, gives a form that validates and reads back as
/// the same configuration. An enabled configuration needs certificates,
/// which the form requires.
pub proof fn lemma_round_trip(fields: Seq<FieldDef>, p: EncryptionType, password: Seq<char>)
    requires
        is_crypto_schema(fields),
        password.len() > 0,
        match p {
            EncryptionType::PGP { certs, .. } => certs@.len() > 0,
            EncryptionType::SMIME { certs, .. } => certs@.len() > 0,
            EncryptionType::Disabled => true,
        },
    ensures
        ({
            let m = flattened(fresh(fields), p).with_value("password"@, password).validated();
            no_errors(m.errors) && decodable(m) && decodes_to(m, p)
        }),
{
    lemma_crypto_names();
    let m0 = fresh(fields);
    let m1 = flattened(m0, p).with_value("password"@, password);
    let m = m1.validated();
    assert(names_unique(fields));
    reveal_strlit("");
    let v0 = match p {
        EncryptionType::PGP { .. } => "pgp"@,
        EncryptionType::SMIME { .. } => "smime"@,
        EncryptionType::Disabled => ""@,
    };
    assert(m1.values[0] == Some(v0));
    lemma_stored_at(m1, "type"@, 0);
    lemma_stored_at(m1, "algo"@, 1);
    lemma_stored_at(m1, "certs"@, 2);
    lemma_stored_at(m, "type"@, 0);
    lemma_stored_at(m, "algo"@, 1);
    lemma_stored_at(m, "certs"@, 2);
    let c = fields[2].display_if.unwrap();
    assert(string_views(c.values@) == seq!["pgp"@, "smime"@]);
    assert(seq!["pgp"@, "smime"@].len() == 2);
    assert(string_views(c.values@).len() == c.values@.len());
    assert(c.values@.len() == 2);
    assert(string_views(c.values@)[0] == c.values@[0]@);
    assert(string_views(c.values@)[1] == c.values@[1]@);
    match p {
        EncryptionType::Disabled => {
            assert(!one_of(v0, c.values@));
            assert(!m1.shows(fields[2]));
        },
        EncryptionType::PGP { algo, certs } => {
            assert(m1.values[2] == Some(certs@));
            assert(one_of(v0, c.values@));
        },
        EncryptionType::SMIME { algo, certs } => {
            assert(m1.values[2] == Some(certs@));
            assert(one_of(v0, c.values@));
        },
    }
    lemma_first_failure_required(fields[2].validators@, m1.values[2]);
    lemma_first_failure_required(fields[3].validators@, m1.values[3]);
    assert(m.errors[0] is None);
    assert(m.errors[1] is None);
    assert(m.errors[2] is None);
    assert(m.errors[3] is None);
}

} // verus!
