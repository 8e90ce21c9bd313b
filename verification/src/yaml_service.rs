//! The configuration service: YAML documents parsed and checked against JSON
//! schemas (Draft 7).
//!
//! The service keeps named schema documents — stored as their source texts,
//! so that every outcome can be stated as a function of texts — and answers
//! two questions about a YAML text: what document it denotes
//! (`get_yaml_data`) and whether that document satisfies a named schema
//! (`validate_yaml_data`). Reading files and walking the schema directory
//! are the caller's work; everything here takes file contents as text.
//! Parsing, compiling and checking are done by `serde_yaml`, `serde_json`
//! and `jsonschema` behind the trusted items below; their outcomes are
//! named, so success and every error class are owed exactly.

use vstd::prelude::*;
use vstd::string::StrSliceExecFns;
use vstd::string::StringExecFns;

use crate::models::ApiError;

verus! {

/// `serde_json::Value`: the opaque parsed document carried through the
/// service. The hub never reads inside one.
#[verifier::external_type_specification]
#[verifier::external_body]
pub struct ExValue(serde_json::Value);

/// What parsing a text as YAML yields: `None` when it parses, or the
/// parser's error text. A pure function of the text.
pub uninterp spec fn yaml_parse_outcome(s: Seq<char>) -> Option<Seq<char>>;

/// What parsing a text as JSON yields: `None` when it parses, or the
/// parser's error text. A pure function of the text.
pub uninterp spec fn json_parse_outcome(s: Seq<char>) -> Option<Seq<char>>;

/// What compiling the JSON document written in a text as a Draft 7 schema
/// yields: `None` when it compiles, or the compiler's error text. Meaningful
/// only for texts that parse as JSON; a pure function of the text (no remote
/// references are resolved in this build).
pub uninterp spec fn schema_compile_outcome(s: Seq<char>) -> Option<Seq<char>>;

/// What checking the YAML document written in `content` against the Draft 7
/// schema written in `schema_text` yields: `None` when the document
/// satisfies the schema, or the first violation's text. Meaningful when the
/// schema text parses and compiles and the content parses as YAML; a pure
/// function of the two texts.
pub uninterp spec fn schema_validation_outcome(schema_text: Seq<char>, content: Seq<char>) -> Option<
    Seq<char>,
>;

/// Why a schema text was rejected: not JSON at all, or not a usable schema.
#[derive(Debug)]
enum SchemaIssue {
    Parse(String),
    Compile(String),
}

/// Relies on `serde_yaml::from_str::<serde_json::Value>`: whether a YAML
/// text parses, and the error text when it does not, depend on the text
/// alone.
#[verifier::external_body]
fn yaml_to_value(content: &str) -> (r: Result<serde_json::Value, String>)
    ensures
        r is Ok <==> yaml_parse_outcome(content@) is None,
        r matches Err(m) ==> yaml_parse_outcome(content@) matches Some(e) && m@ == e,
{
    match serde_yaml::from_str::<serde_json::Value>(content) {
        Ok(v) => Ok(v),
        Err(e) => Err(format!("{}", e)),
    }
}

/// Relies on `serde_json::from_str::<serde_json::Value>` and on
/// `jsonschema::options().with_draft(Draft::Draft7).build`: whether a text
/// parses as JSON, whether the parsed document compiles as a Draft 7
/// schema, and the respective error texts, depend on the text alone. With
/// remote resolution disabled in this build, building returns (never blocks
/// or panics) on every input.
#[verifier::external_body]
fn check_schema_text(content: &str) -> (r: Result<(), SchemaIssue>)
    ensures
        match json_parse_outcome(content@) {
            Some(e) => r matches Err(SchemaIssue::Parse(m)) && m@ == e,
            None => match schema_compile_outcome(content@) {
                Some(e) => r matches Err(SchemaIssue::Compile(m)) && m@ == e,
                None => r is Ok,
            },
        },
{
    match serde_json::from_str::<serde_json::Value>(content) {
        Err(e) => Err(SchemaIssue::Parse(format!("{}", e))),
        Ok(v) => match jsonschema::options().with_draft(jsonschema::Draft::Draft7).build(&v) {
            Ok(_) => Ok(()),
            Err(e) => Err(SchemaIssue::Compile(format!("{}", e))),
        },
    }
}

/// Relies on `serde_json::from_str`, `jsonschema::options().with_draft(
/// Draft::Draft7).build`, `serde_yaml::from_str::<serde_json::Value>` and
/// `jsonschema::Validator::validate`: for a schema text that parses and
/// compiles and a content text that parses as YAML, whether the document
/// satisfies the schema, and the first violation's text, depend on the two
/// texts alone (no remote references are resolved in this build). The body
/// matches every outcome and returns on every input; nothing here can
/// panic.
#[verifier::external_body]
fn validate_text_against_schema_text(schema_text: &str, content: &str) -> (r: Result<(), String>)
    ensures
        (json_parse_outcome(schema_text@) is None && schema_compile_outcome(schema_text@) is None
            && yaml_parse_outcome(content@) is None) ==> match schema_validation_outcome(
            schema_text@,
            content@,
        ) {
            None => r is Ok,
            Some(e) => r matches Err(m) && m@ == e,
        },
{
    let schema: serde_json::Value = match serde_json::from_str(schema_text) {
        Ok(v) => v,
        Err(e) => return Err(format!("{}", e)),
    };
    let validator = match jsonschema::options().with_draft(jsonschema::Draft::Draft7).build(
        &schema,
    ) {
        Ok(v) => v,
        Err(e) => return Err(format!("{}", e)),
    };
    match serde_yaml::from_str::<serde_json::Value>(content) {
        Ok(doc) => validator.validate(&doc).map_err(|e| format!("{}", e)),
        Err(e) => Err(format!("{}", e)),
    }
}

/// The text of the first schema stored under this name, if any.
pub open spec fn spec_schema_text(ss: Seq<(String, String)>, name: Seq<char>) -> Option<Seq<char>>
    decreases ss.len(),
{
    if ss.len() == 0 {
        None
    } else if ss[0].0@ == name {
        Some(ss[0].1@)
    } else {
        spec_schema_text(ss.drop_first(), name)
    }
}

/// A name that occurs nowhere is not bound.
proof fn lemma_schema_text_absent(ss: Seq<(String, String)>, name: Seq<char>)
    requires
        forall|k: int| 0 <= k < ss.len() ==> (#[trigger] ss[k]).0@ != name,
    ensures
        spec_schema_text(ss, name) is None,
    decreases ss.len(),
{
    if ss.len() > 0 {
        assert(forall|k: int|
            0 <= k < ss.drop_first().len() ==> (#[trigger] ss.drop_first()[k]) == ss[k + 1]);
        lemma_schema_text_absent(ss.drop_first(), name);
    }
}

/// Dropping an entry whose name is not `n` leaves `n`'s binding as it was.
proof fn lemma_schema_text_remove_other(ss: Seq<(String, String)>, i: int, n: Seq<char>)
    requires
        0 <= i < ss.len(),
        ss[i].0@ != n,
    ensures
        spec_schema_text(ss.remove(i), n) == spec_schema_text(ss, n),
    decreases ss.len(),
{
    if i == 0 {
        assert(ss.remove(0) =~= ss.drop_first());
    } else {
        assert(ss.remove(i)[0] == ss[0]);
        assert(ss.remove(i).drop_first() =~= ss.drop_first().remove(i - 1));
        if ss[0].0@ != n {
            lemma_schema_text_remove_other(ss.drop_first(), i - 1, n);
        }
    }
}

/// Under unique names, dropping the entry that holds a name unbinds it, and
/// the names stay unique.
proof fn lemma_schema_text_remove_self(ss: Seq<(String, String)>, i: int)
    requires
        0 <= i < ss.len(),
        forall|a: int, b: int| 0 <= a < b < ss.len() ==> (#[trigger] ss[a]).0@ != (
        #[trigger] ss[b]).0@,
    ensures
        spec_schema_text(ss.remove(i), ss[i].0@) is None,
        forall|a: int, b: int|
            0 <= a < b < ss.remove(i).len() ==> (#[trigger] ss.remove(i)[a]).0@ != (
            #[trigger] ss.remove(i)[b]).0@,
{
    let nm = ss[i].0@;
    assert(forall|k: int|
        0 <= k < ss.remove(i).len() ==> (#[trigger] ss.remove(i)[k]) == (if k < i {
            ss[k]
        } else {
            ss[k + 1]
        }));
    assert forall|k: int| 0 <= k < ss.remove(i).len() implies (#[trigger] ss.remove(i)[k]).0@
        != nm by {
        if k < i {
            assert(ss[k].0@ != ss[i].0@);
        } else {
            assert(ss[i].0@ != ss[k + 1].0@);
        }
    }
    lemma_schema_text_absent(ss.remove(i), nm);
}

/// Appending an entry binds its name where it was unbound, and leaves every
/// other name's binding as it was.
proof fn lemma_schema_text_push(ss: Seq<(String, String)>, p: (String, String), n: Seq<char>)
    ensures
        spec_schema_text(ss.push(p), n) == (if spec_schema_text(ss, n) is Some {
            spec_schema_text(ss, n)
        } else if p.0@ == n {
            Some(p.1@)
        } else {
            None
        }),
    decreases ss.len(),
{
    if ss.len() == 0 {
        assert(ss.push(p)[0] == p);
        assert(ss.push(p).drop_first() =~= Seq::<(String, String)>::empty());
        assert(spec_schema_text(Seq::<(String, String)>::empty(), n) is None);
    } else {
        assert(ss.push(p)[0] == ss[0]);
        assert(ss.push(p).drop_first() =~= ss.drop_first().push(p));
        lemma_schema_text_push(ss.drop_first(), p, n);
    }
}

/// Serves validated configuration documents from loaded schemas.
pub struct YamlService {
    /// Where the caller reads schema files from.
    pub schema_dir: String,
    /// Where the caller reads data files from.
    pub data_dir: String,
    /// Loaded schemas: name and schema source text. Only texts that parse as
    /// JSON and compile as Draft 7 schemas are stored by [`Self::add_schema`];
    /// the service stays panic-free even if an unusable text is placed here
    /// by hand.
    pub schemas: Vec<(String, String)>,
}

impl YamlService {
    /// The text of the schema loaded under this name, if any.
    pub open spec fn spec_schema(&self, name: Seq<char>) -> Option<Seq<char>> {
        spec_schema_text(self.schemas@, name)
    }

    /// Schema names are unique.
    pub open spec fn wf(&self) -> bool {
        forall|i: int, j: int|
            0 <= i < j < self.schemas@.len() ==> (#[trigger] self.schemas@[i]).0@ != (
            #[trigger] self.schemas@[j]).0@
    }

    /// A service with no schemas loaded yet. The caller checks that the two
    /// directories exist and feeds each schema file to [`Self::add_schema`].
    pub fn new(schema_dir: String, data_dir: String) -> (s: YamlService)
        ensures
            s.wf(),
            s.schema_dir == schema_dir,
            s.data_dir == data_dir,
            s.schemas@.len() == 0,
    {
        YamlService { schema_dir, data_dir, schemas: Vec::new() }
    }

    /// The index of the first schema of this name, if one is loaded.
    fn find_schema(&self, name: &str) -> (r: Option<usize>)
        ensures
            match r {
                Some(i) => i < self.schemas@.len() && self.schemas@[i as int].0@ == name@
                    && self.spec_schema(name@) == Some(self.schemas@[i as int].1@),
                None => self.spec_schema(name@) is None,
            },
    {
        let ghost ss = self.schemas@;
        let mut i: usize = 0;
        let n = self.schemas.len();
        proof {
            assert(ss.skip(0) =~= ss);
        }
        while i < n
            invariant
                i <= n,
                n == ss.len(),
                ss == self.schemas@,
                spec_schema_text(ss, name@) == spec_schema_text(ss.skip(i as int), name@),
            decreases n - i,
        {
            let nv = crate::jsontext::to_chars(self.schemas[i].0.as_str());
            proof {
                assert(ss.skip(i as int)[0] == ss[i as int]);
                assert(ss.skip(i as int).drop_first() =~= ss.skip(i + 1));
            }
            if crate::jsontext::chars_match(&nv, name) {
                return Some(i);
            }
            i = i + 1;
        }
        proof {
            assert(ss.skip(n as int) =~= Seq::<(String, String)>::empty());
        }
        None
    }

    /// Parses and compiles one schema text (Draft 7), and stores it under
    /// `name`, replacing any schema previously loaded under that name: a
    /// text that parses and compiles is always accepted, and a text that
    /// does not is rejected with its exact error class and changes nothing.
    pub fn add_schema(&mut self, name: &str, content: &str) -> (r: Result<(), ApiError>)
        requires
            old(self).wf(),
        ensures
            final (self).wf(),
            final (self).schema_dir == old(self).schema_dir,
            final (self).data_dir == old(self).data_dir,
            match json_parse_outcome(content@) {
                Some(e) => r matches Err(ApiError::ValidationError(m)) && m@ == "Invalid JSON schema: "@
                    + e,
                None => match schema_compile_outcome(content@) {
                    Some(e) => r matches Err(ApiError::ValidationError(m)) && m@ == "Schema compilation failed: "@
                        + e,
                    None => r is Ok,
                },
            },
            r is Err ==> final (self).schemas == old(self).schemas,
            r is Ok ==> final (self).spec_schema(name@) == Some(content@),
            r is Ok ==> forall|n: Seq<char>|
                n != name@ ==> final (self).spec_schema(n) == old(self).spec_schema(n),
    {
        match check_schema_text(content) {
            Err(SchemaIssue::Parse(m)) => Err(
                ApiError::ValidationError("Invalid JSON schema: ".to_owned().concat(m.as_str())),
            ),
            Err(SchemaIssue::Compile(m)) => Err(
                ApiError::ValidationError(
                    "Schema compilation failed: ".to_owned().concat(m.as_str()),
                ),
            ),
            Ok(_) => {
                let ghost prev = self.schemas@;
                match self.find_schema(name) {
                    Some(i) => {
                        proof {
                            lemma_schema_text_remove_self(prev, i as int);
                            assert forall|n2: Seq<char>| n2 != name@ implies spec_schema_text(
                                prev.remove(i as int),
                                n2,
                            ) == spec_schema_text(prev, n2) by {
                                lemma_schema_text_remove_other(prev, i as int, n2);
                            }
                        }
                        self.schemas.remove(i);
                    },
                    None => (),
                }
                let ghost mid = self.schemas@;
                let entry = (name.to_owned(), content.to_owned());
                self.schemas.push(entry);
                proof {
                    assert(spec_schema_text(mid, name@) is None);
                    assert(self.schemas@ =~= mid.push(self.schemas@.last()));
                    assert(self.schemas@.last().0@ == name@);
                    assert(self.schemas@.last().1@ == content@);
                    lemma_schema_text_push(mid, self.schemas@.last(), name@);
                    assert forall|n2: Seq<char>| n2 != name@ implies spec_schema_text(
                        self.schemas@,
                        n2,
                    ) == spec_schema_text(mid, n2) by {
                        lemma_schema_text_push(mid, self.schemas@.last(), n2);
                    }
                    assert(forall|k: int|
                        0 <= k < mid.len() ==> (#[trigger] self.schemas@[k]) == mid[k]);
                    assert forall|k: int| 0 <= k < mid.len() implies (#[trigger] mid[k]).0@
                        != name@ by {
                        lemma_schema_text_bound_at(mid, k);
                    }
                }
                Ok(())
            },
        }
    }

    /// The names of the loaded schemas, in load order.
    pub fn list_available_schemas(&self) -> (r: Vec<String>)
        ensures
            r@.len() == self.schemas@.len(),
            forall|i: int| 0 <= i < r@.len() ==> (#[trigger] r@[i]) == self.schemas@[i].0,
    {
        let mut r: Vec<String> = Vec::new();
        let mut i: usize = 0;
        let n = self.schemas.len();
        while i < n
            invariant
                i <= n,
                n == self.schemas@.len(),
                r@.len() == i,
                forall|k: int| 0 <= k < i ==> (#[trigger] r@[k]) == self.schemas@[k].0,
            decreases n - i,
        {
            r.push(self.schemas[i].0.clone());
            i = i + 1;
        }
        r
    }

    /// Where a data file lives: an explicit relative path under the data
    /// directory, or `<schema_name>.yaml` there by default.
    pub fn resolve_yaml_path(&self, schema_name: &str, file_path: Option<&str>) -> (p: String)
        ensures
            match file_path {
                Some(path) => p@ == self.data_dir@ + "/"@ + path@,
                None => p@ == self.data_dir@ + "/"@ + schema_name@ + ".yaml"@,
            },
    {
        match file_path {
            Some(path) => self.data_dir.clone().concat("/").concat(path),
            None => self.data_dir.clone().concat("/").concat(schema_name).concat(".yaml"),
        }
    }

    /// The document a YAML text denotes, checked against the schema loaded
    /// under `schema_name` if there is one (a missing schema skips the
    /// check; it is not an error). The parsed document is returned exactly
    /// when it satisfies that schema; a text that is not YAML is rejected
    /// with the parser's text; a rejected document carries the violation.
    pub fn get_yaml_data(&self, schema_name: &str, content: &str) -> (r: Result<
        serde_json::Value,
        ApiError,
    >)
        ensures
            match yaml_parse_outcome(content@) {
                Some(e) => r matches Err(ApiError::YamlParseError(m)) && m@ == e,
                None => match self.spec_schema(schema_name@) {
                    None => r is Ok,
                    Some(sch) => {
                        if json_parse_outcome(sch) is None && schema_compile_outcome(sch) is None {
                            match schema_validation_outcome(sch, content@) {
                                None => r is Ok,
                                Some(e) => r matches Err(ApiError::ValidationError(m)) && m@ == "Schema validation failed: "@
                                    + e,
                            }
                        } else {
                            r matches Err(ApiError::ValidationError(_))
                        }
                    },
                },
            },
    {
        let doc = match yaml_to_value(content) {
            Err(m) => {
                return Err(ApiError::YamlParseError(m));
            },
            Ok(v) => v,
        };
        match self.find_schema(schema_name) {
            None => Ok(doc),
            Some(i) => {
                // An unusable stored text cannot come from `add_schema`, but
                // the field is public: re-checking keeps every path total.
                match check_schema_text(self.schemas[i].1.as_str()) {
                    Err(SchemaIssue::Parse(m)) => Err(
                        ApiError::ValidationError(
                            "Invalid JSON schema: ".to_owned().concat(m.as_str()),
                        ),
                    ),
                    Err(SchemaIssue::Compile(m)) => Err(
                        ApiError::ValidationError(
                            "Schema compilation failed: ".to_owned().concat(m.as_str()),
                        ),
                    ),
                    Ok(_) => {
                        match validate_text_against_schema_text(
                            self.schemas[i].1.as_str(),
                            content,
                        ) {
                            Ok(_) => Ok(doc),
                            Err(m) => Err(
                                ApiError::ValidationError(
                                    "Schema validation failed: ".to_owned().concat(m.as_str()),
                                ),
                            ),
                        }
                    },
                }
            },
        }
    }
}

/// Every entry's name is bound in the denoted lookup.
proof fn lemma_schema_text_bound_at(ss: Seq<(String, String)>, k: int)
    requires
        0 <= k < ss.len(),
    ensures
        spec_schema_text(ss, ss[k].0@) is Some,
    decreases ss.len(),
{
    if ss[0].0@ != ss[k].0@ {
        assert(ss.drop_first()[k - 1] == ss[k]);
        lemma_schema_text_bound_at(ss.drop_first(), k - 1);
    }
}

/// The schema name a schema file contributes: the file's stem, with a
/// trailing `.schema` removed if present (so `backup.schema.json` and
/// `backup.json` both name the schema `backup`).
pub open spec fn spec_schema_base_name(stem: Seq<char>) -> Seq<char> {
    if stem.len() >= 7 && stem.skip(stem.len() - 7) == ".schema"@ {
        stem.take(stem.len() - 7)
    } else {
        stem
    }
}

pub fn schema_base_name(stem: &str) -> (r: String)
    ensures
        r@ == spec_schema_base_name(stem@),
{
    let n = stem.unicode_len();
    if n >= 7 {
        let tail = stem.substring_char(n - 7, n);
        let tv = crate::jsontext::to_chars(tail);
        proof {
            assert(stem@.skip(n - 7 as int) =~= stem@.subrange(n - 7, n as int));
        }
        if crate::jsontext::chars_match(&tv, ".schema") {
            let head = stem.substring_char(0, n - 7);
            proof {
                assert(stem@.take(n - 7 as int) =~= stem@.subrange(0, n - 7 as int));
            }
            head.to_owned()
        } else {
            stem.to_owned()
        }
    } else {
        stem.to_owned()
    }
}

/// A document together with the verdict that it satisfied its schema.
#[derive(Debug)]
pub struct ValidatedDocument {
    pub valid: bool,
    pub document: serde_json::Value,
}

impl YamlService {
    /// Like [`Self::get_yaml_data`], but the named schema must be loaded:
    /// an unknown name is an error, and a document that satisfies the
    /// schema is always answered with the document and its verdict.
    pub fn validate_yaml_data(&self, schema_name: &str, content: &str) -> (r: Result<
        ValidatedDocument,
        ApiError,
    >)
        ensures
            match self.spec_schema(schema_name@) {
                None => r matches Err(ApiError::NotFound(m)) && m@ == "Schema '"@ + schema_name@
                    + "' not found"@,
                Some(sch) => match yaml_parse_outcome(content@) {
                    Some(e) => r matches Err(ApiError::YamlParseError(m)) && m@ == e,
                    None => {
                        if json_parse_outcome(sch) is None && schema_compile_outcome(sch)
                            is None {
                            match schema_validation_outcome(sch, content@) {
                                None => r matches Ok(d) && d.valid,
                                Some(e) => r matches Err(ApiError::ValidationError(m)) && m@ == "Schema validation failed: "@
                                    + e,
                            }
                        } else {
                            r matches Err(ApiError::ValidationError(_))
                        }
                    },
                },
            },
    {
        match self.find_schema(schema_name) {
            None => Err(
                ApiError::NotFound(
                    "Schema '".to_owned().concat(schema_name).concat("' not found"),
                ),
            ),
            Some(_) => {
                match self.get_yaml_data(schema_name, content) {
                    Err(e) => Err(e),
                    Ok(doc) => Ok(ValidatedDocument { valid: true, document: doc }),
                }
            },
        }
    }
}

} // verus!
