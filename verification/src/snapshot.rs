//! Snapshots: the YAML documents of one environment, and the identity of the
//! resources they describe.

use vstd::prelude::*;
use vstd::string::StringExecFns;
use crate::text::{decimal_text, push_decimal, seq_order, lemma_seq_order_antisymmetric,
    lemma_seq_order_range, lemma_seq_order_transitive, text_order};
use crate::yaml_stream::{YamlParseFailure, parse_yaml_stream, spec_parse_yaml_stream};
use crate::yaml::{YamlValue, unique_keys, spec_contains_key, spec_key_has_bool_value, spec_string_at_path,
    spec_value_at_path, spec_sequence_at_path, spec_bool_at_path, spec_integer_at_path,
    path_view, contains_key, key_has_bool_value, string_at_path, value_at_path,
    sequence_at_path, bool_at_path, integer_at_path};

verus! {

/// The text of an optional string.
pub open spec fn opt_text(o: Option<String>) -> Option<Seq<char>> {
    match o {
        Some(s) => Some(s@),
        None => None,
    }
}

/// A copy of an optional string.
pub fn copy_opt(o: &Option<String>) -> (r: Option<String>)
    ensures
        r == *o,
{
    match o {
        Some(s) => Some(s.clone()),
        None => None,
    }
}

/// Which resource of which document an observation is about.
#[derive(Debug, Clone, PartialEq, Eq, Hash)]
pub struct ResourceRef {
    pub document_index: usize,
    pub kind: Option<String>,
    pub name: Option<String>,
    pub namespace: Option<String>,
}

/// The mathematical content of a `ResourceRef`.
pub struct ResourceRefView {
    pub document_index: nat,
    pub kind: Option<Seq<char>>,
    pub name: Option<Seq<char>>,
    pub namespace: Option<Seq<char>>,
}

impl View for ResourceRef {
    type V = ResourceRefView;

    open spec fn view(&self) -> ResourceRefView {
        ResourceRefView {
            document_index: self.document_index as nat,
            kind: opt_text(self.kind),
            name: opt_text(self.name),
            namespace: opt_text(self.namespace),
        }
    }
}

/// How a resource is written in messages: `Kind/name`, or `Kind #index` for
/// an unnamed resource; `document` stands in for a missing kind.
pub open spec fn spec_resource_label(r: ResourceRefView) -> Seq<char> {
    let kind = match r.kind {
        Some(k) => k,
        None => "document"@,
    };
    match r.name {
        Some(n) => kind + "/"@ + n,
        None => kind + " #"@ + decimal_text(r.document_index),
    }
}

impl ResourceRef {
    /// A copy of this reference.
    pub fn copy(&self) -> (r: ResourceRef)
        ensures
            r == *self,
    {
        ResourceRef {
            document_index: self.document_index,
            kind: copy_opt(&self.kind),
            name: copy_opt(&self.name),
            namespace: copy_opt(&self.namespace),
        }
    }

    /// The label of the resource in messages.
    pub fn label(&self) -> (r: String)
        ensures
            r@ == spec_resource_label(self@),
    {
        let mut out = match &self.kind {
            Some(k) => k.clone(),
            None => String::from_str("document"),
        };
        match &self.name {
            Some(n) => {
                out.append("/");
                out.append(n.as_str());
            },
            None => {
                out.append(" #");
                push_decimal(&mut out, self.document_index);
            },
        }
        out
    }
}

/// The identity by which a resource is matched across two snapshots: a named
/// resource by kind, namespace and name wherever its document stands; an
/// unnamed one by its position and kind.
#[derive(Debug, Clone, PartialEq, Eq, Hash, PartialOrd, Ord)]
pub enum ResourceMatchKey {
    Named { kind: Option<String>, namespace: Option<String>, name: String },
    Unnamed { document_index: usize, kind: Option<String> },
}

/// The mathematical content of a `ResourceMatchKey`.
pub enum MatchKeyView {
    Named { kind: Option<Seq<char>>, namespace: Option<Seq<char>>, name: Seq<char> },
    Unnamed { document_index: nat, kind: Option<Seq<char>> },
}

impl View for ResourceMatchKey {
    type V = MatchKeyView;

    open spec fn view(&self) -> MatchKeyView {
        match self {
            ResourceMatchKey::Named { kind, namespace, name } => MatchKeyView::Named {
                kind: opt_text(*kind),
                namespace: opt_text(*namespace),
                name: name@,
            },
            ResourceMatchKey::Unnamed { document_index, kind } => MatchKeyView::Unnamed {
                document_index: *document_index as nat,
                kind: opt_text(*kind),
            },
        }
    }
}

/// The match key of a resource.
pub open spec fn spec_match_key(r: ResourceRefView) -> MatchKeyView {
    match r.name {
        Some(name) => MatchKeyView::Named { kind: r.kind, namespace: r.namespace, name },
        None => MatchKeyView::Unnamed { document_index: r.document_index, kind: r.kind },
    }
}

/// Resources are matched by identity, not by position: two named resources
/// match exactly when kind, namespace and name agree, wherever their
/// documents stand; two unnamed ones when their documents stand at the same
/// position and have the same kind; a named one never matches an unnamed one.
pub proof fn lemma_match_key_identity(a: ResourceRefView, b: ResourceRefView)
    ensures
        a.name is Some && b.name is Some ==> (spec_match_key(a) == spec_match_key(b)
            <==> a.kind == b.kind && a.namespace == b.namespace && a.name == b.name),
        a.name is None && b.name is None ==> (spec_match_key(a) == spec_match_key(b)
            <==> a.document_index == b.document_index && a.kind == b.kind),
        a.name is Some && b.name is None ==> spec_match_key(a) != spec_match_key(b),
{
}

impl ResourceMatchKey {
    /// The match key of a resource.
    pub fn from_ref(r: &ResourceRef) -> (k: ResourceMatchKey)
        ensures
            k@ == spec_match_key(r@),
    {
        match &r.name {
            Some(name) => ResourceMatchKey::Named {
                kind: copy_opt(&r.kind),
                namespace: copy_opt(&r.namespace),
                name: name.clone(),
            },
            None => ResourceMatchKey::Unnamed {
                document_index: r.document_index,
                kind: copy_opt(&r.kind),
            },
        }
    }
}

/// Order of optional texts: absent first, then by text.
pub open spec fn opt_order(a: Option<Seq<char>>, b: Option<Seq<char>>) -> int {
    match (a, b) {
        (None, None) => 0,
        (None, Some(_)) => -1,
        (Some(_), None) => 1,
        (Some(x), Some(y)) => seq_order(x, y),
    }
}

/// Three-way comparison of two natural numbers.
pub open spec fn nat_order(a: nat, b: nat) -> int {
    if a < b { -1 } else if a > b { 1 } else { 0 }
}

/// The order of match keys: named before unnamed, then field by field.
pub open spec fn match_key_order(a: MatchKeyView, b: MatchKeyView) -> int {
    match (a, b) {
        (MatchKeyView::Named { .. }, MatchKeyView::Unnamed { .. }) => -1,
        (MatchKeyView::Unnamed { .. }, MatchKeyView::Named { .. }) => 1,
        (MatchKeyView::Named { kind: k1, namespace: n1, name: m1 },
         MatchKeyView::Named { kind: k2, namespace: n2, name: m2 }) =>
            if opt_order(k1, k2) != 0 {
                opt_order(k1, k2)
            } else if opt_order(n1, n2) != 0 {
                opt_order(n1, n2)
            } else {
                seq_order(m1, m2)
            },
        (MatchKeyView::Unnamed { document_index: i1, kind: k1 },
         MatchKeyView::Unnamed { document_index: i2, kind: k2 }) =>
            if nat_order(i1, i2) != 0 {
                nat_order(i1, i2)
            } else {
                opt_order(k1, k2)
            },
    }
}

/// `opt_order` is a three-way comparison of a strict total order.
pub proof fn lemma_opt_order(a: Option<Seq<char>>, b: Option<Seq<char>>, c: Option<Seq<char>>)
    ensures
        -1 <= opt_order(a, b) <= 1,
        opt_order(a, b) == -opt_order(b, a),
        opt_order(a, b) == 0 <==> a == b,
        opt_order(a, b) < 0 && opt_order(b, c) < 0 ==> opt_order(a, c) < 0,
{
    if let (Some(x), Some(y)) = (a, b) {
        lemma_seq_order_range(x, y);
        lemma_seq_order_antisymmetric(x, y);
        if let Some(z) = c {
            if seq_order(x, y) < 0 && seq_order(y, z) < 0 {
                lemma_seq_order_transitive(x, y, z);
            }
        }
    }
}

/// `match_key_order` is a three-way comparison of a strict total order.
pub proof fn lemma_match_key_order(a: MatchKeyView, b: MatchKeyView, c: MatchKeyView)
    ensures
        -1 <= match_key_order(a, b) <= 1,
        match_key_order(a, b) == -match_key_order(b, a),
        match_key_order(a, b) == 0 <==> a == b,
        match_key_order(a, b) < 0 && match_key_order(b, c) < 0 ==> match_key_order(a, c) < 0,
{
    match (a, b, c) {
        (MatchKeyView::Named { kind: k1, namespace: n1, name: m1 },
         MatchKeyView::Named { kind: k2, namespace: n2, name: m2 },
         MatchKeyView::Named { kind: k3, namespace: n3, name: m3 }) => {
            lemma_opt_order(k1, k2, k3);
            lemma_opt_order(k2, k1, k3);
            lemma_opt_order(n1, n2, n3);
            lemma_opt_order(n2, n1, n3);
            lemma_seq_order_range(m1, m2);
            lemma_seq_order_antisymmetric(m1, m2);
            if seq_order(m1, m2) < 0 && seq_order(m2, m3) < 0 {
                lemma_seq_order_transitive(m1, m2, m3);
            }
            lemma_opt_order(k1, k3, k2);
            lemma_opt_order(n1, n3, n2);
            lemma_opt_order(k2, k3, k1);
            lemma_opt_order(n2, n3, n1);
            lemma_seq_order_antisymmetric(m1, m3);
            lemma_seq_order_antisymmetric(m2, m3);
            lemma_seq_order_range(m2, m3);
            lemma_seq_order_range(m1, m3);
        },
        (MatchKeyView::Named { kind: k1, namespace: n1, name: m1 },
         MatchKeyView::Named { kind: k2, namespace: n2, name: m2 }, _) => {
            lemma_opt_order(k1, k2, k1);
            lemma_opt_order(n1, n2, n1);
            lemma_seq_order_range(m1, m2);
            lemma_seq_order_antisymmetric(m1, m2);
        },
        (MatchKeyView::Unnamed { document_index: i1, kind: k1 },
         MatchKeyView::Unnamed { document_index: i2, kind: k2 },
         MatchKeyView::Unnamed { document_index: i3, kind: k3 }) => {
            lemma_opt_order(k1, k2, k3);
            lemma_opt_order(k1, k3, k2);
            lemma_opt_order(k2, k3, k1);
        },
        (MatchKeyView::Unnamed { document_index: i1, kind: k1 },
         MatchKeyView::Unnamed { document_index: i2, kind: k2 }, _) => {
            lemma_opt_order(k1, k2, k1);
        },
        _ => {},
    }
}

fn opt_text_order(a: &Option<String>, b: &Option<String>) -> (r: i8)
    ensures
        r as int == opt_order(opt_text(*a), opt_text(*b)),
{
    match (a, b) {
        (None, None) => 0,
        (None, Some(_)) => -1,
        (Some(_), None) => 1,
        (Some(x), Some(y)) => text_order(x.as_str(), y.as_str()),
    }
}

impl ResourceMatchKey {
    /// Three-way comparison in the order of `match_key_order`.
    pub fn order(&self, other: &ResourceMatchKey) -> (r: i8)
        ensures
            r as int == match_key_order(self@, other@),
    {
        match (self, other) {
            (ResourceMatchKey::Named { .. }, ResourceMatchKey::Unnamed { .. }) => -1,
            (ResourceMatchKey::Unnamed { .. }, ResourceMatchKey::Named { .. }) => 1,
            (ResourceMatchKey::Named { kind: k1, namespace: n1, name: m1 },
             ResourceMatchKey::Named { kind: k2, namespace: n2, name: m2 }) => {
                let by_kind = opt_text_order(k1, k2);
                if by_kind != 0 {
                    return by_kind;
                }
                let by_namespace = opt_text_order(n1, n2);
                if by_namespace != 0 {
                    return by_namespace;
                }
                text_order(m1.as_str(), m2.as_str())
            },
            (ResourceMatchKey::Unnamed { document_index: i1, kind: k1 },
             ResourceMatchKey::Unnamed { document_index: i2, kind: k2 }) => {
                if *i1 < *i2 {
                    -1
                } else if *i1 > *i2 {
                    1
                } else {
                    opt_text_order(k1, k2)
                }
            },
        }
    }
}


/// One YAML document of a snapshot, with its position in the file.
#[derive(Debug)]
pub struct SnapshotDocument {
    index: usize,
    value: YamlValue,
}

/// The kind of a document: the string at `kind`.
pub open spec fn spec_kind(d: SnapshotDocument) -> Option<Seq<char>> {
    spec_string_at_path(d.spec_value(), seq!["kind"@])
}

/// Whether the document's kind is `kind`.
pub open spec fn spec_is_kind(d: SnapshotDocument, kind: Seq<char>) -> bool {
    spec_kind(d) == Some(kind)
}

/// The resource a document describes: its kind, `metadata.name` and
/// `metadata.namespace`.
pub open spec fn spec_resource_ref(d: SnapshotDocument) -> ResourceRefView {
    ResourceRefView {
        document_index: d.spec_index() as nat,
        kind: spec_kind(d),
        name: spec_string_at_path(d.spec_value(), seq!["metadata"@, "name"@]),
        namespace: spec_string_at_path(d.spec_value(), seq!["metadata"@, "namespace"@]),
    }
}

/// The name a document goes by in descriptions.
pub open spec fn spec_display_name(d: SnapshotDocument) -> Seq<char> {
    spec_resource_label(spec_resource_ref(d))
}

impl SnapshotDocument {
    /// A document at position `index` holding `value`.
    pub fn new(index: usize, value: YamlValue) -> (d: SnapshotDocument)
        ensures
            d.spec_index() == index,
            d.spec_value() == value,
    {
        SnapshotDocument { index, value }
    }

    pub closed spec fn spec_index(&self) -> usize {
        self.index
    }

    pub closed spec fn spec_value(&self) -> YamlValue {
        self.value
    }

    /// The position of the document in its snapshot.
    pub fn document_index(&self) -> (r: usize)
        ensures
            r == self.spec_index(),
    {
        self.index
    }

    /// The root value of the document.
    pub fn root(&self) -> (r: &YamlValue)
        ensures
            *r == self.spec_value(),
    {
        &self.value
    }

    /// Whether `key` names a mapping entry anywhere in the document.
    pub fn contains_key(&self, key: &str) -> (r: bool)
        ensures
            r == spec_contains_key(self.spec_value(), key@),
    {
        contains_key(&self.value, key)
    }

    /// Whether some entry anywhere in the document has the key `key` and the
    /// boolean `expected`.
    pub fn key_has_bool_value(&self, key: &str, expected: bool) -> (r: bool)
        ensures
            r == spec_key_has_bool_value(self.spec_value(), key@, expected),
    {
        key_has_bool_value(&self.value, key, expected)
    }

    /// The value reached by following `path` from the root.
    pub fn value_at_path(&self, path: &[&str]) -> (r: Option<&YamlValue>)
        ensures
            r matches Some(found) ==> spec_value_at_path(self.spec_value(), path_view(path@)) == Some(*found),
            r is None ==> spec_value_at_path(self.spec_value(), path_view(path@)) is None,
    {
        value_at_path(&self.value, path)
    }

    /// The sequence reached by following `path` from the root.
    pub fn sequence_at_path(&self, path: &[&str]) -> (r: Option<&Vec<YamlValue>>)
        ensures
            r is Some <==> spec_sequence_at_path(self.spec_value(), path_view(path@)) is Some,
            r matches Some(items) ==> spec_sequence_at_path(self.spec_value(), path_view(path@)) == Some(items@),
    {
        sequence_at_path(&self.value, path)
    }

    /// The boolean reached by following `path` from the root.
    pub fn bool_at_path(&self, path: &[&str]) -> (r: Option<bool>)
        ensures
            r == spec_bool_at_path(self.spec_value(), path_view(path@)),
    {
        bool_at_path(&self.value, path)
    }

    /// The string reached by following `path` from the root.
    pub fn string_at_path(&self, path: &[&str]) -> (r: Option<&String>)
        ensures
            r is Some <==> spec_string_at_path(self.spec_value(), path_view(path@)) is Some,
            r matches Some(s) ==> s@ == spec_string_at_path(self.spec_value(), path_view(path@))->0,
    {
        string_at_path(&self.value, path)
    }

    /// The integer reached by following `path` from the root.
    pub fn integer_at_path(&self, path: &[&str]) -> (r: Option<i64>)
        ensures
            r == spec_integer_at_path(self.spec_value(), path_view(path@)),
    {
        integer_at_path(&self.value, path)
    }

    /// The document's kind.
    pub fn kind(&self) -> (r: Option<&String>)
        ensures
            r is Some <==> spec_kind(*self) is Some,
            r matches Some(k) ==> spec_kind(*self) == Some(k@),
    {
        let path = ["kind"];
        assert(path_view(path@) == seq!["kind"@]);
        string_at_path(&self.value, &path)
    }

    /// Whether the document's kind is `kind`.
    pub fn is_kind(&self, kind: &str) -> (r: bool)
        ensures
            r == spec_is_kind(*self, kind@),
    {
        match self.kind() {
            Some(k) => crate::text::string_is(k, kind),
            None => false,
        }
    }

    /// The resource the document describes.
    pub fn resource_ref(&self) -> (r: ResourceRef)
        ensures
            r@ == spec_resource_ref(*self),
    {
        let name_path = ["metadata", "name"];
        let namespace_path = ["metadata", "namespace"];
        assert(path_view(name_path@) == seq!["metadata"@, "name"@]);
        assert(path_view(namespace_path@) == seq!["metadata"@, "namespace"@]);
        let kind = match self.kind() {
            Some(k) => Some(k.clone()),
            None => None,
        };
        let name = match string_at_path(&self.value, &name_path) {
            Some(n) => Some(n.clone()),
            None => None,
        };
        let namespace = match string_at_path(&self.value, &namespace_path) {
            Some(n) => Some(n.clone()),
            None => None,
        };
        ResourceRef { document_index: self.index, kind, name, namespace }
    }

    /// The name the document goes by in descriptions.
    pub fn display_name(&self) -> (r: String)
        ensures
            r@ == spec_display_name(*self),
    {
        self.resource_ref().label()
    }
}

/// A snapshot that could not be built.
#[derive(Debug)]
pub enum SnapshotParseError {
    InvalidYaml { path: String, document_index: usize, message: String },
}

/// The message of a parse error.
pub open spec fn spec_parse_error_text(path: Seq<char>, document_index: nat, message: Seq<char>) -> Seq<char> {
    "failed to parse YAML document "@ + decimal_text(document_index) + " in "@ + path + ": "@ + message
}

impl SnapshotParseError {
    /// The error as text: `failed to parse YAML document {index} in {path}: {message}`.
    pub fn to_string(&self) -> (r: String)
        ensures
            self matches SnapshotParseError::InvalidYaml { path, document_index, message }
                && r@ == spec_parse_error_text(path@, document_index as nat, message@),
    {
        match self {
            SnapshotParseError::InvalidYaml { path, document_index, message } => {
                let mut out = String::from_str("failed to parse YAML document ");
                push_decimal(&mut out, *document_index);
                out.append(" in ");
                out.append(path.as_str());
                out.append(": ");
                out.append(message.as_str());
                out
            },
        }
    }
}

/// The YAML documents of one environment.
#[derive(Debug)]
pub struct Snapshot {
    pub source: String,
    pub raw_content: String,
    documents: Vec<SnapshotDocument>,
}

impl Snapshot {
    pub closed spec fn spec_documents(&self) -> Seq<SnapshotDocument> {
        self.documents@
    }

    pub closed spec fn spec_source(&self) -> String {
        self.source
    }

    pub closed spec fn spec_raw_content(&self) -> String {
        self.raw_content
    }

    /// The snapshot of `source` read from the YAML text `raw_content`: one
    /// document per document of the stream, numbered from 0; or, where the
    /// parser failed, the error naming the path, the failing document and the
    /// parser's message. Every mapping of the documents has unique keys.
    pub fn new(source: String, raw_content: String) -> (r: Result<Snapshot, SnapshotParseError>)
        ensures
            spec_parse_yaml_stream(raw_content@) is Ok <==> r is Ok,
            r matches Ok(snapshot) ==> {
                &&& snapshot.spec_source() == source
                &&& snapshot.spec_raw_content() == raw_content
                &&& snapshot.spec_documents().len() == spec_parse_yaml_stream(raw_content@)->Ok_0.len()
                &&& forall|i: int| 0 <= i < snapshot.spec_documents().len() ==> {
                    &&& (#[trigger] snapshot.spec_documents()[i]).spec_index() == i
                    &&& snapshot.spec_documents()[i].spec_value() == spec_parse_yaml_stream(raw_content@)->Ok_0[i]
                    &&& unique_keys(snapshot.spec_documents()[i].spec_value())
                }
            },
            r matches Err(SnapshotParseError::InvalidYaml { path, document_index, message }) ==> {
                &&& path == source
                &&& spec_parse_yaml_stream(raw_content@)->Err_0 == (document_index as nat, message@)
            },
    {
        let parsed = parse_yaml_stream(raw_content.as_str());
        Self::from_parsed(source, raw_content, parsed)
    }

    /// The snapshot of `source` whose text `raw_content` the YAML parser read
    /// as `parsed`: one document per parsed value, numbered from 0; or, where
    /// the parser failed, the error naming the path, the document and the
    /// parser's message.
    pub fn from_parsed(
        source: String,
        raw_content: String,
        parsed: Result<Vec<YamlValue>, YamlParseFailure>,
    ) -> (r: Result<Snapshot, SnapshotParseError>)
        ensures
            parsed is Ok <==> r is Ok,
            r matches Ok(snapshot) ==> {
                &&& snapshot.spec_source() == source
                &&& snapshot.spec_raw_content() == raw_content
                &&& snapshot.spec_documents().len() == parsed->Ok_0@.len()
                &&& forall|i: int| 0 <= i < snapshot.spec_documents().len() ==> {
                    &&& (#[trigger] snapshot.spec_documents()[i]).spec_index() == i
                    &&& snapshot.spec_documents()[i].spec_value() == parsed->Ok_0@[i]
                }
            },
            r matches Err(SnapshotParseError::InvalidYaml { path, document_index, message }) ==> {
                &&& path == source
                &&& document_index == parsed->Err_0.document_index
                &&& message == parsed->Err_0.message
            },
    {
        match parsed {
            Err(failure) => Err(SnapshotParseError::InvalidYaml {
                path: source,
                document_index: failure.document_index,
                message: failure.message,
            }),
            Ok(values) => {
                let ghost parsed_values = values@;
                let mut values = values;
                let mut rev: Vec<SnapshotDocument> = Vec::new();
                let n = values.len();
                while values.len() > 0
                    invariant
                        values@.len() + rev@.len() == n,
                        n == parsed_values.len(),
                        values@ == parsed_values.take(values@.len() as int),
                        forall|j: int| 0 <= j < rev@.len() ==> {
                            &&& (#[trigger] rev@[j]).spec_index() == n - 1 - j
                            &&& rev@[j].spec_value() == parsed_values[n - 1 - j]
                        },
                    decreases values@.len(),
                {
                    let value = values.pop().unwrap();
                    let index = values.len();
                    rev.push(SnapshotDocument::new(index, value));
                }
                let mut documents: Vec<SnapshotDocument> = Vec::new();
                while rev.len() > 0
                    invariant
                        documents@.len() + rev@.len() == n,
                        forall|j: int| 0 <= j < rev@.len() ==> {
                            &&& (#[trigger] rev@[j]).spec_index() == n - 1 - j
                            &&& rev@[j].spec_value() == parsed_values[n - 1 - j]
                        },
                        forall|j: int| 0 <= j < documents@.len() ==> {
                            &&& (#[trigger] documents@[j]).spec_index() == j
                            &&& documents@[j].spec_value() == parsed_values[j]
                        },
                    decreases rev@.len(),
                {
                    let document = rev.pop().unwrap();
                    documents.push(document);
                }
                Ok(Snapshot { source, raw_content, documents })
            },
        }
    }

    /// The path the snapshot was read from.
    pub fn source_path(&self) -> (r: &String)
        ensures
            *r == self.spec_source(),
    {
        &self.source
    }

    /// The documents, in file order.
    pub fn documents(&self) -> (r: &[SnapshotDocument])
        ensures
            r@ == self.spec_documents(),
    {
        self.documents.as_slice()
    }

    /// Whether some document names `key` anywhere.
    pub fn any_key_named(&self, key: &str) -> (r: bool)
        ensures
            r == exists|i: int| 0 <= i < self.spec_documents().len()
                && spec_contains_key((#[trigger] self.spec_documents()[i]).spec_value(), key@),
    {
        let mut i: usize = 0;
        while i < self.documents.len()
            invariant
                i <= self.documents@.len(),
                forall|j: int| 0 <= j < i ==> !spec_contains_key((#[trigger] self.documents@[j]).spec_value(), key@),
            decreases self.documents@.len() - i,
        {
            if self.documents[i].contains_key(key) {
                return true;
            }
            i += 1;
        }
        false
    }

    /// Whether some document has an entry `key` with the boolean `expected`.
    pub fn any_bool_value_for_key(&self, key: &str, expected: bool) -> (r: bool)
        ensures
            r == exists|i: int| 0 <= i < self.spec_documents().len()
                && spec_key_has_bool_value((#[trigger] self.spec_documents()[i]).spec_value(), key@, expected),
    {
        let mut i: usize = 0;
        while i < self.documents.len()
            invariant
                i <= self.documents@.len(),
                forall|j: int| 0 <= j < i ==> !spec_key_has_bool_value((#[trigger] self.documents@[j]).spec_value(), key@, expected),
            decreases self.documents@.len() - i,
        {
            if self.documents[i].key_has_bool_value(key, expected) {
                return true;
            }
            i += 1;
        }
        false
    }
}

} // verus!
