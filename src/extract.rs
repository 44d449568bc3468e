use vstd::prelude::*;
use serde_json::Value;

verus! {

/// A field of a JSON object, one variant per JSON kind.
pub enum JsonField {
    /// A string, unquoted and unescaped.
    Str(String),
    /// A number, in its JSON text.
    Number(String),
    Bool(bool),
    Null,
    /// An array, in its compact JSON text.
    Array(String),
    /// An object, in its compact JSON text.
    Object(String),
}

/// One key and its value inside a JSON object.
pub struct JsonEntry {
    pub key: String,
    pub value: JsonField,
}

/// One element of the root array.
pub enum JsonElement {
    /// An object, with its entries.
    Object(Vec<JsonEntry>),
    /// A number, string, boolean, null or array.
    Other,
}

/// A parsed JSON document: the root array's elements, or some other root.
pub enum JsonDocument {
    Array(Vec<JsonElement>),
    Other,
}

/// Why rows could not be extracted.
#[derive(Debug, Clone, Copy, PartialEq, Eq, Structural)]
pub enum ExtractError {
    NoMapping,
    MalformedJson,
    NotAnArray,
}

pub enum FieldModel {
    Str(Seq<char>),
    Number(Seq<char>),
    Bool(bool),
    Null,
    Array(Seq<char>),
    Object(Seq<char>),
}

pub enum ElementModel {
    Object(Seq<(Seq<char>, FieldModel)>),
    Other,
}

pub enum DocumentModel {
    Array(Seq<ElementModel>),
    Other,
}

impl View for JsonField {
    type V = FieldModel;

    open spec fn view(&self) -> FieldModel {
        match self {
            JsonField::Str(s) => FieldModel::Str(s@),
            JsonField::Number(t) => FieldModel::Number(t@),
            JsonField::Bool(b) => FieldModel::Bool(*b),
            JsonField::Null => FieldModel::Null,
            JsonField::Array(t) => FieldModel::Array(t@),
            JsonField::Object(t) => FieldModel::Object(t@),
        }
    }
}

impl View for JsonElement {
    type V = ElementModel;

    open spec fn view(&self) -> ElementModel {
        match self {
            JsonElement::Object(es) => ElementModel::Object(
                Seq::new(es@.len(), |i: int| (es@[i].key@, es@[i].value@)),
            ),
            JsonElement::Other => ElementModel::Other,
        }
    }
}

impl View for JsonDocument {
    type V = DocumentModel;

    open spec fn view(&self) -> DocumentModel {
        match self {
            JsonDocument::Array(es) => DocumentModel::Array(Seq::new(es@.len(), |i: int| es@[i]@)),
            JsonDocument::Other => DocumentModel::Other,
        }
    }
}

#[verifier::external_type_specification]
#[verifier::external_body]
pub struct ExJsonError(serde_json::Error);

/// What serde_json makes of some bytes: `None` where they are not JSON,
/// otherwise the document, with each field's kind and, for numbers, arrays
/// and objects, its compact JSON text.
pub uninterp spec fn json_document(b: Seq<u8>) -> Option<DocumentModel>;

/// Relies on serde_json::from_slice to parse the bytes into a `Value`, and on
/// the `Display` of `Number` and `Value` (compact JSON) for the text of
/// numbers, arrays and objects.
#[verifier::external_body]
fn parse_document(b: &[u8]) -> (r: Result<JsonDocument, serde_json::Error>)
    ensures
        r is Ok <==> json_document(b@) is Some,
        r is Ok ==> json_document(b@) == Some(r->Ok_0@),
{
    Ok(match serde_json::from_slice(b)? {
        Value::Array(items) => JsonDocument::Array(items.into_iter().map(|v| if let Value::Object(m) = v {
            JsonElement::Object(m.into_iter().map(|(key, f)| JsonEntry { key, value: match f {
                Value::String(s) => JsonField::Str(s),
                Value::Number(n) => JsonField::Number(n.to_string()),
                Value::Bool(b) => JsonField::Bool(b),
                Value::Null => JsonField::Null,
                a @ Value::Array(_) => JsonField::Array(a.to_string()),
                o @ Value::Object(_) => JsonField::Object(o.to_string()),
            } }).collect())
        } else { JsonElement::Other }).collect()),
        _ => JsonDocument::Other,
    })
}

/// The text of a missing field.
pub open spec fn null_text() -> Seq<char> {
    seq!['n', 'u', 'l', 'l']
}

/// The display text of a field: a string as it is, anything else as its
/// JSON text.
pub open spec fn field_text(f: FieldModel) -> Seq<char> {
    match f {
        FieldModel::Str(s) => s,
        FieldModel::Number(t) => t,
        FieldModel::Bool(b) => if b { seq!['t', 'r', 'u', 'e'] } else { seq!['f', 'a', 'l', 's', 'e'] },
        FieldModel::Null => null_text(),
        FieldModel::Array(t) => t,
        FieldModel::Object(t) => t,
    }
}

/// The value of the first entry with the given key.
pub open spec fn lookup(entries: Seq<(Seq<char>, FieldModel)>, key: Seq<char>) -> Option<FieldModel>
    decreases entries.len(),
{
    if entries.len() == 0 {
        None
    } else if entries[0].0 == key {
        Some(entries[0].1)
    } else {
        lookup(entries.drop_first(), key)
    }
}

/// The cell that an element gives for a key: the field's text, or `null`.
pub open spec fn cell_of(e: ElementModel, key: Seq<char>) -> Seq<char> {
    match e {
        ElementModel::Object(entries) => match lookup(entries, key) {
            Some(f) => field_text(f),
            None => null_text(),
        },
        ElementModel::Other => null_text(),
    }
}

pub open spec fn row_of(e: ElementModel, mapping: Seq<Seq<char>>) -> Seq<Seq<char>> {
    Seq::new(mapping.len(), |j: int| cell_of(e, mapping[j]))
}

/// One row per element, one cell per mapped key, in order.
pub open spec fn rows_of(elements: Seq<ElementModel>, mapping: Seq<Seq<char>>) -> Seq<Seq<Seq<char>>> {
    Seq::new(elements.len(), |i: int| row_of(elements[i], mapping))
}

/// What extraction yields for a parsed document.
pub open spec fn extract_spec(doc: DocumentModel, mapping: Seq<Seq<char>>) -> Result<Seq<Seq<Seq<char>>>, ExtractError> {
    match doc {
        DocumentModel::Array(es) => Ok(rows_of(es, mapping)),
        DocumentModel::Other => Err(ExtractError::NotAnArray),
    }
}

/// What extraction yields for raw bytes and an optional mapping.
pub open spec fn extract_bytes_spec(b: Seq<u8>, mapping: Option<Seq<Seq<char>>>) -> Result<Seq<Seq<Seq<char>>>, ExtractError> {
    match mapping {
        None => Err(ExtractError::NoMapping),
        Some(m) => match json_document(b) {
            None => Err(ExtractError::MalformedJson),
            Some(doc) => extract_spec(doc, m),
        },
    }
}

pub open spec fn rows_view(r: Result<Vec<Vec<String>>, ExtractError>) -> Result<Seq<Seq<Seq<char>>>, ExtractError> {
    match r {
        Ok(rows) => Ok(rows.deep_view()),
        Err(e) => Err(e),
    }
}

fn field_display(f: &JsonField) -> (r: String)
    ensures
        r@ == field_text(f@),
{
    proof {
        reveal_strlit("true");
        reveal_strlit("false");
        reveal_strlit("null");
    }
    let r = match f {
        JsonField::Str(s) => s.clone(),
        JsonField::Number(t) => t.clone(),
        JsonField::Bool(true) => String::from_str("true"),
        JsonField::Bool(false) => String::from_str("false"),
        JsonField::Null => String::from_str("null"),
        JsonField::Array(t) => t.clone(),
        JsonField::Object(t) => t.clone(),
    };
    assert(r@ =~= field_text(f@));
    r
}

fn lookup_field(entries: &Vec<JsonEntry>, key: &String) -> (r: String)
    ensures
        r@ == cell_of(JsonElement::Object(*entries)@, key@),
{
    let ghost all = JsonElement::Object(*entries)@;
    let ghost es: Seq<(Seq<char>, FieldModel)> = Seq::new(entries@.len(), |i: int| (entries@[i].key@, entries@[i].value@));
    assert(all == ElementModel::Object(es));
    assert(es.subrange(0, es.len() as int) =~= es);
    let mut i: usize = 0;
    while i < entries.len()
        invariant
            i <= entries.len(),
            es.len() == entries@.len(),
            all == ElementModel::Object(es),
            all == JsonElement::Object(*entries)@,
            forall|k: int| 0 <= k < es.len() ==> #[trigger] es[k] == (entries@[k].key@, entries@[k].value@),
            lookup(es, key@) == lookup(es.subrange(i as int, es.len() as int), key@),
        decreases entries.len() - i,
    {
        let ghost rest = es.subrange(i as int, es.len() as int);
        assert(rest[0] == es[i as int]);
        if entries[i].key == *key {
            let t = field_display(&entries[i].value);
            assert(t@ == field_text(es[i as int].1));
            assert(lookup(rest, key@) == Some(rest[0].1));
            return t;
        }
        assert(rest.drop_first() =~= es.subrange(i + 1, es.len() as int));
        i += 1;
    }
    assert(es.subrange(i as int, es.len() as int).len() == 0);
    let r = String::from_str("null");
    proof {
        reveal_strlit("null");
    }
    assert(r@ =~= null_text());
    r
}

fn extract_row(element: &JsonElement, mapping: &Vec<String>) -> (r: Vec<String>)
    ensures
        r.deep_view() == row_of(element@, mapping.deep_view()),
{
    let mut row: Vec<String> = Vec::new();
    let mut j: usize = 0;
    while j < mapping.len()
        invariant
            j <= mapping.len(),
            row@.len() == j,
            forall|k: int| 0 <= k < j ==> #[trigger] row@[k]@ == cell_of(element@, mapping@[k]@),
        decreases mapping.len() - j,
    {
        let cell = match element {
            JsonElement::Object(entries) => lookup_field(entries, &mapping[j]),
            JsonElement::Other => {
                let r = String::from_str("null");
                proof {
                    reveal_strlit("null");
                }
                assert(r@ =~= null_text());
                r
            },
        };
        row.push(cell);
        j += 1;
    }
    assert(row.deep_view() =~= row_of(element@, mapping.deep_view()));
    row
}

/// Turns a parsed document into rows: one per array element, with one cell
/// per mapped key.
pub fn extract_rows(doc: &JsonDocument, mapping: &Vec<String>) -> (r: Result<Vec<Vec<String>>, ExtractError>)
    ensures
        rows_view(r) == extract_spec(doc@, mapping.deep_view()),
{
    match doc {
        JsonDocument::Other => Err(ExtractError::NotAnArray),
        JsonDocument::Array(elements) => {
            let mut rows: Vec<Vec<String>> = Vec::new();
            let mut i: usize = 0;
            while i < elements.len()
                invariant
                    i <= elements.len(),
                    rows@.len() == i,
                    forall|k: int| 0 <= k < i ==> #[trigger] rows@[k].deep_view() == row_of(elements@[k]@, mapping.deep_view()),
                decreases elements.len() - i,
            {
                let row = extract_row(&elements[i], mapping);
                rows.push(row);
                i += 1;
            }
            assert(rows.deep_view() =~= rows_of(doc@->Array_0, mapping.deep_view()));
            Ok(rows)
        },
    }
}

/// Parses raw bytes as JSON and extracts rows through the mapping. An absent
/// mapping is refused before anything is parsed.
pub fn extract(raw: &[u8], mapping: &Option<Vec<String>>) -> (r: Result<Vec<Vec<String>>, ExtractError>)
    ensures
        rows_view(r) == extract_bytes_spec(raw@, mapping.deep_view()),
{
    let m = match mapping {
        None => return Err(ExtractError::NoMapping),
        Some(m) => m,
    };
    match parse_document(raw) {
        Err(_) => Err(ExtractError::MalformedJson),
        Ok(doc) => extract_rows(&doc, m),
    }
}

/// Extraction gives one row per element and one cell per mapped key; a key
/// that an element lacks gives `null`; a string field gives the string
/// itself, unquoted; a number, boolean, null, array or object gives its JSON
/// text.
pub proof fn extraction_shape(elements: Seq<ElementModel>, mapping: Seq<Seq<char>>)
    ensures
        extract_spec(DocumentModel::Array(elements), mapping) is Ok,
        ({
            let rows = extract_spec(DocumentModel::Array(elements), mapping)->Ok_0;
            &&& rows.len() == elements.len()
            &&& forall|i: int| 0 <= i < rows.len() ==> #[trigger] rows[i].len() == mapping.len()
            &&& forall|i: int, j: int| 0 <= i < rows.len() && 0 <= j < mapping.len() ==> {
                &&& (elements[i] is Other ==> #[trigger] rows[i][j] == null_text())
                &&& (elements[i] matches ElementModel::Object(es) ==> match lookup(es, mapping[j]) {
                    None => rows[i][j] == null_text(),
                    Some(FieldModel::Str(s)) => rows[i][j] == s,
                    Some(FieldModel::Number(t)) => rows[i][j] == t,
                    Some(FieldModel::Bool(v)) => rows[i][j] == if v { seq!['t', 'r', 'u', 'e'] } else { seq!['f', 'a', 'l', 's', 'e'] },
                    Some(FieldModel::Null) => rows[i][j] == null_text(),
                    Some(FieldModel::Array(t)) => rows[i][j] == t,
                    Some(FieldModel::Object(t)) => rows[i][j] == t,
                })
            }
        }),
{
}

/// The ways extraction fails: no mapping (whatever the bytes), bytes that
/// are not JSON, and a root that is not an array.
pub proof fn extraction_failures(b: Seq<u8>, mapping: Option<Seq<Seq<char>>>)
    ensures
        mapping is None ==> extract_bytes_spec(b, mapping) == Err::<Seq<Seq<Seq<char>>>, ExtractError>(ExtractError::NoMapping),
        mapping is Some && json_document(b) is None ==> extract_bytes_spec(b, mapping) == Err::<Seq<Seq<Seq<char>>>, ExtractError>(ExtractError::MalformedJson),
        mapping is Some && json_document(b) == Some(DocumentModel::Other) ==> extract_bytes_spec(b, mapping) == Err::<Seq<Seq<Seq<char>>>, ExtractError>(ExtractError::NotAnArray),
        mapping is Some && (json_document(b) matches Some(DocumentModel::Array(_))) ==> extract_bytes_spec(b, mapping) is Ok,
{
}

} // verus!
