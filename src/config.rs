use vstd::prelude::*;

verus! {

/// The whole dashboard: a grid of tables, given row by row.
pub struct AppConfig {
    pub tables: Vec<Vec<TableConfig>>,
}

/// One table of the grid: its identity, what it shows and where its data comes from.
pub struct TableConfig {
    pub id: String,
    pub table_header: Option<String>,
    pub column_headers: Vec<String>,
    pub column_ratios: Vec<u16>,
    pub max_cell_height: usize,
    pub source: TableSource,
    pub design: Option<Design>,
}

/// Where a table's rows come from.
pub enum TableSource {
    /// Rows given in the configuration itself; never refreshed.
    Static { data: Vec<Vec<String>> },
    /// A JSON file on disk, re-read every `refresh_interval_ms`.
    File { path: String, refresh_interval_ms: u64, mapping: Option<Vec<String>> },
    /// A JSON document behind an HTTP GET, re-fetched every `refresh_interval_ms`.
    Remote { url: String, refresh_interval_ms: u64, mapping: Option<Vec<String>> },
}

/// Colours of the parts of a table.
pub struct Design {
    pub border: Option<StyleElement>,
    pub header: Option<StyleElement>,
    pub column: Option<StyleElement>,
    pub cell: Option<StyleElement>,
}

/// A colour given as `#rrggbb`.
pub struct StyleElement {
    pub color: Option<String>,
}

/// The kind of a source and where it points, as compared across reloads.
pub enum SourceTarget {
    Static,
    File(Seq<char>),
    Remote(Seq<char>),
}

impl TableSource {
    pub open spec fn target(&self) -> SourceTarget {
        match self {
            TableSource::Static { .. } => SourceTarget::Static,
            TableSource::File { path, .. } => SourceTarget::File(path@),
            TableSource::Remote { url, .. } => SourceTarget::Remote(url@),
        }
    }

    /// The field mapping of a fetched source, as strings.
    pub open spec fn mapping_view(&self) -> Option<Seq<Seq<char>>> {
        match self {
            TableSource::Static { .. } => None,
            TableSource::File { mapping, .. } => mapping.deep_view(),
            TableSource::Remote { mapping, .. } => mapping.deep_view(),
        }
    }

    /// The rows of static data, as strings.
    pub open spec fn static_rows(&self) -> Seq<Seq<Seq<char>>> {
        match self {
            TableSource::Static { data } => data.deep_view(),
            _ => Seq::empty(),
        }
    }

    pub open spec fn is_static(&self) -> bool {
        self is Static
    }

    /// The refresh interval of a fetched source (none for static data).
    pub open spec fn interval(&self) -> u64 {
        match self {
            TableSource::Static { .. } => 0,
            TableSource::File { refresh_interval_ms, .. } => *refresh_interval_ms,
            TableSource::Remote { refresh_interval_ms, .. } => *refresh_interval_ms,
        }
    }

    /// Whether two descriptors fetch the same thing: same kind and same path
    /// or URL. Static data has no target and never matches.
    pub open spec fn same_target_spec(&self, other: &TableSource) -> bool {
        !self.is_static() && self.target() == other.target()
    }

    /// Whether a fetch begun under `other` still yields rows for `self`: same
    /// target and same field mapping.
    pub open spec fn same_fetch_spec(&self, other: &TableSource) -> bool {
        self.same_target_spec(other) && self.mapping_view() == other.mapping_view()
    }

    pub fn same_target(&self, other: &TableSource) -> (r: bool)
        ensures
            r == self.same_target_spec(other),
    {
        match (self, other) {
            (TableSource::File { path: a, .. }, TableSource::File { path: b, .. }) => {
                let r = a.eq(b);
                assert(r ==> SourceTarget::File(a@) == SourceTarget::File(b@));
                r
            },
            (TableSource::Remote { url: a, .. }, TableSource::Remote { url: b, .. }) => {
                let r = a.eq(b);
                assert(r ==> SourceTarget::Remote(a@) == SourceTarget::Remote(b@));
                r
            },
            _ => false,
        }
    }

    pub fn same_fetch(&self, other: &TableSource) -> (r: bool)
        ensures
            r == self.same_fetch_spec(other),
    {
        if !self.same_target(other) {
            return false;
        }
        match (self, other) {
            (TableSource::File { mapping: a, .. }, TableSource::File { mapping: b, .. }) => same_mapping(a, b),
            (TableSource::Remote { mapping: a, .. }, TableSource::Remote { mapping: b, .. }) => same_mapping(a, b),
            _ => false,
        }
    }

    pub fn mapping(&self) -> (r: Option<&Vec<String>>)
        ensures
            self.is_static() ==> r is None,
            !self.is_static() ==> r.deep_view() == self.mapping_view(),
    {
        match self {
            TableSource::Static { .. } => None,
            TableSource::File { mapping, .. } => mapping.as_ref(),
            TableSource::Remote { mapping, .. } => mapping.as_ref(),
        }
    }

    pub fn refresh_interval_ms(&self) -> (r: u64)
        ensures
            r == self.interval(),
    {
        match self {
            TableSource::Static { .. } => 0,
            TableSource::File { refresh_interval_ms, .. } => *refresh_interval_ms,
            TableSource::Remote { refresh_interval_ms, .. } => *refresh_interval_ms,
        }
    }
}

impl TableSource {
    /// A copy of this descriptor.
    pub fn duplicate(&self) -> (r: TableSource)
        ensures
            r.target() == self.target(),
            r.mapping_view() == self.mapping_view(),
            r.interval() == self.interval(),
            r.is_static() == self.is_static(),
            r.static_rows() == self.static_rows(),
    {
        match self {
            TableSource::Static { data } => TableSource::Static { data: crate::refresh::clone_rows(data) },
            TableSource::File { path, refresh_interval_ms, mapping } => TableSource::File {
                path: path.clone(),
                refresh_interval_ms: *refresh_interval_ms,
                mapping: clone_mapping(mapping),
            },
            TableSource::Remote { url, refresh_interval_ms, mapping } => TableSource::Remote {
                url: url.clone(),
                refresh_interval_ms: *refresh_interval_ms,
                mapping: clone_mapping(mapping),
            },
        }
    }
}

fn clone_mapping(m: &Option<Vec<String>>) -> (r: Option<Vec<String>>)
    ensures
        r.deep_view() == m.deep_view(),
{
    match m {
        None => None,
        Some(v) => {
            let mut out: Vec<String> = Vec::new();
            let mut i: usize = 0;
            while i < v.len()
                invariant
                    i <= v@.len(),
                    out@.len() == i,
                    forall|k: int| 0 <= k < i ==> #[trigger] out@[k]@ == v@[k]@,
                decreases v.len() - i,
            {
                out.push(v[i].clone());
                i += 1;
            }
            assert(out.deep_view() =~= v.deep_view());
            Some(out)
        },
    }
}

pub fn same_strings(a: &Vec<String>, b: &Vec<String>) -> (r: bool)
    ensures
        r == (a.deep_view() == b.deep_view()),
{
    if a.len() != b.len() {
        assert(a.deep_view().len() != b.deep_view().len());
        return false;
    }
    let mut i: usize = 0;
    while i < a.len()
        invariant
            a.len() == b.len(),
            i <= a.len(),
            forall|j: int| 0 <= j < i ==> a@[j]@ == b@[j]@,
        decreases a.len() - i,
    {
        if a[i] != b[i] {
            assert(a.deep_view()[i as int] != b.deep_view()[i as int]);
            return false;
        }
        i += 1;
    }
    assert(a.deep_view() =~= b.deep_view());
    true
}

pub fn same_mapping(a: &Option<Vec<String>>, b: &Option<Vec<String>>) -> (r: bool)
    ensures
        r == (a.deep_view() == b.deep_view()),
{
    match (a, b) {
        (Some(x), Some(y)) => same_strings(x, y),
        (None, None) => true,
        _ => false,
    }
}

} // verus!
