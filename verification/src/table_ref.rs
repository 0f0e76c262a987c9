use vstd::prelude::*;

verus! {

/// A table identified by 1 to 3 dot-separated name components:
/// `name`, `schema.name`, or `catalog.schema.name`.
///
/// The portable encoding carries this as a bare ordered list of name strings
/// with no structural tag; the component count alone determines the
/// interpretation.  The view of a `TableRef` is that list of names, each as a
/// sequence of characters.
#[derive(Debug, PartialEq)]
pub struct TableRef {
    parts: Vec<String>,
}

impl View for TableRef {
    type V = Seq<Seq<char>>;

    closed spec fn view(&self) -> Seq<Seq<char>> {
        self.parts.deep_view()
    }
}

/// The name a table reference degrades to when the portable name list cannot
/// be interpreted (empty, or more than 3 components).  A documented lossy
/// fallback, not an error.
pub open spec fn fallback_table_name() -> Seq<char> {
    "table"@
}

/// How a portable name-component list is read back into a table reference:
/// 1 to 3 components are kept as they are; anything else degrades to the bare
/// fallback name.
pub open spec fn table_ref_of_names(names: Seq<Seq<char>>) -> Seq<Seq<char>> {
    if 1 <= names.len() <= 3 {
        names
    } else {
        seq![fallback_table_name()]
    }
}

impl TableRef {
    /// Every table reference has between 1 and 3 name components.
    pub open spec fn wf(&self) -> bool {
        1 <= self@.len() <= 3
    }

    /// An unqualified reference: `name`.
    pub fn bare(name: String) -> (r: TableRef)
        ensures
            r@ == seq![name@],
            r.wf(),
    {
        let parts = vec![name];
        let r = TableRef { parts };
        proof {
            assert(r@ =~= seq![name@]);
        }
        r
    }

    /// A schema-qualified reference: `schema.name`.
    pub fn partial(schema: String, name: String) -> (r: TableRef)
        ensures
            r@ == seq![schema@, name@],
            r.wf(),
    {
        let parts = vec![schema, name];
        let r = TableRef { parts };
        proof {
            assert(r@ =~= seq![schema@, name@]);
        }
        r
    }

    /// A fully qualified reference: `catalog.schema.name`.
    pub fn full(catalog: String, schema: String, name: String) -> (r: TableRef)
        ensures
            r@ == seq![catalog@, schema@, name@],
            r.wf(),
    {
        let parts = vec![catalog, schema, name];
        let r = TableRef { parts };
        proof {
            assert(r@ =~= seq![catalog@, schema@, name@]);
        }
        r
    }

    /// Rebuilds a reference from a portable name-component list: 1, 2 or 3
    /// components are kept in order; an empty or over-long list degrades to
    /// the bare fallback name.
    pub fn from_names(names: &Vec<String>) -> (r: TableRef)
        ensures
            r@ == table_ref_of_names(names.deep_view()),
            r.wf(),
    {
        if 1 <= names.len() && names.len() <= 3 {
            let parts = clone_string_vec(names);
            proof {
                assert(parts.deep_view() =~= names.deep_view());
            }
            TableRef { parts }
        } else {
            let name = fallback_name_string();
            TableRef::bare(name)
        }
    }

    /// The ordered name-component list, as the portable encoding carries it.
    pub fn to_names(&self) -> (r: Vec<String>)
        ensures
            r.deep_view() == self@,
    {
        let out = clone_string_vec(&self.parts);
        proof {
            assert(out.deep_view() =~= self@);
        }
        out
    }

    /// The number of name components (1, 2 or 3 for a well-formed reference).
    pub fn len(&self) -> (n: usize)
        ensures
            n == self@.len(),
    {
        self.parts.len()
    }
}

/// Copies a list of names, preserving its view.
pub(crate) fn clone_string_vec(v: &Vec<String>) -> (r: Vec<String>)
    ensures
        r@ == v@,
        r.deep_view() == v.deep_view(),
{
    let mut out: Vec<String> = Vec::new();
    let mut i: usize = 0;
    while i < v.len()
        invariant
            i <= v.len(),
            out@.len() == i,
            forall|j: int| 0 <= j < i ==> out@[j] == v@[j],
        decreases v.len() - i,
    {
        out.push(v[i].clone());
        i = i + 1;
    }
    proof {
        assert(out@ =~= v@);
    }
    out
}

/// The executable fallback name, tied to its specification.
fn fallback_name_string() -> (r: String)
    ensures
        r@ == fallback_table_name(),
{
    String::from_str("table")
}

/// Reading back the name list of a well-formed reference reproduces exactly
/// that reference: the 1/2/3-component convention is the identity on the
/// lists it accepts.
pub proof fn lemma_table_ref_names_roundtrip(names: Seq<Seq<char>>)
    requires
        1 <= names.len() <= 3,
    ensures
        table_ref_of_names(names) == names,
{
}

} // verus!
