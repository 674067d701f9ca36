//! The root span: a named unit of work with a set of fields declared once,
//! at creation. A field's value may be a placeholder filled later, but no
//! new field name can be added after creation — filling an undeclared name
//! is a no-op, never a failure. The span also carries its parent relation
//! (a remote propagated context, or none: a new trace root) and an error
//! mark set at finalization.

use vstd::prelude::*;

use crate::propagation::TraceContext;

verus! {

/// Exact (case-sensitive) comparison of two strings by their characters.
pub fn str_eq(a: &str, b: &str) -> (r: bool)
    ensures
        r == (a@ == b@),
{
    let n = a.unicode_len();
    if n != b.unicode_len() {
        return false;
    }
    let mut i: usize = 0;
    while i < n
        invariant
            0 <= i <= n,
            n == a@.len(),
            n == b@.len(),
            forall|j: int| 0 <= j < i ==> a@[j] == b@[j],
        decreases n - i,
    {
        if a.get_char(i) != b.get_char(i) {
            return false;
        }
        i = i + 1;
    }
    proof {
        assert(a@ =~= b@);
    }
    true
}

/// One declared field: a name fixed at creation and a value that may still
/// be a placeholder.
pub struct SpanField {
    pub name: String,
    pub value: Option<String>,
}

/// Mathematical image of a field's value.
pub open spec fn value_view(v: Option<String>) -> Option<Seq<char>> {
    match v {
        Some(s) => Some(s@),
        None => None,
    }
}

/// The map from declared field names to their (possibly placeholder)
/// values.
pub open spec fn fields_map(fs: Seq<SpanField>) -> Map<Seq<char>, Option<Seq<char>>>
    decreases fs.len(),
{
    if fs.len() == 0 {
        Map::empty()
    } else {
        fields_map(fs.drop_last()).insert(fs.last().name@, value_view(fs.last().value))
    }
}

/// Field names are pairwise distinct.
pub open spec fn distinct_names(fs: Seq<SpanField>) -> bool {
    forall|i: int, j: int| 0 <= i < j < fs.len() ==> (#[trigger] fs[i].name@) != (#[trigger] fs[j].name@)
}

/// A name is in the map exactly when some declared field carries it.
pub proof fn lemma_fields_map_domain(fs: Seq<SpanField>, n: Seq<char>)
    ensures
        fields_map(fs).contains_key(n) <==> exists|i: int| 0 <= i < fs.len() && (#[trigger] fs[i].name@) == n,
    decreases fs.len(),
{
    if fs.len() > 0 {
        lemma_fields_map_domain(fs.drop_last(), n);
        if fields_map(fs).contains_key(n) {
            if fs.last().name@ != n {
                let i = choose|i: int| 0 <= i < fs.len() - 1 && (#[trigger] fs.drop_last()[i].name@) == n;
                assert(fs[i].name@ == n);
            } else {
                assert(fs[fs.len() - 1].name@ == n);
            }
        }
        if exists|i: int| 0 <= i < fs.len() && (#[trigger] fs[i].name@) == n {
            let i = choose|i: int| 0 <= i < fs.len() && (#[trigger] fs[i].name@) == n;
            if i < fs.len() - 1 {
                assert(fs.drop_last()[i].name@ == n);
            }
        }
    }
}

/// With distinct names, each declared field is what the map holds for its
/// name.
pub proof fn lemma_fields_map_at(fs: Seq<SpanField>, i: int)
    requires
        distinct_names(fs),
        0 <= i < fs.len(),
    ensures
        fields_map(fs).contains_key(fs[i].name@),
        fields_map(fs)[fs[i].name@] == value_view(fs[i].value),
    decreases fs.len(),
{
    lemma_fields_map_domain(fs, fs[i].name@);
    if i < fs.len() - 1 {
        assert(distinct_names(fs.drop_last())) by {
            assert(forall|a: int, b: int|
                0 <= a < b < fs.len() - 1 ==> (#[trigger] fs.drop_last()[a].name@) != (
                #[trigger] fs.drop_last()[b].name@)) by {
                assert(forall|a: int| 0 <= a < fs.len() - 1 ==> (#[trigger] fs.drop_last()[a]) == fs[a]);
            }
        }
        assert(fs.drop_last()[i] == fs[i]);
        lemma_fields_map_at(fs.drop_last(), i);
        assert(fs[i].name@ != fs.last().name@);
    }
}

/// Updating a declared field's value is, on the map, one insertion at its
/// name.
pub proof fn lemma_fields_map_update(fs: Seq<SpanField>, j: int, f2: SpanField)
    requires
        distinct_names(fs),
        0 <= j < fs.len(),
        f2.name@ == fs[j].name@,
    ensures
        fields_map(fs.update(j, f2)) == fields_map(fs).insert(f2.name@, value_view(f2.value)),
        distinct_names(fs.update(j, f2)),
    decreases fs.len(),
{
    let fs2 = fs.update(j, f2);
    assert(distinct_names(fs2)) by {
        assert(forall|a: int| 0 <= a < fs.len() && a != j ==> (#[trigger] fs2[a]) == fs[a]);
        assert(fs2[j].name@ == fs[j].name@);
        assert(forall|a: int, b: int|
            0 <= a < b < fs2.len() ==> (#[trigger] fs2[a].name@) != (#[trigger] fs2[b].name@)) by {
            assert(forall|a: int| 0 <= a < fs2.len() ==> (#[trigger] fs2[a].name@) == fs[a].name@);
        }
    }
    if j == fs.len() - 1 {
        assert(fs2.drop_last() =~= fs.drop_last());
        assert(fs2.last() == f2);
        assert(fields_map(fs.drop_last()).insert(fs.last().name@, value_view(fs.last().value))
            .insert(f2.name@, value_view(f2.value)) =~= fields_map(fs.drop_last()).insert(
            f2.name@,
            value_view(f2.value),
        ));
    } else {
        assert(distinct_names(fs.drop_last())) by {
            assert(forall|a: int| 0 <= a < fs.len() - 1 ==> (#[trigger] fs.drop_last()[a]) == fs[a]);
        }
        assert(fs.drop_last()[j] == fs[j]);
        lemma_fields_map_update(fs.drop_last(), j, f2);
        assert(fs2.drop_last() =~= fs.drop_last().update(j, f2));
        assert(fs2.last() == fs.last());
        assert(fs.last().name@ != f2.name@);
        assert(fields_map(fs.drop_last()).insert(f2.name@, value_view(f2.value)).insert(
            fs.last().name@,
            value_view(fs.last().value),
        ) =~= fields_map(fs.drop_last()).insert(fs.last().name@, value_view(fs.last().value))
            .insert(f2.name@, value_view(f2.value)));
    }
}

/// A unit of work: a name, the fields declared at creation, the parent
/// relation, and the error mark.
pub struct Span {
    pub name: String,
    pub fields: Vec<SpanField>,
    pub parent: Option<TraceContext>,
    pub error: bool,
}

/// Mathematical image of a [`Span`].
pub struct SpanView {
    pub name: Seq<char>,
    pub fields: Map<Seq<char>, Option<Seq<char>>>,
    pub parent: Option<TraceContext>,
    pub error: bool,
}

impl View for Span {
    type V = SpanView;

    open spec fn view(&self) -> SpanView {
        SpanView {
            name: self.name@,
            fields: fields_map(self.fields@),
            parent: self.parent,
            error: self.error,
        }
    }
}

impl Span {
    /// Well-formed: no field name is declared twice.
    pub open spec fn wf(&self) -> bool {
        distinct_names(self.fields@)
    }

    /// Create a span with its full field set; the set is closed from here
    /// on.
    pub fn create(name: String, fields: Vec<SpanField>) -> (r: Span)
        requires
            distinct_names(fields@),
        ensures
            r.wf(),
            r@.name == name@,
            r@.fields == fields_map(fields@),
            r@.parent is None,
            r@.error == false,
    {
        Span { name, fields, parent: None, error: false }
    }

    /// Fill a previously declared field. Returns whether the name was
    /// declared: an undeclared name leaves the span unchanged — filling is
    /// never able to add a field or to fail.
    pub fn record(&mut self, name: &str, value: String) -> (updated: bool)
        requires
            old(self).wf(),
        ensures
            final(self).wf(),
            updated == old(self)@.fields.contains_key(name@),
            updated ==> final(self)@.fields == old(self)@.fields.insert(name@, Some(value@)),
            !updated ==> *final(self) == *old(self),
            final(self)@.name == old(self)@.name,
            final(self)@.parent == old(self)@.parent,
            final(self)@.error == old(self)@.error,
    {
        let n = self.fields.len();
        let mut j: usize = 0;
        while j < n
            invariant
                *self == *old(self),
                self.wf(),
                0 <= j <= n,
                n == self.fields@.len(),
                forall|k: int| 0 <= k < j ==> (#[trigger] self.fields@[k].name@) != name@,
            decreases n - j,
        {
            if str_eq(self.fields[j].name.as_str(), name) {
                proof {
                    lemma_fields_map_at(self.fields@, j as int);
                    lemma_fields_map_domain(self.fields@, name@);
                }
                let ghost old_fields = self.fields@;
                self.fields[j].value = Some(value);
                proof {
                    assert(self.fields@ == old_fields.update(
                        j as int,
                        SpanField { name: old_fields[j as int].name, value: self.fields@[j as int].value },
                    ));
                    lemma_fields_map_update(
                        old_fields,
                        j as int,
                        self.fields@[j as int],
                    );
                }
                return true;
            }
            j = j + 1;
        }
        proof {
            lemma_fields_map_domain(self.fields@, name@);
        }
        false
    }

    /// Read a declared field: `None` when the name was never declared,
    /// `Some` of its (possibly placeholder) value otherwise.
    pub fn get_field(&self, name: &str) -> (r: Option<Option<String>>)
        requires
            self.wf(),
        ensures
            match r {
                Some(v) => self@.fields.contains_key(name@) && self@.fields[name@] == value_view(v),
                None => !self@.fields.contains_key(name@),
            },
    {
        let n = self.fields.len();
        let mut j: usize = 0;
        while j < n
            invariant
                self.wf(),
                0 <= j <= n,
                n == self.fields@.len(),
                forall|k: int| 0 <= k < j ==> (#[trigger] self.fields@[k].name@) != name@,
            decreases n - j,
        {
            if str_eq(self.fields[j].name.as_str(), name) {
                proof {
                    lemma_fields_map_at(self.fields@, j as int);
                }
                let r = match &self.fields[j].value {
                    Some(v) => Some(Some(v.clone())),
                    None => Some(None),
                };
                return r;
            }
            j = j + 1;
        }
        proof {
            lemma_fields_map_domain(self.fields@, name@);
        }
        None
    }
}

} // verus!
