//! The event payload and the open extension attributes.

use vstd::prelude::*;
use vstd::pervasive::VecAdditionalExecFns;
use crate::json::{clone_json, member_views, JsonValue, JsonView};
use crate::trusted::{base64_encode, base64_of};
use crate::error::Error;

verus! {

/// An event payload: either raw text (a binary payload travels base64
/// encoded in the same variant, so the two cannot be told apart
/// afterwards) or a structured document.
#[derive(Debug, PartialEq)]
pub enum Data {
    /// A string or binary value; binary content is base64 encoded.
    StringOrBinary(String),
    /// A structured value.
    Object(JsonValue),
}

/// The mathematical shape of a [`Data`].
#[verifier::ext_equal]
pub enum DataView {
    StringOrBinary(Seq<char>),
    Object(JsonView),
}

impl View for Data {
    type V = DataView;

    open spec fn view(&self) -> DataView {
        match self {
            Data::StringOrBinary(s) => DataView::StringOrBinary(s@),
            Data::Object(v) => DataView::Object(v@),
        }
    }
}

impl Data {
    /// A payload holding `s` itself.
    pub fn from_string(s: &str) -> (r: Data)
        ensures
            r@ == DataView::StringOrBinary(s@),
    {
        Data::StringOrBinary(s.to_owned())
    }

    /// A payload holding the base64 text of `b`.
    pub fn from_binary(b: &[u8]) -> (r: Data)
        ensures
            r@ == DataView::StringOrBinary(base64_of(b@)),
    {
        Data::StringOrBinary(base64_encode(b))
    }

    /// A payload holding the structured value `v`.  Every document is
    /// representable, so this never fails.
    pub fn from_serializable(v: JsonValue) -> (r: Result<Data, Error>)
        ensures
            r matches Ok(d) && d@ == DataView::Object(v@),
    {
        Ok(Data::Object(v))
    }
}

/// An extension attribute's value: raw text or a structured document.
#[derive(Debug, PartialEq)]
pub enum ExtensionValue {
    /// A string value.
    String(String),
    /// A structured value.
    Object(JsonValue),
}

/// The mathematical shape of an [`ExtensionValue`].
#[verifier::ext_equal]
pub enum ExtensionValueView {
    String(Seq<char>),
    Object(JsonView),
}

impl View for ExtensionValue {
    type V = ExtensionValueView;

    open spec fn view(&self) -> ExtensionValueView {
        match self {
            ExtensionValue::String(s) => ExtensionValueView::String(s@),
            ExtensionValue::Object(v) => ExtensionValueView::Object(v@),
        }
    }
}

impl ExtensionValue {
    /// A value holding `s` itself.
    pub fn from_string(s: &str) -> (r: ExtensionValue)
        ensures
            r@ == ExtensionValueView::String(s@),
    {
        ExtensionValue::String(s.to_owned())
    }

    /// A value holding the structured document `v`.  Every document is
    /// representable, so this never fails.
    pub fn from_serializable(v: JsonValue) -> (r: Result<ExtensionValue, Error>)
        ensures
            r matches Ok(d) && d@ == ExtensionValueView::Object(v@),
    {
        Ok(ExtensionValue::Object(v))
    }
}

/// How a payload stands in the wire object: raw text as a JSON
/// string, a structured value as itself.  A decoder therefore cannot
/// tell `StringOrBinary(s)` from `Object(Text(s))`; the ambiguity is
/// inherent in the format.
pub open spec fn data_json(d: DataView) -> JsonView {
    match d {
        DataView::StringOrBinary(s) => JsonView::Text(s),
        DataView::Object(j) => j,
    }
}

/// How an extension value stands in the wire object, with the same
/// string ambiguity as the payload.
pub open spec fn ext_val_json(v: ExtensionValueView) -> JsonView {
    match v {
        ExtensionValueView::String(s) => JsonView::Text(s),
        ExtensionValueView::Object(j) => j,
    }
}

/// How an extension map stands in the wire object: one member per
/// entry, in insertion order.
pub open spec fn ext_entries_json(m: Seq<(Seq<char>, ExtensionValueView)>) -> Seq<
    (Seq<char>, JsonView),
> {
    Seq::new(m.len(), |i: int| if 0 <= i < m.len() {
        (m[i].0, ext_val_json(m[i].1))
    } else {
        (Seq::empty(), JsonView::Null)
    })
}

/// What reading a wire value back as an extension value yields.
pub open spec fn ext_val_from_json(j: JsonView) -> ExtensionValueView {
    match j {
        JsonView::Text(s) => ExtensionValueView::String(s),
        _ => ExtensionValueView::Object(j),
    }
}

/// What reading a wire object back as an extension map yields: the
/// entries stored in order, a repeated name keeping the last value.
pub open spec fn ext_from_json(
    eps: Seq<(Seq<char>, JsonView)>,
    i: int,
    acc: Seq<(Seq<char>, ExtensionValueView)>,
) -> Seq<(Seq<char>, ExtensionValueView)>
    decreases eps.len() - i,
{
    if 0 <= i < eps.len() {
        ext_from_json(eps, i + 1, ext_set(acc, eps[i].0, ext_val_from_json(eps[i].1)))
    } else {
        acc
    }
}

/// Renders an extension map as its wire object.
pub fn ext_to_json(m: &Extensions) -> (r: JsonValue)
    ensures
        r@ == JsonView::Object(ext_entries_json(m@)),
{
    let items = m.items();
    let n = items.len();
    let mut out: Vec<(String, JsonValue)> = Vec::new();
    let mut i: usize = 0;
    while i < n
        invariant
            n == items@.len(),
            n == m@.len(),
            i <= n,
            out@.len() == i,
            forall|t: int| 0 <= t < items@.len() ==> (#[trigger] items@[t].0@, items@[t].1@)
                == m@[t],
            forall|t: int|
                #![trigger out@[t]]
                0 <= t < i ==> out@[t].0@ == m@[t].0 && out@[t].1@ == ext_val_json(m@[t].1),
        decreases n - i,
    {
        proof {
            assert((items@[i as int].0@, items@[i as int].1@) == m@[i as int]);
        }
        let jv = match &items[i].1 {
            ExtensionValue::String(s) => JsonValue::Text(s.clone()),
            ExtensionValue::Object(j) => clone_json(j),
        };
        out.push((items[i].0.clone(), jv));
        i = i + 1;
    }
    let r = JsonValue::Object(out);
    proof {
        assert forall|t: int| 0 <= t < m@.len() implies member_views(out@)[t]
            == ext_entries_json(m@)[t] by {
            assert(out@[t].0@ == m@[t].0 && out@[t].1@ == ext_val_json(m@[t].1));
        }
        assert(member_views(out@) =~= ext_entries_json(m@));
    }
    r
}

/// A payload whose wire form reads back as itself: a structured value
/// must be well-formed and must not itself be a string, which would
/// read back as the raw-text variant.
pub open spec fn data_decodable(d: DataView) -> bool {
    match d {
        DataView::StringOrBinary(_) => true,
        DataView::Object(j) => crate::json::json_wf(j) && !(j is Text),
    }
}

/// An extension value whose wire form reads back as itself, with the
/// same string caveat as the payload.
pub open spec fn ext_val_decodable(v: ExtensionValueView) -> bool {
    match v {
        ExtensionValueView::String(_) => true,
        ExtensionValueView::Object(j) => crate::json::json_wf(j) && !(j is Text),
    }
}

/// The search finds nothing where no entry from `i` on has the key.
pub proof fn lemma_ext_index_absent(m: Seq<(Seq<char>, ExtensionValueView)>, k: Seq<char>, i: int)
    requires
        0 <= i <= m.len(),
        forall|t: int| i <= t < m.len() ==> #[trigger] m[t].0 != k,
    ensures
        ext_index_from(m, k, i) == m.len(),
    decreases m.len() - i,
{
    if i < m.len() {
        lemma_ext_index_absent(m, k, i + 1);
    }
}

/// Reading an extension map's wire object back yields the map again,
/// as long as its names are distinct and its values read back as
/// themselves.
pub proof fn lemma_ext_round_from(m: Seq<(Seq<char>, ExtensionValueView)>, i: int)
    requires
        ext_keys_unique(m),
        forall|t: int| 0 <= t < m.len() ==> ext_val_decodable(#[trigger] m[t].1),
        0 <= i <= m.len(),
    ensures
        ext_from_json(ext_entries_json(m), i, m.subrange(0, i)) == m,
    decreases m.len() - i,
{
    let es = ext_entries_json(m);
    if i < m.len() {
        let acc = m.subrange(0, i);
        let k = es[i].0;
        assert(k == m[i].0);
        assert forall|t: int| 0 <= t < acc.len() implies #[trigger] acc[t].0 != k by {
            assert(acc[t] == m[t]);
            assert(m[t].0 != m[i].0);
        }
        lemma_ext_index_absent(acc, k, 0);
        assert(ext_val_decodable(m[i].1));
        assert(ext_val_from_json(ext_val_json(m[i].1)) == m[i].1);
        assert(ext_set(acc, es[i].0, ext_val_from_json(es[i].1)) =~= m.subrange(0, i + 1));
        lemma_ext_round_from(m, i + 1);
    } else {
        assert(m.subrange(0, i) =~= m);
    }
}

/// The first index at or after `i` whose key is `k`, or the length if
/// no entry from `i` on has that key.
pub open spec fn ext_index_from(
    m: Seq<(Seq<char>, ExtensionValueView)>,
    k: Seq<char>,
    i: int,
) -> int
    decreases m.len() - i,
{
    if 0 <= i < m.len() {
        if m[i].0 == k {
            i
        } else {
            ext_index_from(m, k, i + 1)
        }
    } else {
        m.len() as int
    }
}

/// What a lookup in an extension map returns.
pub open spec fn ext_get(m: Seq<(Seq<char>, ExtensionValueView)>, k: Seq<char>) -> Option<
    ExtensionValueView,
> {
    let i = ext_index_from(m, k, 0);
    if i < m.len() {
        Some(m[i].1)
    } else {
        None
    }
}

/// What storing a value in an extension map yields: the first entry
/// with that key is replaced in place, or a new entry is appended.
pub open spec fn ext_set(
    m: Seq<(Seq<char>, ExtensionValueView)>,
    k: Seq<char>,
    v: ExtensionValueView,
) -> Seq<(Seq<char>, ExtensionValueView)> {
    let i = ext_index_from(m, k, 0);
    if i < m.len() {
        m.update(i, (k, v))
    } else {
        m.push((k, v))
    }
}

/// The keys of the entries from `i` on are pairwise distinct.
pub open spec fn ext_keys_unique(m: Seq<(Seq<char>, ExtensionValueView)>) -> bool {
    forall|i: int, j: int| 0 <= i < j < m.len() ==> m[i].0 != m[j].0
}

/// The open extension attributes of an event: an insertion-ordered
/// map from names to values, with the names pairwise distinct.
#[derive(Debug, PartialEq)]
pub struct Extensions {
    items: Vec<(String, ExtensionValue)>,
}

impl View for Extensions {
    type V = Seq<(Seq<char>, ExtensionValueView)>;

    closed spec fn view(&self) -> Seq<(Seq<char>, ExtensionValueView)> {
        Seq::new(self.items@.len(), |i: int| if 0 <= i < self.items@.len() {
            (self.items@[i].0@, self.items@[i].1@)
        } else {
            (Seq::empty(), ExtensionValueView::String(Seq::empty()))
        })
    }
}

impl Extensions {
    /// The names are pairwise distinct; every map built through
    /// [`Extensions::set`] satisfies this.
    pub open spec fn wf(&self) -> bool {
        ext_keys_unique(self@)
    }

    /// An empty map.
    pub fn new() -> (r: Extensions)
        ensures
            r@ == Seq::<(Seq<char>, ExtensionValueView)>::empty(),
            r.wf(),
    {
        let r = Extensions { items: Vec::new() };
        proof {
            assert(r@ =~= Seq::<(Seq<char>, ExtensionValueView)>::empty());
        }
        r
    }

    /// The number of entries.
    pub fn len(&self) -> (r: usize)
        ensures
            r == self@.len(),
    {
        self.items.len()
    }

    /// Stores `v` under `k`: replaces the first entry with that name,
    /// or appends a new one.
    pub fn set(&mut self, k: &str, v: ExtensionValue)
        ensures
            final(self)@ == ext_set(old(self)@, k@, v@),
            old(self).wf() ==> final(self).wf(),
    {
        let ks = k.to_owned();
        let n = self.items.len();
        let mut j: usize = 0;
        while j < n
            invariant
                ks@ == k@,
                n == self.items@.len(),
                j <= n,
                self@ == old(self)@,
                self.items@ == old(self).items@,
                forall|t: int| 0 <= t < j ==> #[trigger] self@[t].0 != k@,
                ext_index_from(self@, k@, 0) == ext_index_from(self@, k@, j as int),
            decreases n - j,
        {
            let hit = self.items[j].0 == ks;
            if hit {
                self.items.set(j, (k.to_owned(), v));
                proof {
                    assert(ext_index_from(old(self)@, k@, j as int) == j);
                    assert(final(self)@ =~= ext_set(old(self)@, k@, v@));
                    if old(self).wf() {
                        lemma_ext_set_unique(old(self)@, k@, v@);
                    }
                }
                return ;
            }
            j = j + 1;
        }
        self.items.push((k.to_owned(), v));
        proof {
            assert(ext_index_from(old(self)@, k@, n as int) == n);
            assert(final(self)@ =~= ext_set(old(self)@, k@, v@));
            if old(self).wf() {
                lemma_ext_set_unique(old(self)@, k@, v@);
            }
        }
    }

    /// Looks a name up: the value of the first entry with that name.
    pub fn get(&self, k: &str) -> (r: Option<&ExtensionValue>)
        ensures
            match r {
                Some(v) => ext_get(self@, k@) == Some(v@),
                None => ext_get(self@, k@) is None,
            },
    {
        let ks = k.to_owned();
        let n = self.items.len();
        let mut j: usize = 0;
        while j < n
            invariant
                ks@ == k@,
                n == self.items@.len(),
                j <= n,
                ext_index_from(self@, k@, 0) == ext_index_from(self@, k@, j as int),
            decreases n - j,
        {
            let hit = self.items[j].0 == ks;
            if hit {
                proof {
                    assert(ext_index_from(self@, k@, j as int) == j);
                }
                return Some(&self.items[j].1);
            }
            proof {
                assert(self@[j as int].0 != k@);
            }
            j = j + 1;
        }
        None
    }

    /// The entries, in insertion order.
    pub fn items(&self) -> (r: &Vec<(String, ExtensionValue)>)
        ensures
            r@.len() == self@.len(),
            forall|i: int| 0 <= i < r@.len() ==> (#[trigger] r@[i].0@, r@[i].1@) == self@[i],
    {
        &self.items
    }
}

/// Storing a value keeps the names pairwise distinct.
proof fn lemma_ext_set_unique(
    m: Seq<(Seq<char>, ExtensionValueView)>,
    k: Seq<char>,
    v: ExtensionValueView,
)
    requires
        ext_keys_unique(m),
    ensures
        ext_keys_unique(ext_set(m, k, v)),
{
    let i = ext_index_from(m, k, 0);
    lemma_ext_index_spec(m, k, 0);
    if i < m.len() {
        let r = m.update(i, (k, v));
        assert forall|a: int, b: int| 0 <= a < b < r.len() implies r[a].0 != r[b].0 by {
            assert(m[a].0 != m[b].0);
            if a == i {
                assert(r[a].0 == k && m[a].0 == k);
            }
            if b == i {
                assert(r[b].0 == k && m[b].0 == k);
            }
        }
    } else {
        let r = m.push((k, v));
        assert forall|a: int, b: int| 0 <= a < b < r.len() implies r[a].0 != r[b].0 by {
            if b < m.len() {
                assert(m[a].0 != m[b].0);
            } else {
                assert(r[b].0 == k);
                assert(m[a].0 != k) by {
                    lemma_ext_index_spec(m, k, 0);
                }
            }
        }
    }
}

/// What the first-index search guarantees: no key hit before it, a
/// hit at it when it is in range.
pub proof fn lemma_ext_index_spec(m: Seq<(Seq<char>, ExtensionValueView)>, k: Seq<char>, i: int)
    requires
        0 <= i <= m.len(),
    ensures
        i <= ext_index_from(m, k, i) <= m.len(),
        ext_index_from(m, k, i) < m.len() ==> m[ext_index_from(m, k, i)].0 == k,
        forall|t: int| i <= t < ext_index_from(m, k, i) ==> #[trigger] m[t].0 != k,
    decreases m.len() - i,
{
    if i < m.len() && m[i].0 != k {
        lemma_ext_index_spec(m, k, i + 1);
    }
}

} // verus!
