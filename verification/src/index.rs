//! The convention index: exact names, template prefixes and the set of all
//! known namespace prefixes, built once from parsed convention documents
//! plus a fixed builtin set, and immutable afterwards.
//!
//! Names are kept in insertion order in vectors of key/value pairs with
//! unique keys; a later declaration of the same name overwrites the
//! earlier one in place.
use crate::convention::{spec_is_template, Attribute, Group};
use crate::strings::{contains_str, contains_string, str_eq, strs_view};
use vstd::prelude::*;
use vstd::string::StrSliceExecFns;
use vstd::string::StringExecFns;

verus! {

/// The mathematical value of the index: the two maps as key/value pair
/// sequences in insertion order, and the prefix set as a sequence of
/// distinct strings.
#[verifier::ext_equal]
pub struct IndexView {
    pub attribute_map: Seq<(Seq<char>, Option<Attribute>)>,
    pub prefixes: Seq<Seq<char>>,
    pub templates: Seq<(Seq<char>, Option<Attribute>)>,
}

/// The views of a sequence of key/value pairs.
pub open spec fn entries_view(es: Seq<(String, Option<Attribute>)>) -> Seq<
    (Seq<char>, Option<Attribute>),
> {
    es.map_values(|e: (String, Option<Attribute>)| (e.0@, e.1))
}

/// Whether some pair carries the key.
pub open spec fn map_has_key(es: Seq<(Seq<char>, Option<Attribute>)>, k: Seq<char>) -> bool {
    exists|i: int| 0 <= i < es.len() && es[i].0 == k
}

/// The position of the pair carrying the key.
pub open spec fn map_key_index(es: Seq<(Seq<char>, Option<Attribute>)>, k: Seq<char>) -> int {
    choose|i: int| 0 <= i < es.len() && es[i].0 == k
}

/// The value stored under the key.
pub open spec fn map_value_of(es: Seq<(Seq<char>, Option<Attribute>)>, k: Seq<char>) -> Option<
    Attribute,
> {
    es[map_key_index(es, k)].1
}

/// No two pairs carry the same key.
pub open spec fn distinct_keys(es: Seq<(Seq<char>, Option<Attribute>)>) -> bool {
    forall|i: int, j: int| 0 <= i < j < es.len() ==> es[i].0 != es[j].0
}

/// No string occurs twice.
pub open spec fn distinct_strs(ss: Seq<Seq<char>>) -> bool {
    forall|i: int, j: int| 0 <= i < j < ss.len() ==> ss[i] != ss[j]
}

/// Insertion with overwrite: replaces the value in place when the key is
/// present, appends the pair otherwise.
pub open spec fn spec_map_insert(
    es: Seq<(Seq<char>, Option<Attribute>)>,
    k: Seq<char>,
    v: Option<Attribute>,
) -> Seq<(Seq<char>, Option<Attribute>)> {
    if map_has_key(es, k) {
        es.update(map_key_index(es, k), (k, v))
    } else {
        es.push((k, v))
    }
}

/// Set insertion: appends the string unless it is already present.
pub open spec fn spec_set_insert(ss: Seq<Seq<char>>, x: Seq<char>) -> Seq<Seq<char>> {
    if contains_str(ss, x) {
        ss
    } else {
        ss.push(x)
    }
}

/// What insertion with overwrite does to lookups: the inserted key maps to
/// the new value, every other key is untouched, and uniqueness is kept.
pub proof fn lemma_map_insert(es: Seq<(Seq<char>, Option<Attribute>)>, k: Seq<char>, v: Option<
    Attribute,
>)
    requires
        distinct_keys(es),
    ensures
        distinct_keys(spec_map_insert(es, k, v)),
        forall|k2: Seq<char>|
            map_has_key(spec_map_insert(es, k, v), k2) <==> (map_has_key(es, k2) || k2 == k),
        map_value_of(spec_map_insert(es, k, v), k) == v,
        forall|k2: Seq<char>|
            k2 != k && map_has_key(es, k2) ==> map_value_of(spec_map_insert(es, k, v), k2)
                == map_value_of(es, k2),
{
    let es2 = spec_map_insert(es, k, v);
    if map_has_key(es, k) {
        let i0 = map_key_index(es, k);
        assert(0 <= i0 < es.len() && es[i0].0 == k);
        assert(forall|j: int| 0 <= j < es.len() && j != i0 ==> es[j].0 != k);
        assert(forall|k2: Seq<char>| map_has_key(es, k2) ==> map_has_key(es2, k2)) by {
            assert forall|k2: Seq<char>| map_has_key(es, k2) implies map_has_key(es2, k2) by {
                let j = map_key_index(es, k2);
                assert(es2[j].0 == k2);
            }
        }
        assert forall|k2: Seq<char>| map_has_key(es2, k2) implies map_has_key(es, k2) || k2
            == k by {
            let j = map_key_index(es2, k2);
            if j != i0 {
                assert(es[j].0 == k2);
            }
        }
        assert(forall|j: int| 0 <= j < es2.len() && es2[j].0 == k ==> j == i0);
        assert(es2[map_key_index(es2, k)].1 == v);
        assert forall|k2: Seq<char>| k2 != k && map_has_key(es, k2) implies map_value_of(es2, k2)
            == map_value_of(es, k2) by {
            let j = map_key_index(es, k2);
            assert(es2[j].0 == k2 && es2[j].1 == es[j].1);
            let j2 = map_key_index(es2, k2);
            assert(0 <= j2 < es2.len() && es2[j2].0 == k2);
            assert(j2 != i0);
            assert(es[j2].0 == k2);
            assert(j2 == j);
        }
    } else {
        let n = es.len() as int;
        assert(es2[n].0 == k);
        assert forall|k2: Seq<char>| map_has_key(es2, k2) implies map_has_key(es, k2) || k2
            == k by {
            let j = map_key_index(es2, k2);
            if j < n {
                assert(es[j].0 == k2);
            }
        }
        assert(forall|k2: Seq<char>| map_has_key(es, k2) ==> map_has_key(es2, k2)) by {
            assert forall|k2: Seq<char>| map_has_key(es, k2) implies map_has_key(es2, k2) by {
                let j = map_key_index(es, k2);
                assert(es2[j].0 == k2);
            }
        }
        assert(forall|j: int| 0 <= j < es2.len() && es2[j].0 == k ==> j == n);
        assert(es2[map_key_index(es2, k)].1 == v);
        assert forall|k2: Seq<char>| k2 != k && map_has_key(es, k2) implies map_value_of(es2, k2)
            == map_value_of(es, k2) by {
            let j = map_key_index(es, k2);
            assert(es2[j].0 == k2 && es2[j].1 == es[j].1);
            let j2 = map_key_index(es2, k2);
            assert(0 <= j2 < es2.len() && es2[j2].0 == k2);
            assert(j2 < n);
            assert(j2 == j);
        }
    }
}

/// A pair found at a position is the one every lookup of its key sees.
proof fn lemma_unique_key_index(es: Seq<(Seq<char>, Option<Attribute>)>, i: int, k: Seq<char>)
    requires
        distinct_keys(es),
        0 <= i < es.len(),
        es[i].0 == k,
    ensures
        map_has_key(es, k),
        map_key_index(es, k) == i,
        map_value_of(es, k) == es[i].1,
{
    assert(map_has_key(es, k));
    let j = map_key_index(es, k);
    assert(0 <= j < es.len() && es[j].0 == k);
    if j < i {
        assert(es[j].0 != es[i].0);
    }
    if i < j {
        assert(es[i].0 != es[j].0);
    }
}

/// The convention index.
#[derive(Debug)]
pub struct SemanticConventions {
    pub attribute_map: Vec<(String, Option<Attribute>)>,
    pub prefixes: Vec<String>,
    pub templates: Vec<(String, Option<Attribute>)>,
}

impl View for SemanticConventions {
    type V = IndexView;

    open spec fn view(&self) -> IndexView {
        IndexView {
            attribute_map: entries_view(self.attribute_map@),
            prefixes: strs_view(self.prefixes@),
            templates: entries_view(self.templates@),
        }
    }
}

/// Linear lookup in a key/value vector.
fn map_get<'a>(es: &'a Vec<(String, Option<Attribute>)>, name: &str) -> (r: Option<
    &'a Option<Attribute>,
>)
    requires
        distinct_keys(entries_view(es@)),
    ensures
        r is Some <==> map_has_key(entries_view(es@), name@),
        match r {
            Some(v) => *v == map_value_of(entries_view(es@), name@),
            None => true,
        },
{
    let ghost ev = entries_view(es@);
    let mut i: usize = 0;
    while i < es.len()
        invariant
            i <= es@.len(),
            ev == entries_view(es@),
            distinct_keys(ev),
            forall|j: int| 0 <= j < i ==> ev[j].0 != name@,
        decreases es@.len() - i,
    {
        let e = &es[i];
        let hit = str_eq(e.0.as_str(), name);
        proof {
            assert(ev[i as int] == (es@[i as int].0@, es@[i as int].1));
        }
        if hit {
            proof {
                lemma_unique_key_index(ev, i as int, name@);
            }
            return Some(&e.1);
        }
        i += 1;
    }
    None
}

/// Linear insertion with overwrite in a key/value vector.
fn map_put(es: &mut Vec<(String, Option<Attribute>)>, name: String, value: Option<Attribute>)
    requires
        distinct_keys(entries_view(old(es)@)),
    ensures
        entries_view(final (es)@) == spec_map_insert(entries_view(old(es)@), name@, value),
        distinct_keys(entries_view(final (es)@)),
{
    let ghost ev = entries_view(old(es)@);
    let mut i: usize = 0;
    while i < es.len()
        invariant
            i <= es@.len(),
            es@ == old(es)@,
            ev == entries_view(es@),
            distinct_keys(ev),
            forall|j: int| 0 <= j < i ==> ev[j].0 != name@,
        decreases es@.len() - i,
    {
        let hit = str_eq(es[i].0.as_str(), name.as_str());
        proof {
            assert(ev[i as int] == (es@[i as int].0@, es@[i as int].1));
        }
        if hit {
            proof {
                lemma_unique_key_index(ev, i as int, name@);
            }
            es[i] = (name, value);
            proof {
                assert forall|j: int| 0 <= j < es@.len() implies entries_view(es@)[j]
                    == spec_map_insert(ev, name@, value)[j] by {
                    assert(entries_view(es@)[j] == (es@[j].0@, es@[j].1));
                }
                assert(entries_view(es@) =~= spec_map_insert(ev, name@, value));
                lemma_map_insert(ev, name@, value);
            }
            return ;
        }
        i += 1;
    }
    es.push((name, value));
    proof {
        assert(!map_has_key(ev, name@));
        assert forall|j: int| 0 <= j < es@.len() implies entries_view(es@)[j]
            == spec_map_insert(ev, name@, value)[j] by {
            assert(entries_view(es@)[j] == (es@[j].0@, es@[j].1));
            if j < ev.len() {
                assert(ev[j] == (old(es)@[j].0@, old(es)@[j].1));
            }
        }
        assert(entries_view(es@) =~= spec_map_insert(ev, name@, value));
        lemma_map_insert(ev, name@, value);
    }
}

/// Appends the string to the set vector unless it is already there.
fn set_put(ss: &mut Vec<String>, x: String)
    requires
        distinct_strs(strs_view(old(ss)@)),
    ensures
        strs_view(final (ss)@) == spec_set_insert(strs_view(old(ss)@), x@),
        distinct_strs(strs_view(final (ss)@)),
        forall|k: Seq<char>|
            contains_str(strs_view(final (ss)@), k) <==> (contains_str(strs_view(old(ss)@), k)
                || k == x@),
{
    let ghost sv = strs_view(old(ss)@);
    if !contains_string(ss, x.as_str()) {
        ss.push(x);
        proof {
            assert(strs_view(ss@) =~= sv.push(x@));
            assert forall|k: Seq<char>| contains_str(strs_view(ss@), k) implies (contains_str(
                sv,
                k,
            ) || k == x@) by {
                let j = choose|j: int| 0 <= j < strs_view(ss@).len() && strs_view(ss@)[j] == k;
                if j < sv.len() {
                    assert(sv[j] == k);
                }
            }
            assert forall|k: Seq<char>| contains_str(sv, k) implies contains_str(
                strs_view(ss@),
                k,
            ) by {
                let j = choose|j: int| 0 <= j < sv.len() && sv[j] == k;
                assert(strs_view(ss@)[j] == k);
            }
            assert(strs_view(ss@)[sv.len() as int] == x@);
        }
    }
}


/// Inserts the cut before every dot position `j < i` of the name into the
/// set, in left-to-right order.
pub open spec fn spec_add_cut_prefixes(ss: Seq<Seq<char>>, n: Seq<char>, i: int) -> Seq<Seq<char>>
    decreases i,
{
    if i <= 0 {
        ss
    } else {
        let prev = spec_add_cut_prefixes(ss, n, i - 1);
        if n[i - 1] == '.' {
            spec_set_insert(prev, n.take(i - 1))
        } else {
            prev
        }
    }
}

/// Inserts every dot-delimited ancestor of the name, and the name itself,
/// into the set.
pub open spec fn spec_insert_prefixes(ss: Seq<Seq<char>>, n: Seq<char>) -> Seq<Seq<char>> {
    spec_set_insert(spec_add_cut_prefixes(ss, n, n.len() as int), n)
}

/// Set insertion adds exactly the one string.
pub proof fn lemma_set_insert_membership(ss: Seq<Seq<char>>, x: Seq<char>, k: Seq<char>)
    ensures
        contains_str(spec_set_insert(ss, x), k) <==> (contains_str(ss, k) || k == x),
{
    let ss2 = spec_set_insert(ss, x);
    if !contains_str(ss, x) {
        assert(ss2[ss.len() as int] == x);
        if contains_str(ss2, k) {
            let j = choose|j: int| 0 <= j < ss2.len() && ss2[j] == k;
            if j < ss.len() {
                assert(ss[j] == k);
            }
        }
        if contains_str(ss, k) {
            let j = choose|j: int| 0 <= j < ss.len() && ss[j] == k;
            assert(ss2[j] == k);
        }
    }
}

/// The cut insertion adds exactly the cuts at dot positions below `i`.
pub proof fn lemma_cut_prefixes_membership(ss: Seq<Seq<char>>, n: Seq<char>, i: int, k: Seq<char>)
    requires
        0 <= i <= n.len(),
    ensures
        contains_str(spec_add_cut_prefixes(ss, n, i), k) <==> (contains_str(ss, k) || exists|j: int|
            0 <= j < i && n[j] == '.' && k == n.take(j)),
    decreases i,
{
    if i > 0 {
        lemma_cut_prefixes_membership(ss, n, i - 1, k);
        let prev = spec_add_cut_prefixes(ss, n, i - 1);
        if n[i - 1] == '.' {
            lemma_set_insert_membership(prev, n.take(i - 1), k);
        }
    }
}

/// Prefix insertion adds exactly the name and its dot-delimited ancestors.
pub proof fn lemma_insert_prefixes_membership(ss: Seq<Seq<char>>, n: Seq<char>, k: Seq<char>)
    ensures
        contains_str(spec_insert_prefixes(ss, n), k) <==> (contains_str(ss, k) || k == n || exists|
            j: int,
        | 0 <= j < n.len() && n[j] == '.' && k == n.take(j)),
{
    lemma_cut_prefixes_membership(ss, n, n.len() as int, k);
    lemma_set_insert_membership(spec_add_cut_prefixes(ss, n, n.len() as int), n, k);
}

/// The reserved field names that are always considered compliant.
pub open spec fn is_builtin_name(k: Seq<char>) -> bool {
    k == "duration_ms"@ || k == "type"@ || k == "meta.signal_type"@ || k == "name"@ || k
        == "span.kind"@ || k == "span.num_events"@ || k == "span.num_links"@ || k
        == "trace.parent_id"@ || k == "trace.span_id"@ || k == "trace.trace_id"@ || k
        == "meta.annotation_type"@ || k == "parent_name"@ || k == "status_code"@ || k == "error"@
}

/// The namespaces of the reserved field names.
pub open spec fn is_builtin_prefix(k: Seq<char>) -> bool {
    k == "meta"@ || k == "span"@ || k == "trace"@
}

impl SemanticConventions {
    /// Well-formedness: unique keys in both maps and no duplicate prefix.
    pub open spec fn wf(self) -> bool {
        distinct_keys(self@.attribute_map) && distinct_keys(self@.templates) && distinct_strs(
            self@.prefixes,
        )
    }

    /// Stores the attribute under the exact name, overwriting any earlier
    /// declaration of the same name.
    pub fn insert_attribute(&mut self, name: String, attribute: Option<Attribute>)
        requires
            old(self).wf(),
        ensures
            final (self).wf(),
            final (self)@.attribute_map == spec_map_insert(
                old(self)@.attribute_map,
                name@,
                attribute,
            ),
            final (self)@.prefixes == old(self)@.prefixes,
            final (self)@.templates == old(self)@.templates,
            forall|k: Seq<char>|
                map_has_key(final (self)@.attribute_map, k) <==> (map_has_key(
                    old(self)@.attribute_map,
                    k,
                ) || k == name@),
            map_value_of(final (self)@.attribute_map, name@) == attribute,
            forall|k: Seq<char>|
                k != name@ && map_has_key(old(self)@.attribute_map, k) ==> map_value_of(
                    final (self)@.attribute_map,
                    k,
                ) == map_value_of(old(self)@.attribute_map, k),
    {
        proof {
            lemma_map_insert(self@.attribute_map, name@, attribute);
        }
        map_put(&mut self.attribute_map, name, attribute);
    }

    /// Stores the attribute under the template prefix, overwriting any
    /// earlier declaration of the same prefix.
    pub fn insert_template(&mut self, name: String, attribute: Option<Attribute>)
        requires
            old(self).wf(),
        ensures
            final (self).wf(),
            final (self)@.templates == spec_map_insert(old(self)@.templates, name@, attribute),
            final (self)@.prefixes == old(self)@.prefixes,
            final (self)@.attribute_map == old(self)@.attribute_map,
            forall|k: Seq<char>|
                map_has_key(final (self)@.templates, k) <==> (map_has_key(old(self)@.templates, k)
                    || k == name@),
            map_value_of(final (self)@.templates, name@) == attribute,
            forall|k: Seq<char>|
                k != name@ && map_has_key(old(self)@.templates, k) ==> map_value_of(
                    final (self)@.templates,
                    k,
                ) == map_value_of(old(self)@.templates, k),
    {
        proof {
            lemma_map_insert(self@.templates, name@, attribute);
        }
        map_put(&mut self.templates, name, attribute);
    }

    /// Breaks the name `a.b.c` into `a`, `a.b` and `a.b.c` and stores each
    /// in the prefix set.
    pub fn insert_prefixes(&mut self, input: &str)
        requires
            old(self).wf(),
        ensures
            final (self).wf(),
            final (self)@.prefixes == spec_insert_prefixes(old(self)@.prefixes, input@),
            final (self)@.attribute_map == old(self)@.attribute_map,
            final (self)@.templates == old(self)@.templates,
    {
        let ghost orig = strs_view(self.prefixes@);
        let len = input.unicode_len();
        let mut i: usize = 0;
        while i < len
            invariant
                i <= len,
                len == input@.len(),
                distinct_strs(strs_view(self.prefixes@)),
                strs_view(self.prefixes@) == spec_add_cut_prefixes(orig, input@, i as int),
                self.attribute_map@ == old(self).attribute_map@,
                self.templates@ == old(self).templates@,
            decreases len - i,
        {
            if input.get_char(i) == '.' {
                let cut = input.substring_char(0, i).to_owned();
                proof {
                    assert(cut@ =~= input@.take(i as int));
                }
                set_put(&mut self.prefixes, cut);
            }
            i += 1;
        }
        let whole = input.to_owned();
        set_put(&mut self.prefixes, whole);
    }

    /// Whether the exact name is a key of the attribute map.
    pub fn contains_name(&self, name: &str) -> (r: bool)
        ensures
            r == map_has_key(self@.attribute_map, name@),
    {
        let ghost ev = self@.attribute_map;
        let mut i: usize = 0;
        while i < self.attribute_map.len()
            invariant
                i <= self.attribute_map@.len(),
                ev == self@.attribute_map,
                forall|j: int| 0 <= j < i ==> ev[j].0 != name@,
            decreases self.attribute_map@.len() - i,
        {
            let e = &self.attribute_map[i];
            let hit = str_eq(e.0.as_str(), name);
            proof {
                assert(ev[i as int] == (self.attribute_map@[i as int].0@,
                self.attribute_map@[i as int].1));
            }
            if hit {
                return true;
            }
            i += 1;
        }
        false
    }

    /// Whether the namespace is a member of the prefix set.
    pub fn contains_prefix(&self, name: &str) -> (r: bool)
        ensures
            r == contains_str(self@.prefixes, name@),
    {
        contains_string(&self.prefixes, name)
    }

    /// The value stored under the exact name, if the name is known.
    pub fn lookup_attribute<'a>(&'a self, name: &str) -> (r: Option<&'a Option<Attribute>>)
        requires
            self.wf(),
        ensures
            r is Some <==> map_has_key(self@.attribute_map, name@),
            match r {
                Some(v) => *v == map_value_of(self@.attribute_map, name@),
                None => true,
            },
    {
        map_get(&self.attribute_map, name)
    }

    /// The value stored under the template prefix, if the prefix is known.
    pub fn lookup_template<'a>(&'a self, name: &str) -> (r: Option<&'a Option<Attribute>>)
        requires
            self.wf(),
        ensures
            r is Some <==> map_has_key(self@.templates, name@),
            match r {
                Some(v) => *v == map_value_of(self@.templates, name@),
                None => true,
            },
    {
        map_get(&self.templates, name)
    }

    /// Seeds the maps with the fixed builtin names, mapped to no metadata,
    /// and the fixed builtin namespaces.
    #[verifier::rlimit(100)]
    pub fn populate_builtins(&mut self)
        requires
            old(self).wf(),
        ensures
            final (self).wf(),
            forall|k: Seq<char>|
                map_has_key(final (self)@.attribute_map, k) <==> (map_has_key(
                    old(self)@.attribute_map,
                    k,
                ) || is_builtin_name(k)),
            forall|k: Seq<char>|
                is_builtin_name(k) ==> map_value_of(final (self)@.attribute_map, k) is None,
            forall|k: Seq<char>|
                !is_builtin_name(k) && map_has_key(old(self)@.attribute_map, k) ==> map_value_of(
                    final (self)@.attribute_map,
                    k,
                ) == map_value_of(old(self)@.attribute_map, k),
            forall|k: Seq<char>|
                contains_str(final (self)@.prefixes, k) <==> (contains_str(old(self)@.prefixes, k)
                    || is_builtin_prefix(k)),
            final (self)@.templates == old(self)@.templates,
    {
        self.insert_attribute("duration_ms".to_owned(), None);
        self.insert_attribute("type".to_owned(), None);
        self.insert_attribute("meta.signal_type".to_owned(), None);
        self.insert_attribute("name".to_owned(), None);
        self.insert_attribute("span.kind".to_owned(), None);
        self.insert_attribute("span.num_events".to_owned(), None);
        self.insert_attribute("span.num_links".to_owned(), None);
        self.insert_attribute("trace.parent_id".to_owned(), None);
        self.insert_attribute("trace.span_id".to_owned(), None);
        self.insert_attribute("trace.trace_id".to_owned(), None);
        self.insert_attribute("meta.annotation_type".to_owned(), None);
        self.insert_attribute("parent_name".to_owned(), None);
        self.insert_attribute("status_code".to_owned(), None);
        self.insert_attribute("error".to_owned(), None);
        set_put(&mut self.prefixes, "meta".to_owned());
        set_put(&mut self.prefixes, "span".to_owned());
        set_put(&mut self.prefixes, "trace".to_owned());
    }

    /// An index holding exactly the builtin names and namespaces, ready to
    /// take convention documents.
    pub fn new() -> (r: SemanticConventions)
        ensures
            r.wf(),
            forall|k: Seq<char>| map_has_key(r@.attribute_map, k) <==> is_builtin_name(k),
            forall|k: Seq<char>|
                is_builtin_name(k) ==> map_value_of(r@.attribute_map, k) is None,
            forall|k: Seq<char>| contains_str(r@.prefixes, k) <==> is_builtin_prefix(k),
            r@.templates == Seq::<(Seq<char>, Option<Attribute>)>::empty(),
    {
        let mut sc = SemanticConventions {
            attribute_map: Vec::new(),
            prefixes: Vec::new(),
            templates: Vec::new(),
        };
        proof {
            assert(entries_view(sc.attribute_map@) =~= Seq::<(Seq<char>, Option<
                Attribute,
            >)>::empty());
            assert(entries_view(sc.templates@) =~= Seq::<(Seq<char>, Option<Attribute>)>::empty());
            assert(strs_view(sc.prefixes@) =~= Seq::<Seq<char>>::empty());
        }
        sc.populate_builtins();
        sc
    }
}


/// The full dot-delimited name of an attribute: the group prefix, a dot,
/// and the attribute identifier.
pub open spec fn spec_full_name(prefix: Seq<char>, id: Seq<char>) -> Seq<char> {
    prefix + seq!['.'] + id
}

/// What indexing one attribute of a group does: nothing without an
/// identifier; otherwise the name's namespace ancestors are added to the
/// prefix set and the pair is stored in the template map or the attribute
/// map.
pub open spec fn spec_apply_attribute(v: IndexView, prefix: Seq<char>, a: Attribute) -> IndexView {
    match a.id {
        None => v,
        Some(id) => {
            let n = spec_full_name(prefix, id@);
            if spec_is_template(a) {
                IndexView {
                    attribute_map: v.attribute_map,
                    prefixes: spec_insert_prefixes(v.prefixes, n),
                    templates: spec_map_insert(v.templates, n, Some(a)),
                }
            } else {
                IndexView {
                    attribute_map: spec_map_insert(v.attribute_map, n, Some(a)),
                    prefixes: spec_insert_prefixes(v.prefixes, n),
                    templates: v.templates,
                }
            }
        },
    }
}

/// Indexes the attributes of one group in declaration order.
pub open spec fn spec_apply_attributes(
    v: IndexView,
    prefix: Seq<char>,
    attrs: Seq<Attribute>,
) -> IndexView
    decreases attrs.len(),
{
    if attrs.len() == 0 {
        v
    } else {
        spec_apply_attributes(spec_apply_attribute(v, prefix, attrs.first()), prefix,
        attrs.drop_first())
    }
}

/// Indexes one group: only groups with both a prefix and an attribute list
/// contribute.
pub open spec fn spec_apply_group(v: IndexView, g: Group) -> IndexView {
    match (g.prefix, g.attributes) {
        (Some(p), Some(ats)) => spec_apply_attributes(v, p@, ats@),
        _ => v,
    }
}

/// Indexes the groups of one document in order.
pub open spec fn spec_read_groups(v: IndexView, gs: Seq<Group>) -> IndexView
    decreases gs.len(),
{
    if gs.len() == 0 {
        v
    } else {
        spec_read_groups(spec_apply_group(v, gs.first()), gs.drop_first())
    }
}

impl SemanticConventions {
    /// Indexes the groups of one parsed convention document: for every
    /// attribute with an identifier in a group with a prefix, the
    /// namespaced name and all its dot-delimited ancestors are recorded,
    /// and the attribute is stored under the name — in the template map
    /// when its type tag marks it as a template, else in the attribute
    /// map, overwriting any earlier declaration of the same name.
    pub fn read_groups(&mut self, groups: Vec<Group>)
        requires
            old(self).wf(),
        ensures
            final (self).wf(),
            final (self)@ == spec_read_groups(old(self)@, groups@),
    {
        let ghost target = spec_read_groups(self@, groups@);
        let mut groups = groups;
        while groups.len() > 0
            invariant
                self.wf(),
                spec_read_groups(self@, groups@) == target,
            decreases groups@.len(),
        {
            let ghost gs0 = groups@;
            let ghost v0 = self@;
            let g = groups.remove(0);
            let ghost gsnap = g;
            proof {
                assert(gsnap == gs0.first());
                assert(groups@ =~= gs0.drop_first());
            }
            match (g.prefix, g.attributes) {
                (Some(prefix), Some(attributes)) => {
                    let ghost atarget = spec_apply_attributes(self@, prefix@, attributes@);
                    let mut attributes = attributes;
                    while attributes.len() > 0
                        invariant
                            self.wf(),
                            spec_apply_attributes(self@, prefix@, attributes@) == atarget,
                        decreases attributes@.len(),
                    {
                        let ghost as0 = attributes@;
                        let ghost v1 = self@;
                        let attribute = attributes.remove(0);
                        let ghost asnap = attribute;
                        proof {
                            assert(asnap == as0.first());
                            assert(attributes@ =~= as0.drop_first());
                        }
                        let is_templ = attribute.is_template();
                        if let Some(id) = &attribute.id {
                            let mut name = prefix.clone();
                            name.push('.');
                            name.append(id.as_str());
                            proof {
                                assert(name@ =~= spec_full_name(prefix@, id@));
                            }
                            self.insert_prefixes(name.as_str());
                            if is_templ {
                                self.insert_template(name, Some(attribute));
                            } else {
                                self.insert_attribute(name, Some(attribute));
                            }
                            proof {
                                assert(self@ =~= spec_apply_attribute(v1, prefix@, asnap));
                            }
                        } else {
                            proof {
                                assert(self@ =~= spec_apply_attribute(v1, prefix@, asnap));
                            }
                        }
                    }
                    proof {
                        assert(self@ == spec_apply_group(v0, gsnap));
                    }
                },
                _ => {
                    proof {
                        assert(self@ == spec_apply_group(v0, gsnap));
                    }
                },
            }
        }
    }
}

} // verus!
