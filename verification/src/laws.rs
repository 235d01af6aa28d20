//! The library's general guarantees, stated and proved over the
//! specification values that the functions' contracts use.
use crate::classify::{
    spec_best_cut, spec_contains_uppercase, spec_rfind_dot, spec_similar, spec_suggestion,
};
use crate::convention::{spec_undefined_variants, Attribute, Group};
use crate::index::{
    map_has_key, map_value_of, spec_apply_attribute, spec_apply_attributes, spec_apply_group,
    spec_insert_prefixes, spec_read_groups, IndexView,
};
use crate::strings::{contains_str, spec_contains_char, spec_trim};
use crate::suggestion::{CommentView, SuggestionView};
use vstd::prelude::*;

verus! {

/// Law: a name listed in the attribute map whose entry carries no
/// deprecation reason — with metadata or without — classifies as matching.
pub proof fn lemma_listed_name_matches(v: IndexView, n: Seq<char>)
    requires
        map_has_key(v.attribute_map, n),
        match map_value_of(v.attribute_map, n) {
            Some(a) => a.deprecated is None,
            None => true,
        },
    ensures
        spec_suggestion(v, n) == SuggestionView::Matching,
{
}

/// Law: a name listed in the attribute map with a deprecation reason
/// classifies as bad, with the deprecation comment as the only comment.
pub proof fn lemma_deprecated_name_is_bad(v: IndexView, n: Seq<char>, reason: Seq<char>)
    requires
        map_has_key(v.attribute_map, n),
        match map_value_of(v.attribute_map, n) {
            Some(a) => match a.deprecated {
                Some(d) => d@ == reason,
                None => false,
            },
            None => false,
        },
    ensures
        spec_suggestion(v, n) == SuggestionView::Bad(seq![CommentView::Deprecated(reason)]),
{
}

/// A name without a dot has no dot to find.
proof fn lemma_rfind_dot_none(s: Seq<char>, i: int)
    requires
        0 <= i <= s.len(),
        !spec_contains_char(s, '.'),
    ensures
        spec_rfind_dot(s, i) is None,
    decreases i,
{
    if i > 0 {
        assert(s[i - 1] != '.');
        lemma_rfind_dot_none(s, i - 1);
    }
}

/// A name without a dot extends no namespace.
proof fn lemma_best_cut_none(ss: Seq<Seq<char>>, s: Seq<char>, i: int)
    requires
        0 <= i <= s.len(),
        !spec_contains_char(s, '.'),
    ensures
        spec_best_cut(ss, s, i) is None,
    decreases i,
{
    if i > 0 {
        assert(s[i - 1] != '.');
        lemma_best_cut_none(ss, s, i - 1);
    }
}

/// Law: a name with a capital letter and no dot that is not listed in the
/// attribute map classifies as bad, with both the wrong-case and the
/// missing-namespace comments among its comments.
pub proof fn lemma_uppercase_without_namespace_is_bad(v: IndexView, n: Seq<char>)
    requires
        spec_contains_uppercase(n),
        !spec_contains_char(n, '.'),
        !map_has_key(v.attribute_map, n),
    ensures
        spec_suggestion(v, n) is Bad,
        spec_suggestion(v, n)->Bad_0.contains(CommentView::WrongCase),
        spec_suggestion(v, n)->Bad_0.contains(CommentView::NoNamespace),
{
    lemma_rfind_dot_none(n, n.len() as int);
    lemma_best_cut_none(v.prefixes, n, n.len() as int);
    let cs = spec_suggestion(v, n)->Bad_0;
    assert(cs[0] == CommentView::WrongCase);
    assert(cs[1] == CommentView::NoNamespace);
}

/// Law: a name with no dot and no capital letter that is not listed in the
/// attribute map classifies as bad with exactly the missing-namespace
/// comment, followed by the similar-names comment when similar names
/// exist; no namespace-extension comment can apply.
pub proof fn lemma_unlisted_plain_name_is_bad(v: IndexView, n: Seq<char>)
    requires
        !spec_contains_uppercase(n),
        !spec_contains_char(n, '.'),
        !map_has_key(v.attribute_map, n),
    ensures
        spec_suggestion(v, n) == SuggestionView::Bad(
            seq![CommentView::NoNamespace] + (if spec_similar(v, n).len() > 0 {
                seq![CommentView::Similar(spec_similar(v, n))]
            } else {
                Seq::<CommentView>::empty()
            }),
        ),
{
    lemma_rfind_dot_none(n, n.len() as int);
    lemma_best_cut_none(v.prefixes, n, n.len() as int);
    let cs = spec_suggestion(v, n)->Bad_0;
    assert(cs =~= seq![CommentView::NoNamespace] + (if spec_similar(v, n).len() > 0 {
        seq![CommentView::Similar(spec_similar(v, n))]
    } else {
        Seq::<CommentView>::empty()
    }));
}

/// Law: classification is a pure function of the index and the name — two
/// verdicts obtained for the same name against the same index are
/// identical.
pub proof fn lemma_classify_deterministic(
    v: IndexView,
    n: Seq<char>,
    r1: SuggestionView,
    r2: SuggestionView,
)
    requires
        r1 == spec_suggestion(v, n),
        r2 == spec_suggestion(v, n),
    ensures
        r1 == r2,
{
}

/// A prefix set that holds the name and the cut before each of its dots.
pub open spec fn namespace_closed(ss: Seq<Seq<char>>, k: Seq<char>) -> bool {
    contains_str(ss, k) && forall|j: int|
        0 <= j < k.len() && k[j] == '.' ==> contains_str(ss, k.take(j))
}

/// Pointwise containment of string sets.
pub open spec fn str_subset(a: Seq<Seq<char>>, b: Seq<Seq<char>>) -> bool {
    forall|x: Seq<char>| contains_str(a, x) ==> contains_str(b, x)
}

/// Prefix insertion only adds strings.
proof fn lemma_insert_prefixes_monotone(ss: Seq<Seq<char>>, n: Seq<char>)
    ensures
        str_subset(ss, spec_insert_prefixes(ss, n)),
{
    assert forall|x: Seq<char>| contains_str(ss, x) implies contains_str(
        spec_insert_prefixes(ss, n),
        x,
    ) by {
        crate::index::lemma_insert_prefixes_membership(ss, n, x);
    }
}

/// Prefix insertion establishes namespace closure for the inserted name.
proof fn lemma_insert_prefixes_closed(ss: Seq<Seq<char>>, n: Seq<char>)
    ensures
        namespace_closed(spec_insert_prefixes(ss, n), n),
{
    crate::index::lemma_insert_prefixes_membership(ss, n, n);
    assert forall|j: int| 0 <= j < n.len() && n[j] == '.' implies contains_str(
        spec_insert_prefixes(ss, n),
        n.take(j),
    ) by {
        crate::index::lemma_insert_prefixes_membership(ss, n, n.take(j));
    }
}

/// Indexing one attribute only adds prefixes.
proof fn lemma_apply_attribute_monotone(v: IndexView, p: Seq<char>, a: Attribute)
    ensures
        str_subset(v.prefixes, spec_apply_attribute(v, p, a).prefixes),
{
    match a.id {
        None => {
        },
        Some(id) => {
            lemma_insert_prefixes_monotone(v.prefixes, crate::index::spec_full_name(p, id@));
        },
    }
}

/// Indexing a list of attributes only adds prefixes.
proof fn lemma_apply_attributes_monotone(
    v: IndexView,
    p: Seq<char>,
    attrs: Seq<Attribute>,
)
    ensures
        str_subset(v.prefixes, spec_apply_attributes(v, p, attrs).prefixes),
    decreases attrs.len(),
{
    if attrs.len() > 0 {
        lemma_apply_attribute_monotone(v, p, attrs.first());
        lemma_apply_attributes_monotone(spec_apply_attribute(v, p, attrs.first()), p,
        attrs.drop_first());
    }
}

/// Indexing a list of groups only adds prefixes.
proof fn lemma_read_groups_monotone(v: IndexView, gs: Seq<Group>)
    ensures
        str_subset(v.prefixes, spec_read_groups(v, gs).prefixes),
    decreases gs.len(),
{
    if gs.len() > 0 {
        let g = gs.first();
        match (g.prefix, g.attributes) {
            (Some(p), Some(ats)) => {
                lemma_apply_attributes_monotone(v, p@, ats@);
            },
            _ => {
            },
        }
        lemma_read_groups_monotone(spec_apply_group(v, g), gs.drop_first());
    }
}

/// A key newly indexed by one attribute has its namespace ancestors in the
/// prefixes.
proof fn lemma_apply_attribute_closed(
    v: IndexView,
    p: Seq<char>,
    a: Attribute,
    k: Seq<char>,
)
    requires
        crate::index::distinct_keys(v.attribute_map),
        crate::index::distinct_keys(v.templates),
        ({
            let v2 = spec_apply_attribute(v, p, a);
            (map_has_key(v2.attribute_map, k) && !map_has_key(v.attribute_map, k)) || (map_has_key(
                v2.templates,
                k,
            ) && !map_has_key(v.templates, k))
        }),
    ensures
        namespace_closed(spec_apply_attribute(v, p, a).prefixes, k),
{
    match a.id {
        None => {
        },
        Some(id) => {
            let n = crate::index::spec_full_name(p, id@);
            if crate::convention::spec_is_template(a) {
                crate::index::lemma_map_insert(v.templates, n, Some(a));
            } else {
                crate::index::lemma_map_insert(v.attribute_map, n, Some(a));
            }
            assert(k == n);
            lemma_insert_prefixes_closed(v.prefixes, n);
        },
    }
}

/// Indexing keeps the maps' keys unique.
proof fn lemma_apply_attribute_distinct(v: IndexView, p: Seq<char>, a: Attribute)
    requires
        crate::index::distinct_keys(v.attribute_map),
        crate::index::distinct_keys(v.templates),
    ensures
        crate::index::distinct_keys(spec_apply_attribute(v, p, a).attribute_map),
        crate::index::distinct_keys(spec_apply_attribute(v, p, a).templates),
{
    match a.id {
        None => {
        },
        Some(id) => {
            let n = crate::index::spec_full_name(p, id@);
            crate::index::lemma_map_insert(v.templates, n, Some(a));
            crate::index::lemma_map_insert(v.attribute_map, n, Some(a));
        },
    }
}

/// A key newly indexed by a list of attributes has its namespace ancestors
/// in the resulting prefixes.
proof fn lemma_apply_attributes_closed(
    v: IndexView,
    p: Seq<char>,
    attrs: Seq<Attribute>,
    k: Seq<char>,
)
    requires
        crate::index::distinct_keys(v.attribute_map),
        crate::index::distinct_keys(v.templates),
        ({
            let v2 = spec_apply_attributes(v, p, attrs);
            (map_has_key(v2.attribute_map, k) && !map_has_key(v.attribute_map, k)) || (map_has_key(
                v2.templates,
                k,
            ) && !map_has_key(v.templates, k))
        }),
    ensures
        namespace_closed(spec_apply_attributes(v, p, attrs).prefixes, k),
    decreases attrs.len(),
{
    if attrs.len() > 0 {
        let a = attrs.first();
        let v1 = spec_apply_attribute(v, p, a);
        let v2 = spec_apply_attributes(v1, p, attrs.drop_first());
        lemma_apply_attribute_distinct(v, p, a);
        if (map_has_key(v1.attribute_map, k) && !map_has_key(v.attribute_map, k)) || (map_has_key(
            v1.templates,
            k,
        ) && !map_has_key(v.templates, k)) {
            lemma_apply_attribute_closed(v, p, a, k);
            lemma_apply_attributes_monotone(v1, p, attrs.drop_first());
        } else {
            lemma_apply_attributes_closed(v1, p, attrs.drop_first(), k);
        }
    }
}

/// Indexing a list of attributes keeps the maps' keys unique.
proof fn lemma_apply_attributes_distinct(
    v: IndexView,
    p: Seq<char>,
    attrs: Seq<Attribute>,
)
    requires
        crate::index::distinct_keys(v.attribute_map),
        crate::index::distinct_keys(v.templates),
    ensures
        crate::index::distinct_keys(spec_apply_attributes(v, p, attrs).attribute_map),
        crate::index::distinct_keys(spec_apply_attributes(v, p, attrs).templates),
    decreases attrs.len(),
{
    if attrs.len() > 0 {
        lemma_apply_attribute_distinct(v, p, attrs.first());
        lemma_apply_attributes_distinct(spec_apply_attribute(v, p, attrs.first()), p,
        attrs.drop_first());
    }
}

/// Law: every key that indexing a list of convention groups adds to the
/// attribute map or the template map has the cut before each of its dots,
/// and the key itself, in the resulting prefix set.
pub proof fn lemma_prefix_closure(v: IndexView, gs: Seq<Group>, k: Seq<char>)
    requires
        crate::index::distinct_keys(v.attribute_map),
        crate::index::distinct_keys(v.templates),
        ({
            let v2 = spec_read_groups(v, gs);
            (map_has_key(v2.attribute_map, k) && !map_has_key(v.attribute_map, k)) || (map_has_key(
                v2.templates,
                k,
            ) && !map_has_key(v.templates, k))
        }),
    ensures
        namespace_closed(spec_read_groups(v, gs).prefixes, k),
    decreases gs.len(),
{
    if gs.len() > 0 {
        let g = gs.first();
        let v1 = spec_apply_group(v, g);
        match (g.prefix, g.attributes) {
            (Some(p), Some(ats)) => {
                lemma_apply_attributes_distinct(v, p@, ats@);
                if (map_has_key(v1.attribute_map, k) && !map_has_key(v.attribute_map, k)) || (
                map_has_key(v1.templates, k) && !map_has_key(v.templates, k)) {
                    lemma_apply_attributes_closed(v, p@, ats@, k);
                    lemma_read_groups_monotone(v1, gs.drop_first());
                } else {
                    lemma_prefix_closure(v1, gs.drop_first(), k);
                }
            },
            _ => {
                lemma_prefix_closure(v1, gs.drop_first(), k);
            },
        }
    }
}

/// Law: when every observed value's trimmed textual form is a defined
/// member variant — in particular when the observed set is exactly the
/// defined member set — the undefined-variant list is empty.
pub proof fn lemma_variant_round_trip(defined: Seq<Seq<char>>, observed: Seq<Seq<char>>)
    requires
        forall|i: int| 0 <= i < observed.len() ==> contains_str(defined, spec_trim(observed[i])),
    ensures
        spec_undefined_variants(defined, observed) == Seq::<Seq<char>>::empty(),
    decreases observed.len(),
{
    if observed.len() > 0 {
        lemma_variant_round_trip(defined, observed.drop_last());
    }
}


/// Law: the namespace-extension scan is a longest-match: a cut it returns
/// lies at a dot and is a known prefix, every longer cut at a dot is not a
/// known prefix, and when it returns nothing, no cut at a dot is a known
/// prefix.
pub proof fn lemma_best_cut_is_longest(ss: Seq<Seq<char>>, s: Seq<char>, i: int)
    requires
        0 <= i <= s.len(),
    ensures
        match spec_best_cut(ss, s, i) {
            Some(c) => 0 <= c < i && s[c] == '.' && contains_str(ss, s.take(c)) && forall|j: int|
                c < j < i && s[j] == '.' ==> !contains_str(ss, s.take(j)),
            None => forall|j: int| 0 <= j < i && s[j] == '.' ==> !contains_str(ss, s.take(j)),
        },
    decreases i,
{
    if i > 0 {
        if s[i - 1] == '.' && contains_str(ss, s.take(i - 1)) {
        } else {
            lemma_best_cut_is_longest(ss, s, i - 1);
        }
    }
}

} // verus!
