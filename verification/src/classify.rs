//! The suggestion classifier: given one observed name and the completed
//! index, produce a verdict. Exact matches and template matches answer
//! directly (deprecation makes them bad); otherwise heuristic comments are
//! collected in a fixed order: case, namespace extension, missing
//! namespace, similar known names.
use crate::convention::{Attribute, ComplexType, Type};
use crate::index::{
    map_has_key, map_value_of, IndexView, SemanticConventions,
};
use crate::strings::{contains_str, spec_contains_char, strs_view};
use crate::suggestion::{comments_view, CommentView, Suggestion, SuggestionComment, SuggestionView};
use vstd::prelude::*;
use vstd::string::StrSliceExecFns;
use vstd::string::StringExecFns;

verus! {

/// Whether the character is an ASCII capital letter.
pub open spec fn spec_is_ascii_uppercase(c: char) -> bool {
    65 <= c as u32 && c as u32 <= 90
}

/// Whether any character of the name is an ASCII capital letter.
pub open spec fn spec_contains_uppercase(s: Seq<char>) -> bool {
    exists|i: int| 0 <= i < s.len() && spec_is_ascii_uppercase(s[i])
}

/// The largest dot position `j < i` such that the cut before it is a known
/// prefix; scanning right to left.
pub open spec fn spec_best_cut(ss: Seq<Seq<char>>, s: Seq<char>, i: int) -> Option<int>
    decreases i,
{
    if i <= 0 {
        None
    } else if s[i - 1] == '.' && contains_str(ss, s.take(i - 1)) {
        Some(i - 1)
    } else {
        spec_best_cut(ss, s, i - 1)
    }
}

/// The longest known namespace that the name strictly extends at a dot.
pub open spec fn spec_prefix_exists(ss: Seq<Seq<char>>, s: Seq<char>) -> Option<Seq<char>> {
    match spec_best_cut(ss, s, s.len() as int) {
        Some(i) => Some(s.take(i)),
        None => None,
    }
}

/// The largest dot position below `i`, scanning right to left.
pub open spec fn spec_rfind_dot(s: Seq<char>, i: int) -> Option<int>
    decreases i,
{
    if i <= 0 {
        None
    } else if s[i - 1] == '.' {
        Some(i - 1)
    } else {
        spec_rfind_dot(s, i - 1)
    }
}

/// The part of the name before its last dot, if it has one.
pub open spec fn spec_template_prefix(s: Seq<char>) -> Option<Seq<char>> {
    match spec_rfind_dot(s, s.len() as int) {
        Some(i) => Some(s.take(i)),
        None => None,
    }
}

/// The template attribute the name falls under: the name's part before its
/// last dot must be a registered template prefix carrying an attribute.
pub open spec fn spec_matches_template(v: IndexView, name: Seq<char>) -> Option<Attribute> {
    match spec_template_prefix(name) {
        Some(p) => if map_has_key(v.templates, p) {
            map_value_of(v.templates, p)
        } else {
            None
        },
        None => None,
    }
}

/// Whether the Jaro similarity of the two strings is strictly above the
/// classifier's fixed threshold of eighty-five hundredths. The similarity
/// is a function of the two character sequences alone.
pub uninterp spec fn jaro_similar(a: Seq<char>, b: Seq<char>) -> bool;

/// Relies on `strsim::jaro`: a pure function of the two strings' characters
/// returning their Jaro similarity, a non-negative double between zero and
/// one. This wrapper reports whether that similarity is strictly above the
/// classifier's threshold of eighty-five hundredths. The comparison is made
/// on the raw bit representation, which orders non-negative doubles exactly
/// as their values; the constant is the bit representation of the
/// threshold.
#[verifier::external_body]
fn jaro_above_threshold(a: &str, b: &str) -> (r: bool)
    ensures
        r == jaro_similar(a@, b@),
{
    strsim::jaro(a, b).to_bits() > 0x3feb333333333333u64
}

/// Whether the pair takes part in the similarity scan: its attribute must
/// not be deprecated (pairs without metadata take part), and its key must
/// be similar to the input.
pub open spec fn sim_candidate(e: (Seq<char>, Option<Attribute>), input: Seq<char>) -> bool {
    (match e.1 {
        Some(a) => a.deprecated is None,
        None => true,
    }) && jaro_similar(input, e.0)
}

/// The keys of the candidate pairs, in map order.
pub open spec fn spec_similar_keys(
    es: Seq<(Seq<char>, Option<Attribute>)>,
    input: Seq<char>,
) -> Seq<Seq<char>>
    decreases es.len(),
{
    if es.len() == 0 {
        Seq::empty()
    } else {
        let rest = spec_similar_keys(es.drop_last(), input);
        if sim_candidate(es.last(), input) {
            rest.push(es.last().0)
        } else {
            rest
        }
    }
}

/// All keys similar to the input: attribute-map keys first, then template
/// keys, each set in map order.
pub open spec fn spec_similar(v: IndexView, input: Seq<char>) -> Seq<Seq<char>> {
    spec_similar_keys(v.attribute_map, input) + spec_similar_keys(v.templates, input)
}

/// The heuristic comments for a name with no exact and no template match,
/// in evaluation order: case, namespace extension, missing namespace,
/// similar names.
pub open spec fn spec_heuristic_comments(v: IndexView, name: Seq<char>) -> Seq<CommentView> {
    (if spec_contains_uppercase(name) {
        seq![CommentView::WrongCase]
    } else {
        Seq::<CommentView>::empty()
    }) + (match spec_prefix_exists(v.prefixes, name) {
        Some(p) => seq![CommentView::Extends(p)],
        None => Seq::<CommentView>::empty(),
    }) + (if !spec_contains_char(name, '.') {
        seq![CommentView::NoNamespace]
    } else {
        Seq::<CommentView>::empty()
    }) + (if spec_similar(v, name).len() > 0 {
        seq![CommentView::Similar(spec_similar(v, name))]
    } else {
        Seq::<CommentView>::empty()
    })
}

/// The verdict for one observed name against the index: an exact match
/// answers first, then a template match — deprecation turning either into a
/// bad verdict carrying the reason — and otherwise the heuristic comments
/// decide, a case violation or a missing namespace forcing a bad verdict.
pub open spec fn spec_suggestion(v: IndexView, name: Seq<char>) -> SuggestionView {
    if map_has_key(v.attribute_map, name) {
        match map_value_of(v.attribute_map, name) {
            Some(a) => match a.deprecated {
                Some(d) => SuggestionView::Bad(seq![CommentView::Deprecated(d@)]),
                None => SuggestionView::Matching,
            },
            None => SuggestionView::Matching,
        }
    } else {
        match spec_matches_template(v, name) {
            Some(a) => match a.deprecated {
                Some(d) => SuggestionView::Bad(seq![CommentView::Deprecated(d@)]),
                None => SuggestionView::Matching,
            },
            None => {
                if spec_contains_uppercase(name) || !spec_contains_char(name, '.') {
                    SuggestionView::Bad(spec_heuristic_comments(v, name))
                } else {
                    SuggestionView::Missing(spec_heuristic_comments(v, name))
                }
            },
        }
    }
}

impl SemanticConventions {
    /// Whether the name holds any ASCII capital letter.
    pub fn contains_uppercase(input: &str) -> (r: bool)
        ensures
            r == spec_contains_uppercase(input@),
    {
        let len = input.unicode_len();
        let mut i: usize = 0;
        while i < len
            invariant
                i <= len,
                len == input@.len(),
                forall|j: int| 0 <= j < i ==> !spec_is_ascii_uppercase(input@[j]),
            decreases len - i,
        {
            let u = input.get_char(i) as u32;
            if 65 <= u && u <= 90 {
                return true;
            }
            i += 1;
        }
        false
    }

    /// Whether the name is dot-delimited at all.
    pub fn has_namespace(&self, input: &str) -> (r: bool)
        ensures
            r == spec_contains_char(input@, '.'),
    {
        crate::strings::contains_char(input, '.')
    }

    /// Splits the name at each dot from the right and returns the longest
    /// cut that is a known namespace, if any.
    pub fn prefix_exists(&self, input: &str) -> (r: Option<String>)
        ensures
            match r {
                Some(p) => spec_prefix_exists(self@.prefixes, input@) == Some(p@),
                None => spec_prefix_exists(self@.prefixes, input@) is None,
            },
    {
        let len = input.unicode_len();
        let mut i: usize = len;
        while i > 0
            invariant
                i <= len,
                len == input@.len(),
                spec_best_cut(self@.prefixes, input@, len as int) == spec_best_cut(
                    self@.prefixes,
                    input@,
                    i as int,
                ),
            decreases i,
        {
            if input.get_char(i - 1) == '.' {
                let cut = input.substring_char(0, i - 1);
                proof {
                    assert(cut@ =~= input@.take(i - 1));
                }
                if self.contains_prefix(cut) {
                    return Some(cut.to_owned());
                }
            }
            i -= 1;
        }
        None
    }

    /// The template attribute the name falls under, if any: the part before
    /// the last dot must be a registered template prefix.
    pub fn matches_template<'a>(&'a self, name: &str) -> (r: Option<&'a Attribute>)
        requires
            self.wf(),
        ensures
            match r {
                Some(a) => spec_matches_template(self@, name@) == Some(*a),
                None => spec_matches_template(self@, name@) is None,
            },
    {
        let len = name.unicode_len();
        let mut i: usize = len;
        while i > 0
            invariant
                self.wf(),
                i <= len,
                len == name@.len(),
                spec_rfind_dot(name@, len as int) == spec_rfind_dot(name@, i as int),
            decreases i,
        {
            if name.get_char(i - 1) == '.' {
                let cut = name.substring_char(0, i - 1);
                proof {
                    assert(cut@ =~= name@.take(i - 1));
                }
                return match self.lookup_template(cut) {
                    Some(attribute) => attribute.as_ref(),
                    None => None,
                };
            }
            i -= 1;
        }
        None
    }

    /// Every non-deprecated key of the attribute map and the template map
    /// whose Jaro similarity to the input is above the threshold, in map
    /// order; nothing when no key qualifies.
    pub fn similar(&self, input: &str) -> (r: Option<Vec<String>>)
        ensures
            match r {
                Some(v) => strs_view(v@) == spec_similar(self@, input@) && v@.len() > 0,
                None => spec_similar(self@, input@).len() == 0,
            },
    {
        let ghost av = self@.attribute_map;
        let ghost tv = self@.templates;
        let mut sims: Vec<String> = Vec::new();
        let mut i: usize = 0;
        while i < self.attribute_map.len()
            invariant
                i <= self.attribute_map@.len(),
                av == self@.attribute_map,
                tv == self@.templates,
                strs_view(sims@) =~= spec_similar_keys(av.take(i as int), input@),
            decreases self.attribute_map@.len() - i,
        {
            let e = &self.attribute_map[i];
            proof {
                assert(av[i as int] == (self.attribute_map@[i as int].0@,
                self.attribute_map@[i as int].1));
            }
            let live = match &e.1 {
                Some(a) => a.deprecated.is_none(),
                None => true,
            };
            if live && jaro_above_threshold(input, e.0.as_str()) {
                sims.push(e.0.clone());
                proof {
                    assert(strs_view(sims@) =~= strs_view(sims@.drop_last()).push(sims@.last()@));
                }
            }
            i += 1;
            proof {
                assert(av.take(i as int).drop_last() =~= av.take(i - 1));
                assert(av.take(i as int).last() == av[i - 1]);
            }
        }
        proof {
            assert(av.take(self.attribute_map@.len() as int) =~= av);
        }
        let mut i: usize = 0;
        while i < self.templates.len()
            invariant
                i <= self.templates@.len(),
                av == self@.attribute_map,
                tv == self@.templates,
                strs_view(sims@) =~= spec_similar_keys(av, input@) + spec_similar_keys(
                    tv.take(i as int),
                    input@,
                ),
            decreases self.templates@.len() - i,
        {
            let e = &self.templates[i];
            proof {
                assert(tv[i as int] == (self.templates@[i as int].0@,
                self.templates@[i as int].1));
            }
            let live = match &e.1 {
                Some(a) => a.deprecated.is_none(),
                None => true,
            };
            if live && jaro_above_threshold(input, e.0.as_str()) {
                sims.push(e.0.clone());
                proof {
                    assert(strs_view(sims@) =~= strs_view(sims@.drop_last()).push(sims@.last()@));
                }
            }
            i += 1;
            proof {
                assert(tv.take(i as int).drop_last() =~= tv.take(i - 1));
                assert(tv.take(i as int).last() == tv[i - 1]);
                let pre = spec_similar_keys(tv.take(i - 1), input@);
                if sim_candidate(tv[i - 1], input@) {
                    assert(spec_similar_keys(av, input@) + pre.push(tv[i - 1].0)
                        =~= (spec_similar_keys(av, input@) + pre).push(tv[i - 1].0));
                }
            }
        }
        proof {
            assert(tv.take(self.templates@.len() as int) =~= tv);
        }
        if sims.len() == 0 {
            None
        } else {
            Some(sims)
        }
    }

    /// Given the observed attribute name, classify it and collect the
    /// improvement suggestions.
    pub fn get_suggestion(&self, name: &str) -> (r: Suggestion)
        requires
            self.wf(),
        ensures
            r@ == spec_suggestion(self@, name@),
    {
        match self.lookup_attribute(name) {
            Some(attribute) => {
                match attribute {
                    Some(a) => match &a.deprecated {
                        Some(d) => {
                            let r = Suggestion::Bad(
                                vec![SuggestionComment::Deprecated(d.clone())],
                            );
                            proof {
                                assert(r@->Bad_0 =~= seq![CommentView::Deprecated(d@)]);
                            }
                            r
                        },
                        None => Suggestion::Matching,
                    },
                    None => Suggestion::Matching,
                }
            },
            None => {
                match self.matches_template(name) {
                    Some(a) => match &a.deprecated {
                        Some(d) => {
                            let r = Suggestion::Bad(
                                vec![SuggestionComment::Deprecated(d.clone())],
                            );
                            proof {
                                assert(r@->Bad_0 =~= seq![CommentView::Deprecated(d@)]);
                            }
                            r
                        },
                        None => Suggestion::Matching,
                    },
                    None => self.heuristic_suggestion(name),
                }
            },
        }
    }

    /// Collects the heuristic comments for a name with no exact and no
    /// template match and decides the verdict.
    fn heuristic_suggestion(&self, name: &str) -> (r: Suggestion)
        requires
            self.wf(),
            !map_has_key(self@.attribute_map, name@),
            spec_matches_template(self@, name@) is None,
        ensures
            r@ == spec_suggestion(self@, name@),
    {
        let ghost c1 = if spec_contains_uppercase(name@) {
            seq![CommentView::WrongCase]
        } else {
            Seq::<CommentView>::empty()
        };
        let ghost c2 = match spec_prefix_exists(self@.prefixes, name@) {
            Some(p) => seq![CommentView::Extends(p)],
            None => Seq::<CommentView>::empty(),
        };
        let ghost c3 = if !spec_contains_char(name@, '.') {
            seq![CommentView::NoNamespace]
        } else {
            Seq::<CommentView>::empty()
        };
        let ghost c4 = if spec_similar(self@, name@).len() > 0 {
            seq![CommentView::Similar(spec_similar(self@, name@))]
        } else {
            Seq::<CommentView>::empty()
        };
        let mut bad = false;
        let mut comments: Vec<SuggestionComment> = Vec::new();
        if Self::contains_uppercase(name) {
            comments.push(SuggestionComment::WrongCase);
            bad = true;
        }
        proof {
            assert(comments_view(comments@) =~= c1);
        }
        if let Some(s) = self.prefix_exists(name) {
            comments.push(SuggestionComment::Extends(s));
        }
        proof {
            assert(comments_view(comments@) =~= c1 + c2);
        }
        if !self.has_namespace(name) {
            comments.push(SuggestionComment::NoNamespace);
            bad = true;
        }
        proof {
            assert(comments_view(comments@) =~= c1 + c2 + c3);
        }
        if let Some(similar_names) = self.similar(name) {
            comments.push(SuggestionComment::Similar(similar_names));
        }
        proof {
            assert(comments_view(comments@) =~= c1 + c2 + c3 + c4);
            assert(comments_view(comments@) =~= spec_heuristic_comments(self@, name@));
            assert(bad == (spec_contains_uppercase(name@) || !spec_contains_char(name@, '.')));
        }
        if bad {
            Suggestion::Bad(comments)
        } else {
            Suggestion::Missing(comments)
        }
    }
}


/// The complex type declared for the exact name, if the name is known, has
/// metadata, and that metadata declares an enumerated type.
pub open spec fn spec_complex_type_of(v: IndexView, name: Seq<char>) -> Option<ComplexType> {
    if map_has_key(v.attribute_map, name) {
        match map_value_of(v.attribute_map, name) {
            Some(a) => match a.attr_type {
                Some(Type::Complex(ct)) => Some(ct),
                _ => None,
            },
            None => None,
        }
    } else {
        None
    }
}

impl SemanticConventions {
    /// The declared complex type of the exactly-known name, if any.
    pub fn complex_type_of<'a>(&'a self, name: &str) -> (r: Option<&'a ComplexType>)
        requires
            self.wf(),
        ensures
            match r {
                Some(ct) => spec_complex_type_of(self@, name@) == Some(*ct),
                None => spec_complex_type_of(self@, name@) is None,
            },
    {
        match self.lookup_attribute(name) {
            Some(Some(a)) => match &a.attr_type {
                Some(Type::Complex(ct)) => Some(ct),
                _ => None,
            },
            _ => None,
        }
    }

    /// Variant checking applies only to a name that already classifies as
    /// matching and whose attribute declares a complex type; this returns
    /// that type exactly in that case.
    pub fn enum_candidate<'a>(&'a self, name: &str, suggestion: &Suggestion) -> (r: Option<
        &'a ComplexType,
    >)
        requires
            self.wf(),
        ensures
            match r {
                Some(ct) => suggestion@ is Matching && spec_complex_type_of(self@, name@) == Some(
                    *ct,
                ),
                None => !(suggestion@ is Matching) || spec_complex_type_of(self@, name@) is None,
            },
    {
        match suggestion {
            Suggestion::Matching => self.complex_type_of(name),
            _ => None,
        }
    }
}

} // verus!
