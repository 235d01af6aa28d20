//! The convention data model: one declared attribute with its type, the
//! enumerated members of a complex type, and the groups a convention
//! document is made of. Also the variant validator for enumerated
//! attributes.
use crate::strings::{
    contains_str, contains_string, i64_to_dec_string, spec_dec_int, spec_starts_with, spec_trim,
    str_starts_with, strs_view, trim_to_string,
};
use vstd::prelude::*;

verus! {

/// One enumerated value of a complex attribute: textual or integral,
/// compared by its textual rendering.
#[derive(Debug, Clone)]
pub enum MemberValue {
    StringType(String),
    IntegerType(i64),
}

impl MemberValue {
    /// The textual rendering of the value.
    pub open spec fn spec_text(self) -> Seq<char> {
        match self {
            MemberValue::StringType(s) => s@,
            MemberValue::IntegerType(i) => spec_dec_int(i as int),
        }
    }

    /// Renders the value as text: the string itself, or the integer in
    /// decimal.
    pub fn to_text(&self) -> (r: String)
        ensures
            r@ == self.spec_text(),
    {
        match self {
            MemberValue::StringType(s) => s.clone(),
            MemberValue::IntegerType(i) => i64_to_dec_string(*i),
        }
    }
}

/// One member of a complex attribute's value set.
#[derive(Debug, Clone)]
pub struct Member {
    pub value: MemberValue,
}

/// An enumerated attribute type: its member set and whether values outside
/// it are tolerated.
#[derive(Debug, Clone)]
pub struct ComplexType {
    pub allow_custom_values: bool,
    pub members: Vec<Member>,
}

/// The trimmed textual renderings of the members, in declaration order.
pub open spec fn spec_simple_variants(members: Seq<Member>) -> Seq<Seq<char>> {
    members.map_values(|m: Member| spec_trim(m.value.spec_text()))
}

/// The observed values whose trimmed form is not among the defined
/// variants, in observation order.
pub open spec fn spec_undefined_variants(defined: Seq<Seq<char>>, observed: Seq<Seq<char>>) -> Seq<
    Seq<char>,
>
    decreases observed.len(),
{
    if observed.len() == 0 {
        Seq::empty()
    } else {
        let rest = spec_undefined_variants(defined, observed.drop_last());
        if contains_str(defined, spec_trim(observed.last())) {
            rest
        } else {
            rest.push(observed.last())
        }
    }
}

impl ComplexType {
    /// The members rendered to text and trimmed, in declaration order.
    pub fn get_simple_variants(&self) -> (r: Vec<String>)
        ensures
            strs_view(r@) == spec_simple_variants(self.members@),
    {
        let mut r: Vec<String> = Vec::new();
        let mut i: usize = 0;
        while i < self.members.len()
            invariant
                i <= self.members@.len(),
                strs_view(r@) =~= spec_simple_variants(self.members@).take(i as int),
            decreases self.members@.len() - i,
        {
            let text = self.members[i].value.to_text();
            r.push(trim_to_string(text.as_str()));
            i += 1;
            proof {
                let all = spec_simple_variants(self.members@);
                assert(all[i - 1] == spec_trim(self.members@[i - 1].value.spec_text()));
                assert(all.take(i as int) =~= all.take(i - 1).push(all[i - 1]));
                assert(strs_view(r@) =~= strs_view(r@.drop_last()).push(r@.last()@));
            }
        }
        proof {
            assert(spec_simple_variants(self.members@).take(self.members@.len() as int)
                =~= spec_simple_variants(self.members@));
        }
        r
    }

    /// Every observed value whose trimmed textual form is not a defined
    /// member variant, in observation order; empty when the observed set is
    /// covered by the member set.
    pub fn undefined_variants(&self, observed: &Vec<String>) -> (r: Vec<String>)
        ensures
            strs_view(r@) == spec_undefined_variants(
                spec_simple_variants(self.members@),
                strs_view(observed@),
            ),
    {
        let defined = self.get_simple_variants();
        let mut r: Vec<String> = Vec::new();
        let mut i: usize = 0;
        while i < observed.len()
            invariant
                i <= observed@.len(),
                strs_view(defined@) == spec_simple_variants(self.members@),
                strs_view(r@) =~= spec_undefined_variants(
                    strs_view(defined@),
                    strs_view(observed@).take(i as int),
                ),
            decreases observed@.len() - i,
        {
            let trimmed = trim_to_string(observed[i].as_str());
            if !contains_string(&defined, trimmed.as_str()) {
                r.push(observed[i].clone());
                proof {
                    assert(strs_view(r@) =~= strs_view(r@.drop_last()).push(r@.last()@));
                }
            }
            i += 1;
            proof {
                let obs = strs_view(observed@);
                assert(obs.take(i as int).drop_last() =~= obs.take(i - 1));
                assert(obs.take(i as int).last() == observed@[i - 1]@);
            }
        }
        proof {
            assert(strs_view(observed@).take(observed@.len() as int) =~= strs_view(observed@));
        }
        r
    }
}

/// The type of a declared attribute: a simple type tag, or an enumerated
/// complex type.
#[derive(Debug, Clone)]
pub enum Type {
    Simple(String),
    Complex(ComplexType),
}

/// One declared convention entry.
#[derive(Debug, Clone)]
pub struct Attribute {
    pub id: Option<String>,
    pub attr_type: Option<Type>,
    pub deprecated: Option<String>,
}

/// Whether the attribute is a template: a simple type tag beginning with
/// the literal marker `template`.
pub open spec fn spec_is_template(a: Attribute) -> bool {
    match a.attr_type {
        Some(Type::Simple(t)) => spec_starts_with(t@, "template"@),
        _ => false,
    }
}

impl Attribute {
    /// Whether the final name segment is caller-supplied rather than fixed.
    pub fn is_template(&self) -> (r: bool)
        ensures
            r == spec_is_template(*self),
    {
        match &self.attr_type {
            Some(Type::Simple(t)) => str_starts_with(t.as_str(), "template"),
            _ => false,
        }
    }
}

/// One namespace group of a convention document: an optional prefix and an
/// optional list of attribute declarations.
#[derive(Debug, Clone)]
pub struct Group {
    pub prefix: Option<String>,
    pub attributes: Option<Vec<Attribute>>,
}

} // verus!
