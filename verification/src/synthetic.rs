//! The integer side of sampling synthetic student origins around a school.
use vstd::prelude::*;
use crate::text::{prefixed_number, spec_decimal, str_eq};

verus! {


/// Street types next to which synthetic students are placed.
pub open spec fn spec_is_residential(hw: Seq<char>) -> bool {
    hw == "residential"@ || hw == "living_street"@ || hw == "unclassified"@ || hw == "tertiary"@
        || hw == "cycleway"@ || hw == "path"@
}

/// Synthetic students live along exactly six street types: residential,
/// living_street, unclassified, tertiary, cycleway and path; main roads and
/// link roads do not count.
pub proof fn lemma_residential_types(hw: Seq<char>)
    ensures
        hw == "residential"@ ==> spec_is_residential(hw),
        hw == "living_street"@ ==> spec_is_residential(hw),
        hw == "unclassified"@ ==> spec_is_residential(hw),
        hw == "tertiary"@ ==> spec_is_residential(hw),
        hw == "cycleway"@ ==> spec_is_residential(hw),
        hw == "path"@ ==> spec_is_residential(hw),
        spec_is_residential(hw) ==> hw == "residential"@ || hw == "living_street"@ || hw
            == "unclassified"@ || hw == "tertiary"@ || hw == "cycleway"@ || hw == "path"@,
        hw == "primary"@ || hw == "tertiary_link"@ ==> !spec_is_residential(hw),
{
    broadcast use vstd::string::group_string_axioms;

    reveal_strlit("residential");
    reveal_strlit("living_street");
    reveal_strlit("unclassified");
    reveal_strlit("tertiary");
    reveal_strlit("cycleway");
    reveal_strlit("path");
    reveal_strlit("primary");
    reveal_strlit("tertiary_link");
    assert("primary"@.len() != "residential"@.len() && "primary"@.len() != "living_street"@.len()
        && "primary"@.len() != "unclassified"@.len() && "primary"@.len() != "tertiary"@.len()
        && "primary"@.len() != "cycleway"@.len() && "primary"@.len() != "path"@.len());
    assert("tertiary_link"@.len() != "residential"@.len() && "tertiary_link"@[0]
        != "living_street"@[0] && "tertiary_link"@.len() != "unclassified"@.len()
        && "tertiary_link"@.len() != "tertiary"@.len() && "tertiary_link"@.len()
        != "cycleway"@.len() && "tertiary_link"@.len() != "path"@.len());
}

/// Whether a street of this `highway` type is residential or quiet enough to
/// start a synthetic origin from.
pub fn is_residential_highway(hw: &str) -> (r: bool)
    ensures
        r == spec_is_residential(hw@),
        hw@ == "residential"@ || hw@ == "living_street"@ || hw@ == "unclassified"@ || hw@
            == "tertiary"@ || hw@ == "cycleway"@ || hw@ == "path"@ <==> r,
{
    str_eq(hw, "residential") || str_eq(hw, "living_street") || str_eq(hw, "unclassified")
        || str_eq(hw, "tertiary") || str_eq(hw, "cycleway") || str_eq(hw, "path")
}

/// Number of origin clusters to sample: a third of the students, at least 10,
/// and never more than the eligible nodes.
pub fn synthetic_cluster_count(target_student_count: usize, eligible_nodes: usize) -> (n: usize)
    ensures
        n == if target_student_count / 3 >= 10 {
            if target_student_count / 3 <= eligible_nodes {
                target_student_count / 3
            } else {
                eligible_nodes
            }
        } else if 10 <= eligible_nodes {
            10
        } else {
            eligible_nodes
        },
        n <= eligible_nodes,
        eligible_nodes >= 10 ==> n >= 10,
{
    let third = target_student_count / 3;
    let at_least = if third >= 10 {
        third
    } else {
        10
    };
    if at_least <= eligible_nodes {
        at_least
    } else {
        eligible_nodes
    }
}

/// Id of the synthetic origin sampled at position `index`: `synthetic_` and `index + 1`.
pub fn synthetic_origin_id(index: usize) -> (s: String)
    requires
        index < usize::MAX,
    ensures
        s@ == "synthetic_"@ + spec_decimal((index + 1) as nat),
{
    prefixed_number("synthetic_", index + 1)
}

} // verus!
