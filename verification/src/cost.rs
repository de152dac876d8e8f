//! How a street is classified from its OSM tags, and the cycling quietness
//! score that the quiet routing profile is built on.
use vstd::prelude::*;
use crate::osm::{has_key, has_tag, opt_view, spec_tag, tag_is, tag_present, tag_value};
use crate::text::{first_token, spec_first_token, str_eq};

verus! {


/// Routing profile type
#[derive(Debug, Clone, Copy, PartialEq, Eq, Structural)]
pub enum RoutingProfile {
    Quiet,
    Fast,
}

impl Default for RoutingProfile {
    fn default() -> (r: Self)
        ensures
            r == RoutingProfile::Quiet,
    {
        RoutingProfile::Quiet
    }
}

/// Where a street's speed limit falls among the thresholds that change its
/// quietness score.
#[derive(Debug, Clone, Copy, PartialEq, Eq, Structural)]
pub enum SpeedBand {
    /// At most 20 km/h.
    UpTo20,
    /// Above 20 and at most 30 km/h.
    UpTo30,
    /// Between 30 and 50 km/h, or no usable limit: no adjustment.
    Neutral,
    /// At least 50 and below 60 km/h.
    From50,
    /// At least 60 km/h.
    From60,
}

/// The attributes of a street that follow from its tags alone.
pub struct TagClass {
    /// Value of `highway`, empty when the tag is absent.
    pub highway: String,
    pub name: Option<String>,
    pub surface: Option<String>,
    /// First word of `maxspeed` (the number, in `"30 mph"`).
    pub maxspeed_token: Option<String>,
    pub is_cycleway: bool,
    pub has_cycle_infra: bool,
    pub is_one_way: bool,
    pub bicycle_allowed: bool,
}

/// `highway` value, empty when absent.
pub open spec fn spec_highway(tags: Seq<(String, String)>) -> Seq<char> {
    match spec_tag(tags, "highway"@) {
        Some(h) => h,
        None => Seq::empty(),
    }
}

/// A dedicated cycleway: `highway=cycleway` or `bicycle=designated`.
pub open spec fn spec_is_cycleway(tags: Seq<(String, String)>) -> bool {
    spec_highway(tags) == "cycleway"@ || tag_is(tags, "bicycle"@, "designated"@)
}

/// Some cycle infrastructure: a cycleway, or any `cycleway`, `cycleway:left`,
/// `cycleway:right` or `cycleway:both` tag.
pub open spec fn spec_has_cycle_infra(tags: Seq<(String, String)>) -> bool {
    spec_is_cycleway(tags) || tag_present(tags, "cycleway"@) || tag_present(tags, "cycleway:left"@)
        || tag_present(tags, "cycleway:right"@) || tag_present(tags, "cycleway:both"@)
}

/// Whether bicycles may use the street.
pub open spec fn spec_bicycle_allowed(tags: Seq<(String, String)>) -> bool {
    let hw = spec_highway(tags);
    if tag_is(tags, "bicycle"@, "no"@) {
        false
    } else if tag_is(tags, "bicycle"@, "dismount"@) {
        true
    } else if hw == "motorway"@ || hw == "motorway_link"@ || hw == "trunk"@ || hw
        == "trunk_link"@ {
        spec_has_cycle_infra(tags)
    } else if hw == "corridor"@ || hw == "steps"@ || hw == "construction"@ || hw
        == "proposed"@ {
        false
    } else if hw == "footway"@ || hw == "pedestrian"@ {
        tag_is(tags, "bicycle"@, "yes"@) || tag_is(tags, "bicycle"@, "designated"@) || tag_is(
            tags,
            "bicycle"@,
            "permissive"@,
        )
    } else {
        true
    }
}

/// Whether bicycles may only ride the way in one direction.
pub open spec fn spec_is_one_way(tags: Seq<(String, String)>) -> bool {
    if tag_is(tags, "oneway"@, "yes"@) || tag_is(tags, "oneway"@, "1"@) || tag_is(
        tags,
        "oneway"@,
        "true"@,
    ) {
        !tag_is(tags, "oneway:bicycle"@, "no"@)
    } else {
        tag_is(tags, "oneway"@, "-1"@)
    }
}

/// First word of the `maxspeed` tag, if there is one.
pub open spec fn spec_maxspeed_token(tags: Seq<(String, String)>) -> Option<Seq<char>> {
    match spec_tag(tags, "maxspeed"@) {
        Some(v) => spec_first_token(v),
        None => None,
    }
}

/// Whether `hw` is one of the four given values.
fn is_one_of(hw: &str, a: &str, b: &str, c: &str, d: &str) -> (r: bool)
    ensures
        r == (hw@ == a@ || hw@ == b@ || hw@ == c@ || hw@ == d@),
{
    str_eq(hw, a) || str_eq(hw, b) || str_eq(hw, c) || str_eq(hw, d)
}

/// Classifies a street from its OSM tags.
pub fn classify_tags(tags: &Vec<(String, String)>) -> (c: TagClass)
    ensures
        c.highway@ == spec_highway(tags@),
        opt_view(c.name) == spec_tag(tags@, "name"@),
        opt_view(c.surface) == spec_tag(tags@, "surface"@),
        opt_view(c.maxspeed_token) == spec_maxspeed_token(tags@),
        c.is_cycleway == spec_is_cycleway(tags@),
        c.has_cycle_infra == spec_has_cycle_infra(tags@),
        c.bicycle_allowed == spec_bicycle_allowed(tags@),
        c.is_one_way == spec_is_one_way(tags@),
        tag_present(tags@, "cycleway"@) || tag_present(tags@, "cycleway:left"@) || tag_present(
            tags@,
            "cycleway:right"@,
        ) || tag_present(tags@, "cycleway:both"@) ==> c.has_cycle_infra,
        spec_highway(tags@) == "cycleway"@ || tag_is(tags@, "bicycle"@, "designated"@) ==> c.is_cycleway
            && c.has_cycle_infra,
        tag_is(tags@, "bicycle"@, "no"@) ==> !c.bicycle_allowed,
        tag_is(tags@, "bicycle"@, "dismount"@) ==> c.bicycle_allowed,
        (spec_highway(tags@) == "footway"@ || spec_highway(tags@) == "pedestrian"@) ==> (
        c.bicycle_allowed <==> (tag_is(tags@, "bicycle"@, "yes"@) || tag_is(
            tags@,
            "bicycle"@,
            "designated"@,
        ) || tag_is(tags@, "bicycle"@, "permissive"@) || tag_is(tags@, "bicycle"@, "dismount"@))),
        tag_is(tags@, "oneway"@, "-1"@) ==> c.is_one_way,
        !tag_present(tags@, "oneway"@) ==> !c.is_one_way,
{
    proof {
        lemma_bicycle_access(tags@);
        lemma_cycle_infrastructure(tags@);
        lemma_one_way(tags@);
    }
    let highway = match tag_value(tags, "highway") {
        Some(h) => h,
        None => String::new(),
    };
    let name = tag_value(tags, "name");
    let surface = tag_value(tags, "surface");
    let maxspeed_token = match tag_value(tags, "maxspeed") {
        Some(v) => first_token(v.as_str()),
        None => None,
    };
    let hw = highway.as_str();
    let is_cycleway = str_eq(hw, "cycleway") || has_tag(tags, "bicycle", "designated");
    let has_cycle_infra = is_cycleway || has_key(tags, "cycleway") || has_key(tags, "cycleway:left")
        || has_key(tags, "cycleway:right") || has_key(tags, "cycleway:both");
    let bicycle_allowed = if has_tag(tags, "bicycle", "no") {
        false
    } else if has_tag(tags, "bicycle", "dismount") {
        true
    } else if is_one_of(hw, "motorway", "motorway_link", "trunk", "trunk_link") {
        has_cycle_infra
    } else if is_one_of(hw, "corridor", "steps", "construction", "proposed") {
        false
    } else if str_eq(hw, "footway") || str_eq(hw, "pedestrian") {
        has_tag(tags, "bicycle", "yes") || has_tag(tags, "bicycle", "designated") || has_tag(
            tags,
            "bicycle",
            "permissive",
        )
    } else {
        true
    };
    let is_one_way = if has_tag(tags, "oneway", "yes") || has_tag(tags, "oneway", "1") || has_tag(
        tags,
        "oneway",
        "true",
    ) {
        !has_tag(tags, "oneway:bicycle", "no")
    } else {
        has_tag(tags, "oneway", "-1")
    };
    TagClass {
        highway,
        name,
        surface,
        maxspeed_token,
        is_cycleway,
        has_cycle_infra,
        is_one_way,
        bicycle_allowed,
    }
}

/// The street types and `bicycle` values that decide access are different words.
proof fn lemma_access_words_distinct()
    ensures
        "footway"@ != "pedestrian"@,
        "footway"@ != "corridor"@,
        "footway"@ != "steps"@,
        "footway"@ != "construction"@,
        "footway"@ != "proposed"@,
        "footway"@ != "motorway"@,
        "footway"@ != "motorway_link"@,
        "footway"@ != "trunk"@,
        "footway"@ != "trunk_link"@,
        "pedestrian"@ != "corridor"@,
        "pedestrian"@ != "steps"@,
        "pedestrian"@ != "construction"@,
        "pedestrian"@ != "proposed"@,
        "pedestrian"@ != "motorway"@,
        "pedestrian"@ != "motorway_link"@,
        "pedestrian"@ != "trunk"@,
        "pedestrian"@ != "trunk_link"@,
        "corridor"@ != "steps"@,
        "corridor"@ != "construction"@,
        "corridor"@ != "proposed"@,
        "corridor"@ != "motorway"@,
        "corridor"@ != "motorway_link"@,
        "corridor"@ != "trunk"@,
        "corridor"@ != "trunk_link"@,
        "steps"@ != "construction"@,
        "steps"@ != "proposed"@,
        "steps"@ != "motorway"@,
        "steps"@ != "motorway_link"@,
        "steps"@ != "trunk"@,
        "steps"@ != "trunk_link"@,
        "construction"@ != "proposed"@,
        "construction"@ != "motorway"@,
        "construction"@ != "motorway_link"@,
        "construction"@ != "trunk"@,
        "construction"@ != "trunk_link"@,
        "proposed"@ != "motorway"@,
        "proposed"@ != "motorway_link"@,
        "proposed"@ != "trunk"@,
        "proposed"@ != "trunk_link"@,
        "motorway"@ != "motorway_link"@,
        "motorway"@ != "trunk"@,
        "motorway"@ != "trunk_link"@,
        "motorway_link"@ != "trunk"@,
        "motorway_link"@ != "trunk_link"@,
        "trunk"@ != "trunk_link"@,
        "no"@ != "dismount"@,
        "no"@ != "yes"@,
        "no"@ != "designated"@,
        "no"@ != "permissive"@,
        "dismount"@ != "yes"@,
        "dismount"@ != "designated"@,
        "dismount"@ != "permissive"@,
        "yes"@ != "designated"@,
        "yes"@ != "permissive"@,
        "designated"@ != "permissive"@,
{
    broadcast use vstd::string::group_string_axioms;

    reveal_strlit("footway");
    reveal_strlit("pedestrian");
    reveal_strlit("corridor");
    reveal_strlit("steps");
    reveal_strlit("construction");
    reveal_strlit("proposed");
    reveal_strlit("motorway");
    reveal_strlit("motorway_link");
    reveal_strlit("trunk");
    reveal_strlit("trunk_link");
    reveal_strlit("no");
    reveal_strlit("dismount");
    reveal_strlit("yes");
    reveal_strlit("designated");
    reveal_strlit("permissive");
    assert("footway"@.len() != "pedestrian"@.len());
    assert("footway"@.len() != "corridor"@.len());
    assert("footway"@.len() != "steps"@.len());
    assert("footway"@.len() != "construction"@.len());
    assert("footway"@.len() != "proposed"@.len());
    assert("footway"@.len() != "motorway"@.len());
    assert("footway"@.len() != "motorway_link"@.len());
    assert("footway"@.len() != "trunk"@.len());
    assert("footway"@.len() != "trunk_link"@.len());
    assert("pedestrian"@.len() != "corridor"@.len());
    assert("pedestrian"@.len() != "steps"@.len());
    assert("pedestrian"@.len() != "construction"@.len());
    assert("pedestrian"@.len() != "proposed"@.len());
    assert("pedestrian"@.len() != "motorway"@.len());
    assert("pedestrian"@.len() != "motorway_link"@.len());
    assert("pedestrian"@.len() != "trunk"@.len());
    assert("pedestrian"@[0] != "trunk_link"@[0]);
    assert("corridor"@.len() != "steps"@.len());
    assert("corridor"@.len() != "construction"@.len());
    assert("corridor"@[0] != "proposed"@[0]);
    assert("corridor"@[0] != "motorway"@[0]);
    assert("corridor"@.len() != "motorway_link"@.len());
    assert("corridor"@.len() != "trunk"@.len());
    assert("corridor"@.len() != "trunk_link"@.len());
    assert("steps"@.len() != "construction"@.len());
    assert("steps"@.len() != "proposed"@.len());
    assert("steps"@.len() != "motorway"@.len());
    assert("steps"@.len() != "motorway_link"@.len());
    assert("steps"@[0] != "trunk"@[0]);
    assert("steps"@.len() != "trunk_link"@.len());
    assert("construction"@.len() != "proposed"@.len());
    assert("construction"@.len() != "motorway"@.len());
    assert("construction"@.len() != "motorway_link"@.len());
    assert("construction"@.len() != "trunk"@.len());
    assert("construction"@.len() != "trunk_link"@.len());
    assert("proposed"@[0] != "motorway"@[0]);
    assert("proposed"@.len() != "motorway_link"@.len());
    assert("proposed"@.len() != "trunk"@.len());
    assert("proposed"@.len() != "trunk_link"@.len());
    assert("motorway"@.len() != "motorway_link"@.len());
    assert("motorway"@.len() != "trunk"@.len());
    assert("motorway"@.len() != "trunk_link"@.len());
    assert("motorway_link"@.len() != "trunk"@.len());
    assert("motorway_link"@.len() != "trunk_link"@.len());
    assert("trunk"@.len() != "trunk_link"@.len());
    assert("no"@.len() != "dismount"@.len());
    assert("no"@.len() != "yes"@.len());
    assert("no"@.len() != "designated"@.len());
    assert("no"@.len() != "permissive"@.len());
    assert("dismount"@.len() != "yes"@.len());
    assert("dismount"@.len() != "designated"@.len());
    assert("dismount"@.len() != "permissive"@.len());
    assert("yes"@.len() != "designated"@.len());
    assert("yes"@.len() != "permissive"@.len());
    assert("designated"@[0] != "permissive"@[0]);
}

/// Who may cycle on a street. `bicycle=no` always forbids it and
/// `bicycle=dismount` always allows it. Otherwise: footways and pedestrian
/// streets admit bicycles exactly when tagged `bicycle=yes`, `designated` or
/// `permissive`; corridors, steps and streets under construction or proposed
/// never do; motorways and trunk roads do exactly when they have cycle
/// infrastructure; every other street does.
pub proof fn lemma_bicycle_access(tags: Seq<(String, String)>)
    ensures
        tag_is(tags, "bicycle"@, "no"@) ==> !spec_bicycle_allowed(tags),
        tag_is(tags, "bicycle"@, "dismount"@) ==> spec_bicycle_allowed(tags),
        (spec_highway(tags) == "footway"@ || spec_highway(tags) == "pedestrian"@) ==> (
        spec_bicycle_allowed(tags) <==> (tag_is(tags, "bicycle"@, "yes"@) || tag_is(
            tags,
            "bicycle"@,
            "designated"@,
        ) || tag_is(tags, "bicycle"@, "permissive"@) || tag_is(tags, "bicycle"@, "dismount"@))),
        (spec_highway(tags) == "corridor"@ || spec_highway(tags) == "steps"@ || spec_highway(tags)
            == "construction"@ || spec_highway(tags) == "proposed"@) ==> (spec_bicycle_allowed(
            tags,
        ) <==> tag_is(tags, "bicycle"@, "dismount"@)),
        (spec_highway(tags) == "motorway"@ || spec_highway(tags) == "motorway_link"@
            || spec_highway(tags) == "trunk"@ || spec_highway(tags) == "trunk_link"@) && !tag_is(
            tags,
            "bicycle"@,
            "no"@,
        ) ==> (spec_bicycle_allowed(tags) <==> (spec_has_cycle_infra(tags) || tag_is(
            tags,
            "bicycle"@,
            "dismount"@,
        ))),
        !(spec_highway(tags) == "footway"@ || spec_highway(tags) == "pedestrian"@
            || spec_highway(tags) == "corridor"@ || spec_highway(tags) == "steps"@
            || spec_highway(tags) == "construction"@ || spec_highway(tags) == "proposed"@
            || spec_highway(tags) == "motorway"@ || spec_highway(tags) == "motorway_link"@
            || spec_highway(tags) == "trunk"@ || spec_highway(tags) == "trunk_link"@) && !tag_is(
            tags,
            "bicycle"@,
            "no"@,
        ) ==> spec_bicycle_allowed(tags),
{
    lemma_access_words_distinct();
    let b = spec_tag(tags, "bicycle"@);
    if b is Some {
        let v = b->0;
        assert(tag_is(tags, "bicycle"@, v));
    }
}

/// A street has cycle infrastructure when it is a cycleway (`highway=cycleway`
/// or `bicycle=designated`) or carries any of the tags `cycleway`,
/// `cycleway:left`, `cycleway:right`, `cycleway:both`, and only then.
pub proof fn lemma_cycle_infrastructure(tags: Seq<(String, String)>)
    ensures
        spec_highway(tags) == "cycleway"@ || tag_is(tags, "bicycle"@, "designated"@)
            ==> spec_is_cycleway(tags),
        tag_present(tags, "cycleway"@) ==> spec_has_cycle_infra(tags),
        tag_present(tags, "cycleway:left"@) ==> spec_has_cycle_infra(tags),
        tag_present(tags, "cycleway:right"@) ==> spec_has_cycle_infra(tags),
        tag_present(tags, "cycleway:both"@) ==> spec_has_cycle_infra(tags),
        spec_is_cycleway(tags) ==> spec_has_cycle_infra(tags),
        spec_has_cycle_infra(tags) ==> spec_is_cycleway(tags) || tag_present(tags, "cycleway"@)
            || tag_present(tags, "cycleway:left"@) || tag_present(tags, "cycleway:right"@)
            || tag_present(tags, "cycleway:both"@),
{
}

/// Which ways are one-way for bicycles: `oneway=yes`, `1` or `true` unless
/// `oneway:bicycle=no`, and `oneway=-1`; a way without `oneway` is not.
pub proof fn lemma_one_way(tags: Seq<(String, String)>)
    ensures
        (tag_is(tags, "oneway"@, "yes"@) || tag_is(tags, "oneway"@, "1"@) || tag_is(
            tags,
            "oneway"@,
            "true"@,
        )) ==> (spec_is_one_way(tags) <==> !tag_is(tags, "oneway:bicycle"@, "no"@)),
        tag_is(tags, "oneway"@, "-1"@) ==> spec_is_one_way(tags),
        !tag_present(tags, "oneway"@) ==> !spec_is_one_way(tags),
{
    broadcast use vstd::string::group_string_axioms;

    reveal_strlit("yes");
    reveal_strlit("1");
    reveal_strlit("true");
    reveal_strlit("-1");
    assert("yes"@.len() != "-1"@.len());
    assert("true"@.len() != "-1"@.len());
    assert("1"@[0] != "-1"@[0]);
}

/// Quietness of a street type before any adjustment.
pub open spec fn spec_base_score(hw: Seq<char>) -> int {
    if hw == "cycleway"@ {
        100
    } else if hw == "living_street"@ {
        95
    } else if hw == "pedestrian"@ {
        90
    } else if hw == "path"@ {
        88
    } else if hw == "residential"@ {
        80
    } else if hw == "unclassified"@ {
        75
    } else if hw == "service"@ {
        70
    } else if hw == "tertiary"@ || hw == "tertiary_link"@ {
        50
    } else if hw == "secondary"@ || hw == "secondary_link"@ {
        25
    } else if hw == "primary"@ || hw == "primary_link"@ {
        10
    } else if hw == "trunk"@ || hw == "trunk_link"@ {
        5
    } else if hw == "track"@ {
        65
    } else {
        40
    }
}

pub open spec fn min_int(a: int, b: int) -> int {
    if a <= b {
        a
    } else {
        b
    }
}

pub open spec fn max_int(a: int, b: int) -> int {
    if a >= b {
        a
    } else {
        b
    }
}

/// A rough surface (cobbles, setts, or no paving).
pub open spec fn is_rough_surface(s: Seq<char>) -> bool {
    s == "cobblestone"@ || s == "sett"@ || s == "unpaved"@ || s == "gravel"@ || s == "dirt"@ || s
        == "sand"@
}

/// A smooth paved surface.
pub open spec fn is_smooth_surface(s: Seq<char>) -> bool {
    s == "asphalt"@ || s == "paved"@ || s == "concrete"@
}

/// Cycling quietness from 0 (very high stress) to 100 (dedicated cycle infrastructure).
pub open spec fn spec_quietness(
    hw: Seq<char>,
    has_cycle_infra: bool,
    bicycle_allowed: bool,
    speed: SpeedBand,
    surface: Option<Seq<char>>,
) -> int {
    if !bicycle_allowed {
        0
    } else {
        let b0 = spec_base_score(hw);
        let b1 = if has_cycle_infra && hw != "cycleway"@ {
            min_int(b0 + 40, 95)
        } else {
            b0
        };
        let b2 = match speed {
            SpeedBand::UpTo20 => min_int(b1 + 10, 100),
            SpeedBand::UpTo30 => min_int(b1 + 5, 100),
            SpeedBand::From60 => max_int(b1 - 25, 0),
            SpeedBand::From50 => max_int(b1 - 15, 0),
            SpeedBand::Neutral => b1,
        };
        let b3 = match surface {
            Some(s) => if is_rough_surface(s) {
                max_int(b2 - 10, 10)
            } else if is_smooth_surface(s) {
                min_int(b2 + 5, 100)
            } else {
                b2
            },
            None => b2,
        };
        max_int(min_int(b3, 100), 0)
    }
}

/// The street type names of the quietness table are different words.
proof fn lemma_street_names_distinct()
    ensures
        "living_street"@ != "cycleway"@,
        "pedestrian"@ != "cycleway"@,
        "pedestrian"@ != "living_street"@,
        "path"@ != "cycleway"@,
        "path"@ != "living_street"@,
        "path"@ != "pedestrian"@,
        "residential"@ != "cycleway"@,
        "residential"@ != "living_street"@,
        "residential"@ != "pedestrian"@,
        "residential"@ != "path"@,
        "unclassified"@ != "cycleway"@,
        "unclassified"@ != "living_street"@,
        "unclassified"@ != "pedestrian"@,
        "unclassified"@ != "path"@,
        "unclassified"@ != "residential"@,
        "service"@ != "cycleway"@,
        "service"@ != "living_street"@,
        "service"@ != "pedestrian"@,
        "service"@ != "path"@,
        "service"@ != "residential"@,
        "service"@ != "unclassified"@,
        "tertiary"@ != "cycleway"@,
        "tertiary"@ != "living_street"@,
        "tertiary"@ != "pedestrian"@,
        "tertiary"@ != "path"@,
        "tertiary"@ != "residential"@,
        "tertiary"@ != "unclassified"@,
        "tertiary"@ != "service"@,
        "tertiary_link"@ != "cycleway"@,
        "tertiary_link"@ != "living_street"@,
        "tertiary_link"@ != "pedestrian"@,
        "tertiary_link"@ != "path"@,
        "tertiary_link"@ != "residential"@,
        "tertiary_link"@ != "unclassified"@,
        "tertiary_link"@ != "service"@,
        "tertiary_link"@ != "tertiary"@,
        "secondary"@ != "cycleway"@,
        "secondary"@ != "living_street"@,
        "secondary"@ != "pedestrian"@,
        "secondary"@ != "path"@,
        "secondary"@ != "residential"@,
        "secondary"@ != "unclassified"@,
        "secondary"@ != "service"@,
        "secondary"@ != "tertiary"@,
        "secondary"@ != "tertiary_link"@,
        "secondary_link"@ != "cycleway"@,
        "secondary_link"@ != "living_street"@,
        "secondary_link"@ != "pedestrian"@,
        "secondary_link"@ != "path"@,
        "secondary_link"@ != "residential"@,
        "secondary_link"@ != "unclassified"@,
        "secondary_link"@ != "service"@,
        "secondary_link"@ != "tertiary"@,
        "secondary_link"@ != "tertiary_link"@,
        "secondary_link"@ != "secondary"@,
        "primary"@ != "cycleway"@,
        "primary"@ != "living_street"@,
        "primary"@ != "pedestrian"@,
        "primary"@ != "path"@,
        "primary"@ != "residential"@,
        "primary"@ != "unclassified"@,
        "primary"@ != "service"@,
        "primary"@ != "tertiary"@,
        "primary"@ != "tertiary_link"@,
        "primary"@ != "secondary"@,
        "primary"@ != "secondary_link"@,
        "primary_link"@ != "cycleway"@,
        "primary_link"@ != "living_street"@,
        "primary_link"@ != "pedestrian"@,
        "primary_link"@ != "path"@,
        "primary_link"@ != "residential"@,
        "primary_link"@ != "unclassified"@,
        "primary_link"@ != "service"@,
        "primary_link"@ != "tertiary"@,
        "primary_link"@ != "tertiary_link"@,
        "primary_link"@ != "secondary"@,
        "primary_link"@ != "secondary_link"@,
        "primary_link"@ != "primary"@,
        "trunk"@ != "cycleway"@,
        "trunk"@ != "living_street"@,
        "trunk"@ != "pedestrian"@,
        "trunk"@ != "path"@,
        "trunk"@ != "residential"@,
        "trunk"@ != "unclassified"@,
        "trunk"@ != "service"@,
        "trunk"@ != "tertiary"@,
        "trunk"@ != "tertiary_link"@,
        "trunk"@ != "secondary"@,
        "trunk"@ != "secondary_link"@,
        "trunk"@ != "primary"@,
        "trunk"@ != "primary_link"@,
        "trunk_link"@ != "cycleway"@,
        "trunk_link"@ != "living_street"@,
        "trunk_link"@ != "pedestrian"@,
        "trunk_link"@ != "path"@,
        "trunk_link"@ != "residential"@,
        "trunk_link"@ != "unclassified"@,
        "trunk_link"@ != "service"@,
        "trunk_link"@ != "tertiary"@,
        "trunk_link"@ != "tertiary_link"@,
        "trunk_link"@ != "secondary"@,
        "trunk_link"@ != "secondary_link"@,
        "trunk_link"@ != "primary"@,
        "trunk_link"@ != "primary_link"@,
        "trunk_link"@ != "trunk"@,
        "track"@ != "cycleway"@,
        "track"@ != "living_street"@,
        "track"@ != "pedestrian"@,
        "track"@ != "path"@,
        "track"@ != "residential"@,
        "track"@ != "unclassified"@,
        "track"@ != "service"@,
        "track"@ != "tertiary"@,
        "track"@ != "tertiary_link"@,
        "track"@ != "secondary"@,
        "track"@ != "secondary_link"@,
        "track"@ != "primary"@,
        "track"@ != "primary_link"@,
        "track"@ != "trunk"@,
        "track"@ != "trunk_link"@,
        "footway"@ != "cycleway"@,
        "footway"@ != "living_street"@,
        "footway"@ != "pedestrian"@,
        "footway"@ != "path"@,
        "footway"@ != "residential"@,
        "footway"@ != "unclassified"@,
        "footway"@ != "service"@,
        "footway"@ != "tertiary"@,
        "footway"@ != "tertiary_link"@,
        "footway"@ != "secondary"@,
        "footway"@ != "secondary_link"@,
        "footway"@ != "primary"@,
        "footway"@ != "primary_link"@,
        "footway"@ != "trunk"@,
        "footway"@ != "trunk_link"@,
        "footway"@ != "track"@,
        "motorway"@ != "cycleway"@,
        "motorway"@ != "living_street"@,
        "motorway"@ != "pedestrian"@,
        "motorway"@ != "path"@,
        "motorway"@ != "residential"@,
        "motorway"@ != "unclassified"@,
        "motorway"@ != "service"@,
        "motorway"@ != "tertiary"@,
        "motorway"@ != "tertiary_link"@,
        "motorway"@ != "secondary"@,
        "motorway"@ != "secondary_link"@,
        "motorway"@ != "primary"@,
        "motorway"@ != "primary_link"@,
        "motorway"@ != "trunk"@,
        "motorway"@ != "trunk_link"@,
        "motorway"@ != "track"@,
{
    broadcast use vstd::string::group_string_axioms;

    reveal_strlit("cycleway");
    reveal_strlit("living_street");
    reveal_strlit("pedestrian");
    reveal_strlit("path");
    reveal_strlit("residential");
    reveal_strlit("unclassified");
    reveal_strlit("service");
    reveal_strlit("tertiary");
    reveal_strlit("tertiary_link");
    reveal_strlit("secondary");
    reveal_strlit("secondary_link");
    reveal_strlit("primary");
    reveal_strlit("primary_link");
    reveal_strlit("trunk");
    reveal_strlit("trunk_link");
    reveal_strlit("track");
    reveal_strlit("footway");
    reveal_strlit("motorway");
    assert("living_street"@.len() != "cycleway"@.len());
    assert("pedestrian"@.len() != "cycleway"@.len());
    assert("pedestrian"@.len() != "living_street"@.len());
    assert("path"@.len() != "cycleway"@.len());
    assert("path"@.len() != "living_street"@.len());
    assert("path"@.len() != "pedestrian"@.len());
    assert("residential"@.len() != "cycleway"@.len());
    assert("residential"@.len() != "living_street"@.len());
    assert("residential"@.len() != "pedestrian"@.len());
    assert("residential"@.len() != "path"@.len());
    assert("unclassified"@.len() != "cycleway"@.len());
    assert("unclassified"@.len() != "living_street"@.len());
    assert("unclassified"@.len() != "pedestrian"@.len());
    assert("unclassified"@.len() != "path"@.len());
    assert("unclassified"@.len() != "residential"@.len());
    assert("service"@.len() != "cycleway"@.len());
    assert("service"@.len() != "living_street"@.len());
    assert("service"@.len() != "pedestrian"@.len());
    assert("service"@.len() != "path"@.len());
    assert("service"@.len() != "residential"@.len());
    assert("service"@.len() != "unclassified"@.len());
    assert("tertiary"@[0] != "cycleway"@[0]);
    assert("tertiary"@.len() != "living_street"@.len());
    assert("tertiary"@.len() != "pedestrian"@.len());
    assert("tertiary"@.len() != "path"@.len());
    assert("tertiary"@.len() != "residential"@.len());
    assert("tertiary"@.len() != "unclassified"@.len());
    assert("tertiary"@.len() != "service"@.len());
    assert("tertiary_link"@.len() != "cycleway"@.len());
    assert("tertiary_link"@[0] != "living_street"@[0]);
    assert("tertiary_link"@.len() != "pedestrian"@.len());
    assert("tertiary_link"@.len() != "path"@.len());
    assert("tertiary_link"@.len() != "residential"@.len());
    assert("tertiary_link"@.len() != "unclassified"@.len());
    assert("tertiary_link"@.len() != "service"@.len());
    assert("tertiary_link"@.len() != "tertiary"@.len());
    assert("secondary"@.len() != "cycleway"@.len());
    assert("secondary"@.len() != "living_street"@.len());
    assert("secondary"@.len() != "pedestrian"@.len());
    assert("secondary"@.len() != "path"@.len());
    assert("secondary"@.len() != "residential"@.len());
    assert("secondary"@.len() != "unclassified"@.len());
    assert("secondary"@.len() != "service"@.len());
    assert("secondary"@.len() != "tertiary"@.len());
    assert("secondary"@.len() != "tertiary_link"@.len());
    assert("secondary_link"@.len() != "cycleway"@.len());
    assert("secondary_link"@.len() != "living_street"@.len());
    assert("secondary_link"@.len() != "pedestrian"@.len());
    assert("secondary_link"@.len() != "path"@.len());
    assert("secondary_link"@.len() != "residential"@.len());
    assert("secondary_link"@.len() != "unclassified"@.len());
    assert("secondary_link"@.len() != "service"@.len());
    assert("secondary_link"@.len() != "tertiary"@.len());
    assert("secondary_link"@.len() != "tertiary_link"@.len());
    assert("secondary_link"@.len() != "secondary"@.len());
    assert("primary"@.len() != "cycleway"@.len());
    assert("primary"@.len() != "living_street"@.len());
    assert("primary"@.len() != "pedestrian"@.len());
    assert("primary"@.len() != "path"@.len());
    assert("primary"@.len() != "residential"@.len());
    assert("primary"@.len() != "unclassified"@.len());
    assert("primary"@[0] != "service"@[0]);
    assert("primary"@.len() != "tertiary"@.len());
    assert("primary"@.len() != "tertiary_link"@.len());
    assert("primary"@.len() != "secondary"@.len());
    assert("primary"@.len() != "secondary_link"@.len());
    assert("primary_link"@.len() != "cycleway"@.len());
    assert("primary_link"@.len() != "living_street"@.len());
    assert("primary_link"@.len() != "pedestrian"@.len());
    assert("primary_link"@.len() != "path"@.len());
    assert("primary_link"@.len() != "residential"@.len());
    assert("primary_link"@[0] != "unclassified"@[0]);
    assert("primary_link"@.len() != "service"@.len());
    assert("primary_link"@.len() != "tertiary"@.len());
    assert("primary_link"@.len() != "tertiary_link"@.len());
    assert("primary_link"@.len() != "secondary"@.len());
    assert("primary_link"@.len() != "secondary_link"@.len());
    assert("primary_link"@.len() != "primary"@.len());
    assert("trunk"@.len() != "cycleway"@.len());
    assert("trunk"@.len() != "living_street"@.len());
    assert("trunk"@.len() != "pedestrian"@.len());
    assert("trunk"@.len() != "path"@.len());
    assert("trunk"@.len() != "residential"@.len());
    assert("trunk"@.len() != "unclassified"@.len());
    assert("trunk"@.len() != "service"@.len());
    assert("trunk"@.len() != "tertiary"@.len());
    assert("trunk"@.len() != "tertiary_link"@.len());
    assert("trunk"@.len() != "secondary"@.len());
    assert("trunk"@.len() != "secondary_link"@.len());
    assert("trunk"@.len() != "primary"@.len());
    assert("trunk"@.len() != "primary_link"@.len());
    assert("trunk_link"@.len() != "cycleway"@.len());
    assert("trunk_link"@.len() != "living_street"@.len());
    assert("trunk_link"@[0] != "pedestrian"@[0]);
    assert("trunk_link"@.len() != "path"@.len());
    assert("trunk_link"@.len() != "residential"@.len());
    assert("trunk_link"@.len() != "unclassified"@.len());
    assert("trunk_link"@.len() != "service"@.len());
    assert("trunk_link"@.len() != "tertiary"@.len());
    assert("trunk_link"@.len() != "tertiary_link"@.len());
    assert("trunk_link"@.len() != "secondary"@.len());
    assert("trunk_link"@.len() != "secondary_link"@.len());
    assert("trunk_link"@.len() != "primary"@.len());
    assert("trunk_link"@.len() != "primary_link"@.len());
    assert("trunk_link"@.len() != "trunk"@.len());
    assert("track"@.len() != "cycleway"@.len());
    assert("track"@.len() != "living_street"@.len());
    assert("track"@.len() != "pedestrian"@.len());
    assert("track"@.len() != "path"@.len());
    assert("track"@.len() != "residential"@.len());
    assert("track"@.len() != "unclassified"@.len());
    assert("track"@.len() != "service"@.len());
    assert("track"@.len() != "tertiary"@.len());
    assert("track"@.len() != "tertiary_link"@.len());
    assert("track"@.len() != "secondary"@.len());
    assert("track"@.len() != "secondary_link"@.len());
    assert("track"@.len() != "primary"@.len());
    assert("track"@.len() != "primary_link"@.len());
    assert("track"@[2] != "trunk"@[2]);
    assert("track"@.len() != "trunk_link"@.len());
    assert("footway"@.len() != "cycleway"@.len());
    assert("footway"@.len() != "living_street"@.len());
    assert("footway"@.len() != "pedestrian"@.len());
    assert("footway"@.len() != "path"@.len());
    assert("footway"@.len() != "residential"@.len());
    assert("footway"@.len() != "unclassified"@.len());
    assert("footway"@[0] != "service"@[0]);
    assert("footway"@.len() != "tertiary"@.len());
    assert("footway"@.len() != "tertiary_link"@.len());
    assert("footway"@.len() != "secondary"@.len());
    assert("footway"@.len() != "secondary_link"@.len());
    assert("footway"@[0] != "primary"@[0]);
    assert("footway"@.len() != "primary_link"@.len());
    assert("footway"@.len() != "trunk"@.len());
    assert("footway"@.len() != "trunk_link"@.len());
    assert("footway"@.len() != "track"@.len());
    assert("motorway"@[0] != "cycleway"@[0]);
    assert("motorway"@.len() != "living_street"@.len());
    assert("motorway"@.len() != "pedestrian"@.len());
    assert("motorway"@.len() != "path"@.len());
    assert("motorway"@.len() != "residential"@.len());
    assert("motorway"@.len() != "unclassified"@.len());
    assert("motorway"@.len() != "service"@.len());
    assert("motorway"@[0] != "tertiary"@[0]);
    assert("motorway"@.len() != "tertiary_link"@.len());
    assert("motorway"@.len() != "secondary"@.len());
    assert("motorway"@.len() != "secondary_link"@.len());
    assert("motorway"@.len() != "primary"@.len());
    assert("motorway"@.len() != "primary_link"@.len());
    assert("motorway"@.len() != "trunk"@.len());
    assert("motorway"@.len() != "trunk_link"@.len());
    assert("motorway"@.len() != "track"@.len());
}

/// The quietness of each street type on its own (bicycles allowed, no cycle
/// infrastructure, no speed limit or surface that adjusts it): cycleway 100,
/// living street 95, pedestrian 90, path 88, residential 80, unclassified 75,
/// service 70, tertiary 50, secondary 25, primary 10, trunk 5, track 65, and
/// 40 for any other type (footway and motorway among them).
pub proof fn lemma_street_type_quietness()
    ensures
        spec_quietness("cycleway"@, false, true, SpeedBand::Neutral, None) == 100,
        spec_quietness("living_street"@, false, true, SpeedBand::Neutral, None) == 95,
        spec_quietness("pedestrian"@, false, true, SpeedBand::Neutral, None) == 90,
        spec_quietness("path"@, false, true, SpeedBand::Neutral, None) == 88,
        spec_quietness("residential"@, false, true, SpeedBand::Neutral, None) == 80,
        spec_quietness("unclassified"@, false, true, SpeedBand::Neutral, None) == 75,
        spec_quietness("service"@, false, true, SpeedBand::Neutral, None) == 70,
        spec_quietness("tertiary"@, false, true, SpeedBand::Neutral, None) == 50,
        spec_quietness("tertiary_link"@, false, true, SpeedBand::Neutral, None) == 50,
        spec_quietness("secondary"@, false, true, SpeedBand::Neutral, None) == 25,
        spec_quietness("secondary_link"@, false, true, SpeedBand::Neutral, None) == 25,
        spec_quietness("primary"@, false, true, SpeedBand::Neutral, None) == 10,
        spec_quietness("primary_link"@, false, true, SpeedBand::Neutral, None) == 10,
        spec_quietness("trunk"@, false, true, SpeedBand::Neutral, None) == 5,
        spec_quietness("trunk_link"@, false, true, SpeedBand::Neutral, None) == 5,
        spec_quietness("track"@, false, true, SpeedBand::Neutral, None) == 65,
        spec_quietness("footway"@, false, true, SpeedBand::Neutral, None) == 40,
        spec_quietness("motorway"@, false, true, SpeedBand::Neutral, None) == 40,
{
    lemma_street_names_distinct();
}

/// Adding cycle infrastructure to a street never lowers its quietness.
pub proof fn lemma_cycle_infra_never_lowers_quietness(
    hw: Seq<char>,
    speed: SpeedBand,
    surface: Option<Seq<char>>,
)
    ensures
        spec_quietness(hw, false, true, speed, surface) <= spec_quietness(hw, true, true, speed, surface),
{
}

/// How speed limits, cycle infrastructure and surfaces move the score of a
/// residential street (80 on its own): a limit of at most 20 km/h adds 10,
/// at most 30 adds 5, from 50 takes 15 and from 60 takes 25; cycle
/// infrastructure adds 40 up to 95; cobbles, setts, unpaved, gravel, dirt and
/// sand take 10, asphalt, paved and concrete add 5; the score never leaves
/// 0..=100 (a cycleway with infrastructure stays at 100).
pub proof fn lemma_quietness_adjustments()
    ensures
        spec_quietness("residential"@, false, true, SpeedBand::UpTo20, None) == 90,
        spec_quietness("residential"@, false, true, SpeedBand::UpTo30, None) == 85,
        spec_quietness("residential"@, false, true, SpeedBand::From50, None) == 65,
        spec_quietness("residential"@, false, true, SpeedBand::From60, None) == 55,
        spec_quietness("residential"@, true, true, SpeedBand::Neutral, None) == 95,
        spec_quietness("cycleway"@, true, true, SpeedBand::UpTo20, None) == 100,
        spec_quietness("secondary"@, true, true, SpeedBand::Neutral, None) == 65,
        spec_quietness("secondary"@, false, true, SpeedBand::From60, None) == 0,
        spec_quietness("residential"@, false, true, SpeedBand::Neutral, Some("cobblestone"@)) == 70,
        spec_quietness("residential"@, false, true, SpeedBand::Neutral, Some("sett"@)) == 70,
        spec_quietness("residential"@, false, true, SpeedBand::Neutral, Some("unpaved"@)) == 70,
        spec_quietness("residential"@, false, true, SpeedBand::Neutral, Some("gravel"@)) == 70,
        spec_quietness("residential"@, false, true, SpeedBand::Neutral, Some("dirt"@)) == 70,
        spec_quietness("residential"@, false, true, SpeedBand::Neutral, Some("sand"@)) == 70,
        spec_quietness("residential"@, false, true, SpeedBand::Neutral, Some("asphalt"@)) == 85,
        spec_quietness("residential"@, false, true, SpeedBand::Neutral, Some("paved"@)) == 85,
        spec_quietness("residential"@, false, true, SpeedBand::Neutral, Some("concrete"@)) == 85,
        spec_quietness("trunk"@, false, true, SpeedBand::From60, Some("gravel"@)) == 10,
        forall|hw: Seq<char>, infra: bool, speed: SpeedBand, surface: Option<Seq<char>>|
            0 <= #[trigger] spec_quietness(hw, infra, true, speed, surface) <= 100,
        forall|hw: Seq<char>, infra: bool, speed: SpeedBand, surface: Option<Seq<char>>|
            #[trigger] spec_quietness(hw, infra, false, speed, surface) == 0,
{
    broadcast use vstd::string::group_string_axioms;

    lemma_street_names_distinct();
    reveal_strlit("cobblestone");
    reveal_strlit("sett");
    reveal_strlit("unpaved");
    reveal_strlit("gravel");
    reveal_strlit("dirt");
    reveal_strlit("sand");
    reveal_strlit("asphalt");
    reveal_strlit("paved");
    reveal_strlit("concrete");
    assert("asphalt"@.len() != "cobblestone"@.len() && "asphalt"@.len() != "sett"@.len()
        && "asphalt"@[0] != "unpaved"@[0] && "asphalt"@.len() != "gravel"@.len()
        && "asphalt"@.len() != "dirt"@.len() && "asphalt"@.len() != "sand"@.len());
    assert("paved"@.len() != "cobblestone"@.len() && "paved"@.len() != "sett"@.len()
        && "paved"@.len() != "unpaved"@.len() && "paved"@.len() != "gravel"@.len()
        && "paved"@.len() != "dirt"@.len() && "paved"@.len() != "sand"@.len());
    assert("concrete"@.len() != "cobblestone"@.len() && "concrete"@.len() != "sett"@.len()
        && "concrete"@.len() != "unpaved"@.len() && "concrete"@.len() != "gravel"@.len()
        && "concrete"@.len() != "dirt"@.len() && "concrete"@.len() != "sand"@.len());
    assert("sett"@[0] != "cobblestone"@[0] && "unpaved"@[0] != "cobblestone"@[0]
        && "gravel"@[0] != "cobblestone"@[0] && "dirt"@[0] != "cobblestone"@[0]
        && "sand"@[0] != "cobblestone"@[0]);
    assert("unpaved"@.len() != "sett"@.len() && "gravel"@.len() != "sett"@.len()
        && "dirt"@[0] != "sett"@[0] && "sand"@[1] != "sett"@[1]);
    assert("gravel"@.len() != "unpaved"@.len() && "dirt"@.len() != "unpaved"@.len()
        && "sand"@.len() != "unpaved"@.len());
    assert("dirt"@.len() != "gravel"@.len() && "sand"@.len() != "gravel"@.len());
    assert("sand"@[0] != "dirt"@[0]);
}

fn base_score(hw: &str) -> (r: u32)
    ensures
        r == spec_base_score(hw@),
{
    if str_eq(hw, "cycleway") {
        100
    } else if str_eq(hw, "living_street") {
        95
    } else if str_eq(hw, "pedestrian") {
        90
    } else if str_eq(hw, "path") {
        88
    } else if str_eq(hw, "residential") {
        80
    } else if str_eq(hw, "unclassified") {
        75
    } else if str_eq(hw, "service") {
        70
    } else if str_eq(hw, "tertiary") || str_eq(hw, "tertiary_link") {
        50
    } else if str_eq(hw, "secondary") || str_eq(hw, "secondary_link") {
        25
    } else if str_eq(hw, "primary") || str_eq(hw, "primary_link") {
        10
    } else if str_eq(hw, "trunk") || str_eq(hw, "trunk_link") {
        5
    } else if str_eq(hw, "track") {
        65
    } else {
        40
    }
}

/// Computes a cycle quietness score from 0 (very high stress) to 100
/// (dedicated, safe cycle infrastructure).
pub fn calculate_quietness(
    highway: &str,
    has_cycle_infra: bool,
    bicycle_allowed: bool,
    speed: SpeedBand,
    surface: Option<&str>,
) -> (q: u32)
    ensures
        q == spec_quietness(
            highway@,
            has_cycle_infra,
            bicycle_allowed,
            speed,
            match surface {
                Some(s) => Some(s@),
                None => None,
            },
        ),
        q <= 100,
        !bicycle_allowed ==> q == 0,
        bicycle_allowed && !has_cycle_infra && speed == SpeedBand::Neutral && surface is None ==> {
            &&& highway@ == "cycleway"@ ==> q == 100
            &&& highway@ == "living_street"@ ==> q == 95
            &&& highway@ == "pedestrian"@ ==> q == 90
            &&& highway@ == "path"@ ==> q == 88
            &&& highway@ == "residential"@ ==> q == 80
            &&& highway@ == "unclassified"@ ==> q == 75
            &&& highway@ == "service"@ ==> q == 70
            &&& highway@ == "tertiary"@ ==> q == 50
            &&& highway@ == "tertiary_link"@ ==> q == 50
            &&& highway@ == "secondary"@ ==> q == 25
            &&& highway@ == "secondary_link"@ ==> q == 25
            &&& highway@ == "primary"@ ==> q == 10
            &&& highway@ == "primary_link"@ ==> q == 10
            &&& highway@ == "trunk"@ ==> q == 5
            &&& highway@ == "trunk_link"@ ==> q == 5
            &&& highway@ == "track"@ ==> q == 65
            &&& highway@ == "footway"@ ==> q == 40
            &&& highway@ == "motorway"@ ==> q == 40
        },
{
    proof {
        lemma_street_type_quietness();
    }
    if !bicycle_allowed {
        return 0;
    }
    let mut score = base_score(highway);
    if has_cycle_infra && !str_eq(highway, "cycleway") {
        score = if score + 40 <= 95 {
            score + 40
        } else {
            95
        };
    }
    score = match speed {
        SpeedBand::UpTo20 => if score + 10 <= 100 {
            score + 10
        } else {
            100
        },
        SpeedBand::UpTo30 => if score + 5 <= 100 {
            score + 5
        } else {
            100
        },
        SpeedBand::From60 => if score >= 25 {
            score - 25
        } else {
            0
        },
        SpeedBand::From50 => if score >= 15 {
            score - 15
        } else {
            0
        },
        SpeedBand::Neutral => score,
    };
    match surface {
        Some(s) => {
            if str_eq(s, "cobblestone") || str_eq(s, "sett") || str_eq(s, "unpaved") || str_eq(
                s,
                "gravel",
            ) || str_eq(s, "dirt") || str_eq(s, "sand") {
                score = if score >= 20 {
                    score - 10
                } else {
                    10
                };
            } else if str_eq(s, "asphalt") || str_eq(s, "paved") || str_eq(s, "concrete") {
                score = if score + 5 <= 100 {
                    score + 5
                } else {
                    100
                };
            }
        },
        None => {},
    }
    if score > 100 {
        100
    } else {
        score
    }
}

} // verus!
