use bicischools_core::cost::{calculate_quietness, classify_tags, RoutingProfile, SpeedBand};
use bicischools_core::text::first_token;

fn tags(pairs: &[(&str, &str)]) -> Vec<(String, String)> {
    pairs.iter().map(|(k, v)| (k.to_string(), v.to_string())).collect()
}

#[test]
fn default_profile_is_quiet() {
    assert_eq!(RoutingProfile::default(), RoutingProfile::Quiet);
}

#[test]
fn classifies_a_residential_street() {
    let c = classify_tags(&tags(&[("highway", "residential"), ("name", "Rua A"), ("maxspeed", "30 mph")]));
    assert_eq!(c.highway, "residential");
    assert_eq!(c.name.as_deref(), Some("Rua A"));
    assert_eq!(c.maxspeed_token.as_deref(), Some("30"));
    assert!(!c.is_cycleway);
    assert!(!c.has_cycle_infra);
    assert!(c.bicycle_allowed);
    assert!(!c.is_one_way);
    assert_eq!(c.surface, None);
}

#[test]
fn cycleways_and_infrastructure() {
    let c = classify_tags(&tags(&[("highway", "cycleway")]));
    assert!(c.is_cycleway && c.has_cycle_infra && c.bicycle_allowed);
    let c = classify_tags(&tags(&[("highway", "footway"), ("bicycle", "designated")]));
    assert!(c.is_cycleway && c.bicycle_allowed);
    let c = classify_tags(&tags(&[("highway", "primary"), ("cycleway:right", "lane")]));
    assert!(!c.is_cycleway && c.has_cycle_infra);
}

#[test]
fn bicycle_access_rules() {
    assert!(!classify_tags(&tags(&[("highway", "residential"), ("bicycle", "no")])).bicycle_allowed);
    assert!(classify_tags(&tags(&[("highway", "steps"), ("bicycle", "dismount")])).bicycle_allowed);
    assert!(!classify_tags(&tags(&[("highway", "motorway")])).bicycle_allowed);
    assert!(classify_tags(&tags(&[("highway", "trunk"), ("cycleway", "track")])).bicycle_allowed);
    assert!(!classify_tags(&tags(&[("highway", "steps")])).bicycle_allowed);
    assert!(!classify_tags(&tags(&[("highway", "footway")])).bicycle_allowed);
    assert!(classify_tags(&tags(&[("highway", "pedestrian"), ("bicycle", "permissive")])).bicycle_allowed);
    assert!(classify_tags(&tags(&[])).bicycle_allowed);
}

#[test]
fn one_way_rules() {
    assert!(classify_tags(&tags(&[("oneway", "yes")])).is_one_way);
    assert!(classify_tags(&tags(&[("oneway", "1")])).is_one_way);
    assert!(classify_tags(&tags(&[("oneway", "true")])).is_one_way);
    assert!(classify_tags(&tags(&[("oneway", "-1")])).is_one_way);
    assert!(!classify_tags(&tags(&[("oneway", "yes"), ("oneway:bicycle", "no")])).is_one_way);
    assert!(!classify_tags(&tags(&[("oneway", "no")])).is_one_way);
    assert!(classify_tags(&tags(&[("oneway", "-1"), ("oneway:bicycle", "no")])).is_one_way);
}

#[test]
fn first_tag_wins() {
    let c = classify_tags(&tags(&[("highway", "path"), ("highway", "motorway")]));
    assert_eq!(c.highway, "path");
}

#[test]
fn first_token_splits_on_unicode_whitespace() {
    assert_eq!(first_token("  50\u{a0}km/h").as_deref(), Some("50"));
    assert_eq!(first_token("   "), None);
    assert_eq!(first_token(""), None);
    assert_eq!(first_token("signals").as_deref(), Some("signals"));
}

#[test]
fn quietness_scores() {
    assert_eq!(calculate_quietness("cycleway", true, true, SpeedBand::Neutral, None), 100);
    assert_eq!(calculate_quietness("residential", false, true, SpeedBand::UpTo30, Some("asphalt")), 90);
    assert_eq!(calculate_quietness("primary", true, true, SpeedBand::From50, None), 35);
    assert_eq!(calculate_quietness("trunk", false, true, SpeedBand::From60, Some("gravel")), 10);
    assert_eq!(calculate_quietness("secondary", false, true, SpeedBand::From60, None), 0);
    assert_eq!(calculate_quietness("living_street", true, true, SpeedBand::UpTo20, Some("asphalt")), 100);
    assert_eq!(calculate_quietness("unknown_kind", false, true, SpeedBand::Neutral, Some("grass")), 40);
    assert_eq!(calculate_quietness("cycleway", true, false, SpeedBand::UpTo20, None), 0);
    assert_eq!(calculate_quietness("track", false, true, SpeedBand::Neutral, Some("dirt")), 55);
}

#[test]
fn quietness_stays_within_bounds() {
    let highways = ["cycleway", "living_street", "pedestrian", "path", "residential", "unclassified",
        "service", "tertiary", "secondary_link", "primary", "trunk_link", "track", "motorway", ""];
    let bands = [SpeedBand::UpTo20, SpeedBand::UpTo30, SpeedBand::Neutral, SpeedBand::From50, SpeedBand::From60];
    let surfaces = [None, Some("asphalt"), Some("sett"), Some("grass")];
    for hw in highways {
        for infra in [false, true] {
            for band in bands {
                for surface in surfaces {
                    let q = calculate_quietness(hw, infra, true, band, surface);
                    assert!(q <= 100);
                    assert_eq!(calculate_quietness(hw, infra, false, band, surface), 0);
                }
            }
        }
    }
}
