use calnexus::edit_distance::levenshtein;
use calnexus::unit_table::{all_unit_names, is_temperature_unit, lookup, Dimension};


#[test]
fn test_is_temperature_unit_known() {
    assert_eq!(is_temperature_unit("C"), Some(true));
    assert_eq!(is_temperature_unit("F"), Some(true));
    assert_eq!(is_temperature_unit("K"), Some(true));
    assert_eq!(is_temperature_unit("R"), Some(true));
}

#[test]
fn test_is_temperature_unit_not_temperature() {
    assert_eq!(is_temperature_unit("m"), Some(false));
    assert_eq!(is_temperature_unit("kg"), Some(false));
}

#[test]
fn test_levenshtein_identical() {
    assert_eq!(levenshtein("meter", "meter"), 0);
}

#[test]
fn test_levenshtein_empty() {
    assert_eq!(levenshtein("", "abc"), 3);
    assert_eq!(levenshtein("abc", ""), 3);
    assert_eq!(levenshtein("", ""), 0);
}

#[test]
fn test_levenshtein_one_edit() {
    assert_eq!(levenshtein("meter", "metor"), 1);
    assert_eq!(levenshtein("meter", "meters"), 1);
    assert_eq!(levenshtein("meters", "meter"), 1);
}

#[test]
fn test_levenshtein_two_edits() {
    assert_eq!(levenshtein("meter", "metre"), 2);
    assert_eq!(levenshtein("metre", "meters"), 2);
}

#[test]
fn test_levenshtein_case_sensitive() {
    assert_eq!(levenshtein("MB", "mB"), 1);
}

#[test]
fn test_all_unit_names_contains_common() {
    let names = all_unit_names();
    assert!(names.contains(&"m"));
    assert!(names.contains(&"kg"));
    assert!(names.contains(&"s"));
    assert!(names.contains(&"B"));
    assert!(names.contains(&"km"));
}

#[test]
fn test_all_unit_names_excludes_temperature() {
    let names = all_unit_names();
    assert!(!names.contains(&"C"));
    assert!(!names.contains(&"F"));
    assert!(!names.contains(&"K"));
    assert!(!names.contains(&"R"));
}

#[test]
fn test_dimension_debug() {
    let s = format!("{:?}", Dimension::Length);
    assert_eq!(s, "Length");
    let s = format!("{:?}", Dimension::Temperature);
    assert_eq!(s, "Temperature");
}

#[test]
fn test_dimension_eq_hash() {
    let mut set = std::collections::HashSet::new();
    set.insert(Dimension::Length);
    assert!(set.contains(&Dimension::Length));
    assert!(!set.contains(&Dimension::Mass));
}

/// The dimension and the factor to the SI base unit as a binary64.
fn coef(name: &str) -> Option<(Dimension, f64)> {
    lookup(name).map(|(d, n, k)| (d, n as f64 / k as f64))
}

#[test]
fn test_length_m_to_km() {
    let (from_dim, from_c) = coef("m").unwrap();
    let (to_dim, to_c) = coef("km").unwrap();
    assert_eq!(from_dim, Dimension::Length);
    assert_eq!(to_dim, Dimension::Length);
    let result = 1000.0 * from_c / to_c;
    assert!((result - 1.0).abs() < 1e-9);
}

#[test]
fn test_length_in_to_cm() {
    let (_, from_c) = coef("in").unwrap();
    let (_, to_c) = coef("cm").unwrap();
    let result = 1.0 * from_c / to_c;
    assert!((result - 2.54).abs() < 1e-9);
}

#[test]
fn test_length_aliases() {
    assert_eq!(lookup("meter"), lookup("m"));
    assert_eq!(lookup("kilometer"), lookup("km"));
    assert_eq!(lookup("inch"), lookup("in"));
    assert_eq!(lookup("foot"), lookup("ft"));
}

#[test]
fn test_length_case_sensitive() {
    assert!(lookup("mB").is_none());
    assert!(lookup("MB").is_some());
}

#[test]
fn test_mass_kg_to_lb() {
    let (_, from_c) = coef("kg").unwrap();
    let (_, to_c) = coef("lb").unwrap();
    let result = 1.0 * from_c / to_c;
    assert!((result - 2.204623).abs() < 1e-6);
}

#[test]
fn test_mass_t_to_kg() {
    let (_, from_c) = coef("t").unwrap();
    let (_, to_c) = coef("kg").unwrap();
    let result = 1.0 * from_c / to_c;
    assert!((result - 1000.0).abs() < 1e-9);
}

#[test]
fn test_temperature_not_in_linear_table() {
    assert!(lookup("C").is_none());
    assert!(lookup("F").is_none());
    assert!(lookup("K").is_none());
    assert!(lookup("R").is_none());
}

#[test]
fn test_volume_l_to_m3() {
    let (_, from_c) = coef("L").unwrap();
    let (_, to_c) = coef("m3").unwrap();
    let result = 1.0 * from_c / to_c;
    assert!((result - 0.001).abs() < 1e-12);
}

#[test]
fn test_volume_gal_to_l() {
    let (_, from_c) = coef("gal").unwrap();
    let (_, to_c) = coef("L").unwrap();
    let result = 1.0 * from_c / to_c;
    assert!((result - 3.785412).abs() < 1e-5);
}

#[test]
fn test_area_ha_to_m2() {
    let (_, from_c) = coef("ha").unwrap();
    let (_, to_c) = coef("m2").unwrap();
    let result = 1.0 * from_c / to_c;
    assert!((result - 10000.0).abs() < 1e-9);
}

#[test]
fn test_area_km2_to_m2() {
    let (_, from_c) = coef("km2").unwrap();
    let (_, to_c) = coef("m2").unwrap();
    let result = 1.0 * from_c / to_c;
    assert!((result - 1e6).abs() < 1e-3);
}

#[test]
fn test_speed_mps_to_kmh() {
    let (_, from_c) = coef("m/s").unwrap();
    let (_, to_c) = coef("km/h").unwrap();
    let result = 1.0 * from_c / to_c;
    assert!((result - 3.6).abs() < 1e-9);
}

#[test]
fn test_speed_kmh_to_mps() {
    let (_, from_c) = coef("km/h").unwrap();
    let (_, to_c) = coef("m/s").unwrap();
    let result = 3.6 * from_c / to_c;
    assert!((result - 1.0).abs() < 1e-9);
}

#[test]
fn test_data_gib_to_b() {
    let (_, from_c) = coef("GiB").unwrap();
    let (_, to_c) = coef("B").unwrap();
    let result = 1.0 * from_c / to_c;
    assert!((result - 1073741824.0).abs() < 1e-3);
}

#[test]
fn test_data_kb_to_b() {
    let (_, from_c) = coef("KB").unwrap();
    let (_, to_c) = coef("B").unwrap();
    let result = 1.0 * from_c / to_c;
    assert!((result - 1000.0).abs() < 1e-9);
}

#[test]
fn test_data_kib_vs_kb_distinct() {
    let (_, kib) = coef("KiB").unwrap();
    let (_, kb) = coef("KB").unwrap();
    assert!((kib - 1024.0).abs() < 1e-9);
    assert!((kb - 1000.0).abs() < 1e-9);
    assert_ne!(kib, kb);
}

#[test]
fn test_time_h_to_s() {
    let (_, from_c) = coef("h").unwrap();
    let (_, to_c) = coef("s").unwrap();
    let result = 1.0 * from_c / to_c;
    assert!((result - 3600.0).abs() < 1e-9);
}

#[test]
fn test_time_week_to_s() {
    let (_, from_c) = coef("week").unwrap();
    let (_, to_c) = coef("s").unwrap();
    let result = 1.0 * from_c / to_c;
    assert!((result - 604800.0).abs() < 1e-9);
}

#[test]
fn test_time_min_to_s() {
    let (_, from_c) = coef("min").unwrap();
    let result = 1.0 * from_c / 1.0;
    assert!((result - 60.0).abs() < 1e-9);
}

#[test]
fn test_time_day_to_s() {
    let (_, from_c) = coef("day").unwrap();
    let result = 1.0 * from_c;
    assert!((result - 86400.0).abs() < 1e-9);
}

#[test]
fn test_identity_conversion() {
    let units = ["m", "kg", "L", "m2", "m/s", "B", "s"];
    for u in units {
        let (dim, c) = coef(u).unwrap();
        let result = 42.0 * c / c;
        assert!((result - 42.0).abs() < 1e-9, "identity failed for {} ({:?})", u, dim);
    }
}

#[test]
fn test_lookup_unknown() {
    assert!(lookup("metre_xyz").is_none());
    assert!(lookup("").is_none());
    assert!(lookup("XYZ").is_none());
}

#[test]
fn levenshtein_obeys_the_triangle_inequality() {
    let words = ["kitten", "sitting", "mitten", "", "sit", "é", "e"];
    for a in words {
        for b in words {
            assert_eq!(levenshtein(a, b), levenshtein(b, a));
            assert_eq!(levenshtein(a, b) == 0, a == b);
            for c in words {
                assert!(levenshtein(a, c) <= levenshtein(a, b) + levenshtein(b, c));
            }
        }
    }
    assert_eq!(levenshtein("kitten", "sitting"), 3);
    assert_eq!(levenshtein("é", "e"), 1);
}
