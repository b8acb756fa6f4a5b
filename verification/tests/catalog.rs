use calnexus::catalog::{all_function_names, domain_functions};


#[test]
fn test_catalog_covers_core_domains() {
    let domains: Vec<&str> = domain_functions().iter().map(|(d, _)| *d).collect();
    for required in [
        "arithmetic",
        "scientific",
        "statistics",
        "number_theory",
        "matrix",
        "vector",
        "symbolic",
    ] {
        assert!(domains.contains(&required), "目录应含 {} 域", required);
    }
}

#[test]
fn test_all_function_names_deduped_and_nonempty() {
    let names = all_function_names();
    assert!(!names.is_empty());
    let unique: std::collections::HashSet<_> = names.iter().collect();
    assert_eq!(unique.len(), names.len(), "函数名应去重");
}

#[test]
fn test_fx_domain_in_catalog_when_feature_on() {
    let domains: Vec<&str> = domain_functions().iter().map(|(d, _)| *d).collect();
    assert!(domains.contains(&"fx"));
    assert!(all_function_names().contains(&"fx"));
}
