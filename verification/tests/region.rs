use doc_ingest::region::{get_region, select_region, Region};

fn some(text: &str) -> Option<String> {
    Some(text.to_string())
}

fn custom(endpoint: &str) -> Region {
    Region::Custom { name: "Custom".to_string(), endpoint: endpoint.to_string() }
}

#[test]
fn endpoint_wins_over_region() {
    let endpoint = "http://localhost:4566";
    assert_eq!(get_region(None, some(endpoint)), Some(custom(endpoint)));
    assert_eq!(get_region(some("eu-west-1"), some(endpoint)), Some(custom(endpoint)));
    assert_eq!(get_region(some("nowhere"), some("")), Some(custom("")));
}

#[test]
fn region_is_known_by_its_canonical_name() {
    assert_eq!(get_region(some("eu-west-1"), None), Some(Region::Named("eu-west-1".to_string())));
    assert_eq!(get_region(some("euwest1"), None), Some(Region::Named("eu-west-1".to_string())));
    assert_eq!(get_region(some("US-GOV-East-1"), None), Some(Region::Named("us-gov-east-1".to_string())));
}

#[test]
fn default_region_is_left_to_the_environment() {
    for setting in [None, some("nowhere"), some("")] {
        assert_eq!(get_region(setting, None), None);
    }
}

#[test]
fn canonical_name_denotes_its_region() {
    for text in ["useast1", "AP-SOUTHEAST-3", "cn-northwest-1"] {
        match get_region(some(text), None) {
            Some(Region::Named(name)) => {
                assert_eq!(get_region(Some(name.clone()), None), Some(Region::Named(name)));
            }
            other => panic!("unexpected {:?}", other),
        }
    }
}

#[test]
fn selection_leaves_the_default_to_the_environment() {
    assert_eq!(select_region(None, None), None);
    assert_eq!(select_region(some("us-east-1"), None), Some(Region::Named("us-east-1".to_string())));
    assert_eq!(select_region(some("us-east-1"), some("e")), Some(custom("e")));
    assert_eq!(select_region(None, some("e")), Some(custom("e")));
}
