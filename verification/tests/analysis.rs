use hookcov::analyzers::{
    aggregate_analysis, analyze_implementation, count_implemented, try_aggregate_analysis,
};
use hookcov::mapping::{Exclusions, Mapping, MappingEntry, MappingError};
use hookcov::types::{ClassMethods, ImplementationStatus};

fn entry(target: &str, reference: &str) -> MappingEntry {
    MappingEntry::new(target, reference)
}

fn mapping_of(pairs: &[(&str, &str)]) -> Mapping {
    let mut entries = Vec::new();
    for (t, r) in pairs {
        entries.push(entry(t, r));
    }
    Mapping::new(entries).expect("valid mapping")
}

fn no_exclusions() -> Exclusions {
    Exclusions { excluded_names: Vec::new(), excluded_name_suffixes: Vec::new() }
}

fn class(name: &str, methods: &[&str], concrete: bool) -> ClassMethods {
    ClassMethods {
        class_name: name.to_string(),
        methods: methods.iter().map(|m| m.to_string()).collect(),
        is_real_class: concrete,
    }
}

#[test]
fn cactus_scenario_half_implemented() {
    let mapping = mapping_of(&[("can_place_at", "canPlaceAt"), ("random_tick", "randomTick")]);
    let reference = vec![class("Cactus", &["canPlaceAt", "randomTick"], true)];
    let target = vec![class("Cactus", &["can_place_at"], true)];
    let tracking = analyze_implementation(&target, &reference, &mapping, &no_exclusions());
    assert_eq!(tracking.len(), 1);
    let ct = &tracking[0];
    assert_eq!(ct.class_name, "Cactus");
    assert_eq!(ct.methods.len(), 2);
    assert_eq!(ct.methods[0].method_name, "canPlaceAt");
    assert_eq!(ct.methods[0].status, ImplementationStatus::Implemented);
    assert_eq!(ct.methods[1].method_name, "randomTick");
    assert_eq!(ct.methods[1].status, ImplementationStatus::NotImplemented);
    assert_eq!(ct.percent_tenths, 500);
}

#[test]
fn class_percentages_lie_between_zero_and_one_hundred() {
    let mapping = mapping_of(&[
        ("can_place_at", "canPlaceAt"),
        ("random_tick", "randomTick"),
        ("normal_use", "onUse"),
    ]);
    let reference = vec![
        class("Cactus", &["canPlaceAt", "randomTick", "onUse"], true),
        class("Furnace", &["onUse"], true),
        class("Anvil", &["randomTick", "randomTick"], true),
    ];
    let target = vec![
        class("Cactus", &["can_place_at", "random_tick", "normal_use"], true),
        class("Anvil", &[], true),
    ];
    let tracking = analyze_implementation(&target, &reference, &mapping, &no_exclusions());
    assert_eq!(tracking.len(), 3);
    for ct in &tracking {
        assert!(ct.percent_tenths <= 1000);
    }
    let result = aggregate_analysis("blocks".to_string(), tracking);
    assert!(result.percent_tenths <= 1000);
}

#[test]
fn implemented_and_not_implemented_partition_the_methods() {
    let mapping = mapping_of(&[("can_place_at", "canPlaceAt"), ("random_tick", "randomTick")]);
    let reference = vec![class("Cactus", &["canPlaceAt", "randomTick", "canPlaceAt"], true)];
    let target = vec![class("Cactus", &["can_place_at"], true)];
    let tracking = analyze_implementation(&target, &reference, &mapping, &no_exclusions());
    for ct in &tracking {
        let implemented = count_implemented(&ct.methods);
        let not_implemented = ct
            .methods
            .iter()
            .filter(|m| m.status == ImplementationStatus::NotImplemented)
            .count();
        assert_eq!(implemented + not_implemented, ct.methods.len());
    }
}

#[test]
fn correlation_is_case_insensitive() {
    let mapping = mapping_of(&[("can_place_at", "canPlaceAt")]);
    for target_name in ["furnace", "Furnace", "FURNACE"] {
        let reference = vec![class("Furnace", &["canPlaceAt"], true)];
        let target = vec![class(target_name, &["can_place_at"], true)];
        let tracking = analyze_implementation(&target, &reference, &mapping, &no_exclusions());
        assert_eq!(tracking.len(), 1);
        assert_eq!(tracking[0].methods[0].status, ImplementationStatus::Implemented);
        assert_eq!(tracking[0].percent_tenths, 1000);
    }
}

#[test]
fn excluded_classes_never_appear() {
    let mapping = mapping_of(&[("can_place_at", "canPlaceAt")]);
    let exclusions = Exclusions {
        excluded_names: vec!["AbstractBlockState".to_string()],
        excluded_name_suffixes: vec!["BlockEntity".to_string()],
    };
    let reference = vec![
        class("AbstractBlockState", &["canPlaceAt"], true),
        class("FurnaceBlockEntity", &["canPlaceAt"], true),
        class("Furnace", &["canPlaceAt"], true),
    ];
    let target: Vec<ClassMethods> = Vec::new();
    let tracking = analyze_implementation(&target, &reference, &mapping, &exclusions);
    assert_eq!(tracking.len(), 1);
    assert_eq!(tracking[0].class_name, "Furnace");
}

#[test]
fn interface_and_empty_classes_never_appear() {
    let mapping = mapping_of(&[("can_place_at", "canPlaceAt")]);
    let reference = vec![
        class("BlockLike", &["canPlaceAt"], false),
        class("Bare", &[], true),
        class("Furnace", &["canPlaceAt"], true),
    ];
    let target: Vec<ClassMethods> = Vec::new();
    let tracking = analyze_implementation(&target, &reference, &mapping, &no_exclusions());
    assert_eq!(tracking.len(), 1);
    assert_eq!(tracking[0].class_name, "Furnace");
}

#[test]
fn no_matching_target_class_means_zero_coverage() {
    let mapping = mapping_of(&[("can_place_at", "canPlaceAt"), ("random_tick", "randomTick")]);
    let reference = vec![
        class("Cactus", &["canPlaceAt", "randomTick"], true),
        class("Furnace", &["canPlaceAt"], true),
    ];
    let target = vec![class("Lantern", &["can_place_at"], true)];
    let tracking = analyze_implementation(&target, &reference, &mapping, &no_exclusions());
    assert_eq!(tracking.len(), 2);
    for ct in &tracking {
        for m in &ct.methods {
            assert_eq!(m.status, ImplementationStatus::NotImplemented);
        }
        assert_eq!(ct.percent_tenths, 0);
    }
    let result = aggregate_analysis("blocks".to_string(), tracking);
    assert_eq!(result.percent_tenths, 0);
}

#[test]
fn empty_tracked_class_set_reports_full_coverage() {
    let result = aggregate_analysis("blocks".to_string(), Vec::new());
    assert_eq!(result.percent_tenths, 1000);
    assert_eq!(result.component_type, "blocks");
    assert!(result.classes.is_empty());
}

#[test]
fn checked_aggregation_matches_aggregation() {
    let mapping = mapping_of(&[("can_place_at", "canPlaceAt"), ("random_tick", "randomTick")]);
    let reference = vec![class("Cactus", &["canPlaceAt", "randomTick"], true)];
    let target = vec![class("Cactus", &["can_place_at"], true)];
    let tracking = analyze_implementation(&target, &reference, &mapping, &no_exclusions());
    let result = try_aggregate_analysis("blocks".to_string(), tracking)
        .expect("two methods fit in memory");
    assert_eq!(result.percent_tenths, 500);
    assert_eq!(result.component_type, "blocks");
    assert_eq!(result.classes.len(), 1);
}

#[test]
fn report_is_sorted_by_class_name() {
    let mapping = mapping_of(&[("can_place_at", "canPlaceAt")]);
    let reference = vec![
        class("Furnace", &["canPlaceAt"], true),
        class("Anvil", &["canPlaceAt"], true),
        class("Cactus", &["canPlaceAt"], true),
    ];
    let target: Vec<ClassMethods> = Vec::new();
    let tracking = analyze_implementation(&target, &reference, &mapping, &no_exclusions());
    let names: Vec<&str> = tracking.iter().map(|c| c.class_name.as_str()).collect();
    assert_eq!(names, vec!["Anvil", "Cactus", "Furnace"]);
}

#[test]
fn unmapped_reference_method_is_not_implemented() {
    let mapping = mapping_of(&[("can_place_at", "canPlaceAt")]);
    let reference = vec![class("Cactus", &["randomTick"], true)];
    let target = vec![class("Cactus", &["random_tick"], true)];
    let tracking = analyze_implementation(&target, &reference, &mapping, &no_exclusions());
    assert_eq!(tracking[0].methods[0].status, ImplementationStatus::NotImplemented);
}

#[test]
fn duplicate_target_name_is_rejected() {
    let entries = vec![entry("can_place_at", "canPlaceAt"), entry("can_place_at", "randomTick")];
    assert_eq!(Mapping::new(entries).unwrap_err(), MappingError::DuplicateTargetName);
}

#[test]
fn duplicate_reference_name_is_rejected() {
    let entries = vec![entry("can_place_at", "canPlaceAt"), entry("random_tick", "canPlaceAt")];
    assert_eq!(Mapping::new(entries).unwrap_err(), MappingError::DuplicateReferenceName);
}

#[test]
fn valid_mapping_is_accepted() {
    let entries = vec![entry("can_place_at", "canPlaceAt"), entry("random_tick", "randomTick")];
    let mapping = Mapping::new(entries).expect("distinct names are valid");
    assert_eq!(mapping.entries.len(), 2);
}

#[test]
fn mapping_lookup_finds_the_target_name() {
    let mapping = mapping_of(&[("can_place_at", "canPlaceAt"), ("random_tick", "randomTick")]);
    assert_eq!(mapping.target_for("canPlaceAt").as_deref(), Some("can_place_at"));
    assert_eq!(mapping.target_for("randomTick").as_deref(), Some("random_tick"));
    assert_eq!(mapping.target_for("onUse"), None);
    assert!(mapping.is_trackable("can_place_at"));
    assert!(mapping.is_trackable("canPlaceAt"));
    assert!(!mapping.is_trackable("onUse"));
}
