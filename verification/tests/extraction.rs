use hookcov::analyzers::analyze_implementation;
use hookcov::components::blocks::{
    get_method_mapping, get_rust_equivalent, is_core_block_method, BlockComponent,
};
use hookcov::components::entities::EntityComponent;
use hookcov::components::items::ItemComponent;
use hookcov::extractors::java_extractor::parse_java_files;
use hookcov::extractors::rust_extractor::parse_rust_files;
use hookcov::fold_char;
use hookcov::mapping::{Exclusions, Mapping, MappingEntry};
use hookcov::types::{ClassMethods, ImplementationStatus};
use hookcov::MinecraftComponent;
use std::collections::BTreeSet;

fn mapping_of(pairs: &[(&str, &str)]) -> Mapping {
    let mut entries = Vec::new();
    for (t, r) in pairs {
        entries.push(MappingEntry::new(t, r));
    }
    Mapping::new(entries).expect("valid mapping")
}

fn pair_set(inventory: &[ClassMethods]) -> BTreeSet<(String, String)> {
    let mut pairs = BTreeSet::new();
    for c in inventory {
        for m in &c.methods {
            pairs.insert((c.class_name.clone(), m.clone()));
        }
    }
    pairs
}

const CACTUS_JAVA: &str = "public class Cactus {\n    public boolean canPlaceAt(int pos) { return true; }\n    public void randomTick() {}\n    public void onUse() {}\n}\n";

const CACTUS_RUST: &str = "impl Cactus {\n    fn can_place_at(&self) -> bool { true }\n    fn helper(&self) {}\n}\n";

#[test]
fn java_extraction_keeps_only_trackable_methods() {
    let mapping = mapping_of(&[("can_place_at", "canPlaceAt"), ("random_tick", "randomTick")]);
    let contents = vec![CACTUS_JAVA.to_string()];
    let inventory = parse_java_files(&contents, &mapping);
    assert_eq!(inventory.len(), 1);
    assert_eq!(inventory[0].class_name, "Cactus");
    assert!(inventory[0].is_real_class);
    assert_eq!(inventory[0].methods, vec!["canPlaceAt".to_string(), "randomTick".to_string()]);
    assert!(!inventory[0].methods.contains(&"onUse".to_string()));
}

#[test]
fn rust_extraction_keeps_only_trackable_methods() {
    let mapping = mapping_of(&[("can_place_at", "canPlaceAt"), ("random_tick", "randomTick")]);
    let contents = vec![CACTUS_RUST.to_string()];
    let inventory = parse_rust_files(&contents, &mapping);
    assert_eq!(inventory.len(), 1);
    assert_eq!(inventory[0].class_name, "Cactus");
    assert!(inventory[0].is_real_class);
    assert_eq!(inventory[0].methods, vec!["can_place_at".to_string()]);
}

#[test]
fn java_interfaces_are_not_concrete() {
    let mapping = mapping_of(&[("can_place_at", "canPlaceAt")]);
    let contents = vec![
        "public interface BlockLike {\n    boolean canPlaceAt(int pos);\n}\n".to_string(),
    ];
    let inventory = parse_java_files(&contents, &mapping);
    assert_eq!(inventory.len(), 1);
    assert_eq!(inventory[0].class_name, "BlockLike");
    assert!(!inventory[0].is_real_class);
}

#[test]
fn extraction_merges_one_type_across_files() {
    let mapping = mapping_of(&[("can_place_at", "canPlaceAt"), ("random_tick", "randomTick")]);
    let contents = vec![
        "impl Cactus { fn can_place_at(&self) -> bool { true } }\n".to_string(),
        "impl Cactus { fn random_tick(&self) {} }\n".to_string(),
    ];
    let inventory = parse_rust_files(&contents, &mapping);
    assert_eq!(inventory.len(), 1);
    assert_eq!(
        inventory[0].methods,
        vec!["can_place_at".to_string(), "random_tick".to_string()]
    );
}

#[test]
fn extraction_is_deterministic_up_to_traversal_order() {
    let mapping = mapping_of(&[("can_place_at", "canPlaceAt"), ("random_tick", "randomTick")]);
    let a = "public class Cactus { public void randomTick() {} }\n".to_string();
    let b = "public class Furnace { public boolean canPlaceAt(int p) { return true; } }\n"
        .to_string();
    let one_way = parse_java_files(&vec![a.clone(), b.clone()], &mapping);
    let other_way = parse_java_files(&vec![b, a], &mapping);
    assert_eq!(pair_set(&one_way), pair_set(&other_way));
    let again = parse_java_files(
        &vec![
            "public class Cactus { public void randomTick() {} }\n".to_string(),
            "public class Furnace { public boolean canPlaceAt(int p) { return true; } }\n"
                .to_string(),
        ],
        &mapping,
    );
    assert_eq!(pair_set(&one_way), pair_set(&again));
}

#[test]
fn malformed_files_do_not_abort_extraction() {
    let mapping = mapping_of(&[("can_place_at", "canPlaceAt")]);
    let contents = vec![
        "public class {{{ not java at all".to_string(),
        "public class Furnace { public boolean canPlaceAt(int p) { return true; } }\n"
            .to_string(),
    ];
    let inventory = parse_java_files(&contents, &mapping);
    assert!(inventory.iter().any(|c| c.class_name == "Furnace"));
}

#[test]
fn cactus_scenario_through_extraction() {
    let mapping = mapping_of(&[("can_place_at", "canPlaceAt"), ("random_tick", "randomTick")]);
    let reference = parse_java_files(&vec![CACTUS_JAVA.to_string()], &mapping);
    let target = parse_rust_files(&vec![CACTUS_RUST.to_string()], &mapping);
    let exclusions = Exclusions { excluded_names: Vec::new(), excluded_name_suffixes: Vec::new() };
    let tracking = analyze_implementation(&target, &reference, &mapping, &exclusions);
    assert_eq!(tracking.len(), 1);
    let ct = &tracking[0];
    assert_eq!(ct.class_name, "Cactus");
    assert_eq!(ct.methods.len(), 2);
    assert_eq!(ct.methods[0].method_name, "canPlaceAt");
    assert_eq!(ct.methods[0].status, ImplementationStatus::Implemented);
    assert_eq!(ct.methods[1].method_name, "randomTick");
    assert_eq!(ct.methods[1].status, ImplementationStatus::NotImplemented);
    assert_eq!(ct.percent_tenths, 500);
}

#[test]
fn untracked_method_is_invisible_everywhere() {
    let mapping = mapping_of(&[("can_place_at", "canPlaceAt")]);
    let java = "public class Cactus { public void onUse() {} public boolean canPlaceAt(int p) { return true; } }\n";
    let reference = parse_java_files(&vec![java.to_string()], &mapping);
    for c in &reference {
        assert!(!c.methods.contains(&"onUse".to_string()));
    }
    let target: Vec<ClassMethods> = Vec::new();
    let exclusions = Exclusions { excluded_names: Vec::new(), excluded_name_suffixes: Vec::new() };
    let tracking = analyze_implementation(&target, &reference, &mapping, &exclusions);
    for ct in &tracking {
        for m in &ct.methods {
            assert_ne!(m.method_name, "onUse");
        }
    }
}

#[test]
fn ascii_case_folding_folds_uppercase_only() {
    assert_eq!(fold_char('A'), 'a');
    assert_eq!(fold_char('Z'), 'z');
    assert_eq!(fold_char('a'), 'a');
    assert_eq!(fold_char('_'), '_');
    assert_eq!(fold_char('3'), '3');
}

#[test]
fn block_registry_lookups() {
    let mapping = get_method_mapping();
    assert_eq!(mapping.entries.len(), 16);
    assert!(is_core_block_method("can_place_at"));
    assert!(is_core_block_method("canPlaceAt"));
    assert!(!is_core_block_method("fooBar"));
    assert_eq!(get_rust_equivalent("canPlaceAt").as_deref(), Some("can_place_at"));
    assert_eq!(get_rust_equivalent("onBlockAdded").as_deref(), Some("placed"));
    assert_eq!(get_rust_equivalent("fooBar"), None);
}

#[test]
fn component_registry_entries() {
    assert_eq!(BlockComponent::component_type(), "blocks");
    assert_eq!(EntityComponent::component_type(), "entities");
    assert_eq!(ItemComponent::component_type(), "items");
    assert_eq!(
        BlockComponent::rust_source_path(),
        "sources/Pumpkin/pumpkin/src/block/blocks"
    );
    assert_eq!(
        BlockComponent::java_source_path(),
        "sources/yarn/build/namedSrc/net/minecraft/block"
    );
    assert!(EntityComponent::method_mapping().entries.is_empty());
    assert!(ItemComponent::method_mapping().entries.is_empty());
    let exclusions = BlockComponent::exclusions();
    assert_eq!(exclusions.excluded_names, vec!["AbstractBlockState".to_string()]);
    assert_eq!(exclusions.excluded_name_suffixes, vec!["BlockEntity".to_string()]);
    let files = BlockComponent::output_files();
    assert_eq!(files.rust_methods, "outputs/pumpkin_blocks.json");
    assert_eq!(files.java_methods, "outputs/pumpkin_blocks_java.json");
    assert_eq!(files.analysis, "outputs/pumpkin_blocks_analysis.json");
}
