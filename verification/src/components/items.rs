//! The item component's registry entry. No item hooks are declared
//! trackable yet, so its table and its exclusion policy are empty.

use crate::mapping::{Exclusions, ExclusionsView, Mapping, MappingEntry, MappingEntryView};
use crate::MinecraftComponent;
use vstd::prelude::*;

verus! {

/// The item domain: lifecycle hooks of item types.
pub struct ItemComponent;

impl MinecraftComponent for ItemComponent {
    open spec fn spec_component_type() -> Seq<char> {
        "items"@
    }

    open spec fn spec_rust_source_path() -> Seq<char> {
        "sources/Pumpkin/pumpkin/src/item/items"@
    }

    open spec fn spec_java_source_path() -> Seq<char> {
        "sources/yarn/build/namedSrc/net/minecraft/item"@
    }

    open spec fn spec_mapping() -> Seq<MappingEntryView> {
        Seq::empty()
    }

    open spec fn spec_exclusions() -> ExclusionsView {
        ExclusionsView {
            excluded_names: Seq::empty(),
            excluded_name_suffixes: Seq::empty(),
        }
    }

    fn component_type() -> (r: &'static str) {
        "items"
    }

    fn rust_source_path() -> (r: &'static str) {
        "sources/Pumpkin/pumpkin/src/item/items"
    }

    fn java_source_path() -> (r: &'static str) {
        "sources/yarn/build/namedSrc/net/minecraft/item"
    }

    fn method_mapping() -> (m: Mapping) {
        let entries: Vec<MappingEntry> = Vec::new();
        proof {
            assert(entries.deep_view() =~= Seq::<MappingEntryView>::empty());
        }
        Mapping { entries }
    }

    fn exclusions() -> (e: Exclusions) {
        let excluded_names: Vec<String> = Vec::new();
        let excluded_name_suffixes: Vec<String> = Vec::new();
        proof {
            assert(excluded_names.deep_view() =~= Seq::<Seq<char>>::empty());
            assert(excluded_name_suffixes.deep_view() =~= Seq::<Seq<char>>::empty());
        }
        Exclusions { excluded_names, excluded_name_suffixes }
    }
}

} // verus!
