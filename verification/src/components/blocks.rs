//! The block component's registry entry.
//!
//! The trackable-method table of a component lives in exactly one place:
//! this entry. It is proved duplicate-free, so no lookup over it can vary
//! with scan order.

use crate::mapping::{
    spec_is_trackable, spec_mapping_wf, spec_target_for, Exclusions, ExclusionsView, Mapping,
    MappingEntry, MappingEntryView,
};
use crate::MinecraftComponent;
use vstd::prelude::*;
use vstd::string::*;

verus! {

/// The block domain: lifecycle hooks of block types.
pub struct BlockComponent;

/// The block component's trackable-method table, as
/// (target name, reference name) pairs.
pub open spec fn spec_block_mapping() -> Seq<MappingEntryView> {
    seq![
        MappingEntryView { target_name: "normal_use"@, reference_name: "onUse"@ },
        MappingEntryView { target_name: "use_with_item"@, reference_name: "onUseWithItem"@ },
        MappingEntryView {
            target_name: "on_entity_collision"@,
            reference_name: "onEntityCollision"@,
        },
        MappingEntryView {
            target_name: "on_synced_block_event"@,
            reference_name: "onSyncedBlockEvent"@,
        },
        MappingEntryView { target_name: "random_tick"@, reference_name: "randomTick"@ },
        MappingEntryView { target_name: "can_place_at"@, reference_name: "canPlaceAt"@ },
        MappingEntryView { target_name: "placed"@, reference_name: "onBlockAdded"@ },
        MappingEntryView { target_name: "on_neighbor_update"@, reference_name: "neighborUpdate"@ },
        MappingEntryView { target_name: "prepare"@, reference_name: "prepare"@ },
        MappingEntryView {
            target_name: "get_state_for_neighbor_update"@,
            reference_name: "getStateForNeighborUpdate"@,
        },
        MappingEntryView { target_name: "on_scheduled_tick"@, reference_name: "scheduledTick"@ },
        MappingEntryView { target_name: "on_state_replaced"@, reference_name: "onStateReplaced"@ },
        MappingEntryView {
            target_name: "emits_redstone_power"@,
            reference_name: "emitsRedstonePower"@,
        },
        MappingEntryView {
            target_name: "get_weak_redstone_power"@,
            reference_name: "getWeakRedstonePower"@,
        },
        MappingEntryView {
            target_name: "get_strong_redstone_power"@,
            reference_name: "getStrongRedstonePower"@,
        },
        MappingEntryView {
            target_name: "get_comparator_output"@,
            reference_name: "getComparatorOutput"@,
        },
    ]
}

/// The block component's exclusion policy: the abstract state holder by
/// name, and every block-entity class by suffix.
pub open spec fn spec_block_exclusions() -> ExclusionsView {
    ExclusionsView {
        excluded_names: seq!["AbstractBlockState"@],
        excluded_name_suffixes: seq!["BlockEntity"@],
    }
}

/// The block table is valid: no target name and no reference name is
/// declared twice.
#[verifier::rlimit(50)]
pub proof fn lemma_block_mapping_wf()
    ensures
        spec_mapping_wf(spec_block_mapping()),
{
    reveal_strlit("normal_use");
    reveal_strlit("use_with_item");
    reveal_strlit("on_entity_collision");
    reveal_strlit("on_synced_block_event");
    reveal_strlit("random_tick");
    reveal_strlit("can_place_at");
    reveal_strlit("placed");
    reveal_strlit("on_neighbor_update");
    reveal_strlit("prepare");
    reveal_strlit("get_state_for_neighbor_update");
    reveal_strlit("on_scheduled_tick");
    reveal_strlit("on_state_replaced");
    reveal_strlit("emits_redstone_power");
    reveal_strlit("get_weak_redstone_power");
    reveal_strlit("get_strong_redstone_power");
    reveal_strlit("get_comparator_output");
    reveal_strlit("onUse");
    reveal_strlit("onUseWithItem");
    reveal_strlit("onEntityCollision");
    reveal_strlit("onSyncedBlockEvent");
    reveal_strlit("randomTick");
    reveal_strlit("canPlaceAt");
    reveal_strlit("onBlockAdded");
    reveal_strlit("neighborUpdate");
    reveal_strlit("getStateForNeighborUpdate");
    reveal_strlit("scheduledTick");
    reveal_strlit("onStateReplaced");
    reveal_strlit("emitsRedstonePower");
    reveal_strlit("getWeakRedstonePower");
    reveal_strlit("getStrongRedstonePower");
    reveal_strlit("getComparatorOutput");
    assert("normal_use"@.len() == 10);
    assert("use_with_item"@.len() == 13);
    assert("on_entity_collision"@.len() == 19);
    assert("on_synced_block_event"@.len() == 21);
    assert("random_tick"@.len() == 11);
    assert("can_place_at"@.len() == 12);
    assert("placed"@.len() == 6);
    assert("on_neighbor_update"@.len() == 18);
    assert("prepare"@.len() == 7);
    assert("get_state_for_neighbor_update"@.len() == 29);
    assert("on_scheduled_tick"@.len() == 17);
    assert("on_state_replaced"@.len() == 17);
    assert("emits_redstone_power"@.len() == 20);
    assert("get_weak_redstone_power"@.len() == 23);
    assert("get_strong_redstone_power"@.len() == 25);
    assert("get_comparator_output"@.len() == 21);
    assert("onUse"@.len() == 5);
    assert("onUseWithItem"@.len() == 13);
    assert("onEntityCollision"@.len() == 17);
    assert("onSyncedBlockEvent"@.len() == 18);
    assert("randomTick"@.len() == 10);
    assert("canPlaceAt"@.len() == 10);
    assert("onBlockAdded"@.len() == 12);
    assert("neighborUpdate"@.len() == 14);
    assert("getStateForNeighborUpdate"@.len() == 25);
    assert("scheduledTick"@.len() == 13);
    assert("onStateReplaced"@.len() == 15);
    assert("emitsRedstonePower"@.len() == 18);
    assert("getWeakRedstonePower"@.len() == 20);
    assert("getStrongRedstonePower"@.len() == 22);
    assert("getComparatorOutput"@.len() == 19);
    assert("on_scheduled_tick"@ != "on_state_replaced"@) by {
        assert("on_scheduled_tick"@[4] != "on_state_replaced"@[4]);
    }
    assert("on_synced_block_event"@ != "get_comparator_output"@) by {
        assert("on_synced_block_event"@[0] != "get_comparator_output"@[0]);
    }
    assert("onUseWithItem"@ != "scheduledTick"@) by {
        assert("onUseWithItem"@[0] != "scheduledTick"@[0]);
    }
    assert("randomTick"@ != "canPlaceAt"@) by {
        assert("randomTick"@[0] != "canPlaceAt"@[0]);
    }
    assert("onSyncedBlockEvent"@ != "emitsRedstonePower"@) by {
        assert("onSyncedBlockEvent"@[0] != "emitsRedstonePower"@[0]);
    }
    let m = spec_block_mapping();
    assert forall|i: int, j: int|
        0 <= i < j < m.len() implies (#[trigger] m[i]).target_name != (
    #[trigger] m[j]).target_name by {}
    assert forall|i: int, j: int|
        0 <= i < j < m.len() implies (#[trigger] m[i]).reference_name != (
    #[trigger] m[j]).reference_name by {}
}

impl MinecraftComponent for BlockComponent {
    open spec fn spec_component_type() -> Seq<char> {
        "blocks"@
    }

    open spec fn spec_rust_source_path() -> Seq<char> {
        "sources/Pumpkin/pumpkin/src/block/blocks"@
    }

    open spec fn spec_java_source_path() -> Seq<char> {
        "sources/yarn/build/namedSrc/net/minecraft/block"@
    }

    open spec fn spec_mapping() -> Seq<MappingEntryView> {
        spec_block_mapping()
    }

    open spec fn spec_exclusions() -> ExclusionsView {
        spec_block_exclusions()
    }

    fn component_type() -> (r: &'static str) {
        "blocks"
    }

    fn rust_source_path() -> (r: &'static str) {
        "sources/Pumpkin/pumpkin/src/block/blocks"
    }

    fn java_source_path() -> (r: &'static str) {
        "sources/yarn/build/namedSrc/net/minecraft/block"
    }

    fn method_mapping() -> (m: Mapping) {
        let mut entries: Vec<MappingEntry> = Vec::new();
        entries.push(MappingEntry::new("normal_use", "onUse"));
        entries.push(MappingEntry::new("use_with_item", "onUseWithItem"));
        entries.push(MappingEntry::new("on_entity_collision", "onEntityCollision"));
        entries.push(MappingEntry::new("on_synced_block_event", "onSyncedBlockEvent"));
        entries.push(MappingEntry::new("random_tick", "randomTick"));
        entries.push(MappingEntry::new("can_place_at", "canPlaceAt"));
        entries.push(MappingEntry::new("placed", "onBlockAdded"));
        entries.push(MappingEntry::new("on_neighbor_update", "neighborUpdate"));
        entries.push(MappingEntry::new("prepare", "prepare"));
        entries.push(MappingEntry::new("get_state_for_neighbor_update", "getStateForNeighborUpdate"));
        entries.push(MappingEntry::new("on_scheduled_tick", "scheduledTick"));
        entries.push(MappingEntry::new("on_state_replaced", "onStateReplaced"));
        entries.push(MappingEntry::new("emits_redstone_power", "emitsRedstonePower"));
        entries.push(MappingEntry::new("get_weak_redstone_power", "getWeakRedstonePower"));
        entries.push(MappingEntry::new("get_strong_redstone_power", "getStrongRedstonePower"));
        entries.push(MappingEntry::new("get_comparator_output", "getComparatorOutput"));
        proof {
            assert(entries.deep_view() =~= spec_block_mapping());
            lemma_block_mapping_wf();
        }
        Mapping { entries }
    }

    fn exclusions() -> (e: Exclusions) {
        let mut excluded_names: Vec<String> = Vec::new();
        excluded_names.push(String::from_str("AbstractBlockState"));
        let mut excluded_name_suffixes: Vec<String> = Vec::new();
        excluded_name_suffixes.push(String::from_str("BlockEntity"));
        proof {
            assert(excluded_names.deep_view() =~= seq!["AbstractBlockState"@]);
            assert(excluded_name_suffixes.deep_view() =~= seq!["BlockEntity"@]);
        }
        Exclusions { excluded_names, excluded_name_suffixes }
    }
}

/// The block component's validated method table.
pub fn get_method_mapping() -> (m: Mapping)
    ensures
        m@ == spec_block_mapping(),
        spec_mapping_wf(m@),
{
    BlockComponent::method_mapping()
}

/// Whether a method name is a tracked block hook.
pub fn is_core_block_method(method_name: &str) -> (b: bool)
    ensures
        b == spec_is_trackable(spec_block_mapping(), method_name@),
{
    BlockComponent::is_core_method(method_name)
}

/// The target-language equivalent of a reference-language block method
/// name.
pub fn get_rust_equivalent(java_method: &str) -> (r: Option<String>)
    ensures
        r.deep_view() == spec_target_for(spec_block_mapping(), java_method@),
{
    BlockComponent::get_rust_equivalent(java_method)
}

} // verus!
