//! Measures how completely a reimplementation of a reference codebase has
//! reproduced a declared set of lifecycle-hook methods, per domain component.
//!
//! The pipeline: a structural extractor turns raw source text into an
//! inventory of (container, method) facts restricted to trackable hook
//! names; a coverage analyzer correlates the reference-language and
//! target-language inventories through a name-mapping table and produces a
//! sorted, deterministic coverage report.

use vstd::prelude::*;
use vstd::string::*;

pub mod analyzers;
pub mod components;
pub mod extractors;
pub mod mapping;
pub mod names;
pub mod types;

pub use mapping::Exclusions;
pub use mapping::Mapping;
pub use names::fold_char;
pub use types::AnalysisResult;
pub use types::ClassInfo;
pub use types::ClassMethods;
pub use types::ClassTracking;
pub use types::ComponentOutputFiles;
pub use types::ImplementationStatus;
pub use types::MethodTracking;

use mapping::{spec_is_trackable, spec_mapping_wf, spec_target_for, ExclusionsView,
    MappingEntryView};

verus! {

/// One analyzable domain area of the game: its source roots in the two
/// languages, its trackable-method mapping table, its exclusion policy,
/// and the names of its report artifacts. Each implementation is one
/// registry entry; its table is proved duplicate-free, so no lookup over
/// it depends on scan order.
pub trait MinecraftComponent {
    /// The component's name, e.g. the block, item or entity domain.
    spec fn spec_component_type() -> Seq<char>;

    /// The root of the target-language sources.
    spec fn spec_rust_source_path() -> Seq<char>;

    /// The root of the reference-language sources.
    spec fn spec_java_source_path() -> Seq<char>;

    /// The component's trackable-method table, as
    /// (target name, reference name) pairs.
    spec fn spec_mapping() -> Seq<MappingEntryView>;

    /// The component's exclusion policy for reference class names.
    spec fn spec_exclusions() -> ExclusionsView;

    /// The component type (e.g. "blocks", "items", "entities").
    fn component_type() -> (r: &'static str)
        ensures
            r@ == Self::spec_component_type(),
    ;

    /// The root directory of the target-language sources for this
    /// component.
    fn rust_source_path() -> (r: &'static str)
        ensures
            r@ == Self::spec_rust_source_path(),
    ;

    /// The root directory of the reference-language sources for this
    /// component.
    fn java_source_path() -> (r: &'static str)
        ensures
            r@ == Self::spec_java_source_path(),
    ;

    /// The mapping between target-language and reference-language method
    /// names, as a validated table.
    fn method_mapping() -> (m: Mapping)
        ensures
            m@ == Self::spec_mapping(),
            spec_mapping_wf(m@),
    ;

    /// The component's exclusion policy.
    fn exclusions() -> (e: Exclusions)
        ensures
            e@ == Self::spec_exclusions(),
    ;

    /// Whether a method name is a tracked hook of this component.
    fn is_core_method(method_name: &str) -> (b: bool)
        ensures
            b == spec_is_trackable(Self::spec_mapping(), method_name@),
    {
        let m = Self::method_mapping();
        m.is_trackable(method_name)
    }

    /// The target-language equivalent of a reference-language method name.
    fn get_rust_equivalent(java_method: &str) -> (r: Option<String>)
        ensures
            r.deep_view() == spec_target_for(Self::spec_mapping(), java_method@),
    {
        let m = Self::method_mapping();
        m.target_for(java_method)
    }

    /// The names of the three report artifacts of this component.
    fn output_files() -> (f: ComponentOutputFiles)
        ensures
            f.rust_methods@ == "outputs/pumpkin_"@ + Self::spec_component_type() + ".json"@,
            f.java_methods@ == "outputs/pumpkin_"@ + Self::spec_component_type() + "_java.json"@,
            f.analysis@ == "outputs/pumpkin_"@ + Self::spec_component_type() + "_analysis.json"@,
    {
        ComponentOutputFiles {
            rust_methods: String::from_str("outputs/pumpkin_").concat(Self::component_type())
                .concat(".json"),
            java_methods: String::from_str("outputs/pumpkin_").concat(Self::component_type())
                .concat("_java.json"),
            analysis: String::from_str("outputs/pumpkin_").concat(Self::component_type()).concat(
                "_analysis.json",
            ),
        }
    }
}

} // verus!
