//! The data model: per-language class inventories, per-method and per-class
//! tracking records, and the terminal analysis artifact of one component.
//!
//! Percentages are carried as integer tenths of a percent (`0 ..= 1000`), so
//! every record is exact; a presentation layer may render them with one
//! decimal place.

use vstd::arithmetic::div_mod::{lemma_div_is_ordered, lemma_div_multiples_vanish};
use vstd::arithmetic::mul::lemma_mul_inequality;
use vstd::prelude::*;

verus! {

/// One discovered container type of one language: its name, the trackable
/// methods found inside it (duplicates possible, order not meaningful), and
/// whether the declaration is an instantiable (concrete) type rather than an
/// interface-like construct.
#[derive(Clone, Debug)]
pub struct ClassMethods {
    pub class_name: String,
    pub methods: Vec<String>,
    pub is_real_class: bool,
}

/// The mathematical value of a [`ClassMethods`] record.
pub ghost struct ClassMethodsView {
    pub class_name: Seq<char>,
    pub methods: Seq<Seq<char>>,
    pub is_real_class: bool,
}

impl View for ClassMethods {
    type V = ClassMethodsView;

    open spec fn view(&self) -> ClassMethodsView {
        ClassMethodsView {
            class_name: self.class_name@,
            methods: self.methods.deep_view(),
            is_real_class: self.is_real_class,
        }
    }
}

impl DeepView for ClassMethods {
    type V = ClassMethodsView;

    open spec fn deep_view(&self) -> ClassMethodsView {
        self.view()
    }
}

/// A richer per-declaration record: the declared name, its methods, and the
/// declared supertypes.
#[derive(Clone, Debug)]
pub struct ClassInfo {
    pub name: String,
    pub methods: Vec<String>,
    pub extends: Option<String>,
    pub implements: Vec<String>,
}

/// The mathematical value of a [`ClassInfo`] record.
pub ghost struct ClassInfoView {
    pub name: Seq<char>,
    pub methods: Seq<Seq<char>>,
    pub extends: Option<Seq<char>>,
    pub implements: Seq<Seq<char>>,
}

impl View for ClassInfo {
    type V = ClassInfoView;

    open spec fn view(&self) -> ClassInfoView {
        ClassInfoView {
            name: self.name@,
            methods: self.methods.deep_view(),
            extends: self.extends.deep_view(),
            implements: self.implements.deep_view(),
        }
    }
}

/// Whether a tracked reference method has a mapped equivalent in the target
/// codebase.
#[derive(Clone, Copy, Debug, PartialEq, Eq, Structural)]
pub enum ImplementationStatus {
    Implemented,
    NotImplemented,
}

/// One tracked reference-language method of a class under analysis, with its
/// implementation status.
#[derive(Clone, Debug)]
pub struct MethodTracking {
    pub method_name: String,
    pub status: ImplementationStatus,
}

/// The mathematical value of a [`MethodTracking`] record.
pub ghost struct MethodTrackingView {
    pub method_name: Seq<char>,
    pub status: ImplementationStatus,
}

impl View for MethodTracking {
    type V = MethodTrackingView;

    open spec fn view(&self) -> MethodTrackingView {
        MethodTrackingView { method_name: self.method_name@, status: self.status }
    }
}

impl DeepView for MethodTracking {
    type V = MethodTrackingView;

    open spec fn deep_view(&self) -> MethodTrackingView {
        self.view()
    }
}

/// The coverage record of one reference-language class: every tracked method
/// with its status, and the share of them that are implemented, in tenths of
/// a percent.
#[derive(Clone, Debug)]
pub struct ClassTracking {
    pub class_name: String,
    pub methods: Vec<MethodTracking>,
    pub percent_tenths: u32,
}

/// The mathematical value of a [`ClassTracking`] record.
pub ghost struct ClassTrackingView {
    pub class_name: Seq<char>,
    pub methods: Seq<MethodTrackingView>,
    pub percent_tenths: u32,
}

impl View for ClassTracking {
    type V = ClassTrackingView;

    open spec fn view(&self) -> ClassTrackingView {
        ClassTrackingView {
            class_name: self.class_name@,
            methods: self.methods.deep_view(),
            percent_tenths: self.percent_tenths,
        }
    }
}

impl DeepView for ClassTracking {
    type V = ClassTrackingView;

    open spec fn deep_view(&self) -> ClassTrackingView {
        self.view()
    }
}

/// The terminal artifact of one component's analysis: every tracked class
/// sorted by name, and the component-wide coverage in tenths of a percent.
#[derive(Clone, Debug)]
pub struct AnalysisResult {
    pub component_type: String,
    pub classes: Vec<ClassTracking>,
    pub percent_tenths: u32,
}

/// The mathematical value of an [`AnalysisResult`].
pub ghost struct AnalysisResultView {
    pub component_type: Seq<char>,
    pub classes: Seq<ClassTrackingView>,
    pub percent_tenths: u32,
}

impl View for AnalysisResult {
    type V = AnalysisResultView;

    open spec fn view(&self) -> AnalysisResultView {
        AnalysisResultView {
            component_type: self.component_type@,
            classes: self.classes.deep_view(),
            percent_tenths: self.percent_tenths,
        }
    }
}

/// The three per-component report file names: the target-language inventory,
/// the reference-language inventory, and the analysis result.
#[derive(Clone, Debug)]
pub struct ComponentOutputFiles {
    pub rust_methods: String,
    pub java_methods: String,
    pub analysis: String,
}

/// How many of the tracked methods are implemented.
pub open spec fn spec_implemented_count(ms: Seq<MethodTrackingView>) -> nat
    decreases ms.len(),
{
    if ms.len() == 0 {
        0
    } else {
        spec_implemented_count(ms.drop_last()) + if ms.last().status
            == ImplementationStatus::Implemented {
            1nat
        } else {
            0nat
        }
    }
}

/// How many of the tracked methods are not implemented.
pub open spec fn spec_not_implemented_count(ms: Seq<MethodTrackingView>) -> nat
    decreases ms.len(),
{
    if ms.len() == 0 {
        0
    } else {
        spec_not_implemented_count(ms.drop_last()) + if ms.last().status
            == ImplementationStatus::NotImplemented {
            1nat
        } else {
            0nat
        }
    }
}

/// Every tracked method is either implemented or not: the two counts always
/// partition the method list.
pub proof fn lemma_status_counts_partition(ms: Seq<MethodTrackingView>)
    ensures
        spec_implemented_count(ms) + spec_not_implemented_count(ms) == ms.len(),
    decreases ms.len(),
{
    if ms.len() != 0 {
        lemma_status_counts_partition(ms.drop_last());
    }
}

/// No more methods are implemented than there are methods.
pub proof fn lemma_implemented_count_le_len(ms: Seq<MethodTrackingView>)
    ensures
        spec_implemented_count(ms) <= ms.len(),
    decreases ms.len(),
{
    if ms.len() != 0 {
        lemma_implemented_count_le_len(ms.drop_last());
    }
}

/// The share of `implemented` in `total`, in tenths of a percent, rounded
/// towards zero. A total of zero counts as full coverage: an empty obligation
/// is vacuously met.
pub open spec fn spec_percent_tenths(implemented: nat, total: nat) -> nat {
    if total > 0 {
        implemented * 1000 / total
    } else {
        1000
    }
}

/// The percentage always lies between 0 and 100: its tenths between 0
/// and 1000.
pub proof fn lemma_percent_tenths_in_range(implemented: nat, total: nat)
    requires
        implemented <= total,
    ensures
        spec_percent_tenths(implemented, total) <= 1000,
{
    if total > 0 {
        lemma_mul_inequality(implemented as int, total as int, 1000);
        lemma_div_is_ordered((implemented * 1000) as int, (total * 1000) as int, total as int);
        lemma_div_multiples_vanish(1000, total as int);
    }
}

/// Computes the coverage share in tenths of a percent.
pub fn percent_tenths(implemented: usize, total: usize) -> (r: u32)
    requires
        implemented <= total,
    ensures
        r == spec_percent_tenths(implemented as nat, total as nat),
{
    if total == 0 {
        1000
    } else {
        proof {
            lemma_percent_tenths_in_range(implemented as nat, total as nat);
            assert(implemented as u128 * 1000 < u128::MAX) by (nonlinear_arith)
                requires
                    implemented <= usize::MAX,
            ;
        }
        let num: u128 = implemented as u128 * 1000;
        let q: u128 = num / (total as u128);
        q as u32
    }
}

/// A coverage record is well formed when its stored percentage is exactly the
/// share of implemented methods among its tracked methods.
pub open spec fn class_tracking_wf(ct: ClassTrackingView) -> bool {
    ct.percent_tenths == spec_percent_tenths(spec_implemented_count(ct.methods), ct.methods.len())
}

} // verus!
