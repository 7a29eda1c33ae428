//! The coverage analyzer: cross-references the reference-language and
//! target-language inventories through a component's mapping table and
//! exclusion policy, and produces the sorted coverage report.
//!
//! The analyzer is pure and total: it has no error conditions of its own.
//! Containers are correlated across the two languages by ASCII-case-folded
//! name equality; a reference class with no matching target container is
//! not an error, its methods are simply all unimplemented. Where several
//! target containers fold to one name, the first in inventory order is
//! used, so the result never depends on scan order.

use crate::mapping::{
    spec_excluded, spec_is_trackable, spec_target_for, Exclusions, ExclusionsView, Mapping,
    MappingEntryView,
};
use crate::names::{
    lemma_lex_le_total, lemma_lex_le_transitive, lex_le, names_fold_eq, spec_fold_name,
    spec_lex_le, str_eq,
};
use crate::types::{
    class_tracking_wf, lemma_implemented_count_le_len, lemma_percent_tenths_in_range,
    lemma_status_counts_partition, percent_tenths, spec_implemented_count,
    spec_not_implemented_count, spec_percent_tenths, AnalysisResult, ClassMethods,
    ClassMethodsView, ClassTracking, ClassTrackingView, ImplementationStatus, MethodTracking,
    MethodTrackingView,
};
use crate::extractors::spec_inv_methods_trackable;
use vstd::arithmetic::div_mod::lemma_basic_div;
use vstd::prelude::*;

verus! {

/// The method set consulted for a reference class: the methods of the
/// first target container whose case-folded name equals the given folded
/// name, or no methods at all when no container matches.
pub open spec fn spec_lookup_target(target: Seq<ClassMethodsView>, folded: Seq<char>) -> Seq<
    Seq<char>,
>
    decreases target.len(),
{
    if target.len() == 0 {
        Seq::empty()
    } else if spec_fold_name(target.first().class_name) == folded {
        target.first().methods
    } else {
        spec_lookup_target(target.drop_first(), folded)
    }
}

/// The status of one tracked reference method: implemented exactly when
/// the mapping carries it and the mapped target name occurs among the
/// correlated target container's methods.
pub open spec fn spec_method_status(
    m: Seq<MappingEntryView>,
    tmethods: Seq<Seq<char>>,
    ref_method: Seq<char>,
) -> ImplementationStatus {
    match spec_target_for(m, ref_method) {
        Some(t) => if tmethods.contains(t) {
            ImplementationStatus::Implemented
        } else {
            ImplementationStatus::NotImplemented
        },
        None => ImplementationStatus::NotImplemented,
    }
}

/// The tracking records of all methods of one reference class, in the
/// inventory's method order.
pub open spec fn spec_track_methods(
    m: Seq<MappingEntryView>,
    tmethods: Seq<Seq<char>>,
    methods: Seq<Seq<char>>,
) -> Seq<MethodTrackingView> {
    methods.map_values(
        |meth: Seq<char>|
            MethodTrackingView { method_name: meth, status: spec_method_status(m, tmethods, meth) },
    )
}

/// The coverage record of one reference class.
pub open spec fn spec_track_class(
    m: Seq<MappingEntryView>,
    target: Seq<ClassMethodsView>,
    c: ClassMethodsView,
) -> ClassTrackingView {
    let tmethods = spec_lookup_target(target, spec_fold_name(c.class_name));
    let ms = spec_track_methods(m, tmethods, c.methods);
    ClassTrackingView {
        class_name: c.class_name,
        methods: ms,
        percent_tenths: spec_percent_tenths(spec_implemented_count(ms), ms.len()) as u32,
    }
}

/// A reference class enters the report exactly when it is concrete, has at
/// least one tracked method, and is not excluded by the component's
/// policy.
pub open spec fn spec_tracked_class(c: ClassMethodsView, e: ExclusionsView) -> bool {
    c.is_real_class && c.methods.len() > 0 && !spec_excluded(e, c.class_name)
}

/// The coverage records of every tracked reference class, in inventory
/// order, before sorting.
pub open spec fn spec_unsorted_tracking(
    reference: Seq<ClassMethodsView>,
    target: Seq<ClassMethodsView>,
    m: Seq<MappingEntryView>,
    e: ExclusionsView,
) -> Seq<ClassTrackingView>
    decreases reference.len(),
{
    if reference.len() == 0 {
        Seq::empty()
    } else {
        let prev = spec_unsorted_tracking(reference.drop_last(), target, m, e);
        if spec_tracked_class(reference.last(), e) {
            prev.push(spec_track_class(m, target, reference.last()))
        } else {
            prev
        }
    }
}

/// Inserts a record into a name-sorted report, before the first entry
/// whose class name does not precede it.
pub open spec fn spec_insert_sorted(
    sorted: Seq<ClassTrackingView>,
    x: ClassTrackingView,
) -> Seq<ClassTrackingView>
    decreases sorted.len(),
{
    if sorted.len() == 0 {
        seq![x]
    } else if spec_lex_le(x.class_name, sorted.first().class_name) {
        seq![x] + sorted
    } else {
        seq![sorted.first()] + spec_insert_sorted(sorted.drop_first(), x)
    }
}

/// Sorts a report by class name, ascending, by insertion.
pub open spec fn spec_sort_tracking(s: Seq<ClassTrackingView>) -> Seq<ClassTrackingView>
    decreases s.len(),
{
    if s.len() == 0 {
        Seq::empty()
    } else {
        spec_insert_sorted(spec_sort_tracking(s.drop_last()), s.last())
    }
}

/// The whole analysis of one component: every tracked reference class's
/// coverage record, sorted by class name ascending.
pub open spec fn spec_analyze(
    reference: Seq<ClassMethodsView>,
    target: Seq<ClassMethodsView>,
    m: Seq<MappingEntryView>,
    e: ExclusionsView,
) -> Seq<ClassTrackingView> {
    spec_sort_tracking(spec_unsorted_tracking(reference, target, m, e))
}

/// A report is sorted when its class names ascend.
pub open spec fn spec_tracking_sorted(s: Seq<ClassTrackingView>) -> bool {
    forall|i: int, j: int|
        0 <= i < j < s.len() ==> spec_lex_le(
            (#[trigger] s[i]).class_name,
            (#[trigger] s[j]).class_name,
        )
}

/// Decides whether a name occurs in a list of names.
pub fn contains_str(v: &Vec<String>, s: &str) -> (r: bool)
    ensures
        r == v.deep_view().contains(s@),
{
    let n = v.len();
    let mut i: usize = 0;
    while i < n
        invariant
            n == v.len(),
            v.deep_view().len() == n,
            i <= n,
            forall|k: int| 0 <= k < i ==> v.deep_view()[k] != s@,
        decreases n - i,
    {
        if str_eq(v[i].as_str(), s) {
            assert(v.deep_view()[i as int] == s@);
            return true;
        }
        i = i + 1;
    }
    false
}

/// Finds the first target container whose folded name equals the folded
/// reference name, if any.
fn find_target(target: &Vec<ClassMethods>, name: &str) -> (r: Option<usize>)
    ensures
        match r {
            Some(k) => k < target.deep_view().len() && spec_lookup_target(
                target.deep_view(),
                spec_fold_name(name@),
            ) == target.deep_view()[k as int].methods,
            None => spec_lookup_target(target.deep_view(), spec_fold_name(name@))
                == Seq::<Seq<char>>::empty(),
        },
{
    let ghost tv = target.deep_view();
    let ghost folded = spec_fold_name(name@);
    let n = target.len();
    let mut i: usize = 0;
    proof {
        assert(tv.skip(0) =~= tv);
    }
    while i < n
        invariant
            n == target.len(),
            tv == target.deep_view(),
            tv.len() == n,
            i <= n,
            folded == spec_fold_name(name@),
            spec_lookup_target(tv, folded) == spec_lookup_target(tv.skip(i as int), folded),
        decreases n - i,
    {
        proof {
            assert(tv.skip(i as int).first() == tv[i as int]);
        }
        let tc = &target[i];
        proof {
            assert(tc@.class_name == tv[i as int].class_name);
        }
        if names_fold_eq(tc.class_name.as_str(), name) {
            proof {
                assert(spec_fold_name(tv[i as int].class_name) == folded);
            }
            return Some(i);
        }
        proof {
            assert(tv.skip(i as int).drop_first() =~= tv.skip(i + 1));
        }
        i = i + 1;
    }
    assert(tv.skip(n as int) =~= Seq::<ClassMethodsView>::empty());
    None
}

/// Inserts one record into a name-sorted report.
fn insert_sorted(out: &mut Vec<ClassTracking>, x: ClassTracking)
    ensures
        final (out).deep_view() == spec_insert_sorted(old(out).deep_view(), x@),
{
    let ghost pre = *out;
    let ghost outv = out.deep_view();
    let n = out.len();
    let mut pos: usize = n;
    let mut i: usize = 0;
    while i < n
        invariant
            n == out.len(),
            pre == *out,
            pre == *old(out),
            outv == out.deep_view(),
            outv.len() == n,
            i <= n,
            pos == n || (pos < n && pos <= i && spec_lex_le(
                x@.class_name,
                outv[pos as int].class_name,
            )),
            forall|k: int| 0 <= k < i && k < pos ==> !spec_lex_le(x@.class_name, outv[k].class_name),
        decreases n - i,
    {
        if pos == n && lex_le(x.class_name.as_str(), out[i].class_name.as_str()) {
            pos = i;
        }
        i = i + 1;
    }
    proof {
        lemma_insert_sorted_position(outv, x@, pos as int);
    }
    out.insert(pos, x);
    proof {
        assert(out.deep_view() =~= outv.take(pos as int) + seq![x@] + outv.skip(pos as int));
    }
}

/// Where the insertion lands: before the first entry that does not precede
/// the new record.
proof fn lemma_insert_sorted_position(s: Seq<ClassTrackingView>, x: ClassTrackingView, pos: int)
    requires
        0 <= pos <= s.len(),
        forall|k: int| 0 <= k < pos ==> !spec_lex_le(x.class_name, (#[trigger] s[k]).class_name),
        pos < s.len() ==> spec_lex_le(x.class_name, s[pos].class_name),
    ensures
        spec_insert_sorted(s, x) =~= s.take(pos) + seq![x] + s.skip(pos),
    decreases s.len(),
{
    if s.len() == 0 {
    } else if pos == 0 {
    } else {
        assert(!spec_lex_le(x.class_name, s[0].class_name));
        assert(forall|k: int|
            0 <= k < pos - 1 ==> !spec_lex_le(
                x.class_name,
                (#[trigger] s.drop_first()[k]).class_name,
            ) == !spec_lex_le(x.class_name, s[k + 1].class_name));
        lemma_insert_sorted_position(s.drop_first(), x, pos - 1);
        assert(s.drop_first().take(pos - 1) =~= s.take(pos).drop_first());
        assert(s.drop_first().skip(pos - 1) =~= s.skip(pos));
    }
}

/// Analyzes one component: produces the coverage record of every tracked
/// reference class, sorted by class name ascending. `rust_classes` is the
/// target-language inventory being measured; `java_classes` the
/// reference-language inventory being measured against.
pub fn analyze_implementation(
    rust_classes: &Vec<ClassMethods>,
    java_classes: &Vec<ClassMethods>,
    mapping: &Mapping,
    exclusions: &Exclusions,
) -> (r: Vec<ClassTracking>)
    ensures
        r.deep_view() == spec_analyze(
            java_classes.deep_view(),
            rust_classes.deep_view(),
            mapping@,
            exclusions@,
        ),
        spec_tracking_sorted(r.deep_view()),
{
    let ghost refv = java_classes.deep_view();
    let ghost tarv = rust_classes.deep_view();
    let mut tracking: Vec<ClassTracking> = Vec::new();
    let n = java_classes.len();
    let mut i: usize = 0;
    proof {
        assert(refv.take(0) =~= Seq::<ClassMethodsView>::empty());
    }
    while i < n
        invariant
            n == java_classes.len(),
            refv == java_classes.deep_view(),
            tarv == rust_classes.deep_view(),
            refv.len() == n,
            i <= n,
            tracking.deep_view() == spec_unsorted_tracking(
                refv.take(i as int),
                tarv,
                mapping@,
                exclusions@,
            ),
        decreases n - i,
    {
        let ghost cv = refv[i as int];
        proof {
            assert(java_classes[i as int]@ == cv);
            assert(refv.take(i + 1).drop_last() =~= refv.take(i as int));
            assert(refv.take(i + 1).last() == cv);
        }
        let c = &java_classes[i];
        if c.is_real_class && c.methods.len() > 0 && !exclusions.is_excluded(c.class_name.as_str())
        {
            let ct = track_one_class(rust_classes, c, mapping);
            proof {
                assert(ct@ == spec_track_class(mapping@, tarv, cv));
            }
            tracking.push(ct);
            proof {
                assert(tracking.deep_view() =~= spec_unsorted_tracking(
                    refv.take(i as int),
                    tarv,
                    mapping@,
                    exclusions@,
                ).push(spec_track_class(mapping@, tarv, cv)));
            }
        } else {
            proof {
                assert(!spec_tracked_class(cv, exclusions@));
            }
        }
        i = i + 1;
    }
    proof {
        assert(refv.take(n as int) =~= refv);
    }
    let ghost unsorted = spec_unsorted_tracking(refv, tarv, mapping@, exclusions@);
    proof {
        assert(tracking.deep_view() == unsorted);
    }
    let mut rest = tracking;
    proof {
        assert(rest.deep_view() == unsorted);
    }
    let mut sorted: Vec<ClassTracking> = Vec::new();
    let ghost total = unsorted.len();
    let mut done: usize = 0;
    proof {
        assert(unsorted.take(0) =~= Seq::<ClassTrackingView>::empty());
        assert(unsorted.skip(0) =~= unsorted);
        assert(rest.deep_view().len() == rest@.len());
        assert(rest@.len() == rest.len());
        assert(total <= usize::MAX);
    }
    while rest.len() > 0
        invariant
            total == unsorted.len(),
            total <= usize::MAX,
            done <= total,
            rest.deep_view() == unsorted.skip(done as int),
            sorted.deep_view() == spec_sort_tracking(unsorted.take(done as int)),
        decreases rest.len(),
    {
        let ghost restv = rest.deep_view();
        proof {
            assert(restv.len() == total - done);
            assert(restv[0] == unsorted[done as int]);
        }
        let x = rest.remove(0);
        proof {
            assert(x@ == restv[0]);
            assert(rest.deep_view() =~= restv.drop_first());
            assert(unsorted.skip(done as int).drop_first() =~= unsorted.skip(done + 1));
            assert(unsorted.take(done + 1).drop_last() =~= unsorted.take(done as int));
            assert(unsorted.take(done + 1).last() == unsorted[done as int]);
        }
        insert_sorted(&mut sorted, x);
        done = done + 1;
    }
    proof {
        assert(unsorted.skip(done as int).len() == 0);
        assert(done == total);
        assert(unsorted.take(done as int) =~= unsorted);
        lemma_sort_tracking_sorted(unsorted);
    }
    sorted
}

/// Builds the coverage record of one tracked reference class.
fn track_one_class(rust_classes: &Vec<ClassMethods>, c: &ClassMethods, mapping: &Mapping) -> (r:
    ClassTracking)
    ensures
        r@ == spec_track_class(mapping@, rust_classes.deep_view(), c@),
{
    let ghost tarv = rust_classes.deep_view();
    let ghost tmethods = spec_lookup_target(tarv, spec_fold_name(c@.class_name));
    let tidx = find_target(rust_classes, c.class_name.as_str());
    let mut mt: Vec<MethodTracking> = Vec::new();
    let mut implemented: usize = 0;
    let mn = c.methods.len();
    let mut j: usize = 0;
    proof {
        assert(c@.methods.take(0) =~= Seq::<Seq<char>>::empty());
        assert(spec_track_methods(mapping@, tmethods, c@.methods.take(0)) =~= Seq::<
            MethodTrackingView,
        >::empty());
    }
    while j < mn
        invariant
            mn == c.methods.len(),
            c@.methods.len() == mn,
            j <= mn,
            tarv == rust_classes.deep_view(),
            tmethods == spec_lookup_target(tarv, spec_fold_name(c@.class_name)),
            match tidx {
                Some(k) => k < tarv.len() && tmethods == tarv[k as int].methods,
                None => tmethods == Seq::<Seq<char>>::empty(),
            },
            mt.deep_view() == spec_track_methods(mapping@, tmethods, c@.methods.take(j as int)),
            mt.len() == j,
            implemented <= j,
            implemented == spec_implemented_count(mt.deep_view()),
        decreases mn - j,
    {
        let meth = &c.methods[j];
        let ghost mv = c@.methods[j as int];
        proof {
            assert(meth@ == mv);
        }
        let status = match mapping.target_for(meth.as_str()) {
            Some(t) => {
                let present = match tidx {
                    Some(k) => contains_str(&rust_classes[k].methods, t.as_str()),
                    None => false,
                };
                proof {
                    assert(spec_target_for(mapping@, mv) == Some(t@));
                }
                if present {
                    ImplementationStatus::Implemented
                } else {
                    ImplementationStatus::NotImplemented
                }
            },
            None => ImplementationStatus::NotImplemented,
        };
        proof {
            assert(status == spec_method_status(mapping@, tmethods, mv));
        }
        let ghost mt_before = mt.deep_view();
        mt.push(MethodTracking { method_name: meth.clone(), status });
        implemented = if matches!(status, ImplementationStatus::Implemented) {
            implemented + 1
        } else {
            implemented
        };
        proof {
            assert(mt.deep_view() =~= mt_before.push(
                MethodTrackingView { method_name: mv, status },
            ));
            assert(c@.methods.take(j + 1).drop_last() =~= c@.methods.take(j as int));
            assert(mt.deep_view() =~= spec_track_methods(
                mapping@,
                tmethods,
                c@.methods.take(j + 1),
            ));
            assert(mt.deep_view().drop_last() =~= mt_before);
            lemma_implemented_count_le_len(mt.deep_view());
        }
        j = j + 1;
    }
    proof {
        assert(c@.methods.take(mn as int) =~= c@.methods);
        lemma_implemented_count_le_len(mt.deep_view());
    }
    let pct = percent_tenths(implemented, mt.len());
    ClassTracking { class_name: c.class_name.clone(), methods: mt, percent_tenths: pct }
}

/// How many tracked methods a whole report covers.
pub open spec fn spec_total_methods(ts: Seq<ClassTrackingView>) -> nat
    decreases ts.len(),
{
    if ts.len() == 0 {
        0
    } else {
        spec_total_methods(ts.drop_last()) + ts.last().methods.len()
    }
}

/// How many tracked methods a whole report finds implemented.
pub open spec fn spec_total_implemented(ts: Seq<ClassTrackingView>) -> nat
    decreases ts.len(),
{
    if ts.len() == 0 {
        0
    } else {
        spec_total_implemented(ts.drop_last()) + spec_implemented_count(ts.last().methods)
    }
}

/// The component-wide coverage in tenths of a percent: the implemented
/// share over every tracked method of every tracked class. A component
/// with nothing to track is vacuously fully covered.
pub open spec fn spec_component_percent(ts: Seq<ClassTrackingView>) -> nat {
    spec_percent_tenths(spec_total_implemented(ts), spec_total_methods(ts))
}

/// A component with no tracked classes reports full coverage: this is the
/// one fixed fallback policy for the empty case.
pub proof fn lemma_empty_component_full_coverage()
    ensures
        spec_component_percent(Seq::<ClassTrackingView>::empty()) == 1000,
{
}

/// No more methods are implemented in a report than it tracks.
pub proof fn lemma_total_implemented_le(ts: Seq<ClassTrackingView>)
    ensures
        spec_total_implemented(ts) <= spec_total_methods(ts),
    decreases ts.len(),
{
    if ts.len() != 0 {
        lemma_total_implemented_le(ts.drop_last());
        lemma_implemented_count_le_len(ts.last().methods);
    }
}

proof fn lemma_total_methods_take_le(ts: Seq<ClassTrackingView>, j: int)
    requires
        0 <= j <= ts.len(),
    ensures
        spec_total_methods(ts.take(j)) <= spec_total_methods(ts),
    decreases ts.len() - j,
{
    if j == ts.len() {
        assert(ts.take(j) =~= ts);
    } else {
        lemma_total_methods_take_le(ts, j + 1);
        assert(ts.take(j + 1).drop_last() =~= ts.take(j));
        assert(ts.take(j + 1).last() == ts[j]);
    }
}

/// Counts the methods marked implemented in one class's record.
pub fn count_implemented(ms: &Vec<MethodTracking>) -> (r: usize)
    ensures
        r == spec_implemented_count(ms.deep_view()),
{
    let ghost mv = ms.deep_view();
    let n = ms.len();
    let mut cnt: usize = 0;
    let mut j: usize = 0;
    proof {
        assert(mv.take(0) =~= Seq::<MethodTrackingView>::empty());
    }
    while j < n
        invariant
            n == ms.len(),
            mv == ms.deep_view(),
            mv.len() == n,
            j <= n,
            cnt <= j,
            cnt == spec_implemented_count(mv.take(j as int)),
        decreases n - j,
    {
        proof {
            assert(mv.take(j + 1).drop_last() =~= mv.take(j as int));
            assert(mv.take(j + 1).last() == mv[j as int]);
            assert(ms[j as int]@ == mv[j as int]);
        }
        if ms[j].status == ImplementationStatus::Implemented {
            cnt = cnt + 1;
        }
        j = j + 1;
    }
    proof {
        assert(mv.take(n as int) =~= mv);
    }
    cnt
}

/// Assembles the terminal artifact of one component's analysis: the given
/// (sorted) tracking records under the component's name, with the
/// component-wide coverage. The bound on the method total is a machine
/// limit: the records all sit in memory at once.
pub fn aggregate_analysis(component_type: String, tracking: Vec<ClassTracking>) -> (r:
    AnalysisResult)
    requires
        spec_total_methods(tracking.deep_view()) <= usize::MAX,
    ensures
        r@.component_type == component_type@,
        r@.classes == tracking.deep_view(),
        r@.percent_tenths == spec_component_percent(tracking.deep_view()),
{
    let ghost tv = tracking.deep_view();
    let n = tracking.len();
    let mut total: usize = 0;
    let mut implemented: usize = 0;
    let mut i: usize = 0;
    proof {
        assert(tv.take(0) =~= Seq::<ClassTrackingView>::empty());
    }
    while i < n
        invariant
            n == tracking.len(),
            tv == tracking.deep_view(),
            tv.len() == n,
            spec_total_methods(tv) <= usize::MAX,
            i <= n,
            total == spec_total_methods(tv.take(i as int)),
            implemented == spec_total_implemented(tv.take(i as int)),
            implemented <= total,
        decreases n - i,
    {
        proof {
            assert(tv.take(i + 1).drop_last() =~= tv.take(i as int));
            assert(tv.take(i + 1).last() == tv[i as int]);
            assert(tracking[i as int]@ == tv[i as int]);
            lemma_total_methods_take_le(tv, i + 1);
            lemma_implemented_count_le_len(tv[i as int].methods);
        }
        let c = &tracking[i];
        let cnt = count_implemented(&c.methods);
        total = total + c.methods.len();
        implemented = implemented + cnt;
        i = i + 1;
    }
    proof {
        assert(tv.take(n as int) =~= tv);
    }
    let pct = percent_tenths(implemented, total);
    AnalysisResult { component_type, classes: tracking, percent_tenths: pct }
}

/// Assembles the terminal artifact after checking the machine limit that
/// [`aggregate_analysis`] asks of its callers: the method total must fit
/// in `usize`. Fails exactly when it does not.
pub fn try_aggregate_analysis(component_type: String, tracking: Vec<ClassTracking>) -> (r: Option<
    AnalysisResult,
>)
    ensures
        match r {
            Some(ar) => spec_total_methods(tracking.deep_view()) <= usize::MAX
                && ar@.component_type == component_type@ && ar@.classes == tracking.deep_view()
                && ar@.percent_tenths == spec_component_percent(tracking.deep_view()),
            None => spec_total_methods(tracking.deep_view()) > usize::MAX,
        },
{
    let ghost tv = tracking.deep_view();
    let n = tracking.len();
    let mut total: usize = 0;
    let mut i: usize = 0;
    proof {
        assert(tv.take(0) =~= Seq::<ClassTrackingView>::empty());
    }
    while i < n
        invariant
            n == tracking.len(),
            tv == tracking.deep_view(),
            tv.len() == n,
            i <= n,
            total == spec_total_methods(tv.take(i as int)),
        decreases n - i,
    {
        proof {
            assert(tv.take(i + 1).drop_last() =~= tv.take(i as int));
            assert(tv.take(i + 1).last() == tv[i as int]);
            assert(tracking[i as int]@ == tv[i as int]);
        }
        total = match total.checked_add(tracking[i].methods.len()) {
            Some(t) => t,
            None => {
                proof {
                    lemma_total_methods_take_le(tv, i + 1);
                }
                return None;
            },
        };
        i = i + 1;
    }
    proof {
        assert(tv.take(n as int) =~= tv);
    }
    Some(aggregate_analysis(component_type, tracking))
}

proof fn lemma_insert_sorted_sorted(s: Seq<ClassTrackingView>, x: ClassTrackingView)
    requires
        spec_tracking_sorted(s),
    ensures
        spec_tracking_sorted(spec_insert_sorted(s, x)),
    decreases s.len(),
{
    let out = spec_insert_sorted(s, x);
    if s.len() == 0 {
    } else if spec_lex_le(x.class_name, s.first().class_name) {
        assert forall|i: int, j: int|
            0 <= i < j < out.len() implies spec_lex_le(
            (#[trigger] out[i]).class_name,
            (#[trigger] out[j]).class_name,
        ) by {
            if i == 0 {
                if j == 1 {
                } else {
                    assert(spec_lex_le(s[0].class_name, s[j - 1].class_name));
                    lemma_lex_le_transitive(x.class_name, s[0].class_name, s[j - 1].class_name);
                }
            } else {
                assert(out[i] == s[i - 1] && out[j] == s[j - 1]);
            }
        }
    } else {
        assert(spec_tracking_sorted(s.drop_first())) by {
            assert forall|i: int, j: int|
                0 <= i < j < s.drop_first().len() implies spec_lex_le(
                (#[trigger] s.drop_first()[i]).class_name,
                (#[trigger] s.drop_first()[j]).class_name,
            ) by {
                assert(s.drop_first()[i] == s[i + 1] && s.drop_first()[j] == s[j + 1]);
            }
        }
        lemma_insert_sorted_sorted(s.drop_first(), x);
        let sub = spec_insert_sorted(s.drop_first(), x);
        lemma_lex_le_total(x.class_name, s.first().class_name);
        assert forall|i: int, j: int|
            0 <= i < j < out.len() implies spec_lex_le(
            (#[trigger] out[i]).class_name,
            (#[trigger] out[j]).class_name,
        ) by {
            if i == 0 {
                assert(out[j] == sub[j - 1]);
                lemma_insert_sorted_element(s.drop_first(), x, j - 1);
                if sub[j - 1] == x {
                } else {
                    let k = choose|k: int|
                        0 <= k < s.drop_first().len() && sub[j - 1] == s.drop_first()[k];
                    assert(s.drop_first()[k] == s[k + 1]);
                    assert(spec_lex_le(s[0].class_name, s[k + 1].class_name));
                }
            } else {
                assert(out[i] == sub[i - 1] && out[j] == sub[j - 1]);
            }
        }
    }
}

/// Every element of an insertion's result is the inserted record or one of
/// the old ones.
proof fn lemma_insert_sorted_element(s: Seq<ClassTrackingView>, x: ClassTrackingView, i: int)
    requires
        0 <= i < spec_insert_sorted(s, x).len(),
    ensures
        spec_insert_sorted(s, x)[i] == x || exists|k: int|
            0 <= k < s.len() && spec_insert_sorted(s, x)[i] == s[k],
    decreases s.len(),
{
    let out = spec_insert_sorted(s, x);
    if s.len() == 0 {
    } else if spec_lex_le(x.class_name, s.first().class_name) {
        if i > 0 {
            assert(out[i] == s[i - 1]);
        }
    } else {
        if i == 0 {
            assert(out[0] == s[0]);
        } else {
            lemma_insert_sorted_element(s.drop_first(), x, i - 1);
            let sub = spec_insert_sorted(s.drop_first(), x);
            assert(out[i] == sub[i - 1]);
            if sub[i - 1] != x {
                let k = choose|k: int|
                    0 <= k < s.drop_first().len() && sub[i - 1] == s.drop_first()[k];
                assert(s.drop_first()[k] == s[k + 1]);
            }
        }
    }
}

/// Every element of a sort's result is one of the input's records.
proof fn lemma_sort_tracking_element(s: Seq<ClassTrackingView>, i: int)
    requires
        0 <= i < spec_sort_tracking(s).len(),
    ensures
        exists|k: int| 0 <= k < s.len() && spec_sort_tracking(s)[i] == s[k],
    decreases s.len(),
{
    let out = spec_sort_tracking(s);
    if s.len() > 0 {
        let prev = spec_sort_tracking(s.drop_last());
        lemma_insert_sorted_element(prev, s.last(), i);
        if out[i] == s.last() {
            assert(out[i] == s[s.len() - 1]);
        } else {
            let k = choose|k: int| 0 <= k < prev.len() && out[i] == prev[k];
            lemma_sort_tracking_element(s.drop_last(), k);
            let k2 = choose|k2: int| 0 <= k2 < s.drop_last().len() && prev[k] == s.drop_last()[k2];
            assert(s.drop_last()[k2] == s[k2]);
        }
    }
}

/// The analysis lists its classes in ascending name order.
pub proof fn lemma_sort_tracking_sorted(s: Seq<ClassTrackingView>)
    ensures
        spec_tracking_sorted(spec_sort_tracking(s)),
    decreases s.len(),
{
    if s.len() > 0 {
        lemma_sort_tracking_sorted(s.drop_last());
        lemma_insert_sorted_sorted(spec_sort_tracking(s.drop_last()), s.last());
    }
}

/// Every record of an analysis is the coverage record of some tracked
/// reference class.
pub proof fn lemma_analyze_provenance(
    reference: Seq<ClassMethodsView>,
    target: Seq<ClassMethodsView>,
    m: Seq<MappingEntryView>,
    e: ExclusionsView,
    i: int,
)
    requires
        0 <= i < spec_analyze(reference, target, m, e).len(),
    ensures
        exists|k: int|
            0 <= k < reference.len() && spec_tracked_class(#[trigger] reference[k], e)
                && spec_analyze(reference, target, m, e)[i] == spec_track_class(
                m,
                target,
                reference[k],
            ),
{
    let unsorted = spec_unsorted_tracking(reference, target, m, e);
    lemma_sort_tracking_element(unsorted, i);
    let j = choose|j: int|
        0 <= j < unsorted.len() && spec_analyze(reference, target, m, e)[i] == unsorted[j];
    lemma_unsorted_provenance(reference, target, m, e, j);
}

proof fn lemma_unsorted_provenance(
    reference: Seq<ClassMethodsView>,
    target: Seq<ClassMethodsView>,
    m: Seq<MappingEntryView>,
    e: ExclusionsView,
    j: int,
)
    requires
        0 <= j < spec_unsorted_tracking(reference, target, m, e).len(),
    ensures
        exists|k: int|
            0 <= k < reference.len() && spec_tracked_class(#[trigger] reference[k], e)
                && spec_unsorted_tracking(reference, target, m, e)[j] == spec_track_class(
                m,
                target,
                reference[k],
            ),
    decreases reference.len(),
{
    let out = spec_unsorted_tracking(reference, target, m, e);
    let prev = spec_unsorted_tracking(reference.drop_last(), target, m, e);
    if spec_tracked_class(reference.last(), e) && j == out.len() - 1 {
        assert(reference[reference.len() - 1] == reference.last());
        assert(spec_tracked_class(reference[reference.len() - 1], e));
        assert(out[j] == spec_track_class(m, target, reference[reference.len() - 1]));
    } else {
        assert(out[j] == prev[j]);
        lemma_unsorted_provenance(reference.drop_last(), target, m, e, j);
        let k = choose|k: int|
            0 <= k < reference.drop_last().len() && spec_tracked_class(
                #[trigger] reference.drop_last()[k],
                e,
            ) && prev[j] == spec_track_class(m, target, reference.drop_last()[k]);
        assert(reference.drop_last()[k] == reference[k]);
        assert(spec_tracked_class(reference[k], e));
    }
}

/// Every percentage an analysis reports lies between 0 and 100 (0 and
/// 1000 tenths), and every record stores exactly the share of its
/// implemented methods.
pub proof fn lemma_report_percentages_in_range(
    reference: Seq<ClassMethodsView>,
    target: Seq<ClassMethodsView>,
    m: Seq<MappingEntryView>,
    e: ExclusionsView,
)
    ensures
        forall|i: int|
            0 <= i < spec_analyze(reference, target, m, e).len() ==> (#[trigger] spec_analyze(
                reference,
                target,
                m,
                e,
            )[i]).percent_tenths <= 1000 && class_tracking_wf(
                spec_analyze(reference, target, m, e)[i],
            ),
{
    let out = spec_analyze(reference, target, m, e);
    assert forall|i: int|
        0 <= i < out.len() implies (#[trigger] out[i]).percent_tenths <= 1000 && class_tracking_wf(
        out[i],
    ) by {
        lemma_analyze_provenance(reference, target, m, e, i);
        let k = choose|k: int|
            0 <= k < reference.len() && spec_tracked_class(#[trigger] reference[k], e) && out[i]
                == spec_track_class(m, target, reference[k]);
        let ms = out[i].methods;
        lemma_implemented_count_le_len(ms);
        lemma_percent_tenths_in_range(spec_implemented_count(ms), ms.len());
    }
}

/// In every record of an analysis, the implemented and the unimplemented
/// methods together are exactly its tracked methods.
pub proof fn lemma_report_counts_partition(
    reference: Seq<ClassMethodsView>,
    target: Seq<ClassMethodsView>,
    m: Seq<MappingEntryView>,
    e: ExclusionsView,
)
    ensures
        forall|i: int|
            0 <= i < spec_analyze(reference, target, m, e).len() ==> spec_implemented_count(
                (#[trigger] spec_analyze(reference, target, m, e)[i]).methods,
            ) + spec_not_implemented_count(spec_analyze(reference, target, m, e)[i].methods)
                == spec_analyze(reference, target, m, e)[i].methods.len(),
{
    let out = spec_analyze(reference, target, m, e);
    assert forall|i: int|
        0 <= i < out.len() implies spec_implemented_count((#[trigger] out[i]).methods)
        + spec_not_implemented_count(out[i].methods) == out[i].methods.len() by {
        lemma_status_counts_partition(out[i].methods);
    }
}

/// Correlation is case-insensitive and deterministic: the methods
/// consulted for a folded name are those of the first container whose
/// folded name equals it.
pub proof fn lemma_lookup_target_first(
    target: Seq<ClassMethodsView>,
    folded: Seq<char>,
    k: int,
)
    requires
        0 <= k < target.len(),
        spec_fold_name(target[k].class_name) == folded,
        forall|j: int|
            0 <= j < k ==> spec_fold_name((#[trigger] target[j]).class_name) != folded,
    ensures
        spec_lookup_target(target, folded) == target[k].methods,
    decreases target.len(),
{
    if k > 0 {
        assert(forall|j: int|
            0 <= j < k - 1 ==> spec_fold_name((#[trigger] target.drop_first()[j]).class_name)
                == spec_fold_name(target[j + 1].class_name));
        lemma_lookup_target_first(target.drop_first(), folded, k - 1);
        assert(target.drop_first()[k - 1] == target[k]);
    }
}

/// A folded name no container carries consults no methods at all.
pub proof fn lemma_lookup_target_absent(target: Seq<ClassMethodsView>, folded: Seq<char>)
    requires
        forall|j: int|
            0 <= j < target.len() ==> spec_fold_name((#[trigger] target[j]).class_name) != folded,
    ensures
        spec_lookup_target(target, folded) == Seq::<Seq<char>>::empty(),
    decreases target.len(),
{
    if target.len() > 0 {
        assert(forall|j: int|
            0 <= j < target.drop_first().len() ==> spec_fold_name(
                (#[trigger] target.drop_first()[j]).class_name,
            ) == spec_fold_name(target[j + 1].class_name));
        lemma_lookup_target_absent(target.drop_first(), folded);
    }
}

/// An excluded class name never appears in an analysis, whatever its
/// method set.
pub proof fn lemma_excluded_never_reported(
    reference: Seq<ClassMethodsView>,
    target: Seq<ClassMethodsView>,
    m: Seq<MappingEntryView>,
    e: ExclusionsView,
    name: Seq<char>,
)
    requires
        spec_excluded(e, name),
    ensures
        forall|i: int|
            0 <= i < spec_analyze(reference, target, m, e).len() ==> (#[trigger] spec_analyze(
                reference,
                target,
                m,
                e,
            )[i]).class_name != name,
{
    let out = spec_analyze(reference, target, m, e);
    assert forall|i: int|
        0 <= i < out.len() implies (#[trigger] out[i]).class_name != name by {
        lemma_analyze_provenance(reference, target, m, e, i);
        let k = choose|k: int|
            0 <= k < reference.len() && spec_tracked_class(#[trigger] reference[k], e) && out[i]
                == spec_track_class(m, target, reference[k]);
        assert(!spec_excluded(e, reference[k].class_name));
    }
}

/// A method name the mapping does not track never appears in an analysis
/// of inventories that hold only trackable methods — and extraction
/// produces only such inventories.
pub proof fn lemma_untracked_method_never_reported(
    reference: Seq<ClassMethodsView>,
    target: Seq<ClassMethodsView>,
    m: Seq<MappingEntryView>,
    e: ExclusionsView,
    name: Seq<char>,
)
    requires
        spec_inv_methods_trackable(reference, m),
        !spec_is_trackable(m, name),
    ensures
        forall|i: int, j: int|
            0 <= i < spec_analyze(reference, target, m, e).len() && 0 <= j < spec_analyze(
                reference,
                target,
                m,
                e,
            )[i].methods.len() ==> (#[trigger] spec_analyze(reference, target, m, e)[i].methods[j]).method_name
                != name,
{
    let out = spec_analyze(reference, target, m, e);
    assert forall|i: int, j: int|
        0 <= i < out.len() && 0 <= j < out[i].methods.len() implies (#[trigger] out[i].methods[j]).method_name
        != name by {
        lemma_analyze_provenance(reference, target, m, e, i);
        let k = choose|k: int|
            0 <= k < reference.len() && spec_tracked_class(#[trigger] reference[k], e) && out[i]
                == spec_track_class(m, target, reference[k]);
        assert(out[i].methods[j].method_name == reference[k].methods[j]);
        assert(spec_is_trackable(m, reference[k].methods[j]));
    }
}

/// A reference class with no matching target container has every method
/// unimplemented and, since it tracks at least one method, zero coverage.
pub proof fn lemma_unmatched_class_all_unimplemented(
    m: Seq<MappingEntryView>,
    target: Seq<ClassMethodsView>,
    c: ClassMethodsView,
)
    requires
        spec_lookup_target(target, spec_fold_name(c.class_name)) == Seq::<Seq<char>>::empty(),
    ensures
        forall|j: int|
            0 <= j < spec_track_class(m, target, c).methods.len() ==> (#[trigger] spec_track_class(
                m,
                target,
                c,
            ).methods[j]).status == ImplementationStatus::NotImplemented,
        c.methods.len() > 0 ==> spec_track_class(m, target, c).percent_tenths == 0,
{
    let ct = spec_track_class(m, target, c);
    assert forall|j: int|
        0 <= j < ct.methods.len() implies (#[trigger] ct.methods[j]).status
        == ImplementationStatus::NotImplemented by {
        assert(ct.methods[j].status == spec_method_status(
            m,
            Seq::<Seq<char>>::empty(),
            c.methods[j],
        ));
    }
    lemma_all_unimplemented_count_zero(ct.methods);
    if c.methods.len() > 0 {
        lemma_basic_div(0, ct.methods.len() as int);
    }
}

proof fn lemma_all_unimplemented_count_zero(ms: Seq<MethodTrackingView>)
    requires
        forall|j: int|
            0 <= j < ms.len() ==> (#[trigger] ms[j]).status
                == ImplementationStatus::NotImplemented,
    ensures
        spec_implemented_count(ms) == 0,
    decreases ms.len(),
{
    if ms.len() != 0 {
        assert(forall|j: int|
            0 <= j < ms.drop_last().len() ==> (#[trigger] ms.drop_last()[j]) == ms[j]);
        lemma_all_unimplemented_count_zero(ms.drop_last());
    }
}

} // verus!
