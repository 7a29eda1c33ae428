//! The trackable-method mapping table and the per-component exclusion
//! policy.
//!
//! A mapping is a table of `(target_name, reference_name)` pairs, one per
//! tracked hook, scoped to one component. The table defines the only method
//! names the system ever reports on. A validated table has unique target
//! names and unique reference names; duplicates are rejected when the table
//! is built, so no lookup ever depends on scan order.

use crate::names::{ends_with, spec_is_suffix, str_eq};
use vstd::prelude::*;
use vstd::string::*;

verus! {

/// One tracked hook: the method name in the codebase being measured
/// (`target_name`) and the corresponding name in the reference codebase
/// (`reference_name`).
#[derive(Clone, Debug)]
pub struct MappingEntry {
    pub target_name: String,
    pub reference_name: String,
}

/// The mathematical value of a [`MappingEntry`].
pub ghost struct MappingEntryView {
    pub target_name: Seq<char>,
    pub reference_name: Seq<char>,
}

impl View for MappingEntry {
    type V = MappingEntryView;

    open spec fn view(&self) -> MappingEntryView {
        MappingEntryView {
            target_name: self.target_name@,
            reference_name: self.reference_name@,
        }
    }
}

impl DeepView for MappingEntry {
    type V = MappingEntryView;

    open spec fn deep_view(&self) -> MappingEntryView {
        self.view()
    }
}

impl MappingEntry {
    /// Builds one entry from the two method names.
    pub fn new(target_name: &str, reference_name: &str) -> (e: MappingEntry)
        ensures
            e@ == (MappingEntryView { target_name: target_name@, reference_name: reference_name@ }),
    {
        MappingEntry {
            target_name: String::from_str(target_name),
            reference_name: String::from_str(reference_name),
        }
    }
}

/// A duplicate name found while validating a mapping table.
#[derive(Clone, Copy, Debug, PartialEq, Eq, Structural)]
pub enum MappingError {
    DuplicateTargetName,
    DuplicateReferenceName,
}

/// Some earlier entry already uses the target name of entry `i`.
pub open spec fn spec_dup_target_at(m: Seq<MappingEntryView>, i: int) -> bool {
    exists|j: int| 0 <= j < i && m[j].target_name == m[i].target_name
}

/// Some earlier entry already uses the reference name of entry `i`.
pub open spec fn spec_dup_reference_at(m: Seq<MappingEntryView>, i: int) -> bool {
    exists|j: int| 0 <= j < i && m[j].reference_name == m[i].reference_name
}

/// The first defect of a mapping table in declaration order, if any: at each
/// entry a duplicated target name is reported before a duplicated reference
/// name.
pub open spec fn spec_first_violation(m: Seq<MappingEntryView>, i: int) -> Option<MappingError>
    decreases m.len() - i,
{
    if i < 0 || i >= m.len() {
        None
    } else if spec_dup_target_at(m, i) {
        Some(MappingError::DuplicateTargetName)
    } else if spec_dup_reference_at(m, i) {
        Some(MappingError::DuplicateReferenceName)
    } else {
        spec_first_violation(m, i + 1)
    }
}

/// No two entries share a target name.
pub open spec fn spec_targets_unique(m: Seq<MappingEntryView>) -> bool {
    forall|i: int, j: int|
        0 <= i < j < m.len() ==> m[i].target_name != m[j].target_name
}

/// No two entries share a reference name.
pub open spec fn spec_references_unique(m: Seq<MappingEntryView>) -> bool {
    forall|i: int, j: int|
        0 <= i < j < m.len() ==> m[i].reference_name != m[j].reference_name
}

/// A valid mapping table: target names unique and reference names unique.
pub open spec fn spec_mapping_wf(m: Seq<MappingEntryView>) -> bool {
    spec_targets_unique(m) && spec_references_unique(m)
}

/// A table has no defect exactly when it is valid.
pub proof fn lemma_no_violation_iff_wf(m: Seq<MappingEntryView>)
    ensures
        spec_first_violation(m, 0) is None <==> spec_mapping_wf(m),
{
    if spec_first_violation(m, 0) is None {
        lemma_no_violation_from(m, 0);
        assert forall|i: int, j: int|
            0 <= i < j < m.len() implies m[i].target_name != m[j].target_name by {
            assert(!spec_dup_target_at(m, j));
        }
        assert forall|i: int, j: int|
            0 <= i < j < m.len() implies m[i].reference_name != m[j].reference_name by {
            assert(!spec_dup_reference_at(m, j));
        }
    }
    if spec_mapping_wf(m) {
        lemma_wf_no_violation(m, 0);
    }
}

proof fn lemma_no_violation_from(m: Seq<MappingEntryView>, i: int)
    requires
        0 <= i <= m.len(),
        spec_first_violation(m, i) is None,
    ensures
        forall|k: int|
            i <= k < m.len() ==> !spec_dup_target_at(m, k) && !spec_dup_reference_at(m, k),
    decreases m.len() - i,
{
    if i < m.len() {
        lemma_no_violation_from(m, i + 1);
    }
}

proof fn lemma_wf_no_violation(m: Seq<MappingEntryView>, i: int)
    requires
        0 <= i <= m.len(),
        spec_mapping_wf(m),
    ensures
        spec_first_violation(m, i) is None,
    decreases m.len() - i,
{
    if i < m.len() {
        assert(!spec_dup_target_at(m, i)) by {
            if spec_dup_target_at(m, i) {
                let j = choose|j: int| 0 <= j < i && m[j].target_name == m[i].target_name;
                assert(m[j].target_name != m[i].target_name);
            }
        }
        assert(!spec_dup_reference_at(m, i)) by {
            if spec_dup_reference_at(m, i) {
                let j = choose|j: int| 0 <= j < i && m[j].reference_name == m[i].reference_name;
                assert(m[j].reference_name != m[i].reference_name);
            }
        }
        lemma_wf_no_violation(m, i + 1);
    }
}

/// Some entry carries this target name.
pub open spec fn spec_has_target(m: Seq<MappingEntryView>, name: Seq<char>) -> bool {
    exists|i: int| 0 <= i < m.len() && m[i].target_name == name
}

/// Some entry carries this reference name.
pub open spec fn spec_has_reference(m: Seq<MappingEntryView>, name: Seq<char>) -> bool {
    exists|i: int| 0 <= i < m.len() && m[i].reference_name == name
}

/// A name is trackable when it occurs in the table at all, as a target name
/// or as a reference name. Only trackable methods ever enter an inventory.
pub open spec fn spec_is_trackable(m: Seq<MappingEntryView>, name: Seq<char>) -> bool {
    spec_has_target(m, name) || spec_has_reference(m, name)
}

/// The target name mapped to a reference name: the first entry in
/// declaration order whose reference name matches. In a valid table at most
/// one entry can match, so "first" is immaterial there.
pub open spec fn spec_target_for(m: Seq<MappingEntryView>, reference: Seq<char>) -> Option<
    Seq<char>,
>
    decreases m.len(),
{
    if m.len() == 0 {
        None
    } else if m.first().reference_name == reference {
        Some(m.first().target_name)
    } else {
        spec_target_for(m.drop_first(), reference)
    }
}

/// The lookup succeeds exactly when some entry carries the reference name.
pub proof fn lemma_target_for_some_iff_has_reference(m: Seq<MappingEntryView>, reference: Seq<char>)
    ensures
        spec_target_for(m, reference) is Some <==> spec_has_reference(m, reference),
    decreases m.len(),
{
    if m.len() > 0 {
        lemma_target_for_some_iff_has_reference(m.drop_first(), reference);
        if m.first().reference_name != reference {
            assert(spec_has_reference(m.drop_first(), reference) ==> spec_has_reference(
                m,
                reference,
            )) by {
                if spec_has_reference(m.drop_first(), reference) {
                    let i = choose|i: int|
                        0 <= i < m.drop_first().len() && m.drop_first()[i].reference_name
                            == reference;
                    assert(m[i + 1].reference_name == reference);
                }
            }
            assert(spec_has_reference(m, reference) ==> spec_has_reference(
                m.drop_first(),
                reference,
            )) by {
                if spec_has_reference(m, reference) {
                    let i = choose|i: int| 0 <= i < m.len() && m[i].reference_name == reference;
                    assert(i != 0);
                    assert(m.drop_first()[i - 1].reference_name == reference);
                }
            }
        }
    }
}

/// A trackable-method mapping table.
#[derive(Clone, Debug)]
pub struct Mapping {
    pub entries: Vec<MappingEntry>,
}

impl View for Mapping {
    type V = Seq<MappingEntryView>;

    open spec fn view(&self) -> Seq<MappingEntryView> {
        self.entries.deep_view()
    }
}

impl Mapping {
    /// Builds a validated table from a list of entries, rejecting the first
    /// duplicated target or reference name in declaration order.
    pub fn new(entries: Vec<MappingEntry>) -> (r: Result<Mapping, MappingError>)
        ensures
            match r {
                Ok(m) => m@ == entries.deep_view() && spec_mapping_wf(m@),
                Err(e) => spec_first_violation(entries.deep_view(), 0) == Some(e),
            },
    {
        let ghost ms = entries.deep_view();
        let n = entries.len();
        let mut i: usize = 0;
        while i < n
            invariant
                n == entries.len(),
                ms == entries.deep_view(),
                ms.len() == n,
                i <= n,
                forall|k: int|
                    0 <= k < i ==> !spec_dup_target_at(ms, k) && !spec_dup_reference_at(ms, k),
            decreases n - i,
        {
            let mut j: usize = 0;
            while j < i
                invariant
                    i < n,
                    n == entries.len(),
                    ms == entries.deep_view(),
                    ms.len() == n,
                    j <= i,
                    forall|k: int|
                        0 <= k < i ==> !spec_dup_target_at(ms, k) && !spec_dup_reference_at(
                            ms,
                            k,
                        ),
                    forall|k: int| 0 <= k < j ==> ms[k].target_name != ms[i as int].target_name,
                decreases i - j,
            {
                if str_eq(entries[j].target_name.as_str(), entries[i].target_name.as_str()) {
                    proof {
                        assert(ms[j as int].target_name == ms[i as int].target_name);
                        assert(spec_dup_target_at(ms, i as int));
                        lemma_violation_at(ms, i as int);
                    }
                    return Err(MappingError::DuplicateTargetName);
                }
                j = j + 1;
            }
            let mut j2: usize = 0;
            while j2 < i
                invariant
                    i < n,
                    n == entries.len(),
                    ms == entries.deep_view(),
                    ms.len() == n,
                    j2 <= i,
                    forall|k: int|
                        0 <= k < i ==> !spec_dup_target_at(ms, k) && !spec_dup_reference_at(
                            ms,
                            k,
                        ),
                    forall|k: int| 0 <= k < i ==> ms[k].target_name != ms[i as int].target_name,
                    forall|k: int|
                        0 <= k < j2 ==> ms[k].reference_name != ms[i as int].reference_name,
                decreases i - j2,
            {
                if str_eq(entries[j2].reference_name.as_str(), entries[i].reference_name.as_str()) {
                    proof {
                        assert(ms[j2 as int].reference_name == ms[i as int].reference_name);
                        assert(spec_dup_reference_at(ms, i as int));
                        assert(!spec_dup_target_at(ms, i as int)) by {
                            if spec_dup_target_at(ms, i as int) {
                                let j = choose|j: int|
                                    0 <= j < i && ms[j].target_name == ms[i as int].target_name;
                                assert(ms[j].target_name != ms[i as int].target_name);
                            }
                        }
                        lemma_violation_at(ms, i as int);
                    }
                    return Err(MappingError::DuplicateReferenceName);
                }
                j2 = j2 + 1;
            }
            assert(!spec_dup_target_at(ms, i as int));
            assert(!spec_dup_reference_at(ms, i as int));
            i = i + 1;
        }
        proof {
            assert(spec_targets_unique(ms)) by {
                assert forall|a: int, b: int|
                    0 <= a < b < ms.len() implies ms[a].target_name != ms[b].target_name by {
                    assert(!spec_dup_target_at(ms, b));
                }
            }
            assert(spec_references_unique(ms)) by {
                assert forall|a: int, b: int|
                    0 <= a < b < ms.len() implies ms[a].reference_name != ms[b].reference_name by {
                    assert(!spec_dup_reference_at(ms, b));
                }
            }
        }
        Ok(Mapping { entries })
    }

    /// Decides whether a method name occurs in the table, as a target name
    /// or as a reference name.
    pub fn is_trackable(&self, name: &str) -> (b: bool)
        ensures
            b == spec_is_trackable(self@, name@),
    {
        let n = self.entries.len();
        let mut i: usize = 0;
        while i < n
            invariant
                n == self.entries.len(),
                self@.len() == n,
                i <= n,
                forall|k: int|
                    0 <= k < i ==> self@[k].target_name != name@ && self@[k].reference_name
                        != name@,
            decreases n - i,
        {
            if str_eq(self.entries[i].target_name.as_str(), name) {
                assert(self@[i as int].target_name == name@);
                assert(spec_has_target(self@, name@));
                return true;
            }
            if str_eq(self.entries[i].reference_name.as_str(), name) {
                assert(self@[i as int].reference_name == name@);
                assert(spec_has_reference(self@, name@));
                return true;
            }
            i = i + 1;
        }
        false
    }

    /// Looks up the target name mapped to a reference name.
    pub fn target_for(&self, reference: &str) -> (r: Option<String>)
        ensures
            r.deep_view() == spec_target_for(self@, reference@),
    {
        let n = self.entries.len();
        let mut i: usize = 0;
        proof {
            assert(self@.skip(0) =~= self@);
        }
        while i < n
            invariant
                n == self.entries.len(),
                self@.len() == n,
                i <= n,
                spec_target_for(self@, reference@) == spec_target_for(
                    self@.skip(i as int),
                    reference@,
                ),
            decreases n - i,
        {
            if str_eq(self.entries[i].reference_name.as_str(), reference) {
                assert(self@.skip(i as int).first() == self@[i as int]);
                return Some(self.entries[i].target_name.clone());
            }
            proof {
                assert(self@.skip(i as int).drop_first() =~= self@.skip(i + 1));
            }
            i = i + 1;
        }
        assert(self@.skip(n as int) =~= Seq::<MappingEntryView>::empty());
        None
    }
}

proof fn lemma_violation_at(m: Seq<MappingEntryView>, i: int)
    requires
        0 <= i < m.len(),
        spec_dup_target_at(m, i) || spec_dup_reference_at(m, i),
        forall|k: int| 0 <= k < i ==> !spec_dup_target_at(m, k) && !spec_dup_reference_at(m, k),
    ensures
        spec_first_violation(m, 0) == spec_first_violation(m, i),
        spec_dup_target_at(m, i) ==> spec_first_violation(m, 0) == Some(
            MappingError::DuplicateTargetName,
        ),
        !spec_dup_target_at(m, i) && spec_dup_reference_at(m, i) ==> spec_first_violation(m, 0)
            == Some(MappingError::DuplicateReferenceName),
{
    lemma_violation_skip(m, 0, i);
}

proof fn lemma_violation_skip(m: Seq<MappingEntryView>, lo: int, i: int)
    requires
        0 <= lo <= i <= m.len(),
        forall|k: int| lo <= k < i ==> !spec_dup_target_at(m, k) && !spec_dup_reference_at(m, k),
    ensures
        spec_first_violation(m, lo) == spec_first_violation(m, i),
    decreases i - lo,
{
    if lo < i {
        lemma_violation_skip(m, lo + 1, i);
    }
}

/// The per-component exclusion policy: reference class names that never enter
/// a coverage report, given exactly or as a name suffix.
#[derive(Clone, Debug)]
pub struct Exclusions {
    pub excluded_names: Vec<String>,
    pub excluded_name_suffixes: Vec<String>,
}

/// The mathematical value of an [`Exclusions`] policy.
pub ghost struct ExclusionsView {
    pub excluded_names: Seq<Seq<char>>,
    pub excluded_name_suffixes: Seq<Seq<char>>,
}

impl View for Exclusions {
    type V = ExclusionsView;

    open spec fn view(&self) -> ExclusionsView {
        ExclusionsView {
            excluded_names: self.excluded_names.deep_view(),
            excluded_name_suffixes: self.excluded_name_suffixes.deep_view(),
        }
    }
}

/// A class name is excluded when it equals an excluded name or ends in an
/// excluded suffix.
pub open spec fn spec_excluded(e: ExclusionsView, name: Seq<char>) -> bool {
    e.excluded_names.contains(name) || exists|i: int|
        0 <= i < e.excluded_name_suffixes.len() && spec_is_suffix(
            e.excluded_name_suffixes[i],
            name,
        )
}

impl Exclusions {
    /// Decides whether a class name is excluded from analysis.
    pub fn is_excluded(&self, name: &str) -> (b: bool)
        ensures
            b == spec_excluded(self@, name@),
    {
        let n = self.excluded_names.len();
        let mut i: usize = 0;
        while i < n
            invariant
                n == self.excluded_names.len(),
                self@.excluded_names.len() == n,
                i <= n,
                forall|k: int| 0 <= k < i ==> self@.excluded_names[k] != name@,
            decreases n - i,
        {
            if str_eq(self.excluded_names[i].as_str(), name) {
                assert(self@.excluded_names[i as int] == name@);
                assert(self@.excluded_names.contains(name@));
                return true;
            }
            i = i + 1;
        }
        let m = self.excluded_name_suffixes.len();
        let mut j: usize = 0;
        while j < m
            invariant
                m == self.excluded_name_suffixes.len(),
                self@.excluded_name_suffixes.len() == m,
                j <= m,
                forall|k: int|
                    0 <= k < j ==> !spec_is_suffix(self@.excluded_name_suffixes[k], name@),
                forall|k: int| 0 <= k < self@.excluded_names.len() ==> self@.excluded_names[k]
                    != name@,
            decreases m - j,
        {
            if ends_with(name, self.excluded_name_suffixes[j].as_str()) {
                assert(spec_is_suffix(self@.excluded_name_suffixes[j as int], name@));
                return true;
            }
            j = j + 1;
        }
        assert(!self@.excluded_names.contains(name@));
        false
    }
}

} // verus!
