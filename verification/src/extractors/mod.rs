//! Structural extraction: turning the capture rows that a grammar query
//! yields for one source file into a per-language inventory of
//! (container, method) facts, restricted to trackable method names.
//!
//! Extraction is additive across files and across declaration blocks: facts
//! for the same container name, wherever they come from, append into one
//! bucket, so a type split over several files is merged. The machinery here
//! is shared by the per-language extractors; each of those contributes its
//! own grammar query and its own reading of the capture rows.

pub mod java_extractor;
pub mod rust_extractor;

use crate::mapping::spec_is_trackable;
use crate::mapping::MappingEntryView;
use crate::names::str_eq;
use crate::types::{ClassMethods, ClassMethodsView};
use vstd::prelude::*;

verus! {

/// The first text captured under the given capture index in one row, if
/// any. A row holds the captures of one query match, each as a capture
/// index paired with the captured text.
pub open spec fn spec_row_field(row: Seq<(u32, Seq<char>)>, idx: u32) -> Option<Seq<char>>
    decreases row.len(),
{
    if row.len() == 0 {
        None
    } else if row.first().0 == idx {
        Some(row.first().1)
    } else {
        spec_row_field(row.drop_first(), idx)
    }
}

/// Picks the first text captured under `idx` out of one capture row.
pub fn row_field(row: &Vec<(u32, String)>, idx: u32) -> (r: Option<String>)
    ensures
        r.deep_view() == spec_row_field(row.deep_view(), idx),
{
    let n = row.len();
    let mut i: usize = 0;
    proof {
        assert(row.deep_view().skip(0) =~= row.deep_view());
    }
    while i < n
        invariant
            n == row.len(),
            row.deep_view().len() == n,
            i <= n,
            spec_row_field(row.deep_view(), idx) == spec_row_field(
                row.deep_view().skip(i as int),
                idx,
            ),
        decreases n - i,
    {
        if row[i].0 == idx {
            assert(row.deep_view().skip(i as int).first() == row.deep_view()[i as int]);
            return Some(row[i].1.clone());
        }
        proof {
            assert(row.deep_view().skip(i as int).drop_first() =~= row.deep_view().skip(i + 1));
        }
        i = i + 1;
    }
    assert(row.deep_view().skip(n as int) =~= Seq::<(u32, Seq<char>)>::empty());
    None
}

/// Adds one (container, method) fact to an inventory: the method appends
/// into the first bucket with the same container name, which stays concrete
/// if any of its declarations was concrete; a container not seen before
/// opens a new bucket.
pub open spec fn spec_add_fact(
    inv: Seq<ClassMethodsView>,
    name: Seq<char>,
    method: Seq<char>,
    concrete: bool,
) -> Seq<ClassMethodsView>
    decreases inv.len(),
{
    if inv.len() == 0 {
        seq![
            ClassMethodsView {
                class_name: name,
                methods: seq![method],
                is_real_class: concrete,
            },
        ]
    } else if inv.first().class_name == name {
        seq![
            ClassMethodsView {
                class_name: name,
                methods: inv.first().methods.push(method),
                is_real_class: inv.first().is_real_class || concrete,
            },
        ] + inv.drop_first()
    } else {
        seq![inv.first()] + spec_add_fact(inv.drop_first(), name, method, concrete)
    }
}

/// When the container already has a bucket, adding a fact updates that
/// bucket in place.
proof fn lemma_add_fact_found(
    inv: Seq<ClassMethodsView>,
    name: Seq<char>,
    method: Seq<char>,
    concrete: bool,
    idx: int,
)
    requires
        0 <= idx < inv.len(),
        inv[idx].class_name == name,
        forall|k: int| 0 <= k < idx ==> inv[k].class_name != name,
    ensures
        spec_add_fact(inv, name, method, concrete) =~= inv.update(
            idx,
            ClassMethodsView {
                class_name: name,
                methods: inv[idx].methods.push(method),
                is_real_class: inv[idx].is_real_class || concrete,
            },
        ),
    decreases inv.len(),
{
    if idx == 0 {
    } else {
        lemma_add_fact_found(inv.drop_first(), name, method, concrete, idx - 1);
    }
}

/// When no bucket has the container's name, adding a fact appends a new
/// bucket.
proof fn lemma_add_fact_missing(
    inv: Seq<ClassMethodsView>,
    name: Seq<char>,
    method: Seq<char>,
    concrete: bool,
)
    requires
        forall|k: int| 0 <= k < inv.len() ==> inv[k].class_name != name,
    ensures
        spec_add_fact(inv, name, method, concrete) =~= inv.push(
            ClassMethodsView { class_name: name, methods: seq![method], is_real_class: concrete },
        ),
    decreases inv.len(),
{
    if inv.len() > 0 {
        lemma_add_fact_missing(inv.drop_first(), name, method, concrete);
    }
}

/// Adds one fact to an inventory under construction.
pub fn add_fact(classes: &mut Vec<ClassMethods>, name: String, method: String, concrete: bool)
    ensures
        final (classes).deep_view() == spec_add_fact(
            old(classes).deep_view(),
            name@,
            method@,
            concrete,
        ),
{
    let ghost pre = *classes;
    let ghost inv0 = classes.deep_view();
    let n = classes.len();
    let mut i: usize = 0;
    while i < n
        invariant
            n == classes.len(),
            pre == *classes,
            pre == *old(classes),
            inv0 == classes.deep_view(),
            inv0.len() == n,
            i <= n,
            forall|k: int| 0 <= k < i ==> inv0[k].class_name != name@,
        decreases n - i,
    {
        if str_eq(classes[i].class_name.as_str(), name.as_str()) {
            let ghost nb = ClassMethodsView {
                class_name: name@,
                methods: inv0[i as int].methods.push(method@),
                is_real_class: inv0[i as int].is_real_class || concrete,
            };
            let mut bucket = classes.remove(i);
            let ghost b0 = bucket;
            bucket.methods.push(method);
            bucket.is_real_class = bucket.is_real_class || concrete;
            classes.insert(i, bucket);
            proof {
                lemma_add_fact_found(inv0, name@, method@, concrete, i as int);
                assert(b0 == pre@[i as int]);
                assert(bucket.class_name == b0.class_name);
                assert(bucket.methods@ == b0.methods@.push(method));
                assert(classes@ =~= pre@.update(i as int, bucket));
                assert(bucket@.methods =~= nb.methods);
                assert(bucket@.class_name == inv0[i as int].class_name);
                assert(inv0[i as int].class_name == name@);
                assert(bucket@ == nb);
                assert(classes.deep_view() =~= inv0.update(i as int, nb));
            }
            return ;
        }
        i = i + 1;
    }
    let mut methods: Vec<String> = Vec::new();
    methods.push(method);
    let ghost nb = ClassMethodsView {
        class_name: name@,
        methods: seq![method@],
        is_real_class: concrete,
    };
    let ghost mv = methods;
    classes.push(ClassMethods { class_name: name, methods, is_real_class: concrete });
    proof {
        lemma_add_fact_missing(inv0, name@, method@, concrete);
        assert(mv@ == Seq::<String>::empty().push(method));
        assert(mv.deep_view() =~= seq![method@]);
        assert(classes@ =~= pre@.push(
            ClassMethods { class_name: name, methods: mv, is_real_class: concrete },
        ));
        assert(classes.deep_view() =~= inv0.push(nb));
    }
}

/// Adds a stream of facts to an inventory, in order.
pub open spec fn spec_apply_facts(
    inv: Seq<ClassMethodsView>,
    facts: Seq<(Seq<char>, Seq<char>, bool)>,
) -> Seq<ClassMethodsView>
    decreases facts.len(),
{
    if facts.len() == 0 {
        inv
    } else {
        let f = facts.last();
        spec_add_fact(spec_apply_facts(inv, facts.drop_last()), f.0, f.1, f.2)
    }
}

/// The inventory extracted from a whole file tree: the facts of each file
/// in turn, read by the given per-file fact function, folded into one
/// inventory.
pub open spec fn spec_inventory_of(
    contents: Seq<Seq<char>>,
    file_facts: spec_fn(Seq<char>) -> Seq<(Seq<char>, Seq<char>, bool)>,
) -> Seq<ClassMethodsView>
    decreases contents.len(),
{
    if contents.len() == 0 {
        Seq::empty()
    } else {
        spec_apply_facts(
            spec_inventory_of(contents.drop_last(), file_facts),
            file_facts(contents.last()),
        )
    }
}

/// The set of (container, method) pairs named by a fact stream.
pub open spec fn spec_facts_pairs(facts: Seq<(Seq<char>, Seq<char>, bool)>) -> Set<
    (Seq<char>, Seq<char>),
> {
    Set::new(
        |p: (Seq<char>, Seq<char>)|
            exists|i: int|
                0 <= i < facts.len() && (#[trigger] facts[i]).0 == p.0 && facts[i].1 == p.1,
    )
}

/// The set of (container, method) pairs an inventory holds.
pub open spec fn spec_inventory_pairs(inv: Seq<ClassMethodsView>) -> Set<(Seq<char>, Seq<char>)> {
    Set::new(
        |p: (Seq<char>, Seq<char>)|
            exists|i: int|
                0 <= i < inv.len() && (#[trigger] inv[i]).class_name == p.0
                    && inv[i].methods.contains(p.1),
    )
}

/// Adding one fact adds exactly its pair to the inventory's pair set.
proof fn lemma_add_fact_pairs(
    inv: Seq<ClassMethodsView>,
    name: Seq<char>,
    method: Seq<char>,
    concrete: bool,
)
    ensures
        spec_inventory_pairs(spec_add_fact(inv, name, method, concrete))
            =~= spec_inventory_pairs(inv).insert((name, method)),
    decreases inv.len(),
{
    let out = spec_add_fact(inv, name, method, concrete);
    let lhs = spec_inventory_pairs(out);
    let rhs = spec_inventory_pairs(inv).insert((name, method));
    if inv.len() == 0 {
        assert forall|p: (Seq<char>, Seq<char>)| lhs.contains(p) implies rhs.contains(p) by {
            let i = choose|i: int|
                0 <= i < out.len() && (#[trigger] out[i]).class_name == p.0
                    && out[i].methods.contains(p.1);
            assert(out[i].methods == seq![method]);
            assert(out[i].methods[choose|j: int|
                0 <= j < out[i].methods.len() && out[i].methods[j] == p.1] == method);
        }
        assert forall|p: (Seq<char>, Seq<char>)| rhs.contains(p) implies lhs.contains(p) by {
            if p == (name, method) {
                assert(out[0].class_name == p.0);
                assert(out[0].methods[0] == p.1);
                assert(out[0].methods.contains(p.1));
            }
        }
    } else if inv.first().class_name == name {
        assert forall|p: (Seq<char>, Seq<char>)| lhs.contains(p) implies rhs.contains(p) by {
            let i = choose|i: int|
                0 <= i < out.len() && (#[trigger] out[i]).class_name == p.0
                    && out[i].methods.contains(p.1);
            if i == 0 {
                let j = choose|j: int|
                    0 <= j < out[0].methods.len() && out[0].methods[j] == p.1;
                if j < inv.first().methods.len() {
                    assert(inv[0].class_name == p.0 && inv[0].methods.contains(p.1));
                } else {
                    assert(p.1 == method);
                }
            } else {
                assert(inv[i].class_name == p.0 && inv[i].methods.contains(p.1));
            }
        }
        assert forall|p: (Seq<char>, Seq<char>)| rhs.contains(p) implies lhs.contains(p) by {
            if p == (name, method) {
                assert(out[0].methods.last() == method);
                assert(out[0].methods.contains(p.1));
            } else {
                let i = choose|i: int|
                    0 <= i < inv.len() && (#[trigger] inv[i]).class_name == p.0
                        && inv[i].methods.contains(p.1);
                if i == 0 {
                    let j = choose|j: int|
                        0 <= j < inv[0].methods.len() && inv[0].methods[j] == p.1;
                    assert(out[0].methods[j] == p.1);
                    assert(out[0].methods.contains(p.1));
                } else {
                    assert(out[i].class_name == p.0 && out[i].methods.contains(p.1));
                }
            }
        }
    } else {
        lemma_add_fact_pairs(inv.drop_first(), name, method, concrete);
        let sub = spec_add_fact(inv.drop_first(), name, method, concrete);
        assert forall|p: (Seq<char>, Seq<char>)| lhs.contains(p) implies rhs.contains(p) by {
            let i = choose|i: int|
                0 <= i < out.len() && (#[trigger] out[i]).class_name == p.0
                    && out[i].methods.contains(p.1);
            if i == 0 {
                assert(inv[0].class_name == p.0 && inv[0].methods.contains(p.1));
            } else {
                assert(sub[i - 1] == out[i]);
                assert(spec_inventory_pairs(sub).contains(p));
                if spec_inventory_pairs(inv.drop_first()).contains(p) {
                    let k = choose|k: int|
                        0 <= k < inv.drop_first().len() && (#[trigger] inv.drop_first()[k]).class_name
                            == p.0 && inv.drop_first()[k].methods.contains(p.1);
                    assert(inv[k + 1].class_name == p.0 && inv[k + 1].methods.contains(p.1));
                }
            }
        }
        assert forall|p: (Seq<char>, Seq<char>)| rhs.contains(p) implies lhs.contains(p) by {
            if p == (name, method) {
                assert(spec_inventory_pairs(sub).contains(p));
                let k = choose|k: int|
                    0 <= k < sub.len() && (#[trigger] sub[k]).class_name == p.0
                        && sub[k].methods.contains(p.1);
                assert(out[k + 1] == sub[k]);
                assert(out[k + 1].class_name == p.0 && out[k + 1].methods.contains(p.1));
            } else {
                let i = choose|i: int|
                    0 <= i < inv.len() && (#[trigger] inv[i]).class_name == p.0
                        && inv[i].methods.contains(p.1);
                if i == 0 {
                    assert(out[0].class_name == p.0 && out[0].methods.contains(p.1));
                } else {
                    assert(spec_inventory_pairs(inv.drop_first()).contains(p)) by {
                        assert(inv.drop_first()[i - 1].class_name == p.0 && inv.drop_first()[i
                            - 1].methods.contains(p.1));
                    }
                    assert(spec_inventory_pairs(sub).contains(p));
                    let k = choose|k: int|
                        0 <= k < sub.len() && (#[trigger] sub[k]).class_name == p.0
                            && sub[k].methods.contains(p.1);
                    assert(out[k + 1] == sub[k]);
                }
            }
        }
    }
}

/// Applying a fact stream adds exactly its pairs to the inventory's pair
/// set.
proof fn lemma_apply_facts_pairs(
    inv: Seq<ClassMethodsView>,
    facts: Seq<(Seq<char>, Seq<char>, bool)>,
)
    ensures
        spec_inventory_pairs(spec_apply_facts(inv, facts)) =~= spec_inventory_pairs(inv).union(
            spec_facts_pairs(facts),
        ),
    decreases facts.len(),
{
    if facts.len() == 0 {
        assert(spec_facts_pairs(facts) =~= Set::<(Seq<char>, Seq<char>)>::empty());
    } else {
        let f = facts.last();
        let prev = facts.drop_last();
        lemma_apply_facts_pairs(inv, prev);
        lemma_add_fact_pairs(spec_apply_facts(inv, prev), f.0, f.1, f.2);
        assert(spec_facts_pairs(facts) =~= spec_facts_pairs(prev).insert((f.0, f.1))) by {
            assert forall|p: (Seq<char>, Seq<char>)|
                spec_facts_pairs(facts).contains(p) implies spec_facts_pairs(prev).insert(
                (f.0, f.1),
            ).contains(p) by {
                let i = choose|i: int|
                    0 <= i < facts.len() && (#[trigger] facts[i]).0 == p.0 && facts[i].1 == p.1;
                if i < prev.len() {
                    assert(prev[i] == facts[i]);
                    assert(spec_facts_pairs(prev).contains(p));
                }
            }
            assert forall|p: (Seq<char>, Seq<char>)|
                spec_facts_pairs(prev).insert((f.0, f.1)).contains(p) implies spec_facts_pairs(
                facts,
            ).contains(p) by {
                if p == (f.0, f.1) {
                    assert((#[trigger] facts[facts.len() - 1]).0 == p.0 && facts[facts.len()
                        - 1].1 == p.1);
                } else {
                    let i = choose|i: int|
                        0 <= i < prev.len() && (#[trigger] prev[i]).0 == p.0 && prev[i].1 == p.1;
                    assert(facts[i] == prev[i]);
                }
            }
        }
    }
}

/// The pair set of a whole extraction is the union, over the files of the
/// tree, of each file's fact pairs: bucket merging neither loses nor
/// invents a (container, method) pair.
pub proof fn lemma_inventory_of_pairs(
    contents: Seq<Seq<char>>,
    file_facts: spec_fn(Seq<char>) -> Seq<(Seq<char>, Seq<char>, bool)>,
)
    ensures
        spec_inventory_pairs(spec_inventory_of(contents, file_facts)) =~= Set::new(
            |p: (Seq<char>, Seq<char>)|
                exists|f: Seq<char>|
                    contents.contains(f) && spec_facts_pairs(#[trigger] file_facts(f)).contains(p),
        ),
    decreases contents.len(),
{
    let lhs = spec_inventory_pairs(spec_inventory_of(contents, file_facts));
    let rhs = Set::new(
        |p: (Seq<char>, Seq<char>)|
            exists|f: Seq<char>|
                contents.contains(f) && spec_facts_pairs(#[trigger] file_facts(f)).contains(p),
    );
    if contents.len() == 0 {
        assert(lhs =~= Set::<(Seq<char>, Seq<char>)>::empty());
        assert forall|p: (Seq<char>, Seq<char>)| !rhs.contains(p) by {
            if rhs.contains(p) {
                let f = choose|f: Seq<char>|
                    contents.contains(f) && spec_facts_pairs(#[trigger] file_facts(f)).contains(p);
            }
        }
    } else {
        let prev = contents.drop_last();
        lemma_inventory_of_pairs(prev, file_facts);
        lemma_apply_facts_pairs(spec_inventory_of(prev, file_facts), file_facts(contents.last()));
        assert forall|p: (Seq<char>, Seq<char>)| lhs.contains(p) implies rhs.contains(p) by {
            if spec_facts_pairs(file_facts(contents.last())).contains(p) {
                assert(contents.contains(contents.last()));
            } else {
                let f = choose|f: Seq<char>|
                    prev.contains(f) && spec_facts_pairs(#[trigger] file_facts(f)).contains(p);
                let i = choose|i: int| 0 <= i < prev.len() && prev[i] == f;
                assert(contents[i] == f);
                assert(contents.contains(f));
            }
        }
        assert forall|p: (Seq<char>, Seq<char>)| rhs.contains(p) implies lhs.contains(p) by {
            let f = choose|f: Seq<char>|
                contents.contains(f) && spec_facts_pairs(#[trigger] file_facts(f)).contains(p);
            let i = choose|i: int| 0 <= i < contents.len() && contents[i] == f;
            if i < prev.len() {
                assert(prev[i] == f);
                assert(prev.contains(f));
            } else {
                assert(f == contents.last());
            }
        }
    }
}

/// Extraction is deterministic up to traversal order: two walks of the same
/// file tree that deliver the same files, in whatever order and however
/// bucketed, extract the same set of (container, method) pairs.
pub proof fn lemma_extraction_order_insensitive(
    contents1: Seq<Seq<char>>,
    contents2: Seq<Seq<char>>,
    file_facts: spec_fn(Seq<char>) -> Seq<(Seq<char>, Seq<char>, bool)>,
)
    requires
        contents1.to_multiset() == contents2.to_multiset(),
    ensures
        spec_inventory_pairs(spec_inventory_of(contents1, file_facts)) == spec_inventory_pairs(
            spec_inventory_of(contents2, file_facts),
        ),
{
    broadcast use vstd::seq_lib::group_to_multiset_ensures;

    lemma_inventory_of_pairs(contents1, file_facts);
    lemma_inventory_of_pairs(contents2, file_facts);
    assert forall|f: Seq<char>| contents1.contains(f) == contents2.contains(f) by {
        assert(contents1.contains(f) <==> contents1.to_multiset().count(f) > 0);
        assert(contents2.contains(f) <==> contents2.to_multiset().count(f) > 0);
    }
    assert(spec_inventory_pairs(spec_inventory_of(contents1, file_facts)) =~= spec_inventory_pairs(
        spec_inventory_of(contents2, file_facts),
    ));
}

/// Every method an inventory holds is trackable.
pub open spec fn spec_inv_methods_trackable(
    inv: Seq<ClassMethodsView>,
    m: Seq<MappingEntryView>,
) -> bool {
    forall|i: int, j: int|
        0 <= i < inv.len() && 0 <= j < inv[i].methods.len() ==> spec_is_trackable(
            m,
            #[trigger] inv[i].methods[j],
        )
}

/// No two buckets of an inventory share a container name.
pub open spec fn spec_inv_names_unique(inv: Seq<ClassMethodsView>) -> bool {
    forall|i: int, j: int|
        0 <= i < j < inv.len() ==> (#[trigger] inv[i]).class_name != (#[trigger] inv[j]).class_name
}

/// A method name the mapping does not track appears in no inventory whose
/// methods are all trackable — and extraction produces only such
/// inventories.
pub proof fn lemma_untracked_method_not_in_inventory(
    inv: Seq<ClassMethodsView>,
    m: Seq<MappingEntryView>,
    name: Seq<char>,
)
    requires
        spec_inv_methods_trackable(inv, m),
        !spec_is_trackable(m, name),
    ensures
        forall|i: int|
            0 <= i < inv.len() ==> !(#[trigger] inv[i]).methods.contains(name),
{
    assert forall|i: int| 0 <= i < inv.len() implies !(#[trigger] inv[i]).methods.contains(
        name,
    ) by {
        if inv[i].methods.contains(name) {
            let j = choose|j: int| 0 <= j < inv[i].methods.len() && inv[i].methods[j] == name;
            assert(spec_is_trackable(m, inv[i].methods[j]));
        }
    }
}

proof fn lemma_add_fact_trackable(
    inv: Seq<ClassMethodsView>,
    name: Seq<char>,
    method: Seq<char>,
    concrete: bool,
    m: Seq<MappingEntryView>,
)
    requires
        spec_inv_methods_trackable(inv, m),
        spec_is_trackable(m, method),
    ensures
        spec_inv_methods_trackable(spec_add_fact(inv, name, method, concrete), m),
    decreases inv.len(),
{
    let out = spec_add_fact(inv, name, method, concrete);
    if inv.len() == 0 {
        assert forall|i: int, j: int|
            0 <= i < out.len() && 0 <= j < out[i].methods.len() implies spec_is_trackable(
            m,
            #[trigger] out[i].methods[j],
        ) by {
            assert(out[i].methods[j] == method);
        }
    } else if inv.first().class_name == name {
        assert forall|i: int, j: int|
            0 <= i < out.len() && 0 <= j < out[i].methods.len() implies spec_is_trackable(
            m,
            #[trigger] out[i].methods[j],
        ) by {
            if i == 0 {
                if j < inv.first().methods.len() {
                    assert(out[0].methods[j] == inv[0].methods[j]);
                } else {
                    assert(out[0].methods[j] == method);
                }
            } else {
                assert(out[i] == inv[i]);
            }
        }
    } else {
        assert(spec_inv_methods_trackable(inv.drop_first(), m)) by {
            assert forall|i: int, j: int|
                0 <= i < inv.drop_first().len() && 0 <= j
                    < inv.drop_first()[i].methods.len() implies spec_is_trackable(
                m,
                #[trigger] inv.drop_first()[i].methods[j],
            ) by {
                assert(inv.drop_first()[i] == inv[i + 1]);
                assert(spec_is_trackable(m, inv[i + 1].methods[j]));
            }
        }
        lemma_add_fact_trackable(inv.drop_first(), name, method, concrete, m);
        let sub = spec_add_fact(inv.drop_first(), name, method, concrete);
        assert forall|i: int, j: int|
            0 <= i < out.len() && 0 <= j < out[i].methods.len() implies spec_is_trackable(
            m,
            #[trigger] out[i].methods[j],
        ) by {
            if i == 0 {
                assert(out[0] == inv[0]);
            } else {
                assert(out[i] == sub[i - 1]);
                assert(spec_is_trackable(m, sub[i - 1].methods[j]));
            }
        }
    }
}

proof fn lemma_add_fact_names_unique(
    inv: Seq<ClassMethodsView>,
    name: Seq<char>,
    method: Seq<char>,
    concrete: bool,
)
    requires
        spec_inv_names_unique(inv),
    ensures
        spec_inv_names_unique(spec_add_fact(inv, name, method, concrete)),
        spec_add_fact(inv, name, method, concrete).len() >= inv.len(),
        forall|i: int|
            0 <= i < spec_add_fact(inv, name, method, concrete).len()
                ==> (#[trigger] spec_add_fact(inv, name, method, concrete)[i]).class_name == (
            if i < inv.len() {
                inv[i].class_name
            } else {
                name
            }),
    decreases inv.len(),
{
    let out = spec_add_fact(inv, name, method, concrete);
    if inv.len() == 0 {
    } else if inv.first().class_name == name {
    } else {
        assert(spec_inv_names_unique(inv.drop_first())) by {
            assert forall|i: int, j: int|
                0 <= i < j < inv.drop_first().len() implies (#[trigger] inv.drop_first()[i]).class_name
                != (#[trigger] inv.drop_first()[j]).class_name by {
                assert(inv.drop_first()[i] == inv[i + 1]);
                assert(inv.drop_first()[j] == inv[j + 1]);
            }
        }
        lemma_add_fact_names_unique(inv.drop_first(), name, method, concrete);
        let sub = spec_add_fact(inv.drop_first(), name, method, concrete);
        assert forall|i: int, j: int|
            0 <= i < j < out.len() implies (#[trigger] out[i]).class_name != (
        #[trigger] out[j]).class_name by {
            if i == 0 {
                assert(out[0] == inv[0]);
                assert(out[j] == sub[j - 1]);
                if j - 1 < inv.drop_first().len() {
                    assert(sub[j - 1].class_name == inv.drop_first()[j - 1].class_name);
                    assert(inv.drop_first()[j - 1] == inv[j]);
                } else {
                    assert(sub[j - 1].class_name == name);
                }
            } else {
                assert(out[i] == sub[i - 1]);
                assert(out[j] == sub[j - 1]);
            }
        }
    }
}

/// Applying a trackable fact stream preserves both inventory invariants.
proof fn lemma_apply_facts_invariants(
    inv: Seq<ClassMethodsView>,
    facts: Seq<(Seq<char>, Seq<char>, bool)>,
    m: Seq<MappingEntryView>,
)
    requires
        spec_inv_methods_trackable(inv, m),
        spec_inv_names_unique(inv),
        forall|i: int|
            0 <= i < facts.len() ==> spec_is_trackable(m, (#[trigger] facts[i]).1),
    ensures
        spec_inv_methods_trackable(spec_apply_facts(inv, facts), m),
        spec_inv_names_unique(spec_apply_facts(inv, facts)),
    decreases facts.len(),
{
    if facts.len() > 0 {
        let f = facts.last();
        let prev = facts.drop_last();
        assert(forall|i: int|
            0 <= i < prev.len() ==> spec_is_trackable(m, (#[trigger] prev[i]).1)) by {
            assert(forall|i: int| 0 <= i < prev.len() ==> prev[i] == facts[i]);
        }
        lemma_apply_facts_invariants(inv, prev, m);
        lemma_add_fact_trackable(spec_apply_facts(inv, prev), f.0, f.1, f.2, m);
        lemma_add_fact_names_unique(spec_apply_facts(inv, prev), f.0, f.1, f.2);
        assert(spec_is_trackable(m, (#[trigger] facts[facts.len() - 1]).1));
    }
}

/// A whole extraction yields an inventory with unique container names whose
/// every method is trackable, provided each file contributes only trackable
/// facts.
pub proof fn lemma_inventory_of_invariants(
    contents: Seq<Seq<char>>,
    file_facts: spec_fn(Seq<char>) -> Seq<(Seq<char>, Seq<char>, bool)>,
    m: Seq<MappingEntryView>,
)
    requires
        forall|c: Seq<char>, i: int|
            0 <= i < file_facts(c).len() ==> spec_is_trackable(
                m,
                (#[trigger] file_facts(c)[i]).1,
            ),
    ensures
        spec_inv_methods_trackable(spec_inventory_of(contents, file_facts), m),
        spec_inv_names_unique(spec_inventory_of(contents, file_facts)),
    decreases contents.len(),
{
    if contents.len() > 0 {
        lemma_inventory_of_invariants(contents.drop_last(), file_facts, m);
        lemma_apply_facts_invariants(
            spec_inventory_of(contents.drop_last(), file_facts),
            file_facts(contents.last()),
            m,
        );
    }
}

} // verus!
