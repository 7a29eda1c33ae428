//! The target-language structural extractor: finds every method declared in
//! a type's implementation block, keeps the trackable ones, and folds them
//! into a per-container inventory. In the target language every container
//! is concrete: it has no interface-like declarations at this granularity.

use crate::extractors::{
    add_fact, row_field, spec_apply_facts, spec_inv_methods_trackable, spec_inv_names_unique,
    spec_inventory_of, spec_row_field,
};
use crate::mapping::{spec_is_trackable, Mapping, MappingEntryView};
use crate::types::{ClassMethods, ClassMethodsView};
use tree_sitter::{Language, Parser, Query, QueryCursor, StreamingIterator};
use vstd::prelude::*;

verus! {

/// The capture rows that the target-language grammar query yields for one
/// file's text: one row per query match, each capture as (capture index,
/// captured text). Capture 0 is the name of the type an implementation
/// block is for; capture 1 is the name of a method declared in that block.
pub uninterp spec fn rust_capture_rows(content: Seq<char>) -> Seq<Seq<(u32, Seq<char>)>>;

/// Relies on tree_sitter's Parser, Query and QueryCursor, built with the
/// tree_sitter_rust grammar: parsing a fixed text under a fixed grammar and
/// walking the matches of a fixed query is a deterministic function of the
/// text alone, so the rows it yields are named by [`rust_capture_rows`].
/// The grammar always produces a tree (malformed input parses with error
/// nodes and simply yields fewer matches), so a bad file cannot abort an
/// extraction run. Loading the bundled grammar and the fixed, valid query
/// literal cannot fail on any input of this function.
#[verifier::external_body]
fn rust_capture_rows_exec(content: &str) -> (rows: Vec<Vec<(u32, String)>>)
    ensures
        rows.deep_view() == rust_capture_rows(content@),
{
    let lang = Language::from(tree_sitter_rust::LANGUAGE);
    let mut parser = Parser::new();
    parser.set_language(&lang).unwrap();
    let mut rows = Vec::new();
    let Some(tree) = parser.parse(content, None) else { return rows };
    let query = Query::new(&lang, "(impl_item type: (type_identifier) @type_name body: (declaration_list (function_item name: (identifier) @method_name)))").unwrap();
    let mut cursor = QueryCursor::new();
    let mut ms = cursor.matches(&query, tree.root_node(), content.as_bytes());
    while let Some(m) = ms.next() {
        rows.push(m.captures().iter().map(|c| (c.index, c.node.utf8_text(content.as_bytes()).unwrap_or("").to_string())).collect());
    }
    rows
}

/// The (container, method) fact one capture row states, if it states one:
/// both names captured and non-empty.
pub open spec fn spec_rust_row_fact(row: Seq<(u32, Seq<char>)>) -> Option<(Seq<char>, Seq<char>)> {
    match (spec_row_field(row, 0), spec_row_field(row, 1)) {
        (Some(c), Some(f)) => if c.len() > 0 && f.len() > 0 {
            Some((c, f))
        } else {
            None
        },
        _ => None,
    }
}

/// The trackable facts a sequence of capture rows states, in row order;
/// every container is concrete. Untracked method names are dropped here,
/// during extraction: they never enter an inventory.
pub open spec fn spec_rust_row_facts(
    rows: Seq<Seq<(u32, Seq<char>)>>,
    m: Seq<MappingEntryView>,
) -> Seq<(Seq<char>, Seq<char>, bool)>
    decreases rows.len(),
{
    if rows.len() == 0 {
        Seq::empty()
    } else {
        let prev = spec_rust_row_facts(rows.drop_last(), m);
        match spec_rust_row_fact(rows.last()) {
            Some(f) => if spec_is_trackable(m, f.1) {
                prev.push((f.0, f.1, true))
            } else {
                prev
            },
            None => prev,
        }
    }
}

/// The trackable facts one file contributes.
pub open spec fn spec_rust_file_facts(content: Seq<char>, m: Seq<MappingEntryView>) -> Seq<
    (Seq<char>, Seq<char>, bool),
> {
    spec_rust_row_facts(rust_capture_rows(content), m)
}

/// The target-language inventory of a whole file tree: each file's
/// trackable facts, folded in order into per-container buckets.
pub open spec fn spec_rust_inventory(
    contents: Seq<Seq<char>>,
    m: Seq<MappingEntryView>,
) -> Seq<ClassMethodsView>
    decreases contents.len(),
{
    if contents.len() == 0 {
        Seq::empty()
    } else {
        spec_apply_facts(
            spec_rust_inventory(contents.drop_last(), m),
            spec_rust_file_facts(contents.last(), m),
        )
    }
}

/// The same inventory, phrased through the generic extraction fold, for the
/// laws stated about that fold: any per-file fact function that agrees with
/// [`spec_rust_file_facts`] folds to the same inventory.
pub proof fn lemma_rust_inventory_is_inventory_of(
    contents: Seq<Seq<char>>,
    m: Seq<MappingEntryView>,
    ff: spec_fn(Seq<char>) -> Seq<(Seq<char>, Seq<char>, bool)>,
)
    requires
        forall|c: Seq<char>| #[trigger] ff(c) == spec_rust_file_facts(c, m),
    ensures
        spec_rust_inventory(contents, m) == spec_inventory_of(contents, ff),
    decreases contents.len(),
{
    if contents.len() > 0 {
        lemma_rust_inventory_is_inventory_of(contents.drop_last(), m, ff);
    }
}

/// Every fact a row sequence states carries a trackable method name.
pub proof fn lemma_rust_row_facts_trackable(
    rows: Seq<Seq<(u32, Seq<char>)>>,
    m: Seq<MappingEntryView>,
)
    ensures
        forall|i: int|
            0 <= i < spec_rust_row_facts(rows, m).len() ==> spec_is_trackable(
                m,
                (#[trigger] spec_rust_row_facts(rows, m)[i]).1,
            ),
    decreases rows.len(),
{
    if rows.len() > 0 {
        lemma_rust_row_facts_trackable(rows.drop_last(), m);
        let prev = spec_rust_row_facts(rows.drop_last(), m);
        let cur = spec_rust_row_facts(rows, m);
        assert forall|i: int|
            0 <= i < cur.len() implies spec_is_trackable(m, (#[trigger] cur[i]).1) by {
            if i < prev.len() {
                assert(cur[i] == prev[i]);
                assert(spec_is_trackable(m, prev[i].1));
            } else {
                let f = spec_rust_row_fact(rows.last())->Some_0;
                assert(cur[i] == (f.0, f.1, true));
            }
        }
    }
}

/// Re-running extraction over an unchanged file tree is deterministic: two
/// walks that deliver the same file contents, in whatever order, extract
/// the same set of (container, method) pairs.
pub proof fn lemma_rust_extraction_deterministic(
    contents1: Seq<Seq<char>>,
    contents2: Seq<Seq<char>>,
    m: Seq<MappingEntryView>,
)
    requires
        contents1.to_multiset() == contents2.to_multiset(),
    ensures
        crate::extractors::spec_inventory_pairs(spec_rust_inventory(contents1, m))
            == crate::extractors::spec_inventory_pairs(spec_rust_inventory(contents2, m)),
{
    let ff = |c: Seq<char>| spec_rust_file_facts(c, m);
    lemma_rust_inventory_is_inventory_of(contents1, m, ff);
    lemma_rust_inventory_is_inventory_of(contents2, m, ff);
    crate::extractors::lemma_extraction_order_insensitive(contents1, contents2, ff);
}

/// Extracts the target-language inventory from the given file contents,
/// keeping only methods the mapping tracks. The result merges same-named
/// containers across files, holds no two buckets with one name, and holds
/// no untracked method.
pub fn parse_rust_files(contents: &Vec<String>, mapping: &Mapping) -> (r: Vec<ClassMethods>)
    ensures
        r.deep_view() == spec_rust_inventory(contents.deep_view(), mapping@),
        spec_inv_methods_trackable(r.deep_view(), mapping@),
        spec_inv_names_unique(r.deep_view()),
{
    let ghost cd = contents.deep_view();
    let mut classes: Vec<ClassMethods> = Vec::new();
    let n = contents.len();
    let mut fi: usize = 0;
    proof {
        assert(cd.take(0) =~= Seq::<Seq<char>>::empty());
    }
    while fi < n
        invariant
            n == contents.len(),
            cd == contents.deep_view(),
            cd.len() == n,
            fi <= n,
            classes.deep_view() == spec_rust_inventory(cd.take(fi as int), mapping@),
        decreases n - fi,
    {
        let ghost inv0 = classes.deep_view();
        let rows = rust_capture_rows_exec(contents[fi].as_str());
        let ghost rowsv = rust_capture_rows(cd[fi as int]);
        proof {
            assert(contents[fi as int]@ == cd[fi as int]);
            assert(rows.deep_view() == rowsv);
        }
        let rn = rows.len();
        let mut ri: usize = 0;
        proof {
            assert(rowsv.take(0) =~= Seq::<Seq<(u32, Seq<char>)>>::empty());
        }
        while ri < rn
            invariant
                rn == rows.len(),
                rows.deep_view() == rowsv,
                rowsv.len() == rn,
                ri <= rn,
                classes.deep_view() == spec_apply_facts(
                    inv0,
                    spec_rust_row_facts(rowsv.take(ri as int), mapping@),
                ),
            decreases rn - ri,
        {
            let ghost row = rowsv[ri as int];
            proof {
                assert(rows[ri as int].deep_view() == row);
                assert(rowsv.take(ri + 1).drop_last() =~= rowsv.take(ri as int));
                assert(rowsv.take(ri + 1).last() == row);
            }
            let cname = row_field(&rows[ri], 0);
            let mname = row_field(&rows[ri], 1);
            let ghost facts_before = spec_rust_row_facts(rowsv.take(ri as int), mapping@);
            match (cname, mname) {
                (Some(c), Some(f)) => {
                    if !c.as_str().is_empty() && !f.as_str().is_empty() && mapping.is_trackable(
                        f.as_str(),
                    ) {
                        proof {
                            assert(spec_rust_row_fact(row) == Some((c@, f@)));
                            assert(spec_rust_row_facts(rowsv.take(ri + 1), mapping@)
                                == facts_before.push((c@, f@, true)));
                            assert(facts_before.push((c@, f@, true)).drop_last()
                                =~= facts_before);
                        }
                        add_fact(&mut classes, c, f, true);
                    } else {
                        proof {
                            assert(spec_rust_row_facts(rowsv.take(ri + 1), mapping@)
                                == facts_before);
                        }
                    }
                },
                _ => {
                    proof {
                        assert(spec_rust_row_facts(rowsv.take(ri + 1), mapping@) == facts_before);
                    }
                },
            }
            ri = ri + 1;
        }
        proof {
            assert(rowsv.take(rn as int) =~= rowsv);
            assert(cd.take(fi + 1).drop_last() =~= cd.take(fi as int));
            assert(cd.take(fi + 1).last() == cd[fi as int]);
        }
        fi = fi + 1;
    }
    proof {
        assert(cd.take(n as int) =~= cd);
        let ff = |c: Seq<char>| spec_rust_file_facts(c, mapping@);
        lemma_rust_inventory_is_inventory_of(cd, mapping@, ff);
        assert forall|c: Seq<char>, i: int|
            0 <= i < ff(c).len() implies spec_is_trackable(
            mapping@,
            (#[trigger] ff(c)[i]).1,
        ) by {
            lemma_rust_row_facts_trackable(rust_capture_rows(c), mapping@);
        }
        crate::extractors::lemma_inventory_of_invariants(cd, ff, mapping@);
    }
    classes
}

} // verus!
