use vstd::prelude::*;

use crate::duplicates::{files_distinct, first_clash, lemma_clash_exists};
use crate::episode::Record;
use crate::error::Failure;
use crate::loader::{is_markdown, document_outcome, load_outcome, series_outcome, tree_outcome, Document};

verus! {

/// How many documents the series from index `k` on hold.
pub open spec fn documents_from(tree: Seq<Vec<Document>>, k: int) -> int
    decreases tree.len() - k,
{
    if k < 0 || k >= tree.len() {
        0
    } else {
        tree[k]@.len() + documents_from(tree, k + 1)
    }
}

/// Every document of the tree loads on its own.
pub open spec fn all_documents_load(tree: Seq<Vec<Document>>) -> bool {
    forall|k: int, j: int|
        0 <= k < tree.len() && 0 <= j < tree[k]@.len() ==> (#[trigger] document_outcome(
            tree[k]@[j],
        )) is Ok
}

pub open spec fn series_records(docs: Seq<Document>) -> Seq<Record> {
    docs.map_values(|d: Document| document_outcome(d)->Ok_0)
}

/// The records of the series from index `k` on, in order, where each loads.
pub open spec fn records_from(tree: Seq<Vec<Document>>, k: int) -> Seq<Record>
    decreases tree.len() - k,
{
    if k < 0 || k >= tree.len() {
        Seq::empty()
    } else {
        series_records(tree[k]@) + records_from(tree, k + 1)
    }
}

proof fn lemma_series_len(docs: Seq<Document>, acc: Seq<Record>)
    ensures
        series_outcome(docs, acc) is Ok ==> series_outcome(docs, acc)->Ok_0.len() == acc.len()
            + docs.len(),
    decreases docs.len(),
{
    if docs.len() > 0 {
        if let Ok(r) = document_outcome(docs[0]) {
            lemma_series_len(docs.drop_first(), acc.push(r));
        }
    }
}

proof fn lemma_tree_ok(tree: Seq<Vec<Document>>, k: int, acc: Seq<Record>)
    requires
        0 <= k,
        k < tree.len() || files_distinct(acc),
        tree_outcome(tree, k, acc) is Ok,
    ensures
        tree_outcome(tree, k, acc)->Ok_0.len() == acc.len() + documents_from(tree, k),
        files_distinct(tree_outcome(tree, k, acc)->Ok_0),
    decreases tree.len() - k,
{
    if k < tree.len() {
        lemma_series_len(tree[k]@, acc);
        let a = series_outcome(tree[k]@, acc)->Ok_0;
        lemma_tree_ok(tree, k + 1, a);
    }
}

/// A load that succeeds yields exactly one record per document of the tree,
/// and no two of them share a media file.
pub proof fn lemma_load_counts(tree: Seq<Vec<Document>>)
    requires
        load_outcome(tree) is Ok,
    ensures
        load_outcome(tree)->Ok_0.len() == documents_from(tree, 0),
        files_distinct(load_outcome(tree)->Ok_0),
{
    lemma_tree_ok(tree, 0, Seq::empty());
}

proof fn lemma_series_all_ok(docs: Seq<Document>, acc: Seq<Record>)
    requires
        forall|j: int| 0 <= j < docs.len() ==> (#[trigger] document_outcome(docs[j])) is Ok,
    ensures
        series_outcome(docs, acc) == Ok::<Seq<Record>, Failure>(acc + series_records(docs)),
    decreases docs.len(),
{
    if docs.len() == 0 {
        assert(acc + series_records(docs) =~= acc);
    } else {
        let r = document_outcome(docs[0])->Ok_0;
        let rest = docs.drop_first();
        assert forall|j: int| 0 <= j < rest.len() implies (#[trigger] document_outcome(
            rest[j],
        )) is Ok by {
            assert(rest[j] == docs[j + 1]);
        }
        lemma_series_all_ok(rest, acc.push(r));
        assert(acc.push(r) + series_records(rest) =~= acc + series_records(docs));
    }
}

proof fn lemma_prefix_distinct(s: Seq<Record>, t: Seq<Record>)
    requires
        files_distinct(s + t),
    ensures
        files_distinct(s),
{
    assert forall|a: int, b: int| 0 <= a < b < s.len() implies s[a].file != s[b].file by {
        assert((s + t)[a] == s[a] && (s + t)[b] == s[b]);
    }
}

proof fn lemma_tree_all_ok(tree: Seq<Vec<Document>>, k: int, acc: Seq<Record>)
    requires
        0 <= k,
        all_documents_load(tree),
    ensures
        files_distinct(acc + records_from(tree, k)) ==> tree_outcome(tree, k, acc) == Ok::<
            Seq<Record>,
            Failure,
        >(acc + records_from(tree, k)),
        !files_distinct(acc + records_from(tree, k)) && k < tree.len() ==> (exists|a: int, b: int|
            #![trigger first_clash(acc + records_from(tree, k), a, b)]
            first_clash(acc + records_from(tree, k), a, b) && tree_outcome(tree, k, acc)
                == Err::<Seq<Record>, Failure>(
                Failure::DuplicateMediaFile(
                    (acc + records_from(tree, k))[b].file,
                    (acc + records_from(tree, k))[a].path,
                    (acc + records_from(tree, k))[b].path,
                ),
            )),
    decreases tree.len() - k,
{
    let full = acc + records_from(tree, k);
    if k >= tree.len() {
        assert(full =~= acc);
    } else {
        let docs = tree[k]@;
        assert forall|j: int| 0 <= j < docs.len() implies (#[trigger] document_outcome(
            docs[j],
        )) is Ok by {
            assert(document_outcome(tree[k]@[j]) is Ok);
        }
        lemma_series_all_ok(docs, acc);
        let s = acc + series_records(docs);
        assert(full =~= s + records_from(tree, k + 1));
        lemma_tree_all_ok(tree, k + 1, s);
        if files_distinct(full) {
            lemma_prefix_distinct(s, records_from(tree, k + 1));
        } else if !files_distinct(s) {
            lemma_clash_exists(s);
            let (i, j) = choose|i: int, j: int| first_clash(s, i, j);
            assert(first_clash(full, i, j));
        }
    }
}

/// Where every document loads on its own, the tree loads, one record per
/// document in order, exactly when no two documents name the same media file;
/// otherwise the load fails with the duplicate error, which names the shared
/// file and the paths of two documents that name it.
pub proof fn lemma_duplicate_media(tree: Seq<Vec<Document>>)
    requires
        all_documents_load(tree),
    ensures
        files_distinct(records_from(tree, 0)) ==> load_outcome(tree) == Ok::<
            Seq<Record>,
            Failure,
        >(records_from(tree, 0)),
        !files_distinct(records_from(tree, 0)) ==> exists|a: int, b: int|
            0 <= a < b < records_from(tree, 0).len() && records_from(tree, 0)[a].file
                == records_from(tree, 0)[b].file && load_outcome(tree) == Err::<
                Seq<Record>,
                Failure,
            >(
                Failure::DuplicateMediaFile(
                    records_from(tree, 0)[b].file,
                    records_from(tree, 0)[a].path,
                    records_from(tree, 0)[b].path,
                ),
            ),
{
    let e = Seq::<Record>::empty();
    assert(e + records_from(tree, 0) =~= records_from(tree, 0));
    lemma_tree_all_ok(tree, 0, e);
    if tree.len() == 0 {
        assert(records_from(tree, 0) =~= e);
    }
    if !files_distinct(records_from(tree, 0)) {
        let (a, b) = choose|a: int, b: int| #![trigger first_clash(e + records_from(tree, 0), a, b)]
            first_clash(e + records_from(tree, 0), a, b) && tree_outcome(tree, 0, e) == Err::<
                Seq<Record>,
                Failure,
            >(
                Failure::DuplicateMediaFile(
                    (e + records_from(tree, 0))[b].file,
                    (e + records_from(tree, 0))[a].path,
                    (e + records_from(tree, 0))[b].path,
                ),
            );
        assert(first_clash(records_from(tree, 0), a, b));
    }
}

/// The records of the series before index `k`, in order, where each loads.
pub open spec fn records_upto(tree: Seq<Vec<Document>>, k: int) -> Seq<Record>
    decreases k,
{
    if k <= 0 || k > tree.len() {
        Seq::empty()
    } else {
        records_upto(tree, k - 1) + series_records(tree[k - 1]@)
    }
}

proof fn lemma_series_prefix(docs: Seq<Document>, acc: Seq<Record>, m: int)
    requires
        0 <= m <= docs.len(),
        forall|j: int| 0 <= j < m ==> (#[trigger] document_outcome(docs[j])) is Ok,
    ensures
        series_outcome(docs, acc) == series_outcome(
            docs.subrange(m, docs.len() as int),
            acc + series_records(docs.subrange(0, m)),
        ),
    decreases m,
{
    if m == 0 {
        assert(docs.subrange(0, docs.len() as int) =~= docs);
        assert(acc + series_records(docs.subrange(0, 0)) =~= acc);
    } else {
        let r = document_outcome(docs[0])->Ok_0;
        let rest = docs.drop_first();
        assert forall|j: int| 0 <= j < m - 1 implies (#[trigger] document_outcome(rest[j])) is Ok by {
            assert(rest[j] == docs[j + 1]);
        }
        lemma_series_prefix(rest, acc.push(r), m - 1);
        assert(rest.subrange(m - 1, rest.len() as int) =~= docs.subrange(m, docs.len() as int));
        assert(acc.push(r) + series_records(rest.subrange(0, m - 1)) =~= acc + series_records(
            docs.subrange(0, m),
        ));
    }
}

proof fn lemma_tree_prefix(tree: Seq<Vec<Document>>, k: int)
    requires
        0 <= k <= tree.len(),
        forall|x: int, y: int|
            0 <= x < k && 0 <= y < tree[x]@.len() ==> (#[trigger] document_outcome(
                tree[x]@[y],
            )) is Ok,
        files_distinct(records_upto(tree, k)),
    ensures
        load_outcome(tree) == tree_outcome(tree, k, records_upto(tree, k)),
    decreases k,
{
    if k > 0 {
        let prev = records_upto(tree, k - 1);
        let docs = tree[k - 1]@;
        lemma_prefix_distinct(prev, series_records(docs));
        lemma_tree_prefix(tree, k - 1);
        assert forall|j: int| 0 <= j < docs.len() implies (#[trigger] document_outcome(
            docs[j],
        )) is Ok by {
            assert(document_outcome(tree[k - 1]@[j]) is Ok);
        }
        lemma_series_all_ok(docs, prev);
    }
}

/// An entry without the markdown extension fails the whole load with the
/// unexpected-file-type error naming its path, however well-formed the
/// documents loaded before it: where each of them loads and no two in the
/// series before its own share a media file.
pub proof fn lemma_unexpected_file_type(tree: Seq<Vec<Document>>, k: int, j: int)
    requires
        0 <= k < tree.len(),
        0 <= j < tree[k]@.len(),
        !is_markdown(tree[k]@[j].path@),
        forall|x: int, y: int|
            0 <= x < k && 0 <= y < tree[x]@.len() ==> (#[trigger] document_outcome(
                tree[x]@[y],
            )) is Ok,
        forall|y: int| 0 <= y < j ==> (#[trigger] document_outcome(tree[k]@[y])) is Ok,
        files_distinct(records_upto(tree, k)),
    ensures
        load_outcome(tree) == Err::<Seq<Record>, Failure>(
            Failure::UnexpectedFileType(tree[k]@[j].path@),
        ),
{
    let docs = tree[k]@;
    let acc = records_upto(tree, k);
    lemma_tree_prefix(tree, k);
    lemma_series_prefix(docs, acc, j);
    let rest = docs.subrange(j, docs.len() as int);
    assert(rest[0] == docs[j]);
}

} // verus!
