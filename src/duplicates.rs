use vstd::prelude::*;

use crate::episode::{Episode, Record};
use crate::error::{Failure, LoadError};

verus! {

/// `(i, j)` is the first pair of records that share a media file: `j` is the
/// first record whose file an earlier one already names, and `i` the first
/// record that names it.
pub open spec fn first_clash(rs: Seq<Record>, i: int, j: int) -> bool {
    &&& 0 <= i < j < rs.len()
    &&& rs[i].file == rs[j].file
    &&& forall|k: int| 0 <= k < i ==> rs[k].file != rs[j].file
    &&& forall|a: int, b: int| 0 <= a < b < j ==> rs[a].file != rs[b].file
}

/// No two records share a media file.
pub open spec fn files_distinct(rs: Seq<Record>) -> bool {
    forall|a: int, b: int| 0 <= a < b < rs.len() ==> rs[a].file != rs[b].file
}

/// What the duplicate guard reports on `rs`.
pub open spec fn clash_failure(rs: Seq<Record>, i: int, j: int) -> Failure {
    Failure::DuplicateMediaFile(rs[j].file, rs[i].path, rs[j].path)
}

pub open spec fn records_of(eps: Seq<Episode>) -> Seq<Record> {
    eps.map_values(|e: Episode| e@)
}

/// The first pair of episodes that share a media file, if there is one.
pub fn find_duplicate(eps: &Vec<Episode>) -> (r: Option<(usize, usize)>)
    ensures
        match r {
            Some((i, j)) => first_clash(records_of(eps@), i as int, j as int),
            None => files_distinct(records_of(eps@)),
        },
{
    let ghost rs = records_of(eps@);
    let mut j: usize = 0;
    while j < eps.len()
        invariant
            j <= eps@.len(),
            rs == records_of(eps@),
            forall|a: int, b: int| 0 <= a < b < j ==> rs[a].file != rs[b].file,
        decreases eps@.len() - j,
    {
        let mut i: usize = 0;
        while i < j
            invariant
                i <= j < eps@.len(),
                rs == records_of(eps@),
                forall|a: int, b: int| 0 <= a < b < j ==> rs[a].file != rs[b].file,
                forall|k: int| 0 <= k < i ==> rs[k].file != rs[j as int].file,
            decreases j - i,
        {
            if eps[i].file == eps[j].file {
                return Some((i, j));
            }
            i += 1;
        }
        j += 1;
    }
    None
}

/// The duplicate guard: fails on the first pair of episodes that share a media
/// file, naming the file, the path of the first episode that names it and the
/// path of the episode that names it again.
pub fn check_duplicates(eps: &Vec<Episode>) -> (r: Result<(), LoadError>)
    ensures
        match r {
            Ok(()) => files_distinct(records_of(eps@)),
            Err(e) => exists|i: int, j: int|
                first_clash(records_of(eps@), i, j) && e@ == clash_failure(records_of(eps@), i, j),
        },
{
    match find_duplicate(eps) {
        None => Ok(()),
        Some((i, j)) => {
            let e = LoadError::DuplicateMediaFile {
                file: eps[j].file.clone(),
                first: eps[i].path.clone(),
                second: eps[j].path.clone(),
            };
            assert(first_clash(records_of(eps@), i as int, j as int));
            assert(e@ == clash_failure(records_of(eps@), i as int, j as int));
            Err(e)
        },
    }
}

/// The first clashing pair is unique, so the guard always names the same one.
pub proof fn lemma_first_clash_unique(rs: Seq<Record>, i1: int, j1: int, i2: int, j2: int)
    requires
        first_clash(rs, i1, j1),
        first_clash(rs, i2, j2),
    ensures
        i1 == i2 && j1 == j2,
{
    if j1 < j2 {
        assert(rs[i1].file != rs[j1].file);
    } else if j2 < j1 {
        assert(rs[i2].file != rs[j2].file);
    }
}

proof fn lemma_least_with_file(rs: Seq<Record>, f: Seq<char>, a: int) -> (i: int)
    requires
        0 <= a < rs.len(),
        rs[a].file == f,
    ensures
        0 <= i <= a,
        rs[i].file == f,
        forall|k: int| 0 <= k < i ==> rs[k].file != f,
    decreases a,
{
    if exists|k: int| 0 <= k < a && rs[k].file == f {
        let k = choose|k: int| 0 <= k < a && rs[k].file == f;
        lemma_least_with_file(rs, f, k)
    } else {
        a
    }
}

/// Records whose files are not all distinct have a first clashing pair.
pub proof fn lemma_clash_exists(rs: Seq<Record>)
    requires
        !files_distinct(rs),
    ensures
        exists|i: int, j: int| first_clash(rs, i, j),
    decreases rs.len(),
{
    let p = rs.drop_last();
    if !files_distinct(p) {
        lemma_clash_exists(p);
        let (i, j) = choose|i: int, j: int| first_clash(p, i, j);
        assert forall|k: int| 0 <= k < i implies rs[k].file != rs[j].file by {
            assert(p[k] == rs[k] && p[j] == rs[j]);
        }
        assert forall|x: int, y: int| 0 <= x < y < j implies rs[x].file != rs[y].file by {
            assert(p[x] == rs[x] && p[y] == rs[y]);
        }
        assert(p[i] == rs[i] && p[j] == rs[j]);
        assert(first_clash(rs, i, j));
    } else {
        let n = rs.len() - 1;
        let (a, b) = choose|a: int, b: int| 0 <= a < b < rs.len() && rs[a].file == rs[b].file;
        if b < n {
            assert(p[a].file == p[b].file);
        }
        let i = lemma_least_with_file(rs, rs[n].file, a);
        assert forall|x: int, y: int| 0 <= x < y < n implies rs[x].file != rs[y].file by {
            assert(p[x] == rs[x] && p[y] == rs[y]);
        }
        assert(first_clash(rs, i, n));
    }
}

} // verus!
