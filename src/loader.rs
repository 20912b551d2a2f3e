use vstd::prelude::*;

use crate::document::{frame_document, framing};
use crate::duplicates::{check_duplicates, clash_failure, files_distinct, first_clash, records_of};
use crate::episode::{Episode, FrontMatter, Record, record_of};
use crate::error::{Failure, LoadError};

verus! {

/// One entry of a series directory, as read from disk.
pub struct Document {
    /// Where the entry was found.
    pub path: String,
    /// The entry's text, or the report of the failed read.
    pub content: Result<String, String>,
    /// What the entry's front matter decoded to, or the decoder's report.
    /// Consulted only where the text frames.
    pub decoded: Result<FrontMatter, String>,
}

/// The path names a file with the markdown extension: its last component
/// ends in `.md` and holds something before that dot.
pub open spec fn is_markdown(p: Seq<char>) -> bool {
    &&& p.len() >= 4
    &&& p[p.len() - 4] != '/'
    &&& p[p.len() - 3] == '.'
    &&& p[p.len() - 2] == 'm'
    &&& p[p.len() - 1] == 'd'
}

/// Whether `path` names a markdown file.
pub fn is_markdown_path(path: &str) -> (r: bool)
    ensures
        r == is_markdown(path@),
{
    let chars = crate::text::chars_of(path);
    let n = chars.len();
    n >= 4 && chars[n - 4] != '/' && chars[n - 3] == '.' && chars[n - 2] == 'm' && chars[n - 1]
        == 'd'
}

/// What loading one document yields.
pub open spec fn document_outcome(d: Document) -> Result<Record, Failure> {
    if !is_markdown(d.path@) {
        Err(Failure::UnexpectedFileType(d.path@))
    } else {
        match d.content {
            Err(m) => Err(Failure::Io(m@)),
            Ok(t) => match framing(d.path@, t@) {
                Err(f) => Err(f),
                Ok((_, body)) => match d.decoded {
                    Err(m) => Err(Failure::Metadata(m@, d.path@)),
                    Ok(fm) => Ok(record_of(fm, d.path@, body)),
                },
            },
        }
    }
}

/// Loading the documents of one series after the records `acc`.
pub open spec fn series_outcome(docs: Seq<Document>, acc: Seq<Record>) -> Result<Seq<Record>, Failure>
    decreases docs.len(),
{
    if docs.len() == 0 {
        Ok(acc)
    } else {
        match document_outcome(docs[0]) {
            Err(f) => Err(f),
            Ok(r) => series_outcome(docs.drop_first(), acc.push(r)),
        }
    }
}

/// The duplicate guard on the records loaded so far.
pub open spec fn guard(rs: Seq<Record>) -> Result<Seq<Record>, Failure> {
    if files_distinct(rs) {
        Ok(rs)
    } else {
        let (i, j) = choose|i: int, j: int| first_clash(rs, i, j);
        Err(clash_failure(rs, i, j))
    }
}

/// Loading the series from index `k` on, after the records `acc`: each series
/// document by document, then the guard over everything loaded so far.
pub open spec fn tree_outcome(tree: Seq<Vec<Document>>, k: int, acc: Seq<Record>) -> Result<
    Seq<Record>,
    Failure,
>
    decreases tree.len() - k,
{
    if k < 0 || k >= tree.len() {
        Ok(acc)
    } else {
        match series_outcome(tree[k]@, acc) {
            Err(f) => Err(f),
            Ok(a) => match guard(a) {
                Err(f) => Err(f),
                Ok(a) => tree_outcome(tree, k + 1, a),
            },
        }
    }
}

/// What loading a whole tree of series yields.
pub open spec fn load_outcome(tree: Seq<Vec<Document>>) -> Result<Seq<Record>, Failure> {
    tree_outcome(tree, 0, Seq::empty())
}

fn clone_opt(o: &Option<String>) -> (r: Option<String>)
    ensures
        r == *o,
{
    match o {
        Some(s) => Some(s.clone()),
        None => None,
    }
}

fn clone_front_matter(fm: &FrontMatter) -> (r: FrontMatter)
    ensures
        r == *fm,
{
    FrontMatter {
        title: fm.title.clone(),
        date: fm.date,
        slug: clone_opt(&fm.slug),
        file: fm.file.clone(),
        duration: fm.duration.clone(),
        length: fm.length.clone(),
        reddit: clone_opt(&fm.reddit),
    }
}

/// Loads one document: its file type, its text, its framing and its front
/// matter, failing on the first of them that is wrong.
pub fn load_document(d: &Document) -> (r: Result<Episode, LoadError>)
    ensures
        match (r, document_outcome(*d)) {
            (Ok(e), Ok(rec)) => e@ == rec,
            (Err(e), Err(f)) => e@ == f,
            _ => false,
        },
{
    if !is_markdown_path(d.path.as_str()) {
        return Err(LoadError::UnexpectedFileType { path: d.path.clone() });
    }
    let text = match &d.content {
        Err(m) => {
            return Err(LoadError::Io { message: m.clone() });
        },
        Ok(t) => t,
    };
    let framed = match frame_document(d.path.as_str(), text.as_str()) {
        Err(e) => {
            return Err(e);
        },
        Ok(f) => f,
    };
    match &d.decoded {
        Err(m) => Err(LoadError::Metadata { message: m.clone(), path: d.path.clone() }),
        Ok(fm) => Ok(Episode::new(clone_front_matter(fm), d.path.clone(), framed.body)),
    }
}

/// Loads a tree of series in order. Each series is loaded document by
/// document; after each, the duplicate guard runs over every episode loaded
/// so far. The first failure ends the load.
pub fn load_tree(tree: &Vec<Vec<Document>>) -> (r: Result<Vec<Episode>, LoadError>)
    ensures
        match (r, load_outcome(tree@)) {
            (Ok(v), Ok(rs)) => records_of(v@) == rs,
            (Err(e), Err(f)) => e@ == f,
            _ => false,
        },
{
    let mut eps: Vec<Episode> = Vec::new();
    let mut k: usize = 0;
    assert(records_of(eps@) =~= Seq::<Record>::empty());
    while k < tree.len()
        invariant
            k <= tree@.len(),
            load_outcome(tree@) == tree_outcome(tree@, k as int, records_of(eps@)),
        decreases tree@.len() - k,
    {
        let series = &tree[k];
        let ghost acc = records_of(eps@);
        let mut j: usize = 0;
        assert(series@.subrange(0, series@.len() as int) =~= series@);
        while j < series.len()
            invariant
                j <= series@.len(),
                load_outcome(tree@) == tree_outcome(tree@, k as int, acc),
                series == tree@[k as int],
                k < tree@.len(),
                series_outcome(series@, acc) == series_outcome(
                    series@.subrange(j as int, series@.len() as int),
                    records_of(eps@),
                ),
            decreases series@.len() - j,
        {
            let ghost rest = series@.subrange(j as int, series@.len() as int);
            assert(rest[0] == series@[j as int]);
            match load_document(&series[j]) {
                Err(e) => {
                    return Err(e);
                },
                Ok(ep) => {
                    let ghost before = records_of(eps@);
                    eps.push(ep);
                    proof {
                        assert(records_of(eps@) =~= before.push(ep@));
                        assert(rest.drop_first() =~= series@.subrange(
                            j as int + 1,
                            series@.len() as int,
                        ));
                    }
                },
            }
            j += 1;
        }
        proof {
            assert(series@.subrange(j as int, series@.len() as int) =~= Seq::<Document>::empty());
        }
        match check_duplicates(&eps) {
            Err(e) => {
                proof {
                    let rs = records_of(eps@);
                    let (i, j2) = choose|i: int, j: int| first_clash(rs, i, j);
                    let (a, b) = choose|a: int, b: int|
                        first_clash(rs, a, b) && e@ == clash_failure(rs, a, b);
                    crate::duplicates::lemma_first_clash_unique(rs, i, j2, a, b);
                }
                return Err(e);
            },
            Ok(()) => {},
        }
        k += 1;
    }
    Ok(eps)
}

} // verus!
