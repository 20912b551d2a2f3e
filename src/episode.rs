use vstd::prelude::*;

verus! {

/// An instant in UTC: whole seconds since the Unix epoch and the nanoseconds
/// past that second (a leap second may take them up to two billion).
#[derive(Clone, Copy, Debug, PartialEq, Eq, Structural)]
pub struct Timestamp {
    pub seconds: i64,
    pub nanos: u32,
}

pub const NANOS_LIMIT: u32 = 2_000_000_000;

impl Timestamp {
    pub open spec fn wf(&self) -> bool {
        self.nanos < NANOS_LIMIT
    }

    /// The instant with these parts, where the nanoseconds are in range.
    pub fn from_parts(seconds: i64, nanos: u32) -> (r: Option<Timestamp>)
        ensures
            match r {
                Some(t) => t.wf() && t.seconds == seconds && t.nanos == nanos,
                None => nanos >= NANOS_LIMIT,
            },
    {
        if nanos < NANOS_LIMIT {
            Some(Timestamp { seconds, nanos })
        } else {
            None
        }
    }
}

/// The fields that an episode's front matter carries.
pub struct FrontMatter {
    pub title: String,
    pub date: Timestamp,
    pub slug: Option<String>,
    pub file: String,
    pub duration: String,
    pub length: String,
    pub reddit: Option<String>,
}

/// One episode: its front matter, where it was loaded from, and its body.
pub struct Episode {
    pub title: String,
    pub date: Timestamp,
    pub slug: Option<String>,
    pub file: String,
    pub duration: String,
    pub length: String,
    pub reddit: Option<String>,
    pub path: String,
    pub body: String,
}

/// The mathematical value of an `Episode`.
pub struct Record {
    pub title: Seq<char>,
    pub date: Timestamp,
    pub slug: Option<Seq<char>>,
    pub file: Seq<char>,
    pub duration: Seq<char>,
    pub length: Seq<char>,
    pub reddit: Option<Seq<char>>,
    pub path: Seq<char>,
    pub body: Seq<char>,
}

pub open spec fn opt_view(o: Option<String>) -> Option<Seq<char>> {
    match o {
        Some(s) => Some(s@),
        None => None,
    }
}

impl View for Episode {
    type V = Record;

    open spec fn view(&self) -> Record {
        Record {
            title: self.title@,
            date: self.date,
            slug: opt_view(self.slug),
            file: self.file@,
            duration: self.duration@,
            length: self.length@,
            reddit: opt_view(self.reddit),
            path: self.path@,
            body: self.body@,
        }
    }
}

/// The record of an episode whose front matter decoded to `fm`.
pub open spec fn record_of(fm: FrontMatter, path: Seq<char>, body: Seq<char>) -> Record {
    Record {
        title: fm.title@,
        date: fm.date,
        slug: opt_view(fm.slug),
        file: fm.file@,
        duration: fm.duration@,
        length: fm.length@,
        reddit: opt_view(fm.reddit),
        path,
        body,
    }
}

/// The path of a record not loaded from anywhere yet.
pub fn empty_path() -> (r: String)
    ensures
        r@ == Seq::<char>::empty(),
{
    String::new()
}

/// The body of a document that has none.
pub fn empty_string() -> (r: String)
    ensures
        r@ == Seq::<char>::empty(),
{
    String::new()
}

impl Episode {
    /// The episode of decoded front matter, found at `path`, with `body`.
    pub fn new(fm: FrontMatter, path: String, body: String) -> (r: Episode)
        ensures
            r@ == record_of(fm, path@, body@),
    {
        Episode {
            title: fm.title,
            date: fm.date,
            slug: fm.slug,
            file: fm.file,
            duration: fm.duration,
            length: fm.length,
            reddit: fm.reddit,
            path,
            body,
        }
    }
}

} // verus!
