use vstd::prelude::*;

verus! {

/// Why loading the episode tree stopped.
pub enum LoadError {
    /// A document could not be read; `message` is the system's report.
    Io { message: String },
    /// A document-level entry whose name does not end in `.md`.
    UnexpectedFileType { path: String },
    /// The document holds the abnormal dash glyph.
    AbnormalDash { path: String },
    /// The document holds a curly quotation mark.
    SmartQuote { path: String },
    /// The document does not begin with a `---` line.
    MissingOpening { path: String },
    /// The document has no `---` that ends its front matter.
    MissingClosing { path: String },
    /// The front matter could not be decoded; `message` is the decoder's.
    Metadata { message: String, path: String },
    /// Two episodes name the same media file.
    DuplicateMediaFile { file: String, first: String, second: String },
}

/// The mathematical value of a `LoadError`.
pub enum Failure {
    Io(Seq<char>),
    UnexpectedFileType(Seq<char>),
    AbnormalDash(Seq<char>),
    SmartQuote(Seq<char>),
    MissingOpening(Seq<char>),
    MissingClosing(Seq<char>),
    Metadata(Seq<char>, Seq<char>),
    DuplicateMediaFile(Seq<char>, Seq<char>, Seq<char>),
}

impl View for LoadError {
    type V = Failure;

    open spec fn view(&self) -> Failure {
        match self {
            LoadError::Io { message } => Failure::Io(message@),
            LoadError::UnexpectedFileType { path } => Failure::UnexpectedFileType(path@),
            LoadError::AbnormalDash { path } => Failure::AbnormalDash(path@),
            LoadError::SmartQuote { path } => Failure::SmartQuote(path@),
            LoadError::MissingOpening { path } => Failure::MissingOpening(path@),
            LoadError::MissingClosing { path } => Failure::MissingClosing(path@),
            LoadError::Metadata { message, path } => Failure::Metadata(message@, path@),
            LoadError::DuplicateMediaFile { file, first, second } => Failure::DuplicateMediaFile(
                file@,
                first@,
                second@,
            ),
        }
    }
}

/// `p` between double quotes, as a path is quoted in the messages.
pub open spec fn quoted(p: Seq<char>) -> Seq<char> {
    seq!['"'] + p + seq!['"']
}

/// The text that reports a failure.
pub open spec fn message_of(f: Failure) -> Seq<char> {
    match f {
        Failure::Io(m) => m,
        Failure::UnexpectedFileType(p) => "Not a markdown file: "@ + p,
        Failure::AbnormalDash(p) => "Abnormal dash found in: "@ + p,
        Failure::SmartQuote(p) => "Smart quote found in: "@ + p
            + ". Please replace it with a normal quote."@,
        Failure::MissingOpening(p) => "File does not start with '---': "@ + p,
        Failure::MissingClosing(p) => "File does not contain the second '---', the end of the front-matter : "@
            + quoted(p),
        Failure::Metadata(m, p) => "Failed to parse front matter: "@ + m + " in "@ + quoted(p),
        Failure::DuplicateMediaFile(f, a, b) => "The same mp3 file "@ + f + " was used twice in "@
            + a + " and in "@ + b,
    }
}

fn quote_into(out: &mut String, p: &str)
    ensures
        final(out)@ == old(out)@ + quoted(p@),
{
    out.append("\"");
    out.append(p);
    out.append("\"");
    proof {
        reveal_strlit("\"");
        assert(final(out)@ =~= old(out)@ + quoted(p@));
    }
}

impl LoadError {
    /// The human-readable report of this error.
    pub fn message(&self) -> (r: String)
        ensures
            r@ == message_of(self@),
    {
        match self {
            LoadError::Io { message } => message.clone(),
            LoadError::UnexpectedFileType { path } => {
                let mut s = String::from_str("Not a markdown file: ");
                s.append(path.as_str());
                s
            },
            LoadError::AbnormalDash { path } => {
                let mut s = String::from_str("Abnormal dash found in: ");
                s.append(path.as_str());
                s
            },
            LoadError::SmartQuote { path } => {
                let mut s = String::from_str("Smart quote found in: ");
                s.append(path.as_str());
                s.append(". Please replace it with a normal quote.");
                s
            },
            LoadError::MissingOpening { path } => {
                let mut s = String::from_str("File does not start with '---': ");
                s.append(path.as_str());
                s
            },
            LoadError::MissingClosing { path } => {
                let mut s = String::from_str(
                    "File does not contain the second '---', the end of the front-matter : ",
                );
                quote_into(&mut s, path.as_str());
                s
            },
            LoadError::Metadata { message, path } => {
                let mut s = String::from_str("Failed to parse front matter: ");
                s.append(message.as_str());
                s.append(" in ");
                quote_into(&mut s, path.as_str());
                s
            },
            LoadError::DuplicateMediaFile { file, first, second } => {
                let mut s = String::from_str("The same mp3 file ");
                s.append(file.as_str());
                s.append(" was used twice in ");
                s.append(first.as_str());
                s.append(" and in ");
                s.append(second.as_str());
                s
            },
        }
    }
}

} // verus!
