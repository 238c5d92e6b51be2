//! The decisions of the handler that persists sessions in files: one file
//! for each session, named by its identifier, whose time of last
//! modification tells its age.

use crate::attributes::Attributes;
use crate::config::Span;
use crate::session::AttributeMap;
use crate::string_map::empty_map;
use crate::text::strings;
use crate::value::Value;
use vstd::prelude::*;

verus! {

/// What can go wrong when sessions are persisted. Each kind carries the
/// message of the failure beneath it.
#[derive(Debug)]
pub enum Error {
    /// The storage could not be set up.
    Config(String),
    /// It could not be told whether the session file exists.
    FileExists(String),
    /// The time of the last modification could not be read.
    LastModified(String),
    /// The system time went backward while the age was computed.
    SystemTime(String),
    /// The session file could not be read.
    Read(String),
    /// The session file could not be written.
    Write(String),
    /// The session file could not be deleted.
    Delete(String),
    /// The session files could not be listed.
    List(String),
}

impl Error {
    /// What the error says of itself.
    pub open spec fn text(self) -> Seq<char> {
        match self {
            Error::Config(_) => "failed to initialize Flysystem adapter"@,
            Error::FileExists(_) => "failed to check if session file exists"@,
            Error::LastModified(_) => "failed to get last modified time of session file"@,
            Error::SystemTime(_) => "failed to get elapsed time since last modified"@,
            Error::Read(_) => "failed to read session file"@,
            Error::Write(_) => "failed to write to session file"@,
            Error::Delete(_) => "failed to delete session file"@,
            Error::List(_) => "failed to list session files"@,
        }
    }

    /// What the error says of itself.
    pub fn message(&self) -> (r: &'static str)
        ensures
            r@ == self.text(),
    {
        match self {
            Error::Config(_) => "failed to initialize Flysystem adapter",
            Error::FileExists(_) => "failed to check if session file exists",
            Error::LastModified(_) => "failed to get last modified time of session file",
            Error::SystemTime(_) => "failed to get elapsed time since last modified",
            Error::Read(_) => "failed to read session file",
            Error::Write(_) => "failed to write to session file",
            Error::Delete(_) => "failed to delete session file",
            Error::List(_) => "failed to list session files",
        }
    }
}

/// What was found of a session file.
#[derive(Debug)]
pub enum Probe {
    /// There is no file.
    Missing,
    /// There is a file of the given age; `contents` holds the attributes
    /// that it was parsed into, and nothing where it could not be parsed.
    Found { age: Span, contents: Option<Attributes> },
    /// The file was not read, or its age was not found out: the error tells
    /// which of the two, and why.
    Failed(Error),
}

/// What a read of a session comes to.
#[derive(Debug)]
pub struct Loaded {
    /// The attributes of the session.
    pub attributes: Attributes,
    /// Whether the file has expired and is to be deleted.
    pub expired: bool,
}

/// What became of a session file that was to be deleted.
#[derive(Debug)]
pub enum Removal {
    Removed,
    Missing,
    Failed(String),
}

/// The handler that persists sessions in the files of one directory.
#[derive(Debug)]
pub struct FileHandler {
    path: String,
    valid_for: Span,
}

/// The attributes that a read gives for a file of age `age` with the given
/// contents, when sessions are valid for `valid_for`.
pub open spec fn read_attributes(
    valid_for: Span,
    age: Span,
    contents: Option<Attributes>,
) -> AttributeMap {
    if age.total() > valid_for.total() {
        empty_map::<Value>()
    } else {
        match contents {
            Some(attributes) => attributes@,
            None => empty_map::<Value>(),
        }
    }
}

/// The names of the first `n` of `files` whose age is above `max_lifetime`,
/// in their order.
pub open spec fn expired_names(files: Seq<(String, Span)>, max_lifetime: Span, n: int) -> Seq<
    Seq<char>,
>
    decreases n,
{
    if n <= 0 {
        Seq::empty()
    } else if files[n - 1].1.total() > max_lifetime.total() {
        expired_names(files, max_lifetime, n - 1).push(files[n - 1].0@)
    } else {
        expired_names(files, max_lifetime, n - 1)
    }
}

impl FileHandler {
    /// A handler for the files under `path`, in which a session stays valid
    /// for `valid_for` after it was last written.
    pub fn new(path: String, valid_for: Span) -> (r: FileHandler)
        requires
            valid_for.normal(),
        ensures
            r.root() == path@,
            r.lifetime() == valid_for,
    {
        FileHandler { path, valid_for }
    }

    /// The directory of the session files.
    pub closed spec fn root(&self) -> Seq<char> {
        self.path@
    }

    /// How long a session stays valid.
    pub closed spec fn lifetime(&self) -> Span {
        self.valid_for
    }

    #[verifier::type_invariant]
    spec fn well_formed(self) -> bool {
        self.valid_for.normal()
    }

    /// The directory of the session files.
    pub fn path(&self) -> (r: &String)
        ensures
            r@ == self.root(),
    {
        &self.path
    }

    /// How long a session stays valid.
    pub fn valid_for(&self) -> (r: Span)
        ensures
            r == self.lifetime(),
            r.normal(),
    {
        proof {
            use_type_invariant(self);
        }
        self.valid_for
    }

    /// What a read comes to, from what was found of the session file. A
    /// missing file gives no attributes and no error. A file that is older
    /// than sessions stay valid gives no attributes either, and is to be
    /// deleted. A file that cannot be parsed gives no attributes. A failure
    /// gives its error.
    pub fn read(&self, probe: Probe) -> (r: Result<Loaded, Error>)
        requires
            probe matches Probe::Found { age, .. } ==> age.normal(),
        ensures
            match probe {
                Probe::Missing => r is Ok && r->Ok_0.attributes@ == empty_map::<Value>()
                    && !r->Ok_0.expired,
                Probe::Found { age, contents } => r is Ok && r->Ok_0.attributes@
                    == read_attributes(self.lifetime(), age, contents) && r->Ok_0.expired == (
                age.total() > self.lifetime().total()),
                Probe::Failed(error) => r == Err::<Loaded, Error>(error),
            },
    {
        proof {
            use_type_invariant(self);
        }
        match probe {
            Probe::Missing => Ok(Loaded { attributes: Attributes::new(), expired: false }),
            Probe::Found { age, contents } => {
                if age.exceeds(&self.valid_for) {
                    Ok(Loaded { attributes: Attributes::new(), expired: true })
                } else {
                    match contents {
                        Some(attributes) => Ok(Loaded { attributes, expired: false }),
                        None => Ok(Loaded { attributes: Attributes::new(), expired: false }),
                    }
                }
            },
            Probe::Failed(error) => Err(error),
        }
    }

    /// What the deletion of a session comes to. That there was no file is no
    /// error.
    pub fn destroy(&self, removal: Removal) -> (r: Result<(), Error>)
        ensures
            match removal {
                Removal::Removed => r is Ok,
                Removal::Missing => r is Ok,
                Removal::Failed(message) => r matches Err(Error::Delete(m)) && m@ == message@,
            },
    {
        match removal {
            Removal::Removed => Ok(()),
            Removal::Missing => Ok(()),
            Removal::Failed(message) => Err(Error::Delete(message)),
        }
    }

    /// The session files that garbage collection is to delete: those whose
    /// age is above `max_lifetime`, by their names and in the order of
    /// `files`. Their number is the number of sessions collected.
    pub fn collect_garbage(&self, files: &Vec<(String, Span)>, max_lifetime: &Span) -> (r: Vec<
        String,
    >)
        requires
            max_lifetime.normal(),
            forall|i: int| 0 <= i < files@.len() ==> (#[trigger] files@[i]).1.normal(),
        ensures
            strings(r@) == expired_names(files@, *max_lifetime, files@.len() as int),
    {
        let mut out: Vec<String> = Vec::new();
        let mut i: usize = 0;
        assert(strings(out@) =~= Seq::<Seq<char>>::empty());
        while i < files.len()
            invariant
                i <= files@.len(),
                max_lifetime.normal(),
                forall|j: int| 0 <= j < files@.len() ==> (#[trigger] files@[j]).1.normal(),
                strings(out@) == expired_names(files@, *max_lifetime, i as int),
            decreases files@.len() - i,
        {
            let ghost before = strings(out@);
            if files[i].1.exceeds(max_lifetime) {
                out.push(files[i].0.clone());
                assert(strings(out@) =~= before.push(files@[i as int].0@));
            }
            i += 1;
        }
        out
    }
}

} // verus!
