//! Secrets held in files, named by path.

use vstd::prelude::*;

use crate::error::{SourceError, SourceErrorView};

verus! {

/// A POSIX path is absolute when it starts with `/`.
pub open spec fn is_absolute_path(p: Seq<char>) -> bool {
    p.len() > 0 && p[0] == '/'
}

/// `base` joined with `p` as `PathBuf::join` does it on POSIX systems: an
/// absolute `p` replaces `base`; otherwise a `/` goes between the two unless
/// `base` is empty or already ends with one.
pub open spec fn join_path(base: Seq<char>, p: Seq<char>) -> Seq<char> {
    if is_absolute_path(p) {
        p
    } else if base.len() == 0 || base.last() == '/' {
        base + p
    } else {
        base + seq!['/'] + p
    }
}

/// The path that a file source with base directory `base` reads for `name`:
/// an absolute name as it is, a relative one against `base` when there is
/// one, else as it is (against the working directory at read time).
pub open spec fn resolve_path(base: Option<Seq<char>>, name: Seq<char>) -> Seq<char> {
    if is_absolute_path(name) {
        name
    } else {
        match base {
            Some(b) => join_path(b, name),
            None => name,
        }
    }
}

/// The message of a read failure other than a missing file; it names the
/// secret as written in the URN, never the resolved path.
pub open spec fn read_failure_text(name: Seq<char>, detail: Seq<char>) -> Seq<char> {
    "failed to read file `"@ + name + "`: "@ + detail
}

/// Why reading a file failed, as the caller that read it reports it.
pub enum ReadError {
    /// There is no file at the path.
    NotFound,
    /// Any other failure, with its description.
    Other(String),
}

/// A source that retrieves secrets from the local filesystem, using the
/// secret `name` as a path.
///
/// [`FileSource::new`] resolves relative names against the working directory
/// at read time; [`FileSource::with_base`] resolves them against a base
/// directory fixed at construction. Absolute names are used as they are.
/// Paths follow POSIX rules: a name is absolute when it starts with `/`, and
/// `/` joins the base and the name; Windows path prefixes are not supported.
/// Reading the file is the caller's part: [`FileSource::resolve`] gives the
/// path and [`FileSource::read_result`] turns the outcome into the source's
/// answer.
///
/// Because the name is used as a path without further validation, only bind
/// file URNs that come from trusted configuration; a base directory does not
/// stop `../` from leaving it.
pub struct FileSource {
    base: Option<String>,
}

impl FileSource {
    /// The base directory, if one was given.
    pub closed spec fn base_dir(&self) -> Option<Seq<char>> {
        match &self.base {
            Some(b) => Some(b@),
            None => None,
        }
    }

    /// A file source that resolves relative names against the working
    /// directory at read time.
    pub fn new() -> (res: Self)
        ensures
            res.base_dir() == None::<Seq<char>>,
    {
        FileSource { base: None }
    }

    /// A file source that resolves relative names against `base`.
    pub fn with_base(base: &str) -> (res: Self)
        ensures
            res.base_dir() == Some(base@),
    {
        FileSource { base: Some(base.to_owned()) }
    }

    /// The path to read for the secret `name`.
    pub fn resolve(&self, name: &str) -> (res: String)
        ensures
            res@ == resolve_path(self.base_dir(), name@),
    {
        if starts_with_slash(name) {
            return name.to_owned();
        }
        match &self.base {
            None => name.to_owned(),
            Some(b) => {
                let n = b.as_str().unicode_len();
                let mut out = b.clone();
                if n != 0 && b.as_str().get_char(n - 1) != '/' {
                    let slash = "/";
                    proof {
                        reveal_strlit("/");
                    }
                    out.append(slash);
                }
                out.append(name);
                assert(out@ =~= join_path(b@, name@));
                out
            },
        }
    }

    /// The answer for the secret `name` given the outcome of reading its
    /// file: the bytes read, `NotFound` naming `name` for a missing file, or
    /// `Other` with a message that names `name` and the failure.
    pub fn read_result(name: &str, read: Result<Vec<u8>, ReadError>) -> (res: Result<Vec<u8>, SourceError>)
        ensures
            match read {
                Ok(bytes) => res == Ok::<Vec<u8>, SourceError>(bytes),
                Err(ReadError::NotFound) => res matches Err(e) && e@ == (SourceErrorView::NotFound { name: name@ }),
                Err(ReadError::Other(detail)) => res matches Err(e) && e@ == SourceErrorView::Other(
                    read_failure_text(name@, detail@),
                ),
            },
    {
        match read {
            Ok(bytes) => Ok(bytes),
            Err(ReadError::NotFound) => Err(SourceError::NotFound { name: name.to_owned() }),
            Err(ReadError::Other(detail)) => {
                let mut msg = String::from_str("failed to read file `");
                msg.append(name);
                msg.append("`: ");
                msg.append(detail.as_str());
                Err(SourceError::Other(msg))
            },
        }
    }
}

/// Whether `p` starts with `/`.
fn starts_with_slash(p: &str) -> (res: bool)
    ensures
        res == is_absolute_path(p@),
{
    p.unicode_len() > 0 && p.get_char(0) == '/'
}

impl Default for FileSource {
    fn default() -> (res: Self)
        ensures
            res.base_dir() == None::<Seq<char>>,
    {
        FileSource::new()
    }
}

/// A file source resolves an absolute name to itself, whatever its base
/// directory; only relative names depend on the base.
pub proof fn law_absolute_name_ignores_base(base: Option<Seq<char>>, name: Seq<char>)
    requires
        is_absolute_path(name),
    ensures
        resolve_path(base, name) == name,
{
}

/// A relative name is read inside the base directory when there is one: the
/// path is the base, then a `/` unless the base is empty or already ends
/// with one, then the whole name. So the path starts with the base and ends
/// with the name, whatever the name holds. Without a base directory the name
/// is the path, read against the working directory.
pub proof fn law_relative_name_under_base(base: Seq<char>, name: Seq<char>)
    requires
        !is_absolute_path(name),
    ensures
        resolve_path(Some(base), name) == (if base.len() == 0 || base.last() == '/' {
            base + name
        } else {
            base + seq!['/'] + name
        }),
        resolve_path(Some(base), name).len() >= base.len() + name.len(),
        resolve_path(Some(base), name).take(base.len() as int) == base,
        resolve_path(Some(base), name).skip(resolve_path(Some(base), name).len() - name.len()) == name,
        resolve_path(None, name) == name,
{
    let path = resolve_path(Some(base), name);
    if base.len() == 0 || base.last() == '/' {
        assert(path.take(base.len() as int) =~= base);
        assert(path.skip(path.len() - name.len()) =~= name);
    } else {
        assert(path.take(base.len() as int) =~= base);
        assert(path.skip(path.len() - name.len()) =~= name);
    }
}

} // verus!
