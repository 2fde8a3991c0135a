//! Path facts the library reads from `std::path::Path` (named results: the
//! platform's path grammar is not restated here).

use vstd::prelude::*;

verus! {

/// `Path::new(p).is_absolute()`.
pub uninterp spec fn is_absolute_path(p: Seq<char>) -> bool;

/// `Path::new(p).extension()` as text (when it is valid UTF-8).
pub uninterp spec fn extension_of(p: Seq<char>) -> Option<Seq<char>>;

/// `Path::new(p).file_name()` as text (lossy).
pub uninterp spec fn file_name_of(p: Seq<char>) -> Option<Seq<char>>;

/// `Path::new(p).file_stem()` as text (lossy).
pub uninterp spec fn file_stem_of(p: Seq<char>) -> Option<Seq<char>>;

/// `Path::is_absolute`.
#[verifier::external_body]
pub(crate) fn path_is_absolute(p: &str) -> (r: bool)
    ensures
        r == is_absolute_path(p@),
{
    std::path::Path::new(p).is_absolute()
}

/// `Path::extension`, kept when it is valid UTF-8 (`and_then(OsStr::to_str)`).
#[verifier::external_body]
pub(crate) fn path_extension(p: &str) -> (r: Option<String>)
    ensures
        match r {
            Some(e) => extension_of(p@) == Some(e@),
            None => extension_of(p@) is None,
        },
{
    std::path::Path::new(p).extension().and_then(|x| x.to_str()).map(|x| x.to_string())
}

/// `Path::file_name`, converted with `to_string_lossy`.
#[verifier::external_body]
pub(crate) fn path_file_name(p: &str) -> (r: Option<String>)
    ensures
        match r {
            Some(e) => file_name_of(p@) == Some(e@),
            None => file_name_of(p@) is None,
        },
{
    std::path::Path::new(p).file_name().map(|x| x.to_string_lossy().into_owned())
}

/// `Path::file_stem`, converted with `to_string_lossy`.
#[verifier::external_body]
pub(crate) fn path_file_stem(p: &str) -> (r: Option<String>)
    ensures
        match r {
            Some(e) => file_stem_of(p@) == Some(e@),
            None => file_stem_of(p@) is None,
        },
{
    std::path::Path::new(p).file_stem().map(|x| x.to_string_lossy().into_owned())
}

/// `Path::new(dir).join(name)` as text.
pub uninterp spec fn joined_path(dir: Seq<char>, name: Seq<char>) -> Seq<char>;

/// `Path::new(p)` with its file name replaced by `name` (`PathBuf::set_file_name`), as text.
pub uninterp spec fn with_file_name_of(p: Seq<char>, name: Seq<char>) -> Seq<char>;

/// `Path::join`.
#[verifier::external_body]
pub(crate) fn path_join(dir: &str, name: &str) -> (r: String)
    ensures
        r@ == joined_path(dir@, name@),
{
    std::path::Path::new(dir).join(name).to_string_lossy().into_owned()
}

/// `PathBuf::set_file_name`.
#[verifier::external_body]
pub(crate) fn path_with_file_name(p: &str, name: &str) -> (r: String)
    ensures
        r@ == with_file_name_of(p@, name@),
{
    let mut b = std::path::PathBuf::from(p);
    b.set_file_name(name);
    b.to_string_lossy().into_owned()
}

} // verus!
