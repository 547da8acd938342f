//! File paths, held as text and taken apart by the standard library.
//!
//! What `std::path` gives for a path is taken on trust and only named here:
//! the same path always gives the same parts, as the standard library of the
//! target reads paths. What the library does with the parts is verified.

use vstd::prelude::*;
use vstd::string::StringExecFns;
use crate::text::texts_of;

verus! {

/// The last component of the path `path`, as `std::path::Path::file_name`
/// gives it; `None` where the path has none.
pub uninterp spec fn file_name_of(path: Seq<char>) -> Option<Seq<char>>;

/// The path `path` with its last component replaced by `name`, as
/// `std::path::Path::with_file_name` gives it.
pub uninterp spec fn with_file_name_of(path: Seq<char>, name: Seq<char>) -> Seq<char>;

/// The components of the path `path`, in order, as
/// `std::path::Path::components` gives them.
pub uninterp spec fn components_of(path: Seq<char>) -> Seq<Seq<char>>;

/// The path made of the components `parts`, as collecting them into a
/// `std::path::PathBuf` gives it.
pub uninterp spec fn path_of_components(parts: Seq<Seq<char>>) -> Seq<char>;

/// The extension of the path `path`, as `std::path::Path::extension` gives
/// it; `None` where the path has none.
pub uninterp spec fn extension_of(path: Seq<char>) -> Option<Seq<char>>;

/// The path `path` with its extension replaced by `extension`, as
/// `std::path::Path::with_extension` gives it.
pub uninterp spec fn with_extension_of(path: Seq<char>, extension: Seq<char>) -> Seq<char>;

/// The path `path` under the directory `base`, as `std::path::Path::join`
/// gives it.
pub uninterp spec fn joined_path(base: Seq<char>, path: Seq<char>) -> Seq<char>;

/// Calls `std::path::Path::components` and copies each component out as
/// text.
#[verifier::external_body]
pub(crate) fn components(path: &str) -> (r: Vec<String>)
    ensures
        texts_of(r@) == components_of(path@),
{
    std::path::Path::new(path).components().map(
        |part| part.as_os_str().to_string_lossy().into_owned(),
    ).collect()
}

/// Collects components into a `std::path::PathBuf`, as `FromIterator` does
/// for it, and gives the path as text.
#[verifier::external_body]
pub(crate) fn from_components(parts: &Vec<String>) -> (r: String)
    ensures
        r@ == path_of_components(texts_of(parts@)),
{
    parts.iter().collect::<std::path::PathBuf>().to_string_lossy().into_owned()
}

/// Calls `std::path::Path::extension`.
#[verifier::external_body]
pub(crate) fn extension(path: &str) -> (r: Option<String>)
    ensures
        match r {
            Some(found) => extension_of(path@) == Some(found@),
            None => extension_of(path@) is None,
        },
{
    std::path::Path::new(path).extension().map(|found| found.to_string_lossy().into_owned())
}

/// The text holds no character that separates the components of a path on
/// any platform.
pub open spec fn holds_no_separator(text: Seq<char>) -> bool {
    forall|i: int| 0 <= i < text.len() ==> text[i] != '/' && text[i] != '\\'
}

/// Calls `std::path::Path::with_extension`, which panics where the extension
/// holds a path separator; such an extension is left out.
#[verifier::external_body]
pub(crate) fn with_extension(path: &str, extension: &str) -> (r: String)
    requires
        holds_no_separator(extension@),
    ensures
        r@ == with_extension_of(path@, extension@),
{
    std::path::Path::new(path).with_extension(extension).to_string_lossy().into_owned()
}

/// Calls `std::path::Path::join`.
#[verifier::external_body]
pub(crate) fn join(base: &str, path: &str) -> (r: String)
    ensures
        r@ == joined_path(base@, path@),
{
    std::path::Path::new(base).join(path).to_string_lossy().into_owned()
}

/// Calls `std::path::Path::file_name`. The path and the result are text, so
/// nothing is lost in turning the result into a `String`.
#[verifier::external_body]
pub(crate) fn file_name(path: &str) -> (r: Option<String>)
    ensures
        match r {
            Some(name) => file_name_of(path@) == Some(name@),
            None => file_name_of(path@) is None,
        },
{
    std::path::Path::new(path).file_name().map(|name| name.to_string_lossy().into_owned())
}

/// Calls `std::path::Path::with_file_name`. The path, the name and the
/// result are text, so nothing is lost in turning the result into a
/// `String`.
#[verifier::external_body]
pub(crate) fn with_file_name(path: &str, name: &str) -> (r: String)
    ensures
        r@ == with_file_name_of(path@, name@),
{
    std::path::Path::new(path).with_file_name(name).to_string_lossy().into_owned()
}

/// The path of the stand-in for padding that follows the section at `path`:
/// the same path with `__fill__` added to its last component.
pub open spec fn fill_path_of(path: Seq<char>) -> Seq<char> {
    let name = match file_name_of(path) {
        Some(name) => name,
        None => Seq::empty(),
    };
    with_file_name_of(path, name + "__fill__"@)
}

/// The path of the stand-in for padding that follows the section at `path`.
pub fn fill_path(path: &str) -> (r: String)
    ensures
        r@ == fill_path_of(path@),
{
    let mut name = match file_name(path) {
        Some(name) => name,
        None => String::new(),
    };
    let ghost stem = name@;
    name.append("__fill__");
    assert(Seq::<char>::empty() + "__fill__"@ =~= "__fill__"@);
    with_file_name(path, name.as_str())
}

/// The path `path` after its extension has been taken off up to `fuel`
/// times, or until it has none.
pub open spec fn without_extensions(path: Seq<char>, fuel: nat) -> Seq<char>
    decreases fuel,
{
    if fuel == 0 || extension_of(path) is None {
        path
    } else {
        without_extensions(with_extension_of(path, Seq::empty()), (fuel - 1) as nat)
    }
}

/// The path `path` without its extensions: they are taken off one by one,
/// at most as many times as the path has characters.
pub open spec fn bare_path(path: Seq<char>) -> Seq<char> {
    without_extensions(path, path.len())
}

/// The path `path` without any of its extensions.
pub fn strip_extensions(path: &str) -> (r: String)
    ensures
        r@ == bare_path(path@),
{
    let mut fuel: usize = path.unicode_len();
    let mut current = path.to_owned();
    while fuel > 0
        invariant
            without_extensions(current@, fuel as nat) == bare_path(path@),
        decreases fuel,
    {
        if extension(current.as_str()).is_none() {
            return current;
        }
        proof {
            reveal_strlit("");
            assert(""@ =~= Seq::<char>::empty());
        }
        current = with_extension(current.as_str(), "");
        fuel -= 1;
    }
    current
}

/// The components of `parts` from position `from` on.
pub fn skip_parts(parts: &Vec<String>, from: usize) -> (r: Vec<String>)
    ensures
        texts_of(r@) == if from <= parts@.len() {
            texts_of(parts@).subrange(from as int, parts@.len() as int)
        } else {
            Seq::empty()
        },
{
    let mut out: Vec<String> = Vec::new();
    if from > parts.len() {
        assert(texts_of(out@) =~= Seq::empty());
        return out;
    }
    let mut i: usize = from;
    while i < parts.len()
        invariant
            from <= i <= parts.len(),
            texts_of(out@) == texts_of(parts@).subrange(from as int, i as int),
        decreases parts.len() - i,
    {
        let ghost listed = out@;
        out.push(parts[i].clone());
        assert(texts_of(out@) =~= texts_of(listed).push(parts@[i as int]@));
        assert(texts_of(out@) =~= texts_of(parts@).subrange(from as int, i + 1));
        i += 1;
    }
    out
}

} // verus!
