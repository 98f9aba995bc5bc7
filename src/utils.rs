//! Paths: which files count as images, and the names shown for them.
use vstd::prelude::*;

verus! {

/// Whether `a` and `b` hold the same characters.
pub fn same_text(a: &str, b: &str) -> (r: bool)
    ensures
        r == (a@ == b@),
{
    let n = a.unicode_len();
    if n != b.unicode_len() {
        return false;
    }
    let mut i: usize = 0;
    while i < n
        invariant
            n == a@.len(),
            n == b@.len(),
            i <= n,
            a@.subrange(0, i as int) == b@.subrange(0, i as int),
        decreases n - i,
    {
        if a.get_char(i) != b.get_char(i) {
            assert(a@[i as int] != b@[i as int]);
            return false;
        }
        assert(a@.subrange(0, i + 1) =~= a@.subrange(0, i as int).push(a@[i as int]));
        assert(b@.subrange(0, i + 1) =~= b@.subrange(0, i as int).push(b@[i as int]));
        i = i + 1;
    }
    assert(a@ =~= a@.subrange(0, n as int));
    assert(b@ =~= b@.subrange(0, n as int));
    true
}


/// The final component of path `p`, where it has one that is valid UTF-8.
pub uninterp spec fn path_file_name(p: Seq<char>) -> Option<Seq<char>>;

/// Relies on std::path::Path::file_name: the final component of a path.
#[verifier::external_body]
fn file_name_of(p: &str) -> (r: Option<String>)
    ensures
        r matches Some(s) ==> path_file_name(p@) == Some(s@),
        r is None ==> path_file_name(p@) is None,
{
    match std::path::Path::new(p).file_name() {
        Some(s) => s.to_str().map(|t| t.to_string()),
        None => None,
    }
}

/// The name an image is shown under: the final component of its path, or
/// the whole path where it has none.
pub open spec fn shown_name(path: Seq<char>) -> Seq<char> {
    match path_file_name(path) {
        Some(n) => n,
        None => path,
    }
}

/// Computes `shown_name(path@)`.
pub fn display_name(path: &str) -> (r: String)
    ensures
        r@ == shown_name(path@),
{
    match file_name_of(path) {
        Some(n) => n,
        None => path.to_string(),
    }
}

/// The final extension of path `p`, where it has one that is valid UTF-8.
pub uninterp spec fn path_extension(p: Seq<char>) -> Option<Seq<char>>;

/// The lower-case form of `s`.
pub uninterp spec fn lowercase(s: Seq<char>) -> Seq<char>;

/// Relies on std::path::Path::extension: the text after the last dot of the
/// final component.
#[verifier::external_body]
fn extension_of(p: &str) -> (r: Option<String>)
    ensures
        r matches Some(s) ==> path_extension(p@) == Some(s@),
        r is None ==> path_extension(p@) is None,
{
    match std::path::Path::new(p).extension() {
        Some(s) => s.to_str().map(|t| t.to_string()),
        None => None,
    }
}

/// Relies on str::to_lowercase: the lower-case form of a string.
#[verifier::external_body]
fn to_lower(s: &str) -> (r: String)
    ensures
        r@ == lowercase(s@),
{
    s.to_lowercase()
}

/// The extensions, in lower case, of the image formats taken as input.
pub open spec fn is_image_extension(e: Seq<char>) -> bool {
    e == "png"@ || e == "jpg"@ || e == "jpeg"@ || e == "tiff"@ || e == "tif"@
        || e == "webp"@ || e == "heif"@ || e == "heic"@ || e == "avif"@
}

/// Whether `ext` is the lower-case extension of an image format taken as input.
pub fn check_image_extension(ext: &str) -> (r: bool)
    ensures
        r == is_image_extension(ext@),
{
    same_text(ext, "png") || same_text(ext, "jpg") || same_text(ext, "jpeg")
        || same_text(ext, "tiff") || same_text(ext, "tif") || same_text(ext, "webp")
        || same_text(ext, "heif") || same_text(ext, "heic") || same_text(ext, "avif")
}

/// Whether the file at `path` is an image by its extension, in any case.
pub fn check_if_path_is_image(path: &str) -> (r: bool)
    ensures
        r == (path_extension(path@) matches Some(e) && is_image_extension(lowercase(e))),
{
    match extension_of(path) {
        None => false,
        Some(e) => {
            let lower = to_lower(e.as_str());
            check_image_extension(lower.as_str())
        },
    }
}

/// The final component of path `p` without its extension, where it has one
/// that is valid UTF-8.
pub uninterp spec fn path_file_stem(p: Seq<char>) -> Option<Seq<char>>;

/// Relies on std::path::Path::file_stem: the final component without the
/// text from its last dot on.
#[verifier::external_body]
fn file_stem_of(p: &str) -> (r: Option<String>)
    ensures
        r matches Some(s) ==> path_file_stem(p@) == Some(s@),
        r is None ==> path_file_stem(p@) is None,
{
    match std::path::Path::new(p).file_stem() {
        Some(s) => s.to_str().map(|t| t.to_string()),
        None => None,
    }
}

/// The name of the document written to `filename`: its final component
/// without the extension.
pub fn document_name(filename: &str) -> (r: Option<String>)
    ensures
        r matches Some(s) ==> path_file_stem(filename@) == Some(s@),
        r is None ==> path_file_stem(filename@) is None,
{
    file_stem_of(filename)
}

} // verus!
