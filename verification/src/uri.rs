//! File URIs, absolute paths, and file paths relative to the base directory.
use crate::text;
use vstd::prelude::*;

verus! {

/// `uri` without a leading `file://`.
pub open spec fn absolute_part(uri: Seq<char>) -> Seq<char> {
    if "file://"@.is_prefix_of(uri) {
        uri.skip("file://"@.len() as int)
    } else {
        uri
    }
}

/// Whether `path` starts at the root.
pub open spec fn is_absolute(path: Seq<char>) -> bool {
    path.len() > 0 && path[0] == '/'
}

/// Whether `uri` names something in the directory `base_dir`.
pub open spec fn is_within(base_dir: Seq<char>, uri: Seq<char>) -> bool {
    is_absolute(absolute_part(uri)) && (base_dir + "/"@).is_prefix_of(absolute_part(uri))
}

/// The file path that `uri` names: what stands behind the base directory and a slash.
pub open spec fn file_path(base_dir: Seq<char>, uri: Seq<char>) -> Seq<char> {
    absolute_part(uri).skip((base_dir + "/"@).len() as int)
}

/// The absolute path of a file path.
pub open spec fn absolute_path(base_dir: Seq<char>, file_path: Seq<char>) -> Seq<char> {
    base_dir + "/"@ + file_path
}

/// The URI of a file path.
pub open spec fn file_uri(base_dir: Seq<char>, file_path: Seq<char>) -> Seq<char> {
    "file://"@ + absolute_path(base_dir, file_path)
}

/// Why a URI names no file in the base directory.
#[derive(Clone, Copy, Debug, PartialEq, Eq, Structural)]
pub enum UriProblem {
    /// The path is not absolute.
    NotAbsolute,
    /// The path does not begin with the base directory.
    OutsideBaseDir,
    /// The path begins with the base directory, but no slash follows.
    NoSlash,
}

/// The first thing that is wrong with `uri`.
pub open spec fn problem(base_dir: Seq<char>, uri: Seq<char>) -> Option<UriProblem> {
    let path = absolute_part(uri);
    if !is_absolute(path) {
        Some(UriProblem::NotAbsolute)
    } else if !base_dir.is_prefix_of(path) {
        Some(UriProblem::OutsideBaseDir)
    } else if !(base_dir + "/"@).is_prefix_of(path) {
        Some(UriProblem::NoSlash)
    } else {
        None
    }
}

/// The URI without a leading `file://`.
pub fn strip_scheme(uri: &str) -> (r: &str)
    ensures
        r@ == absolute_part(uri@),
{
    match text::strip_prefix(uri, "file://") {
        Some(path) => path,
        None => uri,
    }
}

/// The file path that `uri` names, or what is wrong with `uri`.
pub fn relative_file_path(base_dir: &str, uri: &str) -> (r: Result<String, UriProblem>)
    ensures
        match r {
            Ok(path) => is_within(base_dir@, uri@) && path@ == file_path(base_dir@, uri@),
            Err(wrong) => !is_within(base_dir@, uri@) && problem(base_dir@, uri@) == Some(wrong),
        },
{
    let path = strip_scheme(uri);
    if !text::starts_with(path, '/') {
        return Err(UriProblem::NotAbsolute);
    }
    let base_dir_slash = text::concat(base_dir, "/");
    match text::strip_prefix(path, base_dir_slash.as_str()) {
        Some(rest) => Ok(rest.to_owned()),
        None => if text::strip_prefix(path, base_dir).is_some() {
            Err(UriProblem::NoSlash)
        } else {
            Err(UriProblem::OutsideBaseDir)
        },
    }
}

/// The absolute path of a file path.
pub fn absolute_path_for_file_path(base_dir: &str, file_path: &str) -> (r: String)
    ensures
        r@ == absolute_path(base_dir@, file_path@),
{
    let mut path = text::concat(base_dir, "/");
    path.append(file_path);
    path
}

/// The URI of a file path.
pub fn uri_for_file_path(base_dir: &str, file_path: &str) -> (r: String)
    ensures
        r@ == file_uri(base_dir@, file_path@),
{
    text::concat("file://", absolute_path_for_file_path(base_dir, file_path).as_str())
}

/// A path that starts at the root is its own absolute part.
pub proof fn law_bare_path(path: Seq<char>)
    requires
        is_absolute(path),
    ensures
        absolute_part(path) == path,
{
    reveal_strlit("file://");
    if "file://"@.is_prefix_of(path) {
        assert("file://"@[0] == path[0]);
    }
}

/// A URI has a problem exactly if it is not within the base directory.
pub proof fn law_problem(base_dir: Seq<char>, uri: Seq<char>)
    ensures
        problem(base_dir, uri) is None <==> is_within(base_dir, uri),
{
    if is_within(base_dir, uri) {
        let path = absolute_part(uri);
        let slashed = base_dir + "/"@;
        assert(slashed.take(base_dir.len() as int) =~= base_dir);
        assert(path.take(base_dir.len() as int) =~= slashed.take(base_dir.len() as int));
        assert(base_dir.is_prefix_of(path));
    }
}

/// The URI of a file path, and its bare absolute path, lead back to the file path.
pub proof fn law_uri_round_trip(base_dir: Seq<char>, path: Seq<char>)
    requires
        base_dir.len() == 0 || is_absolute(base_dir),
    ensures
        is_within(base_dir, file_uri(base_dir, path)),
        file_path(base_dir, file_uri(base_dir, path)) == path,
        is_within(base_dir, absolute_path(base_dir, path)),
        file_path(base_dir, absolute_path(base_dir, path)) == path,
{
    reveal_strlit("file://");
    reveal_strlit("/");
    let absolute = absolute_path(base_dir, path);
    let uri = file_uri(base_dir, path);
    assert("file://"@.is_prefix_of(uri));
    assert(uri.skip("file://"@.len() as int) =~= absolute);
    assert(absolute[0] == '/');
    assert(!"file://"@.is_prefix_of(absolute)) by {
        if "file://"@.is_prefix_of(absolute) {
            assert("file://"@[0] == absolute[0]);
        }
    }
    assert((base_dir + "/"@).is_prefix_of(absolute));
    assert(absolute.skip((base_dir + "/"@).len() as int) =~= path);
}

/// The file path of a URI, made absolute again, is the path that the URI holds. So two URIs
/// name the same file path only if they hold the same path.
pub proof fn law_absolute_path_of_uri(base_dir: Seq<char>, uri: Seq<char>)
    requires
        is_within(base_dir, uri),
    ensures
        absolute_path(base_dir, file_path(base_dir, uri)) == absolute_part(uri),
{
    let path = absolute_part(uri);
    assert(absolute_path(base_dir, file_path(base_dir, uri)) =~= path);
}

/// An editor that names a file by a `file://` URI is told of the file by the same URI.
pub proof fn law_editor_hears_its_own_uri(base_dir: Seq<char>, uri: Seq<char>)
    requires
        is_within(base_dir, uri),
        "file://"@.is_prefix_of(uri),
    ensures
        file_uri(base_dir, file_path(base_dir, uri)) == uri,
{
    law_absolute_path_of_uri(base_dir, uri);
    assert("file://"@ + uri.skip("file://"@.len() as int) =~= uri);
}

/// The absolute part of a URI with the scheme is what follows the scheme; another URI is its own
/// absolute part.
pub proof fn law_absolute_part(rest: Seq<char>, other: Seq<char>)
    requires
        !"file://"@.is_prefix_of(other),
    ensures
        absolute_part("file://"@ + rest) == rest,
        absolute_part(other) == other,
{
    let uri = "file://"@ + rest;
    assert("file://"@.is_prefix_of(uri));
    assert(uri.skip("file://"@.len() as int) =~= rest);
}

/// A URI names a file path exactly if it is the base directory, a slash and the file path, with
/// or without the scheme before them.
pub proof fn law_named_file(base_dir: Seq<char>, uri: Seq<char>, path: Seq<char>)
    requires
        base_dir.len() == 0 || base_dir[0] == '/',
    ensures
        is_within(base_dir, uri) && file_path(base_dir, uri) == path <==> uri == "file://"@
            + base_dir + "/"@ + path || uri == base_dir + "/"@ + path,
{
    law_uri_round_trip(base_dir, path);
    assert("file://"@ + base_dir + "/"@ + path =~= file_uri(base_dir, path));
    assert(base_dir + "/"@ + path =~= absolute_path(base_dir, path));
    if is_within(base_dir, uri) && file_path(base_dir, uri) == path {
        law_absolute_path_of_uri(base_dir, uri);
        if "file://"@.is_prefix_of(uri) {
            assert("file://"@ + uri.skip("file://"@.len() as int) =~= uri);
        }
    }
}

/// What is wrong with a URI: its path is not absolute; or it is, but does not begin with the base
/// directory; or it does, but no slash follows.
pub proof fn law_problems(base_dir: Seq<char>, uri: Seq<char>)
    ensures
        ({
            let path = absolute_part(uri);
            let absolute = path.len() > 0 && path[0] == '/';
            let inside = base_dir.is_prefix_of(path);
            let slash = path.len() > base_dir.len() && path[base_dir.len() as int] == '/';
            &&& problem(base_dir, uri) == Some(UriProblem::NotAbsolute) <==> !absolute
            &&& problem(base_dir, uri) == Some(UriProblem::OutsideBaseDir) <==> absolute && !inside
            &&& problem(base_dir, uri) == Some(UriProblem::NoSlash) <==> absolute && inside
                && !slash
            &&& problem(base_dir, uri) is None <==> absolute && inside && slash
        }),
{
    reveal_strlit("/");
    let path = absolute_part(uri);
    let slashed = base_dir + "/"@;
    let n = base_dir.len() as int;
    if slashed.is_prefix_of(path) {
        assert(path.subrange(0, n + 1) == slashed);
        assert(path[n] == slashed[n]);
    }
    if base_dir.is_prefix_of(path) && path.len() > n && path[n] == '/' {
        assert(path.subrange(0, n + 1) =~= slashed) by {
            assert(path.subrange(0, n) == base_dir);
            assert forall|i: int| 0 <= i < n implies path[i] == base_dir[i] by {
                assert(path.subrange(0, n)[i] == base_dir[i]);
            }
        }
    }
}

/// The URI and the absolute path of a file path: the base directory, a slash and the file path,
/// for the URI behind the scheme.
pub proof fn law_paths_of_a_file(base_dir: Seq<char>, path: Seq<char>)
    ensures
        absolute_path(base_dir, path) == base_dir + "/"@ + path,
        file_uri(base_dir, path) == "file://"@ + base_dir + "/"@ + path,
{
    assert(file_uri(base_dir, path) =~= "file://"@ + base_dir + "/"@ + path);
}

/// Nothing is within a base directory that is not absolute.
pub proof fn law_relative_base_dir(base_dir: Seq<char>, uri: Seq<char>)
    requires
        base_dir.len() > 0,
        base_dir[0] != '/',
    ensures
        !is_within(base_dir, uri),
{
    let path = absolute_part(uri);
    let slashed = base_dir + "/"@;
    if slashed.is_prefix_of(path) {
        assert(path.subrange(0, slashed.len() as int)[0] == slashed[0]);
    }
}

} // verus!
