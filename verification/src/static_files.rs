//! The files of the user interface, which are part of the program.

use crate::text::{chars_of, contains_text, has_text};
use crate::urls::{first_slashes_are_trimmed, nothing_before_the_first_part};
use crate::urls::{trim_first_slashes, without_first_slashes};
use vstd::prelude::*;

verus! {

/// A file to answer with.
#[derive(Debug)]
pub struct StaticFile {
    pub content_type: String,
    pub body: Vec<u8>,
}

/// What a file is.
pub struct FileModel {
    pub content_type: Seq<char>,
    pub body: Seq<u8>,
}

impl View for StaticFile {
    type V = FileModel;

    open spec fn view(&self) -> FileModel {
        FileModel { content_type: self.content_type@, body: self.body@ }
    }
}

/// A file that may be missing.
pub open spec fn optional_file(file: Option<StaticFile>) -> Option<FileModel> {
    match file {
        Some(file) => Some(file@),
        None => None,
    }
}

/// The path leads upwards somewhere.
pub open spec fn leads_upwards(path: Seq<char>) -> bool {
    contains_text(path, ".."@)
}

/// The name of the file that a path asks for: the page of the user interface where it asks for
/// none.
pub open spec fn asset_name(path: Seq<char>) -> Seq<char> {
    let relative = without_first_slashes(path);
    if relative.len() == 0 {
        "index.html"@
    } else {
        relative
    }
}

/// The last part of a path has no extension, as a route within the user interface has none: each
/// dot stands before some slash.
pub open spec fn is_page_route(path: Seq<char>) -> bool {
    forall|i: int|
        0 <= i < path.len() && path[i] == '.' ==> exists|j: int| i < j < path.len() && path[j] == '/'
}

/// The page of the user interface.
pub open spec fn page(index: Seq<u8>) -> FileModel {
    FileModel { content_type: "text/html; charset=utf-8"@, body: index }
}

/// The file that answers a path, of the asset that the path names and of the page, each where it
/// exists. A path that leads upwards is not answered. A route within the user interface is
/// answered with the page.
pub open spec fn file_for(
    path: Seq<char>,
    asset: Option<FileModel>,
    index: Option<Seq<u8>>,
) -> Option<FileModel> {
    if leads_upwards(path) {
        None
    } else if asset is Some {
        asset
    } else if is_page_route(without_first_slashes(path)) && index is Some {
        Some(page(index->0))
    } else {
        None
    }
}

/// No character of a path separates directories or names a drive on some systems only.
pub open spec fn reads_everywhere(path: Seq<char>) -> bool {
    !path.contains('\\') && !path.contains(':')
}

/// The content type that the name of a file suggests.
pub uninterp spec fn suggested_type(name: Seq<char>) -> Seq<char>;

/// Calls `mime_guess::from_path` and `mime_guess::MimeGuess::first_or_octet_stream`. Claimed:
/// the type depends on the name alone, for names that read the same on every system. A name with
/// a backslash or a colon is left out, and so is one that begins with a slash, which may name a
/// server on some systems: there the system decides what the extension is. The table of types is
/// not spelled out.
#[verifier::external_body]
fn guess_content_type(name: &str) -> (content_type: String)
    ensures
        reads_everywhere(name@) && (name@.len() > 0 ==> name@[0] != '/') ==> content_type@
            == suggested_type(name@),
{
    mime_guess::from_path(name).first_or_octet_stream().to_string()
}

/// The name of a file to look for does not begin with a slash.
proof fn asset_name_is_relative(path: Seq<char>)
    ensures
        asset_name(path).len() > 0,
        asset_name(path)[0] != '/',
{
    reveal_strlit("index.html");
    nothing_before_the_first_part(path);
}

/// The bytes of a file that may be missing.
pub open spec fn optional_bytes(bytes: Option<Vec<u8>>) -> Option<Seq<u8>> {
    match bytes {
        Some(bytes) => Some(bytes@),
        None => None,
    }
}

/// The name of the file to look for; nothing is looked for where a path leads upwards.
pub fn asset_to_find(uri_path: &str) -> (name: Option<String>)
    ensures
        match name {
            Some(name) => !leads_upwards(uri_path@) && name@ == asset_name(uri_path@),
            None => leads_upwards(uri_path@),
        },
{
    if has_text(uri_path, "..") {
        return None;
    }
    let relative = trim_first_slashes(uri_path);
    if relative.is_empty() {
        Some("index.html".to_owned())
    } else {
        Some(relative.to_owned())
    }
}

/// Whether the last part of a path has no extension.
fn has_no_extension(path: &str) -> (route: bool)
    ensures
        route == is_page_route(path@),
{
    let chars = chars_of(path);
    let mut n: usize = chars.len();
    while n > 0
        invariant
            chars@ == path@,
            n <= chars.len(),
            forall|i: int| n <= i < chars.len() ==> path@[i] != '.' && path@[i] != '/',
        decreases n,
    {
        if chars[n - 1] == '/' {
            assert(path@[n - 1] == '/');
            return true;
        }
        if chars[n - 1] == '.' {
            assert(path@[n - 1] == '.');
            return false;
        }
        n = n - 1;
    }
    true
}

/// The page of the user interface, where it exists.
pub fn spa_shell(index: Option<Vec<u8>>) -> (file: Option<StaticFile>)
    ensures
        optional_file(file) == match optional_bytes(index) {
            Some(index) => Some(page(index)),
            None => None,
        },
{
    match index {
        Some(body) => Some(
            StaticFile { content_type: "text/html; charset=utf-8".to_owned(), body },
        ),
        None => None,
    }
}

/// The file that answers a path, of an asset with its type and of the page.
pub fn choose_file(uri_path: &str, asset: Option<StaticFile>, index: Option<Vec<u8>>) -> (file:
    Option<StaticFile>)
    ensures
        optional_file(file) == file_for(
            uri_path@,
            optional_file(asset),
            optional_bytes(index),
        ),
{
    if has_text(uri_path, "..") {
        return None;
    }
    match asset {
        Some(file) => Some(file),
        None => {
            if has_no_extension(trim_first_slashes(uri_path)) {
                spa_shell(index)
            } else {
                None
            }
        },
    }
}

/// The file that answers a path, of what was found under the name to look for and of the page.
/// The type of an asset is the one that its name suggests.
pub fn try_serve_embedded(uri_path: &str, asset: Option<Vec<u8>>, index: Option<Vec<u8>>) -> (
    file: Option<StaticFile>)
    ensures
        ({
            let found = optional_bytes(asset);
            &&& found is None ==> optional_file(file) == file_for(
                uri_path@,
                None,
                optional_bytes(index),
            )
            &&& found is Some && leads_upwards(uri_path@) ==> file is None
            &&& found is Some && !leads_upwards(uri_path@) ==> {
                &&& file is Some
                &&& file->0@.body == found->0
                &&& reads_everywhere(asset_name(uri_path@)) ==> file->0@.content_type
                    == suggested_type(asset_name(uri_path@))
            }
        }),
{
    match asset_to_find(uri_path) {
        Some(name) => {
            proof {
                asset_name_is_relative(uri_path@);
            }
            let typed = match asset {
                Some(body) => Some(
                    StaticFile { content_type: guess_content_type(name.as_str()), body },
                ),
                None => None,
            };
            choose_file(uri_path, typed, index)
        },
        None => None,
    }
}

/// The answer to a request for a file: status 200 with the file, or 404 without one.
pub fn handle_request(uri_path: &str, asset: Option<Vec<u8>>, index: Option<Vec<u8>>) -> (reply: (
    u16,
    Option<StaticFile>,
))
    ensures
        ({
            let found = optional_bytes(asset);
            let (status, file) = reply;
            &&& status == if file is Some {
                200u16
            } else {
                404u16
            }
            &&& found is None ==> optional_file(file) == file_for(
                uri_path@,
                None,
                optional_bytes(index),
            )
            &&& found is Some && leads_upwards(uri_path@) ==> file is None
            &&& found is Some && !leads_upwards(uri_path@) ==> {
                &&& file is Some
                &&& file->0@.body == found->0
                &&& reads_everywhere(asset_name(uri_path@)) ==> file->0@.content_type
                    == suggested_type(asset_name(uri_path@))
            }
        }),
{
    match try_serve_embedded(uri_path, asset, index) {
        Some(file) => (200, Some(file)),
        None => (404, None),
    }
}

/// A path that leads upwards is never answered, whatever files there are.
pub proof fn nothing_above_is_served(
    path: Seq<char>,
    asset: Option<FileModel>,
    index: Option<Seq<u8>>,
)
    requires
        leads_upwards(path),
    ensures
        file_for(path, asset, index) is None,
{
}

/// A route within the user interface is answered with the page, so that it can be reloaded.
pub proof fn routes_are_answered_with_the_page(path: Seq<char>, index: Seq<u8>)
    requires
        !leads_upwards(path),
        is_page_route(without_first_slashes(path)),
    ensures
        file_for(path, None, Some(index)) == Some(page(index)),
{
}

/// A missing file with an extension is not answered with the page.
pub proof fn missing_files_stay_missing(path: Seq<char>, index: Option<Seq<u8>>)
    requires
        !is_page_route(without_first_slashes(path)),
    ensures
        file_for(path, None, index) is None,
{
}

/// A path is a route within the user interface exactly where what follows its last slash has no
/// dot.
pub proof fn route_is_a_path_without_extension(directory: Seq<char>, name: Seq<char>)
    requires
        directory.len() > 0 ==> directory.last() == '/',
        !name.contains('/'),
    ensures
        is_page_route(directory + name) <==> !name.contains('.'),
{
    let path = directory + name;
    let n = directory.len() as int;
    if name.contains('.') {
        let k = name.index_of('.');
        assert(path[n + k] == '.');
        if is_page_route(path) {
            let j = choose|j: int| n + k < j < path.len() && path[j] == '/';
            assert(name[j - n] == '/');
            assert(name.contains('/'));
        }
    } else {
        assert forall|i: int| 0 <= i < path.len() && path[i] == '.' implies exists|j: int|
            i < j < path.len() && path[j] == '/' by {
            if i >= n {
                assert(name[i - n] == '.');
                assert(name.contains('.'));
            } else {
                assert(path[n - 1] == '/');
            }
        }
    }
}

/// A path with two dots in a row is not answered. Any other is answered with the asset that it
/// names, where there is one; without one, with the page as HTML, where the last part of the path
/// has no dot and there is a page; and otherwise not at all.
pub proof fn each_path_has_its_answer(
    path: Seq<char>,
    directory: Seq<char>,
    name: Seq<char>,
    asset: Option<FileModel>,
    index: Option<Seq<u8>>,
)
    requires
        without_first_slashes(path) == directory + name,
        directory.len() > 0 ==> directory.last() == '/',
        !name.contains('/'),
    ensures
        ({
            let file = file_for(path, asset, index);
            let upwards = contains_text(path, ".."@);
            &&& upwards ==> file is None
            &&& !upwards && asset is Some ==> file == asset
            &&& !upwards && asset is None && !name.contains('.') && index is Some ==> file == Some(
                FileModel { content_type: "text/html; charset=utf-8"@, body: index->0 },
            )
            &&& !upwards && asset is None && (name.contains('.') || index is None) ==> file is None
        }),
{
    route_is_a_path_without_extension(directory, name);
}

/// The file that a path names is what follows the slashes at its beginning, and the page where
/// nothing follows them. A path leads upwards where it has two dots in a row.
pub proof fn path_names_its_asset(slashes: Seq<char>, name: Seq<char>)
    requires
        forall|i: int| 0 <= i < slashes.len() ==> (#[trigger] slashes[i]) == '/',
        name.len() > 0 ==> name[0] != '/',
    ensures
        name.len() > 0 ==> asset_name(slashes + name) == name,
        name.len() == 0 ==> asset_name(slashes + name) == "index.html"@,
        leads_upwards(name) <==> contains_text(name, ".."@),
{
    first_slashes_are_trimmed(slashes, name);
}

/// The page is HTML in UTF-8, with the bytes of the index.
pub proof fn page_is_html(index: Seq<u8>)
    ensures
        page(index).content_type == "text/html; charset=utf-8"@,
        page(index).body == index,
{
}

/// A name without backslash and colon reads the same on every system.
pub proof fn plain_names_read_everywhere(name: Seq<char>)
    requires
        forall|i: int| 0 <= i < name.len() ==> (#[trigger] name[i]) != '\\' && name[i] != ':',
    ensures
        reads_everywhere(name),
{
}

/// A file shows its type and its bytes, where there is a file.
pub proof fn file_shows_its_fields(file: StaticFile, bytes: Vec<u8>)
    ensures
        file@.content_type == file.content_type@,
        file@.body == file.body@,
        optional_file(Some(file)) == Some(file@),
        optional_file(None) is None,
        optional_bytes(Some(bytes)) == Some(bytes@),
        optional_bytes(None) is None,
{
}

} // verus!
