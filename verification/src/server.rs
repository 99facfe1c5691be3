//! The remote-control web server: which request is which, and what the
//! request texts mean.

use vstd::prelude::*;
use crate::models::RemotePayload;
use crate::paths::{is_portable_name, lemma_portable_name_is_path, path_parent};
use crate::text::{
    ends_with, ends_with_exec, replace_all, replace_exec, starts_with, starts_with_exec, to_chars,
    trim, trim_str, from_chars,
};

verus! {

broadcast use vstd::string::group_string_axioms;

/// What `urlencoding::decode` gives for `s`: the percent-decoded text, or
/// `None` when the decoded bytes are not UTF-8.
pub uninterp spec fn spec_url_decode(s: Seq<char>) -> Option<Seq<char>>;

/// Percent-decodes `s` with `urlencoding::decode`.  Claimed: the result
/// depends on `s` alone, and a text without `'%'` comes back unchanged (the
/// crate returns its input when no `'%'` occurs).
#[verifier::external_body]
fn url_decode(s: &str) -> (r: Option<String>)
    ensures
        crate::models::opt_text(r) == spec_url_decode(s@),
        !s@.contains('%') ==> crate::models::opt_text(r) == Some(s@),
{
    urlencoding::decode(s).ok().map(|d| d.into_owned())
}

/// The hexadecimal digit for `d` (from 0 to 15), in lower case.
pub open spec fn hex_digit(d: int) -> char {
    if d < 10 {
        ('0' as int + d) as char
    } else {
        ('a' as int + d - 10) as char
    }
}

/// How `c` is written inside a JSON string literal: the quote, the backslash
/// and the control characters escaped (short forms for backspace, tab, line
/// feed, form feed and carriage return, `\u00xx` for the others), any other
/// character as it is.
pub open spec fn json_char_text(c: char) -> Seq<char> {
    if c == '"' {
        seq!['\\', '"']
    } else if c == '\\' {
        seq!['\\', '\\']
    } else if c == '\u{8}' {
        seq!['\\', 'b']
    } else if c == '\t' {
        seq!['\\', 't']
    } else if c == '\n' {
        seq!['\\', 'n']
    } else if c == '\u{c}' {
        seq!['\\', 'f']
    } else if c == '\r' {
        seq!['\\', 'r']
    } else if (c as int) < 0x20 {
        seq!['\\', 'u', '0', '0', hex_digit(c as int / 16), hex_digit(c as int % 16)]
    } else {
        seq![c]
    }
}

/// The characters of `s`, each as it is written inside a JSON string literal.
pub open spec fn json_escaped(s: Seq<char>) -> Seq<char>
    decreases s.len(),
{
    if s.len() == 0 {
        Seq::empty()
    } else {
        json_escaped(s.drop_last()) + json_char_text(s.last())
    }
}

/// Writes `s` as a JSON string literal with `serde_json::to_string`: a quote,
/// each character as `json_char_text` says (serde_json's escape table and
/// `CompactFormatter::write_char_escape`), and a quote.  Serialising a `str`
/// into a `Vec` cannot fail, so the error arm is never taken.
#[verifier::external_body]
fn json_string_literal(s: &str) -> (r: String)
    ensures
        r@ == seq!['"'] + json_escaped(s@) + seq!['"'],
{
    serde_json::to_string(s).unwrap_or_default()
}

/// The body of the answer to a settings request: a JSON object whose one
/// member, `language`, is the app's active language.
pub open spec fn remote_config_body_spec(language: Seq<char>) -> Seq<char> {
    "{\"language\":"@ + seq!['"'] + json_escaped(language) + seq!['"'] + "}"@
}

/// The body of the answer to a settings request, for the active `language`.
pub fn remote_config_body(language: &str) -> (r: String)
    ensures
        r@ == remote_config_body_spec(language@),
{
    let lit = json_string_literal(language);
    let mut body = String::from_str("{\"language\":");
    body.append(lit.as_str());
    body.append("}");
    body
}

/// The request methods that the server tells apart.
#[derive(Debug, Clone, Copy, PartialEq, Eq, Structural)]
pub enum RequestMethod {
    Get,
    Post,
    Options,
    Delete,
    Other,
}

/// What a request to the remote-control server asks for.
#[derive(Debug, Clone, PartialEq, Eq)]
pub enum RemoteRoute {
    /// The control page.
    Page,
    /// The current download progress.
    Status,
    /// A URL to download, in the request body.
    Send,
    /// A cross-origin preflight.
    Preflight,
    /// The list of downloaded files.
    Files,
    /// The app settings that the control page follows (its language).
    RemoteConfig,
    /// One downloaded file, by its decoded name.
    Download(String),
    /// Deleting one downloaded file, by its decoded name.
    Delete(String),
    /// Anything else.
    NotFound,
}

/// The abstract value of a `RemoteRoute`.
pub enum RouteView {
    Page,
    Status,
    Send,
    Preflight,
    Files,
    RemoteConfig,
    Download(Seq<char>),
    Delete(Seq<char>),
    NotFound,
}

impl View for RemoteRoute {
    type V = RouteView;

    open spec fn view(&self) -> RouteView {
        match self {
            RemoteRoute::Page => RouteView::Page,
            RemoteRoute::Status => RouteView::Status,
            RemoteRoute::Send => RouteView::Send,
            RemoteRoute::Preflight => RouteView::Preflight,
            RemoteRoute::Files => RouteView::Files,
            RemoteRoute::RemoteConfig => RouteView::RemoteConfig,
            RemoteRoute::Download(f) => RouteView::Download(f@),
            RemoteRoute::Delete(f) => RouteView::Delete(f@),
            RemoteRoute::NotFound => RouteView::NotFound,
        }
    }
}

/// The file name that a download or delete request names: the URL with every
/// occurrence of its prefix removed, percent-decoded when that succeeds.
pub open spec fn file_name_in(url: Seq<char>, prefix: Seq<char>) -> Seq<char> {
    let raw = replace_all(url, prefix, Seq::empty());
    match spec_url_decode(raw) {
        Some(d) => d,
        None => raw,
    }
}

/// Whether `name` can name an entry of the download folder on every
/// platform: not empty, no `/`, and neither `.` nor `..`.  Whether it is one
/// entry on the platform at hand (where `\\` or a drive prefix may split it)
/// is that platform's verdict, which the routing takes beside it.
pub open spec fn could_be_file_name(name: Seq<char>) -> bool {
    &&& name.len() > 0
    &&& !name.contains('/')
    &&& name != "."@
    &&& name != ".."@
}

/// The file that a download or delete request names, decoded.
pub open spec fn requested_name(method: RequestMethod, url: Seq<char>) -> Option<Seq<char>> {
    if method == RequestMethod::Get && starts_with(url, "/download/"@) {
        Some(file_name_in(url, "/download/"@))
    } else if method == RequestMethod::Delete && starts_with(url, "/delete/"@) {
        Some(file_name_in(url, "/delete/"@))
    } else {
        None
    }
}

/// What the request `method url` asks for, where `single_entry` is the
/// platform's verdict on whether the file it names is one path component.
/// A file is served or deleted only under a name that is one entry of the
/// download folder, so no request reaches outside it.
pub open spec fn route_spec(method: RequestMethod, url: Seq<char>, single_entry: bool) -> RouteView {
    if method == RequestMethod::Get && url == "/"@ {
        RouteView::Page
    } else if method == RequestMethod::Get && url == "/status"@ {
        RouteView::Status
    } else if method == RequestMethod::Post && url == "/send"@ {
        RouteView::Send
    } else if method == RequestMethod::Options {
        RouteView::Preflight
    } else if method == RequestMethod::Get && url == "/files"@ {
        RouteView::Files
    } else if method == RequestMethod::Get && url == "/remote-config"@ {
        RouteView::RemoteConfig
    } else if method == RequestMethod::Get && starts_with(url, "/download/"@)
        && could_be_file_name(file_name_in(url, "/download/"@)) && single_entry {
        RouteView::Download(file_name_in(url, "/download/"@))
    } else if method == RequestMethod::Delete && starts_with(url, "/delete/"@)
        && could_be_file_name(file_name_in(url, "/delete/"@)) && single_entry {
        RouteView::Delete(file_name_in(url, "/delete/"@))
    } else {
        RouteView::NotFound
    }
}

/// The file name that a download or delete request names.
fn file_name_exec(url: &[char], prefix: &str) -> (r: String)
    requires
        prefix@.len() > 0,
    ensures
        r@ == file_name_in(url@, prefix@),
{
    let p = to_chars(prefix);
    let empty: Vec<char> = Vec::new();
    let raw = from_chars(replace_exec(url, p.as_slice(), empty.as_slice()).as_slice());
    match url_decode(raw.as_str()) {
        Some(d) => d,
        None => raw,
    }
}

/// Whether `name` can name an entry of the download folder on every platform.
pub fn could_be_file_name_exec(name: &str) -> (r: bool)
    ensures
        r == could_be_file_name(name@),
{
    proof {
        reveal_strlit(".");
        reveal_strlit("..");
    }
    let c = to_chars(name);
    let n = c.len();
    if n == 0 {
        return false;
    }
    let mut i: usize = 0;
    while i < n
        invariant
            n == c@.len(),
            c@ == name@,
            0 <= i <= n,
            forall|j: int| 0 <= j < i ==> c@[j] != '/',
        decreases n - i,
    {
        if c[i] == '/' {
            assert(c@[i as int] == '/');
            return false;
        }
        i = i + 1;
    }
    assert(!name@.contains('/'));
    if n == 1 && c[0] == '.' {
        assert(name@ =~= "."@);
        return false;
    }
    if n == 2 && c[0] == '.' && c[1] == '.' {
        assert(name@ =~= ".."@);
        return false;
    }
    assert(name@ != "."@) by {
        if name@ == "."@ {
            assert(name@[0] == "."@[0]);
        }
    }
    assert(name@ != ".."@) by {
        if name@ == ".."@ {
            assert(name@[0] == ".."@[0] && name@[1] == ".."@[1]);
        }
    }
    true
}

/// The file that a download or delete request names, decoded.
pub fn requested_name_exec(method: RequestMethod, url: &str) -> (r: Option<String>)
    ensures
        crate::models::opt_text(r) == requested_name(method, url@),
{
    proof {
        reveal_strlit("/download/");
        reveal_strlit("/delete/");
    }
    let c = to_chars(url);
    let dl = to_chars("/download/");
    let del = to_chars("/delete/");
    if method == RequestMethod::Get && starts_with_exec(c.as_slice(), dl.as_slice()) {
        Some(file_name_exec(c.as_slice(), "/download/"))
    } else if method == RequestMethod::Delete && starts_with_exec(c.as_slice(), del.as_slice()) {
        Some(file_name_exec(c.as_slice(), "/delete/"))
    } else {
        None
    }
}

/// What the request `method url` asks for, given the platform's verdict
/// `single_entry` on whether the file it names is one path component.
pub fn route_with_verdict(method: RequestMethod, url: &str, single_entry: bool) -> (r: RemoteRoute)
    ensures
        r@ == route_spec(method, url@, single_entry),
{
    proof {
        reveal_strlit("/download/");
        reveal_strlit("/delete/");
    }
    let u = String::from_str(url);
    let is_get = method == RequestMethod::Get;
    if is_get && u == String::from_str("/") {
        RemoteRoute::Page
    } else if is_get && u == String::from_str("/status") {
        RemoteRoute::Status
    } else if method == RequestMethod::Post && u == String::from_str("/send") {
        RemoteRoute::Send
    } else if method == RequestMethod::Options {
        RemoteRoute::Preflight
    } else if is_get && u == String::from_str("/files") {
        RemoteRoute::Files
    } else if is_get && u == String::from_str("/remote-config") {
        RemoteRoute::RemoteConfig
    } else {
        let c = to_chars(url);
        let dl = to_chars("/download/");
        let del = to_chars("/delete/");
        if is_get && starts_with_exec(c.as_slice(), dl.as_slice()) {
            let name = file_name_exec(c.as_slice(), "/download/");
            if could_be_file_name_exec(name.as_str()) && single_entry {
                return RemoteRoute::Download(name);
            }
        }
        if method == RequestMethod::Delete && starts_with_exec(c.as_slice(), del.as_slice()) {
            let name = file_name_exec(c.as_slice(), "/delete/");
            if could_be_file_name_exec(name.as_str()) && single_entry {
                return RemoteRoute::Delete(name);
            }
        }
        RemoteRoute::NotFound
    }
}

/// What the request `method url` asks for.  Whether the named file is one
/// path component is asked of the platform (`Path::parent` gives the empty
/// path exactly for a relative path of one component); a name that is one
/// component everywhere (`is_portable_name`) always passes.
pub fn route_request(method: RequestMethod, url: &str) -> (r: RemoteRoute)
    ensures
        exists|single_entry: bool|
            {
                &&& r@ == route_spec(method, url@, single_entry)
                &&& (requested_name(method, url@) matches Some(n) && is_portable_name(n)) ==> single_entry
            },
{
    let single_entry = match requested_name_exec(method, url) {
        Some(name) => {
            proof {
                if is_portable_name(name@) {
                    lemma_portable_name_is_path(name@);
                }
            }
            match path_parent(name.as_str()) {
                Some(p) => p.as_str().is_empty(),
                None => false,
            }
        },
        None => true,
    };
    route_with_verdict(method, url, single_entry)
}

/// The payload for a request body that is not a JSON payload: the body,
/// trimmed, as a plain URL; none when that is empty.
pub open spec fn plain_payload_url(body: Seq<char>) -> Option<Seq<char>> {
    if trim(body).len() == 0 {
        None
    } else {
        Some(trim(body))
    }
}

/// The payload for a request body that is not a JSON payload: the trimmed
/// body as the URL, with no format and no auto-start; none when it is empty.
pub fn plain_payload(body: &str) -> (r: Option<RemotePayload>)
    ensures
        match r {
            Some(p) => plain_payload_url(body@) == Some(p.url@) && p.format is None && p.auto_start is None,
            None => plain_payload_url(body@) is None,
        },
{
    let url = trim_str(body);
    if url.as_str().is_empty() {
        None
    } else {
        Some(RemotePayload { url, format: None, auto_start: None })
    }
}

/// Whether a file of the download folder is listed: partial downloads
/// (`.part`, `.ytdl`) are not.
pub open spec fn is_listed_file(name: Seq<char>) -> bool {
    !ends_with(name, ".part"@) && !ends_with(name, ".ytdl"@)
}

/// The listed files among `names`, in order.
pub open spec fn listed_files_spec(names: Seq<Seq<char>>) -> Seq<Seq<char>>
    decreases names.len(),
{
    if names.len() == 0 {
        names
    } else if is_listed_file(names.last()) {
        listed_files_spec(names.drop_last()).push(names.last())
    } else {
        listed_files_spec(names.drop_last())
    }
}

/// The listed files among the file names `names`, in order.
pub fn listed_files(names: Vec<String>) -> (r: Vec<String>)
    ensures
        r@.map_values(|s: String| s@) == listed_files_spec(names@.map_values(|s: String| s@)),
{
    let ghost nv = names@.map_values(|s: String| s@);
    let part = to_chars(".part");
    let ytdl = to_chars(".ytdl");
    let mut out: Vec<String> = Vec::new();
    let n = names.len();
    for i in 0..n
        invariant
            n == names@.len(),
            nv == names@.map_values(|s: String| s@),
            part@ == ".part"@,
            ytdl@ == ".ytdl"@,
            out@.map_values(|s: String| s@) == listed_files_spec(nv.take(i as int)),
    {
        assert(nv.take(i + 1).drop_last() =~= nv.take(i as int));
        assert(nv.take(i + 1).last() == names@[i as int]@);
        let c = to_chars(names[i].as_str());
        if !ends_with_exec(c.as_slice(), part.as_slice()) && !ends_with_exec(c.as_slice(), ytdl.as_slice()) {
            let ghost before = out@;
            let ghost item = names@[i as int]@;
            out.push(names[i].clone());
            assert(out@.map_values(|s: String| s@) =~= before.map_values(|s: String| s@).push(item));
        }
    }
    assert(nv.take(n as int) =~= nv);
    out
}

} // verus!
