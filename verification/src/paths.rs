//! The parts of a file path, by the platform's rules.
//!
//! How a path splits into components depends on the platform (which
//! characters separate components, whether a drive prefix is one), so the
//! same text can give different parts on different machines.  What holds on
//! every platform is stated: each part is cut out of the path's own text, and
//! a path made of portable names separated by `/` splits the same way
//! everywhere, as std's documentation describes.

use vstd::prelude::*;
use crate::text::{contains, split_on, starts_with};

verus! {

/// A name that is one path component on every platform: not empty, with no
/// separator (`/` or `\`) and no drive colon, and neither `.` nor `..`.
pub open spec fn is_portable_name(n: Seq<char>) -> bool {
    &&& n.len() > 0
    &&& !n.contains('/')
    &&& !n.contains('\\')
    &&& !n.contains(':')
    &&& n != "."@
    &&& n != ".."@
}

/// A path written as portable names separated by single `/`, with or without
/// one leading `/`.
pub open spec fn is_portable_path(p: Seq<char>) -> bool {
    let segs = split_on(p, '/');
    forall|i: int|
        0 <= i < segs.len() ==> is_portable_name(#[trigger] segs[i]) || (i == 0 && segs.len() > 1
            && segs[0].len() == 0)
}

/// The last component of a portable path: its file name.
pub open spec fn portable_file_name(p: Seq<char>) -> Seq<char> {
    split_on(p, '/').last()
}

/// The parent of a portable path: empty for a single name, `/` for a name
/// right under the root, else the path up to its last `/`.
pub open spec fn portable_parent(p: Seq<char>) -> Seq<char> {
    let segs = split_on(p, '/');
    if segs.len() == 1 {
        Seq::empty()
    } else if segs.len() == 2 && segs[0].len() == 0 {
        "/"@
    } else {
        p.subrange(0, p.len() - segs.last().len() - 1)
    }
}

/// The position of the final `.` of `n`, or `-1` when there is none.
pub open spec fn last_dot(n: Seq<char>) -> int
    decreases n.len(),
{
    if n.len() == 0 {
        -1
    } else if n.last() == '.' {
        n.len() - 1
    } else {
        last_dot(n.drop_last())
    }
}

/// The stem of a file name, as std documents it: the whole name when it has
/// no `.` or only a leading one, else the part before the final `.`.
pub open spec fn stem_of_name(n: Seq<char>) -> Seq<char> {
    let i = last_dot(n);
    if i <= 0 {
        n
    } else {
        n.subrange(0, i)
    }
}

/// The extension of a file name, as std documents it: none when the name has
/// no `.` or only a leading one, else the part after the final `.`.
pub open spec fn extension_of_name(n: Seq<char>) -> Option<Seq<char>> {
    let i = last_dot(n);
    if i <= 0 {
        None
    } else {
        Some(n.subrange(i + 1, n.len() as int))
    }
}

/// A text without `sep` is one piece.
pub proof fn lemma_split_on_absent(s: Seq<char>, sep: char)
    requires
        !s.contains(sep),
    ensures
        split_on(s, sep) == seq![s],
    decreases s.len(),
{
    if s.len() > 0 {
        assert(!s.drop_last().contains(sep)) by {
            if s.drop_last().contains(sep) {
                let i = choose|i: int| 0 <= i < s.drop_last().len() && s.drop_last()[i] == sep;
                assert(s[i] == sep);
            }
        }
        lemma_split_on_absent(s.drop_last(), sep);
        assert(s.last() != sep) by {
            assert(s[s.len() - 1] == s.last());
        }
        assert(s.drop_last().push(s.last()) =~= s);
        assert(seq![s.drop_last()].update(0, s.drop_last().push(s.last())) =~= seq![s]);
    } else {
        assert(s =~= Seq::<char>::empty());
    }
}

/// A portable name is a portable path of one component: its own file name,
/// with an empty parent.
pub proof fn lemma_portable_name_is_path(n: Seq<char>)
    requires
        is_portable_name(n),
    ensures
        is_portable_path(n),
        portable_file_name(n) == n,
        portable_parent(n) == Seq::<char>::empty(),
{
    lemma_split_on_absent(n, '/');
}

/// The file name without its extension (`std::path::Path::file_stem`), as
/// text.  Claimed: when there is one, it is a non-empty piece of the path's
/// text; for a portable path it is the stem of the last name, by the rule in
/// std's documentation.  Other paths split by the platform's rules, which are
/// not stated.
#[verifier::external_body]
pub(crate) fn path_file_stem(path: &str) -> (r: Option<String>)
    ensures
        r matches Some(s) ==> s@.len() > 0 && contains(path@, s@),
        is_portable_path(path@) ==> crate::models::opt_text(r) == Some(stem_of_name(portable_file_name(path@))),
{
    std::path::Path::new(path).file_stem().map(|s| s.to_string_lossy().into_owned())
}

/// The path without its last component (`std::path::Path::parent`), as text.
/// Claimed: when there is one, the path's text begins with it; for a portable
/// path it is `portable_parent` (empty for a single name, as std documents).
/// Other paths split by the platform's rules, which are not stated.
#[verifier::external_body]
pub(crate) fn path_parent(path: &str) -> (r: Option<String>)
    ensures
        r matches Some(p) ==> starts_with(path@, p@),
        is_portable_path(path@) ==> crate::models::opt_text(r) == Some(portable_parent(path@)),
{
    std::path::Path::new(path).parent().map(|p| p.to_string_lossy().into_owned())
}

/// The extension of the file name (`std::path::Path::extension`), as text.
/// Claimed: when there is one, it follows a `.` in the path's text; for a
/// portable path it is the extension of the last name, by the rule in std's
/// documentation.  Other paths split by the platform's rules, which are not
/// stated.
#[verifier::external_body]
pub(crate) fn path_extension(path: &str) -> (r: Option<String>)
    ensures
        r matches Some(e) ==> contains(path@, "."@ + e@),
        is_portable_path(path@) ==> crate::models::opt_text(r) == extension_of_name(portable_file_name(path@)),
{
    std::path::Path::new(path).extension().and_then(|e| e.to_str()).map(|e| e.to_string())
}

} // verus!
