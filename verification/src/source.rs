//! What a download can be made from: links, and paths of .torrent files.

use vstd::prelude::*;

use crate::dl::{DlError, DlErrorView};
use crate::text::{ends_with, same_text, split_on, starts_with};

verus! {

/// Whether a source is a link that can be passed straight through.
pub open spec fn is_link(source: Seq<char>) -> bool {
    ||| "magnet:"@.is_prefix_of(source)
    ||| "http://"@.is_prefix_of(source)
    ||| "https://"@.is_prefix_of(source)
    ||| "ed2k://"@.is_prefix_of(source)
    ||| "ftp://"@.is_prefix_of(source)
}

/// Whether part of a path names something: it is not empty and not the folder
/// itself.
pub open spec fn names_something(part: Seq<char>) -> bool {
    part.len() > 0 && part != "."@
}

/// The last of the parts of a path that names something, or the empty text.
pub open spec fn last_name(parts: Seq<Seq<char>>) -> Seq<char>
    decreases parts.len(),
{
    if parts.len() == 0 {
        Seq::empty()
    } else if names_something(parts.last()) {
        parts.last()
    } else {
        last_name(parts.drop_last())
    }
}

/// Whether a path names a file with the extension `torrent`.
pub open spec fn is_torrent_path(path: Seq<char>) -> bool {
    let name = last_name(crate::text::split(path, '/'));
    ".torrent"@.is_suffix_of(name) && name.len() > ".torrent"@.len()
}

/// The URL of a source, or why it has none, given whether it exists as a path.
pub open spec fn source_result(source: Seq<char>, exists: bool) -> Result<
    Seq<char>,
    DlErrorView,
> {
    if is_link(source) {
        Ok(source)
    } else if exists && is_torrent_path(source) {
        Err(DlErrorView::TorrentFile)
    } else {
        Err(DlErrorView::UnknownSource(source))
    }
}

/// Whether a source is a link that can be passed straight through.
pub fn passes_through(source: &str) -> (yes: bool)
    ensures
        yes == is_link(source@),
{
    starts_with(source, "magnet:") || starts_with(source, "http://") || starts_with(
        source,
        "https://",
    ) || starts_with(source, "ed2k://") || starts_with(source, "ftp://")
}

/// Whether a path names a file with the extension `torrent`.
pub fn has_torrent_extension(path: &str) -> (yes: bool)
    ensures
        yes == is_torrent_path(path@),
{
    let parts = split_on(path, '/');
    let ghost all = crate::text::texts(parts@);
    let mut n = parts.len();
    assert(all.take(n as int) =~= all);
    while n > 0
        invariant
            n <= parts@.len(),
            all == crate::text::texts(parts@),
            last_name(all) == last_name(all.take(n as int)),
            all == crate::text::split(path@, '/'),
        decreases n,
    {
        let part = parts[n - 1].as_str();
        assert(all.take(n as int).last() == part@);
        assert(all.take(n as int).drop_last() =~= all.take(n - 1));
        if !part.is_empty() && !same_text(part, ".") {
            return ends_with(part, ".torrent") && part.unicode_len() > ".torrent".unicode_len();
        }
        n = n - 1;
    }
    proof {
        reveal_strlit(".torrent");
    }
    false
}

/// A source is a magnet/URL passed straight through, or a .torrent file, which
/// cannot be uploaded. `exists` says whether the source exists as a path.
pub fn source_to_url(source: &str, exists: bool) -> (r: Result<String, DlError>)
    ensures
        match (r, source_result(source@, exists)) {
            (Ok(u), Ok(url)) => u@ == url,
            (Err(e), Err(w)) => e@ == w,
            _ => false,
        },
{
    if passes_through(source) {
        return Ok(source.to_string());
    }
    if exists && has_torrent_extension(source) {
        return Err(DlError::TorrentFile);
    }
    Err(DlError::UnknownSource(source.to_string()))
}

/// A link of one of the known schemes is its own URL, whole, whatever paths there are;
/// nothing else has a URL.
pub proof fn law_links_are_their_own_urls(rest: Seq<char>, source: Seq<char>, exists: bool)
    ensures
        source_result("magnet:"@ + rest, exists) == Ok::<Seq<char>, DlErrorView>(
            "magnet:"@ + rest,
        ),
        source_result("http://"@ + rest, exists) == Ok::<Seq<char>, DlErrorView>(
            "http://"@ + rest,
        ),
        source_result("https://"@ + rest, exists) == Ok::<Seq<char>, DlErrorView>(
            "https://"@ + rest,
        ),
        source_result("ed2k://"@ + rest, exists) == Ok::<Seq<char>, DlErrorView>(
            "ed2k://"@ + rest,
        ),
        source_result("ftp://"@ + rest, exists) == Ok::<Seq<char>, DlErrorView>("ftp://"@ + rest),
        source_result(source, exists) matches Ok(url) ==> url == source && ("magnet:"@.is_prefix_of(
            source,
        ) || "http://"@.is_prefix_of(source) || "https://"@.is_prefix_of(source)
            || "ed2k://"@.is_prefix_of(source) || "ftp://"@.is_prefix_of(source)),
{
    assert(("magnet:"@ + rest).subrange(0, "magnet:"@.len() as int) =~= "magnet:"@);
    assert(("http://"@ + rest).subrange(0, "http://"@.len() as int) =~= "http://"@);
    assert(("https://"@ + rest).subrange(0, "https://"@.len() as int) =~= "https://"@);
    assert(("ed2k://"@ + rest).subrange(0, "ed2k://"@.len() as int) =~= "ed2k://"@);
    assert(("ftp://"@ + rest).subrange(0, "ftp://"@.len() as int) =~= "ftp://"@);
}

/// A path of a folder and a name has the extension of the name: it is that of a .torrent
/// file exactly where the name ends with `.torrent` and is more than that.
pub proof fn law_extension_is_that_of_the_name(folder: Seq<char>, name: Seq<char>)
    requires
        !name.contains('/'),
        name.len() > 0,
        name != "."@,
    ensures
        is_torrent_path(folder + seq!['/'] + name) == (".torrent"@.is_suffix_of(name) && name.len()
            > ".torrent"@.len()),
        is_torrent_path(name) == (".torrent"@.is_suffix_of(name) && name.len()
            > ".torrent"@.len()),
{
    crate::text::lemma_split_last(folder, '/', name);
    crate::text::lemma_split_whole(name, '/');
    let parts = crate::text::split(folder, '/').push(name);
    assert(last_name(parts) == name);
    assert(last_name(seq![name]) == name);
}

} // verus!
