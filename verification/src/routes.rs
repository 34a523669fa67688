//! How the local web server answers: which file a request names and with
//! which headers it is served.
use vstd::prelude::*;
use vstd::string::*;
use crate::text::{
    ends_with, has_suffix, lemma_replaced_absent, lemma_replaced_concat, no_partial_match_at_end,
    occurs_nowhere, replace_all, replaced,
};

verus! {

/// The content types that the streaming routes send.
#[derive(PartialEq, Eq, Structural)]
pub enum ContentType {
    /// `application/dash+xml`
    DashManifest,
    /// `video/iso.segment`
    DashSegment,
    /// `application/vnd.apple.mpegurl`
    HlsPlaylist,
    /// `video/mp2t`
    HlsSegment,
}

/// The header text of a content type.
pub open spec fn mime_text(t: ContentType) -> Seq<char> {
    match t {
        ContentType::DashManifest => "application/dash+xml"@,
        ContentType::DashSegment => "video/iso.segment"@,
        ContentType::HlsPlaylist => "application/vnd.apple.mpegurl"@,
        ContentType::HlsSegment => "video/mp2t"@,
    }
}

impl ContentType {
    /// The value of the `Content-Type` header.
    pub fn mime(&self) -> (m: &'static str)
        ensures
            m@ == mime_text(*self),
    {
        match self {
            ContentType::DashManifest => "application/dash+xml",
            ContentType::DashSegment => "video/iso.segment",
            ContentType::HlsPlaylist => "application/vnd.apple.mpegurl",
            ContentType::HlsSegment => "video/mp2t",
        }
    }
}

/// How a streaming route serves the file that a request names.
pub struct ServePlan {
    /// The content type to send.
    pub content_type: ContentType,
    /// Whether the response carries `Cache-Control: no-cache`.
    pub no_cache: bool,
    /// Whether the file is looked up in the cache directory (else in the
    /// application's root directory).
    pub from_cache: bool,
}

/// Whether a requested file is a DASH manifest: its name ends in `.mpd`.
pub open spec fn is_manifest_name(name: Seq<char>) -> bool {
    has_suffix(name, ".mpd"@)
}

/// How the `/dash/{file}` route serves `name`: manifests as DASH manifests
/// that are not cached, anything else as a media segment; both from the cache
/// directory.
pub fn dash_plan(name: &str) -> (p: ServePlan)
    ensures
        p.from_cache,
        p.no_cache == is_manifest_name(name@),
        p.content_type == (if is_manifest_name(name@) {
            ContentType::DashManifest
        } else {
            ContentType::DashSegment
        }),
{
    if ends_with(name, ".mpd") {
        ServePlan { content_type: ContentType::DashManifest, no_cache: true, from_cache: true }
    } else {
        ServePlan { content_type: ContentType::DashSegment, no_cache: false, from_cache: true }
    }
}

/// How the `/stream/{file}` route serves `name`: a manifest from the cache
/// directory and not cached, anything else as a segment from the root directory.
pub fn stream_plan(name: &str) -> (p: ServePlan)
    ensures
        p.from_cache == is_manifest_name(name@),
        p.no_cache == is_manifest_name(name@),
        p.content_type == (if is_manifest_name(name@) {
            ContentType::DashManifest
        } else {
            ContentType::DashSegment
        }),
{
    if ends_with(name, ".mpd") {
        ServePlan { content_type: ContentType::DashManifest, no_cache: true, from_cache: true }
    } else {
        ServePlan { content_type: ContentType::DashSegment, no_cache: false, from_cache: false }
    }
}

/// Whether `name` is one plain file name, read alike by every platform's
/// path rules: not empty, not `.` or `..`, and free of `/`, `\\` and `:`.
pub open spec fn is_plain_file_name(name: Seq<char>) -> bool {
    &&& name.len() > 0
    &&& name != "."@
    &&& name != ".."@
    &&& forall|i: int| 0 <= i < name.len() ==> #[trigger] name[i] != '/' && name[i] != '\\' && name[i]
        != ':'
}

/// `std::path::Path::ends_with`, asked of the path `path` with `child`:
/// whether the last components of `path` are those of `child`. Which
/// characters separate components, and which leading text is a prefix such
/// as `C:`, is decided by the platform's path rules, so for a path with
/// separators or a colon the result is left unstated here; for two plain file
/// names each is one component, and the answer is whether they are equal.
#[verifier::external_body]
fn path_ends_with(path: &str, child: &str) -> (r: bool)
    ensures
        is_plain_file_name(path@) && is_plain_file_name(child@) ==> (r == (path@ == child@)),
{
    std::path::Path::new(path).ends_with(child)
}

/// Whether a requested HLS file is a playlist: whether its path ends with the
/// component `.m3u8`, by the platform's path rules. The route looks the name
/// up in the cache directory; joining a directory with the name keeps the
/// name's last component last, so the name alone decides. A plain file name
/// is a playlist exactly when it is `.m3u8`; for other names the platform
/// decides (on Windows `\\` also separates components and `C:` is a prefix).
pub fn is_hls_playlist(name: &str) -> (r: bool)
    ensures
        is_plain_file_name(name@) ==> (r == (name@ == ".m3u8"@)),
{
    proof {
        reveal_strlit(".m3u8");
        reveal_strlit(".");
        reveal_strlit("..");
        assert(is_plain_file_name(".m3u8"@)) by {
            assert(".m3u8"@.len() == 5 && "."@.len() == 1 && ".."@.len() == 2);
        }
    }
    path_ends_with(name, ".m3u8")
}

/// How the `/hls/{file}` route serves a file, given whether it is a playlist:
/// playlists as playlists that are not cached, anything else as a
/// transport-stream segment; both from the cache directory.
pub fn hls_plan_for(is_playlist: bool) -> (p: ServePlan)
    ensures
        p.from_cache,
        p.no_cache == is_playlist,
        p.content_type == (if is_playlist {
            ContentType::HlsPlaylist
        } else {
            ContentType::HlsSegment
        }),
{
    if is_playlist {
        ServePlan { content_type: ContentType::HlsPlaylist, no_cache: true, from_cache: true }
    } else {
        ServePlan { content_type: ContentType::HlsSegment, no_cache: false, from_cache: true }
    }
}

/// How the `/hls/{file}` route serves `name`: as `hls_plan_for` says for
/// whether `name` is a playlist (see `is_hls_playlist`).
pub fn hls_plan(name: &str) -> (p: ServePlan)
    ensures
        p.from_cache,
        p.no_cache == (p.content_type == ContentType::HlsPlaylist),
        p.content_type == ContentType::HlsPlaylist || p.content_type == ContentType::HlsSegment,
        is_plain_file_name(name@) ==> (p.no_cache == (name@ == ".m3u8"@)),
{
    hls_plan_for(is_hls_playlist(name))
}

/// The file that a `/media/{file}` request names: the name with every `<<`
/// turned into the path separator `separator`.
pub open spec fn media_path(name: Seq<char>, separator: Seq<char>) -> Seq<char> {
    replaced(name, "<<"@, separator)
}

/// The file that a `/media/{file}` request names: the name with every `<<`
/// turned into the platform's path separator.
pub fn media_file_path(name: &str, separator: &str) -> (p: String)
    ensures
        p@ == media_path(name@, separator@),
{
    replace_all(name, "<<", separator)
}


/// The pieces joined into one text with `sep` between each two.
pub open spec fn joined(pieces: Seq<Seq<char>>, sep: Seq<char>) -> Seq<char>
    decreases pieces.len(),
{
    if pieces.len() == 0 {
        Seq::empty()
    } else if pieces.len() == 1 {
        pieces[0]
    } else {
        pieces[0] + sep + joined(pieces.drop_first(), sep)
    }
}

/// Whether no piece holds the character `c`.
pub open spec fn pieces_free_of(pieces: Seq<Seq<char>>, c: char) -> bool {
    forall|i: int| 0 <= i < pieces.len() ==> !(#[trigger] pieces[i]).contains(c)
}

/// Joining pieces free of `c` with a separator free of `c` gives a text free of `c`.
pub proof fn lemma_joined_free_of(pieces: Seq<Seq<char>>, sep: Seq<char>, c: char)
    requires
        pieces_free_of(pieces, c),
        !sep.contains(c),
    ensures
        !joined(pieces, sep).contains(c),
    decreases pieces.len(),
{
    if pieces.len() >= 2 {
        let rest = pieces.drop_first();
        assert(pieces_free_of(rest, c)) by {
            assert forall|i: int| 0 <= i < rest.len() implies !(#[trigger] rest[i]).contains(c) by {
                assert(rest[i] == pieces[i + 1]);
            }
        }
        lemma_joined_free_of(rest, sep, c);
        let t = pieces[0] + sep + joined(rest, sep);
        assert forall|j: int| 0 <= j < t.len() implies t[j] != c by {
            if j < pieces[0].len() {
                assert(pieces[0][j] == t[j]);
            } else if j < pieces[0].len() + sep.len() {
                assert(sep[j - pieces[0].len()] == t[j]);
            } else {
                assert(joined(rest, sep)[j - pieces[0].len() - sep.len()] == t[j]);
            }
        }
    } else if pieces.len() == 1 {
        assert(!pieces[0].contains(c));
    }
}

/// A media request name made of pieces without `<`, with `<<` between them,
/// names the file made of the same pieces with the separator between them:
/// every marker becomes a separator, wherever in the name it stands. With a
/// separator free of `<` the path holds no `<` at all.
pub proof fn lemma_media_path_of_marked_name(pieces: Seq<Seq<char>>, separator: Seq<char>)
    requires
        pieces_free_of(pieces, '<'),
    ensures
        media_path(joined(pieces, "<<"@), separator) == joined(pieces, separator),
        !separator.contains('<') ==> !media_path(joined(pieces, "<<"@), separator).contains('<'),
    decreases pieces.len(),
{
    reveal_strlit("<<");
    let pat = "<<"@;
    if pieces.len() == 0 {
    } else if pieces.len() == 1 {
        let a = pieces[0];
        assert(!a.contains('<'));
        assert(occurs_nowhere(a, pat)) by {
            assert forall|i: int| 0 <= i && i + pat.len() <= a.len() implies #[trigger] a.subrange(
                i,
                i + pat.len(),
            ) != pat by {
                assert(a.subrange(i, i + pat.len())[0] == a[i]);
            }
        }
        lemma_replaced_absent(a, pat, separator);
    } else {
        let a = pieces[0];
        let rest = pieces.drop_first();
        assert(!a.contains('<'));
        assert(no_partial_match_at_end(a, pat)) by {
            assert forall|k: int| 0 < k < pat.len() && k <= a.len() implies #[trigger] a.skip(
                a.len() - k,
            ) != pat.take(k) by {
                assert(a.skip(a.len() - k)[0] == a[a.len() - k]);
            }
        }
        assert(occurs_nowhere(a, pat)) by {
            assert forall|i: int| 0 <= i && i + pat.len() <= a.len() implies #[trigger] a.subrange(
                i,
                i + pat.len(),
            ) != pat by {
                assert(a.subrange(i, i + pat.len())[0] == a[i]);
            }
        }
        assert(pieces_free_of(rest, '<')) by {
            assert forall|i: int| 0 <= i < rest.len() implies !(#[trigger] rest[i]).contains('<') by {
                assert(rest[i] == pieces[i + 1]);
            }
        }
        lemma_replaced_absent(a, pat, separator);
        lemma_replaced_concat(a, joined(rest, pat), pat, separator);
        lemma_media_path_of_marked_name(rest, separator);
    }
    if !separator.contains('<') {
        lemma_joined_free_of(pieces, separator, '<');
    }
}

/// A name is served as a DASH manifest exactly when its last four characters
/// are `.`, `m`, `p`, `d`; so, for one, no name ending in `.m4s` is.
pub proof fn lemma_manifest_name_chars(name: Seq<char>)
    ensures
        is_manifest_name(name) <==> (name.len() >= 4 && name[name.len() - 4] == '.' && name[name.len()
            - 3] == 'm' && name[name.len() - 2] == 'p' && name[name.len() - 1] == 'd'),
{
    reveal_strlit(".mpd");
    if name.len() >= 4 {
        let t = name.subrange(name.len() - 4, name.len() as int);
        assert(t[0] == name[name.len() - 4]);
        assert(t[1] == name[name.len() - 3]);
        assert(t[2] == name[name.len() - 2]);
        assert(t[3] == name[name.len() - 1]);
        if name[name.len() - 4] == '.' && name[name.len() - 3] == 'm' && name[name.len() - 2] == 'p'
            && name[name.len() - 1] == 'd' {
            assert(t =~= ".mpd"@);
        }
    }
}

} // verus!
