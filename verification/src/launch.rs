//! What the command line and a picked media file ask of the application.
use vstd::prelude::*;
use vstd::string::*;
use crate::text::{
    lemma_replaced_absent, lemma_replaced_char, lemma_replaced_concat, no_partial_match_at_end,
    occurs_nowhere, replace_all, replaced, same_text,
};

verus! {

/// Options read from the command line.
pub struct LaunchOptions {
    /// Borderless fullscreen window with the kiosk script injected.
    pub kiosk: bool,
}

/// Whether `args` holds the argument `--kiosk`.
pub open spec fn asks_kiosk(args: Seq<String>) -> bool {
    exists|i: int| 0 <= i < args.len() && #[trigger] args[i]@ == "--kiosk"@
}

/// The options that the command line `args` asks for: kiosk mode exactly
/// when one of the arguments is `--kiosk`; other arguments are ignored.
pub fn launch_options(args: &Vec<String>) -> (o: LaunchOptions)
    ensures
        o.kiosk == asks_kiosk(args@),
{
    let mut i: usize = 0;
    while i < args.len()
        invariant
            i <= args@.len(),
            forall|k: int| 0 <= k < i ==> #[trigger] args@[k]@ != "--kiosk"@,
        decreases args@.len() - i,
    {
        if same_text(args[i].as_str(), "--kiosk") {
            return LaunchOptions { kiosk: true };
        }
        i = i + 1;
    }
    LaunchOptions { kiosk: false }
}

/// The path that the subtitle filter reads: the media file's path without
/// any `C:` and with back slashes turned into forward slashes.
pub open spec fn subtitle_source(input: Seq<char>) -> Seq<char> {
    replaced(replaced(input, "C:"@, Seq::empty()), "\\"@, "/"@)
}

/// The manifest that the transcoder writes into the cache directory.
pub open spec fn manifest_path(cache_dir: Seq<char>, separator: Seq<char>) -> Seq<char> {
    cache_dir + separator + "manifest.mpd"@
}

/// The arguments given to ffmpeg to turn `input` into a DASH stream with
/// burnt-in subtitles, ending with the manifest to write.
pub open spec fn transcode_args(input: Seq<char>, output: Seq<char>) -> Seq<Seq<char>> {
    seq![
        "-i"@,
        input,
        "-vf"@,
        "subtitles="@ + subtitle_source(input) + ":si=30"@,
        "-use_template"@,
        "1"@,
        "-use_timeline"@,
        "1"@,
        "-seg_duration"@,
        "6"@,
        "-f"@,
        "dash"@,
        "-y"@,
        output,
    ]
}

/// The transcoding job for a picked media file.
pub struct TranscodePlan {
    /// The command line given to ffmpeg.
    pub args: Vec<String>,
    /// The manifest whose appearance tells that the stream can be cast.
    pub output: String,
}

fn push_arg(args: &mut Vec<String>, a: &str)
    ensures
        final(args)@.map_values(|s: String| s@) == old(args)@.map_values(|s: String| s@).push(a@),
{
    let mut s = String::new();
    s.append(a);
    args.push(s);
    assert(final(args)@.map_values(|s: String| s@) =~= old(args)@.map_values(|s: String| s@).push(a@));
}

/// The transcoding job for the media file at `input`, writing its manifest
/// into `cache_dir` (joined with `separator`).
pub fn transcode_plan(input: &str, cache_dir: &str, separator: &str) -> (p: TranscodePlan)
    ensures
        p.output@ == manifest_path(cache_dir@, separator@),
        p.args@.map_values(|s: String| s@) == transcode_args(input@, p.output@),
{
    proof {
        reveal_strlit("");
    }
    let no_drive = replace_all(input, "C:", "");
    assert(""@ =~= Seq::<char>::empty());
    assert(no_drive@ == replaced(input@, "C:"@, Seq::empty()));
    let subs = replace_all(no_drive.as_str(), "\\", "/");
    assert(subs@ == subtitle_source(input@));
    let mut filter = String::new();
    filter.append("subtitles=");
    filter.append(subs.as_str());
    filter.append(":si=30");
    let mut output = String::new();
    output.append(cache_dir);
    output.append(separator);
    output.append("manifest.mpd");
    let mut args: Vec<String> = Vec::new();
    push_arg(&mut args, "-i");
    push_arg(&mut args, input);
    push_arg(&mut args, "-vf");
    push_arg(&mut args, filter.as_str());
    push_arg(&mut args, "-use_template");
    push_arg(&mut args, "1");
    push_arg(&mut args, "-use_timeline");
    push_arg(&mut args, "1");
    push_arg(&mut args, "-seg_duration");
    push_arg(&mut args, "6");
    push_arg(&mut args, "-f");
    push_arg(&mut args, "dash");
    push_arg(&mut args, "-y");
    push_arg(&mut args, output.as_str());
    assert(filter@ =~= "subtitles="@ + subtitle_source(input@) + ":si=30"@);
    assert(output@ =~= manifest_path(cache_dir@, separator@));
    assert(args@.map_values(|s: String| s@) =~= transcode_args(input@, output@));
    TranscodePlan { args, output }
}


/// The icon file of the window: `<root>/<assets>/testicon.ico`.
pub open spec fn icon_path_text(root: Seq<char>, assets_dir: Seq<char>) -> Seq<char> {
    root + "/"@ + assets_dir + "/testicon.ico"@
}

/// The icon file of the window, under the assets directory of the
/// application's root directory.
pub fn window_icon_path(root: &str, assets_dir: &str) -> (p: String)
    ensures
        p@ == icon_path_text(root@, assets_dir@),
{
    let mut p = String::new();
    p.append(root);
    p.append("/");
    p.append(assets_dir);
    p.append("/testicon.ico");
    assert(p@ =~= icon_path_text(root@, assets_dir@));
    p
}


/// Kiosk mode is asked for by a `--kiosk` at any position of the command line.
pub proof fn lemma_kiosk_at_any_position(args: Seq<String>, i: int)
    requires
        0 <= i < args.len(),
        args[i]@ == "--kiosk"@,
    ensures
        asks_kiosk(args),
{
}

/// Only `--kiosk` itself matters: putting any other argument anywhere into
/// the command line does not change whether kiosk mode is asked for.
pub proof fn lemma_kiosk_ignores_other_arguments(args: Seq<String>, k: int, extra: String)
    requires
        0 <= k <= args.len(),
        extra@ != "--kiosk"@,
    ensures
        asks_kiosk(args.insert(k, extra)) == asks_kiosk(args),
{
    let longer = args.insert(k, extra);
    if asks_kiosk(args) {
        let i = choose|i: int| 0 <= i < args.len() && #[trigger] args[i]@ == "--kiosk"@;
        if i < k {
            assert(longer[i] == args[i]);
        } else {
            assert(longer[i + 1] == args[i]);
        }
    }
    if asks_kiosk(longer) {
        let j = choose|j: int| 0 <= j < longer.len() && #[trigger] longer[j]@ == "--kiosk"@;
        if j < k {
            assert(longer[j] == args[j]);
        } else if j > k {
            assert(longer[j] == args[j - 1]);
        }
    }
}

/// A command line without `--kiosk` asks for no kiosk mode.
pub proof fn lemma_no_kiosk_without_flag(args: Seq<String>)
    requires
        forall|i: int| 0 <= i < args.len() ==> (#[trigger] args[i])@ != "--kiosk"@,
    ensures
        !asks_kiosk(args),
{
}

/// `c` turned into `d`, every other character kept.
pub open spec fn swap_char(x: char, c: char, d: char) -> char {
    if x == c {
        d
    } else {
        x
    }
}

/// The subtitle filter never holds a back slash, whatever the media file: every
/// back slash of the path has become a forward slash.
pub proof fn lemma_subtitle_filter_has_no_backslash(input: Seq<char>, output: Seq<char>)
    ensures
        !transcode_args(input, output)[3].contains('\\'),
{
    reveal_strlit("\\");
    reveal_strlit("/");
    reveal_strlit("subtitles=");
    reveal_strlit(":si=30");
    let no_drive = replaced(input, "C:"@, Seq::empty());
    lemma_replaced_char(no_drive, '\\', '/');
    assert("\\"@ =~= seq!['\\']);
    assert("/"@ =~= seq!['/']);
    let subs = subtitle_source(input);
    assert(subs == no_drive.map_values(|x: char| if x == '\\' { '/' } else { x }));
    let f = transcode_args(input, output)[3];
    assert(f =~= "subtitles="@ + subs + ":si=30"@);
    assert forall|j: int| 0 <= j < f.len() implies f[j] != '\\' by {
        if j < 10 {
        } else if j < 10 + subs.len() {
            assert(f[j] == subs[j - 10]);
        } else {
            assert(f[j] == ":si=30"@[j - 10 - subs.len()]);
        }
    }
}

/// For a Windows path `C:<rest>` whose rest holds no colon, the subtitle filter
/// reads `<rest>` with back slashes turned into forward slashes, whatever
/// kind of file it names.
pub proof fn lemma_subtitle_filter_of_drive_path(rest: Seq<char>, output: Seq<char>)
    requires
        !rest.contains(':'),
    ensures
        transcode_args("C:"@ + rest, output)[3] == "subtitles="@ + rest.map_values(
            |x: char| swap_char(x, '\\', '/'),
        ) + ":si=30"@,
{
    reveal_strlit("C:");
    reveal_strlit("\\");
    reveal_strlit("/");
    let pat = "C:"@;
    assert(no_partial_match_at_end(Seq::<char>::empty(), pat));
    lemma_replaced_concat(Seq::empty(), rest, pat, Seq::empty());
    assert(Seq::<char>::empty() + pat + rest =~= "C:"@ + rest);
    assert(replaced(Seq::<char>::empty(), pat, Seq::empty()) =~= Seq::<char>::empty());
    assert(occurs_nowhere(rest, pat)) by {
        assert forall|i: int| 0 <= i && i + pat.len() <= rest.len() implies #[trigger] rest.subrange(
            i,
            i + pat.len(),
        ) != pat by {
            assert(rest.subrange(i, i + pat.len())[1] == rest[i + 1]);
        }
    }
    lemma_replaced_absent(rest, pat, Seq::empty());
    assert(replaced("C:"@ + rest, pat, Seq::empty()) =~= rest);
    lemma_replaced_char(rest, '\\', '/');
    assert("\\"@ =~= seq!['\\']);
    assert("/"@ =~= seq!['/']);
    assert(rest.map_values(|x: char| if x == '\\' { '/' } else { x }) =~= rest.map_values(
        |x: char| swap_char(x, '\\', '/'),
    ));
}

} // verus!
