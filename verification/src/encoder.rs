//! The encoder invocation of one rendition.

use crate::profile::{names_distinct, Profile, ProfileView};
use crate::select::{MuxSettings, MuxView};
use crate::text::{decimal, push_decimal, texts};
use vstd::prelude::*;

verus! {

/// Directory of a rendition below the output root.
pub open spec fn rendition_dir(root: Seq<char>, level_name: Seq<char>) -> Seq<char> {
    root + "/"@ + level_name
}

/// Index file of a rendition.
pub open spec fn index_path(root: Seq<char>, level_name: Seq<char>) -> Seq<char> {
    rendition_dir(root, level_name) + "/index.m3u8"@
}

/// Pattern of a rendition's numbered segment files.
pub open spec fn segment_pattern(root: Seq<char>, level_name: Seq<char>) -> Seq<char> {
    rendition_dir(root, level_name) + "/%03d.ts"@
}

/// The source, the codecs with their rate control, and the stream map. The
/// map names the chosen streams by their position among the streams of
/// their type, not by their index in the container.
pub open spec fn input_args(src: MuxView, prof: ProfileView) -> Seq<Seq<char>> {
    seq![
        "-y"@,
        "-re"@,
        "-i"@,
        src.av_path,
        "-b:v"@,
        prof.bitrate_video,
        "-c:v"@,
        "libx264"@,
        "-x264opts"@,
        "keyint=300:no-scenecut"@,
        "-pix_fmt"@,
        "yuv420p"@,
        "-profile:v"@,
        "main"@,
        "-r"@,
        "30"@,
        "-b:a"@,
        prof.bitrate_audio,
        "-c:a"@,
        "libfdk_aac"@,
        "-preset"@,
        "veryfast"@,
        "-map"@,
        "v:"@ + decimal(src.idx_v),
        "-map"@,
        "a:"@ + decimal(src.idx_a),
    ]
}

/// The filter that burns the chosen subtitle stream into the picture; empty
/// without a subtitle selection.
pub open spec fn subtitle_args(src: MuxView) -> Seq<Seq<char>> {
    match (src.st_path, src.idx_st) {
        (Some(path), Some(idx)) => seq!["-vf"@, "subtitles="@ + path + ":si="@ + decimal(idx)],
        _ => seq![],
    }
}

/// The segmenting options, the segment pattern and the index file.
pub open spec fn output_args(prof: ProfileView, root: Seq<char>) -> Seq<Seq<char>> {
    seq![
        "-hls_list_size"@,
        "10"@,
        "-hls_time"@,
        "10"@,
        "-hls_flags"@,
        "delete_segments"@,
        "-hls_segment_filename"@,
        segment_pattern(root, prof.level_name),
        index_path(root, prof.level_name),
    ]
}

/// The arguments of the encoder for one rendition of a selection.
pub open spec fn args_for(src: MuxView, prof: ProfileView, root: Seq<char>) -> Seq<Seq<char>> {
    input_args(src, prof) + subtitle_args(src) + output_args(prof, root)
}

/// Appends one argument.
fn push_arg(args: &mut Vec<String>, arg: String)
    ensures
        texts(final(args)@) == texts(old(args)@).push(arg@),
{
    args.push(arg);
    assert(texts(args@) =~= texts(old(args)@).push(arg@));
}

/// Appends a copy of one argument.
fn push_str(args: &mut Vec<String>, arg: &str)
    ensures
        texts(final(args)@) == texts(old(args)@).push(arg@),
{
    push_arg(args, arg.to_owned());
}

/// `prefix` followed by the decimal numeral of `n`.
fn numbered(prefix: &str, n: usize) -> (s: String)
    ensures
        s@ == prefix@ + decimal(n as nat),
{
    let mut s = prefix.to_owned();
    push_decimal(&mut s, n as u64);
    s
}

/// A file of the rendition `level_name` below `root`; `file` starts with
/// the separator.
fn rendition_file(root: &str, level_name: &str, file: &str) -> (s: String)
    ensures
        s@ == rendition_dir(root@, level_name@) + file@,
{
    let mut s = root.to_owned();
    s.append("/");
    s.append(level_name);
    s.append(file);
    s
}

/// Builds the arguments with which the encoder produces the rendition
/// `prof` of the selection `src` below the output root `root`.
pub fn encoder_args(src: &MuxSettings, prof: &Profile, root: &str) -> (args: Vec<String>)
    ensures
        texts(args@) == args_for(src@, prof@, root@),
{
    let mut args: Vec<String> = Vec::new();

    // setup basic video streaming properties
    push_str(&mut args, "-y");
    push_str(&mut args, "-re");
    push_str(&mut args, "-i");
    push_str(&mut args, src.av_path().as_str());
    push_str(&mut args, "-b:v");
    push_str(&mut args, prof.bitrate_video.as_str());
    push_str(&mut args, "-c:v");
    push_str(&mut args, "libx264");
    push_str(&mut args, "-x264opts");
    push_str(&mut args, "keyint=300:no-scenecut");
    push_str(&mut args, "-pix_fmt");
    push_str(&mut args, "yuv420p");
    push_str(&mut args, "-profile:v");
    push_str(&mut args, "main");
    push_str(&mut args, "-r");
    push_str(&mut args, "30");
    push_str(&mut args, "-b:a");
    push_str(&mut args, prof.bitrate_audio.as_str());
    push_str(&mut args, "-c:a");
    push_str(&mut args, "libfdk_aac");
    push_str(&mut args, "-preset");
    push_str(&mut args, "veryfast");
    push_str(&mut args, "-map");
    push_arg(&mut args, numbered("v:", src.idx_v()));
    push_str(&mut args, "-map");
    push_arg(&mut args, numbered("a:", src.idx_a()));
    assert(texts(args@) =~= input_args(src@, prof@));

    // add in subtitles
    match (src.st_path(), src.ids_st()) {
        (Some(st_path), Some(st_idx)) => {
            let mut filter = "subtitles=".to_owned();
            filter.append(st_path.as_str());
            filter.append(":si=");
            push_decimal(&mut filter, st_idx as u64);
            push_str(&mut args, "-vf");
            push_arg(&mut args, filter);
        },
        _ => {},
    }
    assert(texts(args@) =~= input_args(src@, prof@) + subtitle_args(src@));

    // set up HLS output options
    push_str(&mut args, "-hls_list_size");
    push_str(&mut args, "10");
    push_str(&mut args, "-hls_time");
    push_str(&mut args, "10");
    push_str(&mut args, "-hls_flags");
    push_str(&mut args, "delete_segments");
    push_str(&mut args, "-hls_segment_filename");
    push_arg(&mut args, rendition_file(root, prof.level_name.as_str(), "/%03d.ts"));
    push_arg(&mut args, rendition_file(root, prof.level_name.as_str(), "/index.m3u8"));
    assert(texts(args@) =~= args_for(src@, prof@, root@));
    args
}

/// Builds the encoder arguments of every rendition of a profile set, in the
/// profiles' order: one invocation per profile, each with the bitrates and
/// the output files of its own profile.
pub fn encoder_plan(src: &MuxSettings, profiles: &Vec<Profile>, root: &str) -> (plan: Vec<
    Vec<String>,
>)
    ensures
        plan@.len() == profiles@.len(),
        forall|i: int|
            0 <= i < plan@.len() ==> texts((#[trigger] plan@[i])@) == args_for(
                src@,
                profiles@[i]@,
                root@,
            ),
{
    let mut plan: Vec<Vec<String>> = Vec::new();
    let mut i: usize = 0;
    while i < profiles.len()
        invariant
            i <= profiles.len(),
            plan@.len() == i,
            forall|k: int|
                0 <= k < i ==> texts((#[trigger] plan@[k])@) == args_for(
                    src@,
                    profiles@[k]@,
                    root@,
                ),
        decreases profiles.len() - i,
    {
        plan.push(encoder_args(src, &profiles[i], root));
        i += 1;
    }
    plan
}

/// Two texts that differ still differ when both are put between the same
/// two texts.
proof fn lemma_framed_apart(before: Seq<char>, a: Seq<char>, b: Seq<char>, after: Seq<char>)
    requires
        a != b,
    ensures
        before + a + after != before + b + after,
        before + a != before + b,
{
    let left = before + a + after;
    let right = before + b + after;
    if left == right {
        assert(a.len() == b.len()) by {
            assert(left.len() == right.len());
        }
        assert forall|k: int| 0 <= k < a.len() implies a[k] == b[k] by {
            assert(left[before.len() + k] == a[k]);
            assert(right[before.len() + k] == b[k]);
        }
        assert(a =~= b);
    }
    if before + a == before + b {
        assert((before + a).len() == (before + b).len());
        assert forall|k: int| 0 <= k < a.len() implies a[k] == b[k] by {
            assert((before + a)[before.len() + k] == a[k]);
            assert((before + b)[before.len() + k] == b[k]);
        }
        assert(a =~= b);
    }
}

/// The encoder of each rendition is handed the index file of its own
/// rendition as its output, and in a profile set, where no two profiles
/// share a name, no two renditions share a directory, an index file or a
/// segment pattern.
pub proof fn lemma_renditions_apart(src: MuxView, profiles: Seq<ProfileView>, root: Seq<char>)
    requires
        names_distinct(profiles),
    ensures
        forall|i: int|
            0 <= i < profiles.len() ==> args_for(src, #[trigger] profiles[i], root).last()
                == index_path(root, profiles[i].level_name),
        forall|i: int, j: int|
            0 <= i < j < profiles.len() ==> {
                let a = (#[trigger] profiles[i]).level_name;
                let b = (#[trigger] profiles[j]).level_name;
                &&& rendition_dir(root, a) != rendition_dir(root, b)
                &&& index_path(root, a) != index_path(root, b)
                &&& segment_pattern(root, a) != segment_pattern(root, b)
            },
{
    assert forall|i: int, j: int| 0 <= i < j < profiles.len() implies {
        let a = (#[trigger] profiles[i]).level_name;
        let b = (#[trigger] profiles[j]).level_name;
        &&& rendition_dir(root, a) != rendition_dir(root, b)
        &&& index_path(root, a) != index_path(root, b)
        &&& segment_pattern(root, a) != segment_pattern(root, b)
    } by {
        let a = profiles[i].level_name;
        let b = profiles[j].level_name;
        lemma_framed_apart(root + "/"@, a, b, "/index.m3u8"@);
        lemma_framed_apart(root + "/"@, a, b, "/%03d.ts"@);
    }
}

} // verus!
