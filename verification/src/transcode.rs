//! The external transcoder's side of the pipeline: staging directory names,
//! frame-extraction and concatenation invocations, and the concat list
//! file.  Everything here is pure computation of names, argument lists and
//! file content; the driver spawns the transcoder and reports its exit
//! status back.

use vstd::prelude::*;
use vstd::string::*;
use crate::registry::path_views;
use crate::scanner::{ext_of, spec_joined};
use crate::text::{dec_digits, int_digits, i64_to_string, u64_to_string};
use crate::types::ProcessError;

verus! {

/// Staging directory name for a StagedConcat job: `<prefix>_<tag>_temp`.
/// One per directory job, registered for removal by the final sweep.
pub open spec fn spec_staged_dir_name(prefix: Seq<char>, tag: Seq<char>) -> Seq<char> {
    prefix + "_"@ + tag + "_temp"@
}

/// Build the StagedConcat staging directory name.
pub fn staged_dir_name(prefix: &str, tag: &str) -> (r: String)
    ensures
        r@ == spec_staged_dir_name(prefix@, tag@),
{
    let mut s = String::new();
    s.append(prefix);
    s.append("_");
    s.append(tag);
    s.append("_temp");
    proof {
        assert(s@ =~= spec_staged_dir_name(prefix@, tag@));
    }
    s
}

/// Staging directory name for a DirectExternal job:
/// `<prefix>_<tag>_ffmpeg_direct_temp_<worker>`.  The worker tag keeps
/// concurrent jobs' transient directories apart; the directory is removed
/// right after the job, not by the final sweep.
pub open spec fn spec_direct_external_dir_name(
    prefix: Seq<char>,
    tag: Seq<char>,
    worker: Seq<char>,
) -> Seq<char> {
    prefix + "_"@ + tag + "_ffmpeg_direct_temp_"@ + worker
}

/// Build the DirectExternal staging directory name.
pub fn direct_external_dir_name(prefix: &str, tag: &str, worker: &str) -> (r: String)
    ensures
        r@ == spec_direct_external_dir_name(prefix@, tag@, worker@),
{
    let mut s = String::new();
    s.append(prefix);
    s.append("_");
    s.append(tag);
    s.append("_ffmpeg_direct_temp_");
    s.append(worker);
    proof {
        assert(s@ =~= spec_direct_external_dir_name(prefix@, tag@, worker@));
    }
    s
}

/// The frame-selection filter expression for sampling interval `k`:
/// `select=not(mod(n\,<k>))`.
pub open spec fn spec_select_filter(k: nat) -> Seq<char> {
    "select=not(mod(n\\,"@ + dec_digits(k) + "))"@
}

/// The per-video output pattern handed to the transcoder:
/// `video<index>_frame%06d.jpg` (the transcoder numbers the frames).
pub open spec fn spec_extract_pattern(idx: nat) -> Seq<char> {
    "video"@ + dec_digits(idx) + "_frame%06d.jpg"@
}

/// The argument list of one frame-extraction invocation.
pub open spec fn spec_external_extract_args(
    video: Seq<char>,
    idx: nat,
    staging_dir: Seq<char>,
    interval: nat,
) -> Seq<Seq<char>> {
    seq![
        "-i"@,
        video,
        "-vf"@,
        spec_select_filter(interval),
        "-vsync"@,
        "vfr"@,
        "-q:v"@,
        "2"@,
        spec_joined(staging_dir, spec_extract_pattern(idx)),
        "-hide_banner"@,
        "-loglevel"@,
        "warning"@,
    ]
}

/// Arguments for sampling one source video into the staging directory at
/// the given interval.  ExternalSample demands `interval >= 1`: a zero
/// interval is a validation error, reported before any process is spawned,
/// and the only input this function rejects.
pub fn external_extract_args(
    video_path: &str,
    video_index: usize,
    staging_dir: &str,
    interval: usize,
) -> (r: Result<Vec<String>, ProcessError>)
    ensures
        r is Err <==> interval == 0,
        r matches Err(e) ==> e is ValidationError,
        r matches Ok(args) ==> path_views(args@) == spec_external_extract_args(
            video_path@,
            video_index as nat,
            staging_dir@,
            interval as nat,
        ),
{
    if interval == 0 {
        return Err(ProcessError::ValidationError(
            String::from_str("frame_interval must be greater than 0 for external extraction."),
        ));
    }
    let mut filter = String::new();
    filter.append("select=not(mod(n\\,");
    let k = u64_to_string(interval as u64);
    filter.append(k.as_str());
    filter.append("))");
    proof {
        assert(filter@ =~= spec_select_filter(interval as nat));
    }
    let mut pattern = String::new();
    pattern.append(staging_dir);
    let dl = staging_dir.unicode_len();
    if dl > 0 && !(staging_dir.get_char(dl - 1) == '/') {
        pattern.append("/");
    }
    pattern.append("video");
    let ix = u64_to_string(video_index as u64);
    pattern.append(ix.as_str());
    pattern.append("_frame%06d.jpg");
    proof {
        assert(pattern@ =~= spec_joined(staging_dir@, spec_extract_pattern(video_index as nat)));
    }
    let mut args: Vec<String> = Vec::new();
    args.push(String::from_str("-i"));
    args.push(String::from_str(video_path));
    args.push(String::from_str("-vf"));
    args.push(filter);
    args.push(String::from_str("-vsync"));
    args.push(String::from_str("vfr"));
    args.push(String::from_str("-q:v"));
    args.push(String::from_str("2"));
    args.push(pattern);
    args.push(String::from_str("-hide_banner"));
    args.push(String::from_str("-loglevel"));
    args.push(String::from_str("warning"));
    proof {
        assert(path_views(args@) =~= spec_external_extract_args(
            video_path@,
            video_index as nat,
            staging_dir@,
            interval as nat,
        ));
    }
    Ok(args)
}

/// The argument list of the concatenation invocation: concat the ordered
/// list into an H.264 / yuv420p MP4 at the given frame rate.
pub open spec fn spec_concat_args(
    list_path: Seq<char>,
    fps: int,
    out_path: Seq<char>,
) -> Seq<Seq<char>> {
    seq![
        "-y"@,
        "-f"@,
        "concat"@,
        "-safe"@,
        "0"@,
        "-i"@,
        list_path,
        "-r"@,
        int_digits(fps),
        "-c:v"@,
        "libx264"@,
        "-pix_fmt"@,
        "yuv420p"@,
        out_path,
        "-hide_banner"@,
        "-loglevel"@,
        "warning"@,
    ]
}

/// Arguments for concatenating the staged frames listed in `list_path`
/// into the output video at `fps` frames per second.
pub fn concat_args(list_path: &str, fps: i32, output_path: &str) -> (r: Vec<String>)
    ensures
        path_views(r@) == spec_concat_args(list_path@, fps as int, output_path@),
{
    let mut args: Vec<String> = Vec::new();
    args.push(String::from_str("-y"));
    args.push(String::from_str("-f"));
    args.push(String::from_str("concat"));
    args.push(String::from_str("-safe"));
    args.push(String::from_str("0"));
    args.push(String::from_str("-i"));
    args.push(String::from_str(list_path));
    args.push(String::from_str("-r"));
    args.push(i64_to_string(fps as i64));
    args.push(String::from_str("-c:v"));
    args.push(String::from_str("libx264"));
    args.push(String::from_str("-pix_fmt"));
    args.push(String::from_str("yuv420p"));
    args.push(String::from_str(output_path));
    args.push(String::from_str("-hide_banner"));
    args.push(String::from_str("-loglevel"));
    args.push(String::from_str("warning"));
    proof {
        assert(path_views(args@) =~= spec_concat_args(list_path@, fps as int, output_path@));
    }
    args
}

/// `s` with every backslash turned into a forward slash.
pub open spec fn fwd_slashes(s: Seq<char>) -> Seq<char> {
    s.map_values(|c: char| if c == '\\' { '/' } else { c })
}

/// Append `p`, backslashes turned into forward slashes, to `s`.
fn append_with_forward_slashes(s: &mut String, p: &str)
    ensures
        final(s)@ == old(s)@ + fwd_slashes(p@),
{
    let len = p.unicode_len();
    let mut a: usize = 0;
    let mut i: usize = 0;
    while i < len
        invariant
            len == p@.len(),
            0 <= a <= i <= len,
            s@ == old(s)@ + fwd_slashes(p@.take(a as int)),
            forall|j: int| a <= j < i ==> p@[j] != '\\',
        decreases len - i,
    {
        if p.get_char(i) == '\\' {
            let run = p.substring_char(a, i);
            s.append(run);
            s.append("/");
            proof {
                reveal_strlit("/");
                assert(s@ =~= old(s)@ + fwd_slashes(p@.take(i + 1)));
            }
            a = i + 1;
        }
        i = i + 1;
    }
    let tail = p.substring_char(a, len);
    s.append(tail);
    proof {
        assert(p@.take(len as int) =~= p@);
        assert(s@ =~= old(s)@ + fwd_slashes(p@));
    }
}

/// One line of the concat list file: `file '<path>'`, newline-terminated,
/// the path written with forward slashes.
pub open spec fn spec_list_line(p: Seq<char>) -> Seq<char> {
    "file '"@ + fwd_slashes(p) + "'\n"@
}

/// The whole concat list file: one line per staged frame, in the order
/// given.
pub open spec fn spec_concat_list(paths: Seq<Seq<char>>) -> Seq<char>
    decreases paths.len(),
{
    if paths.len() == 0 {
        Seq::empty()
    } else {
        spec_concat_list(paths.drop_last()) + spec_list_line(paths.last())
    }
}

/// Render the concat list file for the given ordered frame paths.
pub fn concat_list_content(paths: &Vec<String>) -> (r: String)
    ensures
        r@ == spec_concat_list(path_views(paths@)),
{
    let mut s = String::new();
    let mut i: usize = 0;
    proof {
        assert(path_views(paths@.take(0)) =~= Seq::<Seq<char>>::empty());
        assert(s@ =~= spec_concat_list(path_views(paths@.take(0))));
    }
    while i < paths.len()
        invariant
            0 <= i <= paths@.len(),
            s@ == spec_concat_list(path_views(paths@.take(i as int))),
        decreases paths@.len() - i,
    {
        let ghost prev = path_views(paths@.take(i as int));
        s.append("file '");
        append_with_forward_slashes(&mut s, paths[i].as_str());
        s.append("'\n");
        i = i + 1;
        proof {
            assert(path_views(paths@.take(i as int)) =~= prev.push(paths@[i - 1]@));
            assert(prev.push(paths@[i - 1]@).drop_last() =~= prev);
            assert(s@ =~= spec_concat_list(path_views(paths@.take(i as int))));
        }
    }
    proof {
        assert(paths@.take(paths@.len() as int) =~= paths@);
    }
    s
}

/// Whether a staged file name carries a `jpg` extension, compared without
/// regard to ASCII case.
pub open spec fn spec_is_jpg_name(s: Seq<char>) -> bool {
    match ext_of(s) {
        Some(e) => e.len() == 3 && (e[0] == 'j' || e[0] == 'J') && (e[1] == 'p' || e[1] == 'P')
            && (e[2] == 'g' || e[2] == 'G'),
        None => false,
    }
}

/// Decide whether one staged file is a frame image.
pub fn is_jpg_name(name: &str) -> (r: bool)
    ensures
        r == spec_is_jpg_name(name@),
{
    let len = name.unicode_len();
    let dot = crate::scanner::last_dot_pos(name, len);
    if dot == 0 {
        return false;
    }
    if len - dot != 4 {
        return false;
    }
    let c0 = name.get_char(dot + 1);
    let c1 = name.get_char(dot + 2);
    let c2 = name.get_char(dot + 3);
    proof {
        assert(name@.skip(dot + 1).len() == 3);
        assert(name@.skip(dot + 1)[0] == name@[dot + 1]);
        assert(name@.skip(dot + 1)[1] == name@[dot + 2]);
        assert(name@.skip(dot + 1)[2] == name@[dot + 3]);
    }
    (c0 == 'j' || c0 == 'J') && (c1 == 'p' || c1 == 'P') && (c2 == 'g' || c2 == 'G')
}

/// The staged frame images among one staging directory's entries, in
/// listing order.
pub open spec fn spec_jpg_list(names: Seq<Seq<char>>) -> Seq<Seq<char>>
    decreases names.len(),
{
    if names.len() == 0 {
        Seq::empty()
    } else {
        let rest = spec_jpg_list(names.drop_last());
        if spec_is_jpg_name(names.last()) {
            rest.push(names.last())
        } else {
            rest
        }
    }
}

/// Keep the frame images of a staging directory listing.
pub fn select_jpg_frames(names: &Vec<String>) -> (r: Vec<String>)
    ensures
        path_views(r@) == spec_jpg_list(path_views(names@)),
{
    let mut out: Vec<String> = Vec::new();
    let mut i: usize = 0;
    proof {
        assert(path_views(names@.take(0)) =~= Seq::<Seq<char>>::empty());
        assert(path_views(out@) =~= spec_jpg_list(path_views(names@.take(0))));
    }
    while i < names.len()
        invariant
            0 <= i <= names@.len(),
            path_views(out@) == spec_jpg_list(path_views(names@.take(i as int))),
        decreases names@.len() - i,
    {
        let ghost prev = path_views(names@.take(i as int));
        if is_jpg_name(names[i].as_str()) {
            out.push(names[i].clone());
        }
        i = i + 1;
        proof {
            assert(path_views(names@.take(i as int)) =~= prev.push(names@[i - 1]@));
            assert(prev.push(names@[i - 1]@).drop_last() =~= prev);
            assert(path_views(out@) =~= spec_jpg_list(path_views(names@.take(i as int))));
        }
    }
    proof {
        assert(names@.take(names@.len() as int) =~= names@);
    }
    out
}

/// The name of the concat list file placed inside a staging directory.
pub fn concat_list_file_name() -> (r: String)
    ensures
        r@ == "ffmpeg_list.txt"@,
{
    String::from_str("ffmpeg_list.txt")
}

} // verus!
