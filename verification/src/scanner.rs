//! Directory scanning: which entries of an input directory count as source
//! videos, how paths are normalised, and how a directory's tag and output
//! path are derived.
//!
//! The driver lists each configured directory and hands the plain file
//! names and paths in; everything decided about them happens here.

use vstd::prelude::*;
use vstd::string::*;
use vstd::seq_lib::*;
use vstd::multiset::*;
use crate::orderer::last_dot_upto;
use crate::text::{lex_le, lemma_lex_le_total, lemma_lex_le_trans, str_equal, str_lex_le};
use crate::registry::path_views;

verus! {

/// The extension of a plain file name: what follows the last `'.'`, if that
/// dot exists and is not the leading character.
pub open spec fn ext_of(s: Seq<char>) -> Option<Seq<char>> {
    if last_dot_upto(s, s.len() as int) >= 1 {
        Some(s.skip(last_dot_upto(s, s.len() as int) + 1))
    } else {
        None
    }
}

/// Whether a file name carries one of the known video extensions.
pub open spec fn spec_is_video_name(s: Seq<char>) -> bool {
    ||| ext_of(s) == Some("mp4"@)
    ||| ext_of(s) == Some("mov"@)
    ||| ext_of(s) == Some("avi"@)
    ||| ext_of(s) == Some("mkv"@)
}

/// Position of the last `'.'` of `name` past index 0, or 0 when none.
pub fn last_dot_pos(name: &str, len: usize) -> (dot: usize)
    requires
        len == name@.len(),
    ensures
        dot == 0 ==> last_dot_upto(name@, len as int) == -1,
        dot >= 1 ==> dot < len && last_dot_upto(name@, len as int) == dot,
{
    if len <= 1 {
        return 0;
    }
    let mut dot: usize = 0;
    let mut i: usize = 1;
    while i < len
        invariant
            len == name@.len(),
            1 <= i <= len,
            if dot == 0 {
                last_dot_upto(name@, i as int) == -1
            } else {
                1 <= dot < i && last_dot_upto(name@, i as int) == dot
            },
        decreases len - i,
    {
        if name.get_char(i) == '.' {
            dot = i;
        }
        i = i + 1;
    }
    dot
}

/// Whether `name` is a video file name the scanner keeps.
pub fn is_video_file_name(name: &str) -> (r: bool)
    ensures
        r == spec_is_video_name(name@),
{
    let len = name.unicode_len();
    let dot = last_dot_pos(name, len);
    if dot == 0 {
        return false;
    }
    let ext = name.substring_char(dot + 1, len);
    proof {
        assert(ext@ == name@.skip(dot + 1));
    }
    str_equal(ext, "mp4") || str_equal(ext, "mov") || str_equal(ext, "avi")
        || str_equal(ext, "mkv")
}

/// What the scanner's path normalisation yields.  Relies on
/// `path_clean::clean`: a purely lexical normalisation (collapse repeated
/// separators, drop `.` elements, resolve `..` against preceding elements),
/// a function of the characters alone.
pub uninterp spec fn cleaned_of(s: Seq<char>) -> Seq<char>;

/// Normalise one path.  Relies on `path_clean::clean`; its source returns
/// `"."` for an empty result, so the result is never empty.
#[verifier::external_body]
fn clean_path(p: &str) -> (r: String)
    ensures
        r@ == cleaned_of(p@),
        r@.len() >= 1,
{
    path_clean::clean(p).to_string_lossy().into_owned()
}

/// The video list the scanner derives from one directory listing: the
/// entries with a known video extension, in listing order, each normalised.
pub open spec fn spec_video_list(names: Seq<Seq<char>>) -> Seq<Seq<char>>
    decreases names.len(),
{
    if names.len() == 0 {
        Seq::empty()
    } else {
        let rest = spec_video_list(names.drop_last());
        if spec_is_video_name(names.last()) {
            rest.push(cleaned_of(names.last()))
        } else {
            rest
        }
    }
}

/// Keep the video files of one directory listing and normalise their
/// paths.  `names` holds the directory's entries as plain file paths.
pub fn build_video_list(names: &Vec<String>) -> (r: Vec<String>)
    ensures
        path_views(r@) == spec_video_list(path_views(names@)),
{
    let mut out: Vec<String> = Vec::new();
    let mut i: usize = 0;
    proof {
        assert(path_views(names@.take(0)) =~= Seq::<Seq<char>>::empty());
        assert(path_views(out@) =~= spec_video_list(path_views(names@.take(0))));
    }
    while i < names.len()
        invariant
            0 <= i <= names@.len(),
            path_views(out@) == spec_video_list(path_views(names@.take(i as int))),
        decreases names@.len() - i,
    {
        let ghost prev = path_views(names@.take(i as int));
        if is_video_file_name(names[i].as_str()) {
            let cleaned = clean_path(names[i].as_str());
            out.push(cleaned);
        }
        i = i + 1;
        proof {
            assert(path_views(names@.take(i as int)) =~= prev.push(names@[i - 1]@));
            assert(prev.push(names@[i - 1]@).drop_last() =~= prev);
            assert(prev.push(names@[i - 1]@).last() == names@[i - 1]@);
            assert(path_views(out@) =~= spec_video_list(path_views(names@.take(i as int))));
        }
    }
    proof {
        assert(names@.take(names@.len() as int) =~= names@);
    }
    out
}

/// The paths stand in lexicographic order.
pub open spec fn paths_sorted(s: Seq<String>) -> bool {
    forall|i: int, j: int| 0 <= i < j < s.len() ==> lex_le(#[trigger] s[i]@, #[trigger] s[j]@)
}

/// Sort a directory's video list lexicographically, so that extraction
/// processes sources in a deterministic order.  The result holds exactly
/// the given paths.
pub fn sort_video_list(v: &Vec<String>) -> (r: Vec<String>)
    ensures
        r@.to_multiset() == v@.to_multiset(),
        r@.len() == v@.len(),
        paths_sorted(r@),
{
    let mut rest: Vec<String> = Vec::new();
    let mut i: usize = 0;
    while i < v.len()
        invariant
            0 <= i <= v@.len(),
            rest@ == v@.take(i as int),
        decreases v@.len() - i,
    {
        rest.push(v[i].clone());
        i = i + 1;
        proof {
            assert(rest@ =~= v@.take(i as int));
        }
    }
    proof {
        assert(rest@ =~= v@);
    }
    broadcast use vstd::seq_lib::group_to_multiset_ensures;

    let ghost total = v@.to_multiset();
    let mut out: Vec<String> = Vec::new();
    proof {
        broadcast use vstd::multiset::group_multiset_axioms;

        out@.to_multiset_ensures();
        assert(out@.to_multiset().add(rest@.to_multiset()) =~= total);
    }
    while rest.len() > 0
        invariant
            out@.to_multiset().add(rest@.to_multiset()) == total,
            out@.len() + rest@.len() == v@.len(),
            paths_sorted(out@),
            forall|p: int, q: int|
                0 <= p < out@.len() && 0 <= q < rest@.len() ==> lex_le(
                    #[trigger] out@[p]@,
                    #[trigger] rest@[q]@,
                ),
        decreases rest.len(),
    {
        let mut m: usize = 0;
        let mut k: usize = 1;
        proof {
            lemma_lex_le_total(rest@[0]@, rest@[0]@);
        }
        while k < rest.len()
            invariant
                0 <= m < k <= rest@.len(),
                forall|t: int| 0 <= t < k ==> lex_le(rest@[m as int]@, #[trigger] rest@[t]@),
            decreases rest@.len() - k,
        {
            if !str_lex_le(rest[m].as_str(), rest[k].as_str()) {
                proof {
                    lemma_lex_le_total(rest@[m as int]@, rest@[k as int]@);
                    assert forall|t: int| 0 <= t < k + 1 implies lex_le(
                        rest@[k as int]@,
                        #[trigger] rest@[t]@,
                    ) by {
                        if t < k {
                            lemma_lex_le_trans(rest@[k as int]@, rest@[m as int]@, rest@[t]@);
                        } else {
                            lemma_lex_le_total(rest@[k as int]@, rest@[k as int]@);
                        }
                    }
                }
                m = k;
            } else {
                proof {
                    lemma_lex_le_total(rest@[k as int]@, rest@[k as int]@);
                }
            }
            k = k + 1;
        }
        let ghost old_out = out@;
        let ghost old_rest = rest@;
        let x = rest.remove(m);
        out.push(x);
        proof {
            broadcast use vstd::multiset::group_multiset_axioms;

            old_out.to_multiset_ensures();
            old_rest.to_multiset_ensures();
            let e = old_rest[m as int];
            assert(old_rest.contains(e));
            assert(old_rest.to_multiset().count(e) > 0);
            assert(out@ == old_out.push(e));
            assert(old_out.push(e).to_multiset() =~= old_out.to_multiset().insert(e));
            assert(rest@ == old_rest.remove(m as int));
            assert(old_rest.remove(m as int).to_multiset() == old_rest.to_multiset().remove(e));
            assert(out@.to_multiset().add(rest@.to_multiset()) =~= total);
            assert forall|p: int, q: int|
                0 <= p < out@.len() && 0 <= q < rest@.len() implies lex_le(
                #[trigger] out@[p]@,
                #[trigger] rest@[q]@,
            ) by {
                let qq = if q < m { q } else { q + 1 };
                assert(rest@[q] == old_rest[qq]);
                if p < old_out.len() {
                    assert(out@[p] == old_out[p]);
                } else {
                    assert(out@[p] == old_rest[m as int]);
                }
            }
            assert forall|p: int, q: int|
                0 <= p < q < out@.len() implies lex_le(
                #[trigger] out@[p]@,
                #[trigger] out@[q]@,
            ) by {
                if q < old_out.len() {
                } else {
                    assert(out@[q] == old_rest[m as int]);
                    if p < old_out.len() {
                        assert(lex_le(old_out[p]@, old_rest[m as int]@));
                    }
                }
            }
        }
    }
    proof {
        broadcast use vstd::multiset::group_multiset_axioms;

        rest@.to_multiset_ensures();
        out@.to_multiset_ensures();
        assert(rest@.to_multiset() =~= Multiset::<String>::empty());
        assert(out@.to_multiset().add(Multiset::<String>::empty()) =~= out@.to_multiset());
        assert(out@.to_multiset().len() == total.len());
    }
    out
}


/// `s` with any run of trailing `'/'` removed.
pub open spec fn strip_trailing_slashes(s: Seq<char>) -> Seq<char>
    decreases s.len(),
{
    if s.len() > 0 && s.last() == '/' {
        strip_trailing_slashes(s.drop_last())
    } else {
        s
    }
}

/// Index of the last `'/'` of `s` strictly before `j`, or `-1`.
pub open spec fn last_slash_upto(s: Seq<char>, j: int) -> int
    decreases j,
{
    if j <= 0 {
        -1
    } else if s[j - 1] == '/' {
        j - 1
    } else {
        last_slash_upto(s, j - 1)
    }
}

/// The tag of an input directory: its final path segment, or `"default"`
/// when the path has no usable final segment.
pub open spec fn spec_directory_tag(s: Seq<char>) -> Seq<char> {
    let t = strip_trailing_slashes(s);
    let seg = t.skip(last_slash_upto(t, t.len() as int) + 1);
    if seg.len() == 0 || seg == "."@ || seg == ".."@ {
        "default"@
    } else {
        seg
    }
}

/// Derive the tag of an input directory from its path.
pub fn directory_tag(path: &str) -> (r: String)
    ensures
        r@ == spec_directory_tag(path@),
{
    let len = path.unicode_len();
    let mut end: usize = len;
    proof {
        assert(path@.take(len as int) =~= path@);
    }
    while end > 0 && path.get_char(end - 1) == '/'
        invariant
            len == path@.len(),
            0 <= end <= len,
            strip_trailing_slashes(path@) == strip_trailing_slashes(path@.take(end as int)),
        decreases end,
    {
        proof {
            assert(path@.take(end as int).last() == path@[end - 1]);
            assert(path@.take(end as int).drop_last() =~= path@.take(end - 1));
        }
        end = end - 1;
    }
    let ghost t = strip_trailing_slashes(path@);
    proof {
        if end > 0 {
            assert(path@.take(end as int).last() == path@[end - 1]);
        }
        assert(t == path@.take(end as int));
    }
    let mut start: usize = 0;
    let mut i: usize = 0;
    while i < end
        invariant
            len == path@.len(),
            end <= len,
            t == path@.take(end as int),
            0 <= start <= i <= end,
            if start == 0 {
                last_slash_upto(t, i as int) == -1
            } else {
                1 <= start && start <= i && t[start - 1] == '/'
                    && last_slash_upto(t, i as int) == start - 1
            },
        decreases end - i,
    {
        if path.get_char(i) == '/' {
            start = i + 1;
        }
        i = i + 1;
    }
    let seg = path.substring_char(start, end);
    proof {
        assert(seg@ =~= t.skip(last_slash_upto(t, end as int) + 1));
    }
    if seg.is_empty() || str_equal(seg, ".") || str_equal(seg, "..") {
        String::from_str("default")
    } else {
        String::from_str(seg)
    }
}

/// The output file name for one directory job: `<prefix>_<tag>.mp4`.
pub open spec fn spec_output_file_name(prefix: Seq<char>, tag: Seq<char>) -> Seq<char> {
    prefix + "_"@ + tag + ".mp4"@
}

/// `name` placed under `dir`, with exactly one separator between them.
pub open spec fn spec_joined(dir: Seq<char>, name: Seq<char>) -> Seq<char> {
    if dir.len() == 0 {
        name
    } else if dir.last() == '/' {
        dir + name
    } else {
        dir + "/"@ + name
    }
}

/// The output path of one directory job, a pure function of the output
/// directory, the configured prefix and the directory's tag.
pub open spec fn spec_output_video_path(dir: Seq<char>, prefix: Seq<char>, tag: Seq<char>)
    -> Seq<char> {
    spec_joined(dir, spec_output_file_name(prefix, tag))
}

/// Build the output path for one directory job.
pub fn output_video_path(dir: &str, prefix: &str, tag: &str) -> (r: String)
    ensures
        r@ == spec_output_video_path(dir@, prefix@, tag@),
{
    let mut s = String::new();
    let dl = dir.unicode_len();
    s.append(dir);
    if dl > 0 && !(dir.get_char(dl - 1) == '/') {
        s.append("/");
    }
    s.append(prefix);
    s.append("_");
    s.append(tag);
    s.append(".mp4");
    proof {
        assert(s@ =~= spec_output_video_path(dir@, prefix@, tag@));
    }
    s
}

/// Concurrent directory jobs never write to the same output path: with one
/// output directory and one prefix, the output path is an injective
/// function of the directory tag, which is unique per input directory.
pub proof fn lemma_output_paths_distinct(
    dir: Seq<char>,
    prefix: Seq<char>,
    tag_a: Seq<char>,
    tag_b: Seq<char>,
)
    requires
        tag_a != tag_b,
    ensures
        spec_output_video_path(dir, prefix, tag_a) != spec_output_video_path(dir, prefix, tag_b),
{
    reveal_strlit("_");
    reveal_strlit("/");
    reveal_strlit(".mp4");
    let pa = spec_output_video_path(dir, prefix, tag_a);
    let pb = spec_output_video_path(dir, prefix, tag_b);
    let d = if dir.len() == 0 {
        Seq::<char>::empty()
    } else if dir.last() == '/' {
        dir
    } else {
        dir + "/"@
    };
    assert(pa =~= d + prefix + "_"@ + tag_a + ".mp4"@);
    assert(pb =~= d + prefix + "_"@ + tag_b + ".mp4"@);
    if pa == pb {
        let base = d.len() + prefix.len() + 1;
        assert(pa.len() == base + tag_a.len() + 4);
        assert(pb.len() == base + tag_b.len() + 4);
        assert(tag_a.len() == tag_b.len());
        assert(tag_a =~= tag_b) by {
            assert forall|k: int| 0 <= k < tag_a.len() implies tag_a[k] == tag_b[k] by {
                assert(pa[base + k] == tag_a[k]);
                assert(pb[base + k] == tag_b[k]);
            }
        }
    }
}

} // verus!
