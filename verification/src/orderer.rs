//! Deterministic ordering of staged frame files.
//!
//! A staged frame file is named `video<N>_frame<M>.jpg`.  The writers
//! zero-pad `N` to 3 and `M` to 7 digits, but the parser accepts any digit
//! run.  Ordering parses `(N, M)` back out of each name and sorts by that
//! pair; names that fail to parse sort after names that parse, and two
//! unparsable names are tied, with no order promised between them.

use vstd::prelude::*;
use vstd::string::*;
use vstd::seq_lib::*;
use vstd::multiset::*;
use crate::text::{
    dec_digits_padded, is_dec_digit, lemma_str_to_nat_padded, parse_dec, spec_parse_dec,
    u64_to_padded_string,
};

verus! {

/// The characters of `"video"`.
pub open spec fn video_prefix() -> Seq<char> {
    seq!['v', 'i', 'd', 'e', 'o']
}

/// The characters of `"_frame"`.
pub open spec fn frame_infix() -> Seq<char> {
    seq!['_', 'f', 'r', 'a', 'm', 'e']
}

/// First index at or after `i` holding a non-digit, or the length of `s`.
pub open spec fn digit_run_end(s: Seq<char>, i: int) -> int
    decreases s.len() - i when 0 <= i <= s.len()
{
    if i >= s.len() {
        i
    } else if is_dec_digit(s[i]) {
        digit_run_end(s, i + 1)
    } else {
        i
    }
}

pub proof fn lemma_digit_run_end_bounds(s: Seq<char>, i: int)
    requires
        0 <= i <= s.len(),
    ensures
        i <= digit_run_end(s, i) <= s.len(),
        forall|j: int| i <= j < digit_run_end(s, i) ==> is_dec_digit(#[trigger] s[j]),
        digit_run_end(s, i) < s.len() ==> !is_dec_digit(s[digit_run_end(s, i)]),
    decreases s.len() - i,
{
    if i < s.len() && is_dec_digit(s[i]) {
        lemma_digit_run_end_bounds(s, i + 1);
    }
}

/// A run of digits over `[i, k)` that stops at `k` pins the run end down.
pub proof fn lemma_digit_run_end_exact(s: Seq<char>, i: int, k: int)
    requires
        0 <= i <= k <= s.len(),
        forall|j: int| i <= j < k ==> is_dec_digit(#[trigger] s[j]),
        k < s.len() ==> !is_dec_digit(s[k]),
    ensures
        digit_run_end(s, i) == k,
    decreases k - i,
{
    if i < k {
        lemma_digit_run_end_exact(s, i + 1, k);
    }
}

/// `s` has the exact shape `video<digits>_frame<digits>`.
pub open spec fn frame_stem_shape(s: Seq<char>) -> bool {
    &&& s.len() >= 5
    &&& s.take(5) == video_prefix()
    &&& digit_run_end(s, 5) > 5
    &&& digit_run_end(s, 5) + 6 <= s.len()
    &&& s.subrange(digit_run_end(s, 5), digit_run_end(s, 5) + 6) == frame_infix()
    &&& digit_run_end(s, digit_run_end(s, 5) + 6) == s.len()
    &&& s.len() > digit_run_end(s, 5) + 6
}

/// What parsing a staged frame stem yields: the two numbers, when the shape
/// is exact and both fit in `usize`.
pub open spec fn spec_parse_frame_stem(s: Seq<char>) -> Option<(nat, nat)> {
    if frame_stem_shape(s) {
        let e1 = digit_run_end(s, 5);
        match (spec_parse_dec(s.subrange(5, e1)), spec_parse_dec(
            s.subrange(e1 + 6, s.len() as int),
        )) {
            (Some(v), Some(f)) => Some((v, f)),
            _ => None,
        }
    } else {
        None
    }
}

/// First non-digit index at or after `from`.
fn scan_digit_run(s: &str, len: usize, from: usize) -> (e: usize)
    requires
        len == s@.len(),
        from <= len,
    ensures
        e == digit_run_end(s@, from as int),
{
    let mut i: usize = from;
    while i < len
        invariant
            len == s@.len(),
            from <= i <= len,
            digit_run_end(s@, from as int) == digit_run_end(s@, i as int),
        decreases len - i,
    {
        let c = s.get_char(i);
        if !(c >= '0' && c <= '9') {
            return i;
        }
        i = i + 1;
    }
    i
}

/// Parse a staged frame stem `video<N>_frame<M>` into `(N, M)`.
///
/// Returns `None` when the name does not have exactly that shape or either
/// number does not fit in `usize`.
pub fn parse_frame_filename(name: &str) -> (r: Option<(usize, usize)>)
    ensures
        r matches Some(p) ==> spec_parse_frame_stem(name@) == Some((p.0 as nat, p.1 as nat)),
        r is None ==> spec_parse_frame_stem(name@) is None,
{
    let len = name.unicode_len();
    if len < 5 {
        return None;
    }
    if !(name.get_char(0) == 'v' && name.get_char(1) == 'i' && name.get_char(2) == 'd'
        && name.get_char(3) == 'e' && name.get_char(4) == 'o') {
        proof {
            assert(name@.take(5) != video_prefix());
        }
        return None;
    }
    proof {
        assert(name@.take(5) =~= video_prefix());
    }
    let e1 = scan_digit_run(name, len, 5);
    if e1 == 5 {
        return None;
    }
    proof {
        lemma_digit_run_end_bounds(name@, 5);
    }
    if len - e1 < 6 {
        return None;
    }
    if !(name.get_char(e1) == '_' && name.get_char(e1 + 1) == 'f' && name.get_char(e1 + 2) == 'r'
        && name.get_char(e1 + 3) == 'a' && name.get_char(e1 + 4) == 'm'
        && name.get_char(e1 + 5) == 'e') {
        proof {
            assert(name@.subrange(e1 as int, e1 + 6) != frame_infix());
        }
        return None;
    }
    proof {
        assert(name@.subrange(e1 as int, e1 + 6) =~= frame_infix());
    }
    let e2 = scan_digit_run(name, len, e1 + 6);
    if e2 == e1 + 6 {
        proof {
            lemma_digit_run_end_bounds(name@, e1 + 6);
        }
        return None;
    }
    if e2 != len {
        proof {
            lemma_digit_run_end_bounds(name@, e1 + 6);
        }
        return None;
    }
    let v_str = name.substring_char(5, e1);
    let f_str = name.substring_char(e1 + 6, len);
    let v = parse_dec(v_str);
    let f = parse_dec(f_str);
    match (v, f) {
        (Some(v), Some(f)) => Some((v, f)),
        _ => None,
    }
}

/// The characters of `".jpg"`.
pub open spec fn jpg_suffix() -> Seq<char> {
    seq!['.', 'j', 'p', 'g']
}

/// The name a native extraction gives the staged frame `(video_index,
/// frame_number)`: `video<N>_frame<M>.jpg`, zero-padded to 3 and 7 digits so
/// that lexicographic order of the names equals numeric order of the pairs.
pub open spec fn spec_staged_frame_name(vi: nat, fi: nat) -> Seq<char> {
    video_prefix() + dec_digits_padded(vi, 3) + frame_infix() + dec_digits_padded(fi, 7)
        + jpg_suffix()
}

/// Build the staged frame file name for `(video_index, frame_number)`.
pub fn staged_frame_name(video_index: usize, frame_number: usize) -> (r: String)
    ensures
        r@ == spec_staged_frame_name(video_index as nat, frame_number as nat),
{
    let mut s = String::new();
    proof {
        reveal_strlit("video");
        reveal_strlit("_frame");
        reveal_strlit(".jpg");
    }
    s.append("video");
    let a = u64_to_padded_string(video_index as u64, 3);
    s.append(a.as_str());
    s.append("_frame");
    let b = u64_to_padded_string(frame_number as u64, 7);
    s.append(b.as_str());
    s.append(".jpg");
    proof {
        assert("video"@ =~= video_prefix());
        assert("_frame"@ =~= frame_infix());
        assert(".jpg"@ =~= jpg_suffix());
        assert(s@ =~= spec_staged_frame_name(video_index as nat, frame_number as nat));
    }
    s
}

/// A staged frame file name is exact: parsing recovers the very pair of
/// indices the name was built from, stem, padding and all.
pub proof fn lemma_staged_name_round_trip(vi: nat, fi: nat)
    requires
        vi <= usize::MAX,
        fi <= usize::MAX,
    ensures
        frame_key(spec_staged_frame_name(vi, fi)) == Some((vi, fi)),
{
    let p = video_prefix();
    let a = dec_digits_padded(vi, 3);
    let m = frame_infix();
    let b = dec_digits_padded(fi, 7);
    let name = spec_staged_frame_name(vi, fi);
    lemma_str_to_nat_padded(vi, 3);
    lemma_str_to_nat_padded(fi, 7);
    let la = a.len() as int;
    let lb = b.len() as int;
    let sl = 5 + la + 6 + lb;
    let ll = sl + 4;
    assert(name.len() == ll);
    assert(name[ll - 1] == 'g');
    assert(name[ll - 2] == 'p');
    assert(name[ll - 3] == 'j');
    assert(name[ll - 4] == '.');
    assert(last_dot_upto(name, ll) == last_dot_upto(name, ll - 1));
    assert(last_dot_upto(name, ll - 1) == last_dot_upto(name, ll - 2));
    assert(last_dot_upto(name, ll - 2) == last_dot_upto(name, ll - 3));
    assert(last_dot_upto(name, ll - 3) == ll - 4);
    let stem = name.take(sl);
    assert(stem_of(name) == stem);
    assert(stem =~= p + a + m + b);
    assert(stem.take(5) =~= p);
    assert forall|t: int| 5 <= t < 5 + la implies is_dec_digit(#[trigger] stem[t]) by {
        assert(stem[t] == a[t - 5]);
    }
    assert(stem[5 + la] == m[0]);
    assert(!is_dec_digit('_'));
    lemma_digit_run_end_exact(stem, 5, 5 + la);
    assert(stem.subrange(5 + la, 5 + la + 6) =~= m);
    assert forall|t: int| 5 + la + 6 <= t < sl implies is_dec_digit(#[trigger] stem[t]) by {
        assert(stem[t] == b[t - (5 + la + 6)]);
    }
    lemma_digit_run_end_exact(stem, 5 + la + 6, sl);
    assert(frame_stem_shape(stem));
    assert(stem.subrange(5, 5 + la) =~= a);
    assert(stem.subrange(5 + la + 6, sl) =~= b);
    assert(spec_parse_dec(a) == Some(vi));
    assert(spec_parse_dec(b) == Some(fi));
}

/// Index of the last `'.'` of `s` strictly before `j` and not at index 0,
/// or `-1` when there is none.
pub open spec fn last_dot_upto(s: Seq<char>, j: int) -> int
    decreases j,
{
    if j <= 1 {
        -1
    } else if s[j - 1] == '.' {
        j - 1
    } else {
        last_dot_upto(s, j - 1)
    }
}

/// The file stem of a plain file name: everything before the last `'.'`,
/// or the whole name when there is no `'.'` past the first character.
pub open spec fn stem_of(s: Seq<char>) -> Seq<char> {
    if last_dot_upto(s, s.len() as int) >= 1 {
        s.take(last_dot_upto(s, s.len() as int))
    } else {
        s
    }
}

/// The file stem of `name`.
pub fn file_stem<'a>(name: &'a str) -> (r: &'a str)
    ensures
        r@ == stem_of(name@),
{
    let len = name.unicode_len();
    if len <= 1 {
        return name;
    }
    let mut dot: usize = 0;
    let mut i: usize = 1;
    while i < len
        invariant
            len == name@.len(),
            1 <= i <= len,
            if dot == 0 {
                last_dot_upto(name@, i as int) == -1
            } else {
                1 <= dot < i && last_dot_upto(name@, i as int) == dot
            },
        decreases len - i,
    {
        if name.get_char(i) == '.' {
            dot = i;
        }
        i = i + 1;
    }
    if dot >= 1 {
        name.substring_char(0, dot)
    } else {
        name
    }
}

/// The sort key recovered from a staged frame file name.
pub open spec fn frame_key(name: Seq<char>) -> Option<(nat, nat)> {
    spec_parse_frame_stem(stem_of(name))
}

/// The order imposed on staged frame files: parsed keys ascending by
/// `(video_index, frame_index)`, parsed before unparsable, two unparsable
/// names tied.
pub open spec fn frame_le(a: Seq<char>, b: Seq<char>) -> bool {
    match (frame_key(a), frame_key(b)) {
        (Some(ka), Some(kb)) => ka.0 < kb.0 || (ka.0 == kb.0 && ka.1 <= kb.1),
        (Some(_), None) => true,
        (None, Some(_)) => false,
        (None, None) => true,
    }
}

/// Any two names are ordered one way or the other.
pub proof fn lemma_frame_le_total(a: Seq<char>, b: Seq<char>)
    ensures
        frame_le(a, b) || frame_le(b, a),
{
}

/// The order is transitive.
pub proof fn lemma_frame_le_trans(a: Seq<char>, b: Seq<char>, c: Seq<char>)
    requires
        frame_le(a, b),
        frame_le(b, c),
    ensures
        frame_le(a, c),
{
}

/// Recover the `(video_index, frame_index)` key from a staged frame file
/// name, taking the stem first.
pub fn staged_frame_key(name: &str) -> (r: Option<(usize, usize)>)
    ensures
        r matches Some(p) ==> frame_key(name@) == Some((p.0 as nat, p.1 as nat)),
        r is None ==> frame_key(name@) is None,
{
    let stem = file_stem(name);
    parse_frame_filename(stem)
}

/// Whether `a` sorts at or before `b` among staged frame files.
pub fn frame_le_exec(a: &str, b: &str) -> (r: bool)
    ensures
        r == frame_le(a@, b@),
{
    match (staged_frame_key(a), staged_frame_key(b)) {
        (Some(ka), Some(kb)) => ka.0 < kb.0 || (ka.0 == kb.0 && ka.1 <= kb.1),
        (Some(_), None) => true,
        (None, Some(_)) => false,
        (None, None) => true,
    }
}

/// The names stand in `frame_le` order.
pub open spec fn frames_sorted(s: Seq<String>) -> bool {
    forall|i: int, j: int|
        0 <= i < j < s.len() ==> frame_le(#[trigger] s[i]@, #[trigger] s[j]@)
}

/// Ordering law for staged frames: in a listing sorted by `frame_le`, every
/// frame of a lower-indexed source video precedes every frame of a
/// higher-indexed one, and within one source video frame indices strictly
/// increase (frame keys are unique within a directory job, so two distinct
/// staged files never share a key).
pub proof fn lemma_frame_order(
    names: Seq<String>,
    i: int,
    j: int,
    ki: (nat, nat),
    kj: (nat, nat),
)
    requires
        frames_sorted(names),
        0 <= i < j < names.len(),
        frame_key(names[i]@) == Some(ki),
        frame_key(names[j]@) == Some(kj),
        ki != kj,
    ensures
        ki.0 < kj.0 || (ki.0 == kj.0 && ki.1 < kj.1),
{
    assert(frame_le(names[i]@, names[j]@));
}

/// Sort staged frame file names into `frame_le` order.  The result holds
/// exactly the given names.
pub fn sort_staged_frames(v: &Vec<String>) -> (r: Vec<String>)
    ensures
        r@.to_multiset() == v@.to_multiset(),
        r@.len() == v@.len(),
        frames_sorted(r@),
{
    broadcast use vstd::seq_lib::group_to_multiset_ensures;

    let mut rest: Vec<String> = Vec::new();
    let mut i: usize = 0;
    while i < v.len()
        invariant
            0 <= i <= v@.len(),
            rest@ == v@.take(i as int),
        decreases v@.len() - i,
    {
        rest.push(v[i].clone());
        i = i + 1;
        proof {
            assert(rest@ =~= v@.take(i as int));
        }
    }
    proof {
        assert(rest@ =~= v@);
    }
    let ghost total = v@.to_multiset();
    let mut out: Vec<String> = Vec::new();
    proof {
        assert(out@.to_multiset().add(rest@.to_multiset()) =~= total);
    }
    while rest.len() > 0
        invariant
            out@.to_multiset().add(rest@.to_multiset()) == total,
            out@.len() + rest@.len() == v@.len(),
            frames_sorted(out@),
            forall|p: int, q: int|
                0 <= p < out@.len() && 0 <= q < rest@.len() ==> frame_le(
                    #[trigger] out@[p]@,
                    #[trigger] rest@[q]@,
                ),
        decreases rest.len(),
    {
        let mut m: usize = 0;
        let mut k: usize = 1;
        while k < rest.len()
            invariant
                0 <= m < k <= rest@.len(),
                forall|t: int| 0 <= t < k ==> frame_le(rest@[m as int]@, #[trigger] rest@[t]@),
            decreases rest@.len() - k,
        {
            if !frame_le_exec(rest[m].as_str(), rest[k].as_str()) {
                proof {
                    lemma_frame_le_total(rest@[m as int]@, rest@[k as int]@);
                    assert forall|t: int| 0 <= t < k + 1 implies frame_le(
                        rest@[k as int]@,
                        #[trigger] rest@[t]@,
                    ) by {
                        if t < k {
                            lemma_frame_le_trans(rest@[k as int]@, rest@[m as int]@, rest@[t]@);
                        } else {
                            lemma_frame_le_total(rest@[k as int]@, rest@[k as int]@);
                        }
                    }
                }
                m = k;
            } else {
                proof {
                    lemma_frame_le_total(rest@[k as int]@, rest@[k as int]@);
                }
            }
            k = k + 1;
        }
        let ghost old_out = out@;
        let ghost old_rest = rest@;
        let x = rest.remove(m);
        out.push(x);
        proof {
            broadcast use vstd::multiset::group_multiset_axioms;

            old_out.to_multiset_ensures();
            old_rest.to_multiset_ensures();
            let e = old_rest[m as int];
            assert(old_rest.contains(e));
            assert(old_rest.to_multiset().count(e) > 0);
            assert(out@ == old_out.push(e));
            assert(old_out.push(e).to_multiset() =~= old_out.to_multiset().insert(e));
            assert(rest@ == old_rest.remove(m as int));
            assert(old_rest.remove(m as int).to_multiset()
                == old_rest.to_multiset().remove(e));
            assert(out@.to_multiset().add(rest@.to_multiset()) =~= total);
            assert forall|p: int, q: int|
                0 <= p < out@.len() && 0 <= q < rest@.len() implies frame_le(
                #[trigger] out@[p]@,
                #[trigger] rest@[q]@,
            ) by {
                let qq = if q < m { q } else { q + 1 };
                assert(rest@[q] == old_rest[qq]);
                if p < old_out.len() {
                    assert(out@[p] == old_out[p]);
                } else {
                    assert(out@[p] == old_rest[m as int]);
                }
            }
            assert forall|p: int, q: int|
                0 <= p < q < out@.len() implies frame_le(
                #[trigger] out@[p]@,
                #[trigger] out@[q]@,
            ) by {
                if q < old_out.len() {
                } else {
                    assert(out@[q] == old_rest[m as int]);
                    if p < old_out.len() {
                        assert(frame_le(old_out[p]@, old_rest[m as int]@));
                    }
                }
            }
        }
    }
    proof {
        assert(rest@.to_multiset() =~= Multiset::<String>::empty());
        assert(out@.to_multiset().add(Multiset::<String>::empty()) =~= out@.to_multiset());
        assert(out@.to_multiset().len() == total.len());
    }
    out
}

} // verus!
