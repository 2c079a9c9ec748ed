//! Path strings as ordered sequences of segments.
//!
//! A path enters the system as text. Splitting it on `/` and dropping the
//! empty and `.` pieces yields the segment sequence that the filesystem
//! model is keyed by; two paths are in an ancestor relationship exactly
//! when one segment sequence is a prefix of the other. The component and
//! join operations mirror the host platform's path rules: a leading `/`
//! becomes a root component, a leading `.` is kept as a marker, and
//! joining an absolute piece onto an accumulated path replaces it.
use vstd::prelude::*;
use vstd::string::*;

use crate::either::Either;

verus! {

/// A path as a sequence of segments, each a sequence of characters.
pub type PathSeq = Seq<Seq<char>>;

/// The pieces of `s` between `/` separators, kept verbatim: empty pieces
/// included, so the result always has at least one element.
pub open spec fn raw_split(s: Seq<char>) -> Seq<Seq<char>>
    decreases s.len(),
{
    if s.len() == 0 {
        seq![Seq::<char>::empty()]
    } else {
        let r = raw_split(s.drop_last());
        if s.last() == '/' {
            r.push(Seq::<char>::empty())
        } else {
            r.update(r.len() - 1, r.last().push(s.last()))
        }
    }
}

/// The pieces of `raw` that the keep predicate accepts, in order.
pub open spec fn kept(raw: Seq<Seq<char>>, keep: spec_fn(Seq<char>) -> bool) -> Seq<Seq<char>>
    decreases raw.len(),
{
    if raw.len() == 0 {
        Seq::empty()
    } else {
        let rest = kept(raw.drop_last(), keep);
        if keep(raw.last()) {
            rest.push(raw.last())
        } else {
            rest
        }
    }
}

/// A piece that names a real segment: not empty and not `.`.
pub open spec fn keep_segment(seg: Seq<char>) -> bool {
    seg.len() > 0 && seg != seq!['.']
}

/// The normalized segment sequence of a path string: its pieces without
/// the empty and `.` ones. This is the form the filesystem model is keyed
/// by; leading or repeated separators and `.` pieces do not matter.
pub open spec fn norm_segments(s: Seq<char>) -> PathSeq {
    kept(raw_split(s), |seg: Seq<char>| keep_segment(seg))
}

/// The first piece of `raw` that is not empty, if any.
pub open spec fn first_nonempty(raw: Seq<Seq<char>>) -> Option<Seq<char>>
    decreases raw.len(),
{
    if raw.len() == 0 {
        None
    } else if raw.first().len() > 0 {
        Some(raw.first())
    } else {
        first_nonempty(raw.drop_first())
    }
}

/// Whether the path is relative and its first named piece is `.`, so that
/// its component list starts with a current-directory marker.
pub open spec fn starts_cur_dir(s: Seq<char>) -> bool {
    &&& !(s.len() > 0 && s[0] == '/')
    &&& first_nonempty(raw_split(s)) == Some(seq!['.'])
}

/// The components of a path string as the host platform reports them:
/// a leading `/` becomes a root component, a leading `.` on a relative
/// path is kept, every other empty or `.` piece is dropped.
pub open spec fn std_components(s: Seq<char>) -> PathSeq {
    if s.len() > 0 && s[0] == '/' {
        seq![seq!['/']] + norm_segments(s)
    } else if starts_cur_dir(s) {
        seq![seq!['.']] + norm_segments(s)
    } else {
        norm_segments(s)
    }
}

/// One step of native path joining: an absolute part replaces what was
/// accumulated, anything else is appended behind a separator.
pub open spec fn push_native(acc: Seq<char>, part: Seq<char>) -> Seq<char> {
    if part.len() > 0 && part[0] == '/' {
        part
    } else if acc.len() == 0 {
        part
    } else if acc.last() == '/' {
        acc + part
    } else {
        acc + seq!['/'] + part
    }
}

/// Native joining of a list of path parts, left to right.
pub open spec fn join_native(parts: Seq<Seq<char>>) -> Seq<char>
    decreases parts.len(),
{
    if parts.len() == 0 {
        Seq::empty()
    } else {
        push_native(join_native(parts.drop_last()), parts.last())
    }
}

/// Splits `s` on `/` into its raw pieces, empty ones included.
fn split_raw(s: &str) -> (r: Vec<String>)
    ensures
        r.deep_view() == raw_split(s@),
        r@.len() >= 1,
{
    let n = s.unicode_len();
    let mut parts: Vec<String> = Vec::new();
    let mut seg_start: usize = 0;
    let mut i: usize = 0;
    proof {
        assert(s@.take(0) =~= Seq::<char>::empty());
        assert(parts.deep_view().push(s@.subrange(0, 0)) =~~= raw_split(s@.take(0)));
    }
    while i < n
        invariant
            seg_start <= i <= n,
            n == s@.len(),
            parts.deep_view().push(s@.subrange(seg_start as int, i as int)) == raw_split(
                s@.take(i as int),
            ),
        decreases n - i,
    {
        let ghost prev_parts = parts.deep_view();
        let ghost prev_start = seg_start as int;
        let c = s.get_char(i);
        if c == '/' {
            let seg = String::from_str(s.substring_char(seg_start, i));
            parts.push(seg);
            seg_start = i + 1;
        }
        i = i + 1;
        proof {
            let si = s@.take(i as int);
            assert(si.drop_last() =~= s@.take(i - 1));
            assert(si.last() == s@[i - 1]);
            if c == '/' {
                assert(parts.deep_view() =~= prev_parts.push(
                    s@.subrange(prev_start, i - 1),
                ));
                assert(s@.subrange(seg_start as int, i as int) =~= Seq::<char>::empty());
                assert(parts.deep_view().push(s@.subrange(seg_start as int, i as int))
                    =~~= raw_split(si));
            } else {
                assert(s@.subrange(prev_start, i - 1).push(s@[i - 1]) =~= s@.subrange(
                    prev_start,
                    i as int,
                ));
                let prev_whole = prev_parts.push(s@.subrange(prev_start, i - 1));
                assert(raw_split(si) == prev_whole.update(
                    prev_whole.len() - 1,
                    prev_whole.last().push(si.last()),
                ));
                assert(parts.deep_view().push(s@.subrange(seg_start as int, i as int))
                    =~= raw_split(si));
            }
        }
    }
    let last_seg = String::from_str(s.substring_char(seg_start, n));
    parts.push(last_seg);
    proof {
        assert(s@.take(n as int) =~= s@);
        assert(s@.subrange(seg_start as int, n as int) == last_seg@);
        assert(parts.deep_view() =~= raw_split(s@));
    }
    parts
}

/// Whether this piece names a real segment (not empty, not `.`).
fn keep_segment_exec(seg: &String) -> (b: bool)
    ensures
        b == keep_segment(seg@),
{
    proof {
        reveal_strlit(".");
    }
    let dot = String::from_str(".");
    if seg.unicode_len() == 0 {
        false
    } else if seg.eq(&dot) {
        proof {
            assert(seg@ =~= seq!['.']);
        }
        false
    } else {
        proof {
            assert(seq!['.'] =~= dot@);
        }
        true
    }
}

/// Splits a path string into its normalized segments: the pieces between
/// separators, without the empty and `.` ones.
pub fn parse_segments(s: &str) -> (r: Vec<String>)
    ensures
        r.deep_view() == norm_segments(s@),
{
    let raw = split_raw(s);
    let ghost keep = |seg: Seq<char>| keep_segment(seg);
    let mut out: Vec<String> = Vec::new();
    let mut j: usize = 0;
    while j < raw.len()
        invariant
            j <= raw.len(),
            raw.deep_view() == raw_split(s@),
            out.deep_view() == kept(raw.deep_view().take(j as int), keep),
            keep == (|seg: Seq<char>| keep_segment(seg)),
        decreases raw.len() - j,
    {
        let ghost prev_out = out.deep_view();
        let part = &raw[j];
        if keep_segment_exec(part) {
            out.push(part.clone());
        }
        j = j + 1;
        proof {
            let tj = raw.deep_view().take(j as int);
            assert(tj.drop_last() =~= raw.deep_view().take(j - 1));
            assert(tj.last() == raw.deep_view()[j - 1]);
            assert(out.deep_view() =~= kept(tj, keep));
        }
    }
    proof {
        assert(raw.deep_view().take(raw.deep_view().len() as int) =~= raw.deep_view());
    }
    out
}

/// Whether the string starts with `/`.
fn starts_with_slash(s: &str) -> (b: bool)
    ensures
        b == (s@.len() > 0 && s@[0] == '/'),
{
    if s.unicode_len() == 0 {
        false
    } else {
        s.get_char(0) == '/'
    }
}

/// Whether the first non-empty raw piece of the parsed string is `.`.
fn first_nonempty_is_dot(raw: &Vec<String>) -> (b: bool)
    ensures
        b == (first_nonempty(raw.deep_view()) == Some(seq!['.'])),
{
    proof {
        reveal_strlit(".");
    }
    let dot = String::from_str(".");
    let mut j: usize = 0;
    proof {
        assert(raw.deep_view().skip(0) =~= raw.deep_view());
    }
    while j < raw.len()
        invariant
            j <= raw.len(),
            dot@ =~= seq!['.'],
            first_nonempty(raw.deep_view()) == first_nonempty(raw.deep_view().skip(j as int)),
        decreases raw.len() - j,
    {
        let part = &raw[j];
        if part.unicode_len() > 0 {
            proof {
                let sk = raw.deep_view().skip(j as int);
                assert(sk.first() == raw.deep_view()[j as int]);
            }
            return part.eq(&dot);
        }
        j = j + 1;
        proof {
            let sk = raw.deep_view().skip(j - 1);
            assert(sk.first() == raw.deep_view()[j - 1]);
            assert(sk.drop_first() =~= raw.deep_view().skip(j as int));
        }
    }
    proof {
        assert(raw.deep_view().skip(raw.deep_view().len() as int) =~= Seq::<Seq<char>>::empty());
    }
    false
}

/// Splits a path string into its platform components: a leading `/`
/// becomes a `/` component, a leading `.` of a relative path is kept,
/// and the normalized segments follow.
pub fn components_of(s: &str) -> (r: Vec<String>)
    ensures
        r.deep_view() == std_components(s@),
{
    proof {
        reveal_strlit("/");
        reveal_strlit(".");
    }
    let raw = split_raw(s);
    let mut out: Vec<String> = Vec::new();
    if starts_with_slash(s) {
        out.push(String::from_str("/"));
        proof {
            assert("/"@ =~= seq!['/']);
            assert(out.deep_view() =~~= seq![seq!['/']]);
        }
    } else if first_nonempty_is_dot(&raw) {
        out.push(String::from_str("."));
        proof {
            assert("."@ =~= seq!['.']);
            assert(out.deep_view() =~~= seq![seq!['.']]);
        }
    }
    let ghost marker = out.deep_view();
    let segs = parse_segments(s);
    let mut k: usize = 0;
    while k < segs.len()
        invariant
            k <= segs.len(),
            segs.deep_view() == norm_segments(s@),
            out.deep_view() == marker + segs.deep_view().take(k as int),
        decreases segs.len() - k,
    {
        let ghost prev = out.deep_view();
        out.push(segs[k].clone());
        k = k + 1;
        proof {
            assert(out.deep_view() =~= prev.push(segs.deep_view()[k - 1]));
            assert(out.deep_view() =~= marker + segs.deep_view().take(k as int));
        }
    }
    proof {
        assert(segs.deep_view().take(segs.deep_view().len() as int) =~= segs.deep_view());
        assert(out.deep_view() =~= std_components(s@));
    }
    out
}

/// Joins path parts the way the host platform does: parts are separated
/// by `/`, and an absolute part replaces everything before it.
pub fn join_parts(parts: &Vec<String>) -> (r: String)
    ensures
        r@ == join_native(parts.deep_view()),
{
    proof {
        reveal_strlit("/");
    }
    let mut acc = String::new();
    let mut j: usize = 0;
    while j < parts.len()
        invariant
            j <= parts.len(),
            acc@ == join_native(parts.deep_view().take(j as int)),
        decreases parts.len() - j,
    {
        let ghost prev_acc = acc@;
        let part = &parts[j];
        if starts_with_slash(part.as_str()) {
            acc = part.clone();
        } else if acc.unicode_len() == 0 {
            acc = part.clone();
            proof {
                assert(prev_acc + part@ =~= part@);
            }
        } else {
            let acc_str = acc.as_str();
            let last = acc_str.get_char(acc.unicode_len() - 1);
            if last != '/' {
                acc.append("/");
                proof {
                    reveal_strlit("/");
                    assert("/"@ =~= seq!['/']);
                    assert(acc@ =~= prev_acc + seq!['/']);
                }
            }
            acc.append(part.as_str());
        }
        j = j + 1;
        proof {
            let tj = parts.deep_view().take(j as int);
            assert(tj.drop_last() =~= parts.deep_view().take(j - 1));
            assert(tj.last() == parts.deep_view()[j - 1]);
            assert(acc@ =~= push_native(join_native(tj.drop_last()), tj.last()));
        }
    }
    proof {
        assert(parts.deep_view().take(parts.deep_view().len() as int) =~= parts.deep_view());
    }
    acc
}

/// Splits a path string into its platform components, reported as plain
/// strings.
pub fn path_parse_relative_path(path: String) -> (r: Result<Vec<String>, String>)
    ensures
        r matches Ok(v) && v.deep_view() == std_components(path@),
{
    Ok(components_of(path.as_str()))
}

/// Joins a list of path parts into one native path string.
pub fn path_to_native_path(path: Vec<String>) -> (r: Result<String, String>)
    ensures
        r matches Ok(s) && s@ == join_native(path.deep_view()),
{
    Ok(join_parts(&path))
}

/// Whether the segments of `a` are a prefix of the segments of `b`,
/// compared element by element.
pub fn segs_is_prefix(a: &Vec<String>, b: &Vec<String>) -> (r: bool)
    ensures
        r == a.deep_view().is_prefix_of(b.deep_view()),
{
    if a.len() > b.len() {
        proof {
            assert(!a.deep_view().is_prefix_of(b.deep_view()));
        }
        return false;
    }
    let mut j: usize = 0;
    while j < a.len()
        invariant
            j <= a.len() <= b.len(),
            a@.len() == a.deep_view().len(),
            b@.len() == b.deep_view().len(),
            forall|i: int| 0 <= i < j ==> a.deep_view()[i] == b.deep_view()[i],
        decreases a.len() - j,
    {
        if !a[j].eq(&b[j]) {
            proof {
                assert(a.deep_view()[j as int] != b.deep_view().subrange(
                    0,
                    a.deep_view().len() as int,
                )[j as int]);
            }
            return false;
        }
        j = j + 1;
    }
    proof {
        assert(a.deep_view() =~= b.deep_view().subrange(0, a.deep_view().len() as int));
    }
    true
}

/// Whether two segment lists are the same path.
pub fn segs_eq(a: &Vec<String>, b: &Vec<String>) -> (r: bool)
    ensures
        r == (a.deep_view() == b.deep_view()),
{
    if a.len() != b.len() {
        proof {
            assert(a.deep_view().len() != b.deep_view().len());
        }
        return false;
    }
    let mut j: usize = 0;
    while j < a.len()
        invariant
            j <= a.len(),
            a@.len() == b@.len(),
            a@.len() == a.deep_view().len(),
            b@.len() == b.deep_view().len(),
            forall|i: int| 0 <= i < j ==> a.deep_view()[i] == b.deep_view()[i],
        decreases a.len() - j,
    {
        if !a[j].eq(&b[j]) {
            proof {
                assert(a.deep_view()[j as int] != b.deep_view()[j as int]);
            }
            return false;
        }
        j = j + 1;
    }
    proof {
        assert(a.deep_view() =~= b.deep_view());
    }
    true
}

/// A copy of the first `k` segments of `p`.
pub fn prefix_of_len(p: &Vec<String>, k: usize) -> (r: Vec<String>)
    requires
        k <= p@.len(),
    ensures
        r.deep_view() == p.deep_view().take(k as int),
{
    let mut out: Vec<String> = Vec::new();
    let mut j: usize = 0;
    while j < k
        invariant
            j <= k <= p@.len(),
            p@.len() == p.deep_view().len(),
            out.deep_view() == p.deep_view().take(j as int),
        decreases k - j,
    {
        let ghost prev = out.deep_view();
        out.push(p[j].clone());
        j = j + 1;
        proof {
            assert(out.deep_view() =~= prev.push(p.deep_view()[j - 1]));
            assert(out.deep_view() =~= p.deep_view().take(j as int));
        }
    }
    out
}

/// A copy of a whole segment list.
pub fn clone_path(p: &Vec<String>) -> (r: Vec<String>)
    ensures
        r.deep_view() == p.deep_view(),
{
    let r = prefix_of_len(p, p.len());
    proof {
        assert(p.deep_view().take(p.deep_view().len() as int) =~= p.deep_view());
    }
    r
}

/// Removes a leading ancestor from a path, reporting the remainder as a
/// relative path below `.`; when the ancestor is the whole path the
/// remainder is empty and the result is the bare `./`. Reports a left
/// value when `ancestor` is not an ancestor of `to`.
pub fn path_remove_ancestor(ancestor: String, to: String) -> (r: Result<
    Either<String, String>,
    String,
>)
    ensures
        r matches Ok(e) && (match e {
            Either::Right(rel) => {
                &&& std_components(ancestor@).is_prefix_of(std_components(to@))
                &&& ({
                    let rest = std_components(to@).skip(std_components(ancestor@).len() as int);
                    if rest.len() == 0 {
                        rel@ == seq!['.', '/']
                    } else {
                        rel@ == join_native(seq![seq!['.']] + rest)
                    }
                })
            },
            Either::Left(msg) => {
                &&& !std_components(ancestor@).is_prefix_of(std_components(to@))
                &&& msg@ == "Could not strip ancestor directory"@
            },
        }),
{
    proof {
        reveal_strlit(".");
    }
    let anc = components_of(ancestor.as_str());
    let full = components_of(to.as_str());
    if !segs_is_prefix(&anc, &full) {
        return Ok(Either::Left(String::from_str("Could not strip ancestor directory")));
    }
    let mut parts: Vec<String> = Vec::new();
    parts.push(String::from_str("."));
    proof {
        assert("."@ =~= seq!['.']);
        assert(parts.deep_view() =~~= seq![seq!['.']]);
    }
    let ghost dot_marker = parts.deep_view();
    let mut j: usize = anc.len();
    while j < full.len()
        invariant
            anc@.len() <= j <= full@.len(),
            full@.len() == full.deep_view().len(),
            anc@.len() == anc.deep_view().len(),
            parts.deep_view() == dot_marker + full.deep_view().subrange(
                anc.deep_view().len() as int,
                j as int,
            ),
            dot_marker == seq![seq!['.']],
        decreases full.len() - j,
    {
        let ghost prev = parts.deep_view();
        parts.push(full[j].clone());
        j = j + 1;
        proof {
            assert(parts.deep_view() =~= prev.push(full.deep_view()[j - 1]));
            assert(parts.deep_view() =~= dot_marker + full.deep_view().subrange(
                anc.deep_view().len() as int,
                j as int,
            ));
        }
    }
    proof {
        assert(full.deep_view().subrange(anc.deep_view().len() as int, full.deep_view().len() as int)
            =~= full.deep_view().skip(anc.deep_view().len() as int));
    }
    if anc.len() == full.len() {
        // empty remainder: joining one empty part below `.` yields `./`
        let ghost before_push = parts.deep_view();
        parts.push(String::new());
        let joined = join_parts(&parts);
        proof {
            assert(parts.deep_view() =~= before_push.push(Seq::<char>::empty()));
            assert(before_push[0] == seq!['.']);
            assert(parts.deep_view() =~~= seq![seq!['.'], Seq::<char>::empty()]);
            let two = seq![seq!['.'], Seq::<char>::empty()];
            assert(two.drop_last() =~= seq![seq!['.']]);
            assert(two.last() =~= Seq::<char>::empty());
            let one = seq![seq!['.']];
            assert(one.drop_last() =~= Seq::<Seq<char>>::empty());
            assert(join_native(Seq::<Seq<char>>::empty()) =~= Seq::<char>::empty());
            assert(join_native(one) =~= seq!['.']);
            assert(join_native(two) =~= push_native(seq!['.'], Seq::<char>::empty()));
            assert(join_native(two) =~= seq!['.'] + seq!['/'] + Seq::<char>::empty());
            assert(joined@ =~= seq!['.', '/']);
        }
        return Ok(Either::Right(joined));
    }
    Ok(Either::Right(join_parts(&parts)))
}

} // verus!
