//! Address strings for local and remote locations.
//!
//! A location is a single string in one of three syntaxes: remote storage
//! (`name:path/to/item`), POSIX absolute (`/a/b/c`), or drive letter
//! (`C:\a\b`). The syntax is re-derived from the string's shape on every
//! operation; no separate tag is stored.

use vstd::prelude::*;
use vstd::string::*;

use crate::text::{
    first_index_of, last_index_of, lemma_first_index_of_props, lemma_last_index_of_props,
    spec_ends_with, str_contains_char, str_ends_with_char, str_find_char, str_rfind_char,
};

verus! {

// ---------------------------------------------------------------------------
// Scheme classification
// ---------------------------------------------------------------------------

pub open spec fn is_ascii_letter(c: char) -> bool {
    (('a' as u32) <= (c as u32) && (c as u32) <= ('z' as u32)) || (('A' as u32) <= (c as u32)
        && (c as u32) <= ('Z' as u32))
}

/// The drive-letter shape: `X:\` followed by anything.
pub open spec fn is_drive(s: Seq<char>) -> bool {
    s.len() >= 3 && is_ascii_letter(s[0]) && s[1] == ':' && s[2] == '\\'
}

/// The POSIX-absolute shape: a leading `/` and no drive prefix.
pub open spec fn is_posix(s: Seq<char>) -> bool {
    s.len() > 0 && s[0] == '/'
}

/// Exactly the POSIX root `/`.
pub open spec fn is_posix_root(s: Seq<char>) -> bool {
    s.len() == 1 && s[0] == '/'
}

/// Exactly the drive root `X:\`.
pub open spec fn is_drive_root(s: Seq<char>) -> bool {
    is_drive(s) && s.len() == 3
}

/// A bare remote root `name:`: ends in `:` and contains no `/`.
pub open spec fn is_remote_root(s: Seq<char>) -> bool {
    spec_ends_with(s, ':') && !s.contains('/')
}

/// An address every scheme treats as its own top: `name:`, `/`, or `X:\`.
pub open spec fn is_scheme_root(s: Seq<char>) -> bool {
    spec_ends_with(s, ':') || is_posix_root(s) || is_drive_root(s)
}

// ---------------------------------------------------------------------------
// Result shapes of the string operations
// ---------------------------------------------------------------------------

/// The address holds at least one of the three markers `filename` splits
/// at; addresses without any have no filename.
pub open spec fn has_filename_marker(s: Seq<char>) -> bool {
    s.contains('\\') || s.contains('/') || s.contains(':')
}

/// Everything after the last occurrence of `c` (all of `s` when absent).
pub open spec fn after_last(s: Seq<char>, c: char) -> Seq<char> {
    s.subrange(last_index_of(s, c) + 1, s.len() as int)
}

/// What `filename` returns: the text after the last `\`, else after the
/// last `/`, else after the last `:`.
pub open spec fn spec_filename(s: Seq<char>) -> Seq<char> {
    if s.contains('\\') {
        after_last(s, '\\')
    } else if s.contains('/') {
        after_last(s, '/')
    } else {
        after_last(s, ':')
    }
}

/// What `join` returns: `tail` appended behind a separator matching the
/// receiver's scheme, unless the receiver already ends in a separator or in
/// the remote root marker `:`.
pub open spec fn spec_join(s: Seq<char>, tail: Seq<char>) -> Seq<char> {
    if is_drive(s) {
        if spec_ends_with(s, '\\') || spec_ends_with(s, ':') {
            s + tail
        } else {
            s + seq!['\\'] + tail
        }
    } else {
        if spec_ends_with(s, '/') || spec_ends_with(s, ':') {
            s + tail
        } else {
            s + seq!['/'] + tail
        }
    }
}

// ---------------------------------------------------------------------------
// Segments: a path body split at separators, empty runs dropped
// ---------------------------------------------------------------------------

pub open spec fn is_sep(c: char, s1: char, s2: char) -> bool {
    c == s1 || c == s2
}

/// Left fold of the splitter: the completed segments of `s` and the still
/// growing final segment.
pub open spec fn split_state(s: Seq<char>, s1: char, s2: char) -> (Seq<Seq<char>>, Seq<char>)
    decreases s.len(),
{
    if s.len() == 0 {
        (Seq::<Seq<char>>::empty(), Seq::<char>::empty())
    } else {
        let prev = split_state(s.drop_last(), s1, s2);
        let c = s[s.len() - 1];
        if is_sep(c, s1, s2) {
            if prev.1.len() > 0 {
                (prev.0.push(prev.1), Seq::<char>::empty())
            } else {
                prev
            }
        } else {
            (prev.0, prev.1.push(c))
        }
    }
}

/// The maximal nonempty separator-free runs of `s`, in order.
pub open spec fn segments(s: Seq<char>, s1: char, s2: char) -> Seq<Seq<char>> {
    let st = split_state(s, s1, s2);
    if st.1.len() > 0 {
        st.0.push(st.1)
    } else {
        st.0
    }
}

/// The segments glued back together with `sep` between them.
pub open spec fn join_segments(parts: Seq<Seq<char>>, sep: char) -> Seq<char>
    decreases parts.len(),
{
    if parts.len() == 0 {
        Seq::<char>::empty()
    } else if parts.len() == 1 {
        parts[0]
    } else {
        join_segments(parts.drop_last(), sep) + seq![sep] + parts.last()
    }
}

// ---------------------------------------------------------------------------
// Parent resolution, per scheme
// ---------------------------------------------------------------------------

pub open spec fn drive_parent(s: Seq<char>) -> Seq<char> {
    if s.len() == 3 {
        s
    } else {
        s.take(3) + join_segments(segments(s.skip(3), '\\', '\\').drop_last(), '\\')
    }
}

pub open spec fn posix_parent(s: Seq<char>) -> Seq<char> {
    if is_posix_root(s) {
        s
    } else {
        seq!['/'] + join_segments(segments(s, '/', '/').drop_last(), '/')
    }
}

pub open spec fn remote_parent(s: Seq<char>) -> Seq<char> {
    let parts = segments(s, ':', '/');
    parts[0] + seq![':'] + join_segments(parts.subrange(1, parts.len() - 1), '/')
}

/// What `resolve_to_parent` returns: anything ending in `:` is its own
/// parent; otherwise the last segment of the scheme's body is dropped and
/// the rest is reassembled in the scheme's own syntax.
pub open spec fn spec_parent(s: Seq<char>) -> Seq<char> {
    if spec_ends_with(s, ':') {
        s
    } else if is_drive(s) {
        drive_parent(s)
    } else if is_posix(s) {
        posix_parent(s)
    } else {
        remote_parent(s)
    }
}

/// The addresses on which parent resolution is defined: roots, and bodies
/// with enough segments to drop one (a remote body additionally keeps its
/// leading remote name).
pub open spec fn parent_defined(s: Seq<char>) -> bool {
    if spec_ends_with(s, ':') {
        true
    } else if is_drive(s) {
        s.len() == 3 || segments(s.skip(3), '\\', '\\').len() >= 1
    } else if is_posix(s) {
        is_posix_root(s) || segments(s, '/', '/').len() >= 1
    } else {
        segments(s, ':', '/').len() >= 2
    }
}

// ---------------------------------------------------------------------------
// Facts about splitting and joining
// ---------------------------------------------------------------------------

/// No character of `p` is one of the two separators.
pub open spec fn seg_free(p: Seq<char>, s1: char, s2: char) -> bool {
    forall|j: int| 0 <= j < p.len() ==> !is_sep(#[trigger] p[j], s1, s2)
}

/// Every listed segment is nonempty and separator-free.
pub open spec fn segs_wf(ps: Seq<Seq<char>>, s1: char, s2: char) -> bool {
    forall|k: int| 0 <= k < ps.len() ==> (#[trigger] ps[k]).len() > 0 && seg_free(ps[k], s1, s2)
}

proof fn lemma_split_state_wf(s: Seq<char>, s1: char, s2: char)
    ensures
        segs_wf(split_state(s, s1, s2).0, s1, s2),
        seg_free(split_state(s, s1, s2).1, s1, s2),
    decreases s.len(),
{
    if s.len() == 0 {
    } else {
        lemma_split_state_wf(s.drop_last(), s1, s2);
        let prev = split_state(s.drop_last(), s1, s2);
        if is_sep(s[s.len() - 1], s1, s2) && prev.1.len() > 0 {
            assert forall|k: int|
                0 <= k < prev.0.push(prev.1).len() implies (#[trigger] prev.0.push(
                prev.1,
            )[k]).len() > 0 && seg_free(prev.0.push(prev.1)[k], s1, s2) by {
                if k < prev.0.len() {
                    assert(prev.0.push(prev.1)[k] == prev.0[k]);
                }
            }
        }
    }
}

/// Splitting never invents characters: a character absent from `s` is
/// absent from every segment.
proof fn lemma_split_state_no_char(s: Seq<char>, s1: char, s2: char, c: char)
    requires
        !s.contains(c),
    ensures
        forall|k: int, j: int|
            0 <= k < split_state(s, s1, s2).0.len() && 0 <= j < split_state(s, s1, s2).0[k].len()
                ==> #[trigger] split_state(s, s1, s2).0[k][j] != c,
        forall|j: int|
            0 <= j < split_state(s, s1, s2).1.len() ==> #[trigger] split_state(s, s1, s2).1[j]
                != c,
    decreases s.len(),
{
    if s.len() == 0 {
    } else {
        assert(!s.drop_last().contains(c)) by {
            if s.drop_last().contains(c) {
                let w = choose|i: int|
                    0 <= i < s.drop_last().len() && s.drop_last()[i] == c;
                assert(s[w] == c);
            }
        }
        lemma_split_state_no_char(s.drop_last(), s1, s2, c);
        assert(s[s.len() - 1] != c) by {
            if s[s.len() - 1] == c {
                assert(s.contains(c));
            }
        }
        let prev = split_state(s.drop_last(), s1, s2);
        if is_sep(s[s.len() - 1], s1, s2) && prev.1.len() > 0 {
            assert forall|k: int, j: int|
                0 <= k < prev.0.push(prev.1).len() && 0 <= j < prev.0.push(prev.1)[k].len()
                    implies #[trigger] prev.0.push(prev.1)[k][j] != c by {
                if k < prev.0.len() {
                    assert(prev.0.push(prev.1)[k] == prev.0[k]);
                } else {
                    assert(prev.0.push(prev.1)[k] == prev.1);
                }
            }
        }
    }
}

/// A joined string contains only segment characters and the separator.
proof fn lemma_join_no_char(ps: Seq<Seq<char>>, sep: char, c: char)
    requires
        c != sep,
        forall|k: int, j: int|
            0 <= k < ps.len() && 0 <= j < ps[k].len() ==> #[trigger] ps[k][j] != c,
    ensures
        !join_segments(ps, sep).contains(c),
    decreases ps.len(),
{
    if ps.len() == 0 {
    } else if ps.len() == 1 {
        if join_segments(ps, sep).contains(c) {
            let w = choose|i: int|
                0 <= i < join_segments(ps, sep).len() && join_segments(ps, sep)[i] == c;
            assert(ps[0][w] == c);
        }
    } else {
        lemma_join_no_char(ps.drop_last(), sep, c);
        let jdl = join_segments(ps.drop_last(), sep);
        if join_segments(ps, sep).contains(c) {
            let w = choose|i: int|
                0 <= i < join_segments(ps, sep).len() && join_segments(ps, sep)[i] == c;
            if w < jdl.len() {
                assert(jdl[w] == c);
                assert(jdl.contains(c));
            } else if w > jdl.len() {
                assert(ps.last()[w - jdl.len() - 1] == c);
                assert(ps[ps.len() - 1][w - jdl.len() - 1] == c);
            }
        }
    }
}

/// Appending separator-free text only grows the trailing open segment.
proof fn lemma_split_append_free(t: Seq<char>, p: Seq<char>, s1: char, s2: char)
    requires
        seg_free(p, s1, s2),
    ensures
        split_state(t + p, s1, s2).0 == split_state(t, s1, s2).0,
        split_state(t + p, s1, s2).1 == split_state(t, s1, s2).1 + p,
    decreases p.len(),
{
    if p.len() == 0 {
        assert(t + p =~= t);
        assert(split_state(t, s1, s2).1 + p =~= split_state(t, s1, s2).1);
    } else {
        assert(seg_free(p.drop_last(), s1, s2)) by {
            assert forall|j: int|
                0 <= j < p.drop_last().len() implies !is_sep(
                #[trigger] p.drop_last()[j],
                s1,
                s2,
            ) by {
                assert(p.drop_last()[j] == p[j]);
            }
        }
        lemma_split_append_free(t, p.drop_last(), s1, s2);
        assert((t + p).drop_last() =~= t + p.drop_last());
        assert((t + p).last() == p[p.len() - 1]);
        assert(!is_sep(p[p.len() - 1], s1, s2));
        assert((split_state(t, s1, s2).1 + p.drop_last()).push(p[p.len() - 1]) =~= split_state(
            t,
            s1,
            s2,
        ).1 + p);
    }
}

/// A trailing separator closes the open segment.
proof fn lemma_split_push_sep(t: Seq<char>, c: char, s1: char, s2: char)
    requires
        is_sep(c, s1, s2),
    ensures
        split_state(t + seq![c], s1, s2).0 == segments(t, s1, s2),
        split_state(t + seq![c], s1, s2).1 == Seq::<char>::empty(),
{
    assert((t + seq![c]).drop_last() =~= t);
    assert((t + seq![c]).last() == c);
    let st = split_state(t, s1, s2);
    if st.1.len() > 0 {
    } else {
        assert(st.1 =~= Seq::<char>::empty());
    }
}

/// A separator-free string is one single open segment.
proof fn lemma_split_of_part(p: Seq<char>, s1: char, s2: char)
    requires
        seg_free(p, s1, s2),
    ensures
        split_state(p, s1, s2).0 == Seq::<Seq<char>>::empty(),
        split_state(p, s1, s2).1 == p,
{
    lemma_split_append_free(Seq::<char>::empty(), p, s1, s2);
    assert(Seq::<char>::empty() + p =~= p);
}

/// A leading separator changes nothing.
proof fn lemma_split_leading_sep(c: char, t: Seq<char>, s1: char, s2: char)
    requires
        is_sep(c, s1, s2),
    ensures
        split_state(seq![c] + t, s1, s2).0 == split_state(t, s1, s2).0,
        split_state(seq![c] + t, s1, s2).1 == split_state(t, s1, s2).1,
    decreases t.len(),
{
    if t.len() == 0 {
        assert(seq![c] + t =~= seq![c]);
        assert(seq![c].drop_last() =~= Seq::<char>::empty());
        assert(split_state(seq![c].drop_last(), s1, s2) == split_state(
            Seq::<char>::empty(),
            s1,
            s2,
        ));
        assert(split_state(Seq::<char>::empty(), s1, s2).0 == Seq::<Seq<char>>::empty());
        assert(split_state(Seq::<char>::empty(), s1, s2).1 == Seq::<char>::empty());
    } else {
        lemma_split_leading_sep(c, t.drop_last(), s1, s2);
        assert((seq![c] + t).drop_last() =~= seq![c] + t.drop_last());
        assert((seq![c] + t).last() == t.last());
    }
}

/// A nonempty separator-free head followed by a separator contributes one
/// leading segment.
proof fn lemma_split_prepend_part(part: Seq<char>, c: char, t: Seq<char>, s1: char, s2: char)
    requires
        part.len() > 0,
        seg_free(part, s1, s2),
        is_sep(c, s1, s2),
    ensures
        split_state(part + seq![c] + t, s1, s2).0 == seq![part] + split_state(t, s1, s2).0,
        split_state(part + seq![c] + t, s1, s2).1 == split_state(t, s1, s2).1,
    decreases t.len(),
{
    if t.len() == 0 {
        assert(part + seq![c] + t =~= part + seq![c]);
        lemma_split_push_sep(part, c, s1, s2);
        lemma_split_of_part(part, s1, s2);
        assert(segments(part, s1, s2) =~= seq![part]);
        assert(seq![part] + split_state(t, s1, s2).0 =~= seq![part]);
    } else {
        lemma_split_prepend_part(part, c, t.drop_last(), s1, s2);
        assert((part + seq![c] + t).drop_last() =~= part + seq![c] + t.drop_last());
        assert((part + seq![c] + t).last() == t.last());
        let prev = split_state(t.drop_last(), s1, s2);
        if is_sep(t.last(), s1, s2) && prev.1.len() > 0 {
            assert((seq![part] + prev.0).push(prev.1) =~= seq![part] + prev.0.push(prev.1));
        }
    }
}

/// Splitting undoes joining: well-formed segments survive a round trip
/// through `join_segments` intact.
proof fn lemma_segments_of_join(ps: Seq<Seq<char>>, sep: char, s1: char, s2: char)
    requires
        segs_wf(ps, s1, s2),
        is_sep(sep, s1, s2),
    ensures
        segments(join_segments(ps, sep), s1, s2) == ps,
        ps.len() >= 1 ==> split_state(join_segments(ps, sep), s1, s2).0 == ps.drop_last(),
        ps.len() >= 1 ==> split_state(join_segments(ps, sep), s1, s2).1 == ps.last(),
        ps.len() == 0 ==> split_state(join_segments(ps, sep), s1, s2).0 == Seq::<
            Seq<char>,
        >::empty(),
        ps.len() == 0 ==> split_state(join_segments(ps, sep), s1, s2).1 == Seq::<char>::empty(),
    decreases ps.len(),
{
    if ps.len() == 0 {
        assert(segments(join_segments(ps, sep), s1, s2) =~= ps);
    } else if ps.len() == 1 {
        lemma_split_of_part(ps[0], s1, s2);
        assert(ps.drop_last() =~= Seq::<Seq<char>>::empty());
        assert(Seq::<Seq<char>>::empty().push(ps[0]) =~= ps);
    } else {
        assert(segs_wf(ps.drop_last(), s1, s2)) by {
            assert forall|k: int|
                0 <= k < ps.drop_last().len() implies (#[trigger] ps.drop_last()[k]).len() > 0
                && seg_free(ps.drop_last()[k], s1, s2) by {
                assert(ps.drop_last()[k] == ps[k]);
            }
        }
        lemma_segments_of_join(ps.drop_last(), sep, s1, s2);
        let jdl = join_segments(ps.drop_last(), sep);
        lemma_split_push_sep(jdl, sep, s1, s2);
        lemma_split_append_free(jdl + seq![sep], ps.last(), s1, s2);
        assert(Seq::<char>::empty() + ps.last() =~= ps.last());
        assert(ps.drop_last().push(ps.last()) =~= ps);
    }
}

pub(crate) fn split_nonempty(s: &str, sep1: char, sep2: char) -> (parts: Vec<String>)
    ensures
        parts.deep_view() == segments(s@, sep1, sep2),
{
    let n = s.unicode_len();
    let mut parts: Vec<String> = Vec::new();
    let mut cur: String = String::new();
    let mut i: usize = 0;
    while i < n
        invariant
            i <= n,
            n == s@.len(),
            parts.deep_view() == split_state(s@.take(i as int), sep1, sep2).0,
            cur@ == split_state(s@.take(i as int), sep1, sep2).1,
        decreases n - i,
    {
        let c = s.get_char(i);
        proof {
            assert(s@.take(i + 1).drop_last() =~= s@.take(i as int));
            assert(s@.take(i + 1).last() == s@[i as int]);
        }
        if c == sep1 || c == sep2 {
            if !cur.as_str().is_empty() {
                let ghost old_parts = parts.deep_view();
                let ghost cur_view = cur@;
                parts.push(cur);
                cur = String::new();
                proof {
                    assert(parts.deep_view() =~= old_parts.push(cur_view));
                }
            }
        } else {
            cur.push(c);
        }
        i += 1;
    }
    proof {
        assert(s@.take(n as int) =~= s@);
    }
    if !cur.as_str().is_empty() {
        let ghost old_parts = parts.deep_view();
        let ghost cur_view = cur@;
        parts.push(cur);
        proof {
            assert(parts.deep_view() =~= old_parts.push(cur_view));
        }
    }
    parts
}

fn join_with(parts: &Vec<String>, sep: char) -> (r: String)
    ensures
        r@ == join_segments(parts.deep_view(), sep),
{
    let mut r = String::new();
    let mut i: usize = 0;
    while i < parts.len()
        invariant
            i <= parts@.len(),
            r@ == join_segments(parts.deep_view().take(i as int), sep),
        decreases parts@.len() - i,
    {
        let ghost dv = parts.deep_view();
        proof {
            assert(dv.take(i + 1).drop_last() =~= dv.take(i as int));
            assert(dv.take(i + 1).last() == dv[i as int]);
        }
        if i > 0 {
            r.push(sep);
            proof {
                assert(r@ =~= join_segments(dv.take(i as int), sep) + seq![sep]);
            }
        }
        r.append(parts[i].as_str());
        proof {
            if i == 0 {
                assert(r@ =~= dv.take(1)[0]);
            } else {
                assert(r@ =~= join_segments(dv.take(i as int), sep) + seq![sep] + dv.take(
                    i + 1,
                ).last());
            }
        }
        i += 1;
    }
    proof {
        assert(parts.deep_view().take(parts@.len() as int) =~= parts.deep_view());
    }
    r
}

// ---------------------------------------------------------------------------
// The address type
// ---------------------------------------------------------------------------

/// An immutable location string; scheme is inferred from its shape.
#[derive(Debug)]
pub struct RclonePath {
    inner: String,
}

impl View for RclonePath {
    type V = Seq<char>;

    closed spec fn view(&self) -> Seq<char> {
        self.inner@
    }
}

impl Clone for RclonePath {
    fn clone(&self) -> (r: Self)
        ensures
            r == *self,
    {
        RclonePath { inner: self.inner.clone() }
    }
}

impl PartialEq for RclonePath {
    fn eq(&self, other: &Self) -> (r: bool) {
        self.inner.eq(&other.inner)
    }
}

impl vstd::std_specs::cmp::PartialEqSpecImpl for RclonePath {
    open spec fn obeys_eq_spec() -> bool {
        true
    }

    open spec fn eq_spec(&self, other: &Self) -> bool {
        self@ == other@
    }
}

impl Eq for RclonePath {

}

fn str_is_drive(s: &str) -> (r: bool)
    ensures
        r == is_drive(s@),
{
    let n = s.unicode_len();
    if n < 3 {
        return false;
    }
    let c0 = s.get_char(0) as u32;
    let lower = ('a' as u32) <= c0 && c0 <= ('z' as u32);
    let upper = ('A' as u32) <= c0 && c0 <= ('Z' as u32);
    (lower || upper) && s.get_char(1) == ':' && s.get_char(2) == '\\'
}

impl RclonePath {
    pub fn from(raw: &str) -> (r: Self)
        ensures
            r@ == raw@,
    {
        RclonePath { inner: String::from_str(raw) }
    }

    /// The underlying string, for display and for handing to the transfer tool.
    pub fn to_string(&self) -> (r: String)
        ensures
            r@ == self@,
    {
        self.inner.clone()
    }

    /// False exactly for a bare remote root `name:`; every other address
    /// (including `/` and `X:\`) reports a parent.
    pub fn path_has_parent(&self) -> (r: bool)
        ensures
            r == !is_remote_root(self@),
    {
        if str_contains_char(self.inner.as_str(), '/') {
            return true;
        }
        !str_ends_with_char(self.inner.as_str(), ':')
    }

    /// The last path segment: the text after the last `\`, else after the
    /// last `/`, else after the `:` root marker. Addresses with none of the
    /// three markers have no filename and are not accepted.
    pub fn filename(&self) -> (r: String)
        requires
            has_filename_marker(self@),
        ensures
            r@ == spec_filename(self@),
    {
        let s = self.inner.as_str();
        let n = s.unicode_len();
        if let Some(i) = str_rfind_char(s, '\\') {
            proof {
                lemma_last_index_of_props(s@, '\\');
            }
            String::from_str(s.substring_char(i + 1, n))
        } else if let Some(i) = str_rfind_char(s, '/') {
            proof {
                lemma_last_index_of_props(s@, '/');
            }
            String::from_str(s.substring_char(i + 1, n))
        } else {
            match str_rfind_char(s, ':') {
                Some(i) => {
                    proof {
                        lemma_last_index_of_props(s@, ':');
                    }
                    String::from_str(s.substring_char(i + 1, n))
                },
                None => {
                    proof {
                        assert(false);
                    }
                    String::new()
                },
            }
        }
    }

    /// Appends `tail` as one more segment, choosing the separator from the
    /// receiver's own scheme.
    pub fn join(&self, tail: &str) -> (r: RclonePath)
        ensures
            r@ == spec_join(self@, tail@),
    {
        let s = self.inner.as_str();
        let drive = str_is_drive(s);
        let no_infix = if drive {
            str_ends_with_char(s, '\\') || str_ends_with_char(s, ':')
        } else {
            str_ends_with_char(s, '/') || str_ends_with_char(s, ':')
        };
        let mut out = self.inner.clone();
        if !no_infix {
            let sep = if drive {
                '\\'
            } else {
                '/'
            };
            out.push(sep);
            proof {
                assert(out@ =~= self@ + seq![sep]);
            }
        }
        out.append(tail);
        proof {
            if !no_infix {
                if drive {
                    assert(out@ =~= self@ + seq!['\\'] + tail@);
                } else {
                    assert(out@ =~= self@ + seq!['/'] + tail@);
                }
            }
        }
        RclonePath { inner: out }
    }

    /// Whether `resolve_to_parent` accepts this address: roots always; other
    /// addresses when their scheme's body has a segment left to drop.
    pub fn parent_is_defined(&self) -> (r: bool)
        ensures
            r == parent_defined(self@),
    {
        let s = self.inner.as_str();
        let n = s.unicode_len();
        if str_ends_with_char(s, ':') {
            return true;
        }
        if str_is_drive(s) {
            if n == 3 {
                return true;
            }
            let rest = s.substring_char(3, n);
            proof {
                assert(rest@ =~= self@.skip(3));
            }
            let parts = split_nonempty(rest, '\\', '\\');
            return parts.len() >= 1;
        }
        if n > 0 && s.get_char(0) == '/' {
            if n == 1 {
                return true;
            }
            let parts = split_nonempty(s, '/', '/');
            return parts.len() >= 1;
        }
        let parts = split_nonempty(s, ':', '/');
        parts.len() >= 2
    }

    /// The address one level up. Roots (`name:`, `/`, `X:\`, and anything
    /// else ending in `:`) resolve to themselves; any other address drops
    /// its last segment and is reassembled in its own syntax.
    pub fn resolve_to_parent(&self) -> (r: Self)
        requires
            parent_defined(self@),
        ensures
            r@ == spec_parent(self@),
    {
        let s = self.inner.as_str();
        let n = s.unicode_len();
        if str_ends_with_char(s, ':') {
            return RclonePath { inner: self.inner.clone() };
        }
        if str_is_drive(s) {
            if n == 3 {
                return RclonePath { inner: self.inner.clone() };
            }
            let rest = s.substring_char(3, n);
            proof {
                assert(rest@ =~= self@.skip(3));
            }
            let mut parts = split_nonempty(rest, '\\', '\\');
            let ghost full = parts.deep_view();
            let _last = parts.pop();
            proof {
                assert(parts.deep_view() =~= full.drop_last());
            }
            let prefix = s.substring_char(0, 3);
            let mut out = String::from_str(prefix);
            let joined = join_with(&parts, '\\');
            out.append(joined.as_str());
            proof {
                assert(prefix@ =~= self@.take(3));
            }
            return RclonePath { inner: out };
        }
        if n == 1 && s.get_char(0) == '/' {
            proof {
                assert(is_posix_root(self@));
            }
            return RclonePath { inner: self.inner.clone() };
        }
        if n > 0 && s.get_char(0) == '/' {
            let mut parts = split_nonempty(s, '/', '/');
            let ghost full = parts.deep_view();
            let _last = parts.pop();
            proof {
                assert(parts.deep_view() =~= full.drop_last());
            }
            let mut out = String::new();
            out.push('/');
            let joined = join_with(&parts, '/');
            out.append(joined.as_str());
            proof {
                assert(out@ =~= seq!['/'] + joined@);
            }
            return RclonePath { inner: out };
        }
        let mut parts = split_nonempty(s, ':', '/');
        let ghost full = parts.deep_view();
        let first = parts.remove(0);
        let ghost after_first = parts.deep_view();
        let _last = parts.pop();
        proof {
            assert(after_first =~= full.drop_first());
            assert(parts.deep_view() =~= after_first.drop_last());
            assert(parts.deep_view() =~= full.subrange(1, full.len() - 1));
        }
        let mut out = first;
        out.push(':');
        let joined = join_with(&parts, '/');
        out.append(joined.as_str());
        proof {
            assert(out@ =~= full[0] + seq![':'] + joined@);
        }
        RclonePath { inner: out }
    }

    /// Whether `filename` accepts this address.
    pub fn has_marker(&self) -> (r: bool)
        ensures
            r == has_filename_marker(self@),
    {
        let s = self.inner.as_str();
        str_contains_char(s, '\\') || str_contains_char(s, '/') || str_contains_char(s, ':')
    }

    /// The remote prefix up to and including the first `:`, when present.
    pub fn remote(&self) -> (r: Option<String>)
        ensures
            match r {
                Some(p) => self@.contains(':') && p@ == self@.take(
                    first_index_of(self@, ':') + 1,
                ),
                None => !self@.contains(':'),
            },
    {
        let s = self.inner.as_str();
        let n = s.unicode_len();
        match str_find_char(s, ':') {
            Some(i) => {
                proof {
                    lemma_first_index_of_props(s@, ':');
                    assert(i < n);
                }
                Some(String::from_str(s.substring_char(0, i + 1)))
            },
            None => None,
        }
    }
}

// ---------------------------------------------------------------------------
// Laws of parent resolution and joining
// ---------------------------------------------------------------------------

/// The segment sequence an address denotes under its own scheme: the
/// drive-letter body after `X:\` split at `\`, a POSIX path split at `/`,
/// and a remote address split at `:` and `/`.
pub open spec fn path_segments(s: Seq<char>) -> Seq<Seq<char>> {
    if is_drive(s) {
        segments(s.skip(3), '\\', '\\')
    } else if is_posix(s) {
        segments(s, '/', '/')
    } else {
        segments(s, ':', '/')
    }
}

/// Every address at a scheme's own top (`name:`, `/`, `X:\`, or anything
/// else ending in the `:` root marker) is a fixed point of parent
/// resolution.
pub proof fn lemma_root_parent_idempotent(s: Seq<char>)
    requires
        is_scheme_root(s),
    ensures
        parent_defined(s),
        spec_parent(s) == s,
{
}

/// Resolving a non-root address to its parent drops exactly the last
/// segment and keeps every earlier segment intact. Stated for addresses
/// whose backslashes, if any, come from the drive-letter scheme; a `\` in
/// a remote address can make the reassembled parent parse as a drive path.
pub proof fn lemma_parent_drops_last_segment(s: Seq<char>)
    requires
        parent_defined(s),
        !is_scheme_root(s),
        is_drive(s) || is_posix(s) || !s.contains('\\'),
    ensures
        path_segments(s).len() >= 1,
        path_segments(spec_parent(s)) == path_segments(s).drop_last(),
{
    if is_drive(s) {
        let body = s.skip(3);
        let segs = segments(body, '\\', '\\');
        let dl = segs.drop_last();
        lemma_split_state_wf(body, '\\', '\\');
        assert(segs_wf(segs, '\\', '\\'));
        assert(segs_wf(dl, '\\', '\\')) by {
            assert forall|k: int|
                0 <= k < dl.len() implies (#[trigger] dl[k]).len() > 0 && seg_free(
                dl[k],
                '\\',
                '\\',
            ) by {
                assert(dl[k] == segs[k]);
            }
        }
        let parent = spec_parent(s);
        assert(parent == s.take(3) + join_segments(dl, '\\'));
        assert(parent[0] == s[0] && parent[1] == s[1] && parent[2] == s[2]);
        assert(is_drive(parent));
        assert(parent.skip(3) =~= join_segments(dl, '\\'));
        lemma_segments_of_join(dl, '\\', '\\', '\\');
    } else if is_posix(s) {
        let segs = segments(s, '/', '/');
        let dl = segs.drop_last();
        lemma_split_state_wf(s, '/', '/');
        assert(segs_wf(dl, '/', '/')) by {
            assert forall|k: int|
                0 <= k < dl.len() implies (#[trigger] dl[k]).len() > 0 && seg_free(
                dl[k],
                '/',
                '/',
            ) by {
                assert(dl[k] == segs[k]);
            }
        }
        let parent = spec_parent(s);
        let joined = join_segments(dl, '/');
        assert(parent == seq!['/'] + joined);
        assert(parent[0] == '/');
        assert(!is_drive(parent)) by {
            assert(!is_ascii_letter('/'));
        }
        assert(is_posix(parent));
        lemma_split_leading_sep('/', joined, '/', '/');
        lemma_segments_of_join(dl, '/', '/', '/');
        assert(segments(parent, '/', '/') == segments(joined, '/', '/'));
    } else {
        let parts = segments(s, ':', '/');
        let mid = parts.subrange(1, parts.len() - 1);
        lemma_split_state_wf(s, ':', '/');
        assert(segs_wf(parts, ':', '/'));
        assert(segs_wf(mid, ':', '/')) by {
            assert forall|k: int|
                0 <= k < mid.len() implies (#[trigger] mid[k]).len() > 0 && seg_free(
                mid[k],
                ':',
                '/',
            ) by {
                assert(mid[k] == parts[k + 1]);
            }
        }
        let joined = join_segments(mid, '/');
        let parent = spec_parent(s);
        assert(parent == parts[0] + seq![':'] + joined);
        lemma_split_state_no_char(s, ':', '/', '\\');
        assert(forall|k: int, j: int|
            0 <= k < parts.len() && 0 <= j < parts[k].len() ==> #[trigger] parts[k][j] != '\\');
        assert(forall|k: int, j: int|
            0 <= k < mid.len() && 0 <= j < mid[k].len() ==> #[trigger] mid[k][j] != '\\') by {
            assert forall|k: int, j: int|
                0 <= k < mid.len() && 0 <= j < mid[k].len() implies #[trigger] mid[k][j]
                != '\\' by {
                assert(mid[k] == parts[k + 1]);
                assert(parts[k + 1][j] != '\\');
            }
        }
        lemma_join_no_char(mid, '/', '\\');
        assert(!is_drive(parent)) by {
            if is_drive(parent) {
                let p0len = parts[0].len() as int;
                if 2 < p0len {
                    assert(parent[2] == parts[0][2]);
                } else if 2 == p0len {
                    assert(parent[2] == ':');
                } else {
                    assert(parent[2] == joined[2 - p0len - 1]);
                    assert(joined.contains(joined[2 - p0len - 1]));
                }
            }
        }
        assert(parts[0].len() > 0);
        assert(!is_posix(parent)) by {
            assert(parent[0] == parts[0][0]);
            assert(!is_sep(parts[0][0], ':', '/'));
        }
        lemma_segments_of_join(mid, '/', ':', '/');
        lemma_split_prepend_part(parts[0], ':', joined, ':', '/');
        if mid.len() == 0 {
            assert(split_state(parent, ':', '/').0 =~= seq![parts[0]]);
            assert(split_state(parent, ':', '/').1 == Seq::<char>::empty());
            assert(segments(parent, ':', '/') =~= parts.drop_last());
        } else {
            assert(split_state(parent, ':', '/').0 =~= seq![parts[0]] + mid.drop_last());
            assert(split_state(parent, ':', '/').1 == mid.last());
            assert(mid.last().len() > 0);
            assert(segments(parent, ':', '/') == (seq![parts[0]] + mid.drop_last()).push(
                mid.last(),
            ));
            assert((seq![parts[0]] + mid.drop_last()).push(mid.last()) =~= parts.drop_last());
        }
    }
}

/// Joining a nonempty, separator-free name onto an address and then taking
/// `filename` hands the name back. Stated for addresses whose backslashes,
/// if any, come from the drive-letter scheme, and whose `:` ending, if
/// any, is a bare remote root.
pub proof fn lemma_join_filename_roundtrip(p: Seq<char>, x: Seq<char>)
    requires
        x.len() > 0,
        !x.contains('/'),
        !x.contains('\\'),
        !x.contains(':'),
        p.contains('\\') ==> is_drive(p),
        spec_ends_with(p, ':') ==> !p.contains('/') && !p.contains('\\'),
    ensures
        spec_filename(spec_join(p, x)) == x,
{
    let r = spec_join(p, x);
    if is_drive(p) {
        assert(p.contains('\\')) by {
            assert(p[2] == '\\');
        }
        assert(!spec_ends_with(p, ':'));
        if spec_ends_with(p, '\\') {
            assert(r == p + x);
            assert(r[2] == '\\');
            assert(r.contains('\\'));
            lemma_concat_last_index(p, x, '\\', p.len() - 1);
            assert(after_last(r, '\\') =~= x);
        } else {
            assert(r == p + seq!['\\'] + x);
            assert(r[p.len() as int] == '\\');
            assert(r.contains('\\'));
            assert(r =~= (p + seq!['\\']) + x);
            lemma_concat_last_index(p + seq!['\\'], x, '\\', p.len() as int);
            assert(after_last(r, '\\') =~= x);
        }
    } else {
        assert(!p.contains('\\'));
        if spec_ends_with(p, '/') || spec_ends_with(p, ':') {
            assert(r == p + x);
            assert(!r.contains('\\')) by {
                if r.contains('\\') {
                    let w = choose|i: int| 0 <= i < r.len() && r[i] == '\\';
                    if w < p.len() {
                        assert(p[w] == '\\');
                        assert(p.contains('\\'));
                    } else {
                        assert(x[w - p.len()] == '\\');
                        assert(x.contains('\\'));
                    }
                }
            }
            if spec_ends_with(p, '/') {
                assert(r[p.len() - 1] == '/');
                assert(r.contains('/'));
                lemma_concat_last_index(p, x, '/', p.len() - 1);
                assert(after_last(r, '/') =~= x);
            } else {
                assert(!p.contains('/'));
                assert(!r.contains('/')) by {
                    if r.contains('/') {
                        let w = choose|i: int| 0 <= i < r.len() && r[i] == '/';
                        if w < p.len() {
                            assert(p.contains('/'));
                        } else {
                            assert(x[w - p.len()] == '/');
                            assert(x.contains('/'));
                        }
                    }
                }
                lemma_concat_last_index(p, x, ':', p.len() - 1);
                assert(after_last(r, ':') =~= x);
            }
        } else {
            assert(r == p + seq!['/'] + x);
            assert(r =~= (p + seq!['/']) + x);
            assert(!r.contains('\\')) by {
                if r.contains('\\') {
                    let w = choose|i: int| 0 <= i < r.len() && r[i] == '\\';
                    if w < p.len() {
                        assert(p[w] == '\\');
                        assert(p.contains('\\'));
                    } else if w == p.len() {
                    } else {
                        assert(x[w - p.len() - 1] == '\\');
                        assert(x.contains('\\'));
                    }
                }
            }
            assert(r[p.len() as int] == '/');
            assert(r.contains('/'));
            lemma_concat_last_index(p + seq!['/'], x, '/', p.len() as int);
            assert(after_last(r, '/') =~= x);
        }
    }
}

/// A joined address always carries a filename marker: either the base
/// already ends in one, or one was inserted as the separator.
pub proof fn lemma_join_has_marker(p: Seq<char>, x: Seq<char>)
    ensures
        has_filename_marker(spec_join(p, x)),
{
    let r = spec_join(p, x);
    if is_drive(p) {
        if spec_ends_with(p, '\\') || spec_ends_with(p, ':') {
            assert(r[2] == '\\');
            assert(r.contains('\\'));
        } else {
            assert(r[p.len() as int] == '\\');
            assert(r.contains('\\'));
        }
    } else {
        if spec_ends_with(p, '/') {
            assert(r[p.len() - 1] == '/');
            assert(r.contains('/'));
        } else if spec_ends_with(p, ':') {
            assert(r[p.len() - 1] == ':');
            assert(r.contains(':'));
        } else {
            assert(r[p.len() as int] == '/');
            assert(r.contains('/'));
        }
    }
}

/// In `a + x`, when `a[i]` is the last `c` of `a` and `x` avoids `c`, the
/// last `c` of the whole is still at `i`.
proof fn lemma_concat_last_index(a: Seq<char>, x: Seq<char>, c: char, i: int)
    requires
        0 <= i < a.len(),
        a[i] == c,
        forall|j: int| i < j < a.len() ==> a[j] != c,
        !x.contains(c),
    ensures
        last_index_of(a + x, c) == i,
{
    let r = a + x;
    assert(r[i] == c);
    assert forall|j: int| i < j < r.len() implies r[j] != c by {
        if j >= a.len() {
            assert(r[j] == x[j - a.len()]);
            if r[j] == c {
                assert(x.contains(c));
            }
        }
    }
    crate::text::lemma_last_index_of_unique(r, c, i);
}

} // verus!
