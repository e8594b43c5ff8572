//! Paths as byte strings, and their segments.
//!
//! A path is a string of bytes in which `/` separates segments. Empty
//! segments and the segment `.` name nothing and are dropped; what is left is
//! the list of segments that the path walks through, `..` among them.

use vstd::prelude::*;

verus! {

/// The byte that separates two segments.
pub const SEPARATOR: u8 = 47;

/// The byte of which the segments `.` and `..` are made.
pub const DOT: u8 = 46;

/// Whether `seg` is the segment `.`, which stays where it is.
pub open spec fn is_cur_dir(seg: Seq<u8>) -> bool {
    seg.len() == 1 && seg[0] == DOT
}

/// Whether `seg` is the segment `..`, which steps to the parent.
pub open spec fn is_parent_dir(seg: Seq<u8>) -> bool {
    seg.len() == 2 && seg[0] == DOT && seg[1] == DOT
}

/// The segment `seg` as a list: empty where it names nothing.
pub open spec fn kept(seg: Seq<u8>) -> Seq<Seq<u8>> {
    if seg.len() == 0 || is_cur_dir(seg) {
        Seq::empty()
    } else {
        seq![seg]
    }
}

/// The segments of `s` from position `start` on, where the bytes from
/// `start` up to `i` have been read as part of the segment under way.
pub open spec fn segments_from(s: Seq<u8>, start: int, i: int) -> Seq<Seq<u8>>
    recommends
        0 <= start <= i <= s.len(),
    decreases s.len() - i,
{
    if i >= s.len() {
        kept(s.subrange(start, s.len() as int))
    } else if s[i] == SEPARATOR {
        kept(s.subrange(start, i)) + segments_from(s, i + 1, i + 1)
    } else {
        segments_from(s, start, i + 1)
    }
}

/// The segments that the path `s` walks through, in order.
pub open spec fn segments(s: Seq<u8>) -> Seq<Seq<u8>> {
    segments_from(s, 0, 0)
}

/// Whether the path `s` starts at the root of the file system.
pub open spec fn is_absolute(s: Seq<u8>) -> bool {
    s.len() > 0 && s[0] == SEPARATOR
}

/// Whether one of `segs` is the segment `..`.
pub open spec fn has_parent_dir(segs: Seq<Seq<u8>>) -> bool {
    exists|i: int| 0 <= i < segs.len() && is_parent_dir(#[trigger] segs[i])
}

/// Whether `segs` walks through all of `root` first, segment by segment.
pub open spec fn starts_with(segs: Seq<Seq<u8>>, root: Seq<Seq<u8>>) -> bool {
    root.len() <= segs.len() && segs.subrange(0, root.len() as int) == root
}

/// The segments held in `v`, each as the bytes it is made of.
pub open spec fn views(v: Seq<Vec<u8>>) -> Seq<Seq<u8>> {
    v.map_values(|x: Vec<u8>| x@)
}

/// The bytes of all of `segs`, a separator before each.
pub open spec fn joined(segs: Seq<Seq<u8>>) -> Seq<u8>
    decreases segs.len(),
{
    if segs.len() == 0 {
        Seq::empty()
    } else {
        joined(segs.drop_last()) + seq![SEPARATOR] + segs.last()
    }
}

/// The absolute path that walks through `segs`: a lone separator where there
/// are none.
pub open spec fn rendered(segs: Seq<Seq<u8>>) -> Seq<u8> {
    if segs.len() == 0 {
        seq![SEPARATOR]
    } else {
        joined(segs)
    }
}

/// Appends `seg` to `out` unless it names nothing.
fn push_kept(out: &mut Vec<Vec<u8>>, seg: Vec<u8>)
    ensures
        views(final(out)@) == views(old(out)@) + kept(seg@),
{
    let named = if seg.len() == 0 {
        false
    } else if seg.len() == 1 {
        seg[0] != DOT
    } else {
        true
    };
    if named {
        out.push(seg);
        assert(views(out@) =~= views(old(out)@) + kept(seg@));
    } else {
        assert(views(out@) =~= views(old(out)@) + kept(seg@));
    }
}

/// Splits the path into the segments that it walks through.
pub fn split_segments(path: &[u8]) -> (segs: Vec<Vec<u8>>)
    ensures
        views(segs@) == segments(path@),
{
    let mut out: Vec<Vec<u8>> = Vec::new();
    let mut cur: Vec<u8> = Vec::new();
    let ghost mut start: int = 0;
    let mut i: usize = 0;
    assert(views(out@) =~= Seq::empty());
    while i < path.len()
        invariant
            0 <= start <= i <= path.len(),
            cur@ == path@.subrange(start, i as int),
            segments(path@) == views(out@) + segments_from(path@, start, i as int),
        decreases path.len() - i,
    {
        let b: u8 = path[i];
        if b == SEPARATOR {
            let ghost before = views(out@);
            push_kept(&mut out, cur);
            cur = Vec::new();
            proof {
                assert(segments_from(path@, start, i as int) == kept(
                    path@.subrange(start, i as int),
                ) + segments_from(path@, i + 1, i + 1));
                assert(before + (kept(path@.subrange(start, i as int)) + segments_from(
                    path@,
                    i + 1,
                    i + 1,
                )) =~= views(out@) + segments_from(path@, i + 1, i + 1));
                start = i + 1;
                assert(cur@ =~= path@.subrange(start, i + 1));
            }
        } else {
            cur.push(b);
            proof {
                assert(cur@ =~= path@.subrange(start, i + 1));
            }
        }
        i += 1;
    }
    proof {
        assert(cur@ =~= path@.subrange(start, path@.len() as int));
    }
    push_kept(&mut out, cur);
    out
}

/// Whether the two byte strings are the same.
pub fn same_bytes(a: &[u8], b: &[u8]) -> (same: bool)
    ensures
        same == (a@ == b@),
{
    if a.len() != b.len() {
        return false;
    }
    let mut i: usize = 0;
    while i < a.len()
        invariant
            a.len() == b.len(),
            0 <= i <= a.len(),
            a@.subrange(0, i as int) == b@.subrange(0, i as int),
        decreases a.len() - i,
    {
        if a[i] != b[i] {
            return false;
        }
        proof {
            assert(a@.subrange(0, i + 1) =~= a@.subrange(0, i as int).push(a@[i as int]));
            assert(b@.subrange(0, i + 1) =~= b@.subrange(0, i as int).push(b@[i as int]));
        }
        i += 1;
    }
    proof {
        assert(a@ =~= a@.subrange(0, i as int));
        assert(b@ =~= b@.subrange(0, i as int));
    }
    true
}

/// Whether `segs` walks through all of `root` first, segment by segment.
pub fn segments_start_with(segs: &Vec<Vec<u8>>, root: &Vec<Vec<u8>>) -> (yes: bool)
    ensures
        yes == starts_with(views(segs@), views(root@)),
{
    if root.len() > segs.len() {
        return false;
    }
    let mut i: usize = 0;
    while i < root.len()
        invariant
            root.len() <= segs.len(),
            0 <= i <= root.len(),
            views(segs@).subrange(0, i as int) == views(root@).subrange(0, i as int),
        decreases root.len() - i,
    {
        if !same_bytes(segs[i].as_slice(), root[i].as_slice()) {
            proof {
                assert(views(segs@).subrange(0, root.len() as int)[i as int] == segs@[i as int]@);
                assert(views(root@)[i as int] == root@[i as int]@);
            }
            return false;
        }
        proof {
            let s = views(segs@);
            let r = views(root@);
            assert(s.subrange(0, i + 1) =~= s.subrange(0, i as int).push(s[i as int]));
            assert(r.subrange(0, i + 1) =~= r.subrange(0, i as int).push(r[i as int]));
        }
        i += 1;
    }
    proof {
        assert(views(root@) =~= views(root@).subrange(0, i as int));
    }
    true
}

/// Whether one of `segs` is the segment `..`.
pub fn any_parent_dir(segs: &Vec<Vec<u8>>) -> (yes: bool)
    ensures
        yes == has_parent_dir(views(segs@)),
{
    let mut i: usize = 0;
    while i < segs.len()
        invariant
            0 <= i <= segs.len(),
            forall|j: int| 0 <= j < i ==> !is_parent_dir(#[trigger] views(segs@)[j]),
        decreases segs.len() - i,
    {
        let seg = &segs[i];
        if seg.len() == 2 && seg[0] == DOT && seg[1] == DOT {
            proof {
                assert(is_parent_dir(views(segs@)[i as int]));
            }
            return true;
        }
        i += 1;
    }
    false
}

/// The bytes of the segments of `segs` from `from` up to `to`, a separator
/// before each.
pub fn join_range(segs: &Vec<Vec<u8>>, from: usize, to: usize) -> (bytes: Vec<u8>)
    requires
        from <= to <= segs.len(),
    ensures
        bytes@ == joined(views(segs@).subrange(from as int, to as int)),
{
    let mut out: Vec<u8> = Vec::new();
    let mut i: usize = from;
    while i < to
        invariant
            from <= i <= to <= segs.len(),
            out@ == joined(views(segs@).subrange(from as int, i as int)),
        decreases to - i,
    {
        out.push(SEPARATOR);
        let seg = &segs[i];
        let ghost head = out@;
        let mut j: usize = 0;
        while j < seg.len()
            invariant
                0 <= j <= seg.len(),
                out@ == head + seg@.subrange(0, j as int),
            decreases seg.len() - j,
        {
            out.push(seg[j]);
            proof {
                assert(out@ =~= head + seg@.subrange(0, j + 1));
            }
            j += 1;
        }
        proof {
            let all = views(segs@);
            let next = all.subrange(from as int, i + 1);
            assert(seg@.subrange(0, j as int) =~= seg@);
            assert(next.drop_last() =~= all.subrange(from as int, i as int));
            assert(next.last() == seg@);
        }
        i += 1;
    }
    out
}

/// The absolute path that walks through `segs`.
pub fn render(segs: &Vec<Vec<u8>>) -> (path: Vec<u8>)
    ensures
        path@ == rendered(views(segs@)),
{
    if segs.len() == 0 {
        let mut out: Vec<u8> = Vec::new();
        out.push(SEPARATOR);
        assert(out@ =~= seq![SEPARATOR]);
        return out;
    }
    proof {
        assert(views(segs@).subrange(0, segs.len() as int) =~= views(segs@));
    }
    join_range(segs, 0, segs.len())
}

/// The relative path that walks through `segs`: nothing where there are
/// none.
pub open spec fn relative(segs: Seq<Seq<u8>>) -> Seq<u8> {
    if segs.len() == 0 {
        Seq::empty()
    } else {
        joined(segs).drop_first()
    }
}

/// The relative path that walks through the segments of `segs` from `from`
/// on.
pub fn render_relative(segs: &Vec<Vec<u8>>, from: usize) -> (path: Vec<u8>)
    requires
        from <= segs.len(),
    ensures
        path@ == relative(views(segs@).subrange(from as int, segs.len() as int)),
{
    let all = join_range(segs, from, segs.len());
    let mut out: Vec<u8> = Vec::new();
    if from == segs.len() {
        return out;
    }
    proof {
        lemma_joined_starts_with_separator(views(segs@).subrange(from as int, segs.len() as int));
    }
    let mut i: usize = 1;
    while i < all.len()
        invariant
            1 <= i <= all.len(),
            out@ == all@.subrange(1, i as int),
        decreases all.len() - i,
    {
        out.push(all[i]);
        proof {
            assert(out@ =~= all@.subrange(1, i + 1));
        }
        i += 1;
    }
    proof {
        assert(all@.subrange(1, all.len() as int) =~= all@.drop_first());
    }
    out
}

/// Joined segments, where there are any, begin with a separator.
pub proof fn lemma_joined_starts_with_separator(segs: Seq<Seq<u8>>)
    requires
        segs.len() > 0,
    ensures
        joined(segs).len() > 0,
        joined(segs)[0] == SEPARATOR,
    decreases segs.len(),
{
    if segs.len() > 1 {
        lemma_joined_starts_with_separator(segs.drop_last());
    } else {
        assert(segs.drop_last().len() == 0);
        assert(joined(segs.drop_last()).len() == 0);
        assert(joined(segs) =~= seq![SEPARATOR] + segs.last());
    }
}

/// A copy of the bytes.
pub fn copy_bytes(bytes: &[u8]) -> (copy: Vec<u8>)
    ensures
        copy@ == bytes@,
{
    let mut out: Vec<u8> = Vec::new();
    let mut i: usize = 0;
    while i < bytes.len()
        invariant
            0 <= i <= bytes.len(),
            out@ == bytes@.subrange(0, i as int),
        decreases bytes.len() - i,
    {
        out.push(bytes[i]);
        proof {
            assert(out@ =~= bytes@.subrange(0, i + 1));
        }
        i += 1;
    }
    proof {
        assert(bytes@.subrange(0, i as int) =~= bytes@);
    }
    out
}

/// A copy of the segments of `segs` from `from` up to `to`.
pub fn copy_segments(segs: &Vec<Vec<u8>>, from: usize, to: usize) -> (copy: Vec<Vec<u8>>)
    requires
        from <= to <= segs.len(),
    ensures
        views(copy@) == views(segs@).subrange(from as int, to as int),
{
    let mut out: Vec<Vec<u8>> = Vec::new();
    let mut i: usize = from;
    assert(views(out@) =~= views(segs@).subrange(from as int, i as int));
    while i < to
        invariant
            from <= i <= to <= segs.len(),
            views(out@) == views(segs@).subrange(from as int, i as int),
        decreases to - i,
    {
        let seg = copy_bytes(segs[i].as_slice());
        let ghost before = views(out@);
        out.push(seg);
        proof {
            assert(views(out@) =~= before.push(seg@));
            assert(views(segs@)[i as int] == segs@[i as int]@);
            assert(views(segs@).subrange(from as int, i + 1) =~= views(segs@).subrange(
                from as int,
                i as int,
            ).push(seg@));
        }
        i += 1;
    }
    out
}

/// Whether `seg` names something: it is not empty, is not the segment `.`
/// and holds no separator.
pub open spec fn is_normal(seg: Seq<u8>) -> bool {
    seg.len() > 0 && !is_cur_dir(seg) && !seg.contains(SEPARATOR)
}

/// Whether every one of `segs` names something.
pub open spec fn all_normal(segs: Seq<Seq<u8>>) -> bool {
    forall|i: int| 0 <= i < segs.len() ==> is_normal(#[trigger] segs[i])
}

/// What is read from position `start` on names something throughout, where
/// no separator lies between `start` and `i`.
pub proof fn lemma_segments_from_normal(s: Seq<u8>, start: int, i: int)
    requires
        0 <= start <= i <= s.len(),
        !s.subrange(start, i).contains(SEPARATOR),
    ensures
        all_normal(segments_from(s, start, i)),
    decreases s.len() - i,
{
    if i >= s.len() {
        assert(s.subrange(start, s.len() as int) =~= s.subrange(start, i));
    } else if s[i] == SEPARATOR {
        assert(!s.subrange(i + 1, i + 1).contains(SEPARATOR));
        lemma_segments_from_normal(s, i + 1, i + 1);
    } else {
        let wider = s.subrange(start, i + 1);
        assert forall|k: int| 0 <= k < wider.len() implies wider[k] != SEPARATOR by {
            if k < i - start {
                assert(s.subrange(start, i)[k] == wider[k]);
            }
        }
        lemma_segments_from_normal(s, start, i + 1);
    }
}

/// Every segment of a path names something.
pub proof fn lemma_segments_normal(s: Seq<u8>)
    ensures
        all_normal(segments(s)),
{
    assert(!s.subrange(0, 0).contains(SEPARATOR));
    lemma_segments_from_normal(s, 0, 0);
}

/// Reading on within `x` gives the same whether or not a separator and `y`
/// follow it, but for the segments of `y` at the end.
proof fn lemma_segments_from_front(x: Seq<u8>, y: Seq<u8>, start: int, i: int)
    requires
        0 <= start <= i <= x.len(),
    ensures
        segments_from(x + seq![SEPARATOR] + y, start, i) == segments_from(x, start, i)
            + segments_from(x + seq![SEPARATOR] + y, (x.len() + 1) as int, (x.len() + 1) as int),
    decreases x.len() - i,
{
    let z = x + seq![SEPARATOR] + y;
    if i == x.len() {
        assert(z[i] == SEPARATOR);
        assert(z.subrange(start, i) =~= x.subrange(start, x.len() as int));
    } else if x[i] == SEPARATOR {
        assert(z[i] == x[i]);
        assert(z.subrange(start, i) =~= x.subrange(start, i));
        lemma_segments_from_front(x, y, i + 1, i + 1);
        assert(kept(x.subrange(start, i)) + (segments_from(x, i + 1, i + 1) + segments_from(
            z,
            (x.len() + 1) as int,
            (x.len() + 1) as int,
        )) =~= (kept(x.subrange(start, i)) + segments_from(x, i + 1, i + 1)) + segments_from(
            z,
            (x.len() + 1) as int,
            (x.len() + 1) as int,
        ));
    } else {
        assert(z[i] == x[i]);
        lemma_segments_from_front(x, y, start, i + 1);
    }
}

/// Reading `y` gives the same wherever in a longer path `y` stands at the
/// end.
proof fn lemma_segments_from_back(z: Seq<u8>, y: Seq<u8>, k: int, start: int, i: int)
    requires
        0 <= start <= i <= y.len(),
        0 <= k,
        z.len() == k + y.len(),
        z.subrange(k, z.len() as int) == y,
    ensures
        segments_from(z, k + start, k + i) == segments_from(y, start, i),
    decreases y.len() - i,
{
    if i >= y.len() {
        assert(z.subrange(k + start, z.len() as int) =~= y.subrange(start, y.len() as int));
    } else {
        assert(z[k + i] == z.subrange(k, z.len() as int)[i]);
        if y[i] == SEPARATOR {
            assert(z.subrange(k + start, k + i) =~= y.subrange(start, i));
            lemma_segments_from_back(z, y, k, i + 1, i + 1);
        } else {
            lemma_segments_from_back(z, y, k, start, i + 1);
        }
    }
}

/// The segments of two paths with a separator between them are those of
/// the first, then those of the second.
pub proof fn lemma_segments_concat(x: Seq<u8>, y: Seq<u8>)
    ensures
        segments(x + seq![SEPARATOR] + y) == segments(x) + segments(y),
{
    let z = x + seq![SEPARATOR] + y;
    lemma_segments_from_front(x, y, 0, 0);
    assert(z.subrange((x.len() + 1) as int, z.len() as int) =~= y);
    lemma_segments_from_back(z, y, (x.len() + 1) as int, 0, 0);
}

/// A path without a separator is read as one segment.
proof fn lemma_segments_from_single(seg: Seq<u8>, i: int)
    requires
        0 <= i <= seg.len(),
        !seg.contains(SEPARATOR),
    ensures
        segments_from(seg, 0, i) == kept(seg),
    decreases seg.len() - i,
{
    if i >= seg.len() {
        assert(seg.subrange(0, seg.len() as int) =~= seg);
    } else {
        assert(seg.contains(seg[i]));
        lemma_segments_from_single(seg, i + 1);
    }
}

/// Segments that name something are found again in the path that is written
/// from them.
pub proof fn lemma_segments_of_joined(segs: Seq<Seq<u8>>)
    requires
        all_normal(segs),
    ensures
        segments(joined(segs)) == segs,
        segments(rendered(segs)) == segs,
    decreases segs.len(),
{
    if segs.len() == 0 {
        let none = Seq::<u8>::empty();
        assert(none.subrange(0, 0) =~= none);
        assert(segments(joined(segs)) =~= segs);
        let lone = seq![SEPARATOR];
        assert(lone.subrange(0, 0) =~= none);
        assert(lone.subrange(1, 1) =~= none);
        assert(segments_from(lone, 1, 1) =~= Seq::<Seq<u8>>::empty());
        assert(segments(lone) =~= segs);
    } else {
        let front = segs.drop_last();
        let last = segs.last();
        assert(all_normal(front)) by {
            assert forall|i: int| 0 <= i < front.len() implies is_normal(#[trigger] front[i]) by {
                assert(front[i] == segs[i]);
            }
        }
        lemma_segments_of_joined(front);
        lemma_segments_concat(joined(front), last);
        assert(is_normal(segs[segs.len() - 1]));
        lemma_segments_from_single(last, 0);
        assert(front + seq![last] =~= segs);
    }
}

/// The bytes of a path begin with the bytes of every path that it walks
/// through first.
pub proof fn lemma_joined_prefix(segs: Seq<Seq<u8>>, root: Seq<Seq<u8>>)
    requires
        starts_with(segs, root),
    ensures
        joined(root).is_prefix_of(joined(segs)),
    decreases segs.len(),
{
    if segs.len() == root.len() {
        assert(segs.subrange(0, root.len() as int) =~= segs);
    } else {
        let shorter = segs.drop_last();
        assert(shorter.subrange(0, root.len() as int) =~= segs.subrange(0, root.len() as int));
        lemma_joined_prefix(shorter, root);
        assert(joined(segs) == joined(shorter) + seq![SEPARATOR] + segs.last());
        assert(joined(root).is_prefix_of(joined(segs)));
    }
}

/// The bytes of an absolute path begin with the bytes of every absolute
/// path that it walks through first.
pub proof fn lemma_rendered_prefix(segs: Seq<Seq<u8>>, root: Seq<Seq<u8>>)
    requires
        starts_with(segs, root),
    ensures
        is_absolute(rendered(segs)),
        rendered(root).is_prefix_of(rendered(segs)),
{
    if segs.len() > 0 {
        lemma_joined_starts_with_separator(segs);
        if root.len() > 0 {
            lemma_joined_prefix(segs, root);
        } else {
            assert(rendered(root) =~= joined(segs).subrange(0, 1));
        }
    } else {
        assert(root =~= segs);
    }
}

/// Joined segments begin with a separator and the first segment.
pub proof fn lemma_joined_first_segment(segs: Seq<Seq<u8>>)
    requires
        segs.len() > 0,
    ensures
        joined(segs).len() >= (1 + segs[0].len()) as int,
        joined(segs).subrange(0, (1 + segs[0].len()) as int) == seq![SEPARATOR] + segs[0],
    decreases segs.len(),
{
    let front = segs.drop_last();
    if segs.len() == 1 {
        assert(joined(front) =~= Seq::<u8>::empty());
        assert(joined(segs) =~= seq![SEPARATOR] + segs[0]);
        assert(joined(segs).subrange(0, (1 + segs[0].len()) as int) =~= joined(segs));
    } else {
        lemma_joined_first_segment(front);
        assert(front[0] == segs[0]);
        assert(joined(segs).subrange(0, (1 + segs[0].len()) as int) =~= joined(front).subrange(
            0,
            (1 + segs[0].len()) as int,
        ));
    }
}

/// The segments of a relative path that was written from segments which
/// name something are those segments.
pub proof fn lemma_segments_of_relative(segs: Seq<Seq<u8>>)
    requires
        all_normal(segs),
    ensures
        segments(relative(segs)) == segs,
{
    lemma_segments_of_joined(segs);
    if segs.len() > 0 {
        lemma_joined_starts_with_separator(segs);
        let none = Seq::<u8>::empty();
        assert(joined(segs) =~= none + seq![SEPARATOR] + relative(segs));
        lemma_segments_concat(none, relative(segs));
        lemma_segments_of_joined(Seq::<Seq<u8>>::empty());
        assert(joined(Seq::<Seq<u8>>::empty()) =~= none);
        assert(segments(none) + segments(relative(segs)) =~= segments(relative(segs)));
    }
}

} // verus!
