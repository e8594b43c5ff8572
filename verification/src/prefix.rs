//! Removing a prefix from a path, component by component.
//!
//! Here a path is read as the standard library reads one. Its components are
//! the root, where the path is absolute; the current directory, where the
//! path is `.` or begins with `./`; and then its segments. A `.` anywhere
//! else, an empty segment and a trailing separator are no components.

use crate::guard::GuardError;
use crate::path::{
    join_range, joined, relative, render, render_relative, rendered, segments,
    segments_start_with, split_segments, starts_with, views, DOT, SEPARATOR,
};
use vstd::prelude::*;

verus! {

/// How a path begins, before its segments.
#[derive(Clone, Copy, Debug, PartialEq, Eq, Structural)]
pub enum Lead {
    /// With a separator: the path is absolute.
    Root,
    /// With the segment `.`: the path names the current directory first.
    CurDir,
    /// With its first segment, or not at all.
    Nothing,
}

/// One component of a path.
pub enum Component {
    RootDir,
    CurDir,
    Named(Seq<u8>),
}

/// How the path `s` begins.
pub open spec fn lead_of(s: Seq<u8>) -> Lead {
    if s.len() > 0 && s[0] == SEPARATOR {
        Lead::Root
    } else if s.len() > 0 && s[0] == DOT && (s.len() == 1 || s[1] == SEPARATOR) {
        Lead::CurDir
    } else {
        Lead::Nothing
    }
}

/// The component that a path has before its segments, if any.
pub open spec fn leading(lead: Lead) -> Seq<Component> {
    match lead {
        Lead::Root => seq![Component::RootDir],
        Lead::CurDir => seq![Component::CurDir],
        Lead::Nothing => Seq::empty(),
    }
}

/// The segments `segs` as components.
pub open spec fn named(segs: Seq<Seq<u8>>) -> Seq<Component> {
    segs.map_values(|s: Seq<u8>| Component::Named(s))
}

/// The bytes of each of `comps`: nothing for the root and for the current
/// directory.
pub open spec fn names(comps: Seq<Component>) -> Seq<Seq<u8>> {
    comps.map_values(
        |c: Component|
            match c {
                Component::Named(s) => s,
                _ => Seq::empty(),
            },
    )
}

/// The components of the path `s`, in order.
pub open spec fn components(s: Seq<u8>) -> Seq<Component> {
    leading(lead_of(s)) + named(segments(s))
}

/// Whether `comps` begins with all of `front`, component by component.
pub open spec fn begins_with(comps: Seq<Component>, front: Seq<Component>) -> bool {
    front.len() <= comps.len() && comps.subrange(0, front.len() as int) == front
}

/// The path that is made of `comps`, written with one separator between two
/// components and none at the end.
pub open spec fn written(comps: Seq<Component>) -> Seq<u8> {
    if comps.len() == 0 {
        Seq::empty()
    } else {
        match comps[0] {
            Component::RootDir => rendered(names(comps.drop_first())),
            Component::CurDir => seq![DOT] + joined(names(comps.drop_first())),
            Component::Named(_) => relative(names(comps)),
        }
    }
}

/// What is left of `path` once `prefix` is removed from its front: the
/// components of `path` that follow those of `prefix`, where `path` begins
/// with them all.
pub open spec fn strip_verdict(path: Seq<u8>, prefix: Seq<u8>) -> Result<Seq<u8>, GuardError> {
    let p = components(path);
    let q = components(prefix);
    if begins_with(p, q) {
        Ok(written(p.subrange(q.len() as int, p.len() as int)))
    } else {
        Err(GuardError::InvalidInput)
    }
}

/// Segments that were made components give their bytes back.
pub proof fn lemma_names_of_named(segs: Seq<Seq<u8>>)
    ensures
        names(named(segs)) == segs,
{
    assert(names(named(segs)) =~= segs);
}

/// A prefix without components is one that begins with nothing and has no
/// segment. A path begins with any other prefix where both begin alike and
/// the segments of the path begin with those of the prefix; what follows
/// the prefix are then the remaining segments.
pub proof fn lemma_begins_with(path: Seq<u8>, prefix: Seq<u8>)
    ensures
        components(prefix).len() == 0 <==> lead_of(prefix) == Lead::Nothing && segments(
            prefix,
        ).len() == 0,
        components(prefix).len() > 0 ==> (begins_with(components(path), components(prefix))
            <==> lead_of(path) == lead_of(prefix) && starts_with(
            segments(path),
            segments(prefix),
        )),
        components(prefix).len() > 0 && begins_with(components(path), components(prefix))
            ==> components(path).subrange(
            components(prefix).len() as int,
            components(path).len() as int,
        ) == named(
            segments(path).subrange(segments(prefix).len() as int, segments(path).len() as int),
        ),
{
    let lp = leading(lead_of(path));
    let lq = leading(lead_of(prefix));
    let sp = segments(path);
    let sq = segments(prefix);
    let p = components(path);
    let q = components(prefix);
    if q.len() > 0 {
        if lead_of(path) == lead_of(prefix) && starts_with(sp, sq) {
            assert forall|i: int| 0 <= i < q.len() implies p[i] == q[i] by {
                if i >= lq.len() {
                    assert(sp.subrange(0, sq.len() as int)[i - lq.len()] == sq[i - lq.len()]);
                }
            }
            assert(p.subrange(0, q.len() as int) =~= q);
        }
        if begins_with(p, q) {
            assert(p.subrange(0, q.len() as int)[0] == q[0]);
            assert(p[0] == q[0]);
            assert(lead_of(path) == lead_of(prefix));
            assert forall|j: int| 0 <= j < sq.len() implies sp[j] == sq[j] by {
                assert(p.subrange(0, q.len() as int)[lq.len() + j] == q[lq.len() + j]);
                assert(p[lq.len() + j] == Component::Named(sp[j]));
                assert(q[lq.len() + j] == Component::Named(sq[j]));
            }
            assert(sp.subrange(0, sq.len() as int) =~= sq);
            assert(p.subrange(q.len() as int, p.len() as int) =~= named(
                sp.subrange(sq.len() as int, sp.len() as int),
            ));
        }
    }
}

/// How the path begins.
pub fn lead(path: &[u8]) -> (l: Lead)
    ensures
        l == lead_of(path@),
{
    if path.len() == 0 {
        Lead::Nothing
    } else if path[0] == SEPARATOR {
        Lead::Root
    } else if path[0] == DOT && (path.len() == 1 || path[1] == SEPARATOR) {
        Lead::CurDir
    } else {
        Lead::Nothing
    }
}

/// Removes `prefix` from the front of `path`, as the standard library's
/// `strip_prefix` does: only whole components match, and a `.` at the very
/// front counts as one, so `./a` begins with `.` and not with `a`. A prefix
/// without components, the empty path, is the front of every path, and the
/// whole of `path` is left. What is left is written with one separator
/// between two components; as a path it equals what the standard library
/// hands out, which keeps the bytes of `path` as they are.
pub fn strip_prefix(path: &[u8], prefix: &[u8]) -> (r: Result<Vec<u8>, GuardError>)
    ensures
        match r {
            Ok(rest) => strip_verdict(path@, prefix@) == Ok::<Seq<u8>, GuardError>(rest@),
            Err(e) => strip_verdict(path@, prefix@) == Err::<Seq<u8>, GuardError>(e),
        },
{
    let p = split_segments(path);
    let q = split_segments(prefix);
    let path_lead = lead(path);
    let prefix_lead = lead(prefix);
    proof {
        lemma_begins_with(path@, prefix@);
        lemma_names_of_named(segments(path@));
        lemma_names_of_named(
            segments(path@).subrange(segments(prefix@).len() as int, segments(path@).len() as int),
        );
    }
    let ghost all = components(path@);
    let no_component = match prefix_lead {
        Lead::Nothing => q.len() == 0,
        _ => false,
    };
    if no_component {
        proof {
            assert(all.subrange(0, 0) =~= components(prefix@));
            assert(all.subrange(0, all.len() as int) =~= all);
            assert(views(p@).subrange(0, p.len() as int) =~= views(p@));
            if path_lead != Lead::Nothing {
                assert(all.drop_first() =~= named(segments(path@)));
            } else {
                assert(all =~= named(segments(path@)));
            }
        }
        return Ok(
            match path_lead {
                Lead::Root => render(&p),
                Lead::CurDir => {
                    let mut out: Vec<u8> = Vec::new();
                    out.push(DOT);
                    let mut rest = join_range(&p, 0, p.len());
                    let ghost tail = rest@;
                    out.append(&mut rest);
                    proof {
                        assert(out@ =~= seq![DOT] + tail);
                    }
                    out
                },
                Lead::Nothing => render_relative(&p, 0),
            },
        );
    }
    let alike = match (path_lead, prefix_lead) {
        (Lead::Root, Lead::Root) => true,
        (Lead::CurDir, Lead::CurDir) => true,
        (Lead::Nothing, Lead::Nothing) => true,
        _ => false,
    };
    if !alike || !segments_start_with(&p, &q) {
        return Err(GuardError::InvalidInput);
    }
    Ok(render_relative(&p, q.len()))
}

} // verus!
