//! What holds of the guard, of a session and of the registry, whatever the
//! requests.

use crate::guard::{candidate_of, guard_verdict, GuardError};
use crate::path::{
    all_normal, has_parent_dir, is_absolute, is_normal, is_parent_dir, joined,
    lemma_joined_first_segment, lemma_joined_starts_with_separator, lemma_rendered_prefix,
    lemma_segments_concat, lemma_segments_normal, lemma_segments_of_joined,
    lemma_segments_of_relative, relative, rendered, segments, starts_with, SEPARATOR,
};
use crate::prefix::{
    begins_with, components, lead_of, lemma_begins_with, lemma_names_of_named, named,
    strip_verdict, written, Lead,
};
use crate::session::{root_sentinel, SessionState};
use crate::status::StatusCode;
use crate::storage::{listing_verdict, reported, ActionView, Listing};
use vstd::prelude::*;

verus! {

/// Whatever the guard accepts is the canonical path that the file system
/// answered, steps to no parent, walks through the whole sandbox root first,
/// and as bytes is an absolute path that begins with the root.
pub proof fn law_accepted_path_lies_within_root(
    ready: bool,
    root: Seq<Seq<u8>>,
    canonical: Option<Seq<u8>>,
)
    requires
        guard_verdict(ready, root, canonical).is_ok(),
    ensures
        ready,
        canonical.is_some(),
        guard_verdict(ready, root, canonical).unwrap() == segments(canonical.unwrap()),
        !has_parent_dir(guard_verdict(ready, root, canonical).unwrap()),
        starts_with(guard_verdict(ready, root, canonical).unwrap(), root),
        is_absolute(rendered(guard_verdict(ready, root, canonical).unwrap())),
        rendered(root).is_prefix_of(rendered(guard_verdict(ready, root, canonical).unwrap())),
{
    lemma_rendered_prefix(guard_verdict(ready, root, canonical).unwrap(), root);
}

/// A path whose canonical form still steps to a parent, or does not walk
/// through the whole sandbox root first, is turned down with a denial, and
/// so is every path before a root was recorded.
pub proof fn law_path_outside_root_is_denied(ready: bool, root: Seq<Seq<u8>>, canonical: Seq<u8>)
    requires
        !ready || !is_absolute(canonical) || has_parent_dir(segments(canonical)) || !starts_with(
            segments(canonical),
            root,
        ),
    ensures
        guard_verdict(ready, root, Some(canonical)) == Err::<Seq<Seq<u8>>, GuardError>(
            GuardError::PermissionDenied,
        ),
{
}

/// Once a negotiation was accepted, every further one is refused with the
/// loss of the connection, and leaves the session as it was: the version
/// that was recorded first stays.
pub proof fn law_second_init_is_refused(
    s: SessionState,
    version: u32,
    root: Option<Seq<u8>>,
    again: u32,
    other_root: Option<Seq<u8>>,
)
    requires
        s.init_accepted(root),
    ensures
        s.after_init(version, root).version == Some(version),
        s.after_init(version, root).init_answer(other_root) == Err::<u32, StatusCode>(
            StatusCode::ConnectionLost,
        ),
        s.after_init(version, root).after_init(again, other_root) == s.after_init(version, root),
{
}

/// A session that has negotiated refuses every negotiation and is not
/// changed by it.
pub proof fn law_init_after_negotiation_is_refused(
    s: SessionState,
    version: u32,
    root: Option<Seq<u8>>,
)
    requires
        s.ready(),
    ensures
        s.init_answer(root) == Err::<u32, StatusCode>(StatusCode::ConnectionLost),
        s.after_init(version, root) == s,
{
}

/// A directory that was opened is listed in one batch of all its entries;
/// after that every listing request on the handle ends in the end-of-listing
/// signal, however often it is made and whatever has become of the
/// directory, until the directory is opened anew. Only the requests that
/// deliver a batch need a directory that the guard accepts.
pub proof fn law_listing_cycle(
    s: SessionState,
    handle: Seq<u8>,
    canonical: Option<Seq<u8>>,
    afterwards: Option<Seq<u8>>,
    listing: Listing,
    later: Listing,
)
    requires
        listing_verdict(listing).is_ok(),
    ensures
        ({
            let opened = s.after_opendir(handle);
            let listed = opened.after_readdir(handle, listing);
            let again = listed.after_readdir(handle, later);
            let reopened = again.after_opendir(handle);
            &&& s.resolve_dir(handle, canonical).is_ok() ==> opened.readdir_plan(handle, canonical)
                == Ok::<ActionView, StatusCode>(
                ActionView::List { path: s.resolve_dir(handle, canonical).unwrap() },
            )
            &&& opened.readdir_answer(handle, listing) == Ok::<
                Seq<crate::protocol::FileView>,
                StatusCode,
            >(reported(listing.entries@))
            &&& reported(listing.entries@).len() == listing.entries@.len()
            &&& listed.readdir_plan(handle, afterwards) == Err::<ActionView, StatusCode>(
                StatusCode::Eof,
            )
            &&& listed.readdir_answer(handle, later) == Err::<
                Seq<crate::protocol::FileView>,
                StatusCode,
            >(StatusCode::Eof)
            &&& again == listed
            &&& again.readdir_plan(handle, afterwards) == Err::<ActionView, StatusCode>(
                StatusCode::Eof,
            )
            &&& reopened.readdir_plan(handle, canonical) == opened.readdir_plan(handle, canonical)
            &&& reopened.readdir_answer(handle, later) == listing_verdict(later)
        }),
{
}

/// An exhausted handle reports the end of the listing and nothing else,
/// whether or not its directory can still be resolved, and stays exhausted.
pub proof fn law_exhausted_handle_reports_eof(
    s: SessionState,
    handle: Seq<u8>,
    canonical: Option<Seq<u8>>,
    listing: Listing,
)
    requires
        s.exhausted.contains(handle),
    ensures
        s.readdir_plan(handle, canonical) == Err::<ActionView, StatusCode>(StatusCode::Eof),
        s.readdir_answer(handle, listing) == Err::<Seq<crate::protocol::FileView>, StatusCode>(
            StatusCode::Eof,
        ),
        s.after_readdir(handle, listing) == s,
{
}

/// In a session that has negotiated, the sentinel that stands for the
/// sandbox root always names a directory, whatever the file system answers.
pub proof fn law_root_sentinel_resolves(s: SessionState, canonical: Option<Seq<u8>>)
    requires
        s.ready(),
    ensures
        s.resolve_dir(root_sentinel(), canonical) == Ok::<Seq<Seq<u8>>, GuardError>(s.root),
{
}

/// A listing request that ends in an error leaves the handle as it was, and
/// other handles are never touched.
pub proof fn law_listing_touches_one_handle(
    s: SessionState,
    handle: Seq<u8>,
    other: Seq<u8>,
    listing: Listing,
)
    requires
        other != handle,
    ensures
        s.after_readdir(handle, listing).exhausted.contains(other) == s.exhausted.contains(other),
        s.after_opendir(handle).exhausted.contains(other) == s.exhausted.contains(other),
        s.readdir_answer(handle, listing).is_err() ==> s.after_readdir(handle, listing) == s,
{
}

/// Two channels that wait under distinct numbers are handed out apart: to
/// take one leaves the other as it was, in either order, and a channel that
/// was taken is no longer there for a second request.
pub proof fn law_distinct_channels_are_handed_out_apart<C>(channels: Map<u32, C>, a: u32, b: u32)
    requires
        a != b,
        channels.contains_key(a),
        channels.contains_key(b),
    ensures
        channels.remove(a).contains_key(b),
        channels.remove(a)[b] == channels[b],
        channels.remove(b).contains_key(a),
        channels.remove(b)[a] == channels[a],
        !channels.remove(a).contains_key(a),
        channels.remove(a).remove(b) == channels.remove(b).remove(a),
{
    assert(channels.remove(a).remove(b) =~= channels.remove(b).remove(a));
}

/// The path that is named for the client's `path` walks through the root,
/// then through the segments of `path`, and through nothing else.
pub proof fn lemma_candidate_segments(root_path: Seq<u8>, path: Seq<u8>)
    ensures
        segments(candidate_of(segments(root_path), path)) == segments(root_path) + segments(path),
        is_absolute(candidate_of(segments(root_path), path)),
{
    let root = segments(root_path);
    let rest = segments(path);
    let all = root + rest;
    lemma_segments_normal(root_path);
    lemma_segments_normal(path);
    assert(all_normal(all)) by {
        assert forall|i: int| 0 <= i < all.len() implies is_normal(#[trigger] all[i]) by {
            if i < root.len() {
                assert(all[i] == root[i]);
            } else {
                assert(all[i] == rest[i - root.len()]);
            }
        }
    }
    lemma_segments_of_joined(all);
    if all.len() > 0 {
        lemma_joined_starts_with_separator(all);
    }
}

/// A path that steps to a parent is never accepted as it stands: where the
/// file system has not resolved the step, so that the answer is the named
/// path itself, the guard denies it.
pub proof fn law_unresolved_traversal_is_denied(ready: bool, root_path: Seq<u8>, path: Seq<u8>)
    requires
        has_parent_dir(segments(path)),
    ensures
        guard_verdict(
            ready,
            segments(root_path),
            Some(candidate_of(segments(root_path), path)),
        ) == Err::<Seq<Seq<u8>>, GuardError>(GuardError::PermissionDenied),
{
    let root = segments(root_path);
    let rest = segments(path);
    lemma_candidate_segments(root_path, path);
    let i = choose|i: int| 0 <= i < rest.len() && is_parent_dir(#[trigger] rest[i]);
    assert((root + rest)[root.len() + i] == rest[i]);
    assert(has_parent_dir(root + rest));
}

/// A path that steps to no parent lies within the sandbox as it stands:
/// where the file system answers the named path itself, the guard accepts
/// it, as the root followed by the segments of the path.
pub proof fn law_plain_path_is_accepted(root_path: Seq<u8>, path: Seq<u8>)
    requires
        !has_parent_dir(segments(root_path)),
        !has_parent_dir(segments(path)),
    ensures
        guard_verdict(true, segments(root_path), Some(candidate_of(segments(root_path), path)))
            == Ok::<Seq<Seq<u8>>, GuardError>(segments(root_path) + segments(path)),
{
    let root = segments(root_path);
    let rest = segments(path);
    let all = root + rest;
    lemma_candidate_segments(root_path, path);
    assert(!has_parent_dir(all)) by {
        if has_parent_dir(all) {
            let i = choose|i: int| 0 <= i < all.len() && is_parent_dir(#[trigger] all[i]);
            if i < root.len() {
                assert(all[i] == root[i]);
            } else {
                assert(all[i] == rest[i - root.len()]);
            }
        }
    }
    assert(all.subrange(0, root.len() as int) =~= root);
}

/// A prefix that has a component is not removed from a path that begins
/// otherwise: an absolute path and a relative one never match, and a path
/// that begins with `./` matches only a prefix that begins with `.` too.
pub proof fn law_unlike_beginnings_do_not_match(path: Seq<u8>, prefix: Seq<u8>)
    requires
        components(prefix).len() > 0,
        lead_of(path) != lead_of(prefix),
    ensures
        strip_verdict(path, prefix) == Err::<Seq<u8>, GuardError>(GuardError::InvalidInput),
{
    lemma_begins_with(path, prefix);
}

/// A prefix is removed exactly where the path begins with all its
/// components, and nothing but a mismatch is ever the error.
pub proof fn law_prefix_is_removed_where_it_matches(path: Seq<u8>, prefix: Seq<u8>)
    ensures
        strip_verdict(path, prefix).is_ok() <==> begins_with(components(path), components(prefix)),
        strip_verdict(path, prefix).is_err() ==> strip_verdict(path, prefix) == Err::<
            Seq<u8>,
            GuardError,
        >(GuardError::InvalidInput),
{
}

/// A path without itself is the empty path.
pub proof fn law_path_without_itself_is_empty(path: Seq<u8>)
    ensures
        strip_verdict(path, path) == Ok::<Seq<u8>, GuardError>(Seq::<u8>::empty()),
{
    let p = components(path);
    assert(p.subrange(0, p.len() as int) =~= p);
    assert(p.subrange(p.len() as int, p.len() as int).len() == 0);
}

/// A prefix without components is the front of every path, and leaves the
/// whole path.
pub proof fn law_empty_prefix_leaves_the_path(path: Seq<u8>, prefix: Seq<u8>)
    requires
        components(prefix).len() == 0,
    ensures
        strip_verdict(path, prefix) == Ok::<Seq<u8>, GuardError>(written(components(path))),
{
    let p = components(path);
    assert(p.subrange(0, 0) =~= components(prefix));
    assert(p.subrange(0, p.len() as int) =~= p);
}

/// What is left once a prefix with a component was removed is a relative
/// path, and joined onto the prefix it is the path again, component by
/// component.
pub proof fn law_rest_joined_onto_prefix_is_the_path(path: Seq<u8>, prefix: Seq<u8>)
    requires
        components(prefix).len() > 0,
        strip_verdict(path, prefix).is_ok(),
    ensures
        lead_of(strip_verdict(path, prefix).unwrap()) == Lead::Nothing,
        components(prefix + seq![SEPARATOR] + strip_verdict(path, prefix).unwrap()) == components(
            path,
        ),
{
    let sp = segments(path);
    let sq = segments(prefix);
    let rest = sp.subrange(sq.len() as int, sp.len() as int);
    let r = strip_verdict(path, prefix).unwrap();
    let joint = prefix + seq![SEPARATOR] + r;
    lemma_begins_with(path, prefix);
    lemma_names_of_named(rest);
    assert(r == relative(rest)) by {
        if rest.len() > 0 {
            assert(named(rest)[0] == crate::prefix::Component::Named(rest[0]));
        }
    }
    lemma_segments_normal(path);
    assert(all_normal(rest)) by {
        assert forall|i: int| 0 <= i < rest.len() implies is_normal(#[trigger] rest[i]) by {
            assert(rest[i] == sp[sq.len() + i]);
        }
    }
    lemma_segments_of_relative(rest);
    lemma_segments_concat(prefix, r);
    assert(sq + rest =~= sp);
    assert(prefix.len() > 0) by {
        if prefix.len() == 0 {
            lemma_segments_of_joined(Seq::<Seq<u8>>::empty());
            assert(joined(Seq::<Seq<u8>>::empty()) =~= prefix);
        }
    }
    assert(joint[0] == prefix[0]);
    if prefix.len() >= 2 {
        assert(joint[1] == prefix[1]);
    } else {
        assert(joint[1] == SEPARATOR);
    }
    assert(lead_of(joint) == lead_of(prefix));
    if rest.len() > 0 {
        lemma_joined_first_segment(rest);
        lemma_joined_starts_with_separator(rest);
        let first = rest[0];
        let whole = joined(rest);
        assert(is_normal(first));
        assert forall|i: int| 0 <= i < first.len() implies r[i] == first[i] by {
            assert(whole.subrange(0, (1 + first.len()) as int)[i + 1] == (seq![SEPARATOR] + first)[i + 1]);
        }
        assert(first.contains(first[0]));
        if first.len() >= 2 {
            assert(first.contains(first[1]));
        }
    }
}

} // verus!
