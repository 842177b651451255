//! The delete handler: derives a safe target under the uploads
//! directory from the request path; the removal itself happens
//! outside the library.

use vstd::prelude::*;

use crate::tokens;
use crate::util;
use crate::network::router::{spec_trim_slashes, trim_leading_slashes};

verus! {

/// The file path a delete request names: the request path without its
/// leading slashes, and without a leading `upload` segment.
pub open spec fn spec_extract_file_path(uri: Seq<u8>) -> Seq<u8> {
    let p = spec_trim_slashes(uri);
    if tokens::spec_upload_word().is_prefix_of(p) {
        spec_trim_slashes(p.skip(tokens::spec_upload_word().len() as int))
    } else {
        p
    }
}

/// Strips `/upload` framing from a request path.
pub fn extract_file_path(uri: &[u8]) -> (r: Vec<u8>)
    ensures
        r@ == spec_extract_file_path(uri@),
{
    let p = trim_leading_slashes(uri);
    let upload = tokens::upload_word();
    if util::starts_with(p.as_slice(), upload.as_slice()) {
        let plen = p.len();
        let rest = util::subvec(p.as_slice(), upload.len(), plen);
        proof {
            assert(rest@ =~= p@.skip(tokens::spec_upload_word().len() as int));
        }
        trim_leading_slashes(rest.as_slice())
    } else {
        p
    }
}

/// Joining path components under a base, stopping at the first
/// component that is not a plain name: empty and `.` components are
/// skipped, and a leading slash, a `..` or any later component ends
/// the walk.
pub open spec fn spec_walk_components(base: Seq<u8>, parts: Seq<Seq<u8>>) -> Seq<u8>
    decreases parts.len(),
{
    if parts.len() == 0 {
        base
    } else {
        let p = parts[0];
        if p.len() == 0 || p == seq!['.' as u8] {
            spec_walk_components(base, parts.skip(1))
        } else if p == seq!['.' as u8, '.' as u8] {
            base
        } else {
            spec_walk_components(base + seq!['/' as u8] + p, parts.skip(1))
        }
    }
}

/// The path built under a base directory from the plain leading
/// components of a relative path.
pub open spec fn spec_build_safe_path(base_dir: Seq<u8>, relative: Seq<u8>) -> Seq<u8> {
    if relative.len() > 0 && relative[0] == '/' as u8 {
        base_dir
    } else {
        spec_walk_components(base_dir, util::spec_split(relative, '/' as u8))
    }
}

/// Builds a path under `base_dir`, walking only plain components and
/// stopping at anything else.
pub fn build_safe_path(base_dir: &[u8], relative: &[u8]) -> (r: Vec<u8>)
    ensures
        r@ == spec_build_safe_path(base_dir@, relative@),
{
    if relative.len() > 0 && relative[0] == '/' as u8 {
        return vstd::slice::slice_to_vec(base_dir);
    }
    let parts = util::split_byte(relative, '/' as u8);
    let ghost all = parts.deep_view();
    let mut acc: Vec<u8> = vstd::slice::slice_to_vec(base_dir);
    let mut k: usize = 0;
    proof {
        assert(all.skip(0) =~~= all);
    }
    while k < parts.len()
        invariant
            0 <= k <= parts@.len(),
            all == parts.deep_view(),
            all.len() == parts@.len(),
            spec_build_safe_path(base_dir@, relative@) == spec_walk_components(
                acc@,
                all.skip(k as int),
            ),
        decreases parts.len() - k,
    {
        let ghost rest = all.skip(k as int);
        proof {
            assert(rest[0] == all[k as int]);
            assert(all[k as int] == parts@[k as int]@);
            assert(rest.skip(1) =~~= all.skip(k as int + 1));
        }
        let part = &parts[k];
        let dot: Vec<u8> = vec!['.' as u8];
        assert(dot@ =~= seq!['.' as u8]);
        let dotdot: Vec<u8> = vec!['.' as u8, '.' as u8];
        assert(dotdot@ =~= seq!['.' as u8, '.' as u8]);
        if part.len() == 0 || util::bytes_eq(part.as_slice(), dot.as_slice()) {
        } else if util::bytes_eq(part.as_slice(), dotdot.as_slice()) {
            return acc;
        } else {
            let ghost pre = acc@;
            acc.push('/' as u8);
            acc.extend_from_slice(part.as_slice());
            proof {
                assert(acc@ =~= pre + seq!['/' as u8] + rest[0]);
            }
        }
        k = k + 1;
    }
    proof {
        assert(all.skip(k as int) =~~= Seq::<Seq<u8>>::empty());
    }
    acc
}

/// A path is a safe delete target when it lies under `uploads` and
/// holds no `..`.
pub open spec fn spec_is_safe_path(path: Seq<u8>) -> bool {
    &&& tokens::spec_uploads_dir().is_prefix_of(path)
    &&& !(exists|i: int|
        #[trigger] util::match_at(path, crate::network::router::spec_dotdot(), i))
}

/// Checks that a built path stays under the uploads directory.
pub fn is_safe_path(path: &[u8]) -> (r: bool)
    ensures
        r == spec_is_safe_path(path@),
{
    let uploads = tokens::uploads_dir();
    if !util::starts_with(path, uploads.as_slice()) {
        return false;
    }
    let dotdot: Vec<u8> = vec!['.' as u8, '.' as u8];
    assert(dotdot@ =~= crate::network::router::spec_dotdot());
    !util::contains_seq(path, dotdot.as_slice())
}

/// The target a delete request is allowed to remove, when its path is
/// safe.
pub open spec fn spec_delete_target(request_path: Seq<u8>) -> Option<Seq<u8>> {
    let full = spec_build_safe_path(
        tokens::spec_uploads_dir(),
        spec_extract_file_path(request_path),
    );
    if spec_is_safe_path(full) {
        Some(full)
    } else {
        None
    }
}

/// Resolves the file a delete request names under `uploads`, refusing
/// unsafe paths.
pub fn delete_target(request_path: &[u8]) -> (r: Option<Vec<u8>>)
    ensures
        r is Some <==> spec_delete_target(request_path@) is Some,
        r matches Some(v) ==> Some(v@) == spec_delete_target(request_path@),
{
    let file_path = extract_file_path(request_path);
    let uploads = tokens::uploads_dir();
    let full = build_safe_path(uploads.as_slice(), file_path.as_slice());
    if is_safe_path(full.as_slice()) {
        Some(full)
    } else {
        None
    }
}

} // verus!
