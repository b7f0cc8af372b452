//! The home-directory shorthand at the head of a path.
use vstd::prelude::*;

verus! {

/// A path calls for the home directory when it is `~` or begins with `~`
/// and a path separator.
pub open spec fn has_home_prefix(path: Seq<char>) -> bool {
    path.len() > 0 && path[0] == '~' && (path.len() == 1 || path[1] == '/' || path[1] == '\\')
}

/// What can come of expanding the home directory in `path`: a path that
/// does not call for it is unchanged; in one that does, everything after the
/// `~` is kept at the end of the result.
pub open spec fn is_tilde_expansion(path: Seq<char>, expanded: Seq<char>) -> bool {
    if has_home_prefix(path) {
        path.skip(1).is_suffix_of(expanded)
    } else {
        expanded == path
    }
}

/// Every path is a tilde expansion of itself: the one that results where no
/// home directory is known.
pub proof fn lemma_unexpanded(path: Seq<char>)
    ensures
        is_tilde_expansion(path, path),
{
    if has_home_prefix(path) {
        assert(path.skip(1) =~= path.subrange(1, path.len() as int));
    }
}

/// Calls `shellexpand::tilde`. Trusted: the result is a tilde expansion of
/// `path`. Which directory replaces the `~`, and whether one does, is left
/// open: it depends on the environment.
#[verifier::external_body]
pub(crate) fn expand_tilde(path: &str) -> (expanded: String)
    ensures
        is_tilde_expansion(path@, expanded@),
{
    shellexpand::tilde(path).into_owned()
}

} // verus!
