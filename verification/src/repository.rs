//! What is read from the repository before assembly: the tag index and the
//! walked history.

use crate::keyed::TextMap;
use crate::model::{Commit, CommitView, Reference, ReferenceView};
use vstd::prelude::*;

verus! {

/// Maps the identifier of a tagged commit to the name of its tag.
pub type TagIndex = TextMap<String>;

/// The references of the repository could not be listed.
#[derive(Debug, PartialEq, Eq)]
pub struct ReferenceReadError;

/// The head of the repository could not be resolved, so no history is walked.
#[derive(Debug, PartialEq, Eq)]
pub struct RepositoryReadError;

/// Whether the reference is a tag that points at a commit.
pub open spec fn names_commit(reference: ReferenceView) -> bool {
    reference.is_tag && reference.target is Some
}

/// The name under which a tag is shown: its short name, or `unknown` where
/// that is not readable.
pub open spec fn tag_name(reference: ReferenceView) -> Seq<char> {
    match reference.shorthand {
        Some(name) => name,
        None => "unknown"@,
    }
}

/// The tag index of a listing of references. Unreadable entries (`None`) and
/// references that are no tags, or point at no commit, bind nothing. Where
/// several tags point at one commit, the one listed last gives the name.
pub open spec fn tag_map(listing: Seq<Option<ReferenceView>>) -> Map<Seq<char>, Seq<char>>
    decreases listing.len(),
{
    if listing.len() == 0 {
        Map::empty()
    } else {
        let before = tag_map(listing.drop_last());
        match listing.last() {
            Some(reference) => if names_commit(reference) {
                before.insert(reference.target->0, tag_name(reference))
            } else {
                before
            },
            None => before,
        }
    }
}

/// Whether entry `i` of the listing is a tag on commit `id`.
pub open spec fn tags_commit(listing: Seq<Option<ReferenceView>>, i: int, id: Seq<char>) -> bool {
    &&& 0 <= i < listing.len()
    &&& listing[i] matches Some(reference)
    &&& names_commit(reference)
    &&& reference.target->0 == id
}

/// A commit is in the index exactly if some listed tag points at it.
pub proof fn lemma_tag_map_domain(listing: Seq<Option<ReferenceView>>, id: Seq<char>)
    ensures
        tag_map(listing).contains_key(id) <==> exists|i: int| tags_commit(listing, i, id),
    decreases listing.len(),
{
    if listing.len() > 0 {
        let rest = listing.drop_last();
        lemma_tag_map_domain(rest, id);
        let last = listing.len() - 1;
        if tag_map(listing).contains_key(id) {
            if tags_commit(listing, last, id) {
            } else {
                let i = choose|i: int| tags_commit(rest, i, id);
                assert(tags_commit(listing, i, id));
            }
        }
        if exists|i: int| tags_commit(listing, i, id) {
            let i = choose|i: int| tags_commit(listing, i, id);
            if i < last {
                assert(tags_commit(rest, i, id));
            }
        }
    }
}

/// The index names a commit after the last listed tag that points at it.
pub proof fn lemma_tag_map_last_wins(listing: Seq<Option<ReferenceView>>, i: int, id: Seq<char>)
    requires
        tags_commit(listing, i, id),
        forall|j: int| i < j < listing.len() ==> !tags_commit(listing, j, id),
    ensures
        tag_map(listing).contains_key(id),
        tag_map(listing)[id] == tag_name(listing[i]->0),
    decreases listing.len(),
{
    let last = listing.len() - 1;
    if i < last {
        let rest = listing.drop_last();
        assert(tags_commit(rest, i, id));
        assert forall|j: int| i < j < rest.len() implies !tags_commit(rest, j, id) by {
            assert(!tags_commit(listing, j, id));
        }
        lemma_tag_map_last_wins(rest, i, id);
        assert(!tags_commit(listing, last, id));
    }
}

/// Builds the tag index from a listing of the repository's references.
///
/// `None` stands for a listing that could not be made, and is an error; a
/// `None` inside the listing stands for one reference that could not be
/// read, and is passed over.
pub fn get_tags(references: &Option<Vec<Option<Reference>>>) -> (built: Result<
    TagIndex,
    ReferenceReadError,
>)
    ensures
        built is Err <==> references is None,
        built matches Ok(index) ==> index@ == tag_map(references->0.deep_view()),
{
    match references {
        None => Err(ReferenceReadError),
        Some(listing) => {
            let mut index: TagIndex = TextMap::new();
            let mut i: usize = 0;
            while i < listing.len()
                invariant
                    0 <= i <= listing.len(),
                    index@ == tag_map(listing.deep_view().take(i as int)),
                decreases listing.len() - i,
            {
                let ghost until = listing.deep_view().take(i + 1);
                assert(until.drop_last() =~= listing.deep_view().take(i as int));
                assert(until.last() == listing[i as int].deep_view());
                match &listing[i] {
                    Some(reference) => {
                        if reference.is_tag {
                            match &reference.target {
                                Some(target) => {
                                    let name = match &reference.shorthand {
                                        Some(shorthand) => shorthand.clone(),
                                        None => String::from_str("unknown"),
                                    };
                                    index.insert(target.clone(), name);
                                },
                                None => {},
                            }
                        }
                    },
                    None => {},
                }
                i += 1;
            }
            assert(listing.deep_view().take(i as int) =~= listing.deep_view());
            Ok(index)
        },
    }
}

/// The entries of a walk that could be read, in walk order.
pub open spec fn readable(walk: Seq<Option<CommitView>>) -> Seq<CommitView>
    decreases walk.len(),
{
    if walk.len() == 0 {
        Seq::empty()
    } else {
        match walk.last() {
            Some(commit) => readable(walk.drop_last()).push(commit),
            None => readable(walk.drop_last()),
        }
    }
}

/// The commits of a history walk.
///
/// `None` stands for a walk that could not start, and is an error; a `None`
/// inside the walk stands for one commit that could not be read, and is
/// passed over.
pub fn get_commits(walk: &Option<Vec<Option<Commit>>>) -> (read: Result<
    Vec<Commit>,
    RepositoryReadError,
>)
    ensures
        read is Err <==> walk is None,
        read matches Ok(commits) ==> commits.deep_view() == readable(walk->0.deep_view()),
{
    match walk {
        None => Err(RepositoryReadError),
        Some(entries) => {
            let mut commits: Vec<Commit> = Vec::new();
            let mut i: usize = 0;
            while i < entries.len()
                invariant
                    0 <= i <= entries.len(),
                    commits.deep_view() == readable(entries.deep_view().take(i as int)),
                decreases entries.len() - i,
            {
                let ghost until = entries.deep_view().take(i + 1);
                let ghost before = commits.deep_view();
                assert(until.drop_last() =~= entries.deep_view().take(i as int));
                assert(until.last() == entries[i as int].deep_view());
                match &entries[i] {
                    Some(commit) => {
                        commits.push(commit.clone());
                        assert(commits.deep_view() =~= before.push(commit@));
                    },
                    None => {},
                }
                i += 1;
            }
            assert(entries.deep_view().take(i as int) =~= entries.deep_view());
            Ok(commits)
        },
    }
}

} // verus!
