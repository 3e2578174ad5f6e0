//! Walks over a remote directory tree, one listing at a time.
//!
//! The server lists one directory per request. A walk keeps the entries that
//! are still to visit, in order; where it meets a directory it asks the
//! caller for that directory's listing and visits its entries next, so that
//! the tree is visited depth first, in the order of the listings.
use crate::content::{ContentEntry, ContentType, ContentsResponse, EntryView};
use crate::text::str_eq;
use vstd::prelude::*;

verus! {

/// The views of some entries.
pub open spec fn entries_view(v: Seq<ContentEntry>) -> Seq<EntryView> {
    v.map_values(|e: ContentEntry| e@)
}

pub open spec fn is_dir(e: EntryView) -> bool {
    e.content_type == ContentType::Dir
}

/// The empty file that keeps an otherwise empty directory in the repository.
pub open spec fn is_placeholder(e: EntryView) -> bool {
    e.name == ".gitkeep"@
}

/// The position of the first directory among the entries, or their number.
pub open spec fn first_dir(s: Seq<EntryView>) -> int
    decreases s.len(),
{
    if s.len() == 0 {
        0
    } else if is_dir(s[0]) {
        0
    } else {
        1 + first_dir(s.drop_first())
    }
}

/// The entries but the placeholders, in order.
pub open spec fn kept_files(s: Seq<EntryView>) -> Seq<EntryView>
    decreases s.len(),
{
    if s.len() == 0 {
        s
    } else if is_placeholder(s.last()) {
        kept_files(s.drop_last())
    } else {
        kept_files(s.drop_last()).push(s.last())
    }
}

/// The files that a walk over the pending entries ends with, where `tree`
/// gives the listing of each directory: every entry that is no directory,
/// but the placeholders, depth first. `None` where the walk would enter more
/// than `budget` directories, or one that `tree` does not list.
pub open spec fn walk_result(tree: Map<Seq<char>, Seq<EntryView>>, pending: Seq<EntryView>, budget: nat) -> Option<
    Seq<EntryView>,
>
    decreases budget, pending.len(),
{
    if pending.len() == 0 {
        Some(Seq::empty())
    } else if is_dir(pending[0]) {
        if budget == 0 || !tree.contains_key(pending[0].path) {
            None
        } else {
            walk_result(tree, tree[pending[0].path] + pending.drop_first(), (budget - 1) as nat)
        }
    } else {
        match walk_result(tree, pending.drop_first(), budget) {
            Some(r) => Some(kept_files(seq![pending[0]]) + r),
            None => None,
        }
    }
}

proof fn lemma_first_dir_bounds(s: Seq<EntryView>)
    ensures
        0 <= first_dir(s) <= s.len(),
    decreases s.len(),
{
    if s.len() > 0 && !is_dir(s[0]) {
        lemma_first_dir_bounds(s.drop_first());
    }
}

proof fn lemma_kept_files_append(a: Seq<EntryView>, b: Seq<EntryView>)
    ensures
        kept_files(a + b) == kept_files(a) + kept_files(b),
    decreases b.len(),
{
    if b.len() == 0 {
        assert(a + b =~= a);
        assert(kept_files(a) + kept_files(b) =~= kept_files(a));
    } else {
        lemma_kept_files_append(a, b.drop_last());
        assert((a + b).drop_last() =~= a + b.drop_last());
        assert((a + b).last() == b.last());
        if is_placeholder(b.last()) {
        } else {
            assert(kept_files(a) + kept_files(b.drop_last()).push(b.last()) =~= (kept_files(a)
                + kept_files(b.drop_last())).push(b.last()));
        }
    }
}

/// A walk with no directory left ends with the files it holds, but the
/// placeholders.
pub proof fn law_walk_without_directories(tree: Map<Seq<char>, Seq<EntryView>>, pending: Seq<EntryView>, budget: nat)
    requires
        first_dir(pending) == pending.len(),
    ensures
        walk_result(tree, pending, budget) == Some(kept_files(pending)),
    decreases pending.len(),
{
    if pending.len() > 0 {
        let rest = pending.drop_first();
        assert(!is_dir(pending[0]));
        law_walk_without_directories(tree, rest, budget);
        lemma_kept_files_append(seq![pending[0]], rest);
        assert(seq![pending[0]] + rest =~= pending);
    } else {
        assert(kept_files(pending) =~= Seq::<EntryView>::empty());
    }
}

/// A step of the folder walk keeps what the walk ends with: the files kept
/// before the first directory, then what the walk over that directory's
/// listing, followed by the rest, ends with.
pub proof fn law_walk_step_keeps_result(
    tree: Map<Seq<char>, Seq<EntryView>>,
    pending: Seq<EntryView>,
    budget: nat,
)
    requires
        first_dir(pending) < pending.len(),
        budget > 0,
        tree.contains_key(pending[first_dir(pending)].path),
    ensures
        ({
            let k = first_dir(pending);
            let next = walk_result(
                tree,
                tree[pending[k].path] + pending.subrange(k + 1, pending.len() as int),
                (budget - 1) as nat,
            );
            walk_result(tree, pending, budget) == match next {
                Some(r) => Some(kept_files(pending.subrange(0, k)) + r),
                None => None,
            }
        }),
    decreases pending.len(),
{
    let k = first_dir(pending);
    lemma_first_dir_bounds(pending);
    lemma_first_dir_bounds(pending.drop_first());
    if k == 0 {
        assert(pending.subrange(0, 0) =~= Seq::<EntryView>::empty());
        assert(pending.subrange(1, pending.len() as int) =~= pending.drop_first());
        let next = walk_result(tree, tree[pending[0].path] + pending.drop_first(), (budget - 1) as nat);
        if next is Some {
            assert(kept_files(pending.subrange(0, 0)) + next->0 =~= next->0);
        }
    } else {
        let rest = pending.drop_first();
        assert(first_dir(rest) == k - 1);
        assert(rest[k - 1] == pending[k]);
        law_walk_step_keeps_result(tree, rest, budget);
        assert(rest.subrange(k, rest.len() as int) =~= pending.subrange(k + 1, pending.len() as int));
        assert(seq![pending[0]] + rest.subrange(0, k - 1) =~= pending.subrange(0, k));
        lemma_kept_files_append(seq![pending[0]], rest.subrange(0, k - 1));
        let next = walk_result(
            tree,
            tree[pending[k].path] + pending.subrange(k + 1, pending.len() as int),
            (budget - 1) as nat,
        );
        if next is Some {
            assert(kept_files(seq![pending[0]]) + (kept_files(rest.subrange(0, k - 1)) + next->0)
                =~= kept_files(pending.subrange(0, k)) + next->0);
        }
    }
}

/// Among entries that hold no directory, the ones a folder walk keeps are
/// no placeholders, and no directories either.
pub proof fn law_kept_files_are_plain(s: Seq<EntryView>)
    requires
        forall|i: int| 0 <= i < s.len() ==> !is_dir(#[trigger] s[i]),
    ensures
        forall|i: int|
            0 <= i < kept_files(s).len() ==> !is_dir(#[trigger] kept_files(s)[i]) && !is_placeholder(
                kept_files(s)[i],
            ),
    decreases s.len(),
{
    if s.len() > 0 {
        let t = s.drop_last();
        assert forall|i: int| 0 <= i < t.len() implies !is_dir(#[trigger] t[i]) by {
            assert(t[i] == s[i]);
        }
        law_kept_files_are_plain(t);
        assert(!is_dir(s[s.len() - 1]));
        let k = kept_files(s);
        let kt = kept_files(t);
        assert forall|i: int| 0 <= i < k.len() implies !is_dir(#[trigger] k[i]) && !is_placeholder(
            k[i],
        ) by {
            if i < kt.len() {
                assert(k[i] == kt[i]);
            }
        }
    }
}

proof fn lemma_first_dir(s: Seq<EntryView>, k: int)
    requires
        0 <= k <= s.len(),
        forall|j: int| 0 <= j < k ==> !is_dir(#[trigger] s[j]),
        k < s.len() ==> is_dir(s[k]),
    ensures
        first_dir(s) == k,
    decreases s.len(),
{
    if s.len() > 0 && k > 0 {
        let t = s.drop_first();
        assert forall|j: int| 0 <= j < k - 1 implies !is_dir(#[trigger] t[j]) by {
            assert(t[j] == s[j + 1]);
        }
        assert(!is_dir(s[0]));
        lemma_first_dir(t, k - 1);
    }
}

proof fn lemma_push_view(v: Seq<ContentEntry>, e: ContentEntry)
    ensures
        entries_view(v.push(e)) == entries_view(v).push(e@),
{
    assert(entries_view(v.push(e)) =~= entries_view(v).push(e@));
}

/// Puts the entries of a listing before the pending ones.
fn prepend(pending: &mut Vec<ContentEntry>, listing: ContentsResponse)
    ensures
        entries_view(final(pending)@) == listing@ + entries_view(old(pending)@),
{
    let mut first = listing.content;
    first.append(pending);
    proof {
        assert(entries_view(first@) =~= listing@ + entries_view(old(pending)@));
    }
    *pending = first;
}

/// The listing of a whole directory tree: every entry that is no directory,
/// but the placeholders.
pub struct FolderWalk {
    /// The entries still to visit, in order.
    pub pending: Vec<ContentEntry>,
    /// The files found so far, in order.
    pub files: Vec<ContentEntry>,
}

impl FolderWalk {
    /// A walk over the tree whose top directory has the given listing.
    pub fn new(listing: ContentsResponse) -> (w: FolderWalk)
        ensures
            entries_view(w.pending@) == listing@,
            w.files@.len() == 0,
    {
        FolderWalk { pending: listing.content, files: Vec::new() }
    }

    /// Visits the pending entries up to the next directory: keeps the files
    /// but the placeholders, and gives the directory's path, whose listing
    /// the walk then needs. `None` once every entry has been visited.
    pub fn step(&mut self) -> (r: Option<String>)
        ensures
            ({
                let s = entries_view(old(self).pending@);
                let k = first_dir(s);
                &&& entries_view(final(self).files@) == entries_view(old(self).files@) + kept_files(
                    s.subrange(0, k),
                )
                &&& k < s.len() ==> (r matches Some(p) && p@ == s[k].path && entries_view(
                    final(self).pending@,
                ) == s.subrange(k + 1, s.len() as int))
                &&& k == s.len() ==> (r is None && final(self).pending@.len() == 0)
            }),
    {
        let ghost s = entries_view(self.pending@);
        let ghost f0 = entries_view(self.files@);
        let ghost mut i: int = 0;
        proof {
            assert(s.subrange(0, 0) =~= Seq::<EntryView>::empty());
            assert(s.subrange(0, s.len() as int) =~= s);
        }
        while self.pending.len() > 0
            invariant
                s == entries_view(old(self).pending@),
                f0 == entries_view(old(self).files@),
                0 <= i <= s.len(),
                entries_view(self.pending@) == s.subrange(i, s.len() as int),
                forall|j: int| 0 <= j < i ==> !is_dir(#[trigger] s[j]),
                entries_view(self.files@) == f0 + kept_files(s.subrange(0, i)),
            decreases self.pending@.len(),
        {
            let ghost before = self.pending@;
            proof {
                assert(entries_view(before).len() == before.len());
                assert(entries_view(before)[0] == before[0]@);
            }
            let e = self.pending.remove(0);
            proof {
                assert(s.subrange(i, s.len() as int)[0] == s[i]);
                assert(e@ == s[i]);
                assert(self.pending@ == before.drop_first());
                assert(entries_view(self.pending@) =~= entries_view(before).drop_first());
                assert(entries_view(self.pending@) =~= s.subrange(i + 1, s.len() as int));
                let sub = s.subrange(0, i + 1);
                assert(sub.drop_last() =~= s.subrange(0, i));
                assert(sub.last() == s[i]);
            }
            if e.content_type == ContentType::Dir {
                proof {
                    lemma_first_dir(s, i);
                }
                return Some(e.path);
            }
            if !str_eq(e.name.as_str(), ".gitkeep") {
                let ghost fv = self.files@;
                self.files.push(e);
                proof {
                    lemma_push_view(fv, e);
                }
            }
            proof {
                i = i + 1;
            }
        }
        proof {
            lemma_first_dir(s, i);
        }
        None
    }

    /// Visits the entries of the listing of the directory that `step` gave
    /// before the others.
    pub fn enter(&mut self, listing: ContentsResponse)
        ensures
            entries_view(final(self).pending@) == listing@ + entries_view(old(self).pending@),
            final(self).files@ == old(self).files@,
    {
        prepend(&mut self.pending, listing);
    }

    /// The files found.
    pub fn finish(self) -> (r: ContentsResponse)
        ensures
            r@ == entries_view(self.files@),
    {
        ContentsResponse { content: self.files }
    }
}

/// The entries that a deletion over the pending entries deletes, in order,
/// where `tree` gives the listing of each directory. `None` where a recursive
/// deletion would enter more than `budget` directories, or one that `tree`
/// does not list.
pub open spec fn deletions(
    tree: Map<Seq<char>, Seq<EntryView>>,
    pending: Seq<EntryView>,
    recursive: bool,
    budget: nat,
) -> Option<Seq<EntryView>>
    decreases budget, pending.len(),
{
    if pending.len() == 0 {
        Some(Seq::empty())
    } else if is_dir(pending[0]) && recursive {
        if budget == 0 || !tree.contains_key(pending[0].path) {
            None
        } else {
            deletions(tree, tree[pending[0].path] + pending.drop_first(), recursive, (budget - 1) as nat)
        }
    } else {
        match deletions(tree, pending.drop_first(), recursive, budget) {
            Some(r) => Some(seq![pending[0]] + r),
            None => None,
        }
    }
}

/// A deletion that does not recurse deletes exactly the entries of the
/// listing, directories included, in order.
pub proof fn law_flat_deletion(tree: Map<Seq<char>, Seq<EntryView>>, pending: Seq<EntryView>, budget: nat)
    ensures
        deletions(tree, pending, false, budget) == Some(pending),
    decreases pending.len(),
{
    if pending.len() > 0 {
        law_flat_deletion(tree, pending.drop_first(), budget);
        assert(seq![pending[0]] + pending.drop_first() =~= pending);
    }
}

/// A recursive deletion deletes no directory entry: it empties directories
/// instead.
pub proof fn law_recursive_deletion_deletes_files(
    tree: Map<Seq<char>, Seq<EntryView>>,
    pending: Seq<EntryView>,
    budget: nat,
    i: int,
)
    requires
        deletions(tree, pending, true, budget) is Some,
        0 <= i < deletions(tree, pending, true, budget)->0.len(),
    ensures
        !is_dir(deletions(tree, pending, true, budget)->0[i]),
    decreases budget, pending.len(),
{
    if pending.len() > 0 {
        if is_dir(pending[0]) {
            law_recursive_deletion_deletes_files(
                tree,
                tree[pending[0].path] + pending.drop_first(),
                (budget - 1) as nat,
                i,
            );
        } else if i > 0 {
            let r = deletions(tree, pending.drop_first(), true, budget)->0;
            assert((seq![pending[0]] + r)[i] == r[i - 1]);
            law_recursive_deletion_deletes_files(tree, pending.drop_first(), budget, i - 1);
        }
    }
}

/// A step of the deletion keeps what the deletion ends with: a directory
/// that a recursive deletion enters is replaced by its listing, and any other
/// entry is deleted first, before what the rest deletes.
pub proof fn law_delete_step_keeps_result(
    tree: Map<Seq<char>, Seq<EntryView>>,
    pending: Seq<EntryView>,
    recursive: bool,
    budget: nat,
)
    requires
        pending.len() > 0,
    ensures
        is_dir(pending[0]) && recursive && budget > 0 && tree.contains_key(pending[0].path)
            ==> deletions(tree, pending, recursive, budget) == deletions(
            tree,
            tree[pending[0].path] + pending.drop_first(),
            recursive,
            (budget - 1) as nat,
        ),
        !(is_dir(pending[0]) && recursive) ==> deletions(tree, pending, recursive, budget) == match deletions(
            tree,
            pending.drop_first(),
            recursive,
            budget,
        ) {
            Some(r) => Some(seq![pending[0]] + r),
            None => None,
        },
{
}

/// A recursive deletion deletes every file that the listing of the same
/// tree lists, and the placeholders besides: with the placeholders left
/// out, what it deletes is what the folder walk ends with.
pub proof fn law_recursive_deletion_covers_listing(
    tree: Map<Seq<char>, Seq<EntryView>>,
    pending: Seq<EntryView>,
    budget: nat,
)
    ensures
        walk_result(tree, pending, budget) == match deletions(tree, pending, true, budget) {
            Some(d) => Some(kept_files(d)),
            None => None,
        },
    decreases budget, pending.len(),
{
    if pending.len() == 0 {
        assert(kept_files(Seq::<EntryView>::empty()) =~= Seq::<EntryView>::empty());
    } else if is_dir(pending[0]) {
        if budget > 0 && tree.contains_key(pending[0].path) {
            law_recursive_deletion_covers_listing(
                tree,
                tree[pending[0].path] + pending.drop_first(),
                (budget - 1) as nat,
            );
        }
    } else {
        law_recursive_deletion_covers_listing(tree, pending.drop_first(), budget);
        let d = deletions(tree, pending.drop_first(), true, budget);
        if d is Some {
            lemma_kept_files_append(seq![pending[0]], d->0);
        }
    }
}

/// What a deletion does next.
#[derive(Debug)]
pub enum DeleteStep {
    /// List the directory at this path, then go on.
    List(String),
    /// Delete this entry.
    Delete(ContentEntry),
}

/// The deletion of the entries of a directory. A directory inside it is
/// emptied where the deletion is recursive; where it is not, the directory's
/// entry itself is handed out for deletion.
pub struct DeleteWalk {
    /// The entries still to visit, in order.
    pub pending: Vec<ContentEntry>,
    pub recursive: bool,
}

impl DeleteWalk {
    /// A deletion of the entries of the given listing.
    pub fn new(listing: ContentsResponse, recursive: bool) -> (w: DeleteWalk)
        ensures
            entries_view(w.pending@) == listing@,
            w.recursive == recursive,
    {
        DeleteWalk { pending: listing.content, recursive }
    }

    /// Takes the next entry: a directory to list where the deletion is
    /// recursive, else an entry to delete. `None` once every entry is taken.
    pub fn step(&mut self) -> (r: Option<DeleteStep>)
        ensures
            final(self).recursive == old(self).recursive,
            old(self).pending@.len() == 0 ==> r is None && final(self).pending@.len() == 0,
            old(self).pending@.len() > 0 ==> ({
                let s = entries_view(old(self).pending@);
                &&& entries_view(final(self).pending@) == s.drop_first()
                &&& is_dir(s[0]) && old(self).recursive ==> (r matches Some(DeleteStep::List(p))
                    && p@ == s[0].path)
                &&& !(is_dir(s[0]) && old(self).recursive) ==> (r matches Some(DeleteStep::Delete(e))
                    && e@ == s[0])
            }),
    {
        if self.pending.len() == 0 {
            return None;
        }
        let ghost s = entries_view(self.pending@);
        let e = self.pending.remove(0);
        proof {
            assert(entries_view(self.pending@) =~= s.drop_first());
        }
        if e.content_type == ContentType::Dir && self.recursive {
            Some(DeleteStep::List(e.path))
        } else {
            Some(DeleteStep::Delete(e))
        }
    }

    /// Visits the entries of the listing of the directory that `step` gave
    /// before the others.
    pub fn enter(&mut self, listing: ContentsResponse)
        ensures
            entries_view(final(self).pending@) == listing@ + entries_view(old(self).pending@),
            final(self).recursive == old(self).recursive,
    {
        prepend(&mut self.pending, listing);
    }
}

} // verus!
