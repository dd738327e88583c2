//! The path explorer's decision logic: an iterative depth-first traversal
//! over an explicit stack of pending directories. The surrounding process
//! reads each directory from disk and hands the listing in; the explorer
//! decides what is pushed onto the stack (subdirectories), what becomes a
//! task (regular files), and what is silently skipped (links and everything
//! else). A ghost log of the absorbed listings lets the whole traversal's
//! output be stated and proved: exactly the regular-file entries, nothing
//! more.

use vstd::prelude::*;

verus! {

/// The one fatal failure of an explore operation: the root path does not
/// exist. Everything else (an unreadable subtree, a vanished entry) is
/// recovered locally and never surfaces here.
#[derive(Clone, Copy, PartialEq, Eq, Structural, Debug)]
pub enum ExploreError {
    RootNotFound,
}

impl ExploreError {
    /// A short description for the fatal-error channel.
    pub fn message(&self) -> (r: String)
        ensures
            r@ == "Path not found"@,
    {
        "Path not found".to_owned()
    }
}

/// What kind of entry a directory listing holds. Anything that is neither a
/// directory nor a regular file (links, devices, sockets) is `Other`.
#[derive(Clone, Copy, PartialEq, Eq, Structural, Debug)]
pub enum EntryKind {
    Directory,
    RegularFile,
    Other,
}

/// One entry of a directory listing, as the explorer sees it: its path and
/// what kind of thing it is.
pub struct DirEntryInfo {
    pub path: String,
    pub kind: EntryKind,
}

/// The paths of the regular-file entries of a listing, in listing order.
pub open spec fn files_of(entries: Seq<DirEntryInfo>) -> Seq<Seq<char>>
    decreases entries.len(),
{
    if entries.len() == 0 {
        Seq::empty()
    } else {
        let rest = files_of(entries.drop_last());
        if entries.last().kind is RegularFile {
            rest.push(entries.last().path@)
        } else {
            rest
        }
    }
}

/// The paths of the directory entries of a listing, in listing order.
pub open spec fn dirs_of(entries: Seq<DirEntryInfo>) -> Seq<Seq<char>>
    decreases entries.len(),
{
    if entries.len() == 0 {
        Seq::empty()
    } else {
        let rest = dirs_of(entries.drop_last());
        if entries.last().kind is Directory {
            rest.push(entries.last().path@)
        } else {
            rest
        }
    }
}

/// The regular-file paths of a whole run of listings, in absorption order.
pub open spec fn flatten_files(listings: Seq<Seq<DirEntryInfo>>) -> Seq<Seq<char>>
    decreases listings.len(),
{
    if listings.len() == 0 {
        Seq::empty()
    } else {
        flatten_files(listings.drop_last()) + files_of(listings.last())
    }
}

/// How many regular-file entries a whole run of listings holds.
pub open spec fn total_files(listings: Seq<Seq<DirEntryInfo>>) -> nat
    decreases listings.len(),
{
    if listings.len() == 0 {
        0
    } else {
        total_files(listings.drop_last()) + files_of(listings.last()).len()
    }
}

/// Whether a listing holds a regular-file entry with this path.
pub open spec fn entry_with_path(entries: Seq<DirEntryInfo>, p: Seq<char>) -> bool {
    exists|m: int|
        0 <= m < entries.len() && (#[trigger] entries[m]).kind is RegularFile && entries[m].path@
            == p
}

/// Whether some absorbed listing holds a regular-file entry with this path.
pub open spec fn is_file_entry(listings: Seq<Seq<DirEntryInfo>>, p: Seq<char>) -> bool {
    exists|j: int, m: int|
        0 <= j < listings.len() && 0 <= m < listings[j].len() && (#[trigger] listings[j][m]).kind
            is RegularFile && listings[j][m].path@ == p
}

/// The iterative traversal state: the explicit stack of directories still to
/// be read, plus a ghost log of every listing absorbed and every file path
/// handed out so far.
pub struct PathExplorer {
    stack: Vec<String>,
    listings: Ghost<Seq<Seq<DirEntryInfo>>>,
    enqueued: Ghost<Seq<Seq<char>>>,
}

impl PathExplorer {
    /// The directories still waiting to be read, bottom of the stack first.
    pub closed spec fn pending(self) -> Seq<Seq<char>> {
        self.stack.deep_view()
    }

    /// Every listing this explorer has absorbed, in order.
    pub closed spec fn listings(self) -> Seq<Seq<DirEntryInfo>> {
        self.listings@
    }

    /// Every file path this explorer has handed out, in order.
    pub closed spec fn enqueued(self) -> Seq<Seq<char>> {
        self.enqueued@
    }

    /// What was handed out is exactly the regular-file entries of what was
    /// absorbed.
    pub closed spec fn wf(self) -> bool {
        self.enqueued@ == flatten_files(self.listings@)
    }

    /// Begins a traversal at the root. The only fatal condition: if the root
    /// does not exist the whole explore operation fails, and no task is ever
    /// handed out.
    pub fn start(root: String, root_exists: bool) -> (r: Result<PathExplorer, ExploreError>)
        ensures
            root_exists <==> r is Ok,
            r matches Ok(e) ==> e.wf() && e.pending() =~= seq![root@] && e.listings()
                == Seq::<Seq<DirEntryInfo>>::empty() && e.enqueued() == Seq::<Seq<char>>::empty(),
            r matches Err(err) ==> err == ExploreError::RootNotFound,
    {
        if root_exists {
            let mut stack: Vec<String> = Vec::new();
            stack.push(root);
            let e = PathExplorer { stack, listings: Ghost(Seq::empty()), enqueued: Ghost(
                Seq::empty(),
            ) };
            assert(e.pending() =~~= seq![e.stack@[0]@]);
            Ok(e)
        } else {
            Err(ExploreError::RootNotFound)
        }
    }

    /// Pops the next directory to read, if any; the traversal is complete
    /// exactly when there is none.
    pub fn next_dir(&mut self) -> (r: Option<String>)
        ensures
            final(self).listings() == old(self).listings(),
            final(self).enqueued() == old(self).enqueued(),
            old(self).wf() ==> final(self).wf(),
            r is None <==> old(self).pending().len() == 0,
            r is None ==> final(self).pending() == old(self).pending(),
            r matches Some(d) ==> d@ == old(self).pending().last() && final(self).pending()
                =~= old(self).pending().drop_last(),
    {
        let r = self.stack.pop();
        match r {
            Some(d) => {
                assert(final(self).pending() =~~= old(self).pending().drop_last());
                Some(d)
            },
            None => None,
        }
    }

    /// Absorbs what reading one directory produced. `None` means the
    /// directory could not be opened: that subtree is skipped and traversal
    /// goes on — only the root-existence check is ever fatal. A listing's
    /// directory entries go onto the stack, its regular files are returned
    /// to be enqueued as tasks, and everything else is silently skipped.
    pub fn absorb(&mut self, listing: Option<Vec<DirEntryInfo>>) -> (files: Vec<String>)
        requires
            old(self).wf(),
        ensures
            final(self).wf(),
            listing is None ==> final(self).pending() == old(self).pending()
                && final(self).listings() == old(self).listings()
                && final(self).enqueued() == old(self).enqueued()
                && files@.len() == 0,
            listing matches Some(entries) ==> files.deep_view() == files_of(entries@)
                && final(self).pending() =~= old(self).pending() + dirs_of(entries@)
                && final(self).listings() == old(self).listings().push(entries@)
                && final(self).enqueued() == old(self).enqueued() + files_of(entries@),
    {
        match listing {
            None => {
                let files: Vec<String> = Vec::new();
                files
            },
            Some(entries) => {
                let ghost entries_view = entries@;
                let mut files: Vec<String> = Vec::new();
                let mut i: usize = 0;
                while i < entries.len()
                    invariant
                        i <= entries@.len(),
                        entries@ == entries_view,
                        self.listings@ == old(self).listings@,
                        self.enqueued@ == old(self).enqueued@,
                        files.deep_view() =~~= files_of(entries@.take(i as int)),
                        self.stack.deep_view() =~~= old(self).stack.deep_view() + dirs_of(
                            entries@.take(i as int),
                        ),
                    decreases entries@.len() - i,
                {
                    proof {
                        assert(entries@.take(i + 1).drop_last() =~= entries@.take(i as int));
                        assert(entries@.take(i + 1).last() == entries@[i as int]);
                    }
                    let kind = entries[i].kind;
                    match kind {
                        EntryKind::Directory => {
                            let p = entries[i].path.clone();
                            assert(p@ == entries_view[i as int].path@);
                            let ghost before = self.stack.deep_view();
                            self.stack.push(p);
                            assert(self.stack.deep_view() =~~= before.push(
                                entries_view[i as int].path@,
                            ));
                            assert(dirs_of(entries_view.take(i + 1)) == dirs_of(
                                entries_view.take(i as int),
                            ).push(entries_view[i as int].path@));
                            assert(self.stack.deep_view() =~~= old(self).stack.deep_view()
                                + dirs_of(entries@.take(i + 1)));
                            assert(files.deep_view() =~~= files_of(entries@.take(i + 1)));
                        },
                        EntryKind::RegularFile => {
                            let p = entries[i].path.clone();
                            files.push(p);
                            assert(files.deep_view() =~~= files_of(entries@.take(i + 1)));
                            assert(self.stack.deep_view() =~~= old(self).stack.deep_view()
                                + dirs_of(entries@.take(i + 1)));
                        },
                        EntryKind::Other => {
                            assert(files.deep_view() =~~= files_of(entries@.take(i + 1)));
                            assert(self.stack.deep_view() =~~= old(self).stack.deep_view()
                                + dirs_of(entries@.take(i + 1)));
                        },
                    }
                    i += 1;
                }
                assert(entries@.take(i as int) =~= entries@);
                proof {
                    self.listings@ = self.listings@.push(entries_view);
                    self.enqueued@ = self.enqueued@ + files_of(entries_view);
                    assert(self.listings@.drop_last() =~= old(self).listings@);
                    assert(self.listings@.last() == entries_view);
                }
                files
            },
        }
    }
}

/// Law: a traversal hands out exactly the regular-file entries of the
/// listings it absorbed — one task per regular file found, and never a
/// directory or any other kind of entry (links, devices, sockets).
pub proof fn lemma_explorer_enqueues_exactly_files(e: PathExplorer)
    requires
        e.wf(),
    ensures
        e.enqueued() == flatten_files(e.listings()),
        e.enqueued().len() == total_files(e.listings()),
        forall|k: int| 0 <= k < e.enqueued().len() ==> is_file_entry(
            e.listings(),
            #[trigger] e.enqueued()[k],
        ),
        forall|j: int, m: int|
            0 <= j < e.listings().len() && 0 <= m < e.listings()[j].len() && (
            #[trigger] e.listings()[j][m]).kind is RegularFile ==> e.enqueued().contains(
                e.listings()[j][m].path@,
            ),
{
    lemma_flatten_files_len(e.listings());
    lemma_flatten_files_membership(e.listings());
}

/// The number of file paths a run of listings flattens to is the number of
/// its regular-file entries.
proof fn lemma_flatten_files_len(listings: Seq<Seq<DirEntryInfo>>)
    ensures
        flatten_files(listings).len() == total_files(listings),
    decreases listings.len(),
{
    if listings.len() > 0 {
        lemma_flatten_files_len(listings.drop_last());
    }
}

/// Every path of a listing's file sequence comes from one of its
/// regular-file entries, and every regular-file entry contributes its path.
proof fn lemma_files_of_membership(entries: Seq<DirEntryInfo>)
    ensures
        forall|k: int| 0 <= k < files_of(entries).len() ==> entry_with_path(
            entries,
            #[trigger] files_of(entries)[k],
        ),
        forall|m: int|
            0 <= m < entries.len() && (#[trigger] entries[m]).kind is RegularFile ==> files_of(
                entries,
            ).contains(entries[m].path@),
    decreases entries.len(),
{
    if entries.len() > 0 {
        let prefix = entries.drop_last();
        lemma_files_of_membership(prefix);
        assert forall|k: int| 0 <= k < files_of(entries).len() implies entry_with_path(
            entries,
            #[trigger] files_of(entries)[k],
        ) by {
            if k < files_of(prefix).len() {
                assert(entry_with_path(prefix, files_of(prefix)[k]));
                let m = choose|m: int|
                    0 <= m < prefix.len() && (#[trigger] prefix[m]).kind is RegularFile
                        && prefix[m].path@ == files_of(prefix)[k];
                assert(entries[m].kind is RegularFile && entries[m].path@ == files_of(entries)[k]);
            } else {
                let m = entries.len() - 1;
                assert(entries[m].kind is RegularFile && entries[m].path@ == files_of(entries)[k]);
            }
        }
        assert forall|m: int|
            0 <= m < entries.len() && (#[trigger] entries[m]).kind is RegularFile implies files_of(
            entries,
        ).contains(entries[m].path@) by {
            if m < entries.len() - 1 {
                assert(files_of(prefix).contains(prefix[m].path@));
                let k = choose|k: int|
                    0 <= k < files_of(prefix).len() && files_of(prefix)[k] == prefix[m].path@;
                assert(files_of(entries)[k] == entries[m].path@);
            } else {
                assert(files_of(entries).last() == entries[m].path@);
            }
        }
    }
}

/// Membership in the flattened run: each handed-out path has a regular-file
/// entry behind it, and each regular-file entry's path is handed out.
proof fn lemma_flatten_files_membership(listings: Seq<Seq<DirEntryInfo>>)
    ensures
        forall|k: int| 0 <= k < flatten_files(listings).len() ==> is_file_entry(
            listings,
            #[trigger] flatten_files(listings)[k],
        ),
        forall|j: int, m: int|
            0 <= j < listings.len() && 0 <= m < listings[j].len() && (
            #[trigger] listings[j][m]).kind is RegularFile ==> flatten_files(listings).contains(
                listings[j][m].path@,
            ),
    decreases listings.len(),
{
    if listings.len() > 0 {
        let prefix = listings.drop_last();
        let last = listings.last();
        lemma_flatten_files_membership(prefix);
        lemma_files_of_membership(last);
        assert forall|k: int| 0 <= k < flatten_files(listings).len() implies is_file_entry(
            listings,
            #[trigger] flatten_files(listings)[k],
        ) by {
            let p = flatten_files(listings)[k];
            if k < flatten_files(prefix).len() {
                assert(is_file_entry(prefix, p));
                let (j, m) = choose|j: int, m: int|
                    0 <= j < prefix.len() && 0 <= m < prefix[j].len() && (
                    #[trigger] prefix[j][m]).kind is RegularFile && prefix[j][m].path@ == p;
                assert(listings[j][m].kind is RegularFile && listings[j][m].path@ == p);
            } else {
                let kk = k - flatten_files(prefix).len();
                assert(files_of(last)[kk] == p);
                assert(entry_with_path(last, p));
                let m = choose|m: int|
                    0 <= m < last.len() && (#[trigger] last[m]).kind is RegularFile
                        && last[m].path@ == p;
                let j = listings.len() - 1;
                assert(listings[j][m].kind is RegularFile && listings[j][m].path@ == p);
            }
        }
        assert forall|j: int, m: int|
            0 <= j < listings.len() && 0 <= m < listings[j].len() && (
            #[trigger] listings[j][m]).kind is RegularFile implies flatten_files(
            listings,
        ).contains(listings[j][m].path@) by {
            let p = listings[j][m].path@;
            if j < listings.len() - 1 {
                assert(prefix[j][m].kind is RegularFile);
                assert(flatten_files(prefix).contains(p));
                let k = choose|k: int|
                    0 <= k < flatten_files(prefix).len() && flatten_files(prefix)[k] == p;
                assert(flatten_files(listings)[k] == p);
            } else {
                assert(last[m].kind is RegularFile);
                assert(files_of(last).contains(p));
                let k = choose|k: int| 0 <= k < files_of(last).len() && files_of(last)[k] == p;
                assert(flatten_files(listings)[flatten_files(prefix).len() + k] == p);
            }
        }
    }
}

} // verus!
