//! Synthetic file references for directory-walk ingest.
//!
//! FAT volumes have no native file reference numbers, so the walk mints
//! sequential ones: the root gets reference zero and every later entry the
//! next integer, while parent references resolve through the paths seen so
//! far. The surrounding program walks the directory tree and hands each
//! entry here in parent-before-child order.

use vstd::prelude::*;

use crate::db::FileEntry;

verus! {

/// The index of the first path equal to `p`, if any.
pub open spec fn spec_find_path(paths: Seq<Seq<char>>, p: Seq<char>) -> Option<int>
    decreases paths.len(),
{
    if paths.len() == 0 {
        None
    } else if paths.first() == p {
        Some(0)
    } else {
        match spec_find_path(paths.drop_first(), p) {
            Some(i) => Some(i + 1),
            None => None,
        }
    }
}

/// Mints synthetic file references for one volume's directory walk; the
/// entry recorded at position `i` of the path list has reference `i`.
pub struct WalkIndexer {
    volume_id: i64,
    paths: Vec<String>,
}

impl WalkIndexer {
    /// The volume the walk fills.
    pub closed spec fn spec_volume_id(&self) -> i64 {
        self.volume_id
    }

    /// The paths seen so far; the entry at index `i` has reference `i`.
    pub closed spec fn spec_paths(&self) -> Seq<Seq<char>> {
        self.paths@.map(|i: int, p: String| p@)
    }

    /// Start a walk at the volume's root, which gets reference zero.
    pub fn new(volume_id: i64, root_path: String) -> (r: Self)
        ensures
            r.spec_volume_id() == volume_id,
            r.spec_paths() =~= seq![root_path@],
    {
        let mut paths: Vec<String> = Vec::new();
        paths.push(root_path);
        WalkIndexer { volume_id, paths }
    }

    /// Record one walked entry: it gets the next sequential reference, and
    /// its parent reference is the reference of the first recorded path
    /// equal to `parent_path` — absent when the parent was never seen
    /// (broken chains are tolerated at read time). A directory's size is
    /// recorded as zero.
    pub fn add_entry(
        &mut self,
        path: String,
        parent_path: &str,
        name: String,
        size: i64,
        modified: Option<i64>,
        is_dir: bool,
    ) -> (r: FileEntry)
        requires
            old(self).spec_paths().len() < 0x7fff_ffff_ffff_ffff,
        ensures
            final(self).spec_volume_id() == old(self).spec_volume_id(),
            final(self).spec_paths() =~= old(self).spec_paths().push(path@),
            r.volume_id == old(self).spec_volume_id(),
            r.file_ref == Some(old(self).spec_paths().len() as i64),
            r.parent_ref == (match spec_find_path(old(self).spec_paths(), parent_path@) {
                Some(i) => Some(i as i64),
                None => None::<i64>,
            }),
            r.name == name,
            r.size == (if is_dir {
                0i64
            } else {
                size
            }),
            r.modified == modified,
            r.is_dir == is_dir,
    {
        let file_ref = self.paths.len() as i64;
        let parent_ref = self.find_path(parent_path);
        self.paths.push(path);
        FileEntry {
            volume_id: self.volume_id,
            file_ref: Some(file_ref),
            parent_ref,
            name,
            size: if is_dir {
                0
            } else {
                size
            },
            modified,
            is_dir,
        }
    }

    /// The reference of the first recorded path equal to `p`, if any.
    fn find_path(&self, p: &str) -> (r: Option<i64>)
        requires
            self.spec_paths().len() < 0x7fff_ffff_ffff_ffff,
        ensures
            r == (match spec_find_path(self.spec_paths(), p@) {
                Some(i) => Some(i as i64),
                None => None::<i64>,
            }),
    {
        let ghost views = self.spec_paths();
        let mut i: usize = 0;
        proof {
            assert(views.skip(0) =~= views);
        }
        while i < self.paths.len()
            invariant
                views == self.spec_paths(),
                views.len() == self.paths@.len(),
                views.len() < 0x7fff_ffff_ffff_ffff,
                i <= views.len(),
                spec_find_path(views, p@) == (match spec_find_path(views.skip(i as int), p@) {
                    Some(l) => Some(l + i),
                    None => None::<int>,
                }),
            decreases views.len() - i,
        {
            proof {
                assert(views.skip(i as int).first() == views[i as int]);
                assert(views.skip(i as int).drop_first() =~= views.skip(i + 1));
            }
            if self.paths[i].as_str().eq(p) {
                return Some(i as i64);
            }
            i = i + 1;
        }
        proof {
            assert(views.skip(views.len() as int) =~= Seq::<Seq<char>>::empty());
        }
        None
    }

    /// How many entries have been recorded, the root included.
    pub fn entries_recorded(&self) -> (r: usize)
        ensures
            r == self.spec_paths().len(),
    {
        self.paths.len()
    }
}

} // verus!
