//! Open files and per-process file descriptor tables.

use std::collections::BTreeMap;
use vstd::prelude::*;
use super::vfs::{OpenFlags, SeekWhence, VNode};

verus! {

broadcast use vstd::laws_cmp::group_laws_cmp;

/// An open file: its node, how it was opened and the current offset.
#[derive(Debug, Clone)]
pub struct FileDescriptor {
    pub vnode: VNode,
    pub flags: OpenFlags,
    pub offset: usize,
}

/// The offset a seek asks for, as a signed value.
pub open spec fn spec_seek_target(offset: usize, delta: i64, whence: SeekWhence, file_size: usize) -> int {
    match whence {
        SeekWhence::Start => delta as int,
        SeekWhence::Current => (offset as i64) + delta,
        SeekWhence::End => (file_size as i64) + delta,
    }
}

impl FileDescriptor {
    /// Opens `vnode` at offset 0.
    pub fn new(vnode: VNode, flags: OpenFlags) -> (r: Self)
        ensures
            r.vnode == vnode,
            r.flags == flags,
            r.offset == 0,
    {
        FileDescriptor { vnode, flags, offset: 0 }
    }

    /// Moves the offset to `offset` bytes from the start, from the current
    /// offset or from the end of a file of `file_size` bytes; a target
    /// before the start of the file is refused and leaves the offset as it
    /// was. Returns the new offset.
    pub fn seek(&mut self, offset: i64, whence: SeekWhence, file_size: usize) -> (r: Result<usize, &'static str>)
        requires
            whence == SeekWhence::Current ==> i64::MIN <= (old(self).offset as i64) + offset <= i64::MAX,
            whence == SeekWhence::End ==> i64::MIN <= (file_size as i64) + offset <= i64::MAX,
        ensures
            final(self).vnode == old(self).vnode,
            final(self).flags == old(self).flags,
            ({
                let t = spec_seek_target(old(self).offset, offset, whence, file_size);
                if t < 0 {
                    &&& final(self).offset == old(self).offset
                    &&& r == Err::<usize, &'static str>(if whence == SeekWhence::Start {
                        "Negative offset from start"
                    } else {
                        "Offset before start of file"
                    })
                } else {
                    final(self).offset == t as usize && r == Ok::<usize, &'static str>(t as usize)
                }
            }),
    {
        let new_offset = match whence {
            SeekWhence::Start => {
                if offset < 0 {
                    return Err("Negative offset from start");
                }
                offset as usize
            },
            SeekWhence::Current => {
                let current = self.offset as i64;
                let new = current + offset;
                if new < 0 {
                    return Err("Offset before start of file");
                }
                new as usize
            },
            SeekWhence::End => {
                let end = file_size as i64;
                let new = end + offset;
                if new < 0 {
                    return Err("Offset before start of file");
                }
                new as usize
            },
        };
        self.offset = new_offset;
        Ok(new_offset)
    }
}

/// Whether `fd` is the least descriptor number at or above `from` that is
/// not open in `m`.
pub open spec fn spec_first_free(m: Map<i32, FileDescriptor>, from: i32, fd: i32) -> bool {
    &&& from <= fd
    &&& !m.contains_key(fd)
    &&& forall|k: i32| from <= k < fd ==> #[trigger] m.contains_key(k)
}

/// The open files of one process, by descriptor number.
pub struct FileDescriptorTable {
    descriptors: BTreeMap<i32, FileDescriptor>,
    next_fd: i32,
}

impl FileDescriptorTable {
    /// The open files.
    pub closed spec fn spec_fds(&self) -> Map<i32, FileDescriptor> {
        self.descriptors@
    }

    /// Where the search for a free descriptor number starts.
    pub closed spec fn spec_next(&self) -> i32 {
        self.next_fd
    }

    /// The table holds finitely many open files.
    pub proof fn lemma_fds_finite(&self)
        ensures
            self.spec_fds().dom().finite(),
    {
        vstd::std_specs::btree::axiom_btree_map_view_finite_dom(self.descriptors);
    }

    /// A table without open files.
    pub fn new() -> (r: Self)
        ensures
            r.spec_fds() == Map::<i32, FileDescriptor>::empty(),
            r.spec_next() == 0,
    {
        FileDescriptorTable { descriptors: BTreeMap::new(), next_fd: 0 }
    }

    /// Opens `fd` under the least free descriptor number at or above the
    /// search start, and moves the search start past it.
    pub fn allocate(&mut self, fd: FileDescriptor) -> (r: Result<i32, &'static str>)
        requires
            0 <= old(self).spec_next(),
            exists|f: i32| f < i32::MAX && #[trigger] spec_first_free(old(self).spec_fds(), old(self).spec_next(), f),
        ensures
            r matches Ok(n) && spec_first_free(old(self).spec_fds(), old(self).spec_next(), n)
                && final(self).spec_fds() == old(self).spec_fds().insert(n, fd) && final(self).spec_next() == n + 1,
            final(self).spec_fds().len() == old(self).spec_fds().len() + 1,
    {
        proof {
            self.lemma_fds_finite();
        }
        let ghost target = choose|f: i32| f < i32::MAX && #[trigger] spec_first_free(old(self).spec_fds(), old(self).spec_next(), f);
        while self.descriptors.contains_key(&self.next_fd)
            invariant
                self.descriptors@ == old(self).descriptors@,
                0 <= old(self).next_fd <= self.next_fd <= target,
                target < i32::MAX,
                spec_first_free(old(self).spec_fds(), old(self).spec_next(), target),
                forall|k: i32| old(self).next_fd <= k < self.next_fd ==> #[trigger] self.descriptors@.contains_key(k),
            decreases target - self.next_fd,
        {
            assert(self.next_fd != target);
            self.next_fd = self.next_fd + 1;
            if self.next_fd < 0 {
                return Err("Too many open files");
            }
        }
        let fd_num = self.next_fd;
        self.descriptors.insert(fd_num, fd);
        self.next_fd = self.next_fd + 1;
        Ok(fd_num)
    }

    /// The open file under `fd_num`.
    pub fn get(&self, fd_num: i32) -> (r: Option<&FileDescriptor>)
        ensures
            match r {
                Some(d) => self.spec_fds().contains_key(fd_num) && *d == self.spec_fds()[fd_num],
                None => !self.spec_fds().contains_key(fd_num),
            },
    {
        self.descriptors.get(&fd_num)
    }

    /// The open file under `fd_num`, for modification.
    pub fn get_mut(&mut self, fd_num: i32) -> (r: Option<&mut FileDescriptor>)
        ensures
            final(self).spec_next() == old(self).spec_next(),
            match r {
                Some(d) => {
                    &&& old(self).spec_fds().contains_key(fd_num)
                    &&& *d == old(self).spec_fds()[fd_num]
                    &&& final(self).spec_fds() == old(self).spec_fds().insert(fd_num, *final(d))
                },
                None => !old(self).spec_fds().contains_key(fd_num) && final(self).spec_fds() == old(self).spec_fds(),
            },
    {
        crate::btree_util::btree_get_mut(&mut self.descriptors, &fd_num)
    }

    /// Closes `fd_num`; fails when it is not open.
    pub fn close(&mut self, fd_num: i32) -> (r: Result<(), &'static str>)
        ensures
            final(self).spec_next() == old(self).spec_next(),
            final(self).spec_fds() == old(self).spec_fds().remove(fd_num),
            r is Ok <==> old(self).spec_fds().contains_key(fd_num),
            r is Err ==> r == Err::<(), &'static str>("Invalid file descriptor"),
            r is Ok ==> final(self).spec_fds().len() == old(self).spec_fds().len() - 1,
            r is Err ==> final(self).spec_fds().len() == old(self).spec_fds().len(),
    {
        proof {
            self.lemma_fds_finite();
        }
        match self.descriptors.remove(&fd_num) {
            Some(_) => Ok(()),
            None => Err("Invalid file descriptor"),
        }
    }

    /// The number of open files.
    pub fn count(&self) -> (r: usize)
        ensures
            r == self.spec_fds().len(),
    {
        self.descriptors.len()
    }

    /// Whether `fd_num` is open.
    pub fn contains(&self, fd_num: i32) -> (r: bool)
        ensures
            r == self.spec_fds().contains_key(fd_num),
    {
        self.descriptors.contains_key(&fd_num)
    }
}

impl Default for FileDescriptorTable {
    fn default() -> (r: Self)
        ensures
            r.spec_fds() == Map::<i32, FileDescriptor>::empty(),
            r.spec_next() == 0,
    {
        Self::new()
    }
}

/// On a fresh table, allocation hands out 0, 1, 2, ... in turn while no
/// descriptor is closed.
pub proof fn lemma_fresh_table_alloc_sequence(m: Map<i32, FileDescriptor>, n: i32)
    requires
        0 <= n < i32::MAX,
        forall|k: i32| #[trigger] m.contains_key(k) <==> 0 <= k < n,
    ensures
        spec_first_free(m, n, n),
{
}

} // verus!
