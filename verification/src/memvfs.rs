//! An in-memory host: the storage primitive set realized on plain vectors,
//! so the whole adapter stack can run and be exercised in one process.
//!
//! Files are slots of path, content and a presence mark; handles are slots
//! of a file index, an advisory lock level and a liveness mark, and a
//! handle's slot index is its descriptor. The host's one coordination duty
//! — no handle ever holds the exclusive level while another handle of the
//! same file holds anything at all — is an invariant here, kept by granting
//! a lock only when it conflicts with no other live handle of the file.

use vstd::prelude::*;
use vstd::pervasive::VecAdditionalExecFns;
use crate::lock::LockLevel;
use crate::status::Status;

verus! {

/// One handle slot: which file it is attached to, the advisory lock level
/// it holds, and whether the slot is live.
#[derive(Clone, Copy, PartialEq, Eq, Structural, Debug)]
pub struct HandleEntry {
    /// Index of the attached file slot.
    pub file: usize,
    /// Advisory lock level this handle holds.
    pub level: LockLevel,
    /// Whether the handle is open.
    pub open: bool,
}

/// A request for `target` conflicts with a level already `held` by another
/// handle of the same file: nothing coexists with an exclusive holder, and
/// an exclusive request coexists with nothing.
pub open spec fn spec_conflicts(target: LockLevel, held: LockLevel) -> bool {
    held is Exclusive || (target is Exclusive && !(held is NoLock))
}

/// The host lock invariant: no live handle holds the exclusive level while
/// another live handle of the same file holds any level at all.
pub open spec fn spec_exclusion_ok(handles: Seq<HandleEntry>) -> bool {
    forall|i: int, j: int|
        #![trigger handles[i], handles[j]]
        0 <= i < handles.len() && 0 <= j < handles.len() && i != j && handles[i].open
            && handles[j].open && handles[i].file == handles[j].file && handles[i].level
            is Exclusive ==> handles[j].level is NoLock
}

/// The host grants `target` to handle `fd` exactly when no other live
/// handle of the same file holds a conflicting level.
pub open spec fn spec_grant(handles: Seq<HandleEntry>, fd: int, target: LockLevel) -> bool {
    forall|j: int|
        #![trigger handles[j]]
        0 <= j < handles.len() && j != fd && handles[j].open && handles[j].file == handles[fd].file
            ==> !spec_conflicts(target, handles[j].level)
}

/// `fd` names a live handle slot.
pub open spec fn spec_handle_valid(handles: Seq<HandleEntry>, fd: int) -> bool {
    0 <= fd < handles.len() && handles[fd].open
}

/// First present file slot, at or past `i`, whose path equals `path`.
pub open spec fn spec_find(
    paths: Seq<Vec<u8>>,
    present: Seq<bool>,
    path: Seq<u8>,
    i: int,
) -> Option<int>
    decreases paths.len() - i,
{
    if i < 0 || i >= paths.len() {
        None
    } else if present[i] && paths[i]@ == path {
        Some(i)
    } else {
        spec_find(paths, present, path, i + 1)
    }
}

/// What a found slot satisfies, and what a miss rules out.
pub proof fn lemma_find_characterizes(
    paths: Seq<Vec<u8>>,
    present: Seq<bool>,
    path: Seq<u8>,
    i: int,
)
    requires
        0 <= i,
    ensures
        match spec_find(paths, present, path, i) {
            Some(fi) => i <= fi < paths.len() && present[fi] && paths[fi]@ == path,
            None => forall|k: int|
                #![trigger paths[k]]
                i <= k < paths.len() ==> !(present[k] && paths[k]@ == path),
        },
    decreases paths.len() - i,
{
    if i < 0 || i >= paths.len() {
    } else if present[i] && paths[i]@ == path {
    } else {
        lemma_find_characterizes(paths, present, path, i + 1);
    }
}

/// A file's content after writing `buf` at `offset`: the file grows to hold
/// the written range if needed, any gap between the old end and `offset` is
/// zero-filled, and every byte outside the written range is kept.
pub open spec fn spec_write(data: Seq<u8>, offset: int, buf: Seq<u8>) -> Seq<u8> {
    let n = if offset + buf.len() > data.len() {
        offset + buf.len()
    } else {
        data.len() as int
    };
    Seq::new(
        n as nat,
        |i: int|
            if offset <= i < offset + buf.len() {
                buf[i - offset]
            } else if i < data.len() {
                data[i]
            } else {
                0u8
            },
    )
}

/// A file's content after truncation to `size` bytes: the prefix is kept
/// and any extension is zero-filled.
pub open spec fn spec_truncate(data: Seq<u8>, size: int) -> Seq<u8> {
    Seq::new(
        size as nat,
        |i: int|
            if i < data.len() {
                data[i]
            } else {
                0u8
            },
    )
}

/// The in-memory host and the adapter state on top of it.
pub struct MemVfs {
    /// Path of each file slot.
    pub paths: Vec<Vec<u8>>,
    /// Content of each file slot.
    pub datas: Vec<Vec<u8>>,
    /// Whether each file slot currently exists.
    pub present: Vec<bool>,
    /// Handle slots; a handle's index is its descriptor.
    pub handles: Vec<HandleEntry>,
}

/// The two states hold the same files and handles.
pub open spec fn spec_same_state(a: &MemVfs, b: &MemVfs) -> bool {
    &&& a.paths@ == b.paths@
    &&& a.datas@ == b.datas@
    &&& a.present@ == b.present@
    &&& a.handles@ == b.handles@
}

/// Copy a byte vector.
fn clone_bytes(src: &Vec<u8>) -> (r: Vec<u8>)
    ensures
        r@ == src@,
{
    let mut out: Vec<u8> = Vec::new();
    let mut i: usize = 0;
    while i < src.len()
        invariant
            i <= src@.len(),
            out@ == src@.subrange(0, i as int),
        decreases src@.len() - i,
    {
        out.push(src[i]);
        proof {
            assert(out@ =~= src@.subrange(0, i + 1));
        }
        i += 1;
    }
    proof {
        assert(out@ =~= src@);
    }
    out
}

/// Byte-for-byte equality of two paths.
#[verifier::loop_isolation(false)]
fn bytes_eq(a: &Vec<u8>, b: &Vec<u8>) -> (r: bool)
    ensures
        r == (a@ == b@),
{
    if a.len() != b.len() {
        return false;
    }
    let mut i: usize = 0;
    while i < a.len()
        invariant
            i <= a@.len(),
            forall|k: int| 0 <= k < i ==> a@[k] == b@[k],
        decreases a@.len() - i,
    {
        if a[i] != b[i] {
            return false;
        }
        i += 1;
    }
    proof {
        assert(a@ =~= b@);
    }
    true
}

impl MemVfs {
    /// Content of file slot `fi`.
    pub open spec fn spec_data_at(&self, fi: int) -> Seq<u8> {
        self.datas@[fi]@
    }

    /// File slot vectors line up, every live handle points at a file slot,
    /// and the lock exclusion invariant holds.
    pub open spec fn wf(&self) -> bool {
        &&& self.paths@.len() == self.datas@.len()
        &&& self.paths@.len() == self.present@.len()
        &&& forall|i: int|
            0 <= i < self.handles@.len() && (#[trigger] self.handles@[i]).open
                ==> self.handles@[i].file < self.paths@.len()
        &&& spec_exclusion_ok(self.handles@)
    }

    /// An empty host: no files, no handles.
    pub fn new() -> (v: MemVfs)
        ensures
            v.wf(),
            v.paths@.len() == 0,
            v.handles@.len() == 0,
    {
        MemVfs { paths: Vec::new(), datas: Vec::new(), present: Vec::new(), handles: Vec::new() }
    }

    /// First present file slot whose path equals `path`.
    fn find_file(&self, path: &Vec<u8>) -> (r: Option<usize>)
        requires
            self.wf(),
        ensures
            match r {
                Some(fi) => spec_find(self.paths@, self.present@, path@, 0) == Some(fi as int),
                None => spec_find(self.paths@, self.present@, path@, 0) is None,
            },
    {
        let mut i: usize = 0;
        while i < self.paths.len()
            invariant
                i <= self.paths@.len(),
                self.present@.len() == self.paths@.len(),
                spec_find(self.paths@, self.present@, path@, 0) == spec_find(
                    self.paths@,
                    self.present@,
                    path@,
                    i as int,
                ),
            decreases self.paths@.len() - i,
        {
            if self.present[i] && bytes_eq(&self.paths[i], path) {
                return Some(i);
            }
            i += 1;
        }
        None
    }

    /// Whether a file exists under `path`.
    pub fn access(&self, path: &Vec<u8>) -> (r: bool)
        requires
            self.wf(),
        ensures
            r == (spec_find(self.paths@, self.present@, path@, 0) is Some),
    {
        self.find_file(path).is_some()
    }

    /// Open `path`: an existing file is attached to a fresh unlocked
    /// handle; a missing one is first created empty when `create` is set,
    /// and refused as an I/O fault otherwise.
    pub fn open(&mut self, path: &Vec<u8>, create: bool) -> (r: (Option<usize>, Status))
        requires
            old(self).wf(),
        ensures
            final(self).wf(),
            match spec_find(old(self).paths@, old(self).present@, path@, 0) {
                Some(fi) => {
                    &&& r.1 is Okay
                    &&& (r.0 matches Some(fd) && fd == old(self).handles@.len())
                    &&& final(self).paths@ == old(self).paths@
                    &&& final(self).datas@ == old(self).datas@
                    &&& final(self).present@ == old(self).present@
                    &&& final(self).handles@ == old(self).handles@.push(
                        HandleEntry { file: fi as usize, level: LockLevel::NoLock, open: true },
                    )
                },
                None => {
                    &&& (create ==> {
                        &&& r.1 is Okay
                        &&& (r.0 matches Some(fd) && fd == old(self).handles@.len())
                        &&& final(self).paths@.len() == old(self).paths@.len() + 1
                        &&& final(self).paths@[old(self).paths@.len() as int]@ == path@
                        &&& forall|k: int|
                            0 <= k < old(self).paths@.len() ==> final(self).paths@[k] == old(
                                self,
                            ).paths@[k]
                        &&& final(self).datas@.len() == old(self).datas@.len() + 1
                        &&& forall|k: int|
                            0 <= k < old(self).datas@.len() ==> final(self).datas@[k] == old(
                                self,
                            ).datas@[k]
                        &&& final(self).spec_data_at(old(self).datas@.len() as int)
                            == Seq::<u8>::empty()
                        &&& final(self).present@ == old(self).present@.push(true)
                        &&& final(self).handles@ == old(self).handles@.push(
                            HandleEntry {
                                file: old(self).paths@.len() as usize,
                                level: LockLevel::NoLock,
                                open: true,
                            },
                        )
                    })
                    &&& (!create ==> r.0 is None && r.1 is IoErr && spec_same_state(
                        final(self),
                        old(self),
                    ))
                },
            },
    {
        proof {
            lemma_find_characterizes(self.paths@, self.present@, path@, 0);
        }
        let fi: usize = match self.find_file(path) {
            Some(fi) => fi,
            None => {
                if !create {
                    return (None, Status::IoErr);
                }
                let fi = self.paths.len();
                self.paths.push(clone_bytes(path));
                self.datas.push(Vec::new());
                self.present.push(true);
                fi
            },
        };
        let fd = self.handles.len();
        let entry = HandleEntry { file: fi, level: LockLevel::NoLock, open: true };
        self.handles.push(entry);
        proof {
            assert forall|i: int, j: int|
                #![trigger self.handles@[i], self.handles@[j]]
                0 <= i < self.handles@.len() && 0 <= j < self.handles@.len() && i != j
                    && self.handles@[i].open && self.handles@[j].open && self.handles@[i].file
                    == self.handles@[j].file && self.handles@[i].level
                    is Exclusive implies self.handles@[j].level is NoLock by {
                if i < old(self).handles@.len() && j < old(self).handles@.len() {
                    assert(old(self).handles@[i] == self.handles@[i]);
                    assert(old(self).handles@[j] == self.handles@[j]);
                }
            }
        }
        (Some(fd), Status::Okay)
    }

    /// Release the handle `fd`: its slot goes dead and its descriptor is
    /// never handed out again. An unknown or already-closed descriptor is
    /// an I/O fault.
    pub fn close(&mut self, fd: usize) -> (s: Status)
        requires
            old(self).wf(),
        ensures
            final(self).wf(),
            spec_handle_valid(old(self).handles@, fd as int) ==> s is Okay && final(self).handles@
                == old(self).handles@.update(
                fd as int,
                HandleEntry {
                    file: old(self).handles@[fd as int].file,
                    level: LockLevel::NoLock,
                    open: false,
                },
            ) && final(self).paths@ == old(self).paths@ && final(self).datas@ == old(self).datas@
                && final(self).present@ == old(self).present@,
            !spec_handle_valid(old(self).handles@, fd as int) ==> s is IoErr && spec_same_state(
                final(self),
                old(self),
            ),
    {
        if fd < self.handles.len() && self.handles[fd].open {
            let file = self.handles[fd].file;
            self.handles.set(fd, HandleEntry { file, level: LockLevel::NoLock, open: false });
            proof {
                assert forall|i: int, j: int|
                    #![trigger self.handles@[i], self.handles@[j]]
                    0 <= i < self.handles@.len() && 0 <= j < self.handles@.len() && i != j
                        && self.handles@[i].open && self.handles@[j].open && self.handles@[i].file
                        == self.handles@[j].file && self.handles@[i].level
                        is Exclusive implies self.handles@[j].level is NoLock by {
                    assert(i != fd && j != fd);
                    assert(old(self).handles@[i] == self.handles@[i]);
                    assert(old(self).handles@[j] == self.handles@[j]);
                }
            }
            Status::Okay
        } else {
            Status::IoErr
        }
    }

    /// Read `count` bytes at `offset`: all or nothing. The bytes come back
    /// exactly when the whole range lies inside the file; any short read is
    /// an I/O fault and hands back nothing.
    #[verifier::loop_isolation(false)]
    pub fn read(&self, fd: usize, offset: usize, count: usize) -> (r: (Vec<u8>, Status))
        requires
            self.wf(),
        ensures
            r.1 is Okay <==> spec_handle_valid(self.handles@, fd as int) && offset + count
                <= self.datas@[self.handles@[fd as int].file as int]@.len(),
            r.1 is Okay ==> r.0@ == self.datas@[self.handles@[fd as int].file as int]@.subrange(
                offset as int,
                offset + count,
            ),
            !(r.1 is Okay) ==> r.1 is IoErr && r.0@.len() == 0,
    {
        if !(fd < self.handles.len() && self.handles[fd].open) {
            return (Vec::new(), Status::IoErr);
        }
        let fi = self.handles[fd].file;
        let data = &self.datas[fi];
        if !(count <= data.len() && offset <= data.len() - count) {
            return (Vec::new(), Status::IoErr);
        }
        let mut out: Vec<u8> = Vec::new();
        let mut i: usize = 0;
        while i < count
            invariant
                i <= count,
                offset + count <= data@.len(),
                out@ == data@.subrange(offset as int, offset + i),
            decreases count - i,
        {
            out.push(data[offset + i]);
            proof {
                assert(out@ =~= data@.subrange(offset as int, offset + i + 1));
            }
            i += 1;
        }
        (out, Status::Okay)
    }

    /// Write all of `buf` at `offset`, growing the file and zero-filling
    /// any gap; the host writes every byte or nothing, so success is owed
    /// exactly on a live handle. The offset bound only keeps the write end
    /// inside the machine word.
    #[verifier::loop_isolation(false)]
    pub fn write(&mut self, fd: usize, offset: usize, buf: &Vec<u8>) -> (s: Status)
        requires
            old(self).wf(),
            offset + buf@.len() <= usize::MAX,
        ensures
            final(self).wf(),
            s is Okay <==> spec_handle_valid(old(self).handles@, fd as int),
            s is Okay ==> {
                let fi = old(self).handles@[fd as int].file as int;
                &&& final(self).datas@.len() == old(self).datas@.len()
                &&& final(self).spec_data_at(fi) == spec_write(
                    old(self).spec_data_at(fi),
                    offset as int,
                    buf@,
                )
                &&& forall|k: int|
                    0 <= k < old(self).datas@.len() && k != fi ==> final(self).datas@[k] == old(
                        self,
                    ).datas@[k]
                &&& final(self).paths@ == old(self).paths@
                &&& final(self).present@ == old(self).present@
                &&& final(self).handles@ == old(self).handles@
            },
            !(s is Okay) ==> s is IoErr && spec_same_state(final(self), old(self)),
    {
        if !(fd < self.handles.len() && self.handles[fd].open) {
            return Status::IoErr;
        }
        let fi = self.handles[fd].file;
        let end = offset + buf.len();
        let old_len = self.datas[fi].len();
        let n = if end > old_len {
            end
        } else {
            old_len
        };
        let ghost od = self.datas@[fi as int]@;
        let mut nd: Vec<u8> = Vec::new();
        let mut i: usize = 0;
        while i < n
            invariant
                i <= n,
                nd@.len() == i,
                forall|k: int|
                    0 <= k < i ==> nd@[k] == spec_write(od, offset as int, buf@)[k],
            decreases n - i,
        {
            let b: u8 = if offset <= i && i < end {
                buf[i - offset]
            } else if i < old_len {
                self.datas[fi][i]
            } else {
                0
            };
            nd.push(b);
            i += 1;
        }
        self.datas.set(fi, nd);
        proof {
            assert(self.datas@[fi as int]@ =~= spec_write(od, offset as int, buf@));
        }
        Status::Okay
    }

    /// Truncate the file to `size` bytes, zero-filling any extension.
    /// Success is owed exactly on a live handle.
    #[verifier::loop_isolation(false)]
    pub fn truncate(&mut self, fd: usize, size: usize) -> (s: Status)
        requires
            old(self).wf(),
        ensures
            final(self).wf(),
            s is Okay <==> spec_handle_valid(old(self).handles@, fd as int),
            s is Okay ==> {
                let fi = old(self).handles@[fd as int].file as int;
                &&& final(self).datas@.len() == old(self).datas@.len()
                &&& final(self).spec_data_at(fi) == spec_truncate(
                    old(self).spec_data_at(fi),
                    size as int,
                )
                &&& forall|k: int|
                    0 <= k < old(self).datas@.len() && k != fi ==> final(self).datas@[k] == old(
                        self,
                    ).datas@[k]
                &&& final(self).paths@ == old(self).paths@
                &&& final(self).present@ == old(self).present@
                &&& final(self).handles@ == old(self).handles@
            },
            !(s is Okay) ==> s is IoErr && spec_same_state(final(self), old(self)),
    {
        if !(fd < self.handles.len() && self.handles[fd].open) {
            return Status::IoErr;
        }
        let fi = self.handles[fd].file;
        let old_len = self.datas[fi].len();
        let ghost od = self.datas@[fi as int]@;
        let mut nd: Vec<u8> = Vec::new();
        let mut i: usize = 0;
        while i < size
            invariant
                i <= size,
                nd@.len() == i,
                forall|k: int| 0 <= k < i ==> nd@[k] == spec_truncate(od, size as int)[k],
            decreases size - i,
        {
            let b: u8 = if i < old_len {
                self.datas[fi][i]
            } else {
                0
            };
            nd.push(b);
            i += 1;
        }
        self.datas.set(fi, nd);
        proof {
            assert(self.datas@[fi as int]@ =~= spec_truncate(od, size as int));
        }
        Status::Okay
    }

    /// Everything is durable the moment it is written; syncing a live
    /// handle is a success with nothing to do, anything else an I/O fault.
    pub fn sync(&self, fd: usize) -> (s: Status)
        requires
            self.wf(),
        ensures
            s is Okay <==> spec_handle_valid(self.handles@, fd as int),
            !(s is Okay) ==> s is IoErr,
    {
        if fd < self.handles.len() && self.handles[fd].open {
            Status::Okay
        } else {
            Status::IoErr
        }
    }

    /// The file's size; authoritative on a live handle.
    pub fn file_size(&self, fd: usize) -> (r: (usize, Status))
        requires
            self.wf(),
        ensures
            spec_handle_valid(self.handles@, fd as int) ==> r.1 is Okay && r.0
                == self.datas@[self.handles@[fd as int].file as int]@.len(),
            !spec_handle_valid(self.handles@, fd as int) ==> r.1 is IoErr && r.0 == 0,
    {
        if fd < self.handles.len() && self.handles[fd].open {
            (self.datas[self.handles[fd].file].len(), Status::Okay)
        } else {
            (0, Status::IoErr)
        }
    }

    /// Escalate handle `fd` to `target`. A request the current level
    /// already satisfies succeeds with no host coordination at all; a
    /// genuine escalation is granted exactly when it conflicts with no
    /// other live handle of the file, jumping straight to `target`;
    /// contention is reported busy and mutates nothing.
    #[verifier::loop_isolation(false)]
    pub fn lock(&mut self, fd: usize, target: LockLevel) -> (s: Status)
        requires
            old(self).wf(),
        ensures
            final(self).wf(),
            !spec_handle_valid(old(self).handles@, fd as int) ==> s is IoErr,
            spec_handle_valid(old(self).handles@, fd as int) ==> {
                let cur = old(self).handles@[fd as int].level;
                &&& (target.spec_le(cur) ==> s is Okay && spec_same_state(final(self), old(self)))
                &&& (cur.spec_lt(target) && spec_grant(old(self).handles@, fd as int, target)
                    ==> s is Okay && final(self).handles@ == old(self).handles@.update(
                    fd as int,
                    HandleEntry {
                        file: old(self).handles@[fd as int].file,
                        level: target,
                        open: true,
                    },
                ) && final(self).paths@ == old(self).paths@ && final(self).datas@ == old(
                    self,
                ).datas@ && final(self).present@ == old(self).present@)
                &&& (cur.spec_lt(target) && !spec_grant(old(self).handles@, fd as int, target)
                    ==> s is Busy)
            },
            !(s is Okay) ==> spec_same_state(final(self), old(self)),
    {
        if !(fd < self.handles.len() && self.handles[fd].open) {
            return Status::IoErr;
        }
        let cur = self.handles[fd].level;
        if target.le(cur) {
            return Status::Okay;
        }
        let mut j: usize = 0;
        while j < self.handles.len()
            invariant
                j <= self.handles@.len(),
                forall|k: int|
                    0 <= k < j && k != fd && (#[trigger] self.handles@[k]).open
                        && self.handles@[k].file == self.handles@[fd as int].file
                        ==> !spec_conflicts(target, self.handles@[k].level),
            decreases self.handles@.len() - j,
        {
            if j != fd && self.handles[j].open && self.handles[j].file == self.handles[fd].file {
                let held = self.handles[j].level;
                if held.rank() == 4 || (target.rank() == 4 && held.rank() >= 1) {
                    return Status::Busy;
                }
                proof {
                    assert(!spec_conflicts(target, self.handles@[j as int].level));
                }
            }
            j += 1;
        }
        let file = self.handles[fd].file;
        self.handles.set(fd, HandleEntry { file, level: target, open: true });
        proof {
            let oh = old(self).handles@;
            assert(spec_grant(oh, fd as int, target));
            assert forall|i: int, j2: int|
                #![trigger self.handles@[i], self.handles@[j2]]
                0 <= i < self.handles@.len() && 0 <= j2 < self.handles@.len() && i != j2
                    && self.handles@[i].open && self.handles@[j2].open && self.handles@[i].file
                    == self.handles@[j2].file && self.handles@[i].level
                    is Exclusive implies self.handles@[j2].level is NoLock by {
                if i == fd {
                    assert(!spec_conflicts(target, oh[j2].level));
                } else if j2 == fd {
                    assert(!spec_conflicts(target, oh[i].level));
                    assert(!(oh[i].level is Exclusive));
                } else {
                    assert(oh[i] == self.handles@[i]);
                    assert(oh[j2] == self.handles@[j2]);
                }
            }
        }
        Status::Okay
    }

    /// Release handle `fd` down to `target`: a request at or above the
    /// current level is a no-op success; otherwise the level drops straight
    /// to `target`. Release never reports contention.
    pub fn unlock(&mut self, fd: usize, target: LockLevel) -> (s: Status)
        requires
            old(self).wf(),
        ensures
            final(self).wf(),
            !spec_handle_valid(old(self).handles@, fd as int) ==> s is IoErr && spec_same_state(
                final(self),
                old(self),
            ),
            spec_handle_valid(old(self).handles@, fd as int) ==> s is Okay && {
                let cur = old(self).handles@[fd as int].level;
                &&& (cur.spec_le(target) ==> spec_same_state(final(self), old(self)))
                &&& (target.spec_lt(cur) ==> final(self).handles@ == old(self).handles@.update(
                    fd as int,
                    HandleEntry {
                        file: old(self).handles@[fd as int].file,
                        level: target,
                        open: true,
                    },
                ) && final(self).paths@ == old(self).paths@ && final(self).datas@ == old(
                    self,
                ).datas@ && final(self).present@ == old(self).present@)
            },
    {
        if !(fd < self.handles.len() && self.handles[fd].open) {
            return Status::IoErr;
        }
        let cur = self.handles[fd].level;
        if cur.le(target) {
            return Status::Okay;
        }
        let file = self.handles[fd].file;
        self.handles.set(fd, HandleEntry { file, level: target, open: true });
        proof {
            let oh = old(self).handles@;
            assert forall|i: int, j2: int|
                #![trigger self.handles@[i], self.handles@[j2]]
                0 <= i < self.handles@.len() && 0 <= j2 < self.handles@.len() && i != j2
                    && self.handles@[i].open && self.handles@[j2].open && self.handles@[i].file
                    == self.handles@[j2].file && self.handles@[i].level
                    is Exclusive implies self.handles@[j2].level is NoLock by {
                if i == fd {
                    assert(target.spec_lt(oh[fd as int].level));
                    assert(!(target is Exclusive));
                } else if j2 == fd {
                    assert(oh[i] == self.handles@[i]);
                    assert(oh[fd as int].level is NoLock);
                    assert(target.spec_lt(oh[fd as int].level));
                } else {
                    assert(oh[i] == self.handles@[i]);
                    assert(oh[j2] == self.handles@[j2]);
                }
            }
        }
        Status::Okay
    }

    /// Whether handle `fd` holds the reserved level or stronger.
    pub fn check_reserved(&self, fd: usize) -> (r: (bool, Status))
        requires
            self.wf(),
        ensures
            spec_handle_valid(self.handles@, fd as int) ==> r.1 is Okay && r.0
                == LockLevel::Reserved.spec_le(self.handles@[fd as int].level),
            !spec_handle_valid(self.handles@, fd as int) ==> r.1 is IoErr && r.0 == false,
    {
        if fd < self.handles.len() && self.handles[fd].open {
            (LockLevel::Reserved.le(self.handles[fd].level), Status::Okay)
        } else {
            (false, Status::IoErr)
        }
    }

    /// Delete the file at `path`: the slot's presence mark is cleared and
    /// its content dropped. Deleting a missing file is an I/O fault.
    pub fn delete(&mut self, path: &Vec<u8>) -> (s: Status)
        requires
            old(self).wf(),
        ensures
            final(self).wf(),
            match spec_find(old(self).paths@, old(self).present@, path@, 0) {
                Some(fi) => {
                    &&& s is Okay
                    &&& final(self).present@ == old(self).present@.update(fi, false)
                    &&& final(self).datas@.len() == old(self).datas@.len()
                    &&& final(self).datas@[fi]@ == Seq::<u8>::empty()
                    &&& forall|k: int|
                        0 <= k < old(self).datas@.len() && k != fi ==> final(self).datas@[k]
                            == old(self).datas@[k]
                    &&& final(self).paths@ == old(self).paths@
                    &&& final(self).handles@ == old(self).handles@
                },
                None => s is IoErr && spec_same_state(final(self), old(self)),
            },
    {
        proof {
            lemma_find_characterizes(self.paths@, self.present@, path@, 0);
        }
        match self.find_file(path) {
            Some(fi) => {
                self.present.set(fi, false);
                self.datas.set(fi, Vec::new());
                Status::Okay
            },
            None => Status::IoErr,
        }
    }
}

} // verus!
