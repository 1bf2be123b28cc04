//! The buffer manager: every open buffer, in order, and the current
//! one.
//!
//! Two invariants hold at all times and every operation re-establishes
//! them: the collection is never empty — removing the last buffer
//! replaces it with a fresh placeholder instead — and the current
//! index is always in range, so asking for the current buffer always
//! succeeds.

use crate::buffer::Buffer;
use crate::doc::doc_new;
use vstd::prelude::*;

verus! {

/// All open buffers and the current selection.
pub struct Buffers {
    /// The open buffers, in creation order.
    pub buffers: Vec<Buffer>,
    /// Index of the current buffer; always in range.
    pub current_buffer: usize,
}

impl Buffers {
    /// The manager's invariant: at least one buffer, a valid current
    /// index, and every held buffer well formed.
    pub open spec fn wf(&self) -> bool {
        &&& self.buffers@.len() >= 1
        &&& self.current_buffer < self.buffers@.len()
        &&& forall|i: int| 0 <= i < self.buffers@.len() ==> (#[trigger] self.buffers@[i]).wf()
    }

    /// A manager holding the one given buffer, which is current.
    pub fn new(buffer: Buffer) -> (m: Buffers)
        requires
            buffer.wf(),
        ensures
            m.wf(),
            m.buffers@.len() == 1,
            m.buffers@[0] == buffer,
            m.current_buffer == 0,
    {
        let mut buffers: Vec<Buffer> = Vec::new();
        buffers.push(buffer);
        Buffers { buffers, current_buffer: 0 }
    }

    /// Append a buffer and hand back its index. The current selection
    /// does not change.
    pub fn add_buffer(&mut self, buffer: Buffer) -> (id: usize)
        requires
            old(self).wf(),
            buffer.wf(),
        ensures
            final(self).wf(),
            id == old(self).buffers@.len(),
            final(self).buffers@ == old(self).buffers@.push(buffer),
            final(self).current_buffer == old(self).current_buffer,
    {
        let id = self.buffers.len();
        self.buffers.push(buffer);
        id
    }

    /// The current buffer. The invariant makes the access valid.
    pub fn get_current(&self) -> (b: &Buffer)
        requires
            self.wf(),
        ensures
            *b == self.buffers@[self.current_buffer as int],
            b.wf(),
    {
        &self.buffers[self.current_buffer]
    }

    /// The current buffer, for mutation. Whatever the caller leaves in
    /// it becomes the buffer at the current index; as long as that is
    /// a well-formed buffer, the manager stays well formed.
    pub fn get_current_mut(&mut self) -> (b: &mut Buffer)
        requires
            old(self).wf(),
        ensures
            *b == old(self).buffers@[old(self).current_buffer as int],
            b.wf(),
            final(self).current_buffer == old(self).current_buffer,
            final(self).buffers@ == old(self).buffers@.update(
                old(self).current_buffer as int,
                *final(b),
            ),
            final(b).wf() ==> final(self).wf(),
    {
        &mut self.buffers[self.current_buffer]
    }

    /// The first buffer with unsaved edits, in order, if any.
    pub fn modified(&self) -> (r: Option<&Buffer>)
        requires
            self.wf(),
        ensures
            match r {
                Some(b) => exists|i: int|
                    0 <= i < self.buffers@.len() && *b == self.buffers@[i]
                        && (#[trigger] self.buffers@[i]).modified && (forall|j: int|
                        0 <= j < i ==> !(#[trigger] self.buffers@[j]).modified),
                None => forall|i: int|
                    0 <= i < self.buffers@.len() ==> !(#[trigger] self.buffers@[i]).modified,
            },
    {
        let mut i: usize = 0;
        while i < self.buffers.len()
            invariant
                i <= self.buffers@.len(),
                forall|j: int| 0 <= j < i ==> !(#[trigger] self.buffers@[j]).modified,
            decreases self.buffers@.len() - i,
        {
            let b = &self.buffers[i];
            if b.modified {
                return Some(b);
            }
            i += 1;
        }
        None
    }

    /// Remove the current buffer. When that was the last one, a fresh
    /// placeholder buffer — non-persistable and empty — takes its place, so the
    /// collection never becomes empty; otherwise the current index is
    /// clamped back into range if the removal left it past the end.
    pub fn remove_current(&mut self)
        requires
            old(self).wf(),
        ensures
            final(self).wf(),
            final(self).buffers@.len() >= 1,
            old(self).buffers@.len() == 1 ==> {
                &&& final(self).buffers@.len() == 1
                &&& final(self).current_buffer == 0
                &&& final(self).buffers@[0].doc() == doc_new(Seq::<char>::empty())
                &&& final(self).buffers@[0].name@ == "[buffer]"@
                &&& !final(self).buffers@[0].is_file
                &&& !final(self).buffers@[0].modified
            },
            old(self).buffers@.len() > 1 ==> {
                &&& final(self).buffers@ == old(self).buffers@.remove(
                    old(self).current_buffer as int,
                )
                &&& final(self).current_buffer as int == (if (old(self).current_buffer as int)
                    < old(self).buffers@.len() - 1 {
                    old(self).current_buffer as int
                } else {
                    old(self).buffers@.len() - 2
                })
            },
    {
        let _ = self.buffers.remove(self.current_buffer);
        if self.buffers.len() == 0 {
            self.buffers.push(Buffer::new("[buffer]", false, ""));
            proof {
                assert(""@ =~= Seq::<char>::empty()) by {
                    reveal_strlit("");
                }
            }
        } else if self.current_buffer >= self.buffers.len() {
            self.current_buffer = self.buffers.len() - 1;
        }
    }

    /// Advance the current selection cyclically.
    pub fn next(&mut self)
        requires
            old(self).wf(),
        ensures
            final(self).wf(),
            final(self).buffers@ == old(self).buffers@,
            final(self).current_buffer as int == (if old(self).current_buffer + 1 == old(
                self,
            ).buffers@.len() {
                0int
            } else {
                old(self).current_buffer + 1
            }),
    {
        let n = self.buffers.len();
        self.current_buffer += 1;
        if self.current_buffer >= n {
            self.current_buffer = 0;
        }
    }

    /// Retreat the current selection cyclically.
    pub fn prev(&mut self)
        requires
            old(self).wf(),
        ensures
            final(self).wf(),
            final(self).buffers@ == old(self).buffers@,
            final(self).current_buffer as int == (if old(self).current_buffer == 0 {
                old(self).buffers@.len() - 1
            } else {
                old(self).current_buffer - 1
            }),
    {
        if self.current_buffer == 0 {
            self.current_buffer = self.buffers.len();
        }
        self.current_buffer -= 1;
    }

    /// Make the buffer with index `id` current. An out-of-range `id`
    /// changes nothing: a silent no-op, not an error.
    pub fn switch(&mut self, id: usize)
        requires
            old(self).wf(),
        ensures
            final(self).wf(),
            final(self).buffers@ == old(self).buffers@,
            id < old(self).buffers@.len() ==> final(self).current_buffer == id,
            id >= old(self).buffers@.len() ==> final(self).current_buffer == old(
                self,
            ).current_buffer,
    {
        if id < self.buffers.len() {
            self.current_buffer = id;
        }
    }
}

} // verus!
