//! Exclusive ownership of hardware output lines.
//!
//! A [`ResourceHandle`] is a move-only capability for one physical output
//! line: it is yielded at most once per line by the [`Board`] model of the
//! hardware collaborator, and it is consumed when a task takes ownership
//! of the line at spawn time.

use vstd::prelude::*;

verus! {

/// A failure during hardware initialization. Acquiring the same line twice
/// is a boot-time configuration defect; the caller treats it as fatal.
#[derive(Clone, Copy, Debug, PartialEq, Eq, Structural)]
pub enum InitError {
    /// The requested line was already handed out as a handle.
    LineAlreadyAcquired,
}

/// The logical complement a toggle applies to a binary output level.
pub open spec fn spec_toggle(level: bool) -> bool {
    !level
}

/// An exclusively owned, move-only capability for one physical output line.
///
/// The type is deliberately neither `Clone` nor `Copy`: once a handle is
/// passed into a task, no other component can reach that line.
pub struct ResourceHandle {
    /// Identity of the physical line this handle controls.
    pub line: u32,
    /// The binary level the line is currently driven to.
    pub level: bool,
}

impl ResourceHandle {
    /// Drive the line to the given level.
    pub fn set_level(&mut self, level: bool)
        ensures
            final(self).line == old(self).line,
            final(self).level == level,
    {
        self.level = level;
    }

    /// Flip the line: the new level is the complement of the level left by
    /// the previous toggle (or of the initial level, for the first toggle).
    pub fn toggle(&mut self)
        ensures
            final(self).line == old(self).line,
            final(self).level == spec_toggle(old(self).level),
    {
        self.level = !self.level;
    }
}

/// Model of the hardware collaborator: at initialization it yields one
/// distinct [`ResourceHandle`] per named physical output line, each starting
/// at the low level, and never yields the same line twice.
pub struct Board {
    /// The lines already handed out, in acquisition order.
    pub acquired: Vec<u32>,
}

impl Board {
    /// No line was handed out twice.
    pub open spec fn wf(&self) -> bool {
        forall|i: int, j: int|
            0 <= i < j < self.acquired@.len() ==> self.acquired@[i] != self.acquired@[j]
    }

    /// Bring the hardware up with no line handed out yet.
    pub fn init() -> (b: Board)
        ensures
            b.wf(),
            b.acquired@ =~= Seq::<u32>::empty(),
    {
        Board { acquired: Vec::new() }
    }

    /// Whether a handle for `line` was already yielded.
    pub fn is_acquired(&self, line: u32) -> (r: bool)
        ensures
            r == self.acquired@.contains(line),
    {
        let mut i: usize = 0;
        while i < self.acquired.len()
            invariant
                i <= self.acquired@.len(),
                forall|k: int| 0 <= k < i ==> self.acquired@[k] != line,
            decreases self.acquired@.len() - i,
        {
            if self.acquired[i] == line {
                return true;
            }
            i = i + 1;
        }
        assert(!self.acquired@.contains(line));
        false
    }

    /// Yield the handle for `line` at the low level, or fail if a handle for
    /// that line is already out: each line has at most one handle, ever.
    pub fn acquire(&mut self, line: u32) -> (r: Result<ResourceHandle, InitError>)
        requires
            old(self).wf(),
        ensures
            final(self).wf(),
            match r {
                Ok(h) => {
                    &&& !old(self).acquired@.contains(line)
                    &&& h.line == line
                    &&& h.level == false
                    &&& final(self).acquired@ =~= old(self).acquired@.push(line)
                },
                Err(e) => {
                    &&& e == InitError::LineAlreadyAcquired
                    &&& old(self).acquired@.contains(line)
                    &&& final(self).acquired@ =~= old(self).acquired@
                },
            },
    {
        if self.is_acquired(line) {
            Err(InitError::LineAlreadyAcquired)
        } else {
            self.acquired.push(line);
            Ok(ResourceHandle { line, level: false })
        }
    }
}

} // verus!
