//! Symbolic links.

use vstd::prelude::*;
use crate::journal::IoError;
use crate::path::Path;
use super::OpView;

verus! {

/// Creates a symbolic link at `dest` that points to `src`.
#[derive(Debug, PartialEq)]
pub struct LinkOp {
    pub src: Path,
    pub dest: Path,
}

/// Removes the symbolic link that a [`LinkOp`] made.
#[derive(Debug, PartialEq)]
pub struct LinkUndoOp {
    pub src: Path,
    pub dest: Path,
}

/// Why linking failed.
#[derive(Debug, Clone, PartialEq, Eq)]
pub enum LinkOpError {
    Io(IoError),
}

impl View for LinkOp {
    type V = OpView;

    open spec fn view(&self) -> OpView {
        OpView::Link { src: self.src@, dest: self.dest@ }
    }
}

impl View for LinkUndoOp {
    type V = OpView;

    open spec fn view(&self) -> OpView {
        OpView::LinkUndo { src: self.src@, dest: self.dest@ }
    }
}

impl Clone for LinkOp {
    fn clone(&self) -> (copy: Self)
        ensures
            copy@ == self@,
    {
        LinkOp { src: self.src.clone(), dest: self.dest.clone() }
    }
}

impl Clone for LinkUndoOp {
    fn clone(&self) -> (copy: Self)
        ensures
            copy@ == self@,
    {
        LinkUndoOp { src: self.src.clone(), dest: self.dest.clone() }
    }
}

} // verus!
