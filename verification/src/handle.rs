//! The tunnel handle: the one place that owns the running process and the
//! path of its credential helper. Each slot holds at most one value, and
//! taking a value empties its slot, so that nobody else can act on it again.

use crate::request::{slice_text_of, text_of};
use vstd::prelude::*;

verus! {

/// What a handle holds, as plain values.
pub struct HandleModel<P> {
    pub process: Option<P>,
    pub helper_path: Option<Seq<char>>,
}

impl<P> HandleModel<P> {
    /// The handle that holds nothing.
    pub open spec fn empty() -> HandleModel<P> {
        HandleModel { process: None, helper_path: None }
    }

    /// The handle with `process` in its process slot.
    pub open spec fn with_process(self, process: P) -> HandleModel<P> {
        HandleModel { process: Some(process), ..self }
    }

    /// The handle with its process slot emptied.
    pub open spec fn without_process(self) -> HandleModel<P> {
        HandleModel { process: None, ..self }
    }

    /// The handle with `path` in its helper slot.
    pub open spec fn with_helper(self, path: Seq<char>) -> HandleModel<P> {
        HandleModel { helper_path: Some(path), ..self }
    }

    /// The handle with its helper slot emptied.
    pub open spec fn without_helper(self) -> HandleModel<P> {
        HandleModel { helper_path: None, ..self }
    }

    /// The process references that the handle holds, in a list.
    pub open spec fn processes(self) -> Seq<P> {
        match self.process {
            Some(p) => seq![p],
            None => Seq::empty(),
        }
    }

    /// The helper paths that the handle holds, in a list.
    pub open spec fn helper_paths(self) -> Seq<Seq<char>> {
        match self.helper_path {
            Some(path) => seq![path],
            None => Seq::empty(),
        }
    }
}

/// The owner of the managed process, of type `P`, and of the path of its
/// credential helper.
pub struct TunnelHandle<P> {
    process: Option<P>,
    helper_path: Option<String>,
}

impl<P> View for TunnelHandle<P> {
    type V = HandleModel<P>;

    closed spec fn view(&self) -> HandleModel<P> {
        HandleModel { process: self.process, helper_path: text_of(self.helper_path) }
    }
}

impl<P> TunnelHandle<P> {
    /// A handle that holds nothing.
    pub fn new() -> (h: TunnelHandle<P>)
        ensures
            h@ == HandleModel::<P>::empty(),
    {
        TunnelHandle { process: None, helper_path: None }
    }

    /// Puts `process` in the process slot, in place of what was there.
    pub fn store(&mut self, process: P)
        ensures
            final(self)@ == old(self)@.with_process(process),
    {
        self.process = Some(process);
    }

    /// Empties the process slot and hands out what was in it.
    pub fn take_process(&mut self) -> (r: Option<P>)
        ensures
            r == old(self)@.process,
            final(self)@ == old(self)@.without_process(),
    {
        self.process.take()
    }

    /// Puts `path` in the helper slot, in place of what was there.
    pub fn store_helper(&mut self, path: String)
        ensures
            final(self)@ == old(self)@.with_helper(path@),
    {
        self.helper_path = Some(path);
    }

    /// Empties the helper slot and hands out what was in it.
    pub fn take_helper(&mut self) -> (r: Option<String>)
        ensures
            text_of(r) == old(self)@.helper_path,
            final(self)@ == old(self)@.without_helper(),
    {
        self.helper_path.take()
    }

    /// Whether a process is held.
    pub fn has_process(&self) -> (b: bool)
        ensures
            b == (self@.process is Some),
    {
        self.process.is_some()
    }

    /// The helper path that is held, if any.
    pub fn helper_path(&self) -> (r: Option<&str>)
        ensures
            slice_text_of(r) == self@.helper_path,
    {
        match &self.helper_path {
            Some(path) => Some(path.as_str()),
            None => None,
        }
    }
}

/// A handle never holds more than one process and one helper path.
pub proof fn lemma_at_most_one_of_each<P>(h: HandleModel<P>)
    ensures
        h.processes().len() <= 1,
        h.helper_paths().len() <= 1,
{
}

} // verus!
