//! The progress-tracked export pipeline, as a state machine.
//!
//! An export run walks an ordered collection of named entries, one at a
//! time, streaming each entry's bytes out of the blob store. This
//! module holds every decision of that pipeline: which progress event
//! to emit for which input, when to advance to the next entry, and when
//! to abort the whole run. The caller performs the surrounding I/O —
//! the existence check on the target path and the copy stream itself —
//! and feeds the outcomes in as plain values.
//!
//! Per run the emitted events follow a fixed grammar: one `Started`,
//! then for each entry one `FileStarted`, zero or more `FileProgress`,
//! one `FileCompleted`, and finally one `Completed` if no entry failed.
//! The method preconditions make any other order unreachable.

use vstd::prelude::*;

verus! {

/// A progress event reported to the observer of an export run.
#[derive(Debug, Clone, PartialEq, Eq)]
pub enum ExportProgress {
    Started { total_files: usize },
    FileStarted { name: String, size: u64 },
    FileProgress { name: String, offset: u64 },
    FileCompleted { name: String },
    Completed,
}

/// The mathematical value of an [`ExportProgress`] event.
#[verifier::ext_equal]
pub enum ExportProgressView {
    Started { total_files: int },
    FileStarted { name: Seq<char>, size: int },
    FileProgress { name: Seq<char>, offset: int },
    FileCompleted { name: Seq<char> },
    Completed,
}

impl View for ExportProgress {
    type V = ExportProgressView;

    open spec fn view(&self) -> ExportProgressView {
        match self {
            ExportProgress::Started { total_files } => ExportProgressView::Started {
                total_files: *total_files as int,
            },
            ExportProgress::FileStarted { name, size } => ExportProgressView::FileStarted {
                name: name@,
                size: *size as int,
            },
            ExportProgress::FileProgress { name, offset } => ExportProgressView::FileProgress {
                name: name@,
                offset: *offset as int,
            },
            ExportProgress::FileCompleted { name } => ExportProgressView::FileCompleted {
                name: name@,
            },
            ExportProgress::Completed => ExportProgressView::Completed,
        }
    }
}

/// One item of the copy stream the blob store produces for a single
/// entry: the announced total size, a byte offset reached, completion,
/// or a failure with its printed cause.
#[derive(Debug, Clone, PartialEq, Eq)]
pub enum CopyStreamItem {
    Size(u64),
    CopyProgress(u64),
    Done,
    Error(String),
}

/// Why an export run aborted.
#[derive(Debug, Clone, PartialEq, Eq)]
pub enum ExportError {
    /// The target path already exists; nothing is overwritten.
    TargetExists { target: String },
    /// The copy stream for one entry reported a failure.
    CopyFailed { name: String, cause: String },
}

/// The mathematical value of an [`ExportError`].
#[verifier::ext_equal]
pub enum ExportErrorView {
    TargetExists { target: Seq<char> },
    CopyFailed { name: Seq<char>, cause: Seq<char> },
}

impl View for ExportError {
    type V = ExportErrorView;

    open spec fn view(&self) -> ExportErrorView {
        match self {
            ExportError::TargetExists { target } => ExportErrorView::TargetExists {
                target: target@,
            },
            ExportError::CopyFailed { name, cause } => ExportErrorView::CopyFailed {
                name: name@,
                cause: cause@,
            },
        }
    }
}

/// Where an export run stands.
#[derive(Debug, Clone, Copy, PartialEq, Eq)]
pub enum ExportPhase {
    /// Between entries: ready to begin the entry at `index`, or to
    /// finish when every entry is done.
    Pending,
    /// The entry at `index` has started and its copy stream is being
    /// consumed.
    Copying,
    /// Every entry succeeded and `Completed` was emitted.
    Finished,
    /// The run aborted; no further entry is processed.
    Failed,
}

/// The state of one export run over an ordered collection of entry
/// names. Entries are processed strictly one at a time, in order.
pub struct ExportRun {
    /// The names of the collection's entries, in order.
    pub names: Vec<String>,
    /// How many entries have completed.
    pub index: usize,
    /// Where the run stands.
    pub phase: ExportPhase,
}

impl ExportRun {
    /// The state invariant: the cursor stays within the collection,
    /// copying only happens on a real entry, and a finished run has
    /// processed every entry.
    pub open spec fn wf(&self) -> bool {
        &&& self.index <= self.names@.len()
        &&& (self.phase is Copying ==> self.index < self.names@.len())
        &&& (self.phase is Finished ==> self.index == self.names@.len())
    }

    /// The name of the entry the run currently stands on.
    pub open spec fn current_name(&self) -> Seq<char> {
        self.names.deep_view()[self.index as int]
    }

    /// Begins a run over the given entry names and returns the one
    /// `Started` event, carrying the total entry count.
    pub fn start(names: Vec<String>) -> (r: (ExportRun, ExportProgress))
        ensures
            r.0.wf(),
            r.0.names.deep_view() == names.deep_view(),
            r.0.index == 0,
            r.0.phase is Pending,
            r.1@ == (ExportProgressView::Started { total_files: names@.len() as int }),
    {
        let total = names.len();
        (
            ExportRun { names, index: 0, phase: ExportPhase::Pending },
            ExportProgress::Started { total_files: total },
        )
    }

    /// Whether an entry is still pending, i.e. the run stands between
    /// entries and has not processed the whole collection.
    pub fn has_pending_entry(&self) -> (r: bool)
        ensures
            r == (self.phase is Pending && self.index < self.names@.len()),
    {
        match self.phase {
            ExportPhase::Pending => self.index < self.names.len(),
            _ => false,
        }
    }

    /// Whether the run stands between entries with every entry done,
    /// so that only the final `Completed` event is left.
    pub fn ready_to_finish(&self) -> (r: bool)
        ensures
            r == (self.phase is Pending && self.index == self.names@.len()),
    {
        match self.phase {
            ExportPhase::Pending => self.index == self.names.len(),
            _ => false,
        }
    }

    /// Begins the pending entry. The caller reports whether the entry's
    /// target path already exists: if it does, the run aborts at once
    /// with an error naming that path — nothing is overwritten, and no
    /// event is emitted for this or any later entry. Otherwise the
    /// entry's `FileStarted` event is returned, with size zero since
    /// the size is not known up front.
    pub fn begin_entry(&mut self, target_exists: bool, target_display: String) -> (r: Result<
        ExportProgress,
        ExportError,
    >)
        requires
            old(self).wf(),
            old(self).phase is Pending,
            old(self).index < old(self).names@.len(),
        ensures
            final(self).wf(),
            final(self).names == old(self).names,
            final(self).index == old(self).index,
            target_exists ==> ({
                &&& final(self).phase is Failed
                &&& r matches Err(e) && e@ == (ExportErrorView::TargetExists {
                    target: target_display@,
                })
            }),
            !target_exists ==> ({
                &&& final(self).phase is Copying
                &&& r matches Ok(ev) && ev@ == (ExportProgressView::FileStarted {
                    name: old(self).current_name(),
                    size: 0,
                })
            }),
    {
        if target_exists {
            self.phase = ExportPhase::Failed;
            Err(ExportError::TargetExists { target: target_display })
        } else {
            self.phase = ExportPhase::Copying;
            Ok(ExportProgress::FileStarted { name: self.names[self.index].clone(), size: 0 })
        }
    }

    /// Consumes one item of the current entry's copy stream.
    ///
    /// A size announcement is ignored (the size is not re-emitted at
    /// this layer); a copy progress item is relayed as `FileProgress`
    /// with the same offset; completion emits `FileCompleted` and
    /// advances the run to the next entry; a stream error aborts the
    /// whole run with an error naming the entry and the cause.
    pub fn on_copy_item(&mut self, item: CopyStreamItem) -> (r: Result<
        Option<ExportProgress>,
        ExportError,
    >)
        requires
            old(self).wf(),
            old(self).phase is Copying,
        ensures
            final(self).wf(),
            final(self).names == old(self).names,
            item matches CopyStreamItem::Size(_) ==> ({
                &&& *final(self) == *old(self)
                &&& r matches Ok(p) && p is None
            }),
            item matches CopyStreamItem::CopyProgress(offset) ==> ({
                &&& *final(self) == *old(self)
                &&& r matches Ok(p) && p matches Some(ev) && ev@
                    == (ExportProgressView::FileProgress {
                    name: old(self).current_name(),
                    offset: offset as int,
                })
            }),
            item is Done ==> ({
                &&& final(self).index == old(self).index + 1
                &&& final(self).phase is Pending
                &&& r matches Ok(p) && p matches Some(ev) && ev@
                    == (ExportProgressView::FileCompleted { name: old(self).current_name() })
            }),
            item matches CopyStreamItem::Error(cause) ==> ({
                &&& final(self).index == old(self).index
                &&& final(self).phase is Failed
                &&& r matches Err(e) && e@ == (ExportErrorView::CopyFailed {
                    name: old(self).current_name(),
                    cause: cause@,
                })
            }),
    {
        match item {
            CopyStreamItem::Size(_) => Ok(None),
            CopyStreamItem::CopyProgress(offset) => Ok(
                Some(
                    ExportProgress::FileProgress {
                        name: self.names[self.index].clone(),
                        offset,
                    },
                ),
            ),
            CopyStreamItem::Done => {
                let name = self.names[self.index].clone();
                let n = self.names.len();
                assert(self.index < n);
                self.index = self.index + 1;
                self.phase = ExportPhase::Pending;
                Ok(Some(ExportProgress::FileCompleted { name }))
            },
            CopyStreamItem::Error(cause) => {
                self.phase = ExportPhase::Failed;
                Err(
                    ExportError::CopyFailed {
                        name: self.names[self.index].clone(),
                        cause,
                    },
                )
            },
        }
    }

    /// Ends a run in which every entry succeeded, returning the one
    /// final `Completed` event.
    pub fn finish(&mut self) -> (r: ExportProgress)
        requires
            old(self).wf(),
            old(self).phase is Pending,
            old(self).index == old(self).names@.len(),
        ensures
            final(self).wf(),
            final(self).names == old(self).names,
            final(self).index == old(self).index,
            final(self).phase is Finished,
            r@ is Completed,
    {
        self.phase = ExportPhase::Finished;
        ExportProgress::Completed
    }
}

} // verus!
