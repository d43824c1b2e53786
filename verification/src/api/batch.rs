//! Deletion of many tags, one after another.
//!
//! Deleting a tag takes two requests: the manifest is fetched for its
//! digest, then the manifest with that digest is deleted. `BatchDeletion`
//! decides what to do next and keeps the tally; whoever holds the connection
//! performs each action and reports what came of it. A tag that fails is
//! counted and the next tag is tried.

use crate::api::error::{api_error_text, ApiError, ApiErrorView};
use crate::text::texts;
use vstd::prelude::*;

verus! {

/// The tally of a batch deletion.
#[derive(Clone, Debug, PartialEq)]
pub struct DeletionResult {
    /// How many tags were deleted.
    pub deleted: usize,
    /// How many tags could not be deleted.
    pub failed: usize,
    /// A message for each tag that could not be deleted, in their order.
    pub errors: Vec<String>,
}

/// What to do next.
#[derive(Clone, Debug, PartialEq)]
pub enum DeletionAction {
    /// Fetch the manifest of this tag, for its digest.
    FetchManifest { tag: String },
    /// Delete the manifest with this digest.
    DeleteManifest { digest: String },
    /// Every tag has been tried.
    Finished,
}

/// A `DeletionAction` as mathematics.
pub enum DeletionActionView {
    FetchManifest { tag: Seq<char> },
    DeleteManifest { digest: Seq<char> },
    Finished,
}

impl View for DeletionAction {
    type V = DeletionActionView;

    open spec fn view(&self) -> DeletionActionView {
        match self {
            DeletionAction::FetchManifest { tag } => DeletionActionView::FetchManifest { tag: tag@ },
            DeletionAction::DeleteManifest { digest } => DeletionActionView::DeleteManifest {
                digest: digest@,
            },
            DeletionAction::Finished => DeletionActionView::Finished,
        }
    }
}

/// The state of a batch deletion as mathematics.
pub struct DeletionState {
    /// The tags to delete.
    pub tags: Seq<Seq<char>>,
    /// How many tags have been tried.
    pub position: nat,
    /// The digest of the current tag's manifest, once it is known.
    pub pending: Option<Seq<char>>,
    pub deleted: nat,
    pub failed: nat,
    pub errors: Seq<Seq<char>>,
}

/// Whether a state is one that a batch deletion can be in: every tag tried
/// was deleted or has failed, with a message for each failure.
pub open spec fn consistent(state: DeletionState) -> bool {
    &&& state.position <= state.tags.len()
    &&& state.deleted + state.failed == state.position
    &&& state.errors.len() == state.failed
    &&& state.pending is Some ==> state.position < state.tags.len()
}

/// The action that a state asks for.
pub open spec fn action_of(state: DeletionState) -> DeletionActionView {
    if state.position >= state.tags.len() {
        DeletionActionView::Finished
    } else {
        match state.pending {
            Some(digest) => DeletionActionView::DeleteManifest { digest },
            None => DeletionActionView::FetchManifest { tag: state.tags[state.position as int] },
        }
    }
}

/// The state after the current tag has been deleted.
pub open spec fn after_success(state: DeletionState) -> DeletionState {
    DeletionState {
        position: state.position + 1,
        pending: None,
        deleted: state.deleted + 1,
        ..state
    }
}

/// The state after the current tag has failed for the reason given.
pub open spec fn after_failure(state: DeletionState, reason: Seq<char>) -> DeletionState {
    DeletionState {
        position: state.position + 1,
        pending: None,
        failed: state.failed + 1,
        errors: state.errors.push(state.tags[state.position as int] + ": "@ + reason),
        ..state
    }
}

/// The state after the outcome of fetching the current tag's manifest: a
/// digest that is not empty is kept for the deletion; an empty digest and an
/// error are failures of the tag, each with its message. The outcome changes
/// nothing where no fetch was asked for.
pub open spec fn after_fetch(state: DeletionState, outcome: Result<Seq<char>, ApiErrorView>) -> DeletionState {
    if action_of(state) is FetchManifest {
        match outcome {
            Ok(digest) => if digest.len() > 0 {
                DeletionState { pending: Some(digest), ..state }
            } else {
                after_failure(state, "No digest returned"@)
            },
            Err(e) => after_failure(state, api_error_text(e)),
        }
    } else {
        state
    }
}

/// The state after the outcome of deleting the current tag's manifest. The
/// outcome changes nothing where no deletion was asked for.
pub open spec fn after_delete(state: DeletionState, outcome: Result<(), ApiErrorView>) -> DeletionState {
    if action_of(state) is DeleteManifest {
        match outcome {
            Ok(_) => after_success(state),
            Err(e) => after_failure(state, api_error_text(e)),
        }
    } else {
        state
    }
}

/// A failure never ends the batch: whatever the outcomes, a consistent state
/// stays consistent and no tag is passed over, so a batch that is finished
/// has tried every tag and counted each as deleted or failed.
pub proof fn lemma_every_tag_is_tried(
    state: DeletionState,
    fetched: Result<Seq<char>, ApiErrorView>,
    deleted: Result<(), ApiErrorView>,
)
    requires
        consistent(state),
    ensures
        consistent(after_fetch(state, fetched)),
        consistent(after_delete(state, deleted)),
        after_fetch(state, fetched).position <= state.position + 1,
        after_delete(state, deleted).position <= state.position + 1,
        after_fetch(state, fetched).tags == state.tags,
        after_delete(state, deleted).tags == state.tags,
        action_of(state) is Finished ==> state.deleted + state.failed == state.tags.len()
            && state.errors.len() == state.failed,
{
}

/// A batch deletion in progress.
pub struct BatchDeletion {
    tags: Vec<String>,
    position: usize,
    pending: Option<String>,
    deleted: usize,
    failed: usize,
    errors: Vec<String>,
}

impl View for BatchDeletion {
    type V = DeletionState;

    closed spec fn view(&self) -> DeletionState {
        DeletionState {
            tags: texts(self.tags@),
            position: self.position as nat,
            pending: crate::text::opt_text(self.pending),
            deleted: self.deleted as nat,
            failed: self.failed as nat,
            errors: texts(self.errors@),
        }
    }
}

/// The view of a digest result.
pub open spec fn digest_result(outcome: Result<String, ApiError>) -> Result<Seq<char>, ApiErrorView> {
    match outcome {
        Ok(digest) => Ok(digest@),
        Err(e) => Err(e@),
    }
}

/// The view of a result without a value.
pub open spec fn unit_result(outcome: Result<(), ApiError>) -> Result<(), ApiErrorView> {
    match outcome {
        Ok(_) => Ok(()),
        Err(e) => Err(e@),
    }
}

impl BatchDeletion {
    #[verifier::type_invariant]
    spec fn well_formed(&self) -> bool {
        consistent(self@)
    }

    /// The deletion of `tags`, before anything has been tried.
    pub fn new(tags: Vec<String>) -> (out: Self)
        ensures
            out@ == (DeletionState {
                tags: texts(tags@),
                position: 0,
                pending: None,
                deleted: 0,
                failed: 0,
                errors: Seq::empty(),
            }),
    {
        let out = BatchDeletion {
            tags,
            position: 0,
            pending: None,
            deleted: 0,
            failed: 0,
            errors: Vec::new(),
        };
        assert(texts(out.errors@) =~= Seq::<Seq<char>>::empty());
        out
    }

    /// What to do next.
    pub fn action(&self) -> (out: DeletionAction)
        ensures
            out@ == action_of(self@),
            consistent(self@),
    {
        proof {
            use_type_invariant(self);
        }
        if self.position >= self.tags.len() {
            DeletionAction::Finished
        } else {
            match &self.pending {
                Some(digest) => DeletionAction::DeleteManifest { digest: digest.clone() },
                None => DeletionAction::FetchManifest { tag: self.tags[self.position].clone() },
            }
        }
    }

    /// How many tags have been tried.
    pub fn progress(&self) -> (n: usize)
        ensures
            n == self@.position,
            n <= self@.tags.len(),
    {
        proof {
            use_type_invariant(self);
        }
        self.position
    }

    /// Takes the state out, leaving an empty batch behind.
    fn take(&mut self) -> (out: Self)
        ensures
            out@ == old(self)@,
            consistent(out@),
    {
        proof {
            use_type_invariant(&*self);
        }
        let mut out = BatchDeletion {
            tags: Vec::new(),
            position: 0,
            pending: None,
            deleted: 0,
            failed: 0,
            errors: Vec::new(),
        };
        core::mem::swap(self, &mut out);
        out
    }

    /// Counts the current tag as failed for the reason given.
    fn fail(&mut self, reason: &str)
        requires
            old(self)@.position < old(self)@.tags.len(),
        ensures
            final(self)@ == after_failure(old(self)@, reason@),
    {
        let taken = self.take();
        let ghost state = taken@;
        let BatchDeletion { tags, position, pending, deleted, failed, mut errors } = taken;
        assert(state.tags.len() == tags@.len());
        let count = tags.len();
        assert(failed <= position < count);
        let mut message = tags[position].clone();
        message.append(": ");
        message.append(reason);
        let ghost before = errors@;
        errors.push(message);
        assert(texts(errors@) =~= texts(before).push(message@));
        *self = BatchDeletion {
            tags,
            position: position + 1,
            pending: None,
            deleted,
            failed: failed + 1,
            errors,
        };
    }

    /// Takes the outcome of fetching the current tag's manifest: its digest,
    /// or the error.
    pub fn manifest_fetched(&mut self, outcome: Result<String, ApiError>)
        ensures
            final(self)@ == after_fetch(old(self)@, digest_result(outcome)),
    {
        proof {
            use_type_invariant(&*self);
        }
        if self.position >= self.tags.len() || self.pending.is_some() {
            return ;
        }
        match outcome {
            Ok(digest) => {
                if digest.as_str().is_empty() {
                    self.fail("No digest returned");
                } else {
                    let BatchDeletion { tags, position, pending, deleted, failed, errors } =
                        self.take();
                    *self = BatchDeletion {
                        tags,
                        position,
                        pending: Some(digest),
                        deleted,
                        failed,
                        errors,
                    };
                }
            },
            Err(e) => {
                let reason = e.message();
                self.fail(reason.as_str());
            },
        }
    }

    /// Takes the outcome of deleting the current tag's manifest.
    pub fn manifest_deleted(&mut self, outcome: Result<(), ApiError>)
        ensures
            final(self)@ == after_delete(old(self)@, unit_result(outcome)),
    {
        proof {
            use_type_invariant(&*self);
        }
        if self.position >= self.tags.len() || self.pending.is_none() {
            return ;
        }
        match outcome {
            Ok(_) => {
                let taken = self.take();
                let ghost state = taken@;
                let BatchDeletion { tags, position, pending, deleted, failed, errors } = taken;
                assert(state.tags.len() == tags@.len());
                let count = tags.len();
                assert(deleted <= position < count);
                *self = BatchDeletion {
                    tags,
                    position: position + 1,
                    pending: None,
                    deleted: deleted + 1,
                    failed,
                    errors,
                };
            },
            Err(e) => {
                let reason = e.message();
                self.fail(reason.as_str());
            },
        }
    }

    /// The tally so far; the final tally once the batch is finished.
    pub fn result(&self) -> (out: DeletionResult)
        ensures
            out.deleted == self@.deleted,
            out.failed == self@.failed,
            texts(out.errors@) == self@.errors,
            out.deleted + out.failed == self@.position,
            out.errors@.len() == out.failed,
    {
        proof {
            use_type_invariant(self);
        }
        let mut errors: Vec<String> = Vec::new();
        let mut i: usize = 0;
        while i < self.errors.len()
            invariant
                0 <= i <= self.errors@.len(),
                errors@.len() == i,
                forall|j: int| 0 <= j < i ==> (#[trigger] errors@[j])@ == self.errors@[j]@,
            decreases self.errors@.len() - i,
        {
            errors.push(self.errors[i].clone());
            i += 1;
        }
        assert(texts(errors@) =~= texts(self.errors@));
        DeletionResult { deleted: self.deleted, failed: self.failed, errors }
    }
}

} // verus!
