//! The retrieval decisions: which variant to fetch, in what order the
//! planned transfers run, and how the flow moves from phase to phase.
//!
//! All network and file system work is the calling program's: it asks the
//! state machines here what to do next and reports what came back, and the
//! contracts pin down every decision in between.

use crate::errors::RetrievalError;
use crate::metadata::{MetadataView, ModelMetadata};
use crate::pathmap::FileTransfer;
use crate::spec_is_success_status;
use vstd::prelude::*;

verus! {

/// Which file variants a retrieval call wants: the exported format instead
/// of the trained artifact, its quantized form, and any companion artifact.
/// The companion flag records the caller's intent; the flow fetches any
/// companion artifact the metadata names, in the fixed priority order.
pub struct RetrievalPolicy {
    pub want_exported: bool,
    pub want_quantized: bool,
    pub want_companion: bool,
}

/// The remote root of the primary artifact: the trained artifact unless the
/// exported format is wanted; then the quantized or plain export, which the
/// metadata may lack (`None`).
pub open spec fn spec_select_primary(
    m: MetadataView,
    want_exported: bool,
    want_quantized: bool,
) -> Option<Seq<char>> {
    if !want_exported {
        Some(m.model_uri)
    } else if want_quantized {
        m.quantized_model_uri
    } else {
        m.onnx_uri
    }
}

/// The remote root of the companion artifact: the first of the
/// preprocessor, tokenizer and feature-extractor paths, in that fixed
/// priority order. When a document abnormally fills more than one, only
/// the highest-priority one is ever fetched — a deliberate precedence
/// rule, not an accident.
pub open spec fn spec_select_companion(m: MetadataView) -> Option<Seq<char>> {
    if m.preprocessor_uri is Some {
        m.preprocessor_uri
    } else if m.tokenizer_uri is Some {
        m.tokenizer_uri
    } else if m.feature_extractor_uri is Some {
        m.feature_extractor_uri
    } else {
        None
    }
}

/// One retrieval call's arguments, as the command line hands them over.
pub struct ModelDownloader {
    pub name: Option<String>,
    pub version: Option<String>,
    pub uid: Option<String>,
    pub write_dir: String,
    pub ignore_release_candidates: bool,
    pub onnx: bool,
    pub no_onnx: bool,
    pub quantize: bool,
}

/// The primary selection, as an executable function: the value
/// `spec_select_primary` names, or the `MissingVariant` failure.
pub fn select_primary_uri(
    metadata: &ModelMetadata,
    want_exported: bool,
    want_quantized: bool,
) -> (r: Result<String, RetrievalError>)
    ensures
        r matches Ok(u) ==> spec_select_primary(metadata@, want_exported, want_quantized) == Some(
            u@,
        ),
        r is Err <==> spec_select_primary(metadata@, want_exported, want_quantized) is None,
        r matches Err(e) ==> e is MissingVariant,
{
    if !want_exported {
        Ok(metadata.model_uri.clone())
    } else if want_quantized {
        match &metadata.quantized_model_uri {
            Some(u) => Ok(u.clone()),
            None => Err(RetrievalError::MissingVariant),
        }
    } else {
        match &metadata.onnx_uri {
            Some(u) => Ok(u.clone()),
            None => Err(RetrievalError::MissingVariant),
        }
    }
}

/// The companion selection, as an executable function: the value
/// `spec_select_companion` names, if any.
pub fn select_companion_uri(metadata: &ModelMetadata) -> (r: Option<String>)
    ensures
        r matches Some(u) ==> spec_select_companion(metadata@) == Some(u@),
        r is None ==> spec_select_companion(metadata@) is None,
{
    if metadata.preprocessor_uri.is_some() {
        Some(metadata.preprocessor_uri.as_ref().unwrap().clone())
    } else if metadata.tokenizer_uri.is_some() {
        Some(metadata.tokenizer_uri.as_ref().unwrap().clone())
    } else if metadata.feature_extractor_uri.is_some() {
        Some(metadata.feature_extractor_uri.as_ref().unwrap().clone())
    } else {
        None
    }
}

impl ModelDownloader {
    /// The remote root of the primary artifact, per `spec_select_primary`
    /// with this call's quantization flag; a missing variant is the
    /// `MissingVariant` failure.
    pub fn get_model_uri(&self, download_onnx: bool, model_metadata: &ModelMetadata) -> (r: Result<
        String,
        RetrievalError,
    >)
        ensures
            r matches Ok(u) ==> spec_select_primary(model_metadata@, download_onnx, self.quantize)
                == Some(u@),
            r is Err <==> spec_select_primary(model_metadata@, download_onnx, self.quantize)
                is None,
            r matches Err(e) ==> e is MissingVariant,
    {
        select_primary_uri(model_metadata, download_onnx, self.quantize)
    }

    /// The remote root of the companion artifact, per
    /// `spec_select_companion`, or `None` when the metadata names none.
    pub fn get_preprocessor_uri(&self, model_metadata: &ModelMetadata) -> (r: Option<String>)
        ensures
            r matches Some(u) ==> spec_select_companion(model_metadata@) == Some(u@),
            r is None ==> spec_select_companion(model_metadata@) is None,
    {
        select_companion_uri(model_metadata)
    }
}

/// What one retrieval call will fetch: an optional companion root, always
/// attempted first, and the primary root.
pub struct RetrievalPlan {
    pub companion: Option<String>,
    pub primary: String,
}

/// Selects the fetch roots for one retrieval call. Fails with
/// `MissingVariant` exactly when the wanted exported or quantized variant
/// is absent from the metadata.
pub fn plan_retrieval(metadata: &ModelMetadata, policy: &RetrievalPolicy) -> (r: Result<
    RetrievalPlan,
    RetrievalError,
>)
    ensures
        r matches Ok(p) ==> spec_select_primary(
            metadata@,
            policy.want_exported,
            policy.want_quantized,
        ) == Some(p.primary@) && (match p.companion {
            Some(c) => spec_select_companion(metadata@) == Some(c@),
            None => spec_select_companion(metadata@) is None,
        }),
        r is Err <==> spec_select_primary(
            metadata@,
            policy.want_exported,
            policy.want_quantized,
        ) is None,
        r matches Err(e) ==> e is MissingVariant,
{
    let companion = select_companion_uri(metadata);
    let primary = select_primary_uri(metadata, policy.want_exported, policy.want_quantized)?;
    Ok(RetrievalPlan { companion, primary })
}

/// The walk over one planned tree: transfers are attempted one at a time
/// in listing order, and the first failing transfer aborts the walk with
/// every later transfer left unattempted.
pub struct TreeDownload {
    transfers: Vec<FileTransfer>,
    next: usize,
    failed: bool,
    outcomes: Ghost<Seq<u16>>,
}

impl TreeDownload {
    /// The planned transfers, in order.
    pub closed spec fn plan(&self) -> Seq<FileTransfer> {
        self.transfers@
    }

    /// Every status recorded so far, in order of the attempts.
    pub closed spec fn recorded(&self) -> Seq<u16> {
        self.outcomes@
    }

    /// How many transfers were finished successfully.
    pub closed spec fn completed(&self) -> int {
        self.next as int
    }

    /// A transfer failed and the walk is over.
    pub closed spec fn aborted(&self) -> bool {
        self.failed
    }

    /// The walk's invariant: every recorded status but a failing last one
    /// was a success, and exactly the first `completed()` transfers
    /// succeeded.
    pub open spec fn wf(&self) -> bool {
        &&& self.completed() <= self.plan().len()
        &&& (if self.aborted() {
            self.recorded().len() == self.completed() + 1 && self.completed() < self.plan().len()
        } else {
            self.recorded().len() == self.completed()
        })
        &&& (forall|i: int|
            0 <= i < self.completed() ==> spec_is_success_status(#[trigger] self.recorded()[i]))
        &&& (self.aborted() ==> !spec_is_success_status(self.recorded().last()))
    }

    /// Starts the walk over a plan.
    pub fn new(transfers: Vec<FileTransfer>) -> (r: Self)
        ensures
            r.wf(),
            r.plan() == transfers@,
            r.recorded() == Seq::<u16>::empty(),
            r.completed() == 0,
            !r.aborted(),
    {
        TreeDownload { transfers, next: 0, failed: false, outcomes: Ghost(Seq::empty()) }
    }

    /// The transfer to attempt now: the next planned one, or nothing once
    /// the plan is done or the walk aborted.
    pub fn current(&self) -> (r: Option<&FileTransfer>)
        requires
            self.wf(),
        ensures
            r is Some <==> (!self.aborted() && self.completed() < self.plan().len()),
            r matches Some(t) ==> *t == self.plan()[self.completed()],
    {
        if !self.failed && self.next < self.transfers.len() {
            Some(&self.transfers[self.next])
        } else {
            None
        }
    }

    /// Records the status the current transfer's fetch came back with: a
    /// success moves the walk one transfer on, anything else aborts it.
    pub fn record_outcome(&mut self, status: u16)
        requires
            old(self).wf(),
            !old(self).aborted(),
            old(self).completed() < old(self).plan().len(),
        ensures
            final(self).wf(),
            final(self).plan() == old(self).plan(),
            final(self).recorded() == old(self).recorded().push(status),
            spec_is_success_status(status) ==> !final(self).aborted() && final(self).completed()
                == old(self).completed() + 1,
            !spec_is_success_status(status) ==> final(self).aborted() && final(self).completed()
                == old(self).completed(),
    {
        proof {
            self.outcomes@ = self.outcomes@.push(status);
        }
        if 200 <= status && status < 300 {
            let n = self.transfers.len();
            assert(self.next < n);
            self.next += 1;
        } else {
            self.failed = true;
        }
    }

    /// The walk visited every planned transfer and none failed.
    pub fn is_complete(&self) -> (r: bool)
        requires
            self.wf(),
        ensures
            r == (!self.aborted() && self.completed() == self.plan().len()),
    {
        !self.failed && self.next == self.transfers.len()
    }

    /// The walk was aborted by a failing transfer.
    pub fn has_failed(&self) -> (r: bool)
        ensures
            r == self.aborted(),
    {
        self.failed
    }
}

/// Abort is immediate and final: on any walk, every status recorded before
/// the last one was a success, so no transfer after the first failing one
/// was ever attempted, and at most one more status was recorded than
/// transfers completed.
pub proof fn lemma_fail_fast(d: TreeDownload)
    requires
        d.wf(),
    ensures
        forall|i: int|
            0 <= i < d.recorded().len() - 1 ==> spec_is_success_status(#[trigger] d.recorded()[i]),
        d.recorded().len() <= d.plan().len() + 1,
        d.aborted() ==> d.recorded().len() == d.completed() + 1,
{
}

/// Where the metadata side-file of a retrieval call lands: `metadata.json`
/// under the call's destination directory.
pub fn metadata_save_path(write_dir: &str) -> (r: String)
    ensures
        r@ == crate::pathmap::spec_join(write_dir@, "metadata.json"@),
{
    proof {
        reveal_strlit("metadata.json");
    }
    crate::pathmap::join_path(write_dir, "metadata.json")
}

/// What a file fetch's status means: a success says the body is the file's
/// contents and the walk goes on; anything else is the `Download` failure
/// carrying the server's error text.
pub fn classify_download_response(status: u16, error_text: &str) -> (r: Result<
    (),
    RetrievalError,
>)
    ensures
        r is Ok <==> spec_is_success_status(status),
        r matches Err(e) ==> e matches RetrievalError::Download(t) && t@ == error_text@,
{
    if 200 <= status && status < 300 {
        Ok(())
    } else {
        Err(RetrievalError::Download(error_text.to_owned()))
    }
}

/// The phases of one retrieval call, in the order they run.
#[derive(PartialEq, Eq, Structural, Debug)]
pub enum RetrievalPhase {
    CompanionPending,
    PrimaryPending,
    Done,
    Failed,
}

/// The retrieval flow: the companion tree, when the plan names one, is
/// always fetched before the primary tree, and the first failing phase
/// ends the flow with nothing further attempted.
pub struct RetrievalFlow {
    plan: RetrievalPlan,
    phase: RetrievalPhase,
}

impl RetrievalFlow {
    /// The plan the flow runs.
    pub closed spec fn spec_plan(&self) -> RetrievalPlan {
        self.plan
    }

    /// The phase the flow stands in.
    pub closed spec fn spec_phase(&self) -> RetrievalPhase {
        self.phase
    }

    /// The flow's invariant: the companion phase only runs when the plan
    /// names a companion root.
    pub open spec fn wf(&self) -> bool {
        self.spec_phase() == RetrievalPhase::CompanionPending ==> self.spec_plan().companion
            is Some
    }

    /// Starts the flow: with the companion phase when the plan names a
    /// companion root, else directly with the primary phase.
    pub fn start(plan: RetrievalPlan) -> (r: Self)
        ensures
            r.wf(),
            r.spec_plan() == plan,
            plan.companion is Some ==> r.spec_phase() == RetrievalPhase::CompanionPending,
            plan.companion is None ==> r.spec_phase() == RetrievalPhase::PrimaryPending,
    {
        let phase = if plan.companion.is_some() {
            RetrievalPhase::CompanionPending
        } else {
            RetrievalPhase::PrimaryPending
        };
        RetrievalFlow { plan, phase }
    }

    /// The remote root to fetch now: the companion root in the companion
    /// phase, the primary root in the primary phase, nothing once the flow
    /// is done or failed.
    pub fn next_root(&self) -> (r: Option<&String>)
        requires
            self.wf(),
        ensures
            self.spec_phase() == RetrievalPhase::CompanionPending ==> (r matches Some(u)
                && Some(*u) == self.spec_plan().companion),
            self.spec_phase() == RetrievalPhase::PrimaryPending ==> (r matches Some(u) && *u
                == self.spec_plan().primary),
            self.spec_phase() == RetrievalPhase::Done ==> r is None,
            self.spec_phase() == RetrievalPhase::Failed ==> r is None,
    {
        match self.phase {
            RetrievalPhase::CompanionPending => match &self.plan.companion {
                Some(u) => Some(u),
                None => None,
            },
            RetrievalPhase::PrimaryPending => Some(&self.plan.primary),
            RetrievalPhase::Done => None,
            RetrievalPhase::Failed => None,
        }
    }

    /// Records how the pending tree went: a failure moves the flow to
    /// `Failed` at once, a finished companion tree hands over to the
    /// primary phase, a finished primary tree ends the flow.
    pub fn record_tree_outcome(&mut self, ok: bool)
        requires
            old(self).wf(),
            old(self).spec_phase() == RetrievalPhase::CompanionPending || old(self).spec_phase()
                == RetrievalPhase::PrimaryPending,
        ensures
            final(self).wf(),
            final(self).spec_plan() == old(self).spec_plan(),
            !ok ==> final(self).spec_phase() == RetrievalPhase::Failed,
            ok && old(self).spec_phase() == RetrievalPhase::CompanionPending ==> final(self).spec_phase()
                == RetrievalPhase::PrimaryPending,
            ok && old(self).spec_phase() == RetrievalPhase::PrimaryPending ==> final(self).spec_phase()
                == RetrievalPhase::Done,
    {
        if !ok {
            self.phase = RetrievalPhase::Failed;
        } else {
            match self.phase {
                RetrievalPhase::CompanionPending => {
                    self.phase = RetrievalPhase::PrimaryPending;
                },
                _ => {
                    self.phase = RetrievalPhase::Done;
                },
            }
        }
    }

    /// The flow finished both phases.
    pub fn is_done(&self) -> (r: bool)
        ensures
            r == (self.spec_phase() == RetrievalPhase::Done),
    {
        self.phase == RetrievalPhase::Done
    }
}

} // verus!
