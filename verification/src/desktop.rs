//! Desktop shell state: the unsaved-changes quit guard and the cancellable
//! export handle.
use vstd::prelude::*;

verus! {

/// What a quit confirmation is for: closing the window or quitting the app.
#[derive(Clone, Copy, Debug, PartialEq, Eq)]
pub enum QuitTarget {
    Close,
    Quit,
}

/// The payload of a quit confirmation request.
#[derive(Clone, Copy, Debug, PartialEq, Eq)]
pub struct ConfirmQuitPayload {
    pub target: QuitTarget,
}

/// Whether the project has unsaved edits, and which quit confirmation, if
/// any, is outstanding.
pub struct AppState {
    dirty: bool,
    pending_quit: Option<QuitTarget>,
}

/// The content of the quit guard.
pub struct AppStateView {
    pub dirty: bool,
    pub pending_quit: Option<QuitTarget>,
}

impl View for AppState {
    type V = AppStateView;

    closed spec fn view(&self) -> AppStateView {
        AppStateView { dirty: self.dirty, pending_quit: self.pending_quit }
    }
}

/// What a quit request leads to.
#[derive(Clone, Copy, Debug, PartialEq, Eq)]
pub enum QuitDecision {
    /// Nothing is unsaved: exit now.
    ExitNow,
    /// Ask the user to confirm, with this payload.
    Ask(ConfirmQuitPayload),
    /// A confirmation is already outstanding: do nothing more.
    AlreadyAsking,
}

/// A claim of the confirmation for `target`: whether it succeeds, and the
/// state after it.
pub open spec fn claim(s: AppStateView, target: QuitTarget) -> (bool, AppStateView) {
    if s.pending_quit is None {
        (true, AppStateView { dirty: s.dirty, pending_quit: Some(target) })
    } else {
        (false, s)
    }
}

/// A confirmation: the outstanding target, and the state after it.
pub open spec fn confirm(s: AppStateView) -> (Option<QuitTarget>, AppStateView) {
    (
        s.pending_quit,
        AppStateView { dirty: s.dirty && s.pending_quit is None, pending_quit: None },
    )
}

/// A cancellation: the state after it.
pub open spec fn cancel(s: AppStateView) -> AppStateView {
    AppStateView { dirty: s.dirty, pending_quit: None }
}

impl AppState {
    /// A clean state with no outstanding confirmation.
    pub fn new() -> (s: Self)
        ensures
            !s@.dirty,
            s@.pending_quit is None,
    {
        AppState { dirty: false, pending_quit: None }
    }

    /// Whether there are unsaved edits.
    pub fn is_dirty(&self) -> (r: bool)
        ensures
            r == self@.dirty,
    {
        self.dirty
    }

    /// Records whether there are unsaved edits.
    pub fn set_dirty(&mut self, dirty: bool)
        ensures
            final(self)@.dirty == dirty,
            final(self)@.pending_quit == old(self)@.pending_quit,
    {
        self.dirty = dirty;
    }

    /// Claims the single outstanding confirmation for `target`; fails,
    /// changing nothing, when one is already outstanding.
    pub fn claim_quit_guard(&mut self, target: QuitTarget) -> (claimed: bool)
        ensures
            (claimed, final(self)@) == claim(old(self)@, target),
    {
        if self.pending_quit.is_some() {
            return false;
        }
        self.pending_quit = Some(target);
        true
    }

    /// Intercepts a close or exit request: with unsaved edits it is held
    /// back (`true`), and a confirmation payload is produced the first time;
    /// otherwise it proceeds (`false`) and nothing changes.
    pub fn guard_dirty(&mut self, target: QuitTarget) -> (r: (bool, Option<ConfirmQuitPayload>))
        ensures
            r.0 == old(self)@.dirty,
            final(self)@.dirty == old(self)@.dirty,
            r.1 == if old(self)@.dirty && old(self)@.pending_quit is None {
                Some(ConfirmQuitPayload { target })
            } else {
                None::<ConfirmQuitPayload>
            },
            final(self)@.pending_quit == if old(self)@.dirty && old(self)@.pending_quit is None {
                Some(target)
            } else {
                old(self)@.pending_quit
            },
    {
        if !self.dirty {
            return (false, None);
        }
        if self.claim_quit_guard(target) {
            (true, Some(ConfirmQuitPayload { target }))
        } else {
            (true, None)
        }
    }

    /// Handles the quit command.
    pub fn request_quit(&mut self) -> (d: QuitDecision)
        ensures
            final(self)@.dirty == old(self)@.dirty,
            !old(self)@.dirty ==> d == QuitDecision::ExitNow && final(self)@.pending_quit == old(
                self,
            )@.pending_quit,
            old(self)@.dirty && old(self)@.pending_quit is None ==> d == QuitDecision::Ask(
                ConfirmQuitPayload { target: QuitTarget::Quit },
            ) && final(self)@.pending_quit == Some(QuitTarget::Quit),
            old(self)@.dirty && old(self)@.pending_quit is Some ==> d == QuitDecision::AlreadyAsking
                && final(self)@.pending_quit == old(self)@.pending_quit,
    {
        if !self.dirty {
            return QuitDecision::ExitNow;
        }
        if self.claim_quit_guard(QuitTarget::Quit) {
            QuitDecision::Ask(ConfirmQuitPayload { target: QuitTarget::Quit })
        } else {
            QuitDecision::AlreadyAsking
        }
    }

    /// The user confirmed: the outstanding target is taken and the edits
    /// are treated as discarded. With nothing outstanding nothing changes.
    pub fn confirm_quit(&mut self) -> (target: Option<QuitTarget>)
        ensures
            (target, final(self)@) == confirm(old(self)@),
    {
        let target = self.pending_quit.take();
        if target.is_some() {
            self.dirty = false;
        }
        target
    }

    /// The user cancelled: no confirmation is outstanding any more.
    pub fn cancel_quit(&mut self)
        ensures
            final(self)@ == cancel(old(self)@),
    {
        self.pending_quit = None;
    }
}

/// At most one confirmation is outstanding: after a successful claim a
/// second claim fails, and the confirmation then hands back the first
/// claim's target and leaves the edits discarded.
pub proof fn lemma_single_confirmation(s: AppStateView, t1: QuitTarget, t2: QuitTarget)
    requires
        claim(s, t1).0,
    ensures
        !claim(claim(s, t1).1, t2).0,
        claim(claim(s, t1).1, t2).1 == claim(s, t1).1,
        confirm(claim(s, t1).1).0 == Some(t1),
        !confirm(claim(s, t1).1).1.dirty,
{
}

/// Cancelling a confirmation touches only the pending confirmation: unsaved
/// edits stay unsaved, so a dirty state stays guarded and the next quit
/// request asks again.
pub proof fn lemma_cancel_keeps_edits(s: AppStateView, t: QuitTarget)
    ensures
        cancel(s).dirty == s.dirty,
        cancel(s).pending_quit is None,
        s.dirty ==> claim(cancel(s), t) == (true, AppStateView { dirty: true, pending_quit: Some(t) }),
{
}

/// After a cancellation or a confirmation a new claim succeeds.
pub proof fn lemma_guard_rearms(s: AppStateView, t: QuitTarget)
    ensures
        claim(cancel(s), t).0,
        claim(confirm(s).1, t).0,
{
}

/// The running export: whether a cancel was requested and the sidecar
/// process (of any handle type `C`) being tracked.
pub struct ExportState<C> {
    child: Option<C>,
    cancelled: bool,
}

/// The content of an export handle.
pub struct ExportStateView<C> {
    pub child: Option<C>,
    pub cancelled: bool,
}

impl<C> View for ExportState<C> {
    type V = ExportStateView<C>;

    closed spec fn view(&self) -> ExportStateView<C> {
        ExportStateView { child: self.child, cancelled: self.cancelled }
    }
}

impl<C> ExportState<C> {
    /// No export running, nothing cancelled.
    pub fn new() -> (s: Self)
        ensures
            s@.child is None,
            !s@.cancelled,
    {
        ExportState { child: None, cancelled: false }
    }

    /// Starts a new export: an earlier cancel no longer applies.
    pub fn begin(&mut self)
        ensures
            !final(self)@.cancelled,
            final(self)@.child == old(self)@.child,
    {
        self.cancelled = false;
    }

    /// Whether a cancel was requested since the export began.
    pub fn is_cancelled(&self) -> (r: bool)
        ensures
            r == self@.cancelled,
    {
        self.cancelled
    }

    /// Tracks the running sidecar process.
    pub fn track(&mut self, child: C)
        ensures
            final(self)@.child == Some(child),
            final(self)@.cancelled == old(self)@.cancelled,
    {
        self.child = Some(child);
    }

    /// Forgets the sidecar process once it has exited.
    pub fn untrack(&mut self)
        ensures
            final(self)@.child is None,
            final(self)@.cancelled == old(self)@.cancelled,
    {
        self.child = None;
    }

    /// Requests a cancel and hands back the tracked process, to be killed.
    pub fn cancel(&mut self) -> (child: Option<C>)
        ensures
            final(self)@.cancelled,
            final(self)@.child is None,
            child == old(self)@.child,
    {
        self.cancelled = true;
        self.child.take()
    }
}

} // verus!
