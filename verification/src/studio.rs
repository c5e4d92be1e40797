//! Studio Mode: a preview scene prepared next to the scene on program.
//!
//! Studio Mode deliberately does not touch the scene collection when a user
//! selects a preview scene. Only [`StudioMode::take`] promotes the preview
//! scene to program and reports the endpoints of the transition to render.
use vstd::prelude::*;

use uuid::Uuid;

use crate::ids::holds_id;

verus! {

/// The two roles in mathematical form.
pub struct StudioView {
    pub enabled: bool,
    pub preview: Option<Uuid>,
    pub program: Option<Uuid>,
}

/// The endpoints of a take: the scene that leaves program (if any) and the
/// scene that goes live.
#[derive(Debug, Clone, Copy, PartialEq, Eq)]
pub struct ProgramCut {
    pub from: Option<Uuid>,
    pub to: Uuid,
}

/// Separates the scene being prepared from the scene currently on program.
#[derive(Debug, Clone, Copy, PartialEq, Eq)]
pub struct StudioMode {
    enabled: bool,
    preview: Option<Uuid>,
    program: Option<Uuid>,
}

impl View for StudioMode {
    type V = StudioView;

    closed spec fn view(&self) -> StudioView {
        StudioView { enabled: self.enabled, preview: self.preview, program: self.program }
    }
}

/// Whether the preview can be taken live: enabled, a preview selected and
/// different from program.
pub open spec fn can_take_spec(v: StudioView) -> bool {
    v.enabled && v.preview.is_some() && v.preview != v.program
}

fn same_opt(a: &Option<Uuid>, b: &Option<Uuid>) -> (r: bool)
    ensures
        r == (*a == *b),
{
    match b {
        Some(id) => holds_id(a, id),
        None => a.is_none(),
    }
}

impl Default for StudioMode {
    fn default() -> (r: Self)
        ensures
            r@ == (StudioView { enabled: false, preview: None, program: None }),
    {
        StudioMode::new()
    }
}

impl StudioMode {
    /// A disabled Studio Mode state.
    pub fn new() -> (r: Self)
        ensures
            r@ == (StudioView { enabled: false, preview: None, program: None }),
    {
        StudioMode { enabled: false, preview: None, program: None }
    }

    /// Whether the separate preview/program workflow is enabled.
    pub fn enabled(&self) -> (r: bool)
        ensures
            r == self@.enabled,
    {
        self.enabled
    }

    /// Current preview scene, if one is selected.
    pub fn preview(&self) -> (r: Option<Uuid>)
        ensures
            r == self@.preview,
    {
        self.preview
    }

    /// Current program scene, if one is live.
    pub fn program(&self) -> (r: Option<Uuid>)
        ensures
            r == self@.program,
    {
        self.program
    }

    /// Enable Studio Mode using the current live scene as both preview and
    /// program (when it was off). Disabling clears both roles so the next
    /// enable starts from the then-current live scene.
    pub fn set_enabled(&mut self, enabled: bool, current_scene: Option<Uuid>)
        ensures
            final(self)@ == if enabled && !old(self)@.enabled {
                StudioView { enabled: true, preview: current_scene, program: current_scene }
            } else if !enabled {
                StudioView { enabled: false, preview: None, program: None }
            } else {
                old(self)@
            },
    {
        if enabled && !self.enabled {
            self.program = current_scene;
            self.preview = current_scene;
        } else if !enabled {
            self.preview = None;
            self.program = None;
        }
        self.enabled = enabled;
    }

    /// Select a scene for preview without changing program output; ignored
    /// while disabled.
    pub fn set_preview(&mut self, scene: Option<Uuid>)
        ensures
            final(self)@ == if old(self)@.enabled { StudioView { preview: scene, ..old(self)@ } } else { old(self)@ },
    {
        if self.enabled {
            self.preview = scene;
        }
    }

    /// Remove a scene from the roles when it no longer exists: a removed
    /// preview falls back to program (unless that is the same scene), a
    /// removed program is cleared.
    pub fn remove_scene(&mut self, scene: Uuid)
        ensures
            ({
                let o = old(self)@;
                let preview = if o.preview == Some(scene) {
                    if o.program == Some(scene) { None } else { o.program }
                } else {
                    o.preview
                };
                let program = if o.program == Some(scene) { None } else { o.program };
                final(self)@ == StudioView { enabled: o.enabled, preview, program }
            }),
    {
        if holds_id(&self.preview, &scene) {
            self.preview = if holds_id(&self.program, &scene) { None } else { self.program };
        }
        if holds_id(&self.program, &scene) {
            self.program = None;
        }
    }

    /// Whether the selected preview scene can be taken live.
    pub fn can_take(&self) -> (r: bool)
        ensures
            r == can_take_spec(self@),
    {
        self.enabled && self.preview.is_some() && !same_opt(&self.preview, &self.program)
    }

    /// Promote preview to program and return the transition's endpoints;
    /// `None` (and no change) when the preview cannot be taken.
    pub fn take(&mut self) -> (r: Option<ProgramCut>)
        ensures
            can_take_spec(old(self)@) ==> r == Some(ProgramCut { from: old(self)@.program, to: old(self)@.preview.unwrap() })
                && final(self)@ == (StudioView { program: old(self)@.preview, ..old(self)@ }),
            !can_take_spec(old(self)@) ==> r.is_none() && final(self)@ == old(self)@,
    {
        if !self.can_take() {
            return None;
        }
        let from = self.program;
        let to = match self.preview {
            Some(to) => to,
            None => return None,
        };
        self.program = Some(to);
        Some(ProgramCut { from, to })
    }
}

/// A take cannot be repeated: right after one, nothing more can be taken
/// until a different preview is selected; and selecting a preview never
/// changes program.
pub proof fn lemma_take_is_idempotent(v: StudioView, scene: Option<Uuid>)
    ensures
        can_take_spec(v) ==> !can_take_spec(StudioView { program: v.preview, ..v }),
        v.enabled ==> (StudioView { preview: scene, ..v }).program == v.program,
{
}

} // verus!
