use vstd::prelude::*;

use crate::config::Menu;
use crate::navigator::{KeyOutcome, Navigator, key_step};
use crate::scale::{
    Output, contains_id, lemma_max_bounded, lemma_remove_invisible, resolve_scale,
    resolved_scale, scales_positive, without_id,
};

verus! {

/// Where the layer surface is in its life. It only moves forward.
#[derive(Clone, Copy, PartialEq, Eq, Structural, Debug)]
pub enum Phase {
    Unconfigured,
    Configured,
    Closing,
}

/// The order of the phases: a surface never moves to a lower rank.
pub open spec fn phase_rank(p: Phase) -> int {
    match p {
        Phase::Unconfigured => 0,
        Phase::Configured => 1,
        Phase::Closing => 2,
    }
}

/// Bytes per pixel of the 32-bit ARGB buffer format.
pub const BYTES_PER_PIXEL: u32 = 4;

/// The size in pixels of a buffer to present, and its row length in bytes.
#[derive(Clone, Copy, PartialEq, Eq, Structural, Debug)]
pub struct BufferPlan {
    pub width: u32,
    pub height: u32,
    pub stride: u32,
}

/// A buffer of `w`×`h` logical pixels at scale `s` can be described: its
/// row length in bytes fits in `u32`, and its height fits in `i32` for the
/// damage request.
pub open spec fn buffer_fits(w: u32, h: u32, s: u32) -> bool {
    w * s * BYTES_PER_PIXEL <= u32::MAX && h * s <= i32::MAX
}

/// The buffer for logical size `w`×`h` at scale `s`: each dimension is
/// multiplied by the scale.
pub open spec fn buffer_for(w: u32, h: u32, s: u32) -> Option<BufferPlan> {
    if buffer_fits(w, h, s) {
        Some(
            BufferPlan {
                width: (w * s) as u32,
                height: (h * s) as u32,
                stride: (w * s * BYTES_PER_PIXEL) as u32,
            },
        )
    } else {
        None
    }
}

/// Sizes the buffer for logical size `w`×`h` at scale `s`, or `None` where
/// the sizes do not fit the protocol's integers.
pub fn plan_buffer(w: u32, h: u32, s: u32) -> (r: Option<BufferPlan>)
    ensures
        r == buffer_for(w, h, s),
        r is Some <==> buffer_fits(w, h, s),
        r matches Some(p) ==> p.width == w * s && p.height == h * s && p.stride == w * s * 4,
{
    assert((w as int) * (s as int) <= 0xffff_ffff * 0xffff_ffff) by (nonlinear_arith)
        requires
            w <= 0xffff_ffff,
            s <= 0xffff_ffff,
    ;
    assert((h as int) * (s as int) <= 0xffff_ffff * 0xffff_ffff) by (nonlinear_arith)
        requires
            h <= 0xffff_ffff,
            s <= 0xffff_ffff,
    ;
    let ws: u64 = w as u64 * s as u64;
    let hs: u64 = h as u64 * s as u64;
    if ws <= 0x3fff_ffff && hs <= 0x7fff_ffff {
        Some(BufferPlan { width: ws as u32, height: hs as u32, stride: (ws * 4) as u32 })
    } else {
        None
    }
}

/// What the caller must do after an event, in this order: acknowledge a
/// configure serial, release an output object, start a command, present a
/// buffer of the given size (damaged whole and attached at the origin), and
/// end the run.
pub struct Reaction {
    pub ack: Option<u32>,
    pub release: Option<u32>,
    pub spawn: Option<String>,
    pub draw: Option<BufferPlan>,
    pub exit: bool,
}

/// The index of the first output with object id `id`.
pub fn find_output(outs: &Vec<Output>, id: u32) -> (r: Option<usize>)
    ensures
        r matches Some(i) ==> i < outs@.len() && outs@[i as int].id == id && forall|j: int|
            0 <= j < i ==> outs@[j].id != id,
        r is None <==> forall|j: int| 0 <= j < outs@.len() ==> outs@[j].id != id,
{
    let mut i: usize = 0;
    while i < outs.len()
        invariant
            i <= outs@.len(),
            forall|j: int| 0 <= j < i ==> outs@[j].id != id,
        decreases outs@.len() - i,
    {
        if outs[i].id == id {
            return Some(i);
        }
        i = i + 1;
    }
    None
}

/// The index of the first output with registry name `name`.
pub fn find_registered(outs: &Vec<Output>, name: u32) -> (r: Option<usize>)
    ensures
        r matches Some(i) ==> i < outs@.len() && outs@[i as int].reg_name == name && forall|j: int|
            0 <= j < i ==> outs@[j].reg_name != name,
        r is None <==> forall|j: int| 0 <= j < outs@.len() ==> outs@[j].reg_name != name,
{
    let mut i: usize = 0;
    while i < outs.len()
        invariant
            i <= outs@.len(),
            forall|j: int| 0 <= j < i ==> outs@[j].reg_name != name,
        decreases outs@.len() - i,
    {
        if outs[i].reg_name == name {
            return Some(i);
        }
        i = i + 1;
    }
    None
}

/// A reaction that asks for nothing.
pub open spec fn quiet(r: Reaction) -> bool {
    r.ack is None && r.release is None && r.spawn is None && r.draw is None && !r.exit
}

/// The overlay: its phase, the menu levels open, the outputs and the scale.
pub struct Overlay {
    pub phase: Phase,
    pub nav: Navigator,
    pub outputs: Vec<Output>,
    pub visible: Vec<u32>,
    pub surface_version: u32,
    pub surface_scale: u32,
    pub scale: u32,
    pub width: u32,
    pub height: u32,
}

impl Overlay {
    /// The scale the current outputs and visibility call for.
    pub open spec fn target_scale(&self) -> int {
        resolved_scale(self.surface_version, self.surface_scale, self.outputs@, self.visible@)
    }

    pub open spec fn wf(&self) -> bool {
        &&& self.nav.wf()
        &&& scales_positive(self.outputs@)
        &&& self.surface_scale >= 1
        &&& self.scale == self.target_scale()
    }

    /// The buffer a redraw presents now: none before the first configure or
    /// once closing.
    pub open spec fn frame(&self) -> Option<BufferPlan> {
        if self.phase == Phase::Configured {
            buffer_for(self.width, self.height, self.scale)
        } else {
            None
        }
    }

    /// Everything but the scale is as in `before`, and the scale is the one
    /// that `before` calls for.
    pub open spec fn rescaled(before: Overlay, after: Overlay) -> bool {
        &&& after.scale == before.target_scale()
        &&& after.phase == before.phase
        &&& after.nav == before.nav
        &&& after.outputs@ == before.outputs@
        &&& after.visible@ == before.visible@
        &&& after.surface_version == before.surface_version
        &&& after.surface_scale == before.surface_scale
        &&& after.width == before.width
        &&& after.height == before.height
    }

    /// The reaction to a change of the outputs or of visibility: a redraw
    /// exactly when the scale changed and the surface is configured.
    pub open spec fn change_reaction(before_scale: u32, after: Overlay, r: Reaction) -> bool {
        &&& r.ack is None && r.spawn is None && !r.exit
        &&& r.draw == (if after.scale != before_scale {
            after.frame()
        } else {
            None
        })
    }

    /// A new overlay over the menu `root`, of logical size `width`×`height`,
    /// whose surface has protocol version `surface_version`.
    pub fn new(root: Menu, width: u32, height: u32, surface_version: u32) -> (r: Overlay)
        ensures
            r.wf(),
            r.phase == Phase::Unconfigured,
            r.nav.root == root,
            r.nav.depth() == 1,
            r.outputs@.len() == 0,
            r.visible@.len() == 0,
            r.scale == 1,
            r.width == width && r.height == height,
            r.surface_version == surface_version,
    {
        Overlay {
            phase: Phase::Unconfigured,
            nav: Navigator::new(root),
            outputs: Vec::new(),
            visible: Vec::new(),
            surface_version,
            surface_scale: 1,
            scale: 1,
            width,
            height,
        }
    }

    /// The buffer to present now.
    pub fn redraw(&self) -> (r: Option<BufferPlan>)
        ensures
            r == self.frame(),
    {
        if self.phase == Phase::Configured {
            plan_buffer(self.width, self.height, self.scale)
        } else {
            None
        }
    }

    /// Recomputes the scale; returns whether it changed.
    pub fn rescale(&mut self) -> (changed: bool)
        requires
            scales_positive(old(self).outputs@),
            old(self).surface_scale >= 1,
        ensures
            Overlay::rescaled(*old(self), *final(self)),
            changed == (final(self).scale != old(self).scale),
    {
        proof {
            lemma_max_bounded(self.outputs@, self.visible@);
        }
        let s = resolve_scale(self.surface_version, self.surface_scale, &self.outputs, &self.visible);
        let changed = s != self.scale;
        self.scale = s;
        changed
    }

    fn after_change(&mut self) -> (r: Reaction)
        requires
            old(self).nav.wf(),
            scales_positive(old(self).outputs@),
            old(self).surface_scale >= 1,
        ensures
            final(self).wf(),
            Overlay::rescaled(*old(self), *final(self)),
            Overlay::change_reaction(old(self).scale, *final(self), r),
            r.release is None,
    {
        let changed = self.rescale();
        let draw = if changed {
            self.redraw()
        } else {
            None
        };
        Reaction { ack: None, release: None, spawn: None, draw, exit: false }
    }

    /// Everything that the events of outputs and visibility leave alone.
    pub open spec fn same_but_outputs(before: Overlay, after: Overlay) -> bool {
        &&& after.phase == before.phase
        &&& after.nav == before.nav
        &&& after.surface_version == before.surface_version
        &&& after.width == before.width
        &&& after.height == before.height
    }

    /// The compositor configured the surface: acknowledge the serial, and
    /// present a frame. Once closing, nothing happens.
    pub fn configure(&mut self, serial: u32) -> (r: Reaction)
        requires
            old(self).wf(),
        ensures
            final(self).wf(),
            phase_rank(final(self).phase) >= phase_rank(old(self).phase),
            old(self).phase == Phase::Closing ==> quiet(r) && *final(self) == *old(self),
            old(self).phase != Phase::Closing ==> {
                &&& final(self).phase == Phase::Configured
                &&& r.ack == Some(serial)
                &&& r.draw == buffer_for(old(self).width, old(self).height, old(self).scale)
                &&& r.release is None && r.spawn is None && !r.exit
                &&& final(self).nav == old(self).nav && final(self).outputs@ == old(self).outputs@
                    && final(self).visible@ == old(self).visible@ && final(self).scale == old(self).scale && final(self).surface_scale == old(self).surface_scale
                    && final(self).width == old(self).width && final(self).height == old(self).height && final(self).surface_version == old(self).surface_version
            },
    {
        if self.phase == Phase::Closing {
            return Reaction { ack: None, release: None, spawn: None, draw: None, exit: false };
        }
        self.phase = Phase::Configured;
        let draw = self.redraw();
        Reaction { ack: Some(serial), release: None, spawn: None, draw, exit: false }
    }

    /// The compositor closed the surface: the run ends.
    pub fn closed(&mut self) -> (r: Reaction)
        requires
            old(self).wf(),
        ensures
            final(self).wf(),
            final(self).phase == Phase::Closing,
            phase_rank(final(self).phase) >= phase_rank(old(self).phase),
            final(self).surface_scale == old(self).surface_scale,
            r.exit && r.ack is None && r.release is None && r.spawn is None && r.draw is None,
            final(self).nav == old(self).nav,
            final(self).outputs@ == old(self).outputs@,
            final(self).visible@ == old(self).visible@,
            final(self).scale == old(self).scale,
    {
        self.phase = Phase::Closing;
        Reaction { ack: None, release: None, spawn: None, draw: None, exit: true }
    }

    /// A new output was bound, with scale 1 until it reports one. An id
    /// already tracked is ignored.
    pub fn add_output(&mut self, id: u32, reg_name: u32) -> (r: Reaction)
        requires
            old(self).wf(),
        ensures
            final(self).wf(),
            (exists|j: int| 0 <= j < old(self).outputs@.len() && old(self).outputs@[j].id == id)
                ==> quiet(r) && *final(self) == *old(self),
            (forall|j: int| 0 <= j < old(self).outputs@.len() ==> old(self).outputs@[j].id != id)
                ==> {
                &&& final(self).outputs@ == old(self).outputs@.push(
                    Output { id, reg_name, scale: 1 },
                )
                &&& final(self).visible@ == old(self).visible@
                &&& final(self).surface_scale == old(self).surface_scale
                &&& Overlay::same_but_outputs(*old(self), *final(self))
                &&& Overlay::change_reaction(old(self).scale, *final(self), r)
                &&& r.release is None
            },
    {
        if find_output(&self.outputs, id).is_some() {
            return Reaction { ack: None, release: None, spawn: None, draw: None, exit: false };
        }
        let ghost before = self.outputs@;
        self.outputs.push(Output { id, reg_name, scale: 1 });
        assert(scales_positive(self.outputs@)) by {
            assert forall|j: int| 0 <= j < self.outputs@.len() implies #[trigger] self.outputs@[j].scale >= 1 by {
                if j < before.len() {
                    assert(self.outputs@[j] == before[j]);
                }
            }
        }
        self.after_change()
    }

    /// The compositor withdrew the global `reg_name`. If it is a tracked
    /// output, its record and its visibility go, its object is to be
    /// released, and the scale is resolved again. Other names are ignored.
    pub fn remove_global(&mut self, reg_name: u32) -> (r: Reaction)
        requires
            old(self).wf(),
        ensures
            final(self).wf(),
            (forall|j: int|
                0 <= j < old(self).outputs@.len() ==> old(self).outputs@[j].reg_name != reg_name)
                ==> quiet(r) && *final(self) == *old(self),
            forall|i: int|
                0 <= i < old(self).outputs@.len() && old(self).outputs@[i].reg_name == reg_name
                    && (forall|j: int| 0 <= j < i ==> old(self).outputs@[j].reg_name != reg_name)
                    ==> {
                    &&& final(self).outputs@ == old(self).outputs@.remove(i)
                    &&& forall|y: u32|
                        final(self).visible@.contains(y) <==> (old(self).visible@.contains(y)
                            && y != old(self).outputs@[i].id)
                    &&& final(self).surface_scale == old(self).surface_scale
                    &&& Overlay::same_but_outputs(*old(self), *final(self))
                    &&& Overlay::change_reaction(old(self).scale, *final(self), r)
                    &&& r.release == Some(old(self).outputs@[i].id)
                    &&& !old(self).visible@.contains(old(self).outputs@[i].id) ==> final(self).scale == old(self).scale && r.draw is None
                },
    {
        match find_registered(&self.outputs, reg_name) {
            None => Reaction { ack: None, release: None, spawn: None, draw: None, exit: false },
            Some(i) => {
                let ghost before = self.outputs@;
                let output = self.outputs.remove(i);
                assert(scales_positive(self.outputs@)) by {
                    assert forall|j: int| 0 <= j < self.outputs@.len() implies #[trigger] self.outputs@[j].scale >= 1 by {
                        if j < i {
                            assert(self.outputs@[j] == before[j]);
                        } else {
                            assert(self.outputs@[j] == before[j + 1]);
                        }
                    }
                }
                if contains_id(&self.visible, output.id) {
                    self.visible = without_id(&self.visible, output.id);
                } else {
                    proof {
                        lemma_remove_invisible(before, self.visible@, i as int);
                    }
                }
                let mut r = self.after_change();
                r.release = Some(output.id);
                r
            },
        }
    }

    /// Output `id` reports scale `scale`. Unknown outputs and scales below
    /// 1 are ignored.
    pub fn output_scale(&mut self, id: u32, scale: i32) -> (r: Reaction)
        requires
            old(self).wf(),
        ensures
            final(self).wf(),
            (scale < 1 || forall|j: int|
                0 <= j < old(self).outputs@.len() ==> old(self).outputs@[j].id != id) ==> quiet(r)
                && *final(self) == *old(self),
            forall|i: int|
                0 <= i < old(self).outputs@.len() && old(self).outputs@[i].id == id && (forall|j: int|
                    0 <= j < i ==> old(self).outputs@[j].id != id) && scale >= 1 ==> {
                    &&& final(self).outputs@ == old(self).outputs@.update(
                        i,
                        Output { scale: scale as u32, ..old(self).outputs@[i] },
                    )
                    &&& final(self).visible@ == old(self).visible@
                    &&& final(self).surface_scale == old(self).surface_scale
                    &&& Overlay::same_but_outputs(*old(self), *final(self))
                    &&& Overlay::change_reaction(old(self).scale, *final(self), r)
                    &&& r.release is None
                },
    {
        if scale < 1 {
            return Reaction { ack: None, release: None, spawn: None, draw: None, exit: false };
        }
        match find_output(&self.outputs, id) {
            None => Reaction { ack: None, release: None, spawn: None, draw: None, exit: false },
            Some(i) => {
                let ghost before = self.outputs@;
                let mut o = self.outputs[i];
                o.scale = scale as u32;
                self.outputs.set(i, o);
                assert(scales_positive(self.outputs@)) by {
                    assert forall|j: int| 0 <= j < self.outputs@.len() implies #[trigger] self.outputs@[j].scale >= 1 by {
                        if j != i {
                            assert(self.outputs@[j] == before[j]);
                        }
                    }
                }
                self.after_change()
            },
        }
    }

    /// The surface became visible on output `id`.
    pub fn enter(&mut self, id: u32) -> (r: Reaction)
        requires
            old(self).wf(),
        ensures
            final(self).wf(),
            forall|y: u32|
                final(self).visible@.contains(y) <==> (old(self).visible@.contains(y) || y == id),
            old(self).visible@.contains(id) ==> final(self).visible@ == old(self).visible@,
            final(self).outputs@ == old(self).outputs@,
            final(self).surface_scale == old(self).surface_scale,
            Overlay::same_but_outputs(*old(self), *final(self)),
            Overlay::change_reaction(old(self).scale, *final(self), r),
            r.release is None,
    {
        if !contains_id(&self.visible, id) {
            let ghost before = self.visible@;
            self.visible.push(id);
            proof {
                assert forall|y: u32|
                    self.visible@.contains(y) <==> (before.contains(y) || y == id) by {
                    if before.contains(y) {
                        let k = choose|k: int| 0 <= k < before.len() && before[k] == y;
                        assert(self.visible@[k] == y);
                    }
                    if y == id {
                        assert(self.visible@[before.len() as int] == y);
                    }
                    if self.visible@.contains(y) {
                        let k = choose|k: int| 0 <= k < self.visible@.len() && self.visible@[k] == y;
                        if k < before.len() {
                            assert(before[k] == y);
                        }
                    }
                }
            }
        }
        self.after_change()
    }

    /// The surface stopped being visible on output `id`.
    pub fn leave(&mut self, id: u32) -> (r: Reaction)
        requires
            old(self).wf(),
        ensures
            final(self).wf(),
            forall|y: u32|
                final(self).visible@.contains(y) <==> (old(self).visible@.contains(y) && y != id),
            final(self).outputs@ == old(self).outputs@,
            final(self).surface_scale == old(self).surface_scale,
            Overlay::same_but_outputs(*old(self), *final(self)),
            Overlay::change_reaction(old(self).scale, *final(self), r),
            r.release is None,
    {
        self.visible = without_id(&self.visible, id);
        self.after_change()
    }

    /// The surface reports the scale it prefers. Scales below 1 are ignored.
    pub fn preferred_scale(&mut self, scale: i32) -> (r: Reaction)
        requires
            old(self).wf(),
        ensures
            final(self).wf(),
            scale < 1 ==> quiet(r) && *final(self) == *old(self),
            scale >= 1 ==> {
                &&& final(self).surface_scale == scale as u32
                &&& final(self).outputs@ == old(self).outputs@
                &&& final(self).visible@ == old(self).visible@
                &&& Overlay::same_but_outputs(*old(self), *final(self))
                &&& Overlay::change_reaction(old(self).scale, *final(self), r)
                &&& r.release is None
            },
    {
        if scale < 1 {
            return Reaction { ack: None, release: None, spawn: None, draw: None, exit: false };
        }
        self.surface_scale = scale as u32;
        self.after_change()
    }

    /// A key was pressed or released with the chord (`keysym`, `mods`).
    /// Running a command or ending the run moves the surface to closing;
    /// the command is started before the run ends. Once closing, keys are
    /// ignored.
    pub fn key(&mut self, press: bool, keysym: u32, mods: u32) -> (r: Reaction)
        requires
            old(self).wf(),
        ensures
            final(self).wf(),
            phase_rank(final(self).phase) >= phase_rank(old(self).phase),
            old(self).phase == Phase::Closing ==> quiet(r) && *final(self) == *old(self),
            old(self).phase != Phase::Closing ==> exists|o: KeyOutcome|
                {
                    &&& key_step(old(self).nav, final(self).nav, press, keysym, mods, o)
                    &&& Overlay::key_reaction(*old(self), *final(self), o, r)
                },
            final(self).outputs@ == old(self).outputs@,
            final(self).visible@ == old(self).visible@,
            final(self).scale == old(self).scale,
    {
        if self.phase == Phase::Closing {
            return Reaction { ack: None, release: None, spawn: None, draw: None, exit: false };
        }
        let ghost before = *self;
        let o = self.nav.key_event(press, keysym, mods);
        let ghost og = o;
        let r = match o {
            KeyOutcome::Ignored => Reaction {
                ack: None,
                release: None,
                spawn: None,
                draw: None,
                exit: false,
            },
            KeyOutcome::Redraw => {
                let draw = self.redraw();
                Reaction { ack: None, release: None, spawn: None, draw, exit: false }
            },
            KeyOutcome::Spawn(cmd) => {
                self.phase = Phase::Closing;
                Reaction { ack: None, release: None, spawn: Some(cmd), draw: None, exit: true }
            },
            KeyOutcome::Exit => {
                self.phase = Phase::Closing;
                Reaction { ack: None, release: None, spawn: None, draw: None, exit: true }
            },
        };
        assert(key_step(before.nav, self.nav, press, keysym, mods, og));
        assert(Overlay::key_reaction(before, *self, og, r));
        r
    }

    /// The reaction to key outcome `o`: a redraw, nothing, or the end of the
    /// run after starting a command.
    pub open spec fn key_reaction(before: Overlay, after: Overlay, o: KeyOutcome, r: Reaction) -> bool {
        &&& r.ack is None && r.release is None
        &&& match o {
            KeyOutcome::Ignored => quiet(r) && after.phase == before.phase,
            KeyOutcome::Redraw => r.spawn is None && !r.exit && after.phase == before.phase
                && r.draw == after.frame(),
            KeyOutcome::Spawn(cmd) => r.spawn == Some(cmd) && r.exit && r.draw is None
                && after.phase == Phase::Closing,
            KeyOutcome::Exit => r.spawn is None && r.exit && r.draw is None && after.phase
                == Phase::Closing,
        }
    }
}

/// Resolving the scale twice with no event in between gives the same scale
/// both times, and the second time reports no change.
pub proof fn lemma_rescale_idempotent(a: Overlay, b: Overlay, c: Overlay)
    requires
        Overlay::rescaled(a, b),
        Overlay::rescaled(b, c),
    ensures
        c.scale == b.scale,
        c.target_scale() == b.target_scale(),
{
}

} // verus!
