//! The in-progress frame, modelled as the ordered list of draw commands
//! recorded into it. The frame is a linear resource: each layer's `draw`
//! takes it by value and hands it back with its own commands appended, so a
//! tick composes exactly one frame and never branches it.

use vstd::prelude::*;

verus! {

/// One draw command recorded into a frame. The `tag` names the owning
/// layer's render resource (texture or collaborator), chosen at setup;
/// positions are nano-units in the logical [-1, 1] space.
#[derive(Clone, Copy, PartialEq, Eq, Structural, Debug)]
pub enum DrawCmd {
    /// Reposition the tagged layer's texture to `(x, y)` and draw one tile.
    Tile { tag: u64, x: i64, y: i64 },
    /// Let the tagged external collaborator draw itself.
    External { tag: u64 },
}

/// The layer a command belongs to.
pub open spec fn cmd_tag(c: DrawCmd) -> u64 {
    match c {
        DrawCmd::Tile { tag, .. } => tag,
        DrawCmd::External { tag } => tag,
    }
}

/// The layer a command belongs to: the executable counterpart of `cmd_tag`,
/// for backends routing each command to its render resource.
pub fn cmd_tag_of(c: &DrawCmd) -> (t: u64)
    ensures
        t == cmd_tag(*c),
{
    match c {
        DrawCmd::Tile { tag, .. } => *tag,
        DrawCmd::External { tag } => *tag,
    }
}

/// A frame being composed: the sequence of draw commands issued so far,
/// in order. A presentation backend replays them onto a real surface.
pub struct Frame {
    pub cmds: Vec<DrawCmd>,
}

impl View for Frame {
    type V = Seq<DrawCmd>;

    open spec fn view(&self) -> Seq<DrawCmd> {
        self.cmds@
    }
}

impl Frame {
    /// A freshly acquired frame with nothing drawn into it yet.
    pub fn new() -> (f: Frame)
        ensures
            f@ == Seq::<DrawCmd>::empty(),
    {
        Frame { cmds: Vec::new() }
    }

    /// Record one command at the end of the frame.
    pub fn record(&mut self, c: DrawCmd)
        ensures
            final(self)@ == old(self)@.push(c),
    {
        self.cmds.push(c);
    }
}

} // verus!
