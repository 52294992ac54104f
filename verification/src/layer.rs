//! The heterogeneous layer: the game loop composes an ordered collection of
//! these. A layer is either a scrolling band whose internals this crate owns
//! and verifies, or an external collaborator (the bird, the obstacle system,
//! the game-over overlay) that satisfies the same drawable contract and is
//! addressed by its tag.

use vstd::prelude::*;

use crate::background::Background;
use crate::drawable::Drawable;
use crate::frame::{cmd_tag, DrawCmd, Frame};

verus! {

/// One visual layer in the back-to-front draw order.
#[derive(Clone, Copy, Debug)]
pub enum Layer {
    /// A horizontally repeating band drawn tile by tile.
    Scrolling(Background),
    /// An external collaborator that draws itself when asked.
    External { tag: u64 },
}

impl Layer {
    /// The render resource this layer addresses.
    pub open spec fn tag(&self) -> u64 {
        match self {
            Layer::Scrolling(bg) => bg.tag,
            Layer::External { tag } => *tag,
        }
    }
}

impl Drawable for Layer {
    open spec fn inv(&self) -> bool {
        match self {
            Layer::Scrolling(bg) => bg.wf(),
            Layer::External { .. } => true,
        }
    }

    open spec fn cmds(&self) -> Seq<DrawCmd> {
        match self {
            Layer::Scrolling(bg) => bg.cmds(),
            Layer::External { tag } => seq![DrawCmd::External { tag: *tag }],
        }
    }

    open spec fn stepped(&self, delta_us: int) -> Layer {
        match self {
            Layer::Scrolling(bg) => Layer::Scrolling(bg.stepped(delta_us)),
            Layer::External { .. } => *self,
        }
    }

    fn draw(&self, frame: Frame) -> (out: Frame) {
        match self {
            Layer::Scrolling(bg) => bg.draw(frame),
            Layer::External { tag } => {
                let mut out = frame;
                out.record(DrawCmd::External { tag: *tag });
                proof {
                    assert(out@ =~= frame@ + self.cmds());
                }
                out
            }
        }
    }

    fn update(&mut self, delta_us: u64) {
        match self {
            Layer::Scrolling(bg) => bg.update(delta_us),
            Layer::External { .. } => {}
        }
    }
}

/// Every command a layer records bears that layer's own tag: a frame's
/// command list tells the backend exactly which layer each command is for.
pub proof fn lemma_cmds_tagged(layer: Layer)
    ensures
        forall|j: int| 0 <= j < layer.cmds().len()
            ==> cmd_tag(#[trigger] layer.cmds()[j]) == layer.tag(),
{
}

} // verus!
