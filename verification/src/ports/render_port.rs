use crate::error::Result;
use vstd::prelude::*;

verus! {

/// Something that draws the editor.
pub trait Renderer {
    fn render(&mut self) -> Result<()>;

    fn resize(&mut self, width: u32, height: u32);

    fn update_geometry(&mut self) -> Result<()>;

    fn request_redraw(&self);
}

} // verus!
