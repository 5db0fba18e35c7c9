//! Graphics asset containers and text drawing.
//!
//! Assets are owned data handed in by the host: an indexed pixel sheet and
//! a palette. The engine core never loads them itself.
use vstd::prelude::*;

verus! {

/// One graphics asset: indexed pixel data plus its palette.
#[derive(Debug)]
pub struct DataDef {
    pub data: Vec<u8>,
    pub pal: Vec<u32>,
}

impl DataDef {
    /// An empty asset, for headless use.
    pub fn new() -> (r: DataDef)
        ensures
            r.data@.len() == 0,
            r.pal@.len() == 0,
    {
        DataDef { data: Vec::new(), pal: Vec::new() }
    }

    pub fn get_data(&self) -> (r: &Vec<u8>)
        ensures
            r@ == self.data@,
    {
        &self.data
    }

    pub fn get_pal(&self) -> (r: &Vec<u32>)
        ensures
            r@ == self.pal@,
    {
        &self.pal
    }

    /// The palette color of the pixel at `idx` of the sheet, or zero
    /// (transparent) when the sheet or palette does not reach it.
    pub fn sample(&self, idx: usize) -> (r: u32)
        ensures
            r == sample_spec(self.data@, self.pal@, idx as int),
    {
        if idx < self.data.len() {
            let c = self.data[idx];
            if (c as usize) < self.pal.len() {
                self.pal[c as usize]
            } else {
                0
            }
        } else {
            0
        }
    }
}

/// The palette color of pixel `idx` of an indexed sheet; zero when out of
/// range of the sheet or the palette.
pub open spec fn sample_spec(data: Seq<u8>, pal: Seq<u32>, idx: int) -> u32 {
    if 0 <= idx < data.len() {
        if data[idx] < pal.len() {
            pal[data[idx] as int]
        } else {
            0
        }
    } else {
        0
    }
}

} // verus!
