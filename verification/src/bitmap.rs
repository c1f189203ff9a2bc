use vstd::prelude::*;

verus! {

/// A picture resource known by its numeric id and its size in pixels.
pub trait Bitmap {
    fn width(&self) -> i32;
    fn height(&self) -> i32;
    fn id(&self) -> u8;
}

/// A picture loaded by the page, identified by a small resource number.
#[derive(Clone, Copy, Debug, PartialEq, Eq, Structural)]
pub struct HtmlImage {
    pub width: i32,
    pub height: i32,
    pub id: u8,
}

impl HtmlImage {
    pub fn new(id: u8, width: i32, height: i32) -> (img: HtmlImage)
        ensures
            img == (HtmlImage { width, height, id }),
    {
        HtmlImage { width, height, id }
    }
}

impl Bitmap for HtmlImage {
    fn width(&self) -> (w: i32)
        ensures
            w == self.width,
    {
        self.width
    }

    fn height(&self) -> (h: i32)
        ensures
            h == self.height,
    {
        self.height
    }

    fn id(&self) -> (i: u8)
        ensures
            i == self.id,
    {
        self.id
    }
}

/// A sprite sheet: a resource id and the size of the whole picture.
#[derive(Clone, Copy, Debug, PartialEq, Eq, Structural)]
pub struct BitmapRes {
    pub id: i32,
    pub width: i32,
    pub height: i32,
}

impl BitmapRes {
    pub fn new(id: i32, width: i32, height: i32) -> (b: BitmapRes)
        ensures
            b == (BitmapRes { id, width, height }),
    {
        BitmapRes { id, width, height }
    }

    pub fn width(&self) -> (w: i32)
        ensures
            w == self.width,
    {
        self.width
    }

    pub fn height(&self) -> (h: i32)
        ensures
            h == self.height,
    {
        self.height
    }

    pub fn id(&self) -> (i: i32)
        ensures
            i == self.id,
    {
        self.id
    }
}

} // verus!
