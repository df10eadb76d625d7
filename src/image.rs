//! The framebuffer: a `width` by `height` grid of pixels stored row by row,
//! written by the one consumer of a render and handed to an encoder after.
use vstd::prelude::*;

verus! {

/// Position of pixel `(x, y)` in the row-major pixel buffer.
pub open spec fn pixel_index(x: nat, y: nat, width: nat) -> nat {
    x + y * width
}

/// A framebuffer of `P` values (a color type chosen by the renderer) together
/// with the number of samples each pixel is averaged over.
pub struct Image<P> {
    width: u32,
    height: u32,
    samples: u32,
    data: Vec<P>,
}

impl<P> View for Image<P> {
    type V = Seq<P>;

    /// The pixels, row by row.
    closed spec fn view(&self) -> Seq<P> {
        self.data@
    }
}

impl<P: Copy> Image<P> {
    pub closed spec fn spec_width(&self) -> u32 {
        self.width
    }

    pub closed spec fn spec_height(&self) -> u32 {
        self.height
    }

    pub closed spec fn spec_samples(&self) -> u32 {
        self.samples
    }

    /// The buffer holds exactly one value per pixel, and its positions fit in
    /// a `usize`.
    pub closed spec fn wf(&self) -> bool {
        &&& self.data@.len() == self.width as nat * self.height as nat
        &&& self.width as nat * self.height as nat <= usize::MAX
    }

    /// Width in pixels.
    #[verifier::when_used_as_spec(spec_width)]
    pub fn width(&self) -> (r: u32)
        ensures
            r == self.spec_width(),
    {
        self.width
    }

    /// Height in pixels.
    #[verifier::when_used_as_spec(spec_height)]
    pub fn height(&self) -> (r: u32)
        ensures
            r == self.spec_height(),
    {
        self.height
    }

    /// Samples averaged into each pixel.
    #[verifier::when_used_as_spec(spec_samples)]
    pub fn samples(&self) -> (r: u32)
        ensures
            r == self.spec_samples(),
    {
        self.samples
    }

    /// Whether `(x, y)` lies inside the image.
    pub open spec fn in_bounds(&self, x: nat, y: nat) -> bool {
        x < self.width() && y < self.height()
    }

    /// The value of pixel `(x, y)`.
    pub open spec fn pixel_at(&self, x: nat, y: nat) -> P {
        self@[pixel_index(x, y, self.width() as nat) as int]
    }

    /// A `width` by `height` image, every pixel set to `background`.
    pub fn new(width: u32, height: u32, samples: u32, background: P) -> (r: Image<P>)
        requires
            width as nat * height as nat <= usize::MAX,
        ensures
            r.wf(),
            r.width() == width,
            r.height() == height,
            r.samples() == samples,
            r@.len() == width as nat * height as nat,
            forall|i: int| 0 <= i < r@.len() ==> r@[i] == background,
    {
        let n: usize = (width as usize) * (height as usize);
        let mut data: Vec<P> = Vec::with_capacity(n);
        let mut i: usize = 0;
        while i < n
            invariant
                i <= n,
                data@.len() == i,
                forall|k: int| 0 <= k < i ==> data@[k] == background,
            decreases n - i,
        {
            data.push(background);
            i = i + 1;
        }
        Image { width, height, samples, data }
    }

    /// Whether `(x, y)` lies inside the image.
    pub fn contains(&self, x: u32, y: u32) -> (r: bool)
        ensures
            r == self.in_bounds(x as nat, y as nat),
    {
        x < self.width && y < self.height
    }

    proof fn lemma_index_in_bounds(&self, x: nat, y: nat)
        requires
            self.wf(),
            self.in_bounds(x, y),
        ensures
            pixel_index(x, y, self.width as nat) < self@.len(),
    {
        let w = self.width as nat;
        let h = self.height as nat;
        assert(x + y * w < w * h) by (nonlinear_arith)
            requires
                x < w,
                y < h,
        ;
    }

    /// Overwrites pixel `(x, y)`; every other pixel keeps its value.
    pub fn set_pixel_color(&mut self, x: u32, y: u32, color: P)
        requires
            old(self).wf(),
            old(self).in_bounds(x as nat, y as nat),
        ensures
            final(self).wf(),
            final(self).width() == old(self).width(),
            final(self).height() == old(self).height(),
            final(self).samples() == old(self).samples(),
            final(self)@ == old(self)@.update(
                pixel_index(x as nat, y as nat, old(self).width() as nat) as int,
                color,
            ),
    {
        proof {
            self.lemma_index_in_bounds(x as nat, y as nat);
        }
        let i: usize = x as usize + (y as usize) * (self.width as usize);
        self.data.set(i, color);
    }

    /// The value of pixel `(x, y)`.
    pub fn pixel(&self, x: u32, y: u32) -> (r: P)
        requires
            self.wf(),
            self.in_bounds(x as nat, y as nat),
        ensures
            r == self.pixel_at(x as nat, y as nat),
    {
        proof {
            self.lemma_index_in_bounds(x as nat, y as nat);
        }
        let i: usize = x as usize + (y as usize) * (self.width as usize);
        self.data[i]
    }

    /// All pixels, row by row.
    pub fn data(&self) -> (r: &Vec<P>)
        ensures
            r@ == self@,
    {
        &self.data
    }
}

} // verus!
