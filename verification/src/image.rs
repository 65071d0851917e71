use vstd::prelude::*;
use vstd::pervasive::VecAdditionalExecFns;

verus! {

/// Host-side RGB image buffer: `width * height` pixels, three channel bytes
/// per pixel, row-major, with the red channel of pixel `(x, y)` stored at
/// flat offset `(y * width + x) * 3`. The per-frame device read-back fills
/// it wholesale; the display path reads it out as BGRA bytes.
pub struct RGBImage {
    width: usize,
    height: usize,
    pixel_data: Vec<u8>,
}

impl RGBImage {
    /// Width in pixels.
    pub closed spec fn spec_width(self) -> int {
        self.width as int
    }

    /// Height in pixels.
    pub closed spec fn spec_height(self) -> int {
        self.height as int
    }

    /// The flat channel bytes, of length `width * height * 3`.
    pub closed spec fn pixels(self) -> Seq<u8> {
        self.pixel_data@
    }

    /// Flat offset of the first (red) channel byte of pixel `(x, y)`.
    pub open spec fn offset(self, x: int, y: int) -> int {
        (y * self.spec_width() + x) * 3
    }

    pub open spec fn wf(self) -> bool {
        self.pixels().len() == self.spec_width() * self.spec_height() * 3
    }

    pub fn width(&self) -> (r: usize)
        ensures
            r == self.spec_width(),
    {
        self.width
    }

    pub fn height(&self) -> (r: usize)
        ensures
            r == self.spec_height(),
    {
        self.height
    }

    /// A black image of the given dimensions.
    pub fn new(width: usize, height: usize) -> (r: RGBImage)
        requires
            width * height * 3 <= usize::MAX,
        ensures
            r.wf(),
            r.spec_width() == width,
            r.spec_height() == height,
            r.pixels() == Seq::new((width * height * 3) as nat, |i: int| 0u8),
    {
        let num_pixels = width * height;
        let n = num_pixels * 3;
        let mut pixel_data: Vec<u8> = Vec::new();
        let mut i: usize = 0;
        while i < n
            invariant
                i <= n,
                n == width * height * 3,
                pixel_data@ == Seq::new(i as nat, |j: int| 0u8),
            decreases n - i,
        {
            pixel_data.push(0u8);
            i = i + 1;
            proof {
                assert(pixel_data@ == Seq::new(i as nat, |j: int| 0u8)) by {
                    assert(pixel_data@ =~= Seq::new(i as nat, |j: int| 0u8));
                }
            }
        }
        RGBImage { width, height, pixel_data }
    }

    /// The three channel bytes of pixel `(x, y)`.
    pub fn get_pixel(&self, x: usize, y: usize) -> (r: (u8, u8, u8))
        requires
            self.wf(),
            x < self.spec_width(),
            y < self.spec_height(),
        ensures
            r.0 == self.pixels()[self.offset(x as int, y as int)],
            r.1 == self.pixels()[self.offset(x as int, y as int) + 1],
            r.2 == self.pixels()[self.offset(x as int, y as int) + 2],
    {
        let data_len = self.pixel_data.len();
        proof {
            assert((y * self.width + x) * 3 + 2 < self.width * self.height * 3)
                by (nonlinear_arith)
                requires
                    x < self.width,
                    y < self.height,
            ;
        }
        let index = (y * self.width + x) * 3;
        (self.pixel_data[index], self.pixel_data[index + 1], self.pixel_data[index + 2])
    }

    /// Overwrites the three channel bytes of pixel `(x, y)`.
    pub fn set_pixel(&mut self, x: usize, y: usize, value: (u8, u8, u8))
        requires
            old(self).wf(),
            x < old(self).spec_width(),
            y < old(self).spec_height(),
        ensures
            final(self).wf(),
            final(self).spec_width() == old(self).spec_width(),
            final(self).spec_height() == old(self).spec_height(),
            final(self).pixels() == old(self).pixels()
                .update(old(self).offset(x as int, y as int), value.0)
                .update(old(self).offset(x as int, y as int) + 1, value.1)
                .update(old(self).offset(x as int, y as int) + 2, value.2),
    {
        let data_len = self.pixel_data.len();
        proof {
            assert((y * self.width + x) * 3 + 2 < self.width * self.height * 3)
                by (nonlinear_arith)
                requires
                    x < self.width,
                    y < self.height,
            ;
        }
        let index = (y * self.width + x) * 3;
        self.pixel_data.set(index, value.0);
        self.pixel_data.set(index + 1, value.1);
        self.pixel_data.set(index + 2, value.2);
    }

    /// Replaces the whole channel buffer at once. The device read-back path
    /// converts the raw float output to bytes and installs it here.
    pub fn load_pixels(&mut self, data: Vec<u8>)
        requires
            old(self).wf(),
            data@.len() == old(self).pixels().len(),
        ensures
            final(self).wf(),
            final(self).spec_width() == old(self).spec_width(),
            final(self).spec_height() == old(self).spec_height(),
            final(self).pixels() == data@,
    {
        self.pixel_data = data;
    }

    /// The image as BGRA bytes for a display texture: four bytes per pixel,
    /// blue first, alpha forced to 255, same row-major pixel order.
    pub fn to_bgra_bytes(&self) -> (r: Vec<u8>)
        requires
            self.wf(),
        ensures
            r@.len() == self.spec_width() * self.spec_height() * 4,
            forall|t: int|
                #![trigger r@[4 * t]]
                0 <= t < self.spec_width() * self.spec_height() ==> {
                    &&& r@[4 * t] == self.pixels()[3 * t + 2]
                    &&& r@[4 * t + 1] == self.pixels()[3 * t + 1]
                    &&& r@[4 * t + 2] == self.pixels()[3 * t]
                    &&& r@[4 * t + 3] == 255u8
                },
    {
        let data_len = self.pixel_data.len();
        let num_pixels = self.width * self.height;
        proof {
            assert(num_pixels * 3 == data_len && self.width * self.height <= data_len)
                by (nonlinear_arith)
                requires
                    num_pixels == self.width * self.height,
                    self.width * self.height * 3 == data_len,
            ;
        }
        let mut out: Vec<u8> = Vec::new();
        let mut t: usize = 0;
        while t < num_pixels
            invariant
                t <= num_pixels,
                num_pixels * 3 == data_len,
                data_len == self.pixels().len(),
                out@.len() == 4 * t,
                forall|j: int|
                    #![trigger out@[4 * j]]
                    0 <= j < t ==> {
                        &&& out@[4 * j] == self.pixels()[3 * j + 2]
                        &&& out@[4 * j + 1] == self.pixels()[3 * j + 1]
                        &&& out@[4 * j + 2] == self.pixels()[3 * j]
                        &&& out@[4 * j + 3] == 255u8
                    },
            decreases num_pixels - t,
        {
            proof {
                assert(3 * t + 2 < num_pixels * 3) by (nonlinear_arith)
                    requires
                        t < num_pixels,
                ;
            }
            let ghost prev = out@;
            let base = 3 * t;
            out.push(self.pixel_data[base + 2]);
            out.push(self.pixel_data[base + 1]);
            out.push(self.pixel_data[base]);
            out.push(255u8);
            t = t + 1;
            proof {
                assert forall|j: int| #![trigger out@[4 * j]] 0 <= j < t implies {
                    &&& out@[4 * j] == self.pixels()[3 * j + 2]
                    &&& out@[4 * j + 1] == self.pixels()[3 * j + 1]
                    &&& out@[4 * j + 2] == self.pixels()[3 * j]
                    &&& out@[4 * j + 3] == 255u8
                } by {
                    if j < t - 1 {
                        assert(out@[4 * j] == prev[4 * j]);
                        assert(out@[4 * j + 1] == prev[4 * j + 1]);
                        assert(out@[4 * j + 2] == prev[4 * j + 2]);
                        assert(out@[4 * j + 3] == prev[4 * j + 3]);
                    } else {
                        assert(4 * j == prev.len());
                    }
                }
            }
        }
        proof {
            assert(out@.len() == self.spec_width() * self.spec_height() * 4)
                by (nonlinear_arith)
                requires
                    out@.len() == 4 * num_pixels,
                    num_pixels == self.width * self.height,
                    self.spec_width() == self.width,
                    self.spec_height() == self.height,
            ;
        }
        out
    }
}

} // verus!
