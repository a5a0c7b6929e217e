use crate::error::StegoError;
use vstd::prelude::*;

verus! {

/// One pixel: four 8-bit color channels (red, green, blue, alpha).
#[derive(Clone, Copy, Debug, PartialEq, Eq, Structural)]
pub struct Pixel {
    pub r: u8,
    pub g: u8,
    pub b: u8,
    pub a: u8,
}

/// Holds between two pixels exactly when every channel bit above bit 0 agrees:
/// only the least-significant bit of each channel may differ.
pub open spec fn lsb_only_changed(p_old: Pixel, p_new: Pixel) -> bool {
    &&& p_new.r >> 1u8 == p_old.r >> 1u8
    &&& p_new.g >> 1u8 == p_old.g >> 1u8
    &&& p_new.b >> 1u8 == p_old.b >> 1u8
    &&& p_new.a >> 1u8 == p_old.a >> 1u8
}

/// A mutable 2-D grid of pixels in row-major order. The pixel at coordinates
/// `(x, y)` sits at index `y * width + x` of the backing buffer.
#[derive(Clone)]
pub struct Image {
    pub width: u32,
    pub height: u32,
    pub pixels: Vec<Pixel>,
}

impl View for Image {
    type V = Seq<Pixel>;

    open spec fn view(&self) -> Seq<Pixel> {
        self.pixels@
    }
}

impl Image {
    pub open spec fn spec_width(&self) -> u32 {
        self.width
    }

    pub open spec fn spec_height(&self) -> u32 {
        self.height
    }

    /// Total number of pixels in the grid.
    pub open spec fn spec_size(&self) -> int {
        self.width * self.height
    }

    /// Well-formed: the buffer holds exactly `width * height` pixels, and that
    /// count fits the 32-bit pixel cursor.
    pub open spec fn wf(&self) -> bool {
        &&& self.pixels@.len() == self.spec_size()
        &&& self.spec_size() <= u32::MAX
    }

    pub fn width(&self) -> (w: u32)
        ensures
            w == self.spec_width(),
    {
        self.width
    }

    pub fn height(&self) -> (h: u32)
        ensures
            h == self.spec_height(),
    {
        self.height
    }

    /// Build an image of the given dimensions with every pixel set to `fill`.
    pub fn new(width: u32, height: u32, fill: Pixel) -> (img: Image)
        requires
            width * height <= u32::MAX,
        ensures
            img.wf(),
            img.spec_width() == width,
            img.spec_height() == height,
            forall|i: int| 0 <= i < img@.len() ==> img@[i] == fill,
    {
        let total: u32 = width * height;
        let mut pixels: Vec<Pixel> = Vec::new();
        let mut i: u32 = 0;
        while i < total
            invariant
                i <= total,
                pixels@.len() == i,
                forall|j: int| 0 <= j < i ==> pixels@[j] == fill,
            decreases total - i,
        {
            pixels.push(fill);
            i = i + 1;
        }
        Image { width, height, pixels }
    }

    /// Read the pixel at coordinates `(x, y)`.
    pub fn get_pixel(&self, x: u32, y: u32) -> (p: Pixel)
        requires
            self.wf(),
            x < self.spec_width(),
            y < self.spec_height(),
        ensures
            p == self@[y * self.spec_width() + x],
    {
        proof {
            assert((y as int) * (self.width as int) + (x as int) < (self.width as int) * (
            self.height as int)) by (nonlinear_arith)
                requires
                    (y as int) < (self.height as int),
                    (x as int) < (self.width as int),
            ;
        }
        self.pixels[(y * self.width + x) as usize]
    }

    /// Replace the pixel at coordinates `(x, y)`.
    pub fn put_pixel(&mut self, x: u32, y: u32, p: Pixel)
        requires
            old(self).wf(),
            x < old(self).spec_width(),
            y < old(self).spec_height(),
        ensures
            final(self).wf(),
            final(self).spec_width() == old(self).spec_width(),
            final(self).spec_height() == old(self).spec_height(),
            final(self)@ == old(self)@.update(y * old(self).spec_width() + x, p),
    {
        proof {
            assert((y as int) * (self.width as int) + (x as int) < (self.width as int) * (
            self.height as int)) by (nonlinear_arith)
                requires
                    (y as int) < (self.height as int),
                    (x as int) < (self.width as int),
            ;
        }
        let idx: usize = (y * self.width + x) as usize;
        self.pixels.set(idx, p);
    }

    /// Build an image from a flat channel buffer, four bytes per pixel in
    /// r, g, b, a order, row-major; refused when the buffer length does not
    /// match the dimensions or the pixel count overflows the cursor range.
    pub fn from_channels(width: u32, height: u32, channels: &Vec<u8>) -> (r: Option<Image>)
        ensures
            match r {
                Some(img) => {
                    &&& img.wf()
                    &&& img.spec_width() == width
                    &&& img.spec_height() == height
                    &&& channels@.len() == 4 * ((width as int) * (height as int))
                    &&& forall|i: int|
                        0 <= i < img@.len() ==> img@[i] == (Pixel {
                            r: channels@[4 * i],
                            g: channels@[4 * i + 1],
                            b: channels@[4 * i + 2],
                            a: channels@[4 * i + 3],
                        })
                },
                None => (width as int) * (height as int) > u32::MAX || channels@.len() != 4 * ((
                width as int) * (height as int)),
            },
    {
        proof {
            assert((width as int) * (height as int) <= 0xffff_ffff * 0xffff_ffff)
                by (nonlinear_arith)
                requires
                    width as int <= 0xffff_ffff,
                    height as int <= 0xffff_ffff,
            ;
        }
        let size: u64 = (width as u64) * (height as u64);
        if size > u32::MAX as u64 {
            return None;
        }
        if (channels.len() as u64) != 4 * size {
            return None;
        }
        let total: u32 = size as u32;
        let mut pixels: Vec<Pixel> = Vec::new();
        let mut i: u32 = 0;
        while i < total
            invariant
                i <= total,
                total == (width as int) * (height as int),
                channels@.len() == 4 * (total as int),
                4 * (total as int) <= usize::MAX,
                pixels@.len() == i,
                forall|j: int|
                    0 <= j < i ==> pixels@[j] == (Pixel {
                        r: channels@[4 * j],
                        g: channels@[4 * j + 1],
                        b: channels@[4 * j + 2],
                        a: channels@[4 * j + 3],
                    }),
            decreases total - i,
        {
            let base: usize = (i as usize) * 4;
            let p = Pixel {
                r: channels[base],
                g: channels[base + 1],
                b: channels[base + 2],
                a: channels[base + 3],
            };
            pixels.push(p);
            i = i + 1;
        }
        Some(Image { width, height, pixels })
    }

    /// Flatten the image back into a channel buffer, four bytes per pixel in
    /// r, g, b, a order, row-major: the inverse of `from_channels`.
    pub fn to_channels(&self) -> (channels: Vec<u8>)
        requires
            self.wf(),
        ensures
            channels@.len() == 4 * self@.len(),
            forall|i: int|
                0 <= i < self@.len() ==> channels@[4 * i] == self@[i].r && channels@[4 * i + 1]
                    == self@[i].g && channels@[4 * i + 2] == self@[i].b && channels@[4 * i + 3]
                    == self@[i].a,
    {
        let mut channels: Vec<u8> = Vec::new();
        let total: usize = self.pixels.len();
        let mut i: usize = 0;
        while i < total
            invariant
                i <= total,
                total == self@.len(),
                channels@.len() == 4 * i,
                forall|j: int|
                    0 <= j < i ==> channels@[4 * j] == self@[j].r && channels@[4 * j + 1]
                        == self@[j].g && channels@[4 * j + 2] == self@[j].b && channels@[4 * j + 3]
                        == self@[j].a,
            decreases total - i,
        {
            let p = self.pixels[i];
            channels.push(p.r);
            channels.push(p.g);
            channels.push(p.b);
            channels.push(p.a);
            i = i + 1;
        }
        channels
    }

    /// Map a monotonically increasing pixel index to row-major coordinates
    /// `(x, y) = (index mod width, index div width)`; an index at or beyond
    /// `width * height` is a bounds violation.
    pub fn get_pixel_position(&self, pixel_index: u32) -> (r: Result<(u32, u32), StegoError>)
        requires
            self.wf(),
        ensures
            pixel_index < self.spec_size() ==> r == Ok::<(u32, u32), StegoError>(
                (pixel_index % self.spec_width(), pixel_index / self.spec_width()),
            ),
            pixel_index >= self.spec_size() ==> r == Err::<(u32, u32), StegoError>(
                StegoError::BoundsError,
            ),
            r matches Ok(pos) ==> pos.0 < self.spec_width() && pos.1 < self.spec_height()
                && pos.1 * self.spec_width() + pos.0 == pixel_index,
    {
        if (pixel_index as u64) >= (self.width as u64) * (self.height as u64) {
            return Err(StegoError::BoundsError);
        }
        let x = pixel_index % self.width;
        let y = pixel_index / self.width;
        proof {
            vstd::arithmetic::div_mod::lemma_fundamental_div_mod(
                pixel_index as int,
                self.width as int,
            );
            assert((pixel_index as int) / (self.width as int) < self.height as int)
                by (nonlinear_arith)
                requires
                    0 < self.width as int,
                    (pixel_index as int) < (self.width as int) * (self.height as int),
            ;
            assert((y as int) * (self.width as int) + (x as int) == pixel_index as int)
                by (nonlinear_arith)
                requires
                    0 < self.width as int,
                    y as int == (pixel_index as int) / (self.width as int),
                    x as int == (pixel_index as int) % (self.width as int),
            ;
        }
        Ok((x, y))
    }
}

} // verus!
