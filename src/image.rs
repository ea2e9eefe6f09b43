use vstd::prelude::*;

verus! {

/// An image of `height` rows and `width` columns, each pixel holding
/// `channels` bytes; the bytes are stored row by row, pixel by pixel.
pub struct Image {
    pub width: usize,
    pub height: usize,
    pub channels: usize,
    pub data: Vec<u8>,
}

/// Position of channel `k` of the pixel at row `r`, column `c`.
pub open spec fn offset(width: int, channels: int, r: int, c: int, k: int) -> int {
    (r * width + c) * channels + k
}

/// Every in-range position lies inside a buffer of `width * height * channels` bytes.
pub proof fn lemma_offset_in_bounds(width: int, height: int, channels: int, r: int, c: int, k: int)
    requires
        0 <= r < height,
        0 <= c < width,
        0 <= k < channels,
    ensures
        0 <= r * width + c < width * height,
        0 <= (r * width + c) * channels + k < width * height * channels,
        width * height <= width * height * channels,
        offset(width, channels, r, c, k) == (r * width + c) * channels + k,
{
    assert(0 <= r * width + c) by (nonlinear_arith)
        requires 0 <= r, 0 <= c, 0 < width;
    assert(r * width + c < width * height) by (nonlinear_arith)
        requires 0 <= r < height, 0 <= c < width;
    let p = r * width + c;
    assert(0 <= p * channels + k) by (nonlinear_arith)
        requires 0 <= p, 0 <= k, 0 < channels;
    assert(p * channels + k < (width * height) * channels) by (nonlinear_arith)
        requires 0 <= p < width * height, 0 <= k < channels;
    assert((width * height) * channels == width * height * channels) by (nonlinear_arith);
    assert(width * height <= width * height * channels) by (nonlinear_arith)
        requires 0 < width * height, 1 <= channels;
}

impl Image {
    /// The buffer holds exactly one byte per channel of every pixel.
    pub open spec fn wf(&self) -> bool {
        self.data@.len() == self.width as int * self.height as int * self.channels as int
    }

    /// Channel `k` of the pixel at row `r`, column `c`.
    pub open spec fn at(&self, r: int, c: int, k: int) -> u8 {
        self.data@[offset(self.width as int, self.channels as int, r, c, k)]
    }

    /// Wraps `data` as an image; `None` when its length is not
    /// `width * height * channels`.
    pub fn new(width: usize, height: usize, channels: usize, data: Vec<u8>) -> (r: Option<Image>)
        ensures
            r is Some <==> data@.len() == width as int * height as int * channels as int,
            r matches Some(img) ==> img.wf() && img.width == width && img.height == height
                && img.channels == channels && img.data@ == data@,
    {
        let expected: Option<usize> = if width == 0 || height == 0 || channels == 0 {
            assert(width as int * height as int * channels as int == 0) by (nonlinear_arith)
                requires width == 0 || height == 0 || channels == 0;
            Some(0)
        } else {
            match width.checked_mul(height) {
                Some(wh) => {
                    assert(wh as int * channels as int == width as int * height as int
                        * channels as int);
                    wh.checked_mul(channels)
                },
                None => {
                    assert(width as int * height as int * channels as int > usize::MAX)
                        by (nonlinear_arith)
                        requires width as int * height as int > usize::MAX, channels >= 1;
                    None
                },
            }
        };
        assert(expected matches Some(len) ==> len == width as int * height as int * channels as int);
        assert(expected is None ==> width as int * height as int * channels as int > usize::MAX);
        assert(data@.len() <= usize::MAX) by {
            assert(data.len() == data@.len());
        }
        match expected {
            Some(len) => {
                if len == data.len() {
                    Some(Image { width, height, channels, data })
                } else {
                    None
                }
            },
            None => None,
        }
    }

    pub fn width(&self) -> (r: usize)
        ensures
            r == self.width,
    {
        self.width
    }

    pub fn height(&self) -> (r: usize)
        ensures
            r == self.height,
    {
        self.height
    }

    pub fn channels(&self) -> (r: usize)
        ensures
            r == self.channels,
    {
        self.channels
    }

    /// Channel `k` of the pixel at row `r`, column `c`.
    pub fn pixel(&self, r: usize, c: usize, k: usize) -> (v: u8)
        requires
            self.wf(),
            r < self.height,
            c < self.width,
            k < self.channels,
        ensures
            v == self.at(r as int, c as int, k as int),
    {
        proof {
            lemma_offset_in_bounds(
                self.width as int,
                self.height as int,
                self.channels as int,
                r as int,
                c as int,
                k as int,
            );
            assert(self.data.len() == self.data@.len());
            assert(r as int * self.width as int <= r as int * self.width as int + c as int);
        }
        self.data[(r * self.width + c) * self.channels + k]
    }
}

} // verus!
