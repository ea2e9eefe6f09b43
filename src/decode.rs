use vstd::prelude::*;
use crate::image::Image;
use crate::text::{field, lemma_field_counts, lemma_occurrences_add, lemma_occurrences_single,
    occurrences, push_field};

verus! {

/// Parameters of the decode tool: the size to resize to, the colour-space
/// flags and the input file.
pub struct Arg {
    pub width: i32,
    pub height: i32,
    pub isgray: bool,
    pub ishue: bool,
    pub ishsv: bool,
    pub imgname: String,
}

/// The colour space in which pixels are printed.
#[derive(Clone, Copy, Debug, PartialEq, Eq, Structural)]
pub enum ColorMode {
    /// The three colour channels as decoded, in stored order.
    Rgb,
    /// One grey level.
    Gray,
    /// The hue channel of HSV alone.
    Hue,
    /// Hue, saturation and value.
    Hsv,
}

/// The colour conversion applied to the decoded (and resized) image.
#[derive(Clone, Copy, Debug, PartialEq, Eq, Structural)]
pub enum Conversion {
    /// The colour image is used as decoded.
    Keep,
    /// From blue-green-red to one grey channel.
    BgrToGray,
    /// From blue-green-red to hue, saturation and value.
    BgrToHsv,
}

/// Why the decode tool stops.
#[derive(Clone, Copy, Debug, PartialEq, Eq, Structural)]
pub enum DecodeError {
    /// The image could not be decoded.
    OpenImage,
    /// The image could not be resized.
    Resize,
    /// The conversion to grey failed.
    GrayConversion,
    /// The conversion to HSV failed.
    HsvConversion,
}

impl DecodeError {
    /// The process exit status that reports this error.
    pub fn code(&self) -> (r: i32)
        ensures
            r == match *self {
                DecodeError::OpenImage => 10i32,
                DecodeError::Resize => 11i32,
                DecodeError::GrayConversion => 12i32,
                DecodeError::HsvConversion => 13i32,
            },
    {
        match self {
            DecodeError::OpenImage => 10,
            DecodeError::Resize => 11,
            DecodeError::GrayConversion => 12,
            DecodeError::HsvConversion => 13,
        }
    }

    /// The message printed to standard error for this error.
    pub fn message(&self) -> (r: &'static str)
        ensures
            r@ == match *self {
                DecodeError::OpenImage => "cannot open image"@,
                DecodeError::Resize => "resize image failed"@,
                DecodeError::GrayConversion => "convert color failed"@,
                DecodeError::HsvConversion => "convert color failed"@,
            },
    {
        match self {
            DecodeError::OpenImage => "cannot open image",
            DecodeError::Resize => "resize image failed",
            DecodeError::GrayConversion => "convert color failed",
            DecodeError::HsvConversion => "convert color failed",
        }
    }
}

/// The colour space that the flags select: grey wins over hue, hue over
/// HSV, and with no flag set the pixels are printed as decoded.
pub fn color_mode(isgray: bool, ishue: bool, ishsv: bool) -> (r: ColorMode)
    ensures
        r == color_mode_spec(isgray, ishue, ishsv),
{
    match (isgray, ishue, ishsv) {
        (true, _, _) => ColorMode::Gray,
        (false, true, _) => ColorMode::Hue,
        (false, false, true) => ColorMode::Hsv,
        (false, false, false) => ColorMode::Rgb,
    }
}

impl Arg {
    /// The colour space that this request's flags select.
    pub fn mode(&self) -> (r: ColorMode)
        ensures
            r == color_mode_spec(self.isgray, self.ishue, self.ishsv),
    {
        color_mode(self.isgray, self.ishue, self.ishsv)
    }
}

/// What [`color_mode`] returns.
pub open spec fn color_mode_spec(isgray: bool, ishue: bool, ishsv: bool) -> ColorMode {
    if isgray {
        ColorMode::Gray
    } else if ishue {
        ColorMode::Hue
    } else if ishsv {
        ColorMode::Hsv
    } else {
        ColorMode::Rgb
    }
}

impl ColorMode {
    /// The conversion that produces this colour space from the decoded image.
    pub fn conversion(&self) -> (r: Conversion)
        ensures
            r == match *self {
                ColorMode::Rgb => Conversion::Keep,
                ColorMode::Gray => Conversion::BgrToGray,
                ColorMode::Hue => Conversion::BgrToHsv,
                ColorMode::Hsv => Conversion::BgrToHsv,
            },
    {
        match self {
            ColorMode::Rgb => Conversion::Keep,
            ColorMode::Gray => Conversion::BgrToGray,
            ColorMode::Hue => Conversion::BgrToHsv,
            ColorMode::Hsv => Conversion::BgrToHsv,
        }
    }

    pub open spec fn spec_channels(self) -> usize {
        match self {
            ColorMode::Gray => 1usize,
            _ => 3usize,
        }
    }

    /// The number of channels of each pixel once converted.
    pub fn channels(&self) -> (r: usize)
        ensures
            r == self.spec_channels(),
    {
        match self {
            ColorMode::Gray => 1,
            _ => 3,
        }
    }
}

impl Conversion {
    /// The error reported when this conversion fails; none for [`Conversion::Keep`],
    /// which cannot fail.
    pub fn failure(&self) -> (r: Option<DecodeError>)
        ensures
            r == match *self {
                Conversion::Keep => None,
                Conversion::BgrToGray => Some(DecodeError::GrayConversion),
                Conversion::BgrToHsv => Some(DecodeError::HsvConversion),
            },
    {
        match self {
            Conversion::Keep => None,
            Conversion::BgrToGray => Some(DecodeError::GrayConversion),
            Conversion::BgrToHsv => Some(DecodeError::HsvConversion),
        }
    }
}

/// The text of the pixel at row `r`, column `c`: one field per channel
/// printed in this colour space (all three, or the first alone for grey and hue).
pub open spec fn pixel_text(img: &Image, mode: ColorMode, r: int, c: int) -> Seq<u8> {
    match mode {
        ColorMode::Rgb | ColorMode::Hsv => field(img.at(r, c, 0) as nat) + field(
            img.at(r, c, 1) as nat,
        ) + field(img.at(r, c, 2) as nat),
        ColorMode::Gray | ColorMode::Hue => field(img.at(r, c, 0) as nat),
    }
}

/// The pixels of the first `n` columns of row `r`.
pub open spec fn row_text(img: &Image, mode: ColorMode, r: int, n: nat) -> Seq<u8>
    decreases n,
{
    if n == 0 {
        seq![]
    } else {
        row_text(img, mode, r, (n - 1) as nat) + pixel_text(img, mode, r, n - 1)
    }
}

/// The first `n` rows of the output, each a full row of pixels and a newline.
pub open spec fn image_text(img: &Image, mode: ColorMode, n: nat) -> Seq<u8>
    decreases n,
{
    if n == 0 {
        seq![]
    } else {
        image_text(img, mode, (n - 1) as nat) + row_text(img, mode, n - 1, img.width as nat) + seq![
            10u8,
        ]
    }
}

fn push_pixel(out: &mut Vec<u8>, img: &Image, mode: ColorMode, r: usize, c: usize)
    requires
        img.wf(),
        img.channels == mode.spec_channels(),
        r < img.height,
        c < img.width,
    ensures
        final(out)@ == old(out)@ + pixel_text(img, mode, r as int, c as int),
{
    match mode {
        ColorMode::Rgb | ColorMode::Hsv => {
            push_field(out, img.pixel(r, c, 0));
            push_field(out, img.pixel(r, c, 1));
            push_field(out, img.pixel(r, c, 2));
        },
        ColorMode::Gray | ColorMode::Hue => {
            push_field(out, img.pixel(r, c, 0));
        },
    }
    assert(final(out)@ =~= old(out)@ + pixel_text(img, mode, r as int, c as int));
}

/// The text of one pixel in the given colour space.
pub fn pixelstr(img: &Image, mode: ColorMode, r: usize, c: usize) -> (s: Vec<u8>)
    requires
        img.wf(),
        img.channels == mode.spec_channels(),
        r < img.height,
        c < img.width,
    ensures
        s@ == pixel_text(img, mode, r as int, c as int),
{
    let mut s: Vec<u8> = Vec::new();
    push_pixel(&mut s, img, mode, r, c);
    assert(s@ =~= pixel_text(img, mode, r as int, c as int));
    s
}

/// The whole image as text in the given colour space: one line per row.
pub fn output(img: &Image, mode: ColorMode) -> (r: Vec<u8>)
    requires
        img.wf(),
        img.channels == mode.spec_channels(),
    ensures
        r@ == image_text(img, mode, img.height as nat),
{
    let mut out: Vec<u8> = Vec::new();
    let mut i: usize = 0;
    while i < img.height
        invariant
            img.wf(),
            img.channels == mode.spec_channels(),
            i <= img.height,
            out@ == image_text(img, mode, i as nat),
        decreases img.height - i,
    {
        let ghost before = out@;
        let mut j: usize = 0;
        while j < img.width
            invariant
                img.wf(),
                img.channels == mode.spec_channels(),
                i < img.height,
                j <= img.width,
                out@ == before + row_text(img, mode, i as int, j as nat),
            decreases img.width - j,
        {
            push_pixel(&mut out, img, mode, i, j);
            assert(out@ =~= before + row_text(img, mode, i as int, (j + 1) as nat));
            j += 1;
        }
        out.push(10);
        assert(out@ =~= image_text(img, mode, (i + 1) as nat));
        i += 1;
    }
    out
}

/// How many values each pixel contributes in a colour space.
pub open spec fn values_per_pixel(mode: ColorMode) -> nat {
    match mode {
        ColorMode::Rgb | ColorMode::Hsv => 3,
        ColorMode::Gray | ColorMode::Hue => 1,
    }
}

proof fn lemma_pixel_counts(img: &Image, mode: ColorMode, r: int, c: int)
    ensures
        occurrences(pixel_text(img, mode, r, c), 32) == values_per_pixel(mode),
        occurrences(pixel_text(img, mode, r, c), 10) == 0,
{
    let a = field(img.at(r, c, 0) as nat);
    let b = field(img.at(r, c, 1) as nat);
    let d = field(img.at(r, c, 2) as nat);
    lemma_field_counts(img.at(r, c, 0) as nat);
    lemma_field_counts(img.at(r, c, 1) as nat);
    lemma_field_counts(img.at(r, c, 2) as nat);
    lemma_occurrences_add(a, b, 32);
    lemma_occurrences_add(a, b, 10);
    lemma_occurrences_add(a + b, d, 32);
    lemma_occurrences_add(a + b, d, 10);
}

proof fn lemma_row_counts(img: &Image, mode: ColorMode, r: int, n: nat)
    ensures
        occurrences(row_text(img, mode, r, n), 32) == n * values_per_pixel(mode),
        occurrences(row_text(img, mode, r, n), 10) == 0,
    decreases n,
{
    if n > 0 {
        let prev = row_text(img, mode, r, (n - 1) as nat);
        lemma_row_counts(img, mode, r, (n - 1) as nat);
        lemma_pixel_counts(img, mode, r, n - 1);
        lemma_occurrences_add(prev, pixel_text(img, mode, r, n - 1), 32);
        lemma_occurrences_add(prev, pixel_text(img, mode, r, n - 1), 10);
        assert(n * values_per_pixel(mode) == (n - 1) * values_per_pixel(mode)
            + values_per_pixel(mode)) by (nonlinear_arith);
    }
}

/// The output is `n` lines, one per row, and each line holds the values of
/// every column of its row: three per pixel, or one for grey and hue.
pub proof fn lemma_output_lines(img: &Image, mode: ColorMode, n: nat)
    ensures
        occurrences(image_text(img, mode, n), 10) == n,
        forall|r: int|
            occurrences(#[trigger] row_text(img, mode, r, img.width as nat), 32) == img.width
                * values_per_pixel(mode) && occurrences(
                row_text(img, mode, r, img.width as nat),
                10,
            ) == 0,
    decreases n,
{
    assert forall|r: int|
        occurrences(#[trigger] row_text(img, mode, r, img.width as nat), 32) == img.width
            * values_per_pixel(mode) && occurrences(row_text(img, mode, r, img.width as nat), 10)
            == 0 by {
        lemma_row_counts(img, mode, r, img.width as nat);
    }
    if n > 0 {
        lemma_output_lines(img, mode, (n - 1) as nat);
        let prefix = image_text(img, mode, (n - 1) as nat);
        let row = row_text(img, mode, n - 1, img.width as nat);
        lemma_occurrences_add(prefix + row, seq![10u8], 10);
        lemma_occurrences_add(prefix, row, 10);
        lemma_occurrences_single(10, 10);
    }
}

} // verus!
