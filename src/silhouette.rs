use vstd::prelude::*;
use crate::image::Image;
use crate::text::{field, lemma_field_counts, lemma_occurrences_add, lemma_occurrences_single,
    occurrences, push_field};

verus! {

/// Parameters of the silhouette tool: the size to resize to and the input file.
pub struct Arg {
    pub width: i32,
    pub height: i32,
    pub iname: String,
}

/// Why the silhouette tool stops.
#[derive(Clone, Copy, Debug, PartialEq, Eq, Structural)]
pub enum SilhouetteError {
    /// The requested width is not positive.
    Width,
    /// The requested height is not positive.
    Height,
    /// The input path names no regular file.
    MissingFile,
    /// The image could not be decoded.
    OpenImage,
    /// The image could not be resized.
    Resize,
}

impl SilhouetteError {
    /// The process exit status that reports this error.
    pub fn code(&self) -> (r: i32)
        ensures
            r == match *self {
                SilhouetteError::Width => 21i32,
                SilhouetteError::Height => 22i32,
                SilhouetteError::MissingFile => 23i32,
                SilhouetteError::OpenImage => 11i32,
                SilhouetteError::Resize => 12i32,
            },
    {
        match self {
            SilhouetteError::Width => 21,
            SilhouetteError::Height => 22,
            SilhouetteError::MissingFile => 23,
            SilhouetteError::OpenImage => 11,
            SilhouetteError::Resize => 12,
        }
    }

    /// The message printed to standard error for this error.
    pub fn message(&self) -> (r: &'static str)
        ensures
            r@ == match *self {
                SilhouetteError::Width => "negative specifed for width"@,
                SilhouetteError::Height => "negative specifed for height"@,
                SilhouetteError::MissingFile => "input file not exist"@,
                SilhouetteError::OpenImage => "cannot open image"@,
                SilhouetteError::Resize => "resize image failed"@,
            },
    {
        match self {
            SilhouetteError::Width => "negative specifed for width",
            SilhouetteError::Height => "negative specifed for height",
            SilhouetteError::MissingFile => "input file not exist",
            SilhouetteError::OpenImage => "cannot open image",
            SilhouetteError::Resize => "resize image failed",
        }
    }
}

/// Checks the parameters in order: the width, the height, then whether the
/// input file exists.
pub fn input_param(arg: &Arg, file_exists: bool) -> (r: Result<(), SilhouetteError>)
    ensures
        r == if arg.width <= 0 {
            Err(SilhouetteError::Width)
        } else if arg.height <= 0 {
            Err(SilhouetteError::Height)
        } else if !file_exists {
            Err(SilhouetteError::MissingFile)
        } else {
            Ok(())
        },
{
    if arg.width <= 0 {
        Err(SilhouetteError::Width)
    } else if arg.height <= 0 {
        Err(SilhouetteError::Height)
    } else if !file_exists {
        Err(SilhouetteError::MissingFile)
    } else {
        Ok(())
    }
}

/// `1 ` where the pixel at row `r`, column `c` is not fully transparent,
/// else `0 `; the alpha value is the fourth channel.
pub open spec fn mask_cell(img: &Image, r: int, c: int) -> Seq<u8> {
    if img.at(r, c, 3) > 0 {
        field(1)
    } else {
        field(0)
    }
}

/// The cells of the first `n` columns of row `r`.
pub open spec fn mask_row(img: &Image, r: int, n: nat) -> Seq<u8>
    decreases n,
{
    if n == 0 {
        seq![]
    } else {
        mask_row(img, r, (n - 1) as nat) + mask_cell(img, r, n - 1)
    }
}

/// The first `n` rows of the mask, each a full row of cells and a newline.
pub open spec fn mask_text(img: &Image, n: nat) -> Seq<u8>
    decreases n,
{
    if n == 0 {
        seq![]
    } else {
        mask_text(img, (n - 1) as nat) + mask_row(img, n - 1, img.width as nat) + seq![10u8]
    }
}

/// The alpha mask of a four-channel image as text: one line per row, one
/// `0 ` or `1 ` per pixel.
pub fn alpha_mask(img: &Image) -> (r: Vec<u8>)
    requires
        img.wf(),
        img.channels == 4,
    ensures
        r@ == mask_text(img, img.height as nat),
{
    let mut out: Vec<u8> = Vec::new();
    let mut i: usize = 0;
    while i < img.height
        invariant
            img.wf(),
            img.channels == 4,
            i <= img.height,
            out@ == mask_text(img, i as nat),
        decreases img.height - i,
    {
        let ghost before = out@;
        let mut j: usize = 0;
        while j < img.width
            invariant
                img.wf(),
                img.channels == 4,
                i < img.height,
                j <= img.width,
                out@ == before + mask_row(img, i as int, j as nat),
            decreases img.width - j,
        {
            let a = img.pixel(i, j, 3);
            let v: u8 = if a > 0 {
                1
            } else {
                0
            };
            push_field(&mut out, v);
            assert(out@ =~= before + mask_row(img, i as int, (j + 1) as nat));
            j += 1;
        }
        out.push(10);
        assert(out@ =~= mask_text(img, (i + 1) as nat));
        i += 1;
    }
    out
}

proof fn lemma_mask_row_counts(img: &Image, r: int, n: nat)
    ensures
        occurrences(mask_row(img, r, n), 32) == n,
        occurrences(mask_row(img, r, n), 10) == 0,
    decreases n,
{
    if n > 0 {
        lemma_mask_row_counts(img, r, (n - 1) as nat);
        lemma_field_counts(0);
        lemma_field_counts(1);
        lemma_occurrences_add(mask_row(img, r, (n - 1) as nat), mask_cell(img, r, n - 1), 32);
        lemma_occurrences_add(mask_row(img, r, (n - 1) as nat), mask_cell(img, r, n - 1), 10);
    }
}

/// The mask text is `n` lines, one per row, and each line holds one value
/// per column.
pub proof fn lemma_mask_lines(img: &Image, n: nat)
    ensures
        occurrences(mask_text(img, n), 10) == n,
        forall|r: int|
            occurrences(#[trigger] mask_row(img, r, img.width as nat), 32) == img.width
                && occurrences(mask_row(img, r, img.width as nat), 10) == 0,
    decreases n,
{
    assert forall|r: int|
        occurrences(#[trigger] mask_row(img, r, img.width as nat), 32) == img.width
            && occurrences(mask_row(img, r, img.width as nat), 10) == 0 by {
        lemma_mask_row_counts(img, r, img.width as nat);
    }
    if n > 0 {
        lemma_mask_lines(img, (n - 1) as nat);
        let prefix = mask_text(img, (n - 1) as nat);
        let row = mask_row(img, n - 1, img.width as nat);
        lemma_occurrences_add(prefix + row, seq![10u8], 10);
        lemma_occurrences_add(prefix, row, 10);
        lemma_occurrences_single(10, 10);
    }
}

} // verus!
