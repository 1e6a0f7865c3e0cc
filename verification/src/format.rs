use vstd::prelude::*;

verus! {

/// The closed set of output image formats the application can target.
///
/// The selection is kept as a variant of this enum rather than an index into
/// a list, so no operation can ever drift outside the allowed set.
#[derive(Clone, Copy, PartialEq, Eq, Structural, Debug)]
pub enum ImageFormat {
    Png,
    Jpeg,
    Webp,
    Gif,
}

impl ImageFormat {
    /// The format that follows `self` in the fixed cycling order
    /// png -> jpeg -> webp -> gif -> png.
    pub open spec fn next_spec(self) -> ImageFormat {
        match self {
            ImageFormat::Png => ImageFormat::Jpeg,
            ImageFormat::Jpeg => ImageFormat::Webp,
            ImageFormat::Webp => ImageFormat::Gif,
            ImageFormat::Gif => ImageFormat::Png,
        }
    }

    /// Advance to the next format in the fixed cycling order, wrapping from
    /// the last back to the first.
    pub fn next(self) -> (r: ImageFormat)
        ensures
            r == self.next_spec(),
    {
        match self {
            ImageFormat::Png => ImageFormat::Jpeg,
            ImageFormat::Jpeg => ImageFormat::Webp,
            ImageFormat::Webp => ImageFormat::Gif,
            ImageFormat::Gif => ImageFormat::Png,
        }
    }

    /// The file extension belonging to this format.
    pub open spec fn extension_spec(self) -> Seq<char> {
        match self {
            ImageFormat::Png => "png"@,
            ImageFormat::Jpeg => "jpeg"@,
            ImageFormat::Webp => "webp"@,
            ImageFormat::Gif => "gif"@,
        }
    }

    /// The file extension belonging to this format.
    pub fn extension(self) -> (r: &'static str)
        ensures
            r@ == self.extension_spec(),
    {
        match self {
            ImageFormat::Png => "png",
            ImageFormat::Jpeg => "jpeg",
            ImageFormat::Webp => "webp",
            ImageFormat::Gif => "gif",
        }
    }
}

/// Cycling the format four times returns to the starting format, whatever it
/// was: the formats form a single cycle of length four.
pub proof fn lemma_format_cycle(f: ImageFormat)
    ensures
        f.next_spec().next_spec().next_spec().next_spec() == f,
{
}

} // verus!
