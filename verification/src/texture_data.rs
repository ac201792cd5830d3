use vstd::prelude::*;

verus! {

/// A decoded image as 8-bit RGBA pixels, row-major.
pub struct DecodedImage {
    pub width: u32,
    pub height: u32,
    pub rgba: Vec<u8>,
}

/// What decoding a PNG file gives: its size and pixels converted to 8-bit
/// RGBA, or nothing when the bytes are not a PNG the decoder accepts within
/// its default memory limits.
pub uninterp spec fn spec_decode_rgba8(bytes: Seq<u8>) -> Option<(u32, u32, Seq<u8>)>;

/// Decodes a PNG with `image::codecs::png::PngDecoder` (under the image
/// crate's default `Limits`), reads it with `DynamicImage::from_decoder` and
/// converts it with `DynamicImage::to_rgba8`. This path reads only the bytes
/// (it does not go through the crate's format-guessing hooks); the contract
/// names its result and claims nothing more of it.
#[verifier::external_body]
pub fn decode_rgba8(bytes: &[u8]) -> (img: Option<DecodedImage>)
    ensures
        match img {
            Some(i) => spec_decode_rgba8(bytes@) == Some((i.width, i.height, i.rgba@)),
            None => spec_decode_rgba8(bytes@) is None,
        },
{
    let decoder = image::codecs::png::PngDecoder::with_limits(
        std::io::Cursor::new(bytes),
        image::Limits::default(),
    ).ok()?;
    let rgba = image::DynamicImage::from_decoder(decoder).ok()?.to_rgba8();
    Some(DecodedImage { width: rgba.width(), height: rgba.height(), rgba: rgba.into_raw() })
}

/// One copy of image pixels into a texture layer.
#[derive(Clone, Copy, Debug, PartialEq, Eq)]
pub struct TextureCopy {
    pub origin_z: u32,
    pub width: u32,
    pub height: u32,
    pub bytes_per_row: u32,
    pub rows_per_image: u32,
}

/// A 2D (array) texture to create and the copies that fill it: copy `i`
/// writes `images[i]`.
pub struct TextureUpload {
    pub width: u32,
    pub height: u32,
    pub depth_or_array_layers: u32,
    pub copies: Vec<TextureCopy>,
    pub images: Vec<DecodedImage>,
}

/// The copy of a `width` x `height` RGBA image into layer `z`: the whole
/// image, four bytes per pixel.
pub open spec fn copy_of(width: u32, height: u32, z: int) -> TextureCopy {
    TextureCopy {
        origin_z: z as u32,
        width,
        height,
        bytes_per_row: (4 * width) as u32,
        rows_per_image: height,
    }
}

/// The decoded size and pixels of bytes that decode.
pub open spec fn decoded(bytes: Seq<u8>) -> (u32, u32, Seq<u8>) {
    spec_decode_rgba8(bytes)->0
}

/// A row of the image fits the copy's 32-bit row pitch.
pub open spec fn row_fits(width: u32) -> bool {
    4 * width <= u32::MAX
}

impl TextureUpload {
    /// The upload of one image into a single-layer texture of its size.
    pub fn from_image(img: DecodedImage) -> (up: Self)
        requires
            row_fits(img.width),
        ensures
            up.width == img.width,
            up.height == img.height,
            up.depth_or_array_layers == 1,
            up.copies@ == seq![copy_of(img.width, img.height, 0)],
            up.images@ == seq![img],
    {
        let width = img.width;
        let height = img.height;
        let mut copies: Vec<TextureCopy> = Vec::new();
        copies.push(
            TextureCopy { origin_z: 0, width, height, bytes_per_row: 4 * width, rows_per_image: height },
        );
        let mut images: Vec<DecodedImage> = Vec::new();
        images.push(img);
        assert(copies@ =~= seq![copy_of(width, height, 0)]);
        assert(images@ =~= seq![img]);
        TextureUpload { width, height, depth_or_array_layers: 1, copies, images }
    }

    /// The upload of several images into a texture array: the array has the
    /// size of the first image and one layer per image, and image `i` is
    /// copied whole into layer `i`.
    pub fn from_array_image(array_img: Vec<DecodedImage>) -> (up: Self)
        requires
            array_img@.len() > 0,
            forall|i: int| 0 <= i < array_img@.len() ==> row_fits(#[trigger] array_img@[i].width),
        ensures
            up.width == array_img@[0].width,
            up.height == array_img@[0].height,
            up.depth_or_array_layers == array_img@.len() as u32,
            up.copies@ == Seq::new(
                array_img@.len(),
                |i: int| copy_of(array_img@[i].width, array_img@[i].height, i),
            ),
            up.images@ == array_img@,
    {
        let width = array_img[0].width;
        let height = array_img[0].height;
        let n = array_img.len();
        let mut copies: Vec<TextureCopy> = Vec::new();
        let mut i: usize = 0;
        while i < n
            invariant
                0 <= i <= n,
                n == array_img@.len(),
                forall|k: int| 0 <= k < array_img@.len() ==> row_fits(#[trigger] array_img@[k].width),
                copies@ == Seq::new(
                    i as nat,
                    |k: int| copy_of(array_img@[k].width, array_img@[k].height, k),
                ),
            decreases n - i,
        {
            let img = &array_img[i];
            assert(row_fits(array_img@[i as int].width));
            copies.push(
                TextureCopy {
                    origin_z: #[verifier::truncate] (i as u32),
                    width: img.width,
                    height: img.height,
                    bytes_per_row: 4 * img.width,
                    rows_per_image: img.height,
                },
            );
            assert(copies@ =~= Seq::new(
                (i + 1) as nat,
                |k: int| copy_of(array_img@[k].width, array_img@[k].height, k),
            ));
            i += 1;
        }
        let depth = #[verifier::truncate] (n as u32);
        TextureUpload { width, height, depth_or_array_layers: depth, copies, images: array_img }
    }

    /// Decodes a PNG image and plans its upload. `None` when the bytes do not
    /// decode, or when a row of the decoded image is too wide for a 32-bit
    /// row pitch.
    pub fn from_bytes(bytes: &[u8]) -> (up: Option<Self>)
        ensures
            match spec_decode_rgba8(bytes@) {
                None => up is None,
                Some((w, h, px)) => if row_fits(w) {
                    up matches Some(u) && u.width == w && u.height == h && u.depth_or_array_layers
                        == 1 && u.copies@ == seq![copy_of(w, h, 0)] && u.images@.len() == 1
                        && u.images@[0].width == w && u.images@[0].height == h
                        && u.images@[0].rgba@ == px
                } else {
                    up is None
                },
            },
    {
        let img = decode_rgba8(bytes)?;
        if img.width > u32::MAX / 4 {
            return None;
        }
        Some(Self::from_image(img))
    }

    /// Decodes every PNG image and plans a texture array of them. `None` at the
    /// first image that does not decode, or when a row of some decoded
    /// image is too wide for a 32-bit row pitch.
    pub fn from_array_bytes(array_bytes: &Vec<&[u8]>) -> (up: Option<Self>)
        requires
            array_bytes@.len() > 0,
        ensures
            (forall|i: int| 0 <= i < array_bytes@.len() ==> (#[trigger] spec_decode_rgba8(array_bytes@[i]@)) is Some && row_fits(decoded(array_bytes@[i]@).0))
                <==> up is Some,
            up matches Some(u) ==> {
                &&& u.width == decoded(array_bytes@[0]@).0
                &&& u.height == decoded(array_bytes@[0]@).1
                &&& u.depth_or_array_layers == array_bytes@.len() as u32
                &&& u.images@.len() == array_bytes@.len()
                &&& forall|i: int|
                    0 <= i < array_bytes@.len() ==> {
                        let d = decoded(array_bytes@[i]@);
                        &&& (#[trigger] u.images@[i]).width == d.0
                        &&& u.images@[i].height == d.1
                        &&& u.images@[i].rgba@ == d.2
                        &&& u.copies@[i] == copy_of(d.0, d.1, i)
                    }
                &&& u.copies@.len() == array_bytes@.len()
            },
    {
        let n = array_bytes.len();
        let mut array_img: Vec<DecodedImage> = Vec::new();
        let mut i: usize = 0;
        while i < n
            invariant
                0 <= i <= n,
                n == array_bytes@.len(),
                array_img@.len() == i,
                forall|k: int|
                    0 <= k < i ==> {
                        let d = spec_decode_rgba8(array_bytes@[k]@);
                        &&& d == Some(
                            (
                                (#[trigger] array_img@[k]).width,
                                array_img@[k].height,
                                array_img@[k].rgba@,
                            ),
                        )
                    },
            decreases n - i,
        {
            match decode_rgba8(array_bytes[i]) {
                Some(img) => array_img.push(img),
                None => {
                    return None;
                },
            }
            i += 1;
        }
        let mut k: usize = 0;
        while k < n
            invariant
                0 <= k <= n,
                n == array_bytes@.len(),
                array_img@.len() == n,
                forall|j: int| 0 <= j < k ==> row_fits(#[trigger] array_img@[j].width),
                forall|j: int|
                    0 <= j < n ==> spec_decode_rgba8(array_bytes@[j]@) == Some(
                        (
                            (#[trigger] array_img@[j]).width,
                            array_img@[j].height,
                            array_img@[j].rgba@,
                        ),
                    ),
            decreases n - k,
        {
            if array_img[k].width > u32::MAX / 4 {
                assert(spec_decode_rgba8(array_bytes@[k as int]@) == Some(
                    (array_img@[k as int].width, array_img@[k as int].height, array_img@[k as int].rgba@),
                ));
                return None;
            }
            k += 1;
        }
        let ghost imgs = array_img@;
        let up = Self::from_array_image(array_img);
        assert forall|i: int| 0 <= i < array_bytes@.len() implies (#[trigger] spec_decode_rgba8(
            array_bytes@[i]@,
        )) is Some && row_fits(decoded(array_bytes@[i]@).0) by {
            assert(row_fits(imgs[i].width));
        }
        Some(up)
    }
}

} // verus!
