use vstd::prelude::*;
use crate::job::{payloads, WorkerResult};

verus! {

/// The error of the `base64` crate's decoder. Opaque here.
#[verifier::external_type_specification]
#[verifier::external_body]
pub struct ExBase64Error(base64::DecodeError);

/// The error of the `image` crate. Opaque here.
#[verifier::external_type_specification]
#[verifier::external_body]
pub struct ExImageError(image::ImageError);

/// The bytes that the `base64` crate's standard decoder reads from
/// `text`, if it accepts it.
pub uninterp spec fn base64_decoding(text: Seq<char>) -> Option<Seq<u8>>;

/// The picture that the `image` crate reads from a WebP file, if it
/// accepts it: width, height and the pixels as RGBA bytes.
pub uninterp spec fn webp_decoding(file: Seq<u8>) -> Option<(nat, nat, Seq<u8>)>;

/// A picture as a decoder hands it over, not yet checked.
pub struct RawPicture {
    pub width: u32,
    pub height: u32,
    pub rgba: Vec<u8>,
}

/// `base64::decode` of the `base64` crate, on a text: the decoded bytes,
/// or the crate's error where it does not accept the text.
#[verifier::external_body]
pub(crate) fn base64_decode(text: &str) -> (decoded: Result<Vec<u8>, base64::DecodeError>)
    ensures
        decoded matches Ok(bytes) ==> base64_decoding(text@) == Some(bytes@),
        decoded is Err ==> base64_decoding(text@) is None,
{
    #[allow(deprecated)]
    base64::decode(text)
}

/// `image::load_from_memory_with_format` of the `image` crate, for the
/// WebP format, followed by `DynamicImage::into_rgba8`: the picture's
/// width, height and RGBA bytes, or the crate's error where it does not
/// accept the file.
#[verifier::external_body]
fn webp_decode(file: &Vec<u8>) -> (decoded: Result<RawPicture, image::ImageError>)
    ensures
        decoded matches Ok(picture) ==> webp_decoding(file@) == Some(
            (picture.width as nat, picture.height as nat, picture.rgba@),
        ),
        decoded is Err ==> webp_decoding(file@) is None,
{
    let picture = image::load_from_memory_with_format(file, image::ImageFormat::WebP)?.into_rgba8();
    Ok(RawPicture { width: picture.width(), height: picture.height(), rgba: picture.into_raw() })
}

/// A decoded picture: RGBA bytes, row after row from the top, four to
/// a pixel.
pub struct Raster {
    width: u32,
    height: u32,
    pixels: Vec<u8>,
}

/// A picture as its contracts see it.
pub struct RasterView {
    pub width: nat,
    pub height: nat,
    pub pixels: Seq<u8>,
}

/// Whether a picture has four bytes for each of its pixels.
pub open spec fn is_whole(picture: RasterView) -> bool {
    picture.pixels.len() == 4 * (picture.width * picture.height)
}

impl View for Raster {
    type V = RasterView;

    closed spec fn view(&self) -> RasterView {
        RasterView {
            width: self.width as nat,
            height: self.height as nat,
            pixels: self.pixels@,
        }
    }
}

/// Why a payload gave no picture.
#[derive(Clone, Copy, Debug, PartialEq, Eq, Structural)]
pub enum PictureError {
    /// The payload is no base64.
    Encoding,
    /// The decoded bytes are no WebP picture.
    Format,
    /// The decoder's bytes do not match the size it reported.
    Size,
}

/// The picture in a payload, or why there is none.
pub open spec fn picture_of(payload: Seq<char>) -> Result<RasterView, PictureError> {
    match base64_decoding(payload) {
        None => Err(PictureError::Encoding),
        Some(file) => match webp_decoding(file) {
            None => Err(PictureError::Format),
            Some((width, height, pixels)) => {
                let picture = RasterView { width, height, pixels };
                if is_whole(picture) {
                    Ok(picture)
                } else {
                    Err(PictureError::Size)
                }
            },
        },
    }
}

/// The pictures of `payloads`, in order, without the payloads that give
/// none.
pub open spec fn pictures_of(payloads: Seq<Seq<char>>) -> Seq<RasterView>
    decreases payloads.len(),
{
    if payloads.len() == 0 {
        Seq::<RasterView>::empty()
    } else {
        match picture_of(payloads.last()) {
            Ok(picture) => pictures_of(payloads.drop_last()).push(picture),
            Err(_) => pictures_of(payloads.drop_last()),
        }
    }
}

/// The pictures of `tiles`, each by its view.
pub open spec fn raster_views(tiles: Seq<Raster>) -> Seq<RasterView> {
    Seq::new(tiles.len(), |i: int| tiles[i]@)
}

/// The byte of channel `ch` of the pixel in column `tx` and row `ty`.
pub open spec fn pixel_index(picture: RasterView, tx: nat, ty: nat, ch: nat) -> int {
    ((ty * picture.width + tx) * 4 + ch) as int
}

proof fn lemma_pixel_index_in_bounds(width: nat, height: nat, tx: nat, ty: nat, ch: nat)
    requires
        tx < width,
        ty < height,
        ch < 4,
    ensures
        ty * width + tx < width * height,
        (ty * width + tx) * 4 + ch < 4 * (width * height),
{
    assert(ty * width + width <= height * width) by (nonlinear_arith)
        requires
            ty + 1 <= height,
    ;
    assert(height * width == width * height) by (nonlinear_arith);
}

impl Raster {
    #[verifier::type_invariant]
    spec fn whole(self) -> bool {
        self.pixels.len() == 4 * (self.width * self.height)
    }

    /// The picture of `width` by `height` pixels whose RGBA bytes are
    /// `pixels`, if these are four bytes for each pixel.
    pub fn from_rgba(width: u32, height: u32, pixels: Vec<u8>) -> (picture: Option<Self>)
        ensures
            match picture {
                Some(p) => p@ == (RasterView {
                    width: width as nat,
                    height: height as nat,
                    pixels: pixels@,
                }) && is_whole(p@),
                None => pixels.len() != 4 * (width * height),
            },
    {
        assert(width * height <= 0xffff_ffff * 0xffff_ffff) by (nonlinear_arith)
            requires
                width <= 0xffff_ffff,
                height <= 0xffff_ffff,
        ;
        let area: u128 = (width as u128) * (height as u128);
        if pixels.len() as u128 == 4 * area {
            Some(Raster { width, height, pixels })
        } else {
            None
        }
    }

    pub fn width(&self) -> (width: u32)
        ensures
            width == self@.width,
    {
        self.width
    }

    pub fn height(&self) -> (height: u32)
        ensures
            height == self@.height,
    {
        self.height
    }

    /// The RGBA bytes of the picture.
    pub fn pixels(&self) -> (pixels: &Vec<u8>)
        ensures
            pixels@ == self@.pixels,
            is_whole(self@),
    {
        proof {
            use_type_invariant(self);
        }
        &self.pixels
    }

    /// One byte of the picture, or zero outside of it.
    pub fn byte_at(&self, tx: u32, ty: u32, ch: u8) -> (byte: u8)
        ensures
            byte == tile_byte(self@, tx as nat, ty as nat, ch as nat),
    {
        proof {
            use_type_invariant(self);
        }
        if tx < self.width && ty < self.height && ch < 4 {
            proof {
                lemma_pixel_index_in_bounds(
                    self.width as nat,
                    self.height as nat,
                    tx as nat,
                    ty as nat,
                    ch as nat,
                );
            }
            let at: usize = (ty as usize * self.width as usize + tx as usize) * 4 + ch as usize;
            self.pixels[at]
        } else {
            0
        }
    }
}

/// What a picture shows at column `tx` and row `ty` in channel `ch`, of
/// which it has four: nothing, which is zero, outside of the picture.
pub open spec fn tile_byte(picture: RasterView, tx: nat, ty: nat, ch: nat) -> u8 {
    if tx < picture.width && ty < picture.height && ch < 4 {
        picture.pixels[pixel_index(picture, tx, ty, ch)]
    } else {
        0
    }
}

/// Decodes one payload: base64, then WebP.
pub fn decode_tile(payload: &str) -> (decoded: Result<Raster, PictureError>)
    ensures
        match picture_of(payload@) {
            Ok(picture) => decoded is Ok && decoded->Ok_0@ == picture,
            Err(e) => decoded == Err::<Raster, PictureError>(e),
        },
{
    let file = match base64_decode(payload) {
        Ok(file) => file,
        Err(_) => {
            return Err(PictureError::Encoding);
        },
    };
    let raw = match webp_decode(&file) {
        Ok(raw) => raw,
        Err(_) => {
            return Err(PictureError::Format);
        },
    };
    match Raster::from_rgba(raw.width, raw.height, raw.rgba) {
        Some(picture) => Ok(picture),
        None => Err(PictureError::Size),
    }
}

/// Decodes the payloads of `results` in order and drops, without a
/// word, each payload that gives no picture.
pub fn decode_images(results: &Vec<WorkerResult>) -> (tiles: Vec<Raster>)
    ensures
        raster_views(tiles@) == pictures_of(payloads(results@)),
{
    let ghost all = payloads(results@);
    let mut tiles: Vec<Raster> = Vec::new();
    let mut i: usize = 0;
    assert(raster_views(tiles@) =~= pictures_of(all.take(0)));
    while i < results.len()
        invariant
            i <= results.len(),
            all == payloads(results@),
            raster_views(tiles@) == pictures_of(all.take(i as int)),
        decreases results.len() - i,
    {
        let ghost before = raster_views(tiles@);
        proof {
            assert(all.take(i + 1).drop_last() == all.take(i as int));
            assert(all.take(i + 1).last() == results[i as int].image_base64@);
        }
        match decode_tile(results[i].image_base64.as_str()) {
            Ok(picture) => {
                tiles.push(picture);
                assert(raster_views(tiles@) =~= before.push(picture@));
            },
            Err(_) => {},
        }
        i = i + 1;
    }
    assert(all.take(results.len() as int) == all);
    tiles
}

} // verus!
