//! Decoding of the IDX files in which the digit data set is distributed: a label
//! file and an image file, each a short big-endian header followed by raw bytes.
use vstd::prelude::*;
use vstd::slice::{slice_subrange, slice_to_vec};
use byteorder::{BigEndian, ByteOrder};

verus! {

/// The magic number that opens a label file.
pub const LABEL_MAGIC: i32 = 2049;

/// The magic number that opens an image file.
pub const IMAGE_MAGIC: i32 = 2051;

/// Why a pair of IDX files could not be decoded.
#[derive(Clone, Copy, Debug, PartialEq, Eq, Structural)]
pub enum LoadError {
    /// A file ends inside its header.
    UnexpectedEof,
    /// A file opens with a number that is neither of the two magic numbers.
    UnknownMagic,
    /// The image file has the header of a label file.
    NotImages,
    /// The image file announces a negative count, height or width, or an image
    /// size beyond the range of a signed 32-bit number.
    BadDimensions,
    /// The image file holds fewer pixels than its header announces.
    Truncated,
}

/// The header sizes and the payload of one IDX file.
#[derive(Debug)]
pub struct MnistData {
    pub sizes: Vec<i32>,
    pub data: Vec<u8>,
}

/// One image of the data set: its pixels, row after row, one byte of intensity
/// each, and the digit it shows.
#[derive(Debug)]
pub struct MnistImage {
    pub image: Vec<u8>,
    pub classification: u8,
}

impl View for MnistImage {
    type V = (Seq<u8>, u8);

    open spec fn view(&self) -> (Seq<u8>, u8) {
        (self.image@, self.classification)
    }
}

/// The four bytes of `bytes` from `at` on, read as one unsigned number, most
/// significant byte first.
pub open spec fn be_u32(bytes: Seq<u8>, at: int) -> int {
    bytes[at] * 0x100_0000 + bytes[at + 1] * 0x1_0000 + bytes[at + 2] * 0x100 + bytes[at + 3]
}

/// The four bytes of `bytes` from `at` on, read as one signed number in two's
/// complement, most significant byte first.
pub open spec fn be_i32(bytes: Seq<u8>, at: int) -> int {
    if be_u32(bytes, at) >= 0x8000_0000 {
        be_u32(bytes, at) - 0x1_0000_0000
    } else {
        be_u32(bytes, at)
    }
}

/// How many sizes follow the magic number: one in a label file, three in an
/// image file.
pub open spec fn dimensions(magic: int) -> Option<int> {
    if magic == LABEL_MAGIC {
        Some(1)
    } else if magic == IMAGE_MAGIC {
        Some(3)
    } else {
        None
    }
}

/// What an IDX file holds: the sizes of its header and the bytes after the
/// header.
pub open spec fn decoded(bytes: Seq<u8>) -> Result<(Seq<i32>, Seq<u8>), LoadError> {
    if bytes.len() < 4 {
        Err(LoadError::UnexpectedEof)
    } else {
        match dimensions(be_i32(bytes, 0)) {
            None => Err(LoadError::UnknownMagic),
            Some(n) => if bytes.len() < 4 + 4 * n {
                Err(LoadError::UnexpectedEof)
            } else {
                Ok(
                    (
                        Seq::new(n as nat, |k: int| be_i32(bytes, 4 + 4 * k) as i32),
                        bytes.subrange(4 + 4 * n, bytes.len() as int),
                    ),
                )
            },
        }
    }
}

/// The images that a label file and an image file hold together: as many as the
/// image file announces, or as there are labels if those are fewer, each with
/// the label at its position.
pub open spec fn loaded(labels: Seq<u8>, images: Seq<u8>) -> Result<Seq<(Seq<u8>, u8)>, LoadError> {
    match decoded(labels) {
        Err(e) => Err(e),
        Ok((_, classifications)) => match decoded(images) {
            Err(e) => Err(e),
            Ok((sizes, pixels)) => if sizes.len() != 3 {
                Err(LoadError::NotImages)
            } else if sizes[0] < 0 || sizes[1] < 0 || sizes[2] < 0 || sizes[1] * sizes[2]
                > i32::MAX {
                Err(LoadError::BadDimensions)
            } else if sizes[0] * (sizes[1] * sizes[2]) > pixels.len() {
                Err(LoadError::Truncated)
            } else {
                Ok(
                    Seq::new(
                        if sizes[0] <= classifications.len() {
                            sizes[0] as nat
                        } else {
                            classifications.len()
                        },
                        |i: int|
                            (
                                pixels.subrange(
                                    i * (sizes[1] * sizes[2]),
                                    (i + 1) * (sizes[1] * sizes[2]),
                                ),
                                classifications[i],
                            ),
                    ),
                )
            },
        },
    }
}

/// `byteorder::BigEndian::read_i32` on the bytes from `at` on. That function
/// reads the first four bytes it is given as a big-endian unsigned number and
/// reinterprets it as signed; it panics on fewer than four bytes.
#[verifier::external_body]
fn read_i32_be(bytes: &[u8], at: usize) -> (value: i32)
    requires
        at + 4 <= bytes@.len(),
    ensures
        value == be_i32(bytes@, at as int),
{
    BigEndian::read_i32(&bytes[at..])
}

impl MnistData {
    /// Decodes one IDX file: the magic number, the sizes that it calls for, and
    /// everything after them as payload.
    pub fn new(bytes: &[u8]) -> (parsed: Result<MnistData, LoadError>)
        ensures
            decoded(bytes@) == match parsed {
                Ok(file) => Ok((file.sizes@, file.data@)),
                Err(e) => Err(e),
            },
    {
        if bytes.len() < 4 {
            return Err(LoadError::UnexpectedEof);
        }
        let magic_number = read_i32_be(bytes, 0);
        let count: usize = if magic_number == LABEL_MAGIC {
            1
        } else if magic_number == IMAGE_MAGIC {
            3
        } else {
            return Err(LoadError::UnknownMagic);
        };
        let header: usize = 4 + 4 * count;
        if bytes.len() < header {
            return Err(LoadError::UnexpectedEof);
        }
        let mut sizes: Vec<i32> = Vec::new();
        for k in 0..count
            invariant
                header == 4 + 4 * count,
                header <= bytes@.len(),
                sizes@ =~= Seq::new(k as nat, |k: int| be_i32(bytes@, 4 + 4 * k) as i32),
        {
            sizes.push(read_i32_be(bytes, 4 + 4 * k));
        }
        let data = slice_to_vec(slice_subrange(bytes, header, bytes.len()));
        Ok(MnistData { sizes, data })
    }
}

/// Decodes a label file and an image file into the images they describe.
///
/// The image size is the product of the height and the width in the image
/// file's header. Pixels beyond the announced images are ignored, and so are
/// images or labels without a partner.
pub fn load_data(labels: &[u8], images: &[u8]) -> (result: Result<Vec<MnistImage>, LoadError>)
    ensures
        loaded(labels@, images@) == match result {
            Ok(list) => Ok(list@.map_values(|m: MnistImage| m@)),
            Err(e) => Err(e),
        },
{
    let label_data = match MnistData::new(labels) {
        Ok(file) => file,
        Err(e) => { return Err(e); },
    };
    let images_data = match MnistData::new(images) {
        Ok(file) => file,
        Err(e) => { return Err(e); },
    };
    if images_data.sizes.len() != 3 {
        return Err(LoadError::NotImages);
    }
    let count: i32 = images_data.sizes[0];
    let rows: i32 = images_data.sizes[1];
    let cols: i32 = images_data.sizes[2];
    if count < 0 || rows < 0 || cols < 0 {
        return Err(LoadError::BadDimensions);
    }
    assert(0 <= rows * cols <= 0x7fff_ffff * 0x7fff_ffff) by (nonlinear_arith)
        requires
            0 <= rows <= 0x7fff_ffff,
            0 <= cols <= 0x7fff_ffff,
    ;
    let image_shape: u64 = (rows as u64) * (cols as u64);
    if image_shape > i32::MAX as u64 {
        return Err(LoadError::BadDimensions);
    }
    assert(0 <= count * image_shape <= 0x7fff_ffff * 0x7fff_ffff) by (nonlinear_arith)
        requires
            0 <= count <= 0x7fff_ffff,
            0 <= image_shape <= 0x7fff_ffff,
    ;
    if (count as u64) * image_shape > images_data.data.len() as u64 {
        return Err(LoadError::Truncated);
    }
    let image_shape: usize = image_shape as usize;
    let total: usize = if (count as u64) <= label_data.data.len() as u64 {
        count as usize
    } else {
        label_data.data.len()
    };
    let ghost pixels = images_data.data@;
    let ghost classifications = label_data.data@;
    let mut ret: Vec<MnistImage> = Vec::new();
    for i in 0..total
        invariant
            total <= count,
            total <= classifications.len(),
            count * image_shape <= pixels.len() <= usize::MAX,
            pixels == images_data.data@,
            classifications == label_data.data@,
            ret@.len() == i,
            forall|j: int|
                0 <= j < i ==> (#[trigger] ret@[j])@ == (
                    pixels.subrange(j * image_shape, (j + 1) * image_shape),
                    classifications[j],
                ),
    {
        assert(0 <= i * image_shape && i * image_shape + image_shape <= count * image_shape)
            by (nonlinear_arith)
            requires
                0 <= i < count,
                image_shape >= 0,
        ;
        assert((i + 1) * image_shape == i * image_shape + image_shape) by (nonlinear_arith);
        let start: usize = i * image_shape;
        let image = slice_to_vec(
            slice_subrange(images_data.data.as_slice(), start, start + image_shape),
        );
        let classification: u8 = label_data.data[i];
        ret.push(MnistImage { image, classification });
    }
    assert(ret@.map_values(|m: MnistImage| m@) =~= loaded(labels@, images@).unwrap());
    Ok(ret)
}

} // verus!
