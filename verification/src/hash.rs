//! The fingerprint: the grayscale pixels it was computed from, the bits, and
//! the four thresholds.

use vstd::prelude::*;
use vstd::string::*;
use crate::gray::{
    buffer_enumerate, buffer_height, buffer_width, image_height, image_values, image_width,
    GrayImage,
};
use crate::hashmath::{
    binary_to_hex, decode_hex, encode_hex, hex_digit, hex_digit_str, hex_to_binary, hex_value,
    lemma_hex_round_trip, nibble_at, nibble_bit, valid_bits, valid_hex,
};
use crate::median::{lemma_constant_median, subarea_median, subarea_medians};
use crate::subarea::subarea_of;
use crate::{HASHLEN, HEXLEN, SIZE};

verus! {

/// One of the four quadrants of the image.
#[derive(Clone, Copy, Debug, PartialEq, Eq, Structural)]
pub enum SubArea {
    TopLeft,
    TopRight,
    BottomLeft,
    BottomRight,
}

impl SubArea {
    /// The quadrant of the pixel with index `i`.
    pub fn at(i: usize) -> (area: SubArea)
        ensures
            area == subarea_of(i as int),
    {
        // Subarea top and bottom left
        if i % (SIZE as usize) < (SIZE / 2) as usize {
            if i < HASHLEN / 2 {
                SubArea::TopLeft
            } else {
                SubArea::BottomLeft
            }
        } else {
            // Subarea top and bottom right
            if i < HASHLEN / 2 {
                SubArea::TopRight
            } else {
                SubArea::BottomRight
            }
        }
    }
}

/// Why a fingerprint could not be built.
#[derive(Clone, Copy, Debug, PartialEq, Eq, Structural)]
pub enum HashError {
    /// The text holds a character that is no hexadecimal digit.
    InvalidHexInput,
}

/// The thresholds of the four quadrants.
pub struct Thresholds {
    pub top_left: u8,
    pub top_right: u8,
    pub bottom_left: u8,
    pub bottom_right: u8,
}

impl Thresholds {
    /// The threshold of `area`.
    pub open spec fn of(self, area: SubArea) -> u8 {
        match area {
            SubArea::TopLeft => self.top_left,
            SubArea::TopRight => self.top_right,
            SubArea::BottomLeft => self.bottom_left,
            SubArea::BottomRight => self.bottom_right,
        }
    }

    /// The thresholds in a table with the horizontal half first (`0` left,
    /// `1` right) and the vertical half second (`0` top, `1` bottom).
    pub open spec fn from_table(table: [[u8; 2]; 2]) -> Thresholds {
        Thresholds {
            top_left: table[0][0],
            top_right: table[1][0],
            bottom_left: table[0][1],
            bottom_right: table[1][1],
        }
    }
}

/// What a [`Hash`] stands for.
pub struct Fingerprint {
    /// The brightness of the pixels, row by row.
    pub grayscale: Seq<u8>,
    /// One bit for each pixel, as `0` or `1`.
    pub bits: Seq<u8>,
    /// The threshold of each quadrant.
    pub thresholds: Thresholds,
}

/// An image in which every pixel is black.
pub open spec fn zero_pixels() -> Seq<u8> {
    Seq::new(HASHLEN as nat, |i: int| 0u8)
}

/// The thresholds of the image `gray`: for each quadrant the lower median of
/// its pixels.
pub open spec fn thresholds_of(gray: Seq<u8>) -> Thresholds {
    Thresholds {
        top_left: subarea_median(gray, SubArea::TopLeft),
        top_right: subarea_median(gray, SubArea::TopRight),
        bottom_left: subarea_median(gray, SubArea::BottomLeft),
        bottom_right: subarea_median(gray, SubArea::BottomRight),
    }
}

/// The bits of the image `gray` under `thresholds`: a pixel gives `1` where
/// it is at least as bright as the threshold of its quadrant, else `0`.
pub open spec fn binarize(gray: Seq<u8>, thresholds: Thresholds) -> Seq<u8> {
    Seq::new(
        gray.len(),
        |i: int|
            if gray[i] >= thresholds.of(subarea_of(i)) {
                1u8
            } else {
                0u8
            },
    )
}

/// The fingerprint of the image `gray`.
pub open spec fn fingerprint_of(gray: Seq<u8>) -> Fingerprint {
    Fingerprint {
        grayscale: gray,
        bits: binarize(gray, thresholds_of(gray)),
        thresholds: thresholds_of(gray),
    }
}

/// The fingerprint that holds `bits` and nothing of the image that they came
/// from: its pixels and its thresholds are zero.
pub open spec fn fingerprint_of_bits(bits: Seq<u8>) -> Fingerprint {
    Fingerprint {
        grayscale: zero_pixels(),
        bits,
        thresholds: Thresholds { top_left: 0, top_right: 0, bottom_left: 0, bottom_right: 0 },
    }
}

/// The fingerprint that the hexadecimal text `hex` stands for, or nothing
/// where `hex` holds anything but digits.
pub open spec fn fingerprint_of_hex(hex: Seq<char>) -> Option<Fingerprint> {
    match decode_hex(hex) {
        Some(bits) => Some(fingerprint_of_bits(bits)),
        None => None,
    }
}

/// The text of `bits`: `'1'` for each bit that is `1`, `'0'` for each other.
pub open spec fn bit_text(bits: Seq<u8>) -> Seq<char> {
    Seq::new(
        bits.len(),
        |i: int|
            if bits[i] == 1 {
                '1'
            } else {
                '0'
            },
    )
}

impl Fingerprint {
    /// What holds of every fingerprint: it has `HASHLEN` pixels and as many
    /// bits, each bit is `0` or `1`, the thresholds are those of the pixels,
    /// and the bits are those of the pixels unless the pixels are all zero.
    pub open spec fn wf(self) -> bool {
        &&& self.grayscale.len() == HASHLEN
        &&& self.bits.len() == HASHLEN
        &&& valid_bits(self.bits)
        &&& self.thresholds == thresholds_of(self.grayscale)
        &&& (self.bits == binarize(self.grayscale, self.thresholds) || self.grayscale
            == zero_pixels())
    }
}

/// The fingerprint of an image.
#[derive(Clone, Copy, Debug, PartialEq, Eq)]
pub struct Hash {
    grayimage256: [u8; HASHLEN],
    binary256: [u8; HASHLEN],
    subarea_medians: [[u8; 2]; 2],
}

impl View for Hash {
    type V = Fingerprint;

    closed spec fn view(&self) -> Fingerprint {
        Fingerprint {
            grayscale: self.grayimage256@,
            bits: self.binary256@,
            thresholds: Thresholds::from_table(self.subarea_medians),
        }
    }
}

/// The fingerprint of an image is well formed.
pub proof fn lemma_fingerprint_wf(gray: Seq<u8>)
    requires
        gray.len() == HASHLEN,
    ensures
        fingerprint_of(gray).wf(),
{
}

/// A fingerprint made of bits alone is well formed.
pub proof fn lemma_fingerprint_of_bits_wf(bits: Seq<u8>)
    requires
        bits.len() == HASHLEN,
        valid_bits(bits),
    ensures
        fingerprint_of_bits(bits).wf(),
{
    lemma_constant_median(zero_pixels(), SubArea::TopLeft, 0);
    lemma_constant_median(zero_pixels(), SubArea::TopRight, 0);
    lemma_constant_median(zero_pixels(), SubArea::BottomLeft, 0);
    lemma_constant_median(zero_pixels(), SubArea::BottomRight, 0);
}

/// Fingerprinting is deterministic: two fingerprints of the same image agree
/// in their pixels, their bits and their thresholds.
pub proof fn lemma_fingerprint_deterministic(first: Hash, second: Hash, gray: Seq<u8>)
    requires
        first@ == fingerprint_of(gray),
        second@ == fingerprint_of(gray),
    ensures
        first@.grayscale == second@.grayscale,
        first@.bits == second@.bits,
        first@.thresholds == second@.thresholds,
        first == second,
{
    assert(first.grayimage256 =~= second.grayimage256);
    assert(first.binary256 =~= second.binary256);
    assert(first.subarea_medians[0] =~= second.subarea_medians[0]);
    assert(first.subarea_medians[1] =~= second.subarea_medians[1]);
    assert(first.subarea_medians =~= second.subarea_medians);
}

/// A bit is set exactly where the pixel is at least as bright as the
/// threshold of its quadrant, a pixel as bright as the threshold included;
/// it is clear everywhere else.
pub proof fn lemma_bit_threshold(gray: Seq<u8>, i: int)
    requires
        gray.len() == HASHLEN,
        0 <= i < HASHLEN,
    ensures
        fingerprint_of(gray).bits[i] == 1 <==> gray[i] >= fingerprint_of(gray).thresholds.of(
            subarea_of(i),
        ),
        fingerprint_of(gray).bits[i] == 0 <==> gray[i] < fingerprint_of(gray).thresholds.of(
            subarea_of(i),
        ),
{
}

/// Reading back the hexadecimal text of a fingerprint gives its bits, and
/// nothing else of it: the pixels and the thresholds of what is read are
/// zero.
pub proof fn lemma_hex_reconstruction(hash: Fingerprint)
    requires
        hash.wf(),
    ensures
        fingerprint_of_hex(encode_hex(hash.bits)) matches Some(back) && {
            &&& back.bits == hash.bits
            &&& back.grayscale == zero_pixels()
            &&& back.thresholds == Thresholds {
                top_left: 0,
                top_right: 0,
                bottom_left: 0,
                bottom_right: 0,
            }
        },
{
    lemma_hex_round_trip(hash.bits);
}

impl Hash {
    #[verifier::type_invariant]
    closed spec fn inv(self) -> bool {
        self@.wf()
    }

    /// The fingerprint whose bits, pixels and thresholds are all zero.
    pub fn new() -> (hash: Hash)
        ensures
            hash@ == fingerprint_of_bits(zero_pixels()),
    {
        let zeros = [0u8; HASHLEN];
        let medians = [[0u8; 2]; 2];
        proof {
            assert(zeros@ =~= zero_pixels());
            lemma_fingerprint_of_bits_wf(zero_pixels());
        }
        Hash { grayimage256: zeros, binary256: zeros, subarea_medians: medians }
    }

    /// The fingerprint of the image whose pixels are `gray`, row by row.
    pub fn from_grayscale(gray: [u8; HASHLEN]) -> (hash: Hash)
        ensures
            hash@ == fingerprint_of(gray@),
    {
        // Setting the subarea medians
        let medians = subarea_medians(&gray);

        // Calculating the bits from the grayscale pixels
        let bits = Hash::binary_hash_from_grayimage(&gray, &medians);

        proof {
            lemma_fingerprint_wf(gray@);
        }
        Hash { grayimage256: gray, binary256: bits, subarea_medians: medians }
    }

    /// The fingerprint of an image of `SIZE` by `SIZE` pixels.
    pub fn from_grayimage(img: GrayImage) -> (hash: Hash)
        requires
            image_width(img) == SIZE,
            image_height(img) == SIZE,
        ensures
            hash@ == fingerprint_of(image_values(img)),
    {
        Hash::from_grayscale(Hash::grayscale_of(&img))
    }

    /// The fingerprint of `img`, or nothing where `img` is not `SIZE` by
    /// `SIZE` pixels.
    pub fn try_from_grayimage(img: GrayImage) -> (hash: Option<Hash>)
        ensures
            hash is Some <==> image_width(img) == SIZE && image_height(img) == SIZE,
            hash matches Some(h) ==> h@ == fingerprint_of(image_values(img)),
    {
        if buffer_width(&img) == SIZE && buffer_height(&img) == SIZE {
            Some(Hash::from_grayimage(img))
        } else {
            None
        }
    }

    /// The pixels of `img` in row-major order: the pixel in column `x` of row
    /// `y` goes to the index `x + SIZE * y`.
    fn grayscale_of(img: &GrayImage) -> (gray: [u8; HASHLEN])
        requires
            image_width(*img) == SIZE,
            image_height(*img) == SIZE,
        ensures
            gray@ == image_values(*img),
    {
        let mut gray = [0u8; HASHLEN];
        let pixels = buffer_enumerate(img);
        for k in 0..pixels.len()
            invariant
                pixels@.len() == HASHLEN,
                image_values(*img).len() == HASHLEN,
                forall|p: int|
                    0 <= p < pixels@.len() ==> {
                        &&& (#[trigger] pixels@[p]).0 == p % (SIZE as int)
                        &&& pixels@[p].1 == p / (SIZE as int)
                        &&& pixels@[p].2 == image_values(*img)[p]
                    },
                forall|p: int| 0 <= p < k ==> gray@[p] == image_values(*img)[p],
        {
            let (x, y, pix) = pixels[k];
            gray[(x + SIZE * y) as usize] = pix;
        }
        assert(gray@ =~= image_values(*img));
        gray
    }

    /// The fingerprint that the hexadecimal digits `hexhash` stand for. It
    /// holds the bits alone: its pixels and thresholds are zero. Fails where
    /// `hexhash` holds a character that is no digit.
    pub fn from_hexhash(hexhash: &[char; HEXLEN]) -> (hash: Result<Hash, HashError>)
        ensures
            match hash {
                Ok(h) => fingerprint_of_hex(hexhash@) == Some(h@),
                Err(e) => fingerprint_of_hex(hexhash@) is None && e == HashError::InvalidHexInput,
            },
    {
        let mut binaryhash = [0u8; HASHLEN];

        for i in 0..HEXLEN
            invariant
                forall|k: int| 0 <= k < i ==> (#[trigger] hex_value(hexhash@[k])) is Some,
                forall|p: int|
                    0 <= p < 4 * i ==> binaryhash@[p] == nibble_bit(
                        hex_value(hexhash@[p / 4]).unwrap(),
                        p % 4,
                    ),
        {
            match hex_to_binary(&hexhash[i]) {
                Some(binaries) => {
                    for j in 0..4usize
                        invariant
                            i < HEXLEN,
                            hex_value(hexhash@[i as int]) is Some,
                            forall|q: int|
                                0 <= q < 4 ==> binaries@[q] == nibble_bit(
                                    hex_value(hexhash@[i as int]).unwrap(),
                                    q,
                                ),
                            forall|p: int|
                                0 <= p < 4 * i + j ==> binaryhash@[p] == nibble_bit(
                                    hex_value(hexhash@[p / 4]).unwrap(),
                                    p % 4,
                                ),
                    {
                        binaryhash[4 * i + j] = binaries[j];
                    }
                },
                None => {
                    assert(!valid_hex(hexhash@));
                    return Err(HashError::InvalidHexInput);
                },
            }
        }

        let zeros = [0u8; HASHLEN];
        let medians = [[0u8; 2]; 2];
        proof {
            assert(valid_hex(hexhash@));
            assert(binaryhash@ =~= decode_hex(hexhash@).unwrap());
            assert(zeros@ =~= zero_pixels());
            lemma_fingerprint_of_bits_wf(binaryhash@);
        }
        Ok(Hash { grayimage256: zeros, binary256: binaryhash, subarea_medians: medians })
    }

    /// The bits as hexadecimal text: one digit for every four bits, the first
    /// of the four counting most.
    pub fn to_hex(&self) -> (hex: [char; HEXLEN])
        ensures
            hex@ == encode_hex(self@.bits),
            self@.wf(),
    {
        proof {
            use_type_invariant(self);
        }
        let mut hex_hash: [char; HEXLEN] = ['0'; HEXLEN];

        for i in 0..HEXLEN
            invariant
                self@.wf(),
                forall|k: int|
                    0 <= k < i ==> hex_hash@[k] == hex_digit(nibble_at(self@.bits, 4 * k)),
        {
            let hexval = binary_to_hex(
                self.binary256[4 * i],
                self.binary256[4 * i + 1],
                self.binary256[4 * i + 2],
                self.binary256[4 * i + 3],
            );
            hex_hash[i] = hexval.unwrap();
        }
        assert(hex_hash@ =~= encode_hex(self@.bits));
        hex_hash
    }

    /// The bits as text, one character for each: `'1'` for a set bit and
    /// `'0'` for a clear one.
    pub fn to_string(&self) -> (text: String)
        ensures
            text@ == bit_text(self@.bits),
            self@.wf(),
    {
        proof {
            use_type_invariant(self);
            reveal_strlit("0");
            reveal_strlit("1");
        }
        let mut text = String::new();
        for i in 0..HASHLEN
            invariant
                self@.wf(),
                "0"@ == seq!['0'],
                "1"@ == seq!['1'],
                text@ == bit_text(self@.bits.take(i as int)),
        {
            if self.binary256[i] == 1 {
                text.append("1");
            } else {
                text.append("0");
            }
            assert(text@ =~= bit_text(self@.bits.take(i + 1)));
        }
        assert(self@.bits.take(HASHLEN as int) =~= self@.bits);
        text
    }

    /// The bits as hexadecimal text, as [`Hash::to_hex`] gives them.
    pub fn to_string_hex(&self) -> (text: String)
        ensures
            text@ == encode_hex(self@.bits),
            self@.wf(),
    {
        proof {
            use_type_invariant(self);
        }
        let mut text = String::new();
        for i in 0..HEXLEN
            invariant
                self@.wf(),
                text@ == encode_hex(self@.bits).take(i as int),
        {
            let value: usize = 8 * (self.binary256[4 * i] as usize) + 4 * (self.binary256[4 * i
                + 1] as usize) + 2 * (self.binary256[4 * i + 2] as usize) + (self.binary256[4 * i
                + 3] as usize);
            text.append(hex_digit_str(value));
            assert(text@ =~= encode_hex(self@.bits).take(i + 1));
        }
        assert(encode_hex(self@.bits).take(HEXLEN as int) =~= encode_hex(self@.bits));
        text
    }

    /// The pixels that the fingerprint was computed from, row by row; all
    /// zero where it was read from hexadecimal text.
    pub fn grayimage256(&self) -> (gray: [u8; HASHLEN])
        ensures
            gray@ == self@.grayscale,
    {
        self.grayimage256
    }

    /// The bits, each as `0` or `1`.
    pub fn binary256(&self) -> (bits: [u8; HASHLEN])
        ensures
            bits@ == self@.bits,
    {
        self.binary256
    }

    /// The thresholds as a table with the horizontal half first (`0` left,
    /// `1` right) and the vertical half second (`0` top, `1` bottom); all
    /// zero where the fingerprint was read from hexadecimal text.
    pub fn subarea_medians(&self) -> (medians: [[u8; 2]; 2])
        ensures
            Thresholds::from_table(medians) == self@.thresholds,
    {
        self.subarea_medians
    }

    /// The quadrant of the pixel with index `i`.
    pub fn get_subarea(&self, i: usize) -> (area: SubArea)
        ensures
            area == subarea_of(i as int),
    {
        SubArea::at(i)
    }

    /// The bits of the pixels `gray` under the thresholds in `medians`.
    pub fn binary_hash_from_grayimage(gray: &[u8; HASHLEN], medians: &[[u8; 2]; 2]) -> (bits: [u8;
        HASHLEN])
        ensures
            bits@ == binarize(gray@, Thresholds::from_table(*medians)),
    {
        let mut bits = [0u8; HASHLEN];
        for i in 0..HASHLEN
            invariant
                forall|k: int|
                    0 <= k < i ==> bits@[k] == binarize(
                        gray@,
                        Thresholds::from_table(*medians),
                    )[k],
        {
            let median = match SubArea::at(i) {
                SubArea::TopLeft => medians[0][0],
                SubArea::TopRight => medians[1][0],
                SubArea::BottomLeft => medians[0][1],
                SubArea::BottomRight => medians[1][1],
            };
            bits[i] = match gray[i] >= median {
                true => 1,
                false => 0,
            };
        }
        assert(bits@ =~= binarize(gray@, Thresholds::from_table(*medians)));
        bits
    }
}

} // verus!
