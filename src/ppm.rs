//! Reading plain-text PPM images: a header with the size, then red,
//! green and blue values for each pixel, row by row.
use vstd::prelude::*;
use vstd::string::StringSliceAdditionalSpecFns;
use vstd::utf8::{encode_utf8, is_char_boundary};
use crate::encode::Rgb;
use crate::grid::{has_shape, rows_of};
use crate::search::{all_matches, find_all, find_first, first_match};

verus! {

/// The header: `P3`, width, height and a maximum value of 255, each after a
/// space or a newline.
pub const PPM_HEADER: &'static str = "P3[\n ](?<w>[0-9]+)[\n ](?<h>[0-9]+)[\n ]255";

/// One pixel: three values of up to three digits, apart by spaces.
pub const PPM_PIXEL: &'static str = "(?<r>[0-9]{1,3})[ ]+(?<g>[0-9]{1,3})[ ]+(?<b>[0-9]{1,3})";

/// Why an image could not be read.
#[derive(Clone, Copy, Debug, PartialEq, Eq, Structural)]
pub enum PpmError {
    /// No header was found.
    MissingHeader,
    /// A size or a channel value does not fit a `usize`.
    BadNumber,
    /// The header's length does not end on a character of the text.
    MisplacedHeader,
    /// The header gives a width of zero, yet pixels follow.
    ZeroWidth,
}

/// An image as read: its declared size and its full rows of pixels.
pub struct PpmImage {
    pub width: usize,
    pub height: usize,
    pub rows: Vec<Vec<Rgb>>,
}

/// `b` is a non-empty run of ASCII digits.
pub open spec fn is_digits(b: Seq<u8>) -> bool {
    b.len() > 0 && forall|i: int| 0 <= i < b.len() ==> 48 <= #[trigger] b[i] <= 57
}

/// The value of the ASCII digits `b` in decimal.
pub open spec fn digits_value(b: Seq<u8>) -> nat
    decreases b.len(),
{
    if b.len() == 0 {
        0
    } else {
        digits_value(b.drop_last()) * 10 + (b.last() - 48) as nat
    }
}

/// The number that the ASCII digits `b` spell in decimal, where it fits a
/// `usize`.
pub open spec fn number_in(b: Seq<u8>) -> Option<usize> {
    if is_digits(b) && digits_value(b) <= usize::MAX {
        Some(digits_value(b) as usize)
    } else {
        None
    }
}

/// The number that the text `s` spells in decimal, where it fits a `usize`.
pub open spec fn number_of(s: Seq<char>) -> Option<usize> {
    number_in(encode_utf8(s))
}

/// The pixel that the groups of a match of `PPM_PIXEL` give.
pub open spec fn rgb_of(m: Seq<Seq<char>>) -> Option<Rgb> {
    if m.len() >= 4 && number_of(m[1]).is_some() && number_of(m[2]).is_some() && number_of(
        m[3],
    ).is_some() {
        Some((number_of(m[1]).unwrap(), number_of(m[2]).unwrap(), number_of(m[3]).unwrap()))
    } else {
        None
    }
}

/// What reading the text with UTF-8 bytes `bytes` gives: width, height and
/// the pixels in order. The pixels are searched for after the header's
/// length from the start of the text.
pub open spec fn ppm_read(bytes: Seq<u8>) -> Result<(usize, usize, Seq<Rgb>), PpmError> {
    let hdr = first_match(PPM_HEADER@, bytes);
    if hdr.is_none() || hdr.unwrap().len() < 3 {
        Err(PpmError::MissingHeader)
    } else {
        let g = hdr.unwrap();
        let skip = encode_utf8(g[0]).len() as usize;
        if number_of(g[1]).is_none() || number_of(g[2]).is_none() {
            Err(PpmError::BadNumber)
        } else if !is_char_boundary(bytes, skip as int) {
            Err(PpmError::MisplacedHeader)
        } else {
            let ms = all_matches(PPM_PIXEL@, bytes.subrange(skip as int, bytes.len() as int));
            let w = number_of(g[1]).unwrap();
            if exists|i: int| 0 <= i < ms.len() && (#[trigger] rgb_of(ms[i])).is_none() {
                Err(PpmError::BadNumber)
            } else if w == 0 && ms.len() > 0 {
                Err(PpmError::ZeroWidth)
            } else {
                Ok((w, number_of(g[2]).unwrap(), ms.map_values(|m: Seq<Seq<char>>| rgb_of(m).unwrap())))
            }
        }
    }
}

proof fn lemma_digits_grow(b: Seq<u8>, k: int)
    requires
        0 <= k <= b.len(),
        forall|i: int| 0 <= i < b.len() ==> 48 <= #[trigger] b[i] <= 57,
    ensures
        digits_value(b.take(k)) <= digits_value(b),
    decreases b.len(),
{
    if k < b.len() {
        let c = b.drop_last();
        assert forall|i: int| 0 <= i < c.len() implies 48 <= #[trigger] c[i] <= 57 by {
            assert(c[i] == b[i]);
        }
        lemma_digits_grow(c, k);
        assert(b.take(k) =~= c.take(k));
    } else {
        assert(b.take(k) =~= b);
    }
}

/// Reads ASCII digits as a decimal number; `None` where `b` holds anything
/// else or the value does not fit a `usize`.
pub fn parse_number(b: &[u8]) -> (r: Option<usize>)
    ensures
        r == number_in(b@),
{
    if b.len() == 0 {
        return None;
    }
    let mut acc: usize = 0;
    let mut i: usize = 0;
    assert(b@.take(0) =~= seq![]);
    while i < b.len()
        invariant
            i <= b@.len(),
            acc == digits_value(b@.take(i as int)),
            forall|j: int| 0 <= j < i ==> 48 <= #[trigger] b@[j] <= 57,
        decreases b.len() - i,
    {
        let c = b[i];
        if c < 48 || c > 57 {
            assert(!is_digits(b@));
            return None;
        }
        let d: usize = (c - 48) as usize;
        assert(b@.take(i as int + 1).drop_last() =~= b@.take(i as int));
        if acc > (usize::MAX - d) / 10 {
            assert(acc * 10 + d > usize::MAX) by (nonlinear_arith)
                requires
                    acc > (usize::MAX - d) / 10,
                    d <= 9,
            ;
            proof {
                if is_digits(b@) {
                    lemma_digits_grow(b@, i as int + 1);
                }
            }
            return None;
        }
        assert(acc * 10 + d <= usize::MAX) by (nonlinear_arith)
            requires
                acc <= (usize::MAX - d) / 10,
                d <= 9,
        ;
        acc = acc * 10 + d;
        i += 1;
    }
    assert(b@.take(i as int) =~= b@);
    Some(acc)
}

fn pixel_of(m: &Vec<String>) -> (r: Option<Rgb>)
    ensures
        r == rgb_of(m@.map_values(|s: String| s@)),
{
    let ghost groups = m@.map_values(|s: String| s@);
    if m.len() < 4 {
        return None;
    }
    let red = match parse_number(m[1].as_str().as_bytes()) {
        Some(v) => v,
        None => return None,
    };
    let green = match parse_number(m[2].as_str().as_bytes()) {
        Some(v) => v,
        None => return None,
    };
    let blue = match parse_number(m[3].as_str().as_bytes()) {
        Some(v) => v,
        None => return None,
    };
    Some((red, green, blue))
}

/// Reads a plain PPM image from its text. The size comes from the first
/// header; pixels are read after it, in order, and grouped into rows of
/// the width, where a last, partial row is left out.
#[verifier::loop_isolation(false)]
pub fn parse_ppm(text: &str) -> (r: Result<PpmImage, PpmError>)
    ensures
        r.is_ok() == ppm_read(text.spec_bytes()).is_ok(),
        r is Err ==> ppm_read(text.spec_bytes()) == Err::<(usize, usize, Seq<Rgb>), PpmError>(r->Err_0),
        r is Ok ==> ({
            let (w, h, px) = ppm_read(text.spec_bytes())->Ok_0;
            let img = r->Ok_0;
            &&& img.width == w
            &&& img.height == h
            &&& w > 0 ==> has_shape(img.rows@, w as nat, px.len() / (w as nat))
            &&& w == 0 ==> img.rows@.len() == 0
            &&& forall|i: int, j: int|
                0 <= i < img.rows@.len() && 0 <= j < w ==> img.rows@[i]@[j] == px[i * w + j]
        }),
{
    let header = match find_first(PPM_HEADER, text) {
        Some(g) => g,
        None => return Err(PpmError::MissingHeader),
    };
    if header.len() < 3 {
        return Err(PpmError::MissingHeader);
    }
    proof {
        let g = first_match(PPM_HEADER@, text.spec_bytes()).unwrap();
        assert(g[1] == header@[1]@);
        assert(g[2] == header@[2]@);
    }
    let width = match parse_number(header[1].as_str().as_bytes()) {
        Some(v) => v,
        None => return Err(PpmError::BadNumber),
    };
    let height = match parse_number(header[2].as_str().as_bytes()) {
        Some(v) => v,
        None => return Err(PpmError::BadNumber),
    };
    let whole = header[0].as_str();
    let skip = whole.len();
    proof {
        let g = first_match(PPM_HEADER@, text.spec_bytes()).unwrap();
        assert(g[0] == header@[0]@);
        assert(whole.spec_bytes() == encode_utf8(g[0]));
        vstd::utf8::encode_utf8_valid_utf8(text@);
    }
    if !text.is_char_boundary(skip) {
        proof {
            let g = first_match(PPM_HEADER@, text.spec_bytes()).unwrap();
            assert(number_of(g[1]).is_some());
            assert(number_of(g[2]).is_some());
        }
        return Err(PpmError::MisplacedHeader);
    }
    let (_, rest) = text.split_at(skip);
    let matches = find_all(PPM_PIXEL, rest);
    let ghost ms = all_matches(PPM_PIXEL@, text.spec_bytes().subrange(skip as int, text.spec_bytes().len() as int));
    assert(rest.spec_bytes() == text.spec_bytes().subrange(skip as int, text.spec_bytes().len() as int));
    let mut px: Vec<Rgb> = Vec::new();
    let mut i: usize = 0;
    while i < matches.len()
        invariant
            i <= matches@.len(),
            matches@.len() == ms.len(),
            forall|k: int|
                0 <= k < matches@.len() ==> (#[trigger] matches@[k]@).map_values(|s: String| s@) == ms[k],
            px@.len() == i,
            forall|k: int| 0 <= k < i ==> rgb_of(ms[k]) == Some(#[trigger] px@[k]),
        decreases matches.len() - i,
    {
        match pixel_of(&matches[i]) {
            Some(c) => px.push(c),
            None => {
                assert(rgb_of(ms[i as int]).is_none());
                return Err(PpmError::BadNumber);
            },
        }
        i += 1;
    }
    let ghost all = ms.map_values(|m: Seq<Seq<char>>| rgb_of(m).unwrap());
    assert forall|k: int| 0 <= k < ms.len() implies (#[trigger] rgb_of(ms[k])).is_some() by {
        assert(rgb_of(ms[k]) == Some(px@[k]));
    }
    assert(px@ =~= all);
    assert(ppm_read(text.spec_bytes()) == if width == 0 && ms.len() > 0 {
        Err::<(usize, usize, Seq<Rgb>), PpmError>(PpmError::ZeroWidth)
    } else {
        Ok((width, height, all))
    });
    if width == 0 {
        if px.len() > 0 {
            return Err(PpmError::ZeroWidth);
        }
        return Ok(PpmImage { width, height, rows: Vec::new() });
    }
    let rows = rows_of(&px, width);
    Ok(PpmImage { width, height, rows })
}

} // verus!
