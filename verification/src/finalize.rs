use vstd::prelude::*;
use vstd::string::StrSliceExecFns;
use vstd::string::StringSliceAdditionalSpecFns;

use crate::errors::FinalizeError;
use crate::request::FileType;

verus! {

/// The bytes the extension-sniffing rules read.
pub const SLASH_BYTE: u8 = 0x2f;

pub const DOT_BYTE: u8 = 0x2e;

/// Opaque carrier for a decoded image; only its reported dimensions are
/// read here, everything else stays with the image library.
#[verifier::external_type_specification]
#[verifier::external_body]
pub struct ExDynamicImage(image::DynamicImage);

/// Relies on `image::GenericImageView::dimensions` for `DynamicImage`:
/// the decoded image's width and height in pixels.
#[verifier::external_body]
fn image_dimensions(img: &image::DynamicImage) -> (r: (u32, u32)) {
    image::GenericImageView::dimensions(img)
}

/// Relies on `image::DynamicImage::crop_imm`: a pixel-exact copy of the
/// rectangle `(x, y, w, h)`. The bounds are validated before the call,
/// so the library's silent clamping never takes effect.
#[verifier::external_body]
fn crop_dynamic(img: &image::DynamicImage, x: u32, y: u32, w: u32, h: u32) -> (r:
    image::DynamicImage) {
    img.crop_imm(x, y, w, h)
}

/// The crop-validation rule: extents strictly positive, `x + w` and
/// `y + h` representable in 32 bits, origin inside the image, and
/// origin plus extent not past the image's edge. No silent clamping:
/// any violation is an error.
pub open spec fn crop_check_spec(
    img_w: u32,
    img_h: u32,
    x: u32,
    y: u32,
    w: u32,
    h: u32,
) -> Result<(), FinalizeError> {
    if w == 0 || h == 0 {
        Err(FinalizeError::EmptyCrop)
    } else if x + w > u32::MAX || y + h > u32::MAX {
        Err(FinalizeError::CropOverflow)
    } else if x >= img_w || y >= img_h || x + w > img_w || y + h > img_h {
        Err(
            FinalizeError::CropOutOfBounds {
                image_width: img_w,
                image_height: img_h,
                x,
                y,
                width: w,
                height: h,
            },
        )
    } else {
        Ok(())
    }
}

/// Validate a crop rectangle against image dimensions.
pub fn check_crop_bounds(img_w: u32, img_h: u32, x: u32, y: u32, w: u32, h: u32) -> (r: Result<
    (),
    FinalizeError,
>)
    ensures
        r == crop_check_spec(img_w, img_h, x, y, w, h),
{
    if w == 0 || h == 0 {
        return Err(FinalizeError::EmptyCrop);
    }
    let x2: u64 = x as u64 + w as u64;
    let y2: u64 = y as u64 + h as u64;
    if x2 > u32::MAX as u64 || y2 > u32::MAX as u64 {
        return Err(FinalizeError::CropOverflow);
    }
    if x >= img_w || y >= img_h || x2 > img_w as u64 || y2 > img_h as u64 {
        return Err(
            FinalizeError::CropOutOfBounds {
                image_width: img_w,
                image_height: img_h,
                x,
                y,
                width: w,
                height: h,
            },
        );
    }
    Ok(())
}

/// Read the crop rectangle out of the command line's list of integers:
/// exactly four are expected, in the order `x y w h`.
pub fn parse_crop_px(values: &Vec<u32>) -> (r: Result<[u32; 4], FinalizeError>)
    ensures
        values@.len() == 4 ==> (r matches Ok(a) && a@ == values@),
        values@.len() != 4 ==> r == Err::<[u32; 4], FinalizeError>(FinalizeError::BadCropSpec),
{
    if values.len() != 4 {
        return Err(FinalizeError::BadCropSpec);
    }
    let a: [u32; 4] = [values[0], values[1], values[2], values[3]];
    proof {
        assert(a@ =~= values@);
    }
    Ok(a)
}

/// Validate a crop against the image's reported dimensions and apply it.
///
/// An empty extent and a 32-bit overflow are rejected exactly when they
/// occur, whatever the image; an out-of-bounds rejection carries the
/// reported dimensions it was measured against, together with the
/// rejected rectangle.
pub fn crop_image_px(image: &image::DynamicImage, x: u32, y: u32, w: u32, h: u32) -> (r: Result<
    image::DynamicImage,
    FinalizeError,
>)
    ensures
        r == Err::<image::DynamicImage, FinalizeError>(FinalizeError::EmptyCrop) <==> w == 0 || h
            == 0,
        r == Err::<image::DynamicImage, FinalizeError>(FinalizeError::CropOverflow) <==> (w > 0 && h
            > 0 && (x + w > u32::MAX || y + h > u32::MAX)),
        r matches Err(e) ==> !(e is BadCropSpec),
        r matches Err(FinalizeError::CropOutOfBounds {
            image_width,
            image_height,
            x: ex,
            y: ey,
            width: ew,
            height: eh,
        }) ==> ex == x && ey == y && ew == w && eh == h && (x >= image_width || y >= image_height
            || x + w > image_width || y + h > image_height),
{
    let (img_w, img_h) = image_dimensions(image);
    match check_crop_bounds(img_w, img_h, x, y, w, h) {
        Err(e) => Err(e),
        Ok(()) => Ok(crop_dynamic(image, x, y, w, h)),
    }
}

/// Index of the last occurrence of `b` in `s`, or `-1` when there is
/// none.
pub open spec fn last_index_of(s: Seq<u8>, b: u8) -> int
    decreases s.len(),
{
    if s.len() == 0 {
        -1
    } else if s.last() == b {
        s.len() - 1
    } else {
        last_index_of(s.drop_last(), b)
    }
}

/// ASCII lowercasing of one byte.
pub open spec fn lower_byte(b: u8) -> u8 {
    if 0x41 <= b <= 0x5a {
        (b + 0x20) as u8
    } else {
        b
    }
}

/// The extension of a path: what follows the last dot of the last path
/// component, empty when there is no dot or the component starts with
/// its only dot (a hidden file has no extension).
pub open spec fn extension_bytes(path: Seq<u8>) -> Seq<u8> {
    let name = path.subrange(last_index_of(path, SLASH_BYTE) + 1, path.len() as int);
    let d = last_index_of(name, DOT_BYTE);
    if d <= 0 {
        Seq::empty()
    } else {
        name.subrange(d + 1, name.len() as int)
    }
}

/// The extension, ASCII-lowercased: extension sniffing is
/// case-insensitive.
pub open spec fn lowered_extension(path: Seq<u8>) -> Seq<u8> {
    extension_bytes(path).map_values(|b: u8| lower_byte(b))
}

/// The file type a finalize destination is written as, sniffed from the
/// path's extension: `jpg`/`jpeg` mean JPEG, `png` means PNG, `ppm`/`pnm`
/// mean PPM, and anything else defaults to PNG.
pub open spec fn sniffed_filetype(path: Seq<u8>) -> FileType {
    let e = lowered_extension(path);
    if e =~= seq![0x6au8, 0x70u8, 0x67u8] || e =~= seq![0x6au8, 0x70u8, 0x65u8, 0x67u8] {
        FileType::Jpeg
    } else if e =~= seq![0x70u8, 0x6eu8, 0x67u8] {
        FileType::Png
    } else if e =~= seq![0x70u8, 0x70u8, 0x6du8] || e =~= seq![0x70u8, 0x6eu8, 0x6du8] {
        FileType::Ppm
    } else {
        FileType::Png
    }
}

proof fn lemma_last_index_at(s: Seq<u8>, b: u8, i: int)
    requires
        0 <= i < s.len(),
        s[i] == b,
        forall|m: int| i < m < s.len() ==> s[m] != b,
    ensures
        last_index_of(s, b) == i,
    decreases s.len(),
{
    if i < s.len() - 1 {
        lemma_last_index_at(s.drop_last(), b, i);
    }
}

proof fn lemma_last_index_none(s: Seq<u8>, b: u8)
    requires
        forall|m: int| 0 <= m < s.len() ==> s[m] != b,
    ensures
        last_index_of(s, b) == -1,
    decreases s.len(),
{
    if s.len() > 0 {
        lemma_last_index_none(s.drop_last(), b);
    }
}

/// Find the last occurrence of `b` in `v[lo..hi]`, as an absolute index.
fn find_last_range(v: &Vec<u8>, lo: usize, hi: usize, b: u8) -> (r: Option<usize>)
    requires
        lo <= hi <= v@.len(),
    ensures
        ({
            let sub = v@.subrange(lo as int, hi as int);
            match r {
                Some(i) => lo <= i < hi && last_index_of(sub, b) == i - lo,
                None => last_index_of(sub, b) == -1,
            }
        }),
{
    let ghost sub = v@.subrange(lo as int, hi as int);
    let mut found: bool = false;
    let mut idx: usize = lo;
    let mut j: usize = lo;
    while j < hi
        invariant
            lo <= j <= hi <= v@.len(),
            sub == v@.subrange(lo as int, hi as int),
            found ==> lo <= idx < j && v@[idx as int] == b,
            found ==> forall|m: int| idx < m < j ==> v@[m] != b,
            !found ==> forall|m: int| lo <= m < j ==> v@[m] != b,
        decreases hi - j,
    {
        if v[j] == b {
            found = true;
            idx = j;
        }
        j += 1;
    }
    if found {
        proof {
            lemma_last_index_at(sub, b, idx - lo);
        }
        Some(idx)
    } else {
        proof {
            lemma_last_index_none(sub, b);
        }
        None
    }
}

/// Sniff the output file type from a destination path, as the finalize
/// pass does: case-insensitive extension matching with PNG as the
/// default.
#[verifier::rlimit(100)]
pub fn sniff_filetype(path: &str) -> (r: FileType)
    ensures
        r == sniffed_filetype(path.spec_bytes()),
{
    let v = path.as_bytes_vec();
    let n = v.len();
    proof {
        assert(v@.subrange(0, n as int) =~= v@);
    }
    let name_lo: usize = match find_last_range(&v, 0, n, SLASH_BYTE) {
        Some(i) => i + 1,
        None => 0,
    };
    let ghost name = v@.subrange(last_index_of(v@, SLASH_BYTE) + 1, v@.len() as int);
    proof {
        assert(name =~= v@.subrange(name_lo as int, n as int));
    }
    let dot = find_last_range(&v, name_lo, n, DOT_BYTE);
    let ext_lo: usize = match dot {
        Some(i) if i > name_lo => i + 1,
        _ => n,
    };
    let ghost ext = extension_bytes(v@);
    proof {
        assert(ext =~= v@.subrange(ext_lo as int, n as int));
    }
    let mut lowered: Vec<u8> = Vec::new();
    let mut j: usize = ext_lo;
    while j < n
        invariant
            ext_lo <= j <= n == v@.len(),
            ext =~= v@.subrange(ext_lo as int, n as int),
            lowered@.len() == j - ext_lo,
            forall|i: int| 0 <= i < lowered@.len() ==> lowered@[i] == lower_byte(
                #[trigger] v@[ext_lo + i],
            ),
        decreases n - j,
    {
        let c = v[j];
        if 0x41 <= c && c <= 0x5a {
            lowered.push(c + 0x20);
        } else {
            lowered.push(c);
        }
        j += 1;
    }
    proof {
        let le = lowered_extension(v@);
        assert(le.len() == ext.len());
        assert forall|i: int| 0 <= i < lowered@.len() implies lowered@[i] == le[i] by {
            assert(le[i] == lower_byte(ext[i]));
            assert(ext[i] == v@[ext_lo + i]);
        }
        assert(lowered@ =~= le);
    }
    let e = &lowered;
    let len = e.len();
    if len == 3 && e[0] == 0x6a && e[1] == 0x70 && e[2] == 0x67 {
        FileType::Jpeg
    } else if len == 4 && e[0] == 0x6a && e[1] == 0x70 && e[2] == 0x65 && e[3] == 0x67 {
        FileType::Jpeg
    } else if len == 3 && e[0] == 0x70 && e[1] == 0x6e && e[2] == 0x67 {
        FileType::Png
    } else if len == 3 && e[0] == 0x70 && e[1] == 0x70 && e[2] == 0x6d {
        FileType::Ppm
    } else if len == 3 && e[0] == 0x70 && e[1] == 0x6e && e[2] == 0x6d {
        FileType::Ppm
    } else {
        proof {
            let le = lowered_extension(v@);
            assert(!(le =~= seq![0x6au8, 0x70u8, 0x67u8]));
            assert(!(le =~= seq![0x6au8, 0x70u8, 0x65u8, 0x67u8]));
            assert(!(le =~= seq![0x70u8, 0x6eu8, 0x67u8]));
            assert(!(le =~= seq![0x70u8, 0x70u8, 0x6du8]));
            assert(!(le =~= seq![0x70u8, 0x6eu8, 0x6du8]));
        }
        FileType::Png
    }
}

} // verus!
