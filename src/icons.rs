//! Logos for saved programs: images as data URLs, and the icon taken from
//! an executable or from the files beside it.

use crate::network::PathStyle;
use crate::paths::{file_name, join_path, joined_with, last_of, last_sep, parent_of, parent_path};
use crate::programs::{absolute_in, is_absolute_in};
use crate::text::{concat2, concat3};
use vstd::prelude::*;

verus! {

/// The standard Base64 encoding (with padding) of some bytes.
pub uninterp spec fn base64_of(bytes: Seq<u8>) -> Seq<char>;

/// The longest input handed to the encoder (1 GiB): its output length then
/// fits in `usize` on every platform.
pub const BASE64_INPUT_LIMIT: usize = 0x3fff_ffff;

/// Relies on `base64::Engine::encode` with the standard engine: the padded
/// Base64 text of the bytes. It panics only where the output length would
/// overflow `usize`, which the bound on the input rules out.
#[verifier::external_body]
fn encode_base64(bytes: &[u8]) -> (r: String)
    requires
        bytes@.len() <= BASE64_INPUT_LIMIT,
    ensures
        r@ == base64_of(bytes@),
{
    base64::Engine::encode(&base64::engine::general_purpose::STANDARD, bytes)
}

/// The width and height of the image that `image` decodes from `bytes`
/// (as an ICO file where `ico`, else as a PNG file), or none where decoding
/// fails.
pub uninterp spec fn decoded_size_of(bytes: Seq<u8>, ico: bool) -> Option<(u32, u32)>;

/// The PNG file that `image` writes of the image it decodes from `bytes`
/// (read as in `decoded_size_of`), where decoding and encoding succeed.
pub uninterp spec fn png_form_of(bytes: Seq<u8>, ico: bool) -> Option<Seq<u8>>;

/// Relies on `image::load_from_memory_with_format` and, on the decoded
/// image, `dimensions` and `DynamicImage::write_to` with the PNG format:
/// decodes an ICO file (`ico`) or a PNG file, giving its size and its PNG
/// encoding (or the encoder's error message), or the decoder's error
/// message. Both depend on the bytes alone.
#[verifier::external_body]
fn decode_image(bytes: &[u8], ico: bool) -> (r: Result<(u32, u32, Result<Vec<u8>, String>), String>)
    ensures
        match r {
            Ok((w, h, png)) => decoded_size_of(bytes@, ico) == Some((w, h)) && match png {
                Ok(p) => png_form_of(bytes@, ico) == Some(p@),
                Err(_) => png_form_of(bytes@, ico) is None,
            },
            Err(_) => decoded_size_of(bytes@, ico) is None,
        },
{
    let format = if ico { image::ImageFormat::Ico } else { image::ImageFormat::Png };
    let img = match image::load_from_memory_with_format(bytes, format) {
        Ok(img) => img,
        Err(e) => return Err(e.to_string()),
    };
    let (w, h) = image::GenericImageView::dimensions(&img);
    let mut buffer: Vec<u8> = Vec::new();
    match img.write_to(&mut std::io::Cursor::new(&mut buffer), image::ImageFormat::Png) {
        Ok(()) => Ok((w, h, Ok(buffer))),
        Err(e) => Ok((w, h, Err(e.to_string()))),
    }
}

/// A data URL: `data:<mime>;base64,<text>`.
pub open spec fn data_url_of(mime: Seq<char>, b64: Seq<char>) -> Seq<char> {
    "data:"@ + mime + ";base64,"@ + b64
}

/// Writes a data URL.
pub fn data_url(mime: &str, b64: &str) -> (r: String)
    ensures
        r@ == data_url_of(mime@, b64@),
{
    let mut s = concat3("data:", mime, ";base64,");
    s.append(b64);
    s
}

/// Whether `x` is the lowercase ASCII letter or character `lower`, in
/// either case.
pub open spec fn same_ignoring_case(x: char, lower: char) -> bool {
    x == lower || ('a' <= lower && lower <= 'z' && (x as u32) + 32 == (lower as u32))
}

/// Whether `s` is `lower` (written in lower case) in any ASCII case.
pub open spec fn matches_ignoring_case(s: Seq<char>, lower: Seq<char>) -> bool {
    s.len() == lower.len() && forall|i: int| 0 <= i < s.len() ==> same_ignoring_case(s[i], lower[i])
}

fn eq_ignoring_case(s: &str, lower: &str) -> (r: bool)
    ensures
        r == matches_ignoring_case(s@, lower@),
{
    let n = s.unicode_len();
    if n != lower.unicode_len() {
        return false;
    }
    let mut i: usize = 0;
    while i < n
        invariant
            n == s@.len() == lower@.len(),
            i <= n,
            forall|k: int| 0 <= k < i ==> same_ignoring_case(s@[k], lower@[k]),
        decreases n - i,
    {
        let x = s.get_char(i);
        let l = lower.get_char(i);
        if !(x == l || ('a' <= l && l <= 'z' && (x as u32) + 32 == (l as u32))) {
            return false;
        }
        i = i + 1;
    }
    true
}

/// The extension of a path's last component: what follows its last `.`,
/// unless that `.` opens the component.
pub open spec fn extension_of(p: Seq<char>) -> Option<Seq<char>> {
    let s = last_sep(p);
    let d = last_of(p, '.', '.');
    if d > s + 1 {
        Some(p.subrange(d + 1, p.len() as int))
    } else {
        None
    }
}

/// The extension of a path's last component (see `extension_of`).
pub fn extension(p: &str) -> (r: Option<String>)
    ensures
        match r {
            Some(e) => extension_of(p@) == Some(e@),
            None => extension_of(p@) is None,
        },
{
    let n = p.unicode_len();
    assert(p@.subrange(0, n as int) =~= p@);
    let s = crate::paths::find_last_in(p, n, '/', '\\');
    let d = crate::paths::find_last_in(p, n, '.', '.');
    let start: usize = match s {
        Some(k) => k + 1,
        None => 0,
    };
    match d {
        Some(k) => if k > start {
            Some(String::from_str(p.substring_char(k + 1, n)))
        } else {
            None
        },
        None => None,
    }
}

/// The media type of an image file, by its extension in any case: PNG,
/// JPEG (`jpg` or `jpeg`), icon, or unknown bytes.
pub open spec fn mime_of(p: Seq<char>) -> Seq<char> {
    match extension_of(p) {
        Some(e) => if matches_ignoring_case(e, "png"@) {
            "image/png"@
        } else if matches_ignoring_case(e, "jpg"@) || matches_ignoring_case(e, "jpeg"@) {
            "image/jpeg"@
        } else if matches_ignoring_case(e, "ico"@) {
            "image/x-icon"@
        } else {
            "application/octet-stream"@
        },
        None => "application/octet-stream"@,
    }
}

/// The media type of an image file (see `mime_of`).
pub fn mime_for_path(p: &str) -> (r: &'static str)
    ensures
        r@ == mime_of(p@),
{
    match extension(p) {
        Some(e) => if eq_ignoring_case(e.as_str(), "png") {
            "image/png"
        } else if eq_ignoring_case(e.as_str(), "jpg") || eq_ignoring_case(e.as_str(), "jpeg") {
            "image/jpeg"
        } else if eq_ignoring_case(e.as_str(), "ico") {
            "image/x-icon"
        } else {
            "application/octet-stream"
        },
        None => "application/octet-stream",
    }
}

/// The data URL of an image file read from `path`.
pub fn load_image_data_url(path: &str, bytes: &[u8]) -> (r: String)
    requires
        bytes@.len() <= BASE64_INPUT_LIMIT,
    ensures
        r@ == data_url_of(mime_of(path@), base64_of(bytes@)),
{
    let mime = mime_for_path(path);
    let b64 = encode_base64(bytes);
    data_url(mime, b64.as_str())
}

/// The PNG data URL of an icon file: decoded as ICO and written as PNG,
/// where both succeed and the PNG fits the Base64 input limit.
pub open spec fn ico_conversion(bytes: Seq<u8>) -> Option<Seq<char>> {
    if decoded_size_of(bytes, true) is Some && png_form_of(bytes, true) is Some
        && png_form_of(bytes, true)->0.len() <= BASE64_INPUT_LIMIT {
        Some(data_url_of("image/png"@, base64_of(png_form_of(bytes, true)->0)))
    } else {
        None
    }
}

/// The PNG data URL of an icon file: decoded as ICO, encoded as PNG; an
/// error names the step that failed.
pub fn ico_bytes_to_png_data_url(ico_bytes: &[u8]) -> (r: Result<String, String>)
    ensures
        match ico_conversion(ico_bytes@) {
            Some(u) => r matches Ok(s) && s@ == u,
            None => r is Err,
        },
{
    let png = match decode_image(ico_bytes, true) {
        Ok((_, _, Ok(p))) => p,
        Ok((_, _, Err(e))) => {
            return Err(concat2("PNG encode failed: ", e.as_str()));
        },
        Err(e) => {
            return Err(concat2("ICO decode failed: ", e.as_str()));
        },
    };
    if png.len() > BASE64_INPUT_LIMIT {
        return Err(String::from_str("PNG encode failed: image too large"));
    }
    let b64 = encode_base64(png.as_slice());
    Ok(data_url("image/png", b64.as_str()))
}

/// The area of an image of the given size.
pub open spec fn area(d: (u32, u32)) -> int {
    d.0 as int * d.1 as int
}

fn area_of(d: (u32, u32)) -> (r: u64)
    ensures
        r as int == area(d),
{
    let w = d.0;
    let h = d.1;
    proof {
        assert((w as int) * (h as int) <= 0xffff_ffff * 0xffff_ffff) by (nonlinear_arith)
            requires
                0 <= w <= 0xffff_ffff,
                0 <= h <= 0xffff_ffff,
        ;
    }
    w as u64 * h as u64
}

/// Picks the image with the largest area, the first of equal ones.
pub fn largest_image(dims: &Vec<(u32, u32)>) -> (r: Option<usize>)
    ensures
        r is None <==> dims@.len() == 0,
        r matches Some(i) ==> i < dims@.len() && (forall|j: int|
            0 <= j < dims@.len() ==> area(dims@[j]) <= area(dims@[i as int])) && (forall|j: int|
            0 <= j < i ==> area(dims@[j]) < area(dims@[i as int])),
{
    if dims.len() == 0 {
        return None;
    }
    let mut best: usize = 0;
    let mut best_area: u64 = area_of(dims[0]);
    let mut k: usize = 1;
    while k < dims.len()
        invariant
            0 < dims@.len(),
            best < k <= dims@.len(),
            best_area as int == area(dims@[best as int]),
            forall|j: int| 0 <= j < k ==> area(dims@[j]) <= best_area,
            forall|j: int| 0 <= j < best ==> area(dims@[j]) < best_area,
        decreases dims@.len() - k,
    {
        let a = area_of(dims[k]);
        if a > best_area {
            best = k;
            best_area = a;
        }
        k = k + 1;
    }
    Some(best)
}

/// An image file that the icon extractor wrote.
#[derive(Clone, Debug)]
pub struct ExtractedImage {
    pub bytes: Vec<u8>,
    /// An `.ico` file (else a `.png` file).
    pub is_ico: bool,
}

/// The size of an extracted image, where it decodes.
pub open spec fn size_of_image(x: ExtractedImage) -> Option<(u32, u32)> {
    decoded_size_of(x.bytes@, x.is_ico)
}

/// Whether `images[j]` is of the given kind (icon or PNG) and decodes.
pub open spec fn usable(images: Seq<ExtractedImage>, ico: bool, j: int) -> bool {
    0 <= j < images.len() && images[j].is_ico == ico && size_of_image(images[j]) is Some
}

/// Whether `images[i]` is the first of the largest decodable images of its
/// kind.
pub open spec fn best_of_kind(images: Seq<ExtractedImage>, ico: bool, i: int) -> bool {
    usable(images, ico, i) && forall|j: int|
        #[trigger] usable(images, ico, j) ==> area(size_of_image(images[j])->0) <= area(
            size_of_image(images[i])->0,
        ) && (j < i ==> area(size_of_image(images[j])->0) < area(size_of_image(images[i])->0))
}

/// The logo among the extractor's images: the first of the largest PNGs as
/// it is; where no PNG decodes, the first of the largest icons converted to
/// PNG (an icon that does not convert is an error); none where no image
/// decodes.
pub fn extracted_logo(images: &Vec<ExtractedImage>) -> (r: Result<Option<String>, String>)
    requires
        forall|i: int| 0 <= i < images@.len() ==> images@[i].bytes@.len() <= BASE64_INPUT_LIMIT,
    ensures
        forall|i: int|
            #[trigger] best_of_kind(images@, false, i) ==> (r matches Ok(Some(s)) && s@ == data_url_of(
                "image/png"@,
                base64_of(images@[i].bytes@),
            )),
        (exists|j: int| #[trigger] usable(images@, false, j)) ==> (r matches Ok(Some(_))),
        (forall|j: int| !#[trigger] usable(images@, false, j)) && (forall|j: int|
            !#[trigger] usable(images@, true, j)) ==> r == Ok::<Option<String>, String>(None),
        (forall|j: int| !#[trigger] usable(images@, false, j)) ==> forall|i: int|
            #[trigger] best_of_kind(images@, true, i) ==> match ico_conversion(images@[i].bytes@) {
                Some(u) => r matches Ok(Some(s)) && s@ == u,
                None => r is Err,
            },
        r matches Ok(Some(s)) ==> exists|png: Seq<u8>| s@ == data_url_of("image/png"@, base64_of(png)),
{
    let mut png_dims: Vec<(u32, u32)> = Vec::new();
    let mut png_index: Vec<usize> = Vec::new();
    let mut ico_dims: Vec<(u32, u32)> = Vec::new();
    let mut ico_index: Vec<usize> = Vec::new();
    let mut i: usize = 0;
    while i < images.len()
        invariant
            i <= images@.len(),
            png_dims@.len() == png_index@.len(),
            ico_dims@.len() == ico_index@.len(),
            forall|k: int|
                0 <= k < png_index@.len() ==> png_index@[k] < i && usable(images@, false, #[trigger] png_index@[k] as int)
                    && size_of_image(images@[png_index@[k] as int]) == Some(png_dims@[k]),
            forall|k: int|
                0 <= k < ico_index@.len() ==> ico_index@[k] < i && usable(images@, true, #[trigger] ico_index@[k] as int)
                    && size_of_image(images@[ico_index@[k] as int]) == Some(ico_dims@[k]),
            forall|k: int, l: int| 0 <= k < l < png_index@.len() ==> png_index@[k] < png_index@[l],
            forall|k: int, l: int| 0 <= k < l < ico_index@.len() ==> ico_index@[k] < ico_index@[l],
            forall|j: int|
                0 <= j < i && #[trigger] usable(images@, false, j) ==> exists|k: int|
                    0 <= k < png_index@.len() && png_index@[k] == j,
            forall|j: int|
                0 <= j < i && #[trigger] usable(images@, true, j) ==> exists|k: int|
                    0 <= k < ico_index@.len() && ico_index@[k] == j,
        decreases images@.len() - i,
    {
        let is_ico = images[i].is_ico;
        let ghost old_png = png_index@;
        let ghost old_ico = ico_index@;
        let decoded = decode_image(images[i].bytes.as_slice(), is_ico);
        match decoded {
            Ok((w, h, _)) => {
                if is_ico {
                    ico_dims.push((w, h));
                    ico_index.push(i);
                } else {
                    png_dims.push((w, h));
                    png_index.push(i);
                }
            },
            Err(_) => {},
        }
        proof {
            assert forall|j: int|
                0 <= j < i + 1 && #[trigger] usable(images@, false, j) implies exists|k: int|
                    0 <= k < png_index@.len() && png_index@[k] == j by {
                if j < i {
                    let k = choose|k: int| 0 <= k < old_png.len() && old_png[k] == j;
                    assert(png_index@[k] == j);
                } else {
                    assert(png_index@[png_index@.len() - 1] == i);
                }
            }
            assert forall|j: int|
                0 <= j < i + 1 && #[trigger] usable(images@, true, j) implies exists|k: int|
                    0 <= k < ico_index@.len() && ico_index@[k] == j by {
                if j < i {
                    let k = choose|k: int| 0 <= k < old_ico.len() && old_ico[k] == j;
                    assert(ico_index@[k] == j);
                } else {
                    assert(ico_index@[ico_index@.len() - 1] == i);
                }
            }
        }
        i = i + 1;
    }
    if let Some(k) = largest_image(&png_dims) {
        let j = png_index[k];
        proof {
            assert forall|q: int| #[trigger] usable(images@, false, q) implies area(
                size_of_image(images@[q])->0,
            ) <= area(size_of_image(images@[j as int])->0) && (q < j ==> area(
                size_of_image(images@[q])->0,
            ) < area(size_of_image(images@[j as int])->0)) by {
                let kq = choose|kq: int| 0 <= kq < png_index@.len() && png_index@[kq] == q;
                assert(usable(images@, false, png_index@[kq] as int));
                if q < j && kq > k {
                    assert(png_index@[k as int] < png_index@[kq]);
                }
            }
            assert(best_of_kind(images@, false, j as int));
            assert forall|q: int| #[trigger] best_of_kind(images@, false, q) implies q == j by {
                if q < j {
                    assert(usable(images@, false, q));
                } else if q > j {
                    assert(usable(images@, false, j as int));
                }
            }
        }
        let b64 = encode_base64(images[j].bytes.as_slice());
        return Ok(Some(data_url("image/png", b64.as_str())));
    }
    proof {
        assert forall|q: int| !#[trigger] usable(images@, false, q) by {
            if usable(images@, false, q) {
                let kq = choose|kq: int| 0 <= kq < png_index@.len() && png_index@[kq] == q;
            }
        }
    }
    if let Some(k) = largest_image(&ico_dims) {
        let j = ico_index[k];
        proof {
            assert forall|q: int| #[trigger] usable(images@, true, q) implies area(
                size_of_image(images@[q])->0,
            ) <= area(size_of_image(images@[j as int])->0) && (q < j ==> area(
                size_of_image(images@[q])->0,
            ) < area(size_of_image(images@[j as int])->0)) by {
                let kq = choose|kq: int| 0 <= kq < ico_index@.len() && ico_index@[kq] == q;
                assert(usable(images@, true, ico_index@[kq] as int));
                if q < j && kq > k {
                    assert(ico_index@[k as int] < ico_index@[kq]);
                }
            }
            assert(best_of_kind(images@, true, j as int));
            assert forall|q: int| #[trigger] best_of_kind(images@, true, q) implies q == j by {
                if q < j {
                    assert(usable(images@, true, q));
                } else if q > j {
                    assert(usable(images@, true, j as int));
                }
            }
        }
        return match ico_bytes_to_png_data_url(images[j].bytes.as_slice()) {
            Ok(url) => Ok(Some(url)),
            Err(e) => Err(e),
        };
    }
    proof {
        assert forall|q: int| !#[trigger] usable(images@, true, q) by {
            if usable(images@, true, q) {
                let kq = choose|kq: int| 0 <= kq < ico_index@.len() && ico_index@[kq] == q;
            }
        }
    }
    Ok(None)
}

/// Where the icon extractor is looked for:
/// `<data>/resources/bin/iconsextract/iconsext.exe`.
pub fn find_iconsext_exe(data_root: &str) -> (r: String)
    ensures
        r@ == joined_with(
            joined_with(
                joined_with(joined_with(data_root@, "resources"@, '/'), "bin"@, '/'),
                "iconsextract"@,
                '/',
            ),
            "iconsext.exe"@,
            '/',
        ),
{
    let (_reports, _programs, _settings, resources) = crate::paths::subdirs(data_root);
    let bin = join_path(resources.as_str(), "bin");
    let dir = join_path(bin.as_str(), "iconsextract");
    join_path(dir.as_str(), "iconsext.exe")
}

/// The executable whose logo is wanted: the path itself where absolute,
/// else under the data root.
pub fn logo_exe_path(data_root: &str, exe_path: &str, style: PathStyle) -> (r: String)
    ensures
        r@ == (if absolute_in(exe_path@, style) {
            exe_path@
        } else {
            joined_with(data_root@, exe_path@, '/')
        }),
{
    if is_absolute_in(exe_path, style) {
        String::from_str(exe_path)
    } else {
        join_path(data_root, exe_path)
    }
}

/// The stem of a path's last component: the component without its
/// extension.
pub open spec fn stem_of(name: Seq<char>) -> Seq<char> {
    let d = last_of(name, '.', '.');
    if d > 0 {
        name.subrange(0, d)
    } else {
        name
    }
}

/// The icon and the image beside an executable that may serve as its logo:
/// `<stem>.ico` and `<stem>.png` in its folder, where it has one.
pub fn sibling_logo_paths(exe: &str) -> (r: Option<(String, String)>)
    ensures
        match r {
            Some((ico, png)) => parent_of(exe@) is Some && file_name_of_some(exe@) && ico@
                == joined_with(parent_of(exe@)->0, stem_of(crate::paths::file_name_of(exe@)->0) + ".ico"@, '/')
                && png@ == joined_with(
                parent_of(exe@)->0,
                stem_of(crate::paths::file_name_of(exe@)->0) + ".png"@,
                '/',
            ),
            None => parent_of(exe@) is None || !file_name_of_some(exe@),
        },
{
    let parent = match parent_path(exe) {
        Some(p) => p,
        None => {
            return None;
        },
    };
    let name = match file_name(exe) {
        Some(n) => n,
        None => {
            return None;
        },
    };
    let n = name.unicode_len();
    assert(name@.subrange(0, n as int) =~= name@);
    let stem = match crate::paths::find_last_in(name.as_str(), n, '.', '.') {
        Some(d) => if d > 0 {
            String::from_str(name.as_str().substring_char(0, d))
        } else {
            String::from_str(name.as_str())
        },
        None => String::from_str(name.as_str()),
    };
    let ico_name = concat2(stem.as_str(), ".ico");
    let png_name = concat2(stem.as_str(), ".png");
    Some((join_path(parent.as_str(), ico_name.as_str()), join_path(parent.as_str(), png_name.as_str())))
}

/// Whether a path has a last component.
pub open spec fn file_name_of_some(p: Seq<char>) -> bool {
    crate::paths::file_name_of(p) is Some
}

/// The arguments that make the icon extractor save the icons of `target`
/// into `out_dir`.
pub fn iconsext_args(target: &str, out_dir: &str) -> (r: Vec<String>)
    ensures
        r@.len() == 4,
        r@[0]@ == "/save"@,
        r@[1]@ == target@,
        r@[2]@ == out_dir@,
        r@[3]@ == "-icons"@,
{
    let mut v: Vec<String> = Vec::new();
    v.push(String::from_str("/save"));
    v.push(String::from_str(target));
    v.push(String::from_str(out_dir));
    v.push(String::from_str("-icons"));
    v
}

} // verus!
