use autoservice::icons::{
    data_url, extension, extracted_logo, find_iconsext_exe, ico_bytes_to_png_data_url, iconsext_args,
    largest_image, load_image_data_url, logo_exe_path, mime_for_path, sibling_logo_paths, ExtractedImage,
};
use autoservice::network::PathStyle;
use autoservice::programs::launch_program;
use autoservice::settings::defender_scan_commands;

#[test]
fn media_types_by_extension() {
    assert_eq!(mime_for_path("/a/logo.PNG"), "image/png");
    assert_eq!(mime_for_path("/a/logo.jpeg"), "image/jpeg");
    assert_eq!(mime_for_path("/a/logo.Jpg"), "image/jpeg");
    assert_eq!(mime_for_path("/a/app.ico"), "image/x-icon");
    assert_eq!(mime_for_path("/a/.png"), "application/octet-stream");
    assert_eq!(mime_for_path("/a.png/logo"), "application/octet-stream");
    assert_eq!(extension("/a/b.tar.gz"), Some("gz".to_string()));
    assert_eq!(extension("/a/b"), None);
}

#[test]
fn data_urls_encode_the_bytes() {
    assert_eq!(data_url("image/png", "QUJD"), "data:image/png;base64,QUJD");
    assert_eq!(load_image_data_url("x.png", b"ABC"), "data:image/png;base64,QUJD");
    assert_eq!(load_image_data_url("x.bin", b"hello"), "data:application/octet-stream;base64,aGVsbG8=");
    assert_eq!(load_image_data_url("x.ico", b""), "data:image/x-icon;base64,");
}

#[test]
fn broken_icons_are_reported() {
    let e = ico_bytes_to_png_data_url(b"not an icon").unwrap_err();
    assert!(e.starts_with("ICO decode failed: "));
    let none = extracted_logo(&Vec::new()).unwrap();
    assert!(none.is_none());
}

#[test]
fn largest_image_wins() {
    assert_eq!(largest_image(&vec![(16, 16), (48, 48), (32, 72), (48, 48)]), Some(1));
    assert_eq!(largest_image(&vec![(u32::MAX, u32::MAX), (1, 1)]), Some(0));
    assert_eq!(largest_image(&Vec::new()), None);
}

#[test]
fn logo_paths() {
    assert_eq!(find_iconsext_exe("/d"), "/d/resources/bin/iconsextract/iconsext.exe");
    assert_eq!(logo_exe_path("/d", "tools/a.exe", PathStyle::Posix), "/d/tools/a.exe");
    assert_eq!(logo_exe_path("/d", "/x/a.exe", PathStyle::Posix), "/x/a.exe");
    assert_eq!(
        sibling_logo_paths("/d/tools/app.v2.exe"),
        Some(("/d/tools/app.v2.ico".to_string(), "/d/tools/app.v2.png".to_string()))
    );
    assert_eq!(iconsext_args("a.exe", "/tmp/o"), vec!["/save", "a.exe", "/tmp/o", "-icons"]);
}

#[test]
fn program_and_defender_commands() {
    assert_eq!(launch_program("C:\\x.exe", false).unwrap_err(), "Executable not found: C:\\x.exe");
    let c = launch_program("C:\\a`b\"c.exe", true).unwrap();
    assert_eq!(c.program, "powershell.exe");
    assert_eq!(c.args[4], "Start-Process -FilePath \"C:\\a``b`\"c.exe\"");
    let (sig, scan) = defender_scan_commands("C:\\P\"D\\MpCmdRun.exe");
    assert_eq!(sig.args[4], "& 'C:\\P\\\"D\\MpCmdRun.exe' -SignatureUpdate");
    assert_eq!(scan.args[4], "& 'C:\\P\\\"D\\MpCmdRun.exe' -Scan -ScanType 1");
}

fn png_of_size(w: u32, h: u32) -> Vec<u8> {
    let img = image::RgbaImage::new(w, h);
    let mut out = Vec::new();
    image::DynamicImage::ImageRgba8(img)
        .write_to(&mut std::io::Cursor::new(&mut out), image::ImageFormat::Png)
        .unwrap();
    out
}

#[test]
fn largest_extracted_png_becomes_the_logo() {
    let small = png_of_size(2, 2);
    let big = png_of_size(4, 4);
    let big_too = png_of_size(8, 2);
    let images = vec![
        ExtractedImage { bytes: b"broken".to_vec(), is_ico: false },
        ExtractedImage { bytes: small.clone(), is_ico: false },
        ExtractedImage { bytes: big.clone(), is_ico: false },
        ExtractedImage { bytes: big_too, is_ico: false },
        ExtractedImage { bytes: b"bad icon".to_vec(), is_ico: true },
    ];
    let url = extracted_logo(&images).unwrap().unwrap();
    assert_eq!(url, load_image_data_url("x.png", &big));
    let only_bad = vec![ExtractedImage { bytes: b"broken".to_vec(), is_ico: false }];
    assert_eq!(extracted_logo(&only_bad).unwrap(), None);
}

fn ico_of_size(w: u32, h: u32) -> Vec<u8> {
    let img = image::RgbaImage::new(w, h);
    let mut out = Vec::new();
    image::DynamicImage::ImageRgba8(img)
        .write_to(&mut std::io::Cursor::new(&mut out), image::ImageFormat::Ico)
        .unwrap();
    out
}

#[test]
fn largest_icon_is_converted_when_no_png_decodes() {
    let small = ico_of_size(16, 16);
    let big = ico_of_size(32, 32);
    let images = vec![
        ExtractedImage { bytes: b"broken".to_vec(), is_ico: false },
        ExtractedImage { bytes: small, is_ico: true },
        ExtractedImage { bytes: big.clone(), is_ico: true },
    ];
    let url = extracted_logo(&images).unwrap().unwrap();
    assert_eq!(url, ico_bytes_to_png_data_url(&big).unwrap());
    assert!(url.starts_with("data:image/png;base64,"));
}
