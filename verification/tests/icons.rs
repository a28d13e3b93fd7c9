use gingify::engine::icons::{
    base64_encode, extract_icon, icon_data_url, png_data_url, to_rgba, tray_icon, tray_icon_error,
    DecodeFailure, IconAction, IconCache, IconExtraction, IconPhase, IconReply, IconSource,
};

fn value(c: u8) -> u32 {
    b"ABCDEFGHIJKLMNOPQRSTUVWXYZabcdefghijklmnopqrstuvwxyz0123456789+/"
        .iter()
        .position(|t| *t == c)
        .unwrap() as u32
}

fn decode(text: &str) -> Vec<u8> {
    let mut out = Vec::new();
    for group in text.as_bytes().chunks(4) {
        let pad = group.iter().filter(|c| **c == b'=').count();
        let mut n: u32 = 0;
        for c in group {
            n = n * 64 + if *c == b'=' { 0 } else { value(*c) };
        }
        let bytes = [(n >> 16) as u8, (n >> 8) as u8, n as u8];
        out.extend_from_slice(&bytes[..3 - pad]);
    }
    out
}

fn pixels(alpha: u8) -> Vec<u8> {
    (0..256u32).flat_map(|i| [i as u8, 1, 2, alpha]).collect()
}

#[test]
fn base64_matches_the_known_values() {
    assert_eq!(base64_encode(&b"".to_vec()), "");
    assert_eq!(base64_encode(&b"f".to_vec()), "Zg==");
    assert_eq!(base64_encode(&b"fo".to_vec()), "Zm8=");
    assert_eq!(base64_encode(&b"foo".to_vec()), "Zm9v");
    assert_eq!(base64_encode(&b"foobar".to_vec()), "Zm9vYmFy");
    assert_eq!(base64_encode(&vec![0xfb, 0xff, 0xbf]), "+/+/");
}

#[test]
fn base64_gives_every_byte_back() {
    let all: Vec<u8> = (0..=255).collect();
    assert_eq!(decode(&base64_encode(&all)), all);
}

#[test]
fn pixels_change_their_order() {
    assert_eq!(to_rgba(&vec![1, 2, 3, 4, 5, 6, 7, 0]), vec![3, 2, 1, 4, 7, 6, 5, 0]);
    assert_eq!(to_rgba(&vec![1, 2, 3, 0, 5, 6, 7, 0]), vec![3, 2, 1, 255, 7, 6, 5, 255]);
    assert_eq!(to_rgba(&vec![1, 2, 3, 4, 5]), vec![3, 2, 1, 4]);
}

#[test]
fn an_icon_becomes_a_png_in_a_data_url() {
    let raw = pixels(9);
    let url = icon_data_url(&raw).unwrap();
    let text = url.strip_prefix("data:image/png;base64,").unwrap();
    let file = decode(text);
    assert_eq!(png_data_url(&file), url);
    let image = tray_icon(&file).unwrap();
    assert_eq!((image.width, image.height), (16, 16));
    assert_eq!(image.pixels, to_rgba(&raw));
}

#[test]
fn an_icon_of_another_size_has_no_url() {
    assert_eq!(icon_data_url(&vec![]), None);
    assert_eq!(icon_data_url(&vec![0; 1020]), None);
    assert_eq!(icon_data_url(&vec![0; 1028]), None);
}

#[test]
fn a_broken_tray_icon_is_told() {
    let e = tray_icon(&b"no png at all".to_vec()).unwrap_err();
    assert!(e.starts_with("tray icon decode (read_info): "), "{e}");
    let url = icon_data_url(&pixels(255)).unwrap();
    let mut file = decode(url.strip_prefix("data:image/png;base64,").unwrap());
    let cut = file.len() - 30;
    file.truncate(cut);
    let e = tray_icon(&file).unwrap_err();
    assert!(e.starts_with("tray icon decode (next_frame): "), "{e}");
    assert_eq!(
        tray_icon_error(&DecodeFailure::Frame("x".to_string())),
        "tray icon decode (next_frame): x"
    );
}

#[test]
fn an_extraction_gives_up_what_it_took() {
    let mut extraction = IconExtraction::new();
    let mut run = Vec::new();
    for reply in [
        IconReply::Done,
        IconReply::Done,
        IconReply::Done,
        IconReply::Done,
        IconReply::Pixels(pixels(0)),
        IconReply::Done,
        IconReply::Done,
        IconReply::Done,
    ] {
        run.push(extract_icon(&mut extraction, reply));
    }
    assert_eq!(
        run,
        vec![
            IconAction::FindIcon,
            IconAction::CreateCanvas,
            IconAction::CreateBitmap,
            IconAction::Draw,
            IconAction::DeleteBitmap,
            IconAction::DeleteCanvas,
            IconAction::DestroyIcon,
            IconAction::Return,
        ]
    );
    assert_eq!(extraction.url, icon_data_url(&pixels(0)));
    assert_eq!(extraction.phase, IconPhase::Returned);
}

#[test]
fn an_extraction_that_fails_cleans_up() {
    let mut none = IconExtraction::new();
    extract_icon(&mut none, IconReply::Done);
    assert_eq!(extract_icon(&mut none, IconReply::Failed), IconAction::Return);
    assert_eq!(none.url, None);
    let mut unreachable = IconExtraction::new();
    for _ in 0..3 {
        extract_icon(&mut unreachable, IconReply::Done);
    }
    assert_eq!(extract_icon(&mut unreachable, IconReply::NoPixels), IconAction::DeleteBitmap);
    assert_eq!(extract_icon(&mut unreachable, IconReply::Done), IconAction::DeleteCanvas);
    assert_eq!(extract_icon(&mut unreachable, IconReply::Done), IconAction::DestroyIcon);
    assert_eq!(extract_icon(&mut unreachable, IconReply::Done), IconAction::Return);
    assert_eq!(unreachable.url, None);
}

#[test]
fn icons_are_looked_for_once() {
    let mut cache = IconCache::new();
    let path = Some("C:\\a.exe".to_string());
    assert!(matches!(cache.get_cached_icon("a.exe", &path), IconSource::Extract));
    assert!(matches!(cache.get_cached_icon("a.exe", &None), IconSource::Absent));
    assert_eq!(cache.remember("a.exe", Some("url".to_string())), Some("url".to_string()));
    assert!(matches!(cache.get_cached_icon("a.exe", &None), IconSource::Known(Some(u)) if u == "url"));
    cache.remember("b.exe", None);
    assert!(matches!(cache.get_cached_icon("b.exe", &path), IconSource::Known(None)));
}
