use std::io::Write;
use verify_files::builtin_handlers::{
    all, all_ids, classify_image, classify_zip, exhaust_reader, gzip, image, json, run_builtin,
    toml, zip, Confidence, FailureType, ImageFlaw, ImageFlawKind, ReadFlaw, ZipFlaw, ZipFlawKind,
};

fn gzipped(data: &[u8]) -> Vec<u8> {
    let mut encoder = flate2::write::GzEncoder::new(Vec::new(), flate2::Compression::default());
    encoder.write_all(data).unwrap();
    encoder.finish().unwrap()
}

fn zipped(method: zip::CompressionMethod) -> Vec<u8> {
    let mut writer = zip::ZipWriter::new(std::io::Cursor::new(Vec::new()));
    let options = zip::write::SimpleFileOptions::default().compression_method(method);
    writer.start_file("a.txt", options).unwrap();
    writer.write_all(b"hello hello hello hello").unwrap();
    writer.start_file("b.txt", options).unwrap();
    writer.write_all(b"world").unwrap();
    writer.finish().unwrap().into_inner()
}

fn picture(format: image::ImageFormat) -> Vec<u8> {
    let mut out = std::io::Cursor::new(Vec::new());
    if format == image::ImageFormat::Ico {
        image::RgbaImage::new(3, 2).write_to(&mut out, format).unwrap();
    } else {
        image::RgbImage::new(3, 2).write_to(&mut out, format).unwrap();
    }
    out.into_inner()
}

fn png() -> Vec<u8> {
    picture(image::ImageFormat::Png)
}

fn undetermined() -> Result<(), FailureType> {
    Err(FailureType::UnsupportedFormat("The image format could not be determined".to_string()))
}

#[test]
fn registry_lists_the_five_handlers() {
    let list = all();
    let seen: Vec<(&str, &str, Confidence)> =
        list.iter().map(|b| (b.id.as_str(), b.description.as_str(), b.confidence)).collect();
    assert_eq!(
        seen,
        vec![
            ("gzip", "GZip CRC check (built-in)", Confidence::DataHash),
            ("image", "BMP/GIF/ICO/JPEG/PNG/PNM/TGA/TIFF handler (built-in)", Confidence::WellFormed),
            ("json", "JSON well-formedness check (built-in)", Confidence::WellFormed),
            ("toml", "TOML well-formedness check (built-in)", Confidence::WellFormed),
            ("zip", "STORE/DEFLATE-compressed Zip CRC check (built-in)", Confidence::DataHash),
        ]
    );
    assert_eq!(all_ids(), vec!["gzip", "image", "json", "toml", "zip"]);
}

#[test]
fn confidence_is_ordered() {
    let order = [
        Confidence::WellFormed,
        Confidence::DataParity,
        Confidence::DataHash,
        Confidence::DataHashAndMetaParity,
        Confidence::FullHash,
    ];
    for (i, a) in order.iter().enumerate() {
        assert_eq!(a.strength() as usize, i);
        for (j, b) in order.iter().enumerate() {
            assert_eq!(a.at_least(b), i >= j);
        }
    }
}

#[test]
fn gzip_checks_the_checksum() {
    let good = gzipped(b"some text that is compressed");
    assert_eq!(gzip(&good), Ok(()));
    let mut two = good.clone();
    two.extend_from_slice(&gzipped(b"a second member"));
    assert_eq!(gzip(&two), Ok(()));
    let mut bad = good.clone();
    let middle = bad.len() / 2;
    bad[middle] ^= 0xff;
    assert_eq!(
        gzip(&bad),
        Err(FailureType::InvalidContent(
            "corrupt gzip stream does not have a matching checksum".to_string()
        ))
    );
    assert!(matches!(gzip(b"this is no gzip stream at all"), Err(FailureType::InvalidContent(_))));
    // data that ends early counts as ended
    assert_eq!(gzip(&good[..good.len() - 6]), Ok(()));
    assert_eq!(gzip(b""), Ok(()));
}

#[test]
fn exhausting_a_reader() {
    assert_eq!(exhaust_reader(Ok(())), Ok(()));
    assert_eq!(
        exhaust_reader(Err(ReadFlaw { unexpected_eof: true, message: "early end".to_string() })),
        Ok(())
    );
    assert_eq!(
        exhaust_reader(Err(ReadFlaw { unexpected_eof: false, message: "bad".to_string() })),
        Err("bad".to_string())
    );
}

#[test]
fn zip_reads_every_member() {
    let stored = zipped(zip::CompressionMethod::Stored);
    assert_eq!(zip(&stored), Ok(()));
    assert_eq!(zip(&zipped(zip::CompressionMethod::Deflated)), Ok(()));
    let at = stored.windows(5).position(|w| w == b"world").unwrap();
    let mut bad = stored.clone();
    bad[at] = b'W';
    assert_eq!(zip(&bad), Err(FailureType::IoError("Invalid checksum".to_string())));
    assert_eq!(zip(b"hello"), Err(FailureType::InvalidContent("Could not find EOCD".to_string())));
    assert!(matches!(zip(&stored[..stored.len() - 10]), Err(FailureType::InvalidContent(_))));
}

#[test]
fn zip_errors_by_class() {
    let flaw = |kind| ZipFlaw { kind, message: "m".to_string() };
    assert_eq!(classify_zip(flaw(ZipFlawKind::Io)), FailureType::IoError("m".to_string()));
    assert_eq!(
        classify_zip(flaw(ZipFlawKind::InvalidArchive)),
        FailureType::InvalidContent("m".to_string())
    );
    assert_eq!(
        classify_zip(flaw(ZipFlawKind::UnsupportedArchive)),
        FailureType::UnsupportedFormat("m".to_string())
    );
    assert_eq!(
        classify_zip(flaw(ZipFlawKind::Method)),
        FailureType::UnsupportedFormat("m".to_string())
    );
    assert_eq!(
        classify_zip(flaw(ZipFlawKind::FileNotFound)),
        FailureType::InternalError(
            "'file not found' when reading Zip file by bounded index".to_string()
        )
    );
    assert_eq!(classify_zip(flaw(ZipFlawKind::Other)), FailureType::InternalError("m".to_string()));
}

#[test]
fn image_decodes_the_whole_picture() {
    let good = png();
    assert_eq!(image(&good, None), Ok(()));
    assert_eq!(image(&good, Some("png")), Ok(()));
    assert_eq!(image(b"hello", None), undetermined());
    let mut bad = good.clone();
    let n = bad.len();
    bad[n - 20] ^= 0xff;
    assert!(matches!(image(&bad, None), Err(FailureType::InvalidContent(_))));
    assert_eq!(
        image(&good[..good.len() - 20], None),
        Err(FailureType::IoError("unexpected end of file".to_string()))
    );
    for format in [
        image::ImageFormat::Bmp,
        image::ImageFormat::Gif,
        image::ImageFormat::Ico,
        image::ImageFormat::Jpeg,
        image::ImageFormat::Pnm,
        image::ImageFormat::Tiff,
    ] {
        assert_eq!(image(&picture(format), None), Ok(()), "{:?}", format);
    }
}

#[test]
fn signature_goes_before_the_extension() {
    let good = png();
    assert_eq!(image(&good, Some("tga")), Ok(()));
    assert_eq!(image(&good, Some("txt")), Ok(()));
    assert_eq!(image(&good, Some("")), Ok(()));
    // data without a signature is decoded as the extension says
    assert!(matches!(image(b"hello", Some("png")), Err(FailureType::InvalidContent(_))));
    assert_eq!(image(b"hello", Some("txt")), undetermined());
    assert_eq!(image(b"hello", Some("")), undetermined());
    assert_eq!(image(b"", None), undetermined());
}

#[test]
fn tga_is_told_by_its_extension() {
    let tga = picture(image::ImageFormat::Tga);
    assert_eq!(image(&tga, Some("tga")), Ok(()));
    assert_eq!(image(&tga, Some("TGA")), Ok(()));
    assert_eq!(image(&tga, None), undetermined());
    assert_eq!(image(&tga, Some("dat")), undetermined());
    assert!(image(&tga[..tga.len() - 5], Some("tga")).is_err());
    assert_eq!(run_builtin("image", &tga, Some("tga")), Some(Ok(Confidence::WellFormed)));
    assert_eq!(run_builtin("image", &tga, None), Some(undetermined().map(|_| Confidence::WellFormed)));
}

#[test]
fn image_errors_by_class() {
    let flaw = |kind| ImageFlaw { kind, message: "m".to_string() };
    assert_eq!(
        classify_image(flaw(ImageFlawKind::Decoding)),
        FailureType::InvalidContent("m".to_string())
    );
    assert_eq!(
        classify_image(flaw(ImageFlawKind::Unsupported)),
        FailureType::UnsupportedFormat("m".to_string())
    );
    assert_eq!(classify_image(flaw(ImageFlawKind::Io)), FailureType::IoError("m".to_string()));
    assert_eq!(
        classify_image(flaw(ImageFlawKind::Other)),
        FailureType::InternalError("m".to_string())
    );
}

#[test]
fn json_must_parse() {
    assert_eq!(json(b"{\"a\": [1, 2]}"), Ok(()));
    assert_eq!(json(b"{"), Err(FailureType::InvalidContent("Unexpected end of JSON".to_string())));
    assert_eq!(
        json(&[0xff, 0xfe]),
        Err(FailureType::InvalidContent(
            "invalid utf-8 sequence of 1 bytes from index 0".to_string()
        ))
    );
}

#[test]
fn toml_must_parse_as_a_value() {
    assert_eq!(toml(b"[1, 2, 3]"), Ok(()));
    assert_eq!(toml("\"größe\"".as_bytes()), Ok(()));
    assert!(matches!(toml(b"a = 1\n"), Err(FailureType::InvalidContent(_))));
    assert_eq!(
        toml(&[0xc3]),
        Err(FailureType::InvalidContent("incomplete utf-8 byte sequence from index 0".to_string()))
    );
}

#[test]
fn builtins_run_by_id() {
    assert_eq!(run_builtin("json", b"[]", None), Some(Ok(Confidence::WellFormed)));
    assert_eq!(run_builtin("toml", b"1", Some("toml")), Some(Ok(Confidence::WellFormed)));
    assert_eq!(run_builtin("image", &png(), None), Some(Ok(Confidence::WellFormed)));
    assert_eq!(run_builtin("gzip", &gzipped(b"x"), None), Some(Ok(Confidence::DataHash)));
    assert_eq!(
        run_builtin("zip", &zipped(zip::CompressionMethod::Stored), None),
        Some(Ok(Confidence::DataHash))
    );
    assert_eq!(
        run_builtin("zip", b"hello", None),
        Some(Err(FailureType::InvalidContent("Could not find EOCD".to_string())))
    );
    assert_eq!(run_builtin("sevenzip", b"", None), None);
    assert_eq!(run_builtin("", b"", None), None);
    for id in all_ids() {
        assert!(run_builtin(&id, b"", None).is_some());
    }
}
