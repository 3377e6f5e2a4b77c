use label_payload::detect::{
    classify_text, detect, detect_file_type, first_line_of, is_epl, is_pdf, is_png, is_zpl,
    ClassifyError, FileType,
};

fn cs(s: &str) -> Vec<char> {
    s.chars().collect()
}

const PNG: [u8; 8] = [0x89, 0x50, 0x4E, 0x47, 0x0D, 0x0A, 0x1A, 0x0A];

#[test]
fn extensions() {
    assert_eq!(FileType::Pdf.extension(), "pdf");
    assert_eq!(FileType::Png.extension(), "png");
    assert_eq!(FileType::Zplii.extension(), "zpl");
    assert_eq!(FileType::Epl2.extension(), "epl");
}

#[test]
fn pdf_magic_is_four_bytes() {
    assert!(is_pdf(b"%PDF"));
    assert!(is_pdf(b"%PDF-1.7\n"));
    assert!(!is_pdf(b"%PD"));
    assert!(!is_pdf(b" %PDF"));
    assert!(!is_pdf(b"%pdf"));
    assert!(!is_pdf(b""));
}

#[test]
fn png_signature_is_eight_bytes() {
    assert!(is_png(&PNG));
    let mut longer = PNG.to_vec();
    longer.extend_from_slice(&[0, 0, 0, 13, 73, 72, 68, 82]);
    assert!(is_png(&longer));
    assert!(!is_png(&PNG[..7]));
    let mut wrong = PNG;
    wrong[7] = 0x0B;
    assert!(!is_png(&wrong));
    assert!(!is_png(b""));
}

#[test]
fn zpl_markers() {
    assert!(is_zpl(&cs("^XA^FO50,50^FS^XZ")));
    assert!(is_zpl(&cs("junk ^XZ")));
    assert!(is_zpl(&cs("~HS^XA")));
    assert!(!is_zpl(&cs("^xa^xz")));
    assert!(!is_zpl(&cs("^X")));
    assert!(!is_zpl(&cs("")));
}

#[test]
fn first_line_stops_at_the_line_feed() {
    assert_eq!(first_line_of(&cs("N\nA50")), cs("N").as_slice());
    assert_eq!(first_line_of(&cs("N\r\nA50")), cs("N").as_slice());
    assert_eq!(first_line_of(&cs("N\rA50")), cs("N\rA50").as_slice());
    assert_eq!(first_line_of(&cs("N\r\r\nA50")), cs("N\r").as_slice());
    assert_eq!(first_line_of(&cs("\nA50")), cs("").as_slice());
    assert_eq!(first_line_of(&cs("\r\nA50")), cs("").as_slice());
    assert_eq!(first_line_of(&cs("")), cs("").as_slice());
    for s in ["N\nA50", "N\r\nA50", "N\rA50", "N\r\r\nA50", "one line", "a\n", "a\r"] {
        assert_eq!(first_line_of(&cs(s)), cs(s.lines().next().unwrap_or("")).as_slice());
    }
}

#[test]
fn epl_opening_letters() {
    assert!(is_epl(&cs("N\nA50,50,0,3,1,1,N,\"TEST\"\nP1\n")));
    assert!(is_epl(&cs("  \r\nO\r\nN\r\n")));
    assert!(is_epl(&cs("q812")));
    assert!(is_epl(&cs("N")));
    assert!(is_epl(&cs("\u{3000}Nothing at all")));
    assert!(!is_epl(&cs("n\nA50")));
    assert!(!is_epl(&cs("Q812")));
    assert!(!is_epl(&cs("A50\nN")));
    assert!(!is_epl(&cs("")));
    assert!(!is_epl(&cs("   ")));
}

#[test]
fn zpl_is_tried_before_epl() {
    assert_eq!(classify_text(&cs("N\n^XA")), Some(FileType::Zplii));
    assert_eq!(classify_text(&cs("N\nXA")), Some(FileType::Epl2));
    assert_eq!(classify_text(&cs("hello")), None);
}

#[test]
fn detects_each_format() {
    assert_eq!(detect(b"%PDF-1.4"), Ok(FileType::Pdf));
    assert_eq!(detect(&PNG), Ok(FileType::Png));
    assert_eq!(detect(b"^XA^FO50,50^A0N,50,50^FDHello^FS^XZ"), Ok(FileType::Zplii));
    assert_eq!(detect(b"N\nA50,50,0,3,1,1,N,\"TEST\"\nP1\n"), Ok(FileType::Epl2));
}

#[test]
fn pdf_wins_over_a_later_zpl_marker() {
    assert_eq!(detect(b"%PDF-1.4 ^XA^XZ"), Ok(FileType::Pdf));
    let mut png = PNG.to_vec();
    png.extend_from_slice(b"^XA");
    assert_eq!(detect(&png), Ok(FileType::Png));
}

#[test]
fn unknown_bytes_are_refused() {
    assert_eq!(detect(&[0x00]), Err(ClassifyError::UnrecognizedFormat));
    assert_eq!(detect(b"hello world"), Err(ClassifyError::UnrecognizedFormat));
    assert_eq!(detect(&[0xFF, 0xFE, 0x00, 0x01]), Err(ClassifyError::UnrecognizedFormat));
    assert_eq!(
        detect_file_type(&[0x00]),
        Err("Unable to detect file type. Supported types: PDF, PNG, ZPLII, EPL2".to_string())
    );
    assert_eq!(
        ClassifyError::UnrecognizedFormat.message(),
        "Unable to detect file type. Supported types: PDF, PNG, ZPLII, EPL2"
    );
}

#[test]
fn ill_formed_bytes_are_read_lossily() {
    assert_eq!(detect(&[0xFF, b'^', b'X', b'A']), Ok(FileType::Zplii));
    assert_eq!(detect(&[b'^', 0xFF, b'X', b'A']), Err(ClassifyError::UnrecognizedFormat));
    assert_eq!(detect(&[b'N', 0xC3]), Ok(FileType::Epl2));
    assert_eq!(detect(&[0xC3, b'N']), Err(ClassifyError::UnrecognizedFormat));
    assert_eq!(detect(&[0xE3, 0x80, 0x80, b'O', b'\n']), Ok(FileType::Epl2));
    assert_eq!(detect_file_type(&[0xFF, b'^', b'X', b'Z']), Ok(FileType::Zplii));
}
