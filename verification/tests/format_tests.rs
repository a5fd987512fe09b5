use lattice::error::IoError;
use lattice::format_detect::{detect_by_extension, detect_by_magic_bytes, detect_format, sniff_content, FileFormat};

#[test]
fn test_detect_by_extension() {
    assert_eq!(detect_by_extension("data.xlsx"), Some(FileFormat::Xlsx));
    assert_eq!(detect_by_extension("data.csv"), Some(FileFormat::Csv));
    assert_eq!(detect_by_extension("data.tsv"), Some(FileFormat::Tsv));
    assert_eq!(detect_by_extension("data.tab"), Some(FileFormat::Tsv));
    assert_eq!(detect_by_extension("data.json"), Some(FileFormat::Json));
    assert_eq!(detect_by_extension("data.xls"), Some(FileFormat::Xls));
    assert_eq!(detect_by_extension("data.ods"), Some(FileFormat::Ods));
    assert_eq!(detect_by_extension("data.txt"), Some(FileFormat::Csv));
    assert_eq!(detect_by_extension("noext"), None);
}

#[test]
fn test_display_format() {
    assert_eq!(FileFormat::Xlsx.to_string(), "xlsx");
    assert_eq!(FileFormat::Csv.to_string(), "csv");
    assert_eq!(FileFormat::Tsv.to_string(), "tsv");
}

#[test]
fn display_other_formats() {
    assert_eq!(FileFormat::Xls.to_string(), "xls");
    assert_eq!(FileFormat::Ods.to_string(), "ods");
    assert_eq!(FileFormat::Json.to_string(), "json");
}

#[test]
fn extension_case_and_dotfiles() {
    assert_eq!(detect_by_extension("DATA.XLSX"), Some(FileFormat::Xlsx));
    assert_eq!(detect_by_extension("dir.d/file"), None);
    assert_eq!(detect_by_extension(".csv"), None);
    assert_eq!(detect_by_extension("a.b.Csv"), Some(FileFormat::Csv));
}

#[test]
fn test_detect_numbers_unsupported() {
    let result = detect_format("test.numbers", Some(b"fake numbers data"));
    match result.unwrap_err() {
        IoError::UnsupportedFormat(msg) => assert!(msg.contains("Numbers")),
        other => panic!("expected UnsupportedFormat, got {:?}", other),
    }
}

#[test]
fn test_sniff_tsv_content() {
    assert_eq!(detect_format("data.unknown", Some(b"a\tb\tc\n1\t2\t3\n")).unwrap(), FileFormat::Tsv);
}

#[test]
fn test_sniff_csv_content() {
    assert_eq!(detect_format("data.unknown", Some(b"a,b,c\n1,2,3\n")).unwrap(), FileFormat::Csv);
}

#[test]
fn test_sniff_json_content() {
    assert_eq!(detect_format("data.unknown", Some(br#"{"key": "value"}"#)).unwrap(), FileFormat::Json);
}

#[test]
fn test_txt_treated_as_csv() {
    assert_eq!(detect_format("data.txt", Some(b"some,data\n1,2\n")).unwrap(), FileFormat::Csv);
}

#[test]
fn missing_file_is_not_found() {
    match detect_format("/nope/data.csv", None) {
        Err(IoError::FileNotFound(p)) => assert_eq!(p, "/nope/data.csv"),
        other => panic!("unexpected {:?}", other),
    }
}

#[test]
fn undetermined_format_message() {
    match detect_format("blob.bin", Some(b"x")) {
        Err(IoError::UnsupportedFormat(m)) => assert_eq!(m, "could not determine format of 'blob.bin'"),
        other => panic!("unexpected {:?}", other),
    }
}

#[test]
fn magic_bytes() {
    let zip = [0x50u8, 0x4B, 0x03, 0x04, 0, 0, 0, 0];
    assert_eq!(detect_by_magic_bytes("book.xlsx", &zip), Some(FileFormat::Xlsx));
    assert_eq!(detect_by_magic_bytes("book.ODS", &zip), Some(FileFormat::Ods));
    assert_eq!(detect_by_magic_bytes("book.bin", &zip), Some(FileFormat::Xlsx));
    let cfb = [0xD0u8, 0xCF, 0x11, 0xE0, 0xA1, 0xB1, 0x1A, 0xE1];
    assert_eq!(detect_by_magic_bytes("old.dat", &cfb), Some(FileFormat::Xls));
    assert_eq!(detect_by_magic_bytes("x.json", b"{\"a\":1}"), Some(FileFormat::Json));
    assert_eq!(detect_by_magic_bytes("x.txt", b"{\"a\":1}"), None);
    assert_eq!(detect_by_magic_bytes("x.xlsx", b"PK\x03"), None);
    // a zip signature wins over the extension
    assert_eq!(detect_format("sheet.csv", Some(&zip)).unwrap(), FileFormat::Xlsx);
}

#[test]
fn sniffing() {
    assert_eq!(sniff_content(b""), None);
    assert_eq!(sniff_content(b"a\0b"), None);
    assert_eq!(sniff_content(b"  \n [1, 2]"), Some(FileFormat::Json));
    assert_eq!(sniff_content(b"a\tb,c\n"), Some(FileFormat::Tsv));
    assert_eq!(sniff_content(b"a,b,c\td\n"), Some(FileFormat::Csv));
    assert_eq!(sniff_content(b"one\ntwo\n"), Some(FileFormat::Csv));
    assert_eq!(sniff_content(b"single line"), None);
    assert_eq!(sniff_content(&[0xFFu8, 0xFE, 0x41]), None);
}

#[test]
fn extension_of_the_final_component() {
    assert_eq!(detect_by_extension("dir.csv/data.xlsx"), Some(FileFormat::Xlsx));
    assert_eq!(detect_by_extension("dir/data.xlsx/"), Some(FileFormat::Xlsx));
    assert_eq!(detect_by_extension("dir/data.xlsx/."), Some(FileFormat::Xlsx));
    assert_eq!(detect_by_extension("data.xlsx/.."), None);
    assert_eq!(detect_by_extension("dir/.xlsx"), None);
    assert_eq!(detect_by_extension("dir.xlsx/data"), None);
}
