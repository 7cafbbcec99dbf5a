use std::io::Read;

#[test]
fn test_zip_creates_valid_output() {
    let xml = "<PPK><WERSJA>test</WERSJA></PPK>";
    let csv = "LP;NR_PESEL\r\n\"1\";\"12345678901\"";
    let result = ppk_gen::archive::build(xml, csv).unwrap();

    assert!(!result.zip_bytes.is_empty());
    assert!(result.xml_filename.starts_with("SKLADKA_"));
    assert!(result.xml_filename.ends_with(".xml"));
    assert!(result.csv_filename.starts_with("SKLADKA_"));
    assert!(result.csv_filename.ends_with(".csv"));

    // Verify it's a valid ZIP
    let reader = std::io::Cursor::new(&result.zip_bytes);
    let mut archive = zip::ZipArchive::new(reader).unwrap();
    assert_eq!(archive.len(), 2);
}

#[test]
fn test_archive_entry_names_follow_timestamp() {
    let result = ppk_gen::archive::build_at("a", "b", "20251231_235959").unwrap();
    assert_eq!(result.xml_filename, "SKLADKA_20251231_235959.xml");
    assert_eq!(result.csv_filename, "SKLADKA_20251231_235959.csv");
}

#[test]
fn test_archive_entries_hold_exact_contents() {
    let xml = "<PPK>body</PPK>\r\n";
    let csv = "LP\r\n\"1\"\r\n";
    let result = ppk_gen::archive::build_at(xml, csv, "20250101_000000").unwrap();
    let reader = std::io::Cursor::new(&result.zip_bytes);
    let mut archive = zip::ZipArchive::new(reader).unwrap();
    let mut got_xml = String::new();
    archive
        .by_name("SKLADKA_20250101_000000.xml")
        .unwrap()
        .read_to_string(&mut got_xml)
        .unwrap();
    assert_eq!(got_xml, xml);
    let mut got_csv = String::new();
    archive
        .by_name("SKLADKA_20250101_000000.csv")
        .unwrap()
        .read_to_string(&mut got_csv)
        .unwrap();
    assert_eq!(got_csv, csv);
}
