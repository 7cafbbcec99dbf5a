use ppk_gen::models::ContributionWithMember;
use ppk_gen::models::Organization;

fn sample_org() -> Organization {
    Organization {
        id: 1,
        name: "Test Org".to_string(),
        nip: "5261040828".to_string(),
        regon: "123456785".to_string(),
        contact_person: "Jan Kowalski".to_string(),
        created_at: "2026-01-09".to_string(),
        updated_at: "2026-01-09".to_string(),
    }
}

fn sample_contributions() -> Vec<ContributionWithMember> {
    vec![
        ContributionWithMember {
            id: 1,
            member_id: 1,
            period_year: 2025,
            period_month: 12,
            employee_basic: "94.38".to_string(),
            employee_additional: "0.00".to_string(),
            employer_basic: "70.78".to_string(),
            employer_additional: "0.00".to_string(),
            reduced_basic_flag: "N".to_string(),
            source: "manual".to_string(),
            updated_at: "2026-01-09".to_string(),
            pesel: "85032212342".to_string(),
            first_name: "MARIA".to_string(),
            last_name: "TESTOWA".to_string(),
            gender: "K".to_string(),
            date_of_birth: "1985-03-22".to_string(),
            citizenship: "PL".to_string(),
            second_name: "".to_string(),
            doc_type: "".to_string(),
            doc_number: "".to_string(),
            member_status: "active".to_string(),
        },
        ContributionWithMember {
            id: 2,
            member_id: 2,
            period_year: 2025,
            period_month: 12,
            employee_basic: "188.92".to_string(),
            employee_additional: "0.00".to_string(),
            employer_basic: "141.69".to_string(),
            employer_additional: "0.00".to_string(),
            reduced_basic_flag: "N".to_string(),
            source: "manual".to_string(),
            updated_at: "2026-01-09".to_string(),
            pesel: "92061578905".to_string(),
            first_name: "EWA".to_string(),
            last_name: "PRZYKLADOWA ".to_string(),
            gender: "K".to_string(),
            date_of_birth: "1992-06-15".to_string(),
            citizenship: "PL".to_string(),
            second_name: "".to_string(),
            doc_type: "D".to_string(),
            doc_number: "ABC123456".to_string(),
            member_status: "active".to_string(),
        },
    ]
}

#[test]
fn test_xml_structure_matches_sample() {
    let org = sample_org();
    let contributions = sample_contributions();
    let xml = ppk_gen::xml::build(&org, &contributions, 2025, 12);

    // Verify CRLF line endings
    assert!(xml.contains("\r\n"), "XML must use CRLF line endings");

    // Verify XML declaration
    assert!(xml.starts_with("<?xml version=\"1.0\" encoding=\"utf-8\"?>\r\n"));

    // Verify structure
    assert!(xml.contains("<PPK>\r\n"));
    assert!(xml.contains("    <WERSJA>GRUPA_PPK 1.00</WERSJA>\r\n"));
    assert!(xml.contains("    <PRACODAWCA>\r\n"));
    assert!(xml.contains("        <NIP>5261040828</NIP>\r\n"));
    assert!(xml.contains("        <REGON>123456785</REGON>\r\n"));
    assert!(xml.contains("        <KONTAKT>Jan Kowalski</KONTAKT>\r\n"));
    assert!(xml.contains("    <DANE_UCZESTNIKA>\r\n"));

    // Verify first participant
    assert!(xml.contains("            <NR_PESEL>85032212342</NR_PESEL>\r\n"));
    assert!(xml.contains("            <DOK_TOZ_TYP></DOK_TOZ_TYP>\r\n"));
    assert!(xml.contains("            <DOK_TOZ_SYM></DOK_TOZ_SYM>\r\n"));
    assert!(xml.contains("            <NAZWISKO>TESTOWA</NAZWISKO>\r\n"));
    assert!(xml.contains("            <IMIE>MARIA</IMIE>\r\n"));
    assert!(xml.contains("            <PLEC>K</PLEC>\r\n"));
    assert!(xml.contains("            <IMIE_2></IMIE_2>\r\n"));
    assert!(xml.contains("            <OBYW>PL</OBYW>\r\n"));
    assert!(xml.contains("            <DATA_UR>1985-03-22</DATA_UR>\r\n"));
    assert!(xml.contains("                <UCZ_WAR_POD>94.38</UCZ_WAR_POD>\r\n"));
    assert!(xml.contains("                <UCZ_WAR_DOD>0.00</UCZ_WAR_DOD>\r\n"));
    assert!(xml.contains("                <FIR_WAR_POD>70.78</FIR_WAR_POD>\r\n"));
    assert!(xml.contains("                <FIR_WAR_DOD>0.00</FIR_WAR_DOD>\r\n"));
    assert!(xml.contains("                <UCZ_OBNIZ_SKL_POD>N</UCZ_OBNIZ_SKL_POD>\r\n"));
    assert!(xml.contains("                <SKL_ZA_OKRES>2025-12</SKL_ZA_OKRES>\r\n"));

    // Verify second participant
    assert!(xml.contains("            <NR_PESEL>92061578905</NR_PESEL>\r\n"));
    assert!(xml.contains("            <DOK_TOZ_TYP>D</DOK_TOZ_TYP>\r\n"));
    assert!(xml.contains("            <DOK_TOZ_SYM>ABC123456</DOK_TOZ_SYM>\r\n"));
    assert!(xml.contains("                <UCZ_WAR_POD>188.92</UCZ_WAR_POD>\r\n"));
    assert!(xml.contains("                <FIR_WAR_POD>141.69</FIR_WAR_POD>\r\n"));

    // Verify closing
    assert!(xml.contains("    </DANE_UCZESTNIKA>\r\n"));
    assert!(xml.contains("</PPK>\r\n"));

    // Verify 4-space indentation
    assert!(!xml.contains("\t"), "XML must not contain tabs");
}

#[test]
fn test_csv_structure_matches_sample() {
    let contributions = sample_contributions();
    let csv = ppk_gen::csv::build(&contributions, 2025, 12);

    let lines: Vec<&str> = csv.split("\r\n").collect();

    // Header line (unquoted)
    assert_eq!(
        lines[0],
        "LP;NR_PESEL;DOK_TOZSAMOSCI_RODZAJ;DOK_TOZSAMOSCI_SERIA_NUMER;UCZESTNIK_IDENTYFIKATOR_INFORMATYCZNY;NAZWISKO;IMIE;WARTOSC_PODST_PRACOWNIKA;WARTOSC_DODATK_PRACOWNIKA;WARTOSC_PODST_PRACODAWCY;WARTOSC_DODATK_PRACODAWCY;FLAGA_OBNIZENIE_SKL_PODST_PRACOWNIKA;ZA_MIESIAC;ZA_ROK;PZIF_RACH_PPK;ID_EPPK_UCZESTNIKA"
    );

    // First data row (all quoted, comma decimals, month unpadded)
    assert_eq!(
        lines[1],
        "\"1\";\"85032212342\";\"\";\"\";\"\";\"TESTOWA\";\"MARIA\";\"94,38\";\"0,00\";\"70,78\";\"0,00\";\"N\";\"12\";\"2025\";\"\";\"\""
    );

    // Verify CRLF
    assert!(csv.contains("\r\n"));

    // Verify semicolons in header
    assert_eq!(lines[0].matches(';').count(), 15);

    // Verify comma decimals (not dot)
    assert!(lines[1].contains("94,38"));
    assert!(!lines[1].contains("94.38"));

    // Verify month is unpadded
    assert!(lines[1].contains(";\"12\";"));
}

#[test]
fn test_csv_contains_last_name() {
    let contributions = sample_contributions();
    let csv = ppk_gen::csv::build(&contributions, 2025, 12);
    let lines: Vec<&str> = csv.split("\r\n").collect();

    // Check first row has TESTOWA in it
    assert!(lines[1].contains("TESTOWA"));
    assert!(lines[2].contains("PRZYKLADOWA "));
}

#[test]
fn test_document_period_and_amounts_diverge_between_formats() {
    let org = sample_org();
    let contributions = sample_contributions();
    let xml = ppk_gen::xml::build_at(&org, &contributions, 2025, 12, "2026-01-09 12:00:00");
    let csv = ppk_gen::csv::build(&contributions, 2025, 12);

    // the document renders 94.38 and the period as 2025-12
    assert!(xml.contains("<UCZ_WAR_POD>94.38</UCZ_WAR_POD>"));
    assert!(xml.contains("<SKL_ZA_OKRES>2025-12</SKL_ZA_OKRES>"));
    // the table renders "94,38", and the period split as "12" and "2025"
    assert!(csv.contains("\"94,38\""));
    assert!(csv.contains(";\"12\";\"2025\";"));
}

#[test]
fn test_xml_build_at_is_reproducible() {
    let org = sample_org();
    let contributions = sample_contributions();
    let a = ppk_gen::xml::build_at(&org, &contributions, 2025, 12, "2026-01-09 12:00:00");
    let b = ppk_gen::xml::build_at(&org, &contributions, 2025, 12, "2026-01-09 12:00:00");
    assert_eq!(a, b);
    let c1 = ppk_gen::csv::build(&contributions, 2025, 12);
    let c2 = ppk_gen::csv::build(&contributions, 2025, 12);
    assert_eq!(c1, c2);
}

#[test]
fn test_row_numbers_are_sequential() {
    let contributions = sample_contributions();
    let csv = ppk_gen::csv::build(&contributions, 2025, 12);
    let lines: Vec<&str> = csv.split("\r\n").collect();
    assert!(lines[1].starts_with("\"1\";"));
    assert!(lines[2].starts_with("\"2\";"));
}

#[test]
fn test_uppercase_applied_to_mixed_case_names() {
    let mut contributions = sample_contributions();
    contributions[0].last_name = "Kowalska".to_string();
    contributions[0].first_name = "Anna".to_string();
    let csv = ppk_gen::csv::build(&contributions, 2025, 12);
    assert!(csv.contains("\"KOWALSKA\";\"ANNA\""));
    let org = sample_org();
    let xml = ppk_gen::xml::build_at(&org, &contributions, 2025, 12, "t");
    assert!(xml.contains("<NAZWISKO>KOWALSKA</NAZWISKO>"));
    assert!(xml.contains("<IMIE>ANNA</IMIE>"));
}
