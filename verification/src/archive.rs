//! Packaging of the two rendered documents into one compressed container
//! with deterministic, timestamp-derived entry names.

use vstd::prelude::*;
use crate::clock::now_strings;
use crate::error::AppError;
use std::io::Write;
use vstd::string::StringExecFns;

verus! {

/// The archive bytes and the names of its two entries.
#[derive(Clone, Debug, PartialEq, Eq)]
pub struct GeneratedFiles {
    pub zip_bytes: Vec<u8>,
    pub xml_filename: String,
    pub csv_filename: String,
}

/// The entry name for a timestamp and an extension.
pub open spec fn entry_name(ts: Seq<char>, ext: Seq<char>) -> Seq<char> {
    "SKLADKA_"@ + ts + ext
}

/// What the archive writer produces for two named entries, or that it
/// refuses them.
pub uninterp spec fn zip_of(n1: Seq<char>, c1: Seq<char>, n2: Seq<char>, c2: Seq<char>) -> Option<
    Seq<u8>,
>;

/// Relies on zip::ZipWriter, zip::write::SimpleFileOptions and
/// zip::CompressionMethod::Deflated: writes the two named entries with the
/// given contents, deflate-compressed, and returns the archive bytes; an
/// archive failure comes back as its report. With these fixed options the
/// entry timestamps are the writer's constant default, so whether the call
/// succeeds and which bytes it yields depend on the names and contents
/// alone, which is what lets the result carry a name.
#[verifier::external_body]
fn zip_two_entries(n1: &str, c1: &str, n2: &str, c2: &str) -> (r: Result<Vec<u8>, AppError>)
    ensures
        r is Ok <==> zip_of(n1@, c1@, n2@, c2@) is Some,
        r matches Ok(b) ==> Some(b@) == zip_of(n1@, c1@, n2@, c2@),
        r matches Err(e) ==> e matches AppError::Archive(_),
{
    let mut buf = Vec::new();
    let mut w = zip::ZipWriter::new(std::io::Cursor::new(&mut buf));
    let o = zip::write::SimpleFileOptions::default().compression_method(zip::CompressionMethod::Deflated);
    let go = move || -> Result<(), zip::result::ZipError> {
        w.start_file(n1, o)?;
        w.write_all(c1.as_bytes())?;
        w.start_file(n2, o)?;
        w.write_all(c2.as_bytes())?;
        w.finish().map(|_| ())
    };
    match go() {
        Ok(()) => Ok(buf),
        Err(e) => Err(AppError::Archive(e.to_string())),
    }
}

/// Packs the rendered document and table into one archive under names built
/// from the given timestamp.
///
/// This succeeds exactly when the archive writer accepts the two entries,
/// and then the entry names are exactly `SKLADKA_<timestamp>.xml` and
/// `SKLADKA_<timestamp>.csv` and the bytes are the writer's output for
/// those names and exactly these contents.
pub fn build_at(xml_content: &str, csv_content: &str, timestamp: &str) -> (r: Result<
    GeneratedFiles,
    AppError,
>)
    ensures
        r is Ok <==> zip_of(
            entry_name(timestamp@, ".xml"@),
            xml_content@,
            entry_name(timestamp@, ".csv"@),
            csv_content@,
        ) is Some,
        r matches Ok(g) ==> g.xml_filename@ == entry_name(timestamp@, ".xml"@)
            && g.csv_filename@ == entry_name(timestamp@, ".csv"@) && Some(g.zip_bytes@) == zip_of(
            entry_name(timestamp@, ".xml"@),
            xml_content@,
            entry_name(timestamp@, ".csv"@),
            csv_content@,
        ),
        r matches Err(e) ==> e matches AppError::Archive(_),
{
    let mut xml_filename = String::from_str("SKLADKA_");
    xml_filename.append(timestamp);
    xml_filename.append(".xml");
    let mut csv_filename = String::from_str("SKLADKA_");
    csv_filename.append(timestamp);
    csv_filename.append(".csv");
    proof {
        assert(xml_filename@ =~= entry_name(timestamp@, ".xml"@));
        assert(csv_filename@ =~= entry_name(timestamp@, ".csv"@));
    }
    match zip_two_entries(
        xml_filename.as_str(),
        xml_content,
        csv_filename.as_str(),
        csv_content,
    ) {
        Ok(bytes) => Ok(
            GeneratedFiles { zip_bytes: bytes, xml_filename, csv_filename },
        ),
        Err(e) => Err(e),
    }
}

/// Packs the two rendered documents, naming the entries after the current
/// local time with second resolution. An error can only mean the archive
/// writer refused the entries under the clock-chosen names.
pub fn build(xml_content: &str, csv_content: &str) -> (r: Result<GeneratedFiles, AppError>)
    ensures
        r matches Ok(g) ==> exists|ts: Seq<char>|
            g.xml_filename@ == entry_name(ts, ".xml"@) && g.csv_filename@ == entry_name(
                ts,
                ".csv"@,
            ) && Some(g.zip_bytes@) == zip_of(
                entry_name(ts, ".xml"@),
                xml_content@,
                entry_name(ts, ".csv"@),
                csv_content@,
            ),
        r matches Err(e) ==> e matches AppError::Archive(_) && exists|ts: Seq<char>|
            zip_of(
                entry_name(ts, ".xml"@),
                xml_content@,
                entry_name(ts, ".csv"@),
                csv_content@,
            ) is None,
{
    let (_display, compact) = now_strings();
    let r = build_at(xml_content, csv_content, compact.as_str());
    r
}

} // verus!
