//! Filing generation and re-export: exact column totals over the dataset,
//! both document renderings, the archive, and the frozen snapshot blob.

use vstd::prelude::*;
use crate::archive::{entry_name, GeneratedFiles};
use crate::clock::now_strings;
use crate::csv::csv_text;
use crate::error::{AppError, MoneyField};
use crate::models::{ContributionWithMember, Generation, Organization};
use crate::money::{cents_of_amount, cents_or_zero, push_render_cents, render_cents};
use crate::snapshot::{
    decode_snapshot, encode_snapshot, row_eq, snap_matches, snapshot_enc, Snapshot,
};
use crate::xml::{xml_row, xml_rows, xml_text};
use vstd::string::StringExecFns;

verus! {

/// The stored amount of `c` that column `which` totals.
pub open spec fn amount_of(c: ContributionWithMember, which: MoneyField) -> Seq<char> {
    match which {
        MoneyField::EmployeeBasic => c.employee_basic@,
        MoneyField::EmployeeAdditional => c.employee_additional@,
        MoneyField::EmployerBasic => c.employer_basic@,
        MoneyField::EmployerAdditional => c.employer_additional@,
    }
}

/// The exact cent total of one column over a dataset: every amount that
/// satisfies the monetary invariant contributes its exact cent value, every
/// other amount contributes zero.
pub open spec fn total_cents(rows: Seq<ContributionWithMember>, which: MoneyField) -> nat
    decreases rows.len(),
{
    if rows.len() == 0 {
        0
    } else {
        total_cents(rows.drop_last(), which) + cents_or_zero(amount_of(rows.last(), which))
    }
}

/// A column total never shrinks as rows are appended.
proof fn lemma_total_cents_prefix(rows: Seq<ContributionWithMember>, k: int, which: MoneyField)
    requires
        0 <= k <= rows.len(),
    ensures
        total_cents(rows.subrange(0, k), which) <= total_cents(rows, which),
    decreases rows.len(),
{
    if k < rows.len() {
        assert(rows.drop_last().subrange(0, k) =~= rows.subrange(0, k));
        lemma_total_cents_prefix(rows.drop_last(), k, which);
    } else {
        assert(rows.subrange(0, k) =~= rows);
    }
}

/// Sums one column in cents, or reports that the exact total exceeds the
/// 128-bit accumulator.
fn sum_column(rows: &[ContributionWithMember], which: MoneyField) -> (r: Option<u128>)
    ensures
        r matches Some(t) ==> t as nat == total_cents(rows@, which),
        r is None <==> total_cents(rows@, which) > u128::MAX as nat,
{
    let n = rows.len();
    let mut acc: u128 = 0;
    let mut i: usize = 0;
    while i < n
        invariant
            n == rows@.len(),
            i <= n,
            acc as nat == total_cents(rows@.subrange(0, i as int), which),
        decreases n - i,
    {
        let row = &rows[i];
        let amount: &str = match which {
            MoneyField::EmployeeBasic => row.employee_basic.as_str(),
            MoneyField::EmployeeAdditional => row.employee_additional.as_str(),
            MoneyField::EmployerBasic => row.employer_basic.as_str(),
            MoneyField::EmployerAdditional => row.employer_additional.as_str(),
        };
        let c = cents_of_amount(amount);
        proof {
            let pre = rows@.subrange(0, i + 1);
            assert(pre.drop_last() =~= rows@.subrange(0, i as int));
            assert(pre.last() == rows@[i as int]);
            assert(amount@ == amount_of(rows@[i as int], which));
        }
        if c > u128::MAX - acc {
            proof {
                lemma_total_cents_prefix(rows@, i + 1, which);
            }
            return None;
        }
        acc = acc + c;
        i = i + 1;
    }
    proof {
        assert(rows@.subrange(0, n as int) =~= rows@);
    }
    Some(acc)
}

/// Whether any of the four exact column totals exceeds the accumulator.
pub open spec fn totals_overflow(rows: Seq<ContributionWithMember>) -> bool {
    ||| total_cents(rows, MoneyField::EmployeeBasic) > u128::MAX as nat
    ||| total_cents(rows, MoneyField::EmployeeAdditional) > u128::MAX as nat
    ||| total_cents(rows, MoneyField::EmployerBasic) > u128::MAX as nat
    ||| total_cents(rows, MoneyField::EmployerAdditional) > u128::MAX as nat
}

/// Computes the four column totals in cents with exact integer arithmetic.
///
/// The sums are exact: no floating point is involved, so repeated small
/// amounts cannot drift. A dataset whose exact total would not fit the
/// accumulator is reported rather than truncated.
pub fn compute_totals(rows: &[ContributionWithMember]) -> (r: Option<(u128, u128, u128, u128)>)
    ensures
        r matches Some(t) ==> {
            &&& t.0 as nat == total_cents(rows@, MoneyField::EmployeeBasic)
            &&& t.1 as nat == total_cents(rows@, MoneyField::EmployeeAdditional)
            &&& t.2 as nat == total_cents(rows@, MoneyField::EmployerBasic)
            &&& t.3 as nat == total_cents(rows@, MoneyField::EmployerAdditional)
        },
        r is None <==> totals_overflow(rows@),
{
    let t0 = match sum_column(rows, MoneyField::EmployeeBasic) {
        Some(t) => t,
        None => {
            return None;
        },
    };
    let t1 = match sum_column(rows, MoneyField::EmployeeAdditional) {
        Some(t) => t,
        None => {
            return None;
        },
    };
    let t2 = match sum_column(rows, MoneyField::EmployerBasic) {
        Some(t) => t,
        None => {
            return None;
        },
    };
    let t3 = match sum_column(rows, MoneyField::EmployerAdditional) {
        Some(t) => t,
        None => {
            return None;
        },
    };
    Some((t0, t1, t2, t3))
}

/// Renders a cent total with a dot and exactly two fractional digits.
pub fn format_total(cents: u128) -> (r: String)
    ensures
        r@ == render_cents(cents as nat, '.'),
{
    let mut out = String::new();
    push_render_cents(&mut out, cents, false);
    out
}

/// Everything one filing generation produces, ready for storage and return.
pub struct FilingBundle {
    /// The structured document text.
    pub xml: String,
    /// The delimited table text.
    pub csv: String,
    /// The archive with its two entry names.
    pub files: GeneratedFiles,
    /// The archive's own file name, `SKLADKA_<timestamp>.zip`.
    pub zip_filename: String,
    /// The frozen dataset blob for later re-export.
    pub snapshot_blob: String,
    pub total_employee_basic: String,
    pub total_employee_additional: String,
    pub total_employer_basic: String,
    pub total_employer_additional: String,
    pub member_count: i32,
}

/// Generates a filing for an ordered dataset and its period.
///
/// An empty dataset is refused with `EmptyPeriod`, a dataset whose exact
/// totals exceed the accumulator with `TotalsOverflow`, and in either case
/// nothing is produced. Otherwise the bundle holds the two renderings of
/// exactly this dataset, the four exact column totals, the snapshot blob
/// that re-export decodes, and the archive built from exactly the rendered
/// texts; one wall-clock reading stamps the document and every file name.
pub fn generate_filing(
    org: &Organization,
    contributions: Vec<ContributionWithMember>,
    year: i32,
    month: i32,
) -> (r: Result<FilingBundle, AppError>)
    requires
        contributions@.len() <= i32::MAX,
    ensures
        contributions@.len() == 0 <==> r == Err::<FilingBundle, AppError>(AppError::EmptyPeriod),
        (contributions@.len() > 0 && totals_overflow(contributions@)) <==> r == Err::<
            FilingBundle,
            AppError,
        >(AppError::TotalsOverflow),
        r matches Err(e) ==> e == AppError::EmptyPeriod || e == AppError::TotalsOverflow
            || e matches AppError::Archive(_),
        (r matches Err(e) && e matches AppError::Archive(_)) ==> exists|ts: Seq<char>, stamp: Seq<char>|
            crate::archive::zip_of(
                entry_name(ts, ".xml"@),
                xml_text(*org, contributions@, year as int, month as int, stamp),
                entry_name(ts, ".csv"@),
                csv_text(contributions@, year as int, month as int),
            ) is None,
        r matches Ok(b) ==> {
            &&& contributions@.len() > 0
            &&& exists|ts: Seq<char>|
                b.xml@ == xml_text(*org, contributions@, year as int, month as int, ts)
            &&& exists|ts: Seq<char>|
                b.files.xml_filename@ == entry_name(ts, ".xml"@) && b.files.csv_filename@
                    == entry_name(ts, ".csv"@) && b.zip_filename@ == entry_name(ts, ".zip"@)
                    && Some(b.files.zip_bytes@) == crate::archive::zip_of(
                    entry_name(ts, ".xml"@),
                    b.xml@,
                    entry_name(ts, ".csv"@),
                    b.csv@,
                )
            &&& b.csv@ == csv_text(contributions@, year as int, month as int)
            &&& b.snapshot_blob@ == snapshot_enc(
                (Snapshot {
                    organization: *org,
                    contributions: contributions,
                    period_year: year,
                    period_month: month,
                }),
            )
            &&& b.total_employee_basic@ == render_cents(
                total_cents(contributions@, MoneyField::EmployeeBasic),
                '.',
            )
            &&& b.total_employee_additional@ == render_cents(
                total_cents(contributions@, MoneyField::EmployeeAdditional),
                '.',
            )
            &&& b.total_employer_basic@ == render_cents(
                total_cents(contributions@, MoneyField::EmployerBasic),
                '.',
            )
            &&& b.total_employer_additional@ == render_cents(
                total_cents(contributions@, MoneyField::EmployerAdditional),
                '.',
            )
            &&& b.member_count as int == contributions@.len()
        },
{
    if contributions.len() == 0 {
        return Err(AppError::EmptyPeriod);
    }
    let member_count = contributions.len() as i32;
    let (t0, t1, t2, t3) = match compute_totals(contributions.as_slice()) {
        Some(t) => t,
        None => {
            return Err(AppError::TotalsOverflow);
        },
    };
    let (display, compact) = now_strings();
    let xml = crate::xml::build_at(org, contributions.as_slice(), year, month, display.as_str());
    let csv = crate::csv::build(contributions.as_slice(), year, month);
    let files = match crate::archive::build_at(xml.as_str(), csv.as_str(), compact.as_str()) {
        Ok(f) => f,
        Err(e) => {
            proof {
                assert(crate::archive::zip_of(
                    entry_name(compact@, ".xml"@),
                    xml_text(*org, contributions@, year as int, month as int, display@),
                    entry_name(compact@, ".csv"@),
                    csv_text(contributions@, year as int, month as int),
                ) is None);
            }
            return Err(e);
        },
    };
    let mut zip_filename = String::from_str("SKLADKA_");
    zip_filename.append(compact.as_str());
    zip_filename.append(".zip");
    proof {
        assert(zip_filename@ =~= entry_name(compact@, ".zip"@));
    }
    let org_copy = Organization {
        id: org.id,
        name: org.name.clone(),
        nip: org.nip.clone(),
        regon: org.regon.clone(),
        contact_person: org.contact_person.clone(),
        created_at: org.created_at.clone(),
        updated_at: org.updated_at.clone(),
    };
    assert(org_copy == *org);
    let snap = Snapshot {
        organization: org_copy,
        contributions,
        period_year: year,
        period_month: month,
    };
    let snapshot_blob = encode_snapshot(&snap);
    proof {
        assert(snap == (Snapshot {
            organization: *org,
            contributions: snap.contributions,
            period_year: year,
            period_month: month,
        }));
    }
    Ok(
        FilingBundle {
            xml,
            csv,
            files,
            zip_filename,
            snapshot_blob,
            total_employee_basic: format_total(t0),
            total_employee_additional: format_total(t1),
            total_employer_basic: format_total(t2),
            total_employer_additional: format_total(t3),
            member_count,
        },
    )
}

/// The renderings read nothing of a row beyond its observable fields.
proof fn lemma_rows_congruent(
    a: Seq<ContributionWithMember>,
    b: Seq<ContributionWithMember>,
    year: int,
    month: int,
    period: Seq<char>,
)
    requires
        a.len() == b.len(),
        forall|j: int| 0 <= j < a.len() ==> row_eq(#[trigger] a[j], b[j]),
    ensures
        crate::csv::csv_rows(a, year, month) == crate::csv::csv_rows(b, year, month),
        xml_rows(a, period) == xml_rows(b, period),
    decreases a.len(),
{
    if a.len() > 0 {
        assert(forall|j: int| 0 <= j < a.len() - 1 ==> a.drop_last()[j] == a[j]);
        assert(forall|j: int| 0 <= j < b.len() - 1 ==> b.drop_last()[j] == b[j]);
        lemma_rows_congruent(a.drop_last(), b.drop_last(), year, month, period);
        assert(row_eq(a.last(), b.last()));
        assert(crate::csv::csv_row(a.last(), a.len(), year, month) == crate::csv::csv_row(
            b.last(),
            b.len(),
            year,
            month,
        ));
        assert(xml_row(a.last(), period) == xml_row(b.last(), period));
    }
}

/// What one export of a stored generation produces.
pub struct ExportBundle {
    /// The structured document text, freshly stamped.
    pub xml: String,
    /// The delimited table text.
    pub csv: String,
    /// The archive with its two entry names.
    pub files: GeneratedFiles,
    pub member_count: i32,
}

/// Re-exports a stored generation from its frozen snapshot blob, the
/// period recorded with it, and its stored generation timestamp, without
/// consulting any live records or the clock for the document text.
///
/// A blob that is not the stored encoding of a snapshot fails with
/// `MalformedSnapshot` for this one export. Otherwise the document and
/// table bytes are pure functions of the blob, the period and the given
/// timestamp: every export of one generation reproduces them byte for
/// byte. Only the archive entry names carry a fresh clock reading.
pub fn export_filing(blob: &str, year: i32, month: i32, generated_at: &str) -> (r: Result<
    ExportBundle,
    AppError,
>)
    ensures
        r matches Err(e) ==> e == AppError::MalformedSnapshot || e matches AppError::Archive(_),
        (forall|s: Snapshot| blob@ != snapshot_enc(s)) ==> r == Err::<ExportBundle, AppError>(
            AppError::MalformedSnapshot,
        ),
        forall|s: Snapshot|
            blob@ == snapshot_enc(s) ==> ((r matches Err(e) ==> (e matches AppError::Archive(_)
                && exists|ts: Seq<char>|
                crate::archive::zip_of(
                    entry_name(ts, ".xml"@),
                    xml_text(s.organization, s.contributions@, year as int, month as int, generated_at@),
                    entry_name(ts, ".csv"@),
                    csv_text(s.contributions@, year as int, month as int),
                ) is None) || (
            e == AppError::MalformedSnapshot && s.contributions@.len() > i32::MAX)) && (
            r matches Ok(b) ==> {
                &&& b.csv@ == csv_text(s.contributions@, year as int, month as int)
                &&& b.xml@ == xml_text(
                    s.organization,
                    s.contributions@,
                    year as int,
                    month as int,
                    generated_at@,
                )
                &&& exists|ts: Seq<char>|
                    b.files.xml_filename@ == entry_name(ts, ".xml"@) && b.files.csv_filename@
                        == entry_name(ts, ".csv"@) && Some(b.files.zip_bytes@)
                        == crate::archive::zip_of(
                        entry_name(ts, ".xml"@),
                        b.xml@,
                        entry_name(ts, ".csv"@),
                        b.csv@,
                    )
                &&& b.member_count as int == s.contributions@.len()
            })),
{
    let snap = match decode_snapshot(blob) {
        Some(s) => s,
        None => {
            proof {
                assert forall|s: Snapshot| blob@ != snapshot_enc(s) by {
                    if blob@ == snapshot_enc(s) {
                        assert(false);
                    }
                }
            }
            return Err(AppError::MalformedSnapshot);
        },
    };
    proof {
        assert(blob@ == snapshot_enc(snap));
    }
    if snap.contributions.len() > i32::MAX as usize {
        proof {
            assert forall|s: Snapshot|
                blob@ == snapshot_enc(s) implies s.contributions@.len() > i32::MAX by {
                assert(snap_matches(snap, s));
            }
        }
        return Err(AppError::MalformedSnapshot);
    }
    let member_count = snap.contributions.len() as i32;
    let (_display, compact) = now_strings();
    let xml = crate::xml::build_at(
        &snap.organization,
        snap.contributions.as_slice(),
        year,
        month,
        generated_at,
    );
    let csv = crate::csv::build(snap.contributions.as_slice(), year, month);
    let files = match crate::archive::build_at(xml.as_str(), csv.as_str(), compact.as_str()) {
        Ok(f) => f,
        Err(e) => {
            proof {
                assert forall|s: Snapshot|
                    blob@ == snapshot_enc(s) implies crate::archive::zip_of(
                    entry_name(compact@, ".xml"@),
                    xml_text(
                        s.organization,
                        s.contributions@,
                        year as int,
                        month as int,
                        generated_at@,
                    ),
                    entry_name(compact@, ".csv"@),
                    csv_text(s.contributions@, year as int, month as int),
                ) is None by {
                    assert(snap_matches(snap, s));
                    lemma_rows_congruent(
                        snap.contributions@,
                        s.contributions@,
                        year as int,
                        month as int,
                        crate::xml::period_str(year as int, month as int),
                    );
                }
            }
            return Err(e);
        },
    };
    let result = ExportBundle { xml, csv, files, member_count };
    proof {
        assert forall|s: Snapshot| blob@ == snapshot_enc(s) implies {
            &&& result.csv@ == csv_text(s.contributions@, year as int, month as int)
            &&& result.xml@ == xml_text(
                s.organization,
                s.contributions@,
                year as int,
                month as int,
                generated_at@,
            )
            &&& result.member_count as int == s.contributions@.len()
        } by {
            assert(snap_matches(snap, s));
            lemma_rows_congruent(
                snap.contributions@,
                s.contributions@,
                year as int,
                month as int,
                crate::xml::period_str(year as int, month as int),
            );
        }
    }
    Ok(result)
}

/// Assembles the generation record that one filing run stores, as the
/// storage layer persists it.
pub fn generation_record(
    id: i64,
    organization_id: i64,
    year: i32,
    month: i32,
    generated_at: String,
    bundle: &FilingBundle,
) -> (g: Generation)
    ensures
        g.id == id,
        g.organization_id == organization_id,
        g.period_year == year,
        g.period_month == month,
        g.generated_at@ == generated_at@,
        g.file_path@ == bundle.zip_filename@,
        g.total_employee_basic@ == bundle.total_employee_basic@,
        g.total_employer_basic@ == bundle.total_employer_basic@,
        g.member_count == bundle.member_count,
{
    Generation {
        id,
        organization_id,
        period_year: year,
        period_month: month,
        generated_at,
        file_path: bundle.zip_filename.clone(),
        total_employee_basic: bundle.total_employee_basic.clone(),
        total_employer_basic: bundle.total_employer_basic.clone(),
        member_count: bundle.member_count,
    }
}

/// The load-bearing reproducibility law: a filing's rendered output is a
/// pure function of its snapshot's stored content. Two snapshots that agree
/// field for field render to the same table bytes, and, stamped with one
/// timestamp, to the same document bytes — later edits to live records
/// cannot change what a stored generation exports.
pub proof fn lemma_snapshot_determines_rendering(
    a: Snapshot,
    b: Snapshot,
    year: int,
    month: int,
    ts: Seq<char>,
)
    requires
        snap_matches(a, b),
    ensures
        csv_text(a.contributions@, year, month) == csv_text(b.contributions@, year, month),
        xml_text(a.organization, a.contributions@, year, month, ts) == xml_text(
            b.organization,
            b.contributions@,
            year,
            month,
            ts,
        ),
{
    lemma_rows_congruent(
        a.contributions@,
        b.contributions@,
        year,
        month,
        crate::xml::period_str(year, month),
    );
}

/// What one generation or export returns to the caller: the stored record,
/// the archive bytes, the four column totals and the row count.
pub struct GenerateResult {
    pub generation: Generation,
    pub zip_bytes: Vec<u8>,
    pub total_employee_basic: String,
    pub total_employee_additional: String,
    pub total_employer_basic: String,
    pub total_employer_additional: String,
    pub member_count: i32,
}

} // verus!
