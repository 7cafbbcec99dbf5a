//! The delimited-table encoding: CRLF rows, semicolon delimiters, an
//! unquoted header, fully quoted data rows, comma decimals, an unpadded
//! month column and a four-digit year column.

use vstd::prelude::*;
use crate::models::ContributionWithMember;
use crate::money::{fmt_amount, format_comma_decimal};
use crate::text::{dec_int, dec_nat, push_dec_i64, push_dec_u128, to_upper, upper_of};
use vstd::string::StringExecFns;

verus! {

/// A carriage return and line feed.
pub open spec fn crlf() -> Seq<char> {
    seq!['\r', '\n']
}

/// `s` wrapped in double quotes.
pub open spec fn quoted(s: Seq<char>) -> Seq<char> {
    seq!['"'] + s + seq!['"']
}

/// The fixed 16-column header row, emitted unquoted.
pub open spec fn csv_header() -> Seq<char> {
    "LP;NR_PESEL;DOK_TOZSAMOSCI_RODZAJ;DOK_TOZSAMOSCI_SERIA_NUMER;UCZESTNIK_IDENTYFIKATOR_INFORMATYCZNY;NAZWISKO;IMIE;WARTOSC_PODST_PRACOWNIKA;WARTOSC_DODATK_PRACOWNIKA;WARTOSC_PODST_PRACODAWCY;WARTOSC_DODATK_PRACODAWCY;FLAGA_OBNIZENIE_SKL_PODST_PRACOWNIKA;ZA_MIESIAC;ZA_ROK;PZIF_RACH_PPK;ID_EPPK_UCZESTNIKA\r\n"@
}

/// One data row: every field quoted, the 1-based row number first, comma
/// decimals, the month unpadded and the year in its own column, and the
/// three reserved columns always empty.
pub open spec fn csv_row(c: ContributionWithMember, lp: nat, year: int, month: int) -> Seq<char> {
    quoted(dec_nat(lp)) + seq![';'] + quoted(c.pesel@) + seq![';'] + quoted(c.doc_type@) + seq![';']
        + quoted(c.doc_number@) + seq![';'] + quoted(Seq::empty()) + seq![';'] + quoted(
        upper_of(c.last_name@),
    ) + seq![';'] + quoted(upper_of(c.first_name@)) + seq![';'] + quoted(
        fmt_amount(c.employee_basic@, true),
    ) + seq![';'] + quoted(fmt_amount(c.employee_additional@, true)) + seq![';'] + quoted(
        fmt_amount(c.employer_basic@, true),
    ) + seq![';'] + quoted(fmt_amount(c.employer_additional@, true)) + seq![';'] + quoted(
        c.reduced_basic_flag@,
    ) + seq![';'] + quoted(dec_int(month)) + seq![';'] + quoted(dec_int(year)) + seq![';'] + quoted(
        Seq::empty(),
    ) + seq![';'] + quoted(Seq::empty()) + crlf()
}

/// The data rows of the table, numbered from 1 in order.
pub open spec fn csv_rows(rows: Seq<ContributionWithMember>, year: int, month: int) -> Seq<char>
    decreases rows.len(),
{
    if rows.len() == 0 {
        Seq::empty()
    } else {
        csv_rows(rows.drop_last(), year, month) + csv_row(rows.last(), rows.len(), year, month)
    }
}

/// The whole table: header then data rows.
pub open spec fn csv_text(rows: Seq<ContributionWithMember>, year: int, month: int) -> Seq<char> {
    csv_header() + csv_rows(rows, year, month)
}

/// Appends `s` wrapped in double quotes.
fn push_quoted(out: &mut String, s: &str)
    ensures
        final(out)@ == old(out)@ + quoted(s@),
{
    out.append("\"");
    out.append(s);
    out.append("\"");
    proof {
        reveal_strlit("\"");
        assert(final(out)@ =~= old(out)@ + quoted(s@));
    }
}

/// Appends one data row for `c` with row number `lp`.
#[verifier::rlimit(100)]
fn push_row(out: &mut String, c: &ContributionWithMember, lp: usize, year: i32, month: i32)
    ensures
        final(out)@ == old(out)@ + csv_row(*c, lp as nat, year as int, month as int),
{
    let mut lp_text = String::new();
    push_dec_u128(&mut lp_text, lp as u128);
    push_quoted(out, lp_text.as_str());
    out.append(";");
    push_quoted(out, c.pesel.as_str());
    out.append(";");
    push_quoted(out, c.doc_type.as_str());
    out.append(";");
    push_quoted(out, c.doc_number.as_str());
    out.append(";");
    push_quoted(out, "");
    out.append(";");
    let last_up = to_upper(c.last_name.as_str());
    push_quoted(out, last_up.as_str());
    out.append(";");
    let first_up = to_upper(c.first_name.as_str());
    push_quoted(out, first_up.as_str());
    out.append(";");
    let a1 = format_comma_decimal(c.employee_basic.as_str());
    push_quoted(out, a1.as_str());
    out.append(";");
    let a2 = format_comma_decimal(c.employee_additional.as_str());
    push_quoted(out, a2.as_str());
    out.append(";");
    let a3 = format_comma_decimal(c.employer_basic.as_str());
    push_quoted(out, a3.as_str());
    out.append(";");
    let a4 = format_comma_decimal(c.employer_additional.as_str());
    push_quoted(out, a4.as_str());
    out.append(";");
    push_quoted(out, c.reduced_basic_flag.as_str());
    out.append(";");
    let mut month_text = String::new();
    push_dec_i64(&mut month_text, month as i64);
    push_quoted(out, month_text.as_str());
    out.append(";");
    let mut year_text = String::new();
    push_dec_i64(&mut year_text, year as i64);
    push_quoted(out, year_text.as_str());
    out.append(";");
    push_quoted(out, "");
    out.append(";");
    push_quoted(out, "");
    out.append("\r\n");
    proof {
        reveal_strlit(";");
        reveal_strlit("");
        reveal_strlit("\r\n");
        assert(final(out)@ =~= old(out)@ + csv_row(*c, lp as nat, year as int, month as int));
    }
}

/// Builds the delimited table for an ordered dataset and its period.
///
/// The result is exactly the header row followed by one quoted data row per
/// contribution, numbered from 1, CRLF-terminated throughout.
pub fn build(contributions: &[ContributionWithMember], period_year: i32, period_month: i32) -> (r:
    String)
    ensures
        r@ == csv_text(contributions@, period_year as int, period_month as int),
{
    let mut out = String::new();
    out.append(
        "LP;NR_PESEL;DOK_TOZSAMOSCI_RODZAJ;DOK_TOZSAMOSCI_SERIA_NUMER;UCZESTNIK_IDENTYFIKATOR_INFORMATYCZNY;NAZWISKO;IMIE;WARTOSC_PODST_PRACOWNIKA;WARTOSC_DODATK_PRACOWNIKA;WARTOSC_PODST_PRACODAWCY;WARTOSC_DODATK_PRACODAWCY;FLAGA_OBNIZENIE_SKL_PODST_PRACOWNIKA;ZA_MIESIAC;ZA_ROK;PZIF_RACH_PPK;ID_EPPK_UCZESTNIKA\r\n",
    );
    let n = contributions.len();
    let mut i: usize = 0;
    while i < n
        invariant
            n == contributions@.len(),
            i <= n,
            out@ == csv_header() + csv_rows(
                contributions@.subrange(0, i as int),
                period_year as int,
                period_month as int,
            ),
        decreases n - i,
    {
        let c = &contributions[i];
        push_row(&mut out, c, i + 1, period_year, period_month);
        proof {
            let pre = contributions@.subrange(0, i + 1);
            assert(pre.drop_last() =~= contributions@.subrange(0, i as int));
            assert(pre.last() == contributions@[i as int]);
            assert(out@ =~= csv_header() + csv_rows(
                pre,
                period_year as int,
                period_month as int,
            ));
        }
        i = i + 1;
    }
    proof {
        assert(contributions@.subrange(0, n as int) =~= contributions@);
    }
    out
}

} // verus!
