//! The structured document encoding: UTF-8 with CRLF line terminators
//! throughout, four-space indentation, empty paired tags, uppercased names,
//! dot decimals with exactly two fractional digits, and the period as
//! `YYYY-MM`.

use vstd::prelude::*;
use crate::clock::now_strings;
use crate::models::{ContributionWithMember, Organization};
use crate::money::{fmt_amount, format_dot_decimal};
use crate::text::{pad_int, push_pad_i64, to_upper, upper_of};
use vstd::string::StringExecFns;

verus! {

/// The period rendered as a four-digit year, a dash and a two-digit month.
pub open spec fn period_str(year: int, month: int) -> Seq<char> {
    pad_int(year, 4) + seq!['-'] + pad_int(month, 2)
}

/// One participant section of the document.
pub open spec fn xml_row(c: ContributionWithMember, period: Seq<char>) -> Seq<char> {
    "        <UCZESTNIK>\r\n            <NR_PESEL>"@ + c.pesel@
        + "</NR_PESEL>\r\n            <DOK_TOZ_TYP>"@ + c.doc_type@
        + "</DOK_TOZ_TYP>\r\n            <DOK_TOZ_SYM>"@ + c.doc_number@
        + "</DOK_TOZ_SYM>\r\n            <NAZWISKO>"@ + upper_of(c.last_name@)
        + "</NAZWISKO>\r\n            <IMIE>"@ + upper_of(c.first_name@)
        + "</IMIE>\r\n            <PLEC>"@ + c.gender@ + "</PLEC>\r\n            <IMIE_2>"@
        + upper_of(c.second_name@) + "</IMIE_2>\r\n            <OBYW>"@ + c.citizenship@
        + "</OBYW>\r\n            <DATA_UR>"@ + c.date_of_birth@
        + "</DATA_UR>\r\n            <SKLADKA>\r\n                <UCZ_WAR_POD>"@ + fmt_amount(
        c.employee_basic@,
        false,
    ) + "</UCZ_WAR_POD>\r\n                <UCZ_WAR_DOD>"@ + fmt_amount(
        c.employee_additional@,
        false,
    ) + "</UCZ_WAR_DOD>\r\n                <FIR_WAR_POD>"@ + fmt_amount(c.employer_basic@, false)
        + "</FIR_WAR_POD>\r\n                <FIR_WAR_DOD>"@ + fmt_amount(
        c.employer_additional@,
        false,
    ) + "</FIR_WAR_DOD>\r\n                <UCZ_OBNIZ_SKL_POD>"@ + c.reduced_basic_flag@
        + "</UCZ_OBNIZ_SKL_POD>\r\n                <SKL_ZA_OKRES>"@ + period
        + "</SKL_ZA_OKRES>\r\n            </SKLADKA>\r\n        </UCZESTNIK>\r\n"@
}

/// The participant sections of the document, in dataset order.
pub open spec fn xml_rows(rows: Seq<ContributionWithMember>, period: Seq<char>) -> Seq<char>
    decreases rows.len(),
{
    if rows.len() == 0 {
        Seq::empty()
    } else {
        xml_rows(rows.drop_last(), period) + xml_row(rows.last(), period)
    }
}

/// The whole document: declaration, version marker, generation timestamp,
/// employer block, one section per participant, and the closing tags.
pub open spec fn xml_text(
    org: Organization,
    rows: Seq<ContributionWithMember>,
    year: int,
    month: int,
    generated: Seq<char>,
) -> Seq<char> {
    "<?xml version=\"1.0\" encoding=\"utf-8\"?>\r\n<PPK>\r\n    <WERSJA>GRUPA_PPK 1.00</WERSJA>\r\n    <GENERACJA>"@
        + generated + "</GENERACJA>\r\n    <PRACODAWCA>\r\n        <NIP>"@ + org.nip@
        + "</NIP>\r\n        <REGON>"@ + org.regon@ + "</REGON>\r\n        <KONTAKT>"@
        + org.contact_person@ + "</KONTAKT>\r\n    </PRACODAWCA>\r\n    <DANE_UCZESTNIKA>\r\n"@
        + xml_rows(rows, period_str(year, month)) + "    </DANE_UCZESTNIKA>\r\n</PPK>\r\n"@
}

/// Appends one participant section for `c`.
#[verifier::rlimit(100)]
fn push_row(out: &mut String, c: &ContributionWithMember, period: &str)
    ensures
        final(out)@ == old(out)@ + xml_row(*c, period@),
{
    out.append("        <UCZESTNIK>\r\n            <NR_PESEL>");
    out.append(c.pesel.as_str());
    out.append("</NR_PESEL>\r\n            <DOK_TOZ_TYP>");
    out.append(c.doc_type.as_str());
    out.append("</DOK_TOZ_TYP>\r\n            <DOK_TOZ_SYM>");
    out.append(c.doc_number.as_str());
    out.append("</DOK_TOZ_SYM>\r\n            <NAZWISKO>");
    let last_up = to_upper(c.last_name.as_str());
    out.append(last_up.as_str());
    out.append("</NAZWISKO>\r\n            <IMIE>");
    let first_up = to_upper(c.first_name.as_str());
    out.append(first_up.as_str());
    out.append("</IMIE>\r\n            <PLEC>");
    out.append(c.gender.as_str());
    out.append("</PLEC>\r\n            <IMIE_2>");
    let second_up = to_upper(c.second_name.as_str());
    out.append(second_up.as_str());
    out.append("</IMIE_2>\r\n            <OBYW>");
    out.append(c.citizenship.as_str());
    out.append("</OBYW>\r\n            <DATA_UR>");
    out.append(c.date_of_birth.as_str());
    out.append("</DATA_UR>\r\n            <SKLADKA>\r\n                <UCZ_WAR_POD>");
    let a1 = format_dot_decimal(c.employee_basic.as_str());
    out.append(a1.as_str());
    out.append("</UCZ_WAR_POD>\r\n                <UCZ_WAR_DOD>");
    let a2 = format_dot_decimal(c.employee_additional.as_str());
    out.append(a2.as_str());
    out.append("</UCZ_WAR_DOD>\r\n                <FIR_WAR_POD>");
    let a3 = format_dot_decimal(c.employer_basic.as_str());
    out.append(a3.as_str());
    out.append("</FIR_WAR_POD>\r\n                <FIR_WAR_DOD>");
    let a4 = format_dot_decimal(c.employer_additional.as_str());
    out.append(a4.as_str());
    out.append("</FIR_WAR_DOD>\r\n                <UCZ_OBNIZ_SKL_POD>");
    out.append(c.reduced_basic_flag.as_str());
    out.append("</UCZ_OBNIZ_SKL_POD>\r\n                <SKL_ZA_OKRES>");
    out.append(period);
    out.append("</SKL_ZA_OKRES>\r\n            </SKLADKA>\r\n        </UCZESTNIK>\r\n");
    proof {
        assert(final(out)@ =~= old(out)@ + xml_row(*c, period@));
    }
}

/// Builds the structured document for an ordered dataset, its period and a
/// caller-supplied generation timestamp.
///
/// The result is exactly the document text: declaration, version marker,
/// the given timestamp, the employer block, one section per contribution in
/// order, and the closing tags, CRLF-terminated throughout.
pub fn build_at(
    org: &Organization,
    contributions: &[ContributionWithMember],
    period_year: i32,
    period_month: i32,
    generated_at: &str,
) -> (r: String)
    ensures
        r@ == xml_text(
            *org,
            contributions@,
            period_year as int,
            period_month as int,
            generated_at@,
        ),
{
    let mut period = String::new();
    push_pad_i64(&mut period, period_year as i64, 4);
    period.append("-");
    push_pad_i64(&mut period, period_month as i64, 2);
    proof {
        reveal_strlit("-");
        assert(period@ =~= period_str(period_year as int, period_month as int));
    }
    let mut out = String::new();
    out.append(
        "<?xml version=\"1.0\" encoding=\"utf-8\"?>\r\n<PPK>\r\n    <WERSJA>GRUPA_PPK 1.00</WERSJA>\r\n    <GENERACJA>",
    );
    out.append(generated_at);
    out.append("</GENERACJA>\r\n    <PRACODAWCA>\r\n        <NIP>");
    out.append(org.nip.as_str());
    out.append("</NIP>\r\n        <REGON>");
    out.append(org.regon.as_str());
    out.append("</REGON>\r\n        <KONTAKT>");
    out.append(org.contact_person.as_str());
    out.append("</KONTAKT>\r\n    </PRACODAWCA>\r\n    <DANE_UCZESTNIKA>\r\n");
    let ghost head = out@;
    let n = contributions.len();
    let mut i: usize = 0;
    proof {
        assert(out@ =~= head + xml_rows(contributions@.subrange(0, 0), period@));
    }
    while i < n
        invariant
            n == contributions@.len(),
            out@ == head + xml_rows(contributions@.subrange(0, i as int), period@),
            period@ == period_str(period_year as int, period_month as int),
            i <= n,
        decreases n - i,
    {
        let c = &contributions[i];
        push_row(&mut out, c, period.as_str());
        proof {
            let pre = contributions@.subrange(0, i + 1);
            assert(pre.drop_last() =~= contributions@.subrange(0, i as int));
            assert(pre.last() == contributions@[i as int]);
            assert(out@ =~= head + xml_rows(pre, period@));
        }
        i = i + 1;
    }
    out.append("    </DANE_UCZESTNIKA>\r\n</PPK>\r\n");
    proof {
        assert(contributions@.subrange(0, n as int) =~= contributions@);
        assert(out@ =~= xml_text(
            *org,
            contributions@,
            period_year as int,
            period_month as int,
            generated_at@,
        ));
    }
    out
}

/// Builds the structured document, stamping it with the current local time.
///
/// Apart from the timestamp the result is a pure function of its arguments:
/// it is the document text for the dataset, the period and some timestamp
/// string.
pub fn build(
    org: &Organization,
    contributions: &[ContributionWithMember],
    period_year: i32,
    period_month: i32,
) -> (r: String)
    ensures
        exists|ts: Seq<char>|
            r@ == xml_text(*org, contributions@, period_year as int, period_month as int, ts),
{
    let (display, _compact) = now_strings();
    let r = build_at(org, contributions, period_year, period_month, display.as_str());
    proof {
        assert(r@ == xml_text(
            *org,
            contributions@,
            period_year as int,
            period_month as int,
            display@,
        ));
    }
    r
}

} // verus!
