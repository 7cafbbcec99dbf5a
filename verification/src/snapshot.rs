//! The frozen dataset behind one filing generation, and its blob codec.
//!
//! A generation stores the organization, the joined dataset and the period
//! as one opaque text blob. The encoding is a flat list of length-prefixed
//! fields; decoding inverts it exactly, which is what lets a past filing be
//! reproduced byte for byte after the live records change.

use vstd::prelude::*;
use crate::models::{ContributionWithMember, Organization};
use crate::text::{
    all_digits, dec_int, dec_nat, digit_val, digit_value_of, digits_to_nat, is_dec_digit,
    lemma_canonical_digits, lemma_dec_nat_digits, lemma_dec_nat_leading, lemma_dec_nat_round_trip,
    push_dec_i64, push_dec_u128, str_eq,
};
use vstd::string::StrSliceExecFns;
use vstd::string::StringExecFns;

verus! {

/// The immutable dataset behind one generation: organization, joined rows,
/// and the period.
#[derive(Clone, Debug, PartialEq, Eq)]
pub struct Snapshot {
    pub organization: Organization,
    pub contributions: Vec<ContributionWithMember>,
    pub period_year: i32,
    pub period_month: i32,
}

/// One encoded field: the decimal character count, a colon, the characters.
pub open spec fn enc_str(s: Seq<char>) -> Seq<char> {
    dec_nat(s.len()) + seq![':'] + s
}

/// A field list encoded back to back.
pub open spec fn enc_fields(fs: Seq<Seq<char>>) -> Seq<char>
    decreases fs.len(),
{
    if fs.len() == 0 {
        Seq::empty()
    } else {
        enc_fields(fs.drop_last()) + enc_str(fs.last())
    }
}

/// Where field `k` starts inside `enc_fields(fs)`.
pub open spec fn field_offset(fs: Seq<Seq<char>>, k: int) -> int {
    enc_fields(fs.subrange(0, k)).len() as int
}

/// Field `f` is encoded in `cs` starting at `pos`.
pub open spec fn is_field_at(cs: Seq<char>, pos: int, f: Seq<char>) -> bool {
    &&& 0 <= pos
    &&& pos + enc_str(f).len() <= cs.len()
    &&& cs.subrange(pos, pos + enc_str(f).len() as int) == enc_str(f)
}

/// The views of a list of strings.
pub open spec fn views_of(fields: Seq<String>) -> Seq<Seq<char>> {
    fields.map_values(|f: String| f@)
}

/// Reading a prefix of a digit string gives at most the whole value.
proof fn lemma_digits_to_nat_prefix_le(s: Seq<char>, k: int)
    requires
        0 <= k <= s.len(),
    ensures
        digits_to_nat(s.subrange(0, k)) <= digits_to_nat(s),
    decreases s.len(),
{
    if k < s.len() {
        assert(s.drop_last().subrange(0, k) =~= s.subrange(0, k));
        lemma_digits_to_nat_prefix_le(s.drop_last(), k);
        assert(digits_to_nat(s) == digits_to_nat(s.drop_last()) * 10 + digit_val(s.last()));
        assert(digits_to_nat(s.drop_last()) * 10 >= digits_to_nat(s.drop_last()));
        assert(digit_val(s.last()) >= 0);
    } else {
        assert(s.subrange(0, k) =~= s);
    }
}

/// A field encoding is at least two characters long.
proof fn lemma_enc_str_len(f: Seq<char>)
    ensures
        enc_str(f).len() == dec_nat(f.len()).len() + 1 + f.len(),
        enc_str(f).len() >= 2 + f.len(),
{
    lemma_dec_nat_digits(f.len());
}

/// Encoding one more field appends its encoding.
proof fn lemma_enc_fields_snoc(fs: Seq<Seq<char>>, f: Seq<char>)
    ensures
        enc_fields(fs.push(f)) == enc_fields(fs) + enc_str(f),
{
    assert(fs.push(f).drop_last() =~= fs);
    assert(fs.push(f).last() == f);
}

/// A field stays where it is when more text follows.
proof fn lemma_field_at_extend(cs: Seq<char>, more: Seq<char>, pos: int, f: Seq<char>)
    requires
        is_field_at(cs, pos, f),
    ensures
        is_field_at(cs + more, pos, f),
{
    assert((cs + more).subrange(pos, pos + enc_str(f).len() as int) =~= cs.subrange(
        pos,
        pos + enc_str(f).len() as int,
    ));
}

/// Field `k` of an encoded field list sits at its offset, and the next
/// offset follows directly after it.
proof fn lemma_field_at(fs: Seq<Seq<char>>, k: int)
    requires
        0 <= k < fs.len(),
    ensures
        is_field_at(enc_fields(fs), field_offset(fs, k), fs[k]),
        field_offset(fs, k + 1) == field_offset(fs, k) + enc_str(fs[k]).len(),
        field_offset(fs, k) >= 0,
    decreases fs.len(),
{
    if k == fs.len() - 1 {
        assert(fs.subrange(0, k) =~= fs.drop_last());
        assert(fs.subrange(0, k + 1) =~= fs);
        let head = enc_fields(fs.drop_last());
        assert(enc_fields(fs) == head + enc_str(fs.last()));
        assert(enc_fields(fs).subrange(
            head.len() as int,
            head.len() + enc_str(fs[k]).len() as int,
        ) =~= enc_str(fs[k]));
    } else {
        assert(fs.drop_last().subrange(0, k) =~= fs.subrange(0, k));
        assert(fs.drop_last().subrange(0, k + 1) =~= fs.subrange(0, k + 1));
        assert(fs.drop_last()[k] == fs[k]);
        lemma_field_at(fs.drop_last(), k);
        lemma_field_at_extend(
            enc_fields(fs.drop_last()),
            enc_str(fs.last()),
            field_offset(fs, k),
            fs[k],
        );
    }
}

/// The offset after the last field is the whole encoding, and every earlier
/// offset is strictly inside it.
proof fn lemma_field_offsets(fs: Seq<Seq<char>>, k: int)
    requires
        0 <= k <= fs.len(),
    ensures
        k < fs.len() ==> field_offset(fs, k) < enc_fields(fs).len(),
        k == fs.len() ==> field_offset(fs, k) == enc_fields(fs).len(),
    decreases fs.len() - k,
{
    if k == fs.len() {
        assert(fs.subrange(0, k) =~= fs);
    } else {
        lemma_field_at(fs, k);
        lemma_enc_str_len(fs[k]);
        lemma_field_offsets(fs, k + 1);
    }
}

/// Whether `chars[i]` is a decimal digit.
fn digit_at(chars: &Vec<char>, i: usize) -> (r: bool)
    requires
        i < chars@.len(),
    ensures
        r == is_dec_digit(chars@[i as int]),
{
    crate::text::char_is_digit(chars[i])
}

/// Parses one length-prefixed field of `chars` starting at `pos`.
///
/// Whenever a field really is encoded at `pos`, this returns exactly that
/// field and stops exactly after it, and conversely it accepts nothing but
/// a canonically encoded field; the cursor always advances on success.
#[verifier::rlimit(100)]
fn parse_field(chars: &Vec<char>, pos: usize) -> (r: Option<(String, usize)>)
    requires
        pos <= chars@.len(),
    ensures
        r matches Some(p) ==> pos < p.1 <= chars@.len(),
        r matches Some(p) ==> is_field_at(chars@, pos as int, p.0@) && p.1 as int == pos + enc_str(
            p.0@,
        ).len(),
        forall|f: Seq<char>|
            is_field_at(chars@, pos as int, f) ==> (r matches Some(p) && p.0@ == f && p.1 as int
                == pos + enc_str(f).len()),
{
    let n = chars.len();
    let mut i: usize = pos;
    let mut val: u128 = 0;
    while i < n && digit_at(chars, i)
        invariant
            pos <= i <= n,
            n == chars@.len(),
            val <= usize::MAX as u128,
            val as nat == digits_to_nat(chars@.subrange(pos as int, i as int)),
            forall|j: int| pos <= j < i ==> is_dec_digit(#[trigger] chars@[j]),
        decreases n - i,
    {
        let d = digit_value_of(chars[i]);
        let nv: u128 = val * 10 + (d as u128);
        proof {
            assert(chars@.subrange(pos as int, i + 1).drop_last() =~= chars@.subrange(
                pos as int,
                i as int,
            ));
            assert(chars@.subrange(pos as int, i + 1).last() == chars@[i as int]);
            assert(nv as nat == digits_to_nat(chars@.subrange(pos as int, i + 1)));
        }
        if nv > usize::MAX as u128 {
            proof {
                assert forall|f: Seq<char>| !is_field_at(chars@, pos as int, f) by {
                    if is_field_at(chars@, pos as int, f) {
                        field_prefix_bound(chars@, pos as int, f, i + 1);
                    }
                }
            }
            return None;
        }
        val = nv;
        i = i + 1;
    }
    if i == pos || i == n {
        proof {
            assert forall|f: Seq<char>| !is_field_at(chars@, pos as int, f) by {
                if is_field_at(chars@, pos as int, f) {
                    field_digit_run(chars@, pos as int, f, i as int, n as int);
                }
            }
        }
        return None;
    }
    let c = chars[i];
    if c != ':' {
        proof {
            assert forall|f: Seq<char>| !is_field_at(chars@, pos as int, f) by {
                if is_field_at(chars@, pos as int, f) {
                    field_digit_run(chars@, pos as int, f, i as int, n as int);
                }
            }
        }
        return None;
    }
    if i - pos > 1 && chars[pos] == '0' {
        proof {
            assert forall|f: Seq<char>| !is_field_at(chars@, pos as int, f) by {
                if is_field_at(chars@, pos as int, f) {
                    field_digit_run(chars@, pos as int, f, i as int, n as int);
                    if f.len() >= 1 {
                        lemma_dec_nat_leading(f.len());
                        assert(dec_nat(f.len())[0] != '0');
                        assert(chars@.subrange(pos as int, i as int)[0] == chars@[pos as int]);
                    } else {
                        lemma_dec_nat_digits(0);
                        assert(dec_nat(f.len()).len() == 1);
                    }
                }
            }
        }
        return None;
    }
    let start = i + 1;
    let need = val as usize;
    if need > n - start {
        proof {
            assert forall|f: Seq<char>| !is_field_at(chars@, pos as int, f) by {
                if is_field_at(chars@, pos as int, f) {
                    field_digit_run(chars@, pos as int, f, i as int, n as int);
                    lemma_dec_nat_round_trip(f.len());
                }
            }
        }
        return None;
    }
    let mut out = String::new();
    let mut j: usize = 0;
    while j < need
        invariant
            start + need <= n,
            n == chars@.len(),
            j <= need,
            out@ == chars@.subrange(start as int, start + j),
        decreases need - j,
    {
        out.push(chars[start + j]);
        proof {
            assert(out@ =~= chars@.subrange(start as int, start + j + 1));
        }
        j = j + 1;
    }
    proof {
        assert forall|f: Seq<char>|
            is_field_at(chars@, pos as int, f) implies out@ == f && (start + need) as int == pos
            + enc_str(f).len() by {
            field_digit_run(chars@, pos as int, f, i as int, n as int);
            lemma_dec_nat_round_trip(f.len());
            let dl = dec_nat(f.len()).len() as int;
            let el = enc_str(f).len() as int;
            assert(chars@.subrange(pos as int, pos + el) == enc_str(f));
            assert forall|t: int| 0 <= t < f.len() implies chars@[pos + dl + 1 + t] == f[t] by {
                assert(enc_str(f)[dl + 1 + t] == f[t]);
                assert(chars@[pos + dl + 1 + t] == chars@.subrange(pos as int, pos + el)[dl + 1
                    + t]);
            }
            assert(out@ =~= f);
        }
        // the scanned run is canonical, so exactly one field is encoded here
        let run = chars@.subrange(pos as int, i as int);
        assert(run.len() >= 1);
        assert(all_digits(run)) by {
            assert forall|t: int| 0 <= t < run.len() implies is_dec_digit(#[trigger] run[t]) by {
                assert(run[t] == chars@[pos + t]);
            }
        }
        if run.len() > 1 {
            assert(run[0] == chars@[pos as int]);
            assert(run[0] != '0');
        }
        lemma_canonical_digits(run);
        assert(dec_nat(val as nat) == run);
        assert(out@.len() == need);
        assert(enc_str(out@).len() == run.len() + 1 + need) by {
            lemma_enc_str_len(out@);
        }
        assert(chars@.subrange(pos as int, (start + need) as int) =~= enc_str(out@));
        assert(is_field_at(chars@, pos as int, out@));
    }
    Some((out, start + need))
}

/// Inside a field encoding the digit run before the colon is exactly the
/// length prefix: position facts used by the parser.
proof fn field_digit_run(cs: Seq<char>, pos: int, f: Seq<char>, i: int, n: int)
    requires
        is_field_at(cs, pos, f),
        n == cs.len(),
        pos <= i <= n,
        forall|j: int| pos <= j < i ==> is_dec_digit(#[trigger] cs[j]),
        i == n || !is_dec_digit(cs[i]),
    ensures
        i == pos + dec_nat(f.len()).len(),
        pos < i < n,
        cs[i] == ':',
        cs.subrange(pos, i) == dec_nat(f.len()),
        digits_to_nat(cs.subrange(pos, i)) == f.len(),
        pos + enc_str(f).len() == i + 1 + f.len(),
        f =~= cs.subrange(i + 1, i + 1 + f.len() as int),
{
    lemma_dec_nat_digits(f.len());
    lemma_enc_str_len(f);
    let dl = dec_nat(f.len()).len() as int;
    let el = enc_str(f).len() as int;
    assert forall|t: int| 0 <= t < dl implies cs[pos + t] == dec_nat(f.len())[t] by {
        assert(cs.subrange(pos, pos + el)[t] == cs[pos + t]);
        assert(enc_str(f)[t] == dec_nat(f.len())[t]);
    }
    assert(cs[pos + dl] == enc_str(f)[dl]) by {
        assert(cs.subrange(pos, pos + el)[dl] == cs[pos + dl]);
    }
    assert(enc_str(f)[dl] == ':');
    // the scan cannot stop before the colon: every prefix position is a digit
    if i < pos + dl {
        assert(cs[i] == dec_nat(f.len())[i - pos]);
        assert(is_dec_digit(cs[i]));
        assert(i < n);
        assert(false);
    }
    // the scan cannot pass the colon, which is not a digit
    if i > pos + dl {
        assert(is_dec_digit(cs[pos + dl]));
        assert(false);
    }
    assert(cs.subrange(pos, i) =~= dec_nat(f.len()));
    lemma_dec_nat_round_trip(f.len());
    assert forall|t: int| 0 <= t < f.len() implies cs[i + 1 + t] == f[t] by {
        assert(cs.subrange(pos, pos + el)[dl + 1 + t] == cs[i + 1 + t]);
        assert(enc_str(f)[dl + 1 + t] == f[t]);
    }
    assert(f =~= cs.subrange(i + 1, i + 1 + f.len() as int));
}

/// A partial digit scan inside a field encoding never exceeds the text
/// length: the scanned value is bounded by the encoded field length.
proof fn field_prefix_bound(cs: Seq<char>, pos: int, f: Seq<char>, i: int)
    requires
        is_field_at(cs, pos, f),
        pos <= i <= cs.len(),
        forall|j: int| pos <= j < i ==> is_dec_digit(#[trigger] cs[j]),
    ensures
        digits_to_nat(cs.subrange(pos, i)) <= cs.len(),
{
    lemma_dec_nat_digits(f.len());
    lemma_enc_str_len(f);
    let dl = dec_nat(f.len()).len() as int;
    let el = enc_str(f).len() as int;
    assert(cs[pos + dl] == enc_str(f)[dl]) by {
        assert(cs.subrange(pos, pos + el)[dl] == cs[pos + dl]);
    }
    assert(enc_str(f)[dl] == ':');
    if i > pos + dl {
        assert(is_dec_digit(cs[pos + dl]));
        assert(false);
    }
    assert forall|t: int| 0 <= t < dl implies cs[pos + t] == dec_nat(f.len())[t] by {
        assert(cs.subrange(pos, pos + el)[t] == cs[pos + t]);
        assert(enc_str(f)[t] == dec_nat(f.len())[t]);
    }
    assert(cs.subrange(pos, pos + dl) =~= dec_nat(f.len()));
    assert(cs.subrange(pos, pos + dl).subrange(0, i - pos) =~= cs.subrange(pos, i));
    lemma_digits_to_nat_prefix_le(cs.subrange(pos, pos + dl), i - pos);
    lemma_dec_nat_round_trip(f.len());
    assert(digits_to_nat(cs.subrange(pos, i)) <= f.len());
}

/// Splits a blob into its encoded fields.
///
/// Whenever the blob is exactly an encoded field list, this returns exactly
/// those fields; conversely, whatever it returns re-encodes to the blob.
fn decode_fields(chars: &Vec<char>) -> (r: Option<Vec<String>>)
    ensures
        r matches Some(out) ==> chars@ == enc_fields(views_of(out@)),
        forall|fs: Seq<Seq<char>>|
            chars@ == enc_fields(fs) ==> (r matches Some(out) && views_of(out@) =~= fs),
{
    let n = chars.len();
    let mut out: Vec<String> = Vec::new();
    let mut pos: usize = 0;
    proof {
        assert(views_of(out@) =~= Seq::<Seq<char>>::empty());
        assert(chars@.subrange(0, 0) =~= enc_fields(views_of(out@)));
    }
    while pos < n
        invariant
            n == chars@.len(),
            pos <= n,
            chars@.subrange(0, pos as int) == enc_fields(views_of(out@)),
            forall|fs: Seq<Seq<char>>|
                chars@ == enc_fields(fs) ==> out@.len() <= fs.len() && pos as int == field_offset(
                    fs,
                    out@.len() as int,
                ) && (forall|j: int| 0 <= j < out@.len() ==> (#[trigger] out@[j])@ == fs[j]),
        decreases n - pos,
    {
        let parsed = parse_field(chars, pos);
        match parsed {
            None => {
                proof {
                    assert forall|fs: Seq<Seq<char>>| chars@ != enc_fields(fs) by {
                        if chars@ == enc_fields(fs) {
                            let k = out@.len() as int;
                            lemma_field_offsets(fs, k);
                            assert(k < fs.len());
                            lemma_field_at(fs, k);
                        }
                    }
                }
                return None;
            },
            Some(p) => {
                let (field, newpos) = p;
                proof {
                    assert forall|fs: Seq<Seq<char>>|
                        chars@ == enc_fields(fs) implies out@.len() + 1 <= fs.len() && newpos as int
                        == field_offset(fs, out@.len() + 1 as int) && field@ == fs[out@.len() as int] by {
                        let k = out@.len() as int;
                        lemma_field_offsets(fs, k);
                        lemma_field_at(fs, k);
                    }
                    // the accepted field extends the re-encoded prefix
                    let vs = views_of(out@);
                    lemma_enc_fields_snoc(vs, field@);
                    assert(views_of(out@.push(field)) =~= vs.push(field@));
                    assert(chars@.subrange(pos as int, pos + enc_str(field@).len() as int)
                        == enc_str(field@));
                    assert(chars@.subrange(0, newpos as int) =~= chars@.subrange(0, pos as int)
                        + chars@.subrange(pos as int, newpos as int));
                    assert(chars@.subrange(0, newpos as int) =~= enc_fields(
                        views_of(out@.push(field)),
                    ));
                }
                out.push(field);
                pos = newpos;
            },
        }
    }
    proof {
        assert(chars@.subrange(0, n as int) =~= chars@);
        assert forall|fs: Seq<Seq<char>>|
            chars@ == enc_fields(fs) implies out@.len() == fs.len() && views_of(out@) =~= fs by {
            let k = out@.len() as int;
            if k < fs.len() {
                lemma_field_offsets(fs, k);
                assert(false);
            }
            assert(views_of(out@).len() == fs.len());
            assert forall|j: int| 0 <= j < fs.len() implies views_of(out@)[j] == fs[j] by {
                assert(out@[j]@ == fs[j]);
            }
        }
    }
    Some(out)
}

/// Encodes a field list back to back.
fn encode_fields(fields: &Vec<String>) -> (r: String)
    ensures
        r@ == enc_fields(views_of(fields@)),
{
    let n = fields.len();
    let mut out = String::new();
    let mut i: usize = 0;
    while i < n
        invariant
            n == fields@.len(),
            i <= n,
            out@ == enc_fields(views_of(fields@.subrange(0, i as int))),
        decreases n - i,
    {
        let f = &fields[i];
        let flen = f.as_str().unicode_len();
        push_dec_u128(&mut out, flen as u128);
        out.push(':');
        out.append(f.as_str());
        proof {
            let vs = views_of(fields@.subrange(0, i + 1));
            assert(views_of(fields@.subrange(0, i as int)) =~= vs.drop_last());
            assert(vs.last() == fields@[i as int]@);
            assert(out@ =~= enc_fields(vs.drop_last()) + enc_str(fields@[i as int]@));
        }
        i = i + 1;
    }
    proof {
        assert(fields@.subrange(0, n as int) =~= fields@);
    }
    out
}

/// The first ten fields of a snapshot: period, organization, row count.
pub open spec fn head_fields(s: Snapshot) -> Seq<Seq<char>> {
    seq![
        dec_int(s.period_year as int),
        dec_int(s.period_month as int),
        dec_int(s.organization.id as int),
        s.organization.name@,
        s.organization.nip@,
        s.organization.regon@,
        s.organization.contact_person@,
        s.organization.created_at@,
        s.organization.updated_at@,
        dec_nat(s.contributions@.len()),
    ]
}

/// The 21 fields of one joined row.
pub open spec fn row_fields(c: ContributionWithMember) -> Seq<Seq<char>> {
    seq![
        dec_int(c.id as int),
        dec_int(c.member_id as int),
        dec_int(c.period_year as int),
        dec_int(c.period_month as int),
        c.employee_basic@,
        c.employee_additional@,
        c.employer_basic@,
        c.employer_additional@,
        c.reduced_basic_flag@,
        c.source@,
        c.updated_at@,
        c.pesel@,
        c.first_name@,
        c.last_name@,
        c.gender@,
        c.date_of_birth@,
        c.citizenship@,
        c.second_name@,
        c.doc_type@,
        c.doc_number@,
        c.member_status@,
    ]
}

/// The row fields of a dataset, flattened in order.
pub open spec fn rows_fields(rows: Seq<ContributionWithMember>) -> Seq<Seq<char>>
    decreases rows.len(),
{
    if rows.len() == 0 {
        Seq::empty()
    } else {
        rows_fields(rows.drop_last()) + row_fields(rows.last())
    }
}

/// The full field list of a snapshot.
pub open spec fn snap_fields(s: Snapshot) -> Seq<Seq<char>> {
    head_fields(s) + rows_fields(s.contributions@)
}

/// What the stored blob of snapshot `s` holds.
pub open spec fn snapshot_enc(s: Snapshot) -> Seq<char> {
    enc_fields(snap_fields(s))
}

/// Two rows agree on every field.
pub open spec fn row_eq(a: ContributionWithMember, b: ContributionWithMember) -> bool {
    &&& a.id == b.id
    &&& a.member_id == b.member_id
    &&& a.period_year == b.period_year
    &&& a.period_month == b.period_month
    &&& a.employee_basic@ == b.employee_basic@
    &&& a.employee_additional@ == b.employee_additional@
    &&& a.employer_basic@ == b.employer_basic@
    &&& a.employer_additional@ == b.employer_additional@
    &&& a.reduced_basic_flag@ == b.reduced_basic_flag@
    &&& a.source@ == b.source@
    &&& a.updated_at@ == b.updated_at@
    &&& a.pesel@ == b.pesel@
    &&& a.first_name@ == b.first_name@
    &&& a.last_name@ == b.last_name@
    &&& a.gender@ == b.gender@
    &&& a.date_of_birth@ == b.date_of_birth@
    &&& a.citizenship@ == b.citizenship@
    &&& a.second_name@ == b.second_name@
    &&& a.doc_type@ == b.doc_type@
    &&& a.doc_number@ == b.doc_number@
    &&& a.member_status@ == b.member_status@
}

/// Two organizations agree on every field.
pub open spec fn org_eq(a: Organization, b: Organization) -> bool {
    &&& a.id == b.id
    &&& a.name@ == b.name@
    &&& a.nip@ == b.nip@
    &&& a.regon@ == b.regon@
    &&& a.contact_person@ == b.contact_person@
    &&& a.created_at@ == b.created_at@
    &&& a.updated_at@ == b.updated_at@
}

/// Two snapshots agree field for field.
pub open spec fn snap_matches(a: Snapshot, b: Snapshot) -> bool {
    &&& org_eq(a.organization, b.organization)
    &&& a.period_year == b.period_year
    &&& a.period_month == b.period_month
    &&& a.contributions@.len() == b.contributions@.len()
    &&& forall|j: int|
        0 <= j < a.contributions@.len() ==> row_eq(
            #[trigger] a.contributions@[j],
            b.contributions@[j],
        )
}

/// A dataset of `n` rows flattens to `21 * n` fields.
proof fn lemma_rows_fields_len(rows: Seq<ContributionWithMember>)
    ensures
        rows_fields(rows).len() == 21 * rows.len(),
    decreases rows.len(),
{
    if rows.len() > 0 {
        lemma_rows_fields_len(rows.drop_last());
    }
}

/// Field `21 * j + t` of the flattened rows is field `t` of row `j`.
proof fn lemma_rows_fields_index(rows: Seq<ContributionWithMember>, j: int, t: int)
    requires
        0 <= j < rows.len(),
        0 <= t < 21,
    ensures
        rows_fields(rows)[21 * j + t] == row_fields(rows[j])[t],
    decreases rows.len(),
{
    lemma_rows_fields_len(rows.drop_last());
    if j == rows.len() - 1 {
        assert(rows.last() == rows[j]);
    } else {
        lemma_rows_fields_index(rows.drop_last(), j, t);
        assert(rows.drop_last()[j] == rows[j]);
        assert(21 * j + t < 21 * (rows.len() - 1));
    }
}

/// Converts a string slice into its characters.
fn str_chars(s: &str) -> (r: Vec<char>)
    ensures
        r@ == s@,
{
    let n = s.unicode_len();
    let mut r: Vec<char> = Vec::new();
    let mut i: usize = 0;
    while i < n
        invariant
            n == s@.len(),
            i <= n,
            r@ == s@.subrange(0, i as int),
        decreases n - i,
    {
        r.push(s.get_char(i));
        proof {
            assert(r@ =~= s@.subrange(0, i + 1));
        }
        i = i + 1;
    }
    proof {
        assert(s@.subrange(0, n as int) =~= s@);
    }
    r
}

/// Reads the decimal digits of `s` from `start` to the end.
///
/// Whenever that suffix is exactly the decimal rendering of a value up to
/// `u64::MAX`, this returns exactly that value.
fn str_to_u_part(s: &str, start: usize) -> (r: Option<u128>)
    requires
        start <= s@.len(),
    ensures
        forall|n: nat|
            n <= u64::MAX && s@.subrange(start as int, s@.len() as int) == dec_nat(n) ==> r
                == Some(n as u128),
{
    let len = s.unicode_len();
    if start == len {
        proof {
            assert forall|n: nat|
                !(n <= u64::MAX && s@.subrange(start as int, s@.len() as int) == dec_nat(n)) by {
                lemma_dec_nat_digits(n);
            }
        }
        return None;
    }
    let mut val: u128 = 0;
    let mut i: usize = start;
    while i < len
        invariant
            start <= i <= len,
            len == s@.len(),
            val <= u64::MAX as u128,
            val as nat == digits_to_nat(s@.subrange(start as int, i as int)),
            forall|j: int| start <= j < i ==> is_dec_digit(#[trigger] s@[j]),
        decreases len - i,
    {
        let c = s.get_char(i);
        if !crate::text::char_is_digit(c) {
            proof {
                assert forall|n: nat|
                    !(n <= u64::MAX && s@.subrange(start as int, s@.len() as int) == dec_nat(n)) by {
                    if s@.subrange(start as int, s@.len() as int) == dec_nat(n) {
                        lemma_dec_nat_digits(n);
                        assert(dec_nat(n)[i - start] == s@[i as int]);
                    }
                }
            }
            return None;
        }
        let d = digit_value_of(c);
        let nv: u128 = val * 10 + (d as u128);
        proof {
            assert(s@.subrange(start as int, i + 1).drop_last() =~= s@.subrange(
                start as int,
                i as int,
            ));
            assert(s@.subrange(start as int, i + 1).last() == s@[i as int]);
            assert(nv as nat == digits_to_nat(s@.subrange(start as int, i + 1)));
        }
        if nv > u64::MAX as u128 {
            proof {
                assert forall|n: nat|
                    !(n <= u64::MAX && s@.subrange(start as int, s@.len() as int) == dec_nat(n)) by {
                    if s@.subrange(start as int, s@.len() as int) == dec_nat(n) {
                        let suffix = s@.subrange(start as int, s@.len() as int);
                        assert(suffix.subrange(0, i + 1 - start) =~= s@.subrange(
                            start as int,
                            i + 1,
                        ));
                        lemma_digits_to_nat_prefix_le(suffix, i + 1 - start);
                        lemma_dec_nat_round_trip(n);
                    }
                }
            }
            return None;
        }
        val = nv;
        i = i + 1;
    }
    proof {
        assert forall|n: nat|
            n <= u64::MAX && s@.subrange(start as int, s@.len() as int) == dec_nat(n) implies Some(
            val,
        ) == Some(n as u128) by {
            lemma_dec_nat_round_trip(n);
        }
    }
    Some(val)
}

/// Reads a decimal integer with an optional leading minus sign.
///
/// Whenever `s` is exactly the decimal rendering of a 64-bit value, this
/// returns exactly that value.
fn str_to_i64(s: &str) -> (r: Option<i64>)
    ensures
        forall|v: int|
            i64::MIN <= v <= i64::MAX && s@ == dec_int(v) ==> r == Some(v as i64),
{
    let n = s.unicode_len();
    if n == 0 {
        proof {
            assert forall|v: int| s@ != dec_int(v) by {
                lemma_dec_nat_digits(if v < 0 {
                    (-v) as nat
                } else {
                    v as nat
                });
            }
        }
        return None;
    }
    let first = s.get_char(0);
    if first == '-' {
        let m = match str_to_u_part(s, 1) {
            Some(m) => m,
            None => {
                proof {
                    assert forall|v: int|
                        !(i64::MIN <= v <= i64::MAX && s@ == dec_int(v)) by {
                        if i64::MIN <= v <= i64::MAX && s@ == dec_int(v) {
                            if v >= 0 {
                                lemma_dec_nat_digits(v as nat);
                                assert(s@[0] == dec_nat(v as nat)[0]);
                            } else {
                                assert(s@.subrange(1, s@.len() as int) =~= dec_nat((-v) as nat));
                            }
                        }
                    }
                }
                return None;
            },
        };
        if m > 0x8000000000000000u128 {
            proof {
                assert forall|v: int|
                    !(i64::MIN <= v <= i64::MAX && s@ == dec_int(v)) by {
                    if i64::MIN <= v <= i64::MAX && s@ == dec_int(v) {
                        if v >= 0 {
                            lemma_dec_nat_digits(v as nat);
                            assert(s@[0] == dec_nat(v as nat)[0]);
                        } else {
                            assert(s@.subrange(1, s@.len() as int) =~= dec_nat((-v) as nat));
                        }
                    }
                }
            }
            return None;
        }
        let r: i64 = if m == 0x8000000000000000u128 {
            i64::MIN
        } else {
            -(m as i64)
        };
        proof {
            assert forall|v: int|
                i64::MIN <= v <= i64::MAX && s@ == dec_int(v) implies Some(r) == Some(
                v as i64,
            ) by {
                if v >= 0 {
                    lemma_dec_nat_digits(v as nat);
                    assert(s@[0] == dec_nat(v as nat)[0]);
                } else {
                    assert(s@.subrange(1, s@.len() as int) =~= dec_nat((-v) as nat));
                }
            }
        }
        Some(r)
    } else {
        let m = match str_to_u_part(s, 0) {
            Some(m) => m,
            None => {
                proof {
                    assert forall|v: int|
                        !(i64::MIN <= v <= i64::MAX && s@ == dec_int(v)) by {
                        if i64::MIN <= v <= i64::MAX && s@ == dec_int(v) {
                            if v < 0 {
                                assert(s@[0] == '-');
                            } else {
                                assert(s@.subrange(0, s@.len() as int) =~= dec_nat(v as nat));
                            }
                        }
                    }
                }
                return None;
            },
        };
        if m > i64::MAX as u128 {
            proof {
                assert forall|v: int|
                    !(i64::MIN <= v <= i64::MAX && s@ == dec_int(v)) by {
                    if i64::MIN <= v <= i64::MAX && s@ == dec_int(v) {
                        if v < 0 {
                            assert(s@[0] == '-');
                        } else {
                            assert(s@.subrange(0, s@.len() as int) =~= dec_nat(v as nat));
                        }
                    }
                }
            }
            return None;
        }
        proof {
            assert forall|v: int|
                i64::MIN <= v <= i64::MAX && s@ == dec_int(v) implies Some(m as i64) == Some(
                v as i64,
            ) by {
                if v < 0 {
                    assert(s@[0] == '-');
                } else {
                    assert(s@.subrange(0, s@.len() as int) =~= dec_nat(v as nat));
                }
            }
        }
        Some(m as i64)
    }
}

/// Reads an unsigned decimal count.
///
/// Whenever `s` is exactly the decimal rendering of a value that fits
/// `usize`, this returns exactly that value.
fn str_to_usize(s: &str) -> (r: Option<usize>)
    ensures
        forall|n: nat| n <= usize::MAX && s@ == dec_nat(n) ==> r == Some(n as usize),
{
    let m = match str_to_u_part(s, 0) {
        Some(m) => m,
        None => {
            proof {
                assert forall|n: nat| !(n <= usize::MAX && s@ == dec_nat(n)) by {
                    if n <= usize::MAX && s@ == dec_nat(n) {
                        assert(s@.subrange(0, s@.len() as int) =~= dec_nat(n));
                    }
                }
            }
            return None;
        },
    };
    if m > usize::MAX as u128 {
        proof {
            assert forall|n: nat| !(n <= usize::MAX && s@ == dec_nat(n)) by {
                if n <= usize::MAX && s@ == dec_nat(n) {
                    assert(s@.subrange(0, s@.len() as int) =~= dec_nat(n));
                }
            }
        }
        return None;
    }
    proof {
        assert forall|n: nat|
            n <= usize::MAX && s@ == dec_nat(n) implies Some(m as usize) == Some(n as usize) by {
            assert(s@.subrange(0, s@.len() as int) =~= dec_nat(n));
        }
    }
    Some(m as usize)
}

/// Encodes a snapshot into its stored blob.
#[verifier::rlimit(100)]
pub fn encode_snapshot(snap: &Snapshot) -> (r: String)
    ensures
        r@ == snapshot_enc(*snap),
{
    let mut fields: Vec<String> = Vec::new();
    fields.push(int_field(snap.period_year as i64));
    fields.push(int_field(snap.period_month as i64));
    fields.push(int_field(snap.organization.id));
    fields.push(snap.organization.name.clone());
    fields.push(snap.organization.nip.clone());
    fields.push(snap.organization.regon.clone());
    fields.push(snap.organization.contact_person.clone());
    fields.push(snap.organization.created_at.clone());
    fields.push(snap.organization.updated_at.clone());
    fields.push(nat_field(snap.contributions.len()));
    proof {
        assert(views_of(fields@) =~= head_fields(*snap) + rows_fields(
            snap.contributions@.subrange(0, 0),
        ));
    }
    let n = snap.contributions.len();
    let mut j: usize = 0;
    while j < n
        invariant
            n == snap.contributions@.len(),
            j <= n,
            views_of(fields@) == head_fields(*snap) + rows_fields(
                snap.contributions@.subrange(0, j as int),
            ),
        decreases n - j,
    {
        let c = &snap.contributions[j];
        fields.push(int_field(c.id));
        fields.push(int_field(c.member_id));
        fields.push(int_field(c.period_year as i64));
        fields.push(int_field(c.period_month as i64));
        fields.push(c.employee_basic.clone());
        fields.push(c.employee_additional.clone());
        fields.push(c.employer_basic.clone());
        fields.push(c.employer_additional.clone());
        fields.push(c.reduced_basic_flag.clone());
        fields.push(c.source.clone());
        fields.push(c.updated_at.clone());
        fields.push(c.pesel.clone());
        fields.push(c.first_name.clone());
        fields.push(c.last_name.clone());
        fields.push(c.gender.clone());
        fields.push(c.date_of_birth.clone());
        fields.push(c.citizenship.clone());
        fields.push(c.second_name.clone());
        fields.push(c.doc_type.clone());
        fields.push(c.doc_number.clone());
        fields.push(c.member_status.clone());
        proof {
            let pre = snap.contributions@.subrange(0, j + 1);
            assert(pre.drop_last() =~= snap.contributions@.subrange(0, j as int));
            assert(pre.last() == snap.contributions@[j as int]);
            assert(views_of(fields@) =~= (head_fields(*snap) + rows_fields(pre.drop_last()))
                + row_fields(pre.last()));
            assert(rows_fields(pre) == rows_fields(pre.drop_last()) + row_fields(pre.last()));
            assert(views_of(fields@) =~= head_fields(*snap) + rows_fields(pre));
        }
        j = j + 1;
    }
    proof {
        assert(snap.contributions@.subrange(0, n as int) =~= snap.contributions@);
    }
    encode_fields(&fields)
}

/// Where each of a snapshot's values sits in its field list.
proof fn lemma_snap_fields(fields: Seq<String>, s: Snapshot)
    requires
        views_of(fields) == snap_fields(s),
    ensures
        fields.len() == 10 + 21 * s.contributions@.len(),
        forall|k: int| 0 <= k < 10 ==> (#[trigger] fields[k])@ == head_fields(s)[k],
        forall|j: int, t: int|
            0 <= j < s.contributions@.len() && 0 <= t < 21 ==> (#[trigger] fields[10 + 21 * j
                + t])@ == row_fields(s.contributions@[j])[t],
{
    lemma_rows_fields_len(s.contributions@);
    assert(views_of(fields).len() == fields.len());
    assert forall|k: int| 0 <= k < 10 implies (#[trigger] fields[k])@ == head_fields(s)[k] by {
        assert(views_of(fields)[k] == fields[k]@);
        assert(snap_fields(s)[k] == head_fields(s)[k]);
    }
    assert forall|j: int, t: int|
        0 <= j < s.contributions@.len() && 0 <= t < 21 implies (#[trigger] fields[10 + 21 * j
        + t])@ == row_fields(s.contributions@[j])[t] by {
        lemma_rows_fields_index(s.contributions@, j, t);
        assert(views_of(fields)[10 + 21 * j + t] == fields[10 + 21 * j + t]@);
        assert(snap_fields(s)[10 + 21 * j + t] == rows_fields(s.contributions@)[21 * j + t]);
    }
}

/// The 21 field values of row `j`, spelled out at offset `base`.
proof fn lemma_snap_row_fields(fields: Seq<String>, s: Snapshot, j: int, base: int)
    requires
        views_of(fields) == snap_fields(s),
        0 <= j < s.contributions@.len(),
        base == 10 + 21 * j,
    ensures
        fields[base + 0]@ == dec_int(s.contributions@[j].id as int),
        fields[base + 1]@ == dec_int(s.contributions@[j].member_id as int),
        fields[base + 2]@ == dec_int(s.contributions@[j].period_year as int),
        fields[base + 3]@ == dec_int(s.contributions@[j].period_month as int),
        fields[base + 4]@ == s.contributions@[j].employee_basic@,
        fields[base + 5]@ == s.contributions@[j].employee_additional@,
        fields[base + 6]@ == s.contributions@[j].employer_basic@,
        fields[base + 7]@ == s.contributions@[j].employer_additional@,
        fields[base + 8]@ == s.contributions@[j].reduced_basic_flag@,
        fields[base + 9]@ == s.contributions@[j].source@,
        fields[base + 10]@ == s.contributions@[j].updated_at@,
        fields[base + 11]@ == s.contributions@[j].pesel@,
        fields[base + 12]@ == s.contributions@[j].first_name@,
        fields[base + 13]@ == s.contributions@[j].last_name@,
        fields[base + 14]@ == s.contributions@[j].gender@,
        fields[base + 15]@ == s.contributions@[j].date_of_birth@,
        fields[base + 16]@ == s.contributions@[j].citizenship@,
        fields[base + 17]@ == s.contributions@[j].second_name@,
        fields[base + 18]@ == s.contributions@[j].doc_type@,
        fields[base + 19]@ == s.contributions@[j].doc_number@,
        fields[base + 20]@ == s.contributions@[j].member_status@,
{
    lemma_snap_fields(fields, s);
    let c = s.contributions@[j];
    assert forall|t: int| 0 <= t < 21 implies fields[base + t]@ == row_fields(c)[t] by {
        assert(fields[10 + 21 * j + t]@ == row_fields(s.contributions@[j])[t]);
    }
    assert(fields[base + 0]@ == row_fields(c)[0]);
    assert(fields[base + 1]@ == row_fields(c)[1]);
    assert(fields[base + 2]@ == row_fields(c)[2]);
    assert(fields[base + 3]@ == row_fields(c)[3]);
    assert(fields[base + 4]@ == row_fields(c)[4]);
    assert(fields[base + 5]@ == row_fields(c)[5]);
    assert(fields[base + 6]@ == row_fields(c)[6]);
    assert(fields[base + 7]@ == row_fields(c)[7]);
    assert(fields[base + 8]@ == row_fields(c)[8]);
    assert(fields[base + 9]@ == row_fields(c)[9]);
    assert(fields[base + 10]@ == row_fields(c)[10]);
    assert(fields[base + 11]@ == row_fields(c)[11]);
    assert(fields[base + 12]@ == row_fields(c)[12]);
    assert(fields[base + 13]@ == row_fields(c)[13]);
    assert(fields[base + 14]@ == row_fields(c)[14]);
    assert(fields[base + 15]@ == row_fields(c)[15]);
    assert(fields[base + 16]@ == row_fields(c)[16]);
    assert(fields[base + 17]@ == row_fields(c)[17]);
    assert(fields[base + 18]@ == row_fields(c)[18]);
    assert(fields[base + 19]@ == row_fields(c)[19]);
    assert(fields[base + 20]@ == row_fields(c)[20]);
}

/// Row `c` re-renders exactly to the 21 fields at offset `base`.
pub open spec fn row_matches_fields(
    fields: Seq<String>,
    base: int,
    c: ContributionWithMember,
) -> bool {
    &&& fields[base + 0]@ == row_fields(c)[0]
    &&& fields[base + 1]@ == row_fields(c)[1]
    &&& fields[base + 2]@ == row_fields(c)[2]
    &&& fields[base + 3]@ == row_fields(c)[3]
    &&& fields[base + 4]@ == row_fields(c)[4]
    &&& fields[base + 5]@ == row_fields(c)[5]
    &&& fields[base + 6]@ == row_fields(c)[6]
    &&& fields[base + 7]@ == row_fields(c)[7]
    &&& fields[base + 8]@ == row_fields(c)[8]
    &&& fields[base + 9]@ == row_fields(c)[9]
    &&& fields[base + 10]@ == row_fields(c)[10]
    &&& fields[base + 11]@ == row_fields(c)[11]
    &&& fields[base + 12]@ == row_fields(c)[12]
    &&& fields[base + 13]@ == row_fields(c)[13]
    &&& fields[base + 14]@ == row_fields(c)[14]
    &&& fields[base + 15]@ == row_fields(c)[15]
    &&& fields[base + 16]@ == row_fields(c)[16]
    &&& fields[base + 17]@ == row_fields(c)[17]
    &&& fields[base + 18]@ == row_fields(c)[18]
    &&& fields[base + 19]@ == row_fields(c)[19]
    &&& fields[base + 20]@ == row_fields(c)[20]
}

/// Fields whose every position re-renders a snapshot's value are exactly
/// that snapshot's field list.
#[verifier::rlimit(100)]
proof fn lemma_fields_complete(fields: Seq<String>, snap: Snapshot)
    requires
        fields.len() == 10 + 21 * snap.contributions@.len(),
        fields[0]@ == dec_int(snap.period_year as int),
        fields[1]@ == dec_int(snap.period_month as int),
        fields[2]@ == dec_int(snap.organization.id as int),
        fields[3]@ == snap.organization.name@,
        fields[4]@ == snap.organization.nip@,
        fields[5]@ == snap.organization.regon@,
        fields[6]@ == snap.organization.contact_person@,
        fields[7]@ == snap.organization.created_at@,
        fields[8]@ == snap.organization.updated_at@,
        fields[9]@ == dec_nat(snap.contributions@.len()),
        forall|jj: int|
            0 <= jj < snap.contributions@.len() ==> row_matches_fields(
                fields,
                10 + 21 * jj,
                #[trigger] snap.contributions@[jj],
            ),
    ensures
        views_of(fields) == snap_fields(snap),
{
    lemma_rows_fields_len(snap.contributions@);
    assert forall|k: int|
        0 <= k < views_of(fields).len() implies views_of(fields)[k] == snap_fields(snap)[k] by {
        assert(views_of(fields)[k] == fields[k]@);
        if k < 10 {
            assert(snap_fields(snap)[k] == head_fields(snap)[k]);
            if k == 0 {
            } else if k == 1 {
            } else if k == 2 {
            } else if k == 3 {
            } else if k == 4 {
            } else if k == 5 {
            } else if k == 6 {
            } else if k == 7 {
            } else if k == 8 {
            } else {
                assert(k == 9);
            }
        } else {
            let j = (k - 10) / 21;
            let t = (k - 10) % 21;
            vstd::arithmetic::div_mod::lemma_fundamental_div_mod(k - 10, 21);
            assert(k == 10 + 21 * j + t);
            assert(0 <= t < 21);
            assert(0 <= j < snap.contributions@.len());
            lemma_rows_fields_index(snap.contributions@, j, t);
            assert(snap_fields(snap)[k] == rows_fields(snap.contributions@)[21 * j + t]);
            assert(row_matches_fields(fields, 10 + 21 * j, snap.contributions@[j]));
            if t == 0 {
            } else if t == 1 {
            } else if t == 2 {
            } else if t == 3 {
            } else if t == 4 {
            } else if t == 5 {
            } else if t == 6 {
            } else if t == 7 {
            } else if t == 8 {
            } else if t == 9 {
            } else if t == 10 {
            } else if t == 11 {
            } else if t == 12 {
            } else if t == 13 {
            } else if t == 14 {
            } else if t == 15 {
            } else if t == 16 {
            } else if t == 17 {
            } else if t == 18 {
            } else if t == 19 {
            } else {
                assert(t == 20);
            }
        }
    }
    assert(views_of(fields) =~= snap_fields(snap));
}

/// Rebuilds a snapshot from its decoded field list.
///
/// Whenever the fields are exactly a snapshot's field list, this returns a
/// snapshot that agrees with it field for field; conversely it accepts
/// nothing but field lists whose numeric fields are canonically rendered,
/// so whatever it returns has exactly these fields as its field list.
#[verifier::rlimit(100)]
fn fields_to_snapshot(fields: &Vec<String>) -> (r: Option<Snapshot>)
    ensures
        r matches Some(out) ==> views_of(fields@) == snap_fields(out),
        forall|s: Snapshot|
            views_of(fields@) == snap_fields(s) ==> (r matches Some(out) && snap_matches(out, s)),
{
    if fields.len() < 10 {
        proof {
            assert forall|s: Snapshot| views_of(fields@) != snap_fields(s) by {
                if views_of(fields@) == snap_fields(s) {
                    lemma_snap_fields(fields@, s);
                }
            }
        }
        return None;
    }
    let year = match str_to_i64(fields[0].as_str()) {
        Some(v) if i32::MIN as i64 <= v && v <= i32::MAX as i64 => v as i32,
        _ => {
            proof {
                assert forall|s: Snapshot| views_of(fields@) != snap_fields(s) by {
                    if views_of(fields@) == snap_fields(s) {
                        lemma_snap_fields(fields@, s);
                        assert(fields@[0]@ == dec_int(s.period_year as int));
                    }
                }
            }
            return None;
        },
    };
    if !str_eq(fields[0].as_str(), int_field(year as i64).as_str()) {
        proof {
            assert forall|s: Snapshot| views_of(fields@) != snap_fields(s) by {
                if views_of(fields@) == snap_fields(s) {
                    lemma_snap_fields(fields@, s);
                    assert(fields@[0]@ == dec_int(s.period_year as int));
                }
            }
        }
        return None;
    }
    assert(fields@[0]@ == dec_int(year as int));
    let month = match str_to_i64(fields[1].as_str()) {
        Some(v) if i32::MIN as i64 <= v && v <= i32::MAX as i64 => v as i32,
        _ => {
            proof {
                assert forall|s: Snapshot| views_of(fields@) != snap_fields(s) by {
                    if views_of(fields@) == snap_fields(s) {
                        lemma_snap_fields(fields@, s);
                        assert(fields@[1]@ == dec_int(s.period_month as int));
                    }
                }
            }
            return None;
        },
    };
    if !str_eq(fields[1].as_str(), int_field(month as i64).as_str()) {
        proof {
            assert forall|s: Snapshot| views_of(fields@) != snap_fields(s) by {
                if views_of(fields@) == snap_fields(s) {
                    lemma_snap_fields(fields@, s);
                    assert(fields@[1]@ == dec_int(s.period_month as int));
                }
            }
        }
        return None;
    }
    assert(fields@[1]@ == dec_int(month as int));
    let org_id = match str_to_i64(fields[2].as_str()) {
        Some(v) => v,
        None => {
            proof {
                assert forall|s: Snapshot| views_of(fields@) != snap_fields(s) by {
                    if views_of(fields@) == snap_fields(s) {
                        lemma_snap_fields(fields@, s);
                        assert(fields@[2]@ == dec_int(s.organization.id as int));
                    }
                }
            }
            return None;
        },
    };
    if !str_eq(fields[2].as_str(), int_field(org_id).as_str()) {
        proof {
            assert forall|s: Snapshot| views_of(fields@) != snap_fields(s) by {
                if views_of(fields@) == snap_fields(s) {
                    lemma_snap_fields(fields@, s);
                    assert(fields@[2]@ == dec_int(s.organization.id as int));
                }
            }
        }
        return None;
    }
    assert(fields@[2]@ == dec_int(org_id as int));
    let organization = Organization {
        id: org_id,
        name: fields[3].clone(),
        nip: fields[4].clone(),
        regon: fields[5].clone(),
        contact_person: fields[6].clone(),
        created_at: fields[7].clone(),
        updated_at: fields[8].clone(),
    };
    let count = match str_to_usize(fields[9].as_str()) {
        Some(v) => v,
        None => {
            proof {
                assert forall|s: Snapshot| views_of(fields@) != snap_fields(s) by {
                    if views_of(fields@) == snap_fields(s) {
                        lemma_snap_fields(fields@, s);
                        assert(fields@[9]@ == dec_nat(s.contributions@.len()));
                    }
                }
            }
            return None;
        },
    };
    if !str_eq(fields[9].as_str(), nat_field(count).as_str()) {
        proof {
            assert forall|s: Snapshot| views_of(fields@) != snap_fields(s) by {
                if views_of(fields@) == snap_fields(s) {
                    lemma_snap_fields(fields@, s);
                    assert(fields@[9]@ == dec_nat(s.contributions@.len()));
                }
            }
        }
        return None;
    }
    assert(fields@[9]@ == dec_nat(count as nat));
    if count > (usize::MAX - 10) / 21 || 10 + 21 * count != fields.len() {
        proof {
            assert forall|s: Snapshot| views_of(fields@) != snap_fields(s) by {
                if views_of(fields@) == snap_fields(s) {
                    lemma_snap_fields(fields@, s);
                    assert(fields@[9]@ == dec_nat(s.contributions@.len()));
                }
            }
        }
        return None;
    }
    let flen = fields.len();
    proof {
        assert forall|s: Snapshot|
            views_of(fields@) == snap_fields(s) implies count == s.contributions@.len() by {
            lemma_snap_fields(fields@, s);
            assert(fields@[9]@ == dec_nat(s.contributions@.len()));
        }
    }
    let mut rows: Vec<ContributionWithMember> = Vec::new();
    let mut j: usize = 0;
    while j < count
        invariant
            flen == fields@.len(),
            fields@.len() == 10 + 21 * count,
            j <= count,
            rows@.len() == j,
            forall|jj: int|
                0 <= jj < j ==> row_matches_fields(fields@, 10 + 21 * jj, #[trigger] rows@[jj]),
            forall|s: Snapshot|
                views_of(fields@) == snap_fields(s) ==> (count == s.contributions@.len() && (
                forall|k: int| 0 <= k < j ==> row_eq(#[trigger] rows@[k], s.contributions@[k]))),
        decreases count - j,
    {
        assert(10 + 21 * (j + 1) <= flen);
        let base: usize = 10 + 21 * j;
        assert(base + 21 <= fields@.len());
        let id = match str_to_i64(fields[base].as_str()) {
            Some(v) => v,
            None => {
                proof {
                    assert forall|s: Snapshot| views_of(fields@) != snap_fields(s) by {
                        if views_of(fields@) == snap_fields(s) {
                            lemma_snap_row_fields(fields@, s, j as int, base as int);
                        }
                    }
                }
                return None;
            },
        };
        let member_id = match str_to_i64(fields[base + 1].as_str()) {
            Some(v) => v,
            None => {
                proof {
                    assert forall|s: Snapshot| views_of(fields@) != snap_fields(s) by {
                        if views_of(fields@) == snap_fields(s) {
                            lemma_snap_row_fields(fields@, s, j as int, base as int);
                        }
                    }
                }
                return None;
            },
        };
        let row_year = match str_to_i64(fields[base + 2].as_str()) {
            Some(v) if i32::MIN as i64 <= v && v <= i32::MAX as i64 => v as i32,
            _ => {
                proof {
                    assert forall|s: Snapshot| views_of(fields@) != snap_fields(s) by {
                        if views_of(fields@) == snap_fields(s) {
                            lemma_snap_row_fields(fields@, s, j as int, base as int);
                        }
                    }
                }
                return None;
            },
        };
        let row_month = match str_to_i64(fields[base + 3].as_str()) {
            Some(v) if i32::MIN as i64 <= v && v <= i32::MAX as i64 => v as i32,
            _ => {
                proof {
                    assert forall|s: Snapshot| views_of(fields@) != snap_fields(s) by {
                        if views_of(fields@) == snap_fields(s) {
                            lemma_snap_row_fields(fields@, s, j as int, base as int);
                        }
                    }
                }
                return None;
            },
        };
        if !str_eq(fields[base].as_str(), int_field(id).as_str()) || !str_eq(
            fields[base + 1].as_str(),
            int_field(member_id).as_str(),
        ) || !str_eq(fields[base + 2].as_str(), int_field(row_year as i64).as_str()) || !str_eq(
            fields[base + 3].as_str(),
            int_field(row_month as i64).as_str(),
        ) {
            proof {
                assert forall|s: Snapshot| views_of(fields@) != snap_fields(s) by {
                    if views_of(fields@) == snap_fields(s) {
                        lemma_snap_row_fields(fields@, s, j as int, base as int);
                    }
                }
            }
            return None;
        }
        assert(fields@[base as int]@ == dec_int(id as int));
        assert(fields@[base + 1]@ == dec_int(member_id as int));
        assert(fields@[base + 2]@ == dec_int(row_year as int));
        assert(fields@[base + 3]@ == dec_int(row_month as int));
        let row = ContributionWithMember {
            id,
            member_id,
            period_year: row_year,
            period_month: row_month,
            employee_basic: fields[base + 4].clone(),
            employee_additional: fields[base + 5].clone(),
            employer_basic: fields[base + 6].clone(),
            employer_additional: fields[base + 7].clone(),
            reduced_basic_flag: fields[base + 8].clone(),
            source: fields[base + 9].clone(),
            updated_at: fields[base + 10].clone(),
            pesel: fields[base + 11].clone(),
            first_name: fields[base + 12].clone(),
            last_name: fields[base + 13].clone(),
            gender: fields[base + 14].clone(),
            date_of_birth: fields[base + 15].clone(),
            citizenship: fields[base + 16].clone(),
            second_name: fields[base + 17].clone(),
            doc_type: fields[base + 18].clone(),
            doc_number: fields[base + 19].clone(),
            member_status: fields[base + 20].clone(),
        };
        rows.push(row);
        proof {
            assert(rows@[j as int].id == id);
            assert(row_matches_fields(fields@, base as int, rows@[j as int]));
            assert(forall|jj: int|
                0 <= jj < j ==> row_matches_fields(
                    fields@,
                    10 + 21 * jj,
                    #[trigger] rows@[jj],
                ));
            assert forall|s: Snapshot|
                views_of(fields@) == snap_fields(s) implies (count == s.contributions@.len() && (
            forall|k: int| 0 <= k < j + 1 ==> row_eq(#[trigger] rows@[k], s.contributions@[k])))
                by {
                lemma_snap_fields(fields@, s);
                lemma_snap_row_fields(fields@, s, j as int, base as int);
                assert forall|k: int| 0 <= k < j + 1 implies row_eq(
                    #[trigger] rows@[k],
                    s.contributions@[k],
                ) by {
                    if k == j {
                        assert(fields@[base as int]@ == row_fields(s.contributions@[k])[0]);
                        assert(fields@[base + 1]@ == row_fields(s.contributions@[k])[1]);
                        assert(fields@[base + 2]@ == row_fields(s.contributions@[k])[2]);
                        assert(fields@[base + 3]@ == row_fields(s.contributions@[k])[3]);
                        assert(fields@[base + 4]@ == row_fields(s.contributions@[k])[4]);
                        assert(fields@[base + 5]@ == row_fields(s.contributions@[k])[5]);
                        assert(fields@[base + 6]@ == row_fields(s.contributions@[k])[6]);
                        assert(fields@[base + 7]@ == row_fields(s.contributions@[k])[7]);
                        assert(fields@[base + 8]@ == row_fields(s.contributions@[k])[8]);
                        assert(fields@[base + 9]@ == row_fields(s.contributions@[k])[9]);
                        assert(fields@[base + 10]@ == row_fields(s.contributions@[k])[10]);
                        assert(fields@[base + 11]@ == row_fields(s.contributions@[k])[11]);
                        assert(fields@[base + 12]@ == row_fields(s.contributions@[k])[12]);
                        assert(fields@[base + 13]@ == row_fields(s.contributions@[k])[13]);
                        assert(fields@[base + 14]@ == row_fields(s.contributions@[k])[14]);
                        assert(fields@[base + 15]@ == row_fields(s.contributions@[k])[15]);
                        assert(fields@[base + 16]@ == row_fields(s.contributions@[k])[16]);
                        assert(fields@[base + 17]@ == row_fields(s.contributions@[k])[17]);
                        assert(fields@[base + 18]@ == row_fields(s.contributions@[k])[18]);
                        assert(fields@[base + 19]@ == row_fields(s.contributions@[k])[19]);
                        assert(fields@[base + 20]@ == row_fields(s.contributions@[k])[20]);
                    }
                }
            }
        }
        j = j + 1;
    }
    let snap = Snapshot { organization, contributions: rows, period_year: year, period_month: month };
    proof {
        assert forall|s: Snapshot|
            views_of(fields@) == snap_fields(s) implies snap_matches(snap, s) by {
            lemma_snap_fields(fields@, s);
        }
        lemma_fields_complete(fields@, snap);
    }
    Some(snap)
}

/// Decodes a stored snapshot blob.
///
/// This inverts `encode_snapshot` exactly, in both directions: whenever the
/// blob is the encoding of a snapshot, decoding returns a snapshot that
/// agrees with it field for field, and whatever decoding returns encodes
/// back to exactly this blob, so a stored generation renders to the same
/// bytes forever and nothing but a stored snapshot decodes.
pub fn decode_snapshot(blob: &str) -> (r: Option<Snapshot>)
    ensures
        r matches Some(out) ==> blob@ == snapshot_enc(out),
        forall|s: Snapshot|
            blob@ == snapshot_enc(s) ==> (r matches Some(out) && snap_matches(out, s)),
{
    let chars = str_chars(blob);
    match decode_fields(&chars) {
        None => {
            proof {
                assert forall|s: Snapshot| blob@ != snapshot_enc(s) by {}
            }
            None
        },
        Some(fields) => {
            let r = fields_to_snapshot(&fields);
            proof {
                assert(chars@ == enc_fields(views_of(fields@)));
                assert forall|s: Snapshot|
                    blob@ == snapshot_enc(s) implies (r matches Some(out) && snap_matches(out, s))
                    by {
                    assert(views_of(fields@) =~= snap_fields(s));
                }
            }
            r
        },
    }
}

/// Renders `v` as its own decimal string.
fn int_field(v: i64) -> (r: String)
    ensures
        r@ == dec_int(v as int),
{
    let mut s = String::new();
    push_dec_i64(&mut s, v);
    s
}

/// Renders `n` as its own decimal string.
fn nat_field(n: usize) -> (r: String)
    ensures
        r@ == dec_nat(n as nat),
{
    let mut s = String::new();
    push_dec_u128(&mut s, n as u128);
    s
}

} // verus!
