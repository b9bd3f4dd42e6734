//! Expiry report parser.
//!
//! The external PKI tool prints one line per certificate. Only lines that
//! match the five-field grammar for still-valid certificates are considered:
//!
//! ```text
//! V | Serial: <hex> | Expire(s|d): <date> <time> | CN: <name>
//! ```
//!
//! with literal `" | "` separators and an optional `Expires: ` / `Expired: `
//! marker before the timestamp. Any other line is ignored without comment. A
//! record is classified expired exactly when its parsed instant lies strictly
//! before the single evaluation instant captured once for the whole report.
//! Instants are modelled as whole seconds since the Unix epoch.

use vstd::prelude::*;

use crate::username::{is_valid_username, Username};

verus! {

/// Hexadecimal serial digit: a decimal digit or an upper-case `A`–`F`.
pub open spec fn is_hex_char(c: char) -> bool {
    ('0' <= c && c <= '9') || ('A' <= c && c <= 'F')
}

/// A date character: a decimal digit or a hyphen.
pub open spec fn is_date_char(c: char) -> bool {
    ('0' <= c && c <= '9') || c == '-'
}

/// A time character: a decimal digit, a colon, `Z`, a plus or a hyphen.
pub open spec fn is_time_char(c: char) -> bool {
    ('0' <= c && c <= '9') || c == ':' || c == 'Z' || c == '+' || c == '-'
}

/// ASCII whitespace; a common name may not contain any of these.
pub open spec fn is_ws_char(c: char) -> bool {
    c == ' ' || c == '\t' || c == '\n' || c == '\r' || c == '\u{b}' || c == '\u{c}'
}

/// The character classes the report grammar scans over.
#[derive(Clone, Copy)]
pub enum CharClass {
    /// Hexadecimal serial digits.
    Hex,
    /// Date characters.
    Date,
    /// Time characters.
    Time,
    /// Common-name characters: anything but whitespace.
    Name,
    /// Line characters: anything but a newline.
    Line,
}

/// Whether `c` belongs to the class `cl`.
pub open spec fn spec_char_in_class(c: char, cl: CharClass) -> bool {
    match cl {
        CharClass::Hex => is_hex_char(c),
        CharClass::Date => is_date_char(c),
        CharClass::Time => is_time_char(c),
        CharClass::Name => !is_ws_char(c),
        CharClass::Line => c != '\n',
    }
}

/// First index at or past `i` whose character leaves the class, or the length.
pub open spec fn class_run_end(s: Seq<char>, i: int, cl: CharClass) -> int
    decreases s.len() - i
        when 0 <= i <= s.len()
{
    if i >= s.len() {
        i
    } else if spec_char_in_class(s[i], cl) {
        class_run_end(s, i + 1, cl)
    } else {
        i
    }
}

/// Bounds and characterization of a class run.
pub proof fn lemma_class_run(s: Seq<char>, i: int, cl: CharClass)
    requires
        0 <= i <= s.len(),
    ensures
        i <= class_run_end(s, i, cl) <= s.len(),
        forall|j: int| i <= j < class_run_end(s, i, cl) ==> spec_char_in_class(#[trigger] s[j], cl),
        class_run_end(s, i, cl) < s.len() ==> !spec_char_in_class(s[class_run_end(s, i, cl)], cl),
    decreases s.len() - i,
{
    if i < s.len() && spec_char_in_class(s[i], cl) {
        lemma_class_run(s, i + 1, cl);
    }
}

fn char_in_class(c: char, cl: CharClass) -> (r: bool)
    ensures
        r == spec_char_in_class(c, cl),
{
    match cl {
        CharClass::Hex => ('0' <= c && c <= '9') || ('A' <= c && c <= 'F'),
        CharClass::Date => ('0' <= c && c <= '9') || c == '-',
        CharClass::Time => ('0' <= c && c <= '9') || c == ':' || c == 'Z' || c == '+' || c == '-',
        CharClass::Name => !(c == ' ' || c == '\t' || c == '\n' || c == '\r' || c == '\u{b}' || c
            == '\u{c}'),
        CharClass::Line => c != '\n',
    }
}

/// Scan the run of class characters that starts at `i`.
fn scan_class(s: &str, i: usize, cl: CharClass) -> (r: usize)
    requires
        i <= s@.len(),
    ensures
        r == class_run_end(s@, i as int, cl),
        i <= r <= s@.len(),
{
    let n = s.unicode_len();
    let mut j = i;
    while j < n && char_in_class(s.get_char(j), cl)
        invariant
            i <= j <= n,
            n == s@.len(),
            class_run_end(s@, i as int, cl) == class_run_end(s@, j as int, cl),
        decreases n - j,
    {
        j += 1;
    }
    proof {
        assert(class_run_end(s@, j as int, cl) == j as int);
        lemma_class_run(s@, i as int, cl);
    }
    j
}

/// Whether `lit` occurs in `s` starting at position `i`.
fn match_at(s: &str, i: usize, lit: &str) -> (r: bool)
    requires
        i <= s@.len(),
    ensures
        r == (i + lit@.len() <= s@.len() && s@.subrange(i as int, i + lit@.len()) == lit@),
{
    let sn = s.unicode_len();
    let ln = lit.unicode_len();
    if sn - i < ln {
        proof {
            if i + lit@.len() <= s@.len() {
                assert(false);
            }
        }
        return false;
    }
    let mut k: usize = 0;
    while k < ln
        invariant
            sn == s@.len(),
            ln == lit@.len(),
            i + ln <= sn,
            0 <= k <= ln,
            forall|m: int| 0 <= m < k ==> s@[i + m] == lit@[m],
        decreases ln - k,
    {
        let sc = s.get_char(i + k);
        let lc = lit.get_char(k);
        if sc != lc {
            proof {
                assert(s@.subrange(i as int, i + lit@.len())[k as int] == sc);
                assert(s@.subrange(i as int, i + lit@.len()) != lit@);
            }
            return false;
        }
        k += 1;
    }
    proof {
        assert(s@.subrange(i as int, i + lit@.len()) =~= lit@) by {
            assert(forall|m: int|
                0 <= m < ln ==> #[trigger] s@.subrange(i as int, i + lit@.len())[m] == s@[i + m]);
        }
    }
    true
}

/// Where the timestamp starts after an optional `Expires: ` or `Expired: `
/// marker at `k`.
pub open spec fn marker_end(l: Seq<char>, k: int) -> int {
    let m1 = "Expires: "@;
    let m2 = "Expired: "@;
    if k + m1.len() <= l.len() && l.subrange(k, k + m1.len() as int) == m1 {
        k + m1.len()
    } else if k + m2.len() <= l.len() && l.subrange(k, k + m2.len() as int) == m2 {
        k + m2.len()
    } else {
        k
    }
}

/// Parse one report line against the certificate-line grammar; the fields are
/// serial, date, time and common name. Any line that does not match yields
/// nothing.
pub open spec fn parse_cert_line(l: Seq<char>) -> Option<
    (Seq<char>, Seq<char>, Seq<char>, Seq<char>),
> {
    let p0 = "V | Serial: "@;
    let sep = " | "@;
    let cn = " | CN: "@;
    if l.len() < p0.len() || l.subrange(0, p0.len() as int) != p0 {
        None
    } else {
        let i = p0.len() as int;
        let j = class_run_end(l, i, CharClass::Hex);
        if j == i {
            None
        } else if !(j + sep.len() <= l.len() && l.subrange(j, j + sep.len() as int) == sep) {
            None
        } else {
            let k = marker_end(l, j + sep.len() as int);
            let d = class_run_end(l, k, CharClass::Date);
            if d == k {
                None
            } else if !(d < l.len() && l[d] == ' ') {
                None
            } else {
                let t = class_run_end(l, d + 1, CharClass::Time);
                if t == d + 1 {
                    None
                } else if !(t + cn.len() <= l.len() && l.subrange(t, t + cn.len() as int) == cn) {
                    None
                } else {
                    let n0 = t + cn.len() as int;
                    if n0 < l.len() && class_run_end(l, n0, CharClass::Name) == l.len() {
                        Some(
                            (
                                l.subrange(i, j),
                                l.subrange(k, d),
                                l.subrange(d + 1, t),
                                l.subrange(n0, l.len() as int),
                            ),
                        )
                    } else {
                        None
                    }
                }
            }
        }
    }
}

/// The optional marker before the timestamp: absent, `Expires: ` or
/// `Expired: `.
pub open spec fn is_expire_marker(m: Seq<char>) -> bool {
    m == Seq::<char>::empty() || m == "Expires: "@ || m == "Expired: "@
}

/// The declarative reading of the certificate-line grammar: the line splits
/// into the literal pieces and the four fields.
pub open spec fn matches_cert_line_shape(
    l: Seq<char>,
    f: (Seq<char>, Seq<char>, Seq<char>, Seq<char>),
) -> bool {
    exists|m: Seq<char>|
        is_expire_marker(m) && l == "V | Serial: "@ + f.0 + " | "@ + m + f.1 + seq![' '] + f.2
            + " | CN: "@ + f.3
}

/// The field classes of the certificate-line grammar: a non-empty hexadecimal
/// serial, a non-empty date, a non-empty time, and a non-empty common name
/// free of whitespace.
pub open spec fn cert_line_fields_wf(f: (Seq<char>, Seq<char>, Seq<char>, Seq<char>)) -> bool {
    &&& f.0.len() > 0 && (forall|i: int| 0 <= i < f.0.len() ==> is_hex_char(#[trigger] f.0[i]))
    &&& f.1.len() > 0 && (forall|i: int| 0 <= i < f.1.len() ==> is_date_char(#[trigger] f.1[i]))
    &&& f.2.len() > 0 && (forall|i: int| 0 <= i < f.2.len() ==> is_time_char(#[trigger] f.2[i]))
    &&& f.3.len() > 0 && (forall|i: int| 0 <= i < f.3.len() ==> !is_ws_char(#[trigger] f.3[i]))
}

/// Law: a line the parser accepts decomposes exactly into the five-field
/// grammar — the `V` status marker, the serial, the optionally marked
/// timestamp and the common name, joined by the literal separators — and
/// every extracted field lies in its character class.
pub proof fn lemma_parse_line_sound(l: Seq<char>)
    ensures
        parse_cert_line(l) matches Some(f) ==> matches_cert_line_shape(l, f)
            && cert_line_fields_wf(f),
{
    if parse_cert_line(l) is Some {
        let f = parse_cert_line(l).unwrap();
        let p0 = "V | Serial: "@;
        let sep = " | "@;
        let cn = " | CN: "@;
        let i = p0.len() as int;
        let j = class_run_end(l, i, CharClass::Hex);
        lemma_class_run(l, i, CharClass::Hex);
        let k0 = j + sep.len() as int;
        let k = marker_end(l, k0);
        let m = l.subrange(k0, k);
        assert(is_expire_marker(m)) by {
            let m1 = "Expires: "@;
            let m2 = "Expired: "@;
            if k0 + m1.len() <= l.len() && l.subrange(k0, k0 + m1.len() as int) == m1 {
                assert(m == m1);
            } else if k0 + m2.len() <= l.len() && l.subrange(k0, k0 + m2.len() as int) == m2 {
                assert(m == m2);
            } else {
                assert(m =~= Seq::<char>::empty());
            }
        }
        let d = class_run_end(l, k, CharClass::Date);
        lemma_class_run(l, k, CharClass::Date);
        let t = class_run_end(l, d + 1, CharClass::Time);
        lemma_class_run(l, d + 1, CharClass::Time);
        let n0 = t + cn.len() as int;
        lemma_class_run(l, n0, CharClass::Name);
        assert(f == (l.subrange(i, j), l.subrange(k, d), l.subrange(d + 1, t), l.subrange(
            n0,
            l.len() as int,
        )));
        assert(l =~= p0 + f.0 + sep + m + f.1 + seq![' '] + f.2 + cn + f.3);
        assert(matches_cert_line_shape(l, f));
    }
}

/// Law: a line that takes the five-field shape with well-formed fields is
/// accepted, and the parser extracts exactly those fields. Together with the
/// soundness law this pins the grammar: the parser accepts precisely the
/// lines of this shape, and only one reading of each.
pub proof fn lemma_parse_line_complete(
    l: Seq<char>,
    f: (Seq<char>, Seq<char>, Seq<char>, Seq<char>),
    m: Seq<char>,
)
    requires
        is_expire_marker(m),
        cert_line_fields_wf(f),
        l == "V | Serial: "@ + f.0 + " | "@ + m + f.1 + seq![' '] + f.2 + " | CN: "@ + f.3,
    ensures
        parse_cert_line(l) == Some(f),
{
    let p0 = "V | Serial: "@;
    let sep = " | "@;
    let cn = " | CN: "@;
    let m1 = "Expires: "@;
    let m2 = "Expired: "@;
    reveal_strlit("V | Serial: ");
    reveal_strlit(" | ");
    reveal_strlit(" | CN: ");
    reveal_strlit("Expires: ");
    reveal_strlit("Expired: ");
    let o1 = p0.len() as int;
    let o2 = o1 + f.0.len();
    let o3 = o2 + sep.len();
    let o4 = o3 + m.len();
    let o5 = o4 + f.1.len();
    let o6 = o5 + 1;
    let o7 = o6 + f.2.len();
    let o8 = o7 + cn.len();
    assert(l.len() == o8 + f.3.len());
    assert(forall|q: int| 0 <= q < p0.len() ==> l[q] == #[trigger] p0[q]);
    assert(forall|q: int| 0 <= q < f.0.len() ==> l[o1 + q] == #[trigger] f.0[q]);
    assert(forall|q: int| 0 <= q < sep.len() ==> l[o2 + q] == #[trigger] sep[q]);
    assert(forall|q: int| 0 <= q < m.len() ==> l[o3 + q] == #[trigger] m[q]);
    assert(forall|q: int| 0 <= q < f.1.len() ==> l[o4 + q] == #[trigger] f.1[q]);
    assert(l[o5] == ' ');
    assert(forall|q: int| 0 <= q < f.2.len() ==> l[o6 + q] == #[trigger] f.2[q]);
    assert(forall|q: int| 0 <= q < cn.len() ==> l[o7 + q] == #[trigger] cn[q]);
    assert(forall|q: int| 0 <= q < f.3.len() ==> l[o8 + q] == #[trigger] f.3[q]);

    // the status and serial prefix
    assert(l.subrange(0, o1) =~= p0);
    assert(!is_hex_char(sep[0]));
    lemma_run_unique(l, o1, CharClass::Hex, o2);
    assert(l.subrange(o2, o3) =~= sep);

    // the optional marker
    assert(marker_end(l, o3) == o4) by {
        if m.len() == 0 {
            // the next character is a date character, never `E`
            assert(l[o3] == f.1[0]);
            assert(!is_date_char('E'));
            if o3 + m1.len() <= l.len() && l.subrange(o3, o3 + m1.len() as int) == m1 {
                assert(l[o3] == m1[0]);
                assert(false);
            }
            if o3 + m2.len() <= l.len() && l.subrange(o3, o3 + m2.len() as int) == m2 {
                assert(l[o3] == m2[0]);
                assert(false);
            }
        } else if m == m1 {
            assert(l.subrange(o3, o3 + m1.len() as int) =~= m1);
        } else {
            // the first marker does not match: the two differ at one place
            assert(m == m2);
            assert(l.subrange(o3, o3 + m2.len() as int) =~= m2);
            if l.subrange(o3, o3 + m1.len() as int) == m1 {
                assert(l[o3 + 6] == m1[6] && l[o3 + 6] == m2[6]);
                assert(false);
            }
        }
    }

    // date, the separating space, and time
    assert(!is_date_char(' '));
    lemma_run_unique(l, o4, CharClass::Date, o5);
    assert(!is_time_char(cn[0]));
    lemma_run_unique(l, o6, CharClass::Time, o7);
    assert(l.subrange(o7, o8) =~= cn);

    // the common name runs to the end of the line
    lemma_run_unique(l, o8, CharClass::Name, l.len() as int);

    assert(l.subrange(o1, o2) =~= f.0);
    assert(l.subrange(o4, o5) =~= f.1);
    assert(l.subrange(o6, o7) =~= f.2);
    assert(l.subrange(o8, l.len() as int) =~= f.3);
}

/// The fields of one matching report line.
#[derive(Debug)]
pub struct ReportLine {
    /// The serial identifier.
    pub serial: String,
    /// The expiry date.
    pub date: String,
    /// The expiry time of day.
    pub time: String,
    /// The common name.
    pub name: String,
}

/// Match one line of the report against the certificate-line grammar.
pub fn parse_report_line(line: &str) -> (r: Option<ReportLine>)
    ensures
        r is Some <==> parse_cert_line(line@) is Some,
        r matches Some(f) ==> parse_cert_line(line@) == Some((f.serial@, f.date@, f.time@, f.name@)),
{
    let n = line.unicode_len();
    let p0 = "V | Serial: ";
    if !match_at(line, 0, p0) {
        return None;
    }
    let i = p0.unicode_len();
    proof {
        lemma_class_run(line@, i as int, CharClass::Hex);
    }
    let j = scan_class(line, i, CharClass::Hex);
    if j == i {
        return None;
    }
    let sep = " | ";
    if !match_at(line, j, sep) {
        return None;
    }
    let k0 = j + sep.unicode_len();
    let m1 = "Expires: ";
    let m2 = "Expired: ";
    let k = if match_at(line, k0, m1) {
        k0 + m1.unicode_len()
    } else if match_at(line, k0, m2) {
        k0 + m2.unicode_len()
    } else {
        k0
    };
    proof {
        assert(k as int == marker_end(line@, k0 as int)) by {
            reveal_strlit("Expires: ");
            reveal_strlit("Expired: ");
            assert(m1@.len() == 9);
            assert(m2@.len() == 9);
            // the two markers differ, so at most one of them matched
            if m1@ == m2@ {
                assert(m1@[6] == 's' && m2@[6] == 'd');
            }
        }
    }
    let d = scan_class(line, k, CharClass::Date);
    if d == k {
        return None;
    }
    proof {
        lemma_class_run(line@, k as int, CharClass::Date);
    }
    if !(d < n && line.get_char(d) == ' ') {
        return None;
    }
    let t = scan_class(line, d + 1, CharClass::Time);
    if t == d + 1 {
        return None;
    }
    let cn = " | CN: ";
    if !match_at(line, t, cn) {
        return None;
    }
    let n0 = t + cn.unicode_len();
    let e = scan_class(line, n0, CharClass::Name);
    if !(n0 < n && e == n) {
        return None;
    }
    let serial = line.substring_char(i, j).to_owned();
    let date = line.substring_char(k, d).to_owned();
    let time = line.substring_char(d + 1, t).to_owned();
    let name = line.substring_char(n0, n).to_owned();
    Some(ReportLine { serial, date, time, name })
}

/// A carriage return left by a `\r\n` line ending is not part of the line.
pub open spec fn strip_cr(l: Seq<char>) -> Seq<char> {
    if l.len() > 0 && l.last() == '\r' {
        l.drop_last()
    } else {
        l
    }
}

/// The lines of `s`: split at `\n`, dropping a `\r` that precedes a split and
/// not yielding a final empty line for a trailing newline.
pub open spec fn spec_lines(s: Seq<char>) -> Seq<Seq<char>>
    decreases s.len(),
{
    if s.len() == 0 {
        Seq::empty()
    } else {
        let i = class_run_end(s, 0, CharClass::Line);
        if 0 <= i < s.len() {
            seq![strip_cr(s.subrange(0, i))] + spec_lines(s.subrange(i + 1, s.len() as int))
        } else {
            seq![s]
        }
    }
}

/// A class run is the only index with its characterization.
proof fn lemma_run_unique(s: Seq<char>, i: int, cl: CharClass, e: int)
    requires
        0 <= i <= e <= s.len(),
        forall|j: int| i <= j < e ==> spec_char_in_class(#[trigger] s[j], cl),
        e < s.len() ==> !spec_char_in_class(s[e], cl),
    ensures
        class_run_end(s, i, cl) == e,
    decreases e - i,
{
    if i < e {
        lemma_run_unique(s, i + 1, cl, e);
    }
}

/// Peeling one line off the suffix of the report that starts at `p`.
proof fn lemma_lines_step(s: Seq<char>, p: int)
    requires
        0 <= p < s.len(),
    ensures
        ({
            let e = class_run_end(s, p, CharClass::Line);
            &&& p <= e <= s.len()
            &&& (e < s.len() ==> spec_lines(s.skip(p)) =~= seq![strip_cr(s.subrange(p, e))]
                + spec_lines(s.skip(e + 1)))
            &&& (e == s.len() ==> spec_lines(s.skip(p)) =~= seq![s.subrange(p, s.len() as int)])
        }),
{
    let e = class_run_end(s, p, CharClass::Line);
    lemma_class_run(s, p, CharClass::Line);
    let suf = s.skip(p);
    assert(suf.len() == s.len() - p);
    assert forall|j: int| 0 <= j < e - p implies spec_char_in_class(
        #[trigger] suf[j],
        CharClass::Line,
    ) by {
        assert(suf[j] == s[p + j]);
    }
    if e < s.len() {
        assert(suf[e - p] == s[e]);
    }
    lemma_run_unique(suf, 0, CharClass::Line, e - p);
    if e < s.len() {
        assert(suf.subrange(0, e - p) =~= s.subrange(p, e));
        assert(suf.subrange(e - p + 1, suf.len() as int) =~= s.skip(e + 1));
    } else {
        assert(suf =~= s.subrange(p, s.len() as int));
    }
}

/// The instant, in whole seconds since the Unix epoch, that the external
/// calendar library reads out of an RFC 3339 timestamp, or nothing where the
/// text is not one. A function of the text alone.
pub uninterp spec fn rfc3339_instant(s: Seq<char>) -> Option<int>;

/// Relies on chrono's `DateTime::parse_from_rfc3339` for the parse and
/// `DateTime::timestamp` for the read-out: both depend on the text alone, and
/// the timestamp counts whole (non-leap) seconds since the Unix epoch.
#[verifier::external_body]
fn parse_rfc3339_instant(s: &str) -> (r: Option<i64>)
    ensures
        r is Some <==> rfc3339_instant(s@) is Some,
        r matches Some(t) ==> rfc3339_instant(s@) == Some(t as int),
{
    match chrono::DateTime::parse_from_rfc3339(s) {
        Ok(dt) => Some(dt.timestamp()),
        Err(_) => None,
    }
}

/// An expiry record: constructed only from report lines that fully match the
/// certificate-line grammar.
#[derive(Debug)]
pub struct ExpiryRecord {
    /// The user the certificate was issued to.
    pub username: Username,
    /// The expiry instant, in whole seconds since the Unix epoch.
    pub expires_at: i64,
    /// The serial identifier reported for the certificate.
    pub serial: String,
}

impl View for ExpiryRecord {
    type V = (Seq<char>, int, Seq<char>);

    open spec fn view(&self) -> (Seq<char>, int, Seq<char>) {
        (self.username@, self.expires_at as int, self.serial@)
    }
}

impl DeepView for ExpiryRecord {
    type V = (Seq<char>, int, Seq<char>);

    open spec fn deep_view(&self) -> (Seq<char>, int, Seq<char>) {
        self.view()
    }
}

/// The record one line contributes: the line must match the grammar, its name
/// must be a valid username, its timestamp must parse, and the instant must
/// lie strictly before `now`.
pub open spec fn line_expiry(l: Seq<char>, now: int) -> Option<(Seq<char>, int, Seq<char>)> {
    match parse_cert_line(l) {
        Some(fields) => {
            if !is_valid_username(fields.3) {
                None
            } else {
                match rfc3339_instant(fields.1 + seq!['T'] + fields.2) {
                    Some(t) => if t < now {
                        Some((fields.3, t, fields.0))
                    } else {
                        None
                    },
                    None => None,
                }
            }
        },
        None => None,
    }
}

/// The expired records of the report lines, in report order.
pub open spec fn expired_records(lines: Seq<Seq<char>>, now: int) -> Seq<
    (Seq<char>, int, Seq<char>),
>
    decreases lines.len(),
{
    if lines.len() == 0 {
        Seq::empty()
    } else {
        match line_expiry(lines[0], now) {
            Some(rec) => seq![rec] + expired_records(lines.drop_first(), now),
            None => expired_records(lines.drop_first(), now),
        }
    }
}

/// Law: a report line yields an expiry record exactly when it matches the
/// five-field certificate-line grammar, its common name is a valid username,
/// its timestamp parses, and the parsed instant lies strictly before the
/// single evaluation instant; every other line contributes nothing.
pub proof fn lemma_expiry_classification(l: Seq<char>, now: int)
    ensures
        line_expiry(l, now) is Some <==> ({
            &&& parse_cert_line(l) matches Some(fields)
            &&& is_valid_username(fields.3)
            &&& rfc3339_instant(fields.1 + seq!['T'] + fields.2) matches Some(t)
            &&& t < now
        }),
{
}

/// Splitting off the first line splits the expired records.
proof fn lemma_expired_cons(l: Seq<char>, rest: Seq<Seq<char>>, now: int)
    ensures
        expired_records(seq![l] + rest, now) =~= (match line_expiry(l, now) {
            Some(rec) => seq![rec],
            None => Seq::empty(),
        }) + expired_records(rest, now),
{
    let all = seq![l] + rest;
    assert(all[0] == l);
    assert(all.drop_first() =~= rest);
}

/// Parse the report text and return the records of certificates whose expiry
/// lies strictly before `now`, in report order. `now` is captured once by the
/// caller, so the whole report is classified against one instant.
pub fn parse_expiry_report(report: &str, now: i64) -> (r: Vec<ExpiryRecord>)
    ensures
        r.deep_view() == expired_records(spec_lines(report@), now as int),
        forall|i: int| 0 <= i < r@.len() ==> (#[trigger] r@[i]).username.wf(),
{
    let n = report.unicode_len();
    let mut out: Vec<ExpiryRecord> = Vec::new();
    let mut p: usize = 0;
    proof {
        assert(report@.skip(0) =~= report@);
    }
    while p < n
        invariant
            n == report@.len(),
            0 <= p <= n,
            expired_records(spec_lines(report@), now as int) =~= out.deep_view()
                + expired_records(spec_lines(report@.skip(p as int)), now as int),
            forall|i: int| 0 <= i < out@.len() ==> (#[trigger] out@[i]).username.wf(),
        decreases n - p,
    {
        let ghost sv = report@;
        let e = scan_class(report, p, CharClass::Line);
        proof {
            lemma_lines_step(sv, p as int);
        }
        let line_end = if e < n && p < e && report.get_char(e - 1) == '\r' {
            e - 1
        } else {
            e
        };
        let line = report.substring_char(p, line_end);
        let ghost lmodel = if e < n {
            strip_cr(sv.subrange(p as int, e as int))
        } else {
            sv.subrange(p as int, n as int)
        };
        proof {
            if e < n {
                if p < e && sv[e - 1] == '\r' {
                    assert(lmodel =~= sv.subrange(p as int, e - 1));
                } else {
                    assert(lmodel =~= sv.subrange(p as int, e as int));
                }
            }
            assert(line@ == lmodel);
        }
        let p2 = if e < n {
            e + 1
        } else {
            n
        };
        let ghost rest = spec_lines(sv.skip(p2 as int));
        proof {
            if e == n {
                assert(sv.skip(n as int).len() == 0);
                assert(rest =~= Seq::<Seq<char>>::empty());
                assert(seq![lmodel] + rest =~= seq![lmodel]);
            }
            assert(spec_lines(sv.skip(p as int)) =~= seq![lmodel] + rest);
            lemma_expired_cons(lmodel, rest, now as int);
        }
        let ghost pre = out.deep_view();
        match parse_report_line(line) {
            Some(f) => {
                match Username::new(f.name.as_str()) {
                    Ok(u) => {
                        let ghost dview = f.date@;
                        let ghost tview = f.time@;
                        let mut stamp = f.date;
                        stamp.append("T");
                        stamp.append(f.time.as_str());
                        proof {
                            reveal_strlit("T");
                            assert(stamp@ =~= dview + seq!['T'] + tview);
                        }
                        match parse_rfc3339_instant(stamp.as_str()) {
                            Some(ts) => {
                                if ts < now {
                                    let rec = ExpiryRecord {
                                        username: u,
                                        expires_at: ts,
                                        serial: f.serial,
                                    };
                                    proof {
                                        assert(line_expiry(lmodel, now as int) == Some(rec@));
                                    }
                                    out.push(rec);
                                    proof {
                                        assert(out.deep_view() =~= pre.push(rec@));
                                        assert(pre.push(rec@) + expired_records(rest, now as int)
                                            =~= pre + (seq![rec@] + expired_records(
                                            rest,
                                            now as int,
                                        )));
                                    }
                                } else {
                                    proof {
                                        assert(line_expiry(lmodel, now as int) is None);
                                    }
                                }
                            },
                            None => {
                                proof {
                                    assert(line_expiry(lmodel, now as int) is None);
                                }
                            },
                        }
                    },
                    Err(_) => {
                        proof {
                            assert(line_expiry(lmodel, now as int) is None);
                        }
                    },
                }
            },
            None => {
                proof {
                    assert(line_expiry(lmodel, now as int) is None);
                }
            },
        }
        p = p2;
    }
    proof {
        assert(report@.skip(n as int).len() == 0);
        assert(out.deep_view() + expired_records(spec_lines(report@.skip(n as int)), now as int)
            =~= out.deep_view());
    }
    out
}

/// The usernames of a sequence of expiry records, in order.
pub open spec fn record_names(rs: Seq<(Seq<char>, int, Seq<char>)>) -> Seq<Seq<char>> {
    rs.map_values(|r: (Seq<char>, int, Seq<char>)| r.0)
}

/// The users whose certificates the report shows as expired strictly before
/// `now`, in report order.
pub fn get_expired_users(report: &str, now: i64) -> (r: Vec<Username>)
    ensures
        r.deep_view() == record_names(expired_records(spec_lines(report@), now as int)),
        forall|i: int| 0 <= i < r@.len() ==> (#[trigger] r@[i]).wf(),
{
    let records = parse_expiry_report(report, now);
    let n = records.len();
    let mut out: Vec<Username> = Vec::new();
    let mut i: usize = 0;
    while i < n
        invariant
            n == records.len(),
            0 <= i <= n,
            out.deep_view() =~= record_names(records.deep_view().take(i as int)),
            forall|j: int| 0 <= j < records@.len() ==> (#[trigger] records@[j]).username.wf(),
            forall|j: int| 0 <= j < out@.len() ==> (#[trigger] out@[j]).wf(),
        decreases n - i,
    {
        let ghost pre = out.deep_view();
        out.push(records[i].username.clone());
        proof {
            let rdv = records.deep_view();
            assert(out.deep_view() =~= pre.push(rdv[i as int].0));
            assert(record_names(rdv.take(i + 1 as int)) =~= record_names(rdv.take(i as int)).push(
                rdv[i as int].0,
            ));
        }
        i += 1;
    }
    proof {
        assert(records.deep_view().take(n as int) =~= records.deep_view());
    }
    out
}

/// Truncating division: how the external calendar library counts whole days
/// in a span of seconds.
pub open spec fn div_trunc(a: int, b: int) -> int {
    if a >= 0 {
        a / b
    } else {
        -((-a) / b)
    }
}

/// Seconds from the Unix epoch to the far-future cutoff 9999-12-31 00:00:00
/// UTC used to defeat the external tool's smaller default horizon.
pub const FAR_FUTURE_EPOCH_SECS: i64 = 253402214400;

/// The number of whole days between `now` (seconds since the Unix epoch) and
/// the far-future cutoff: the largest `--days` horizon the external tool
/// accepts without complaint.
pub fn get_max_days(now: i64) -> (r: i64)
    ensures
        r as int == div_trunc(FAR_FUTURE_EPOCH_SECS - now as int, 86400),
{
    let diff: i128 = FAR_FUTURE_EPOCH_SECS as i128 - now as i128;
    if diff >= 0 {
        let d: u128 = diff as u128;
        let q = d / 86400;
        proof {
            assert(q <= d / 86400);
            assert(d <= FAR_FUTURE_EPOCH_SECS + i64::MAX + 1);
        }
        q as i64
    } else {
        let d: u128 = (-diff) as u128;
        let q = d / 86400;
        proof {
            assert(d <= i64::MAX);
        }
        -(q as i64)
    }
}

} // verus!
