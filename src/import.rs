//! Reading findings and assets from their markdown files.
use vstd::prelude::*;
use crate::inline::{first_marker, lemma_first_marker_found};
use crate::model::{lower_of, lowercase, Asset, Finding, Severity, Status};
use crate::inline::{first_char, find_char, lemma_first_char_found};
use crate::text::{skip_ws_fwd, trim_bounds};
use crate::text::{
    chars_of, has_prefix, lines, lines_from, next_line, push_str, range_has_prefix,
    string_of, string_of_range, trim, trimmed, vec_of_range,
};

verus! {

/// Why an import was refused.
#[derive(Debug, PartialEq)]
pub enum ImportError {
    /// The text lacks what the record needs.
    ParseError(String),
}

pub open spec fn ascii_alnum(c: char) -> bool {
    ('a' <= c && c <= 'z') || ('A' <= c && c <= 'Z') || ('0' <= c && c <= '9')
}

/// A character of an asset name: kept if ASCII alphanumeric or `_`, else `_`.
pub open spec fn name_char(c: char) -> char {
    if ascii_alnum(c) || c == '_' { c } else { '_' }
}

/// Name characters with runs of `_` collapsed to one and leading ones dropped;
/// `prev` tells whether the text so far ends in `_` (or is empty).
pub open spec fn collapse(s: Seq<char>) -> (Seq<char>, bool)
    decreases s.len(),
{
    if s.len() == 0 {
        (seq![], true)
    } else {
        let (out, prev) = collapse(s.drop_last());
        let c = name_char(s.last());
        if c == '_' {
            (if prev { out } else { out.push('_') }, true)
        } else {
            (out.push(c), false)
        }
    }
}

/// `s` without trailing `_`.
pub open spec fn strip_underscores(s: Seq<char>) -> Seq<char>
    decreases s.len(),
{
    if s.len() > 0 && s.last() == '_' { strip_underscores(s.drop_last()) } else { s }
}

/// The asset name that lower-cased text `l` gives: ASCII letters, digits and
/// single `_` between them, or `unknown` if nothing is left.
pub open spec fn asset_name(l: Seq<char>) -> Seq<char> {
    let n = strip_underscores(collapse(l).0);
    if n.len() == 0 { "unknown"@ } else { n }
}

/// [`normalise_asset`] on text already trimmed and lower-cased.
pub fn normalise_lowered(l: &str) -> (r: String)
    ensures
        r@ == asset_name(l@),
{
    let cs = chars_of(l);
    let mut out: Vec<char> = Vec::new();
    let mut prev = true;
    let mut i: usize = 0;
    while i < cs.len()
        invariant
            i <= cs@.len(),
            cs@ == l@,
            (out@, prev) == collapse(cs@.subrange(0, i as int)),
        decreases cs.len() - i,
    {
        assert(cs@.subrange(0, i + 1).drop_last() =~= cs@.subrange(0, i as int));
        let ch = cs[i];
        let c = if ('a' <= ch && ch <= 'z') || ('A' <= ch && ch <= 'Z') || ('0' <= ch && ch <= '9') || ch == '_' {
            ch
        } else {
            '_'
        };
        if c == '_' {
            if !prev {
                out.push('_');
            }
            prev = true;
        } else {
            out.push(c);
            prev = false;
        }
        i = i + 1;
    }
    assert(cs@.subrange(0, i as int) =~= cs@);
    let mut n = out.len();
    assert(out@.subrange(0, n as int) =~= out@);
    while n > 0 && out[n - 1] == '_'
        invariant
            n <= out@.len(),
            strip_underscores(out@) == strip_underscores(out@.subrange(0, n as int)),
        decreases n,
    {
        assert(out@.subrange(0, n as int).drop_last() =~= out@.subrange(0, n - 1));
        n = n - 1;
    }
    assert(strip_underscores(out@.subrange(0, n as int)) == out@.subrange(0, n as int));
    if n == 0 {
        String::from_str("unknown")
    } else {
        string_of_range(out.as_slice(), 0, n)
    }
}

/// Normalise an asset name: trimmed, lower case, every character but ASCII
/// letters, digits and `_` made `_`, runs of `_` collapsed, none at either end;
/// `unknown` if nothing is left.
pub fn normalise_asset(raw: &str) -> (r: String)
    ensures
        r@ == asset_name(lower_of(trim(raw@))),
{
    let cs = chars_of(raw);
    let t = trimmed(cs.as_slice(), 0, cs.len());
    assert(cs@.subrange(0, cs@.len() as int) =~= cs@);
    let ts = string_of(t.as_slice());
    let l = lowercase(ts.as_str());
    normalise_lowered(l.as_str())
}

/// The value after the first `**<field>:**`, else after the first `<field>:`, in
/// `lower` (the lower-cased `line`), read from `line` at the same position and
/// trimmed.
pub open spec fn field_value(line: Seq<char>, lower: Seq<char>, field: Seq<char>) -> Option<Seq<char>> {
    let p1 = seq!['*', '*'] + field + seq![':', '*', '*'];
    let p2 = field + seq![':'];
    match first_marker(lower, p1, 0) {
        Some(k) => Some(trim(line.subrange(if k + p1.len() <= line.len() { (k + p1.len()) as int } else { line.len() as int }, line.len() as int))),
        None => match first_marker(lower, p2, 0) {
            Some(k) => Some(trim(line.subrange(if k + p2.len() <= line.len() { (k + p2.len()) as int } else { line.len() as int }, line.len() as int))),
            None => None,
        },
    }
}

fn find_in(s: &[char], m: &Vec<char>) -> (r: Option<usize>)
    ensures
        match first_marker(s@, m@, 0) {
            Some(k) => r is Some && r->0 == k,
            None => r is None,
        },
        match r {
            Some(j) => j + m@.len() <= s@.len(),
            None => true,
        },
{
    proof {
        lemma_first_marker_found(s@, m@, 0);
    }
    let mut i: usize = 0;
    if m.len() > s.len() {
        return None;
    }
    while i <= s.len() - m.len()
        invariant
            i <= s@.len() - m@.len() + 1,
            m@.len() <= s@.len(),
            forall|j: int| 0 <= j < i ==> !crate::text::match_at(s@, j, m@),
            first_marker(s@, m@, 0) == match first_marker(s@, m@, i as int) {
                Some(k) => Some((k + i) as nat),
                None => None::<nat>,
            },
        decreases s.len() - i,
    {
        if crate::text::matches_at(s, i, m.as_slice()) {
            return Some(i);
        }
        proof {
            assert(first_marker(s@, m@, i as int) == match first_marker(s@, m@, i + 1) {
                Some(k) => Some((k + 1) as nat),
                None => None::<nat>,
            });
        }
        if i == s.len() - m.len() {
            assert(first_marker(s@, m@, i + 1) is None);
            return None;
        }
        i = i + 1;
    }
    None
}

/// [`extract_field`] with the lower-cased line given.
pub fn extract_field_lowered(line: &str, lower: &str, field: &str) -> (r: Option<String>)
    ensures
        field_value(line@, lower@, field@) == match r {
            Some(v) => Some(v@),
            None => None,
        },
{
    let lc = chars_of(line);
    let low = chars_of(lower);
    let fc = chars_of(field);
    let mut p1: Vec<char> = Vec::new();
    p1.push('*');
    p1.push('*');
    let mut k: usize = 0;
    while k < fc.len()
        invariant
            k <= fc@.len(),
            p1@ == seq!['*', '*'] + fc@.subrange(0, k as int),
        decreases fc.len() - k,
    {
        p1.push(fc[k]);
        k = k + 1;
    }
    p1.push(':');
    p1.push('*');
    p1.push('*');
    assert(fc@.subrange(0, k as int) =~= field@);
    assert(p1@ =~= seq!['*', '*'] + field@ + seq![':', '*', '*']);
    let mut p2: Vec<char> = Vec::new();
    k = 0;
    while k < fc.len()
        invariant
            k <= fc@.len(),
            p2@ == fc@.subrange(0, k as int),
        decreases fc.len() - k,
    {
        p2.push(fc[k]);
        k = k + 1;
    }
    p2.push(':');
    assert(p2@ =~= field@ + seq![':']);
    assert(low@.len() == low.len());
    let pick = match find_in(low.as_slice(), &p1) {
        Some(pos) => Some(pos + p1.len()),
        None => match find_in(low.as_slice(), &p2) {
            Some(pos) => Some(pos + p2.len()),
            None => None,
        },
    };
    match pick {
        Some(start) => {
            let st = if start <= lc.len() { start } else { lc.len() };
            let v = trimmed(lc.as_slice(), st, lc.len());
            Some(string_of(v.as_slice()))
        },
        None => None,
    }
}

/// Try to extract a value from a metadata line such as `- **Severity:** High`
/// or `- Severity: High`; `field` is matched against the line in lower case.
pub fn extract_field(line: &str, field: &str) -> (r: Option<String>)
    ensures
        field_value(line@, lower_of(line@), field@) == match r {
            Some(v) => Some(v@),
            None => None,
        },
{
    let lower = lowercase(line);
    extract_field_lowered(line, lower.as_str(), field)
}

/// `s` without its leading `#` characters.
pub open spec fn strip_hashes(s: Seq<char>) -> Seq<char>
    decreases s.len(),
{
    if s.len() > 0 && s[0] == '#' { strip_hashes(s.drop_first()) } else { s }
}

/// Fields of an asset as its markdown file gives them.
pub struct AssetFields {
    pub name: Seq<char>,
    pub description: Seq<char>,
    pub contact: Seq<char>,
    pub criticality: Seq<char>,
    pub dns_or_ip: Seq<char>,
}

/// `cur` replaced by a non-empty `v`.
pub open spec fn set_nonempty(cur: Seq<char>, v: Seq<char>) -> Seq<char> {
    if v.len() > 0 { v } else { cur }
}

/// The effect of one line of an asset file: a `# ` heading names the asset; a
/// description, contact, criticality or DNS/IP line sets that field.
pub open spec fn asset_step(st: AssetFields, line: Seq<char>) -> AssetFields {
    let t = trim(line);
    let low = lower_of(t);
    if has_prefix(t, "# "@) && !has_prefix(t, "## "@) {
        AssetFields { name: asset_name(lower_of(trim(trim(strip_hashes(t))))), ..st }
    } else if field_value(t, low, "description"@) is Some {
        AssetFields { description: set_nonempty(st.description, field_value(t, low, "description"@)->0), ..st }
    } else if field_value(t, low, "contact"@) is Some {
        AssetFields { contact: set_nonempty(st.contact, field_value(t, low, "contact"@)->0), ..st }
    } else if field_value(t, low, "criticality"@) is Some {
        AssetFields { criticality: set_nonempty(st.criticality, field_value(t, low, "criticality"@)->0), ..st }
    } else if field_value(t, low, "dns/ip"@) is Some {
        AssetFields { dns_or_ip: set_nonempty(st.dns_or_ip, field_value(t, low, "dns/ip"@)->0), ..st }
    } else {
        st
    }
}

pub open spec fn asset_fold(st: AssetFields, ls: Seq<Seq<char>>) -> AssetFields
    decreases ls.len(),
{
    if ls.len() == 0 { st } else { asset_fold(asset_step(st, ls[0]), ls.drop_first()) }
}

/// The fields that an asset file gives, `-` for those it leaves out.
pub open spec fn asset_fields(raw: Seq<char>) -> AssetFields {
    asset_fold(
        AssetFields { name: seq![], description: "-"@, contact: "-"@, criticality: "-"@, dns_or_ip: "-"@ },
        lines(raw),
    )
}

fn set_if_nonempty(cur: &mut String, v: Option<String>)
    requires
        v is Some,
    ensures
        final(cur)@ == set_nonempty(old(cur)@, v->0@),
{
    if let Some(x) = v {
        if !x.as_str().is_empty() {
            *cur = x;
        }
    }
}

fn strip_hashes_of(s: &[char]) -> (r: Vec<char>)
    ensures
        r@ == strip_hashes(s@),
{
    let mut i: usize = 0;
    assert(s@.subrange(0, s@.len() as int) =~= s@);
    while i < s.len() && s[i] == '#'
        invariant
            i <= s@.len(),
            strip_hashes(s@) == strip_hashes(s@.subrange(i as int, s@.len() as int)),
        decreases s.len() - i,
    {
        assert(s@.subrange(i as int, s@.len() as int).drop_first() =~= s@.subrange(i + 1, s@.len() as int));
        i = i + 1;
    }
    let r = vec_of_range(s, i, s.len());
    r
}

/// Parse an asset from its markdown text: a `# name` heading and optional
/// `- **Description:**`, `- **Contact:**`, `- **Criticality:**` and
/// `- **DNS/IP:**` lines. A text without a heading is refused.
pub fn parse_asset_md(raw: &str) -> (r: Result<Asset, ImportError>)
    ensures
        match r {
            Ok(a) => {
                let f = asset_fields(raw@);
                &&& f.name.len() > 0
                &&& a.id is None
                &&& a.name@ == f.name
                &&& a.description@ == f.description
                &&& a.contact@ == f.contact
                &&& a.criticality@ == f.criticality
                &&& a.dns_or_ip@ == f.dns_or_ip
            },
            Err(_) => asset_fields(raw@).name.len() == 0,
        },
{
    let chars = chars_of(raw);
    let s = chars.as_slice();
    let mut name = String::new();
    let mut description = String::from_str("-");
    let mut contact = String::from_str("-");
    let mut criticality = String::from_str("-");
    let mut dns_or_ip = String::from_str("-");
    let ghost init = AssetFields { name: seq![], description: "-"@, contact: "-"@, criticality: "-"@, dns_or_ip: "-"@ };
    let mut i: usize = 0;
    while i < s.len()
        invariant
            i <= s@.len(),
            s@ == raw@,
            asset_fold(init, lines(s@)) == asset_fold(
                AssetFields {
                    name: name@,
                    description: description@,
                    contact: contact@,
                    criticality: criticality@,
                    dns_or_ip: dns_or_ip@,
                },
                lines_from(s@, i as int),
            ),
        decreases s.len() - i,
    {
        let (lo, hi, next) = next_line(s, i);
        let ghost ls = lines_from(s@, i as int);
        assert(ls.drop_first() =~= lines_from(s@, next as int));
        let t = trimmed(s, lo, hi);
        let ts = string_of(t.as_slice());
        let n = t.len();
        assert(t@.subrange(0, n as int) =~= t@);
        if range_has_prefix(t.as_slice(), 0, n, "# ") && !range_has_prefix(t.as_slice(), 0, n, "## ") {
            let h = strip_hashes_of(t.as_slice());
            let ht = trimmed(h.as_slice(), 0, h.len());
            assert(h@.subrange(0, h@.len() as int) =~= h@);
            name = normalise_asset(string_of(ht.as_slice()).as_str());
        } else {
            let d = extract_field(ts.as_str(), "description");
            if d.is_some() {
                set_if_nonempty(&mut description, d);
            } else {
                let c = extract_field(ts.as_str(), "contact");
                if c.is_some() {
                    set_if_nonempty(&mut contact, c);
                } else {
                    let k = extract_field(ts.as_str(), "criticality");
                    if k.is_some() {
                        set_if_nonempty(&mut criticality, k);
                    } else {
                        let x = extract_field(ts.as_str(), "dns/ip");
                        if x.is_some() {
                            set_if_nonempty(&mut dns_or_ip, x);
                        }
                    }
                }
            }
        }
        i = next;
    }
    assert(lines_from(s@, i as int) =~= Seq::<Seq<char>>::empty());
    if name.as_str().is_empty() {
        return Err(ImportError::ParseError(String::from_str("asset must have a name (# heading)")));
    }
    Ok(Asset { id: None, name, description, contact, criticality, dns_or_ip })
}

/// The canonical markdown text of an asset.
pub open spec fn asset_md(a: Asset) -> Seq<char> {
    "# "@ + a.name@ + "\n\n- **Description:** "@ + a.description@ + "\n- **Contact:** "@ + a.contact@
        + "\n- **Criticality:** "@ + a.criticality@ + "\n- **DNS/IP:** "@ + a.dns_or_ip@ + "\n"@
}

/// Render an asset to its canonical markdown text.
pub fn render_asset_md(asset: &Asset) -> (r: String)
    ensures
        r@ == asset_md(*asset),
{
    let mut out = String::new();
    push_str(&mut out, "# ");
    push_str(&mut out, asset.name.as_str());
    push_str(&mut out, "\n\n- **Description:** ");
    push_str(&mut out, asset.description.as_str());
    push_str(&mut out, "\n- **Contact:** ");
    push_str(&mut out, asset.contact.as_str());
    push_str(&mut out, "\n- **Criticality:** ");
    push_str(&mut out, asset.criticality.as_str());
    push_str(&mut out, "\n- **DNS/IP:** ");
    push_str(&mut out, asset.dns_or_ip.as_str());
    push_str(&mut out, "\n");
    assert(out@ =~= asset_md(*asset));
    out
}

/// The severity a lower-cased label names.
pub open spec fn severity_of_lower(l: Seq<char>) -> Option<Severity> {
    if l == "critical"@ {
        Some(Severity::Critical)
    } else if l == "high"@ {
        Some(Severity::High)
    } else if l == "medium"@ {
        Some(Severity::Medium)
    } else if l == "low"@ {
        Some(Severity::Low)
    } else if l == "info"@ || l == "informational"@ {
        Some(Severity::Info)
    } else {
        None
    }
}

/// `s` without its spaces.
pub open spec fn without_spaces(s: Seq<char>) -> Seq<char>
    decreases s.len(),
{
    if s.len() == 0 {
        seq![]
    } else if s.last() == ' ' {
        without_spaces(s.drop_last())
    } else {
        without_spaces(s.drop_last()).push(s.last())
    }
}

/// The status a lower-cased label names, spaces ignored.
pub open spec fn status_of_lower(l: Seq<char>) -> Option<Status> {
    let t = without_spaces(l);
    if t == "open"@ {
        Some(Status::Open)
    } else if t == "inprogress"@ {
        Some(Status::InProgress)
    } else if t == "resolved"@ {
        Some(Status::Resolved)
    } else if t == "falsepositive"@ {
        Some(Status::FalsePositive)
    } else {
        None
    }
}

/// The severity that a lower-cased label names.
pub fn severity_from_lower(l: &str) -> (r: Option<Severity>)
    ensures
        r == severity_of_lower(l@),
{
    let c = chars_of(l);
    let cs = c.as_slice();
    if crate::text::eq_str(cs, "critical") {
        Some(Severity::Critical)
    } else if crate::text::eq_str(cs, "high") {
        Some(Severity::High)
    } else if crate::text::eq_str(cs, "medium") {
        Some(Severity::Medium)
    } else if crate::text::eq_str(cs, "low") {
        Some(Severity::Low)
    } else if crate::text::eq_str(cs, "info") || crate::text::eq_str(cs, "informational") {
        Some(Severity::Info)
    } else {
        None
    }
}

/// The status that a lower-cased label names, spaces ignored.
pub fn status_from_lower(l: &str) -> (r: Option<Status>)
    ensures
        r == status_of_lower(l@),
{
    let c = chars_of(l);
    let mut t: Vec<char> = Vec::new();
    let mut i: usize = 0;
    while i < c.len()
        invariant
            i <= c@.len(),
            c@ == l@,
            t@ == without_spaces(c@.subrange(0, i as int)),
        decreases c.len() - i,
    {
        assert(c@.subrange(0, i + 1).drop_last() =~= c@.subrange(0, i as int));
        if c[i] != ' ' {
            t.push(c[i]);
        }
        i = i + 1;
    }
    assert(c@.subrange(0, i as int) =~= c@);
    let ts = t.as_slice();
    if crate::text::eq_str(ts, "open") {
        Some(Status::Open)
    } else if crate::text::eq_str(ts, "inprogress") {
        Some(Status::InProgress)
    } else if crate::text::eq_str(ts, "resolved") {
        Some(Status::Resolved)
    } else if crate::text::eq_str(ts, "falsepositive") {
        Some(Status::FalsePositive)
    } else {
        None
    }
}

/// A severity label in any case; see [`severity_of_lower`].
pub fn severity_from_label(s: &str) -> (r: Option<Severity>)
    ensures
        r == severity_of_lower(lower_of(s@)),
{
    let l = lowercase(s);
    severity_from_lower(l.as_str())
}

/// A status label in any case; see [`status_of_lower`].
pub fn status_from_label(s: &str) -> (r: Option<Status>)
    ensures
        r == status_of_lower(lower_of(s@)),
{
    let l = lowercase(s);
    status_from_lower(l.as_str())
}

/// Finding fields that front-matter sets.
pub struct FrontFields {
    pub title: Seq<char>,
    pub severity: Severity,
    pub asset: Seq<char>,
    pub date: Seq<char>,
    pub location: Seq<char>,
    pub status: Status,
}

/// The effect of one front-matter line `key: value`; blank lines, `#` comments,
/// lines without `:` and unknown keys change nothing. An unknown severity reads
/// as info, an unknown status as open.
pub open spec fn front_step(st: FrontFields, line: Seq<char>) -> FrontFields {
    let t = trim(line);
    if t.len() == 0 || has_prefix(t, "#"@) {
        st
    } else {
        match first_char(t, ':', 0) {
            None => st,
            Some(k) => {
                front_set(st, lower_of(trim(t.subrange(0, k as int))), trim(t.subrange(k as int + 1, t.len() as int)))
            },
        }
    }
}

/// The effect of a front-matter entry whose key, lower-cased, is `key`.
pub open spec fn front_set(st: FrontFields, key: Seq<char>, v: Seq<char>) -> FrontFields {
    if key == "title"@ {
        FrontFields { title: v, ..st }
    } else if key == "severity"@ {
        FrontFields {
            severity: match severity_of_lower(lower_of(v)) {
                Some(x) => x,
                None => Severity::Info,
            },
            ..st
        }
    } else if key == "asset"@ {
        FrontFields { asset: asset_name(lower_of(trim(v))), ..st }
    } else if key == "date"@ {
        FrontFields { date: v, ..st }
    } else if key == "location"@ {
        FrontFields { location: v, ..st }
    } else if key == "status"@ {
        FrontFields {
            status: match status_of_lower(lower_of(v)) {
                Some(x) => x,
                None => Status::Open,
            },
            ..st
        }
    } else {
        st
    }
}

pub open spec fn front_fold(st: FrontFields, ls: Seq<Seq<char>>) -> FrontFields
    decreases ls.len(),
{
    if ls.len() == 0 { st } else { front_fold(front_step(st, ls[0]), ls.drop_first()) }
}

/// What follows the first line feed of `a` (nothing if it has none).
pub open spec fn after_newline(a: Seq<char>) -> Seq<char> {
    match first_char(a, '\n', 0) {
        Some(k) => a.subrange(k as int + 1, a.len() as int),
        None => seq![],
    }
}

/// The front-matter between `---` fences at the start of `raw`, if closed, and
/// the report text: what follows the closing fence's line, or all of `raw`.
pub open spec fn finding_parts(raw: Seq<char>) -> (Option<Seq<char>>, Seq<char>) {
    let t0 = raw.subrange(skip_ws_fwd(raw, 0, raw.len() as int), raw.len() as int);
    if has_prefix(t0, "---"@) {
        let a = after_newline(t0.subrange(3, t0.len() as int));
        match first_marker(a, "\n---"@, 0) {
            Some(c) => (Some(a.subrange(0, c as int)), trim(after_newline(a.subrange(c as int + 4, a.len() as int)))),
            None => (None, trim(raw)),
        }
    } else {
        (None, trim(raw))
    }
}

pub open spec fn front_defaults(slug: Seq<char>) -> FrontFields {
    FrontFields { title: slug, severity: Severity::Info, asset: "unknown"@, date: seq![], location: seq![], status: Status::Open }
}

/// The fields that a finding file gives.
pub open spec fn front_fields(raw: Seq<char>, slug: Seq<char>) -> FrontFields {
    match finding_parts(raw).0 {
        Some(front) => front_fold(front_defaults(slug), lines(front)),
        None => front_defaults(slug),
    }
}

fn after_newline_of(a: &[char], from: usize) -> (r: Vec<char>)
    requires
        from <= a@.len(),
    ensures
        r@ == after_newline(a@.subrange(from as int, a@.len() as int)),
{
    let v = vec_of_range(a, from, a.len());
    proof {
        lemma_first_char_found(v@, '\n', 0);
    }
    assert(v@.len() == v.len());
    match find_char(v.as_slice(), '\n', 0) {
        Some(k) => vec_of_range(v.as_slice(), k + 1, v.len()),
        None => Vec::new(),
    }
}

/// Finding fields read from front-matter so far.
pub struct FrontMatter {
    pub title: String,
    pub severity: Severity,
    pub asset: String,
    pub date: String,
    pub location: String,
    pub status: Status,
}

impl View for FrontMatter {
    type V = FrontFields;

    open spec fn view(&self) -> FrontFields {
        FrontFields {
            title: self.title@,
            severity: self.severity,
            asset: self.asset@,
            date: self.date@,
            location: self.location@,
            status: self.status,
        }
    }
}

impl FrontMatter {
    /// Applies an entry whose key is already lower-cased and trimmed: `title`,
    /// `date` and `location` take the value; `severity` and `status` take the
    /// label it names (info and open for an unknown one); `asset` takes the
    /// normalised name; any other key changes nothing.
    pub fn set_field(&mut self, key: &str, value: &str)
        ensures
            final(self)@ == front_set(old(self)@, key@, value@),
    {
        let kc = chars_of(key);
        let ks = kc.as_slice();
        let vs = String::from_str(value);
        if crate::text::eq_str(ks, "title") {
            self.title = vs;
        } else if crate::text::eq_str(ks, "severity") {
            self.severity = match severity_from_label(value) {
                Some(x) => x,
                None => Severity::Info,
            };
        } else if crate::text::eq_str(ks, "asset") {
            self.asset = normalise_asset(value);
        } else if crate::text::eq_str(ks, "date") {
            self.date = vs;
        } else if crate::text::eq_str(ks, "location") {
            self.location = vs;
        } else if crate::text::eq_str(ks, "status") {
            self.status = match status_from_label(value) {
                Some(x) => x,
                None => Status::Open,
            };
        }
    }

    fn step(&mut self, line: &[char])
        ensures
            final(self)@ == front_step(old(self)@, line@),
    {
        let t = trimmed(line, 0, line.len());
        assert(line@.subrange(0, line@.len() as int) =~= line@);
        let n = t.len();
        assert(t@.subrange(0, n as int) =~= t@);
        if n == 0 || range_has_prefix(t.as_slice(), 0, n, "#") {
            return;
        }
        assert(t@.len() == n);
        match find_char(t.as_slice(), ':', 0) {
            None => {},
            Some(k) => {
                let kt = trimmed(t.as_slice(), 0, k);
                let key = lowercase(string_of(kt.as_slice()).as_str());
                let v = trimmed(t.as_slice(), k + 1, n);
                let vs = string_of(v.as_slice());
                self.set_field(key.as_str(), vs.as_str());
            },
        }
    }
}

/// Parse a finding file: optional front-matter between `---` fences with
/// `title`, `severity`, `asset`, `date`, `location` and `status` lines, then
/// the report text, which becomes the description. Missing fields get
/// defaults: the slug as title, info, `unknown`, empty, empty, open.
pub fn parse_finding_md(raw: &str, slug: &str) -> (r: Result<Finding, ImportError>)
    ensures
        r is Ok,
        match r {
            Ok(f) => {
                let ff = front_fields(raw@, slug@);
                &&& f.id is None
                &&& f.hex_id@.len() == 0
                &&& f.slug@ == slug@
                &&& f.title@ == ff.title
                &&& f.severity == ff.severity
                &&& f.asset@ == ff.asset
                &&& f.date@ == ff.date
                &&& f.location@ == ff.location
                &&& f.status == ff.status
                &&& f.description@ == finding_parts(raw@).1
                &&& f.images@.len() == 0
            },
            Err(_) => false,
        },
{
    let chars = chars_of(raw);
    let s = chars.as_slice();
    let len = s.len();
    let mut front = FrontMatter {
        title: String::from_str(slug),
        severity: Severity::Info,
        asset: String::from_str("unknown"),
        date: String::new(),
        location: String::new(),
        status: Status::Open,
    };
    let (a0, _b0) = trim_bounds(s, 0, len);
    let whole = trimmed(s, 0, len);
    assert(s@.subrange(0, len as int) =~= s@);
    let mut report = string_of(whole.as_slice());
    let t0 = vec_of_range(s, a0, len);
    let tl = t0.len();
    assert(t0@.subrange(0, tl as int) =~= t0@);
    if range_has_prefix(t0.as_slice(), 0, tl, "---") {
        proof {
            reveal_strlit("---");
        }
        let a = after_newline_of(t0.as_slice(), 3);
        let mut fence: Vec<char> = Vec::new();
        fence.push('\n');
        fence.push('-');
        fence.push('-');
        fence.push('-');
        proof {
            reveal_strlit("\n---");
        }
        assert(fence@ =~= "\n---"@);
        assert(a@.len() == a.len());
        match find_in(a.as_slice(), &fence) {
            Some(c) => {
                let fr = vec_of_range(a.as_slice(), 0, c);
                let body = after_newline_of(a.as_slice(), c + 4);
                let bt = trimmed(body.as_slice(), 0, body.len());
                assert(body@.subrange(0, body@.len() as int) =~= body@);
                report = string_of(bt.as_slice());
                let fs = fr.as_slice();
                let mut i: usize = 0;
                while i < fs.len()
                    invariant
                        i <= fs@.len(),
                        front_fold(front_defaults(slug@), lines(fs@)) == front_fold(front@, lines_from(fs@, i as int)),
                    decreases fs.len() - i,
                {
                    let (lo, hi, next) = next_line(fs, i);
                    let ghost ls = lines_from(fs@, i as int);
                    assert(ls.drop_first() =~= lines_from(fs@, next as int));
                    let line = vec_of_range(fs, lo, hi);
                    front.step(line.as_slice());
                    i = next;
                }
                assert(lines_from(fs@, i as int) =~= Seq::<Seq<char>>::empty());
            },
            None => {},
        }
    }
    Ok(
        Finding {
            id: None,
            hex_id: String::new(),
            slug: String::from_str(slug),
            title: front.title,
            severity: front.severity,
            asset: front.asset,
            date: front.date,
            location: front.location,
            description: report,
            status: front.status,
            images: Vec::new(),
        },
    )
}

} // verus!
