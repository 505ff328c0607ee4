//! Findings, assets and the enumerations that classify them.
use vstd::prelude::*;
use crate::text::{chars_of, push_char};

verus! {

/// Severity of a finding.
#[derive(Clone, Copy, PartialEq, Eq, Debug, Hash, Structural)]
pub enum Severity {
    Critical,
    High,
    Medium,
    Low,
    Info,
}

/// Display name of a severity.
pub open spec fn severity_name(s: Severity) -> Seq<char> {
    match s {
        Severity::Critical => "Critical"@,
        Severity::High => "High"@,
        Severity::Medium => "Medium"@,
        Severity::Low => "Low"@,
        Severity::Info => "Info"@,
    }
}

impl Severity {
    pub fn as_str(&self) -> (r: &'static str)
        ensures
            r@ == severity_name(*self),
    {
        match self {
            Severity::Critical => "Critical",
            Severity::High => "High",
            Severity::Medium => "Medium",
            Severity::Low => "Low",
            Severity::Info => "Info",
        }
    }
}

/// Remediation status of a finding.
#[derive(Clone, Copy, PartialEq, Eq, Debug, Hash, Structural)]
pub enum Status {
    Open,
    InProgress,
    Resolved,
    FalsePositive,
}

/// Display name of a status.
pub open spec fn status_name(s: Status) -> Seq<char> {
    match s {
        Status::Open => "Open"@,
        Status::InProgress => "In Progress"@,
        Status::Resolved => "Resolved"@,
        Status::FalsePositive => "False Positive"@,
    }
}

impl Status {
    pub fn as_str(&self) -> (r: &'static str)
        ensures
            r@ == status_name(*self),
    {
        match self {
            Status::Open => "Open",
            Status::InProgress => "In Progress",
            Status::Resolved => "Resolved",
            Status::FalsePositive => "False Positive",
        }
    }
}

/// An assessed system.
#[derive(Clone, Debug)]
pub struct Asset {
    pub id: Option<i64>,
    pub name: String,
    pub description: String,
    pub contact: String,
    pub criticality: String,
    pub dns_or_ip: String,
}

impl Asset {
    /// An asset with the given name and `-` for every descriptive field.
    pub fn new(name: &str) -> (r: Asset)
        ensures
            r.id is None,
            r.name@ == name@,
            r.description@ == "-"@,
            r.contact@ == "-"@,
            r.criticality@ == "-"@,
            r.dns_or_ip@ == "-"@,
    {
        Asset {
            id: None,
            name: String::from_str(name),
            description: String::from_str("-"),
            contact: String::from_str("-"),
            criticality: String::from_str("-"),
            dns_or_ip: String::from_str("-"),
        }
    }

    pub fn with_description(self, desc: &str) -> (r: Asset)
        ensures
            r.description@ == desc@,
            r.id == self.id,
            r.name == self.name,
            r.contact == self.contact,
            r.criticality == self.criticality,
            r.dns_or_ip == self.dns_or_ip,
    {
        Asset { description: String::from_str(desc), ..self }
    }

    pub fn with_contact(self, contact: &str) -> (r: Asset)
        ensures
            r.contact@ == contact@,
            r.id == self.id,
            r.name == self.name,
            r.description == self.description,
            r.criticality == self.criticality,
            r.dns_or_ip == self.dns_or_ip,
    {
        Asset { contact: String::from_str(contact), ..self }
    }

    pub fn with_criticality(self, crit: &str) -> (r: Asset)
        ensures
            r.criticality@ == crit@,
            r.id == self.id,
            r.name == self.name,
            r.description == self.description,
            r.contact == self.contact,
            r.dns_or_ip == self.dns_or_ip,
    {
        Asset { criticality: String::from_str(crit), ..self }
    }

    pub fn with_dns_or_ip(self, dns: &str) -> (r: Asset)
        ensures
            r.dns_or_ip@ == dns@,
            r.id == self.id,
            r.name == self.name,
            r.description == self.description,
            r.contact == self.contact,
            r.criticality == self.criticality,
    {
        Asset { dns_or_ip: String::from_str(dns), ..self }
    }

    /// Demonstration assets: the rows of [`sample_asset_rows`], numbered from 1.
    pub fn sample_assets() -> (r: Vec<Asset>)
        ensures
            r@.len() == sample_asset_rows().len(),
            forall|i: int| 0 <= i < r@.len() ==> asset_is(#[trigger] r@[i], i + 1, sample_asset_rows()[i]),
    {
        let mut v: Vec<Asset> = Vec::new();
        v.push(
            Asset {
                id: Some(1),
                name: String::from_str("nexus_portal"),
                description: String::from_str("Customer-facing web portal for Nexus Corp"),
                contact: String::from_str("Platform Team <platform@nexus.corp>"),
                criticality: String::from_str("Critical"),
                dns_or_ip: String::from_str("portal.nexus.corp"),
            },
        );
        v.push(
            Asset {
                id: Some(2),
                name: String::from_str("orion_gateway"),
                description: String::from_str("API gateway for Orion services"),
                contact: String::from_str("Infrastructure Team <infra@orion.corp>"),
                criticality: String::from_str("Critical"),
                dns_or_ip: String::from_str("gw.orion.corp"),
            },
        );
        v.push(
            Asset {
                id: Some(3),
                name: String::from_str("helix_mobile"),
                description: String::from_str("Mobile backend API for Helix app"),
                contact: String::from_str("Mobile Team <mobile@helix.corp>"),
                criticality: String::from_str("High"),
                dns_or_ip: String::from_str("mobile-api.helix.corp"),
            },
        );
        v
    }
}

/// Name, description, contact, criticality and address of an asset.
pub struct AssetRow {
    pub name: Seq<char>,
    pub description: Seq<char>,
    pub contact: Seq<char>,
    pub criticality: Seq<char>,
    pub dns_or_ip: Seq<char>,
}

pub open spec fn asset_row(name: &str, description: &str, contact: &str, criticality: &str, dns_or_ip: &str) -> AssetRow {
    AssetRow { name: name@, description: description@, contact: contact@, criticality: criticality@, dns_or_ip: dns_or_ip@ }
}

/// The demonstration assets.
pub open spec fn sample_asset_rows() -> Seq<AssetRow> {
    seq![
        asset_row("nexus_portal", "Customer-facing web portal for Nexus Corp", "Platform Team <platform@nexus.corp>", "Critical", "portal.nexus.corp"),
        asset_row("orion_gateway", "API gateway for Orion services", "Infrastructure Team <infra@orion.corp>", "Critical", "gw.orion.corp"),
        asset_row("helix_mobile", "Mobile backend API for Helix app", "Mobile Team <mobile@helix.corp>", "High", "mobile-api.helix.corp"),
    ]
}

/// `a` is the row `row` with id `id`.
pub open spec fn asset_is(a: Asset, id: int, row: AssetRow) -> bool {
    &&& a.id == Some(id as i64)
    &&& a.name@ == row.name
    &&& a.description@ == row.description
    &&& a.contact@ == row.contact
    &&& a.criticality@ == row.criticality
    &&& a.dns_or_ip@ == row.dns_or_ip
}

/// What `str::to_lowercase` returns for a character sequence.
pub uninterp spec fn lower_of(s: Seq<char>) -> Seq<char>;

/// Relies on `str::to_lowercase`: the result depends on the characters alone.
#[verifier::external_body]
pub(crate) fn lowercase(s: &str) -> (r: String)
    ensures
        r@ == lower_of(s@),
{
    s.to_lowercase()
}

/// `s` with every space replaced by `-`.
pub open spec fn dashed(s: Seq<char>) -> Seq<char> {
    s.map_values(|c: char| if c == ' ' { '-' } else { c })
}

/// The slug of a title: lower case, spaces turned into dashes.
pub open spec fn slug_of(title: Seq<char>) -> Seq<char> {
    dashed(lower_of(title))
}

/// `s` with every space replaced by `-`.
pub fn dash_spaces(s: &str) -> (r: String)
    ensures
        r@ == dashed(s@),
{
    let cs = chars_of(s);
    let mut out = String::new();
    let mut i: usize = 0;
    while i < cs.len()
        invariant
            i <= cs@.len(),
            out@ == dashed(cs@.subrange(0, i as int)),
        decreases cs.len() - i,
    {
        if cs[i] == ' ' {
            push_char(&mut out, '-');
        } else {
            push_char(&mut out, cs[i]);
        }
        assert(dashed(cs@.subrange(0, i + 1)) =~= dashed(cs@.subrange(0, i as int)).push(
            if cs@[i as int] == ' ' { '-' } else { cs@[i as int] },
        ));
        i = i + 1;
    }
    assert(cs@.subrange(0, i as int) =~= cs@);
    out
}

/// A reported security issue.
#[derive(Clone, Debug)]
pub struct Finding {
    pub id: Option<i64>,
    pub hex_id: String,
    pub slug: String,
    pub title: String,
    pub severity: Severity,
    pub asset: String,
    pub date: String,
    pub location: String,
    pub description: String,
    pub status: Status,
    pub images: Vec<String>,
}

impl Finding {
    /// A new finding; its slug is derived from the title.
    pub fn new(
        title: &str,
        severity: Severity,
        asset: &str,
        date: &str,
        location: &str,
        description: &str,
        status: Status,
    ) -> (r: Finding)
        ensures
            r.id is None,
            r.hex_id@.len() == 0,
            r.slug@ == slug_of(title@),
            r.title@ == title@,
            r.severity == severity,
            r.asset@ == asset@,
            r.date@ == date@,
            r.location@ == location@,
            r.description@ == description@,
            r.status == status,
            r.images@.len() == 0,
    {
        let lower = lowercase(title);
        let slug = dash_spaces(lower.as_str());
        Finding {
            id: None,
            hex_id: String::new(),
            slug,
            title: String::from_str(title),
            severity,
            asset: String::from_str(asset),
            date: String::from_str(date),
            location: String::from_str(location),
            description: String::from_str(description),
            status,
            images: Vec::new(),
        }
    }

    pub fn with_images(self, images: Vec<String>) -> (r: Finding)
        ensures
            r.images == images,
            r.id == self.id,
            r.hex_id == self.hex_id,
            r.slug == self.slug,
            r.title == self.title,
            r.severity == self.severity,
            r.asset == self.asset,
            r.date == self.date,
            r.location == self.location,
            r.description == self.description,
            r.status == self.status,
    {
        Finding { images, ..self }
    }

    /// Demonstration findings spread over three assets: the rows of
    /// [`sample_finding_rows`], in order.
    pub fn sample_findings() -> (r: Vec<Finding>)
        ensures
            r@.len() == sample_finding_rows().len(),
            forall|i: int| 0 <= i < r@.len() ==> finding_is(#[trigger] r@[i], sample_finding_rows()[i]),
    {
        let mut v: Vec<Finding> = Vec::new();
        v.push(Finding::new("Exposed Admin Panel", Severity::High, "nexus_portal", "2025/03/05", "https://portal.nexus.corp/admin", "Admin panel accessible on public IP without VPN.", Status::Resolved));
        v.push(Finding::new("Missing Rate Limiting", Severity::Medium, "nexus_portal", "2025/03/18", "https://portal.nexus.corp/api/login", "No rate limiting on login endpoint enables brute-force.", Status::Resolved));
        v.push(Finding::new("Default Credentials", Severity::Critical, "orion_gateway", "2025/04/02", "https://gw.orion.corp/admin", "Factory default admin:admin credentials still active.", Status::Resolved));
        v.push(Finding::new("Unpatched Log4j", Severity::Critical, "orion_gateway", "2025/04/14", "https://gw.orion.corp/api/log", "Log4Shell (CVE-2021-44228) exploitable via User-Agent header.", Status::Resolved));
        v.push(Finding::new("Missing HSTS Header", Severity::Info, "nexus_portal", "2025/04/22", "https://portal.nexus.corp", "Strict-Transport-Security header not set.", Status::Resolved));
        v.push(Finding::new("Session Fixation", Severity::High, "helix_mobile", "2025/05/07", "https://mobile-api.helix.corp/login", "Session token not regenerated after authentication.", Status::Resolved));
        v.push(Finding::new("Cleartext Storage of Password", Severity::Critical, "helix_mobile", "2025/05/19", "https://mobile-api.helix.corp/db", "User passwords stored as plain SHA-1 hashes without salt.", Status::Resolved));
        v.push(Finding::new("GraphQL Introspection Enabled", Severity::Medium, "nexus_portal", "2025/06/03", "https://portal.nexus.corp/graphql", "Full schema introspection available in production.", Status::Open));
        v.push(Finding::new("Command Injection", Severity::Critical, "orion_gateway", "2025/06/12", "https://gw.orion.corp/api/ping", "Host parameter passed to shell exec without sanitization.", Status::Resolved));
        v.push(Finding::new("Insecure Randomness", Severity::Medium, "helix_mobile", "2025/06/25", "https://mobile-api.helix.corp/api/token", "Password reset tokens generated with Math.random().", Status::Resolved));
        v.push(Finding::new("Exposed .env File", Severity::High, "nexus_portal", "2025/07/08", "https://portal.nexus.corp/.env", "Environment file with database credentials publicly accessible.", Status::Resolved));
        v.push(Finding::new("HTTP Request Smuggling", Severity::High, "orion_gateway", "2025/07/16", "https://gw.orion.corp", "CL.TE desync between load balancer and backend.", Status::InProgress));
        v.push(Finding::new("Verbose Server Header", Severity::Info, "orion_gateway", "2025/07/28", "https://gw.orion.corp", "Server header discloses Apache/2.4.49 version.", Status::Open));
        v.push(Finding::new("Prototype Pollution", Severity::High, "helix_mobile", "2025/08/04", "https://mobile-api.helix.corp/api/merge", "Deep merge of user input enables __proto__ pollution.", Status::Open));
        v.push(Finding::new("Open S3 Bucket", Severity::Critical, "nexus_portal", "2025/08/15", "https://s3.amazonaws.com/nexus-uploads", "Public read/write access on uploads bucket.", Status::Resolved));
        v.push(Finding::new("Weak Session Timeout", Severity::Low, "helix_mobile", "2025/08/22", "https://mobile-api.helix.corp", "Session tokens valid for 30 days without re-auth.", Status::Open));
        v.push(Finding::new("Open Redirect", Severity::Medium, "nexus_portal", "2025/09/03", "https://portal.nexus.corp/goto", "Unvalidated redirect via query parameter.", Status::Resolved));
        v.push(Finding::new("Verbose Error Messages", Severity::Info, "nexus_portal", "2025/09/10", "https://portal.nexus.corp/api/debug", "Stack traces exposed in production error responses.", Status::Open));
        v.push(Finding::new("TLS Certificate Mismatch", Severity::Low, "orion_gateway", "2025/09/18", "https://gw.orion.corp", "Certificate CN does not match hostname.", Status::FalsePositive));
        v.push(Finding::new("Insecure WebSocket", Severity::Medium, "helix_mobile", "2025/09/26", "https://mobile-api.helix.corp/ws", "WebSocket endpoint accepts connections without origin check.", Status::Open));
        v.push(Finding::new("SQL Injection", Severity::Critical, "nexus_portal", "2025/10/02", "https://portal.nexus.corp/api/users?id=1", "User input is directly concatenated into SQL query without sanitization.", Status::Open));
        v.push(Finding::new("XML External Entity (XXE)", Severity::High, "orion_gateway", "2025/10/09", "https://gw.orion.corp/import", "XML parser resolves external entities from untrusted input.", Status::Open));
        v.push(Finding::new("Cross-Site Scripting (XSS)", Severity::High, "nexus_portal", "2025/10/14", "https://portal.nexus.corp/search", "Reflected XSS vulnerability in search parameter.", Status::InProgress));
        v.push(Finding::new("Directory Listing Enabled", Severity::Low, "nexus_portal", "2025/10/20", "https://portal.nexus.corp/static/", "Web server exposes directory listing for static assets.", Status::Resolved));
        v.push(Finding::new("Clickjacking", Severity::Medium, "helix_mobile", "2025/10/27", "https://mobile-api.helix.corp/dashboard", "Missing X-Frame-Options header on sensitive page.", Status::Open));
        v.push(Finding::new("Buffer Overflow", Severity::Critical, "orion_gateway", "2025/11/01", "https://gw.orion.corp/upload", "Stack buffer overflow in file upload handler.", Status::Open));
        v.push(Finding::new("Authentication Bypass", Severity::Critical, "nexus_portal", "2025/11/06", "https://portal.nexus.corp/admin", "Admin panel accessible without authentication.", Status::Resolved));
        v.push(Finding::new("Privilege Escalation", Severity::High, "orion_gateway", "2025/11/12", "https://gw.orion.corp/api/role", "Users can modify their own role parameter.", Status::InProgress));
        v.push(Finding::new("Information Disclosure", Severity::Medium, "nexus_portal", "2025/11/17", "https://portal.nexus.corp/.git", "Git repository exposed to public.", Status::Open));
        v.push(Finding::new("Insecure CORS Policy", Severity::Medium, "helix_mobile", "2025/11/22", "https://mobile-api.helix.corp/api/data", "Access-Control-Allow-Origin set to wildcard.", Status::Open));
        v.push(Finding::new("Missing Security Headers", Severity::Info, "orion_gateway", "2025/11/28", "https://gw.orion.corp/health", "Response missing Content-Security-Policy header.", Status::Open));
        v.push(Finding::new("Remote Code Execution", Severity::Critical, "orion_gateway", "2025/12/03", "https://gw.orion.corp/eval", "User input passed to eval() function.", Status::Open));
        v.push(Finding::new("Insecure Deserialization", Severity::High, "helix_mobile", "2025/12/08", "https://mobile-api.helix.corp/api/session", "Untrusted data deserialized without validation.", Status::Open));
        v.push(Finding::new("Server-Side Request Forgery", Severity::High, "nexus_portal", "2025/12/14", "https://portal.nexus.corp/proxy", "User-supplied URL fetched without allowlist validation.", Status::InProgress));
        v.push(Finding::new("Path Traversal", Severity::Medium, "nexus_portal", "2025/12/19", "https://portal.nexus.corp/files", "File path parameter allows directory traversal.", Status::Open));
        v.push(Finding::new("Denial of Service", Severity::Medium, "orion_gateway", "2025/12/22", "https://gw.orion.corp/api/export", "No rate limiting on resource-intensive endpoint.", Status::FalsePositive));
        v.push(Finding::new("Cookie Without Secure Flag", Severity::Low, "helix_mobile", "2025/12/28", "https://mobile-api.helix.corp", "Session cookie transmitted over unencrypted channel.", Status::Open));
        v.push(Finding::new("JWT Secret Key Weak", Severity::Critical, "helix_mobile", "2026/01/04", "https://mobile-api.helix.corp/auth", "JWT signed with easily guessable secret key.", Status::Open));
        v.push(Finding::new("Hardcoded Credentials", Severity::High, "orion_gateway", "2026/01/10", "https://gw.orion.corp/config", "Database password hardcoded in source.", Status::InProgress));
        v.push(Finding::new("CSRF Token Missing", Severity::Medium, "nexus_portal", "2026/01/15", "https://portal.nexus.corp/settings", "Form submission lacks CSRF protection.", Status::Open));
        v.push(Finding::new("Weak Password Policy", Severity::Low, "helix_mobile", "2026/01/20", "https://mobile-api.helix.corp/register", "No minimum password length requirement.", Status::Resolved));
        v.push(Finding::new("HTTP Only Flag Missing", Severity::Info, "nexus_portal", "2026/01/25", "https://portal.nexus.corp", "Session cookie missing HttpOnly flag.", Status::Open));
        v.push(Finding::new("Unvalidated File Upload", Severity::High, "nexus_portal", "2026/01/28", "https://portal.nexus.corp/upload", "No file type validation on upload endpoint.", Status::Open));
        v.push(Finding::new("Mass Assignment", Severity::High, "helix_mobile", "2026/02/02", "https://mobile-api.helix.corp/api/profile", "API accepts and persists undocumented fields.", Status::Open));
        v.push(Finding::new("Broken Access Control", Severity::Critical, "nexus_portal", "2026/02/07", "https://portal.nexus.corp/api/invoices", "IDOR allows accessing other users' invoices.", Status::Open));
        v
    }

    /// Demonstration findings without asset or date: the rows of
    /// [`default_finding_rows`], in order.
    pub fn default_findings() -> (r: Vec<Finding>)
        ensures
            r@.len() == default_finding_rows().len(),
            forall|i: int| 0 <= i < r@.len() ==> finding_is(#[trigger] r@[i], default_finding_rows()[i]),
    {
        let mut v: Vec<Finding> = Vec::new();
        v.push(Finding::new("SQL Injection", Severity::Critical, "", "", "https://example.com/api/users?id=1", "User input is directly concatenated into SQL query without sanitization.", Status::Open));
        v.push(Finding::new("Cross-Site Scripting (XSS)", Severity::High, "", "", "https://example.com/search", "Reflected XSS vulnerability in search parameter.", Status::InProgress));
        v.push(Finding::new("Buffer Overflow", Severity::Critical, "", "", "https://example.com/upload", "Stack buffer overflow in file upload handler.", Status::Open));
        v.push(Finding::new("Authentication Bypass", Severity::Critical, "", "", "https://example.com/admin", "Admin panel accessible without authentication.", Status::Resolved));
        v.push(Finding::new("Remote Code Execution", Severity::Critical, "", "", "https://example.com/eval", "User input passed to eval() function.", Status::Open));
        v.push(Finding::new("Privilege Escalation", Severity::High, "", "", "https://example.com/api/role", "Users can modify their own role parameter.", Status::InProgress));
        v.push(Finding::new("Information Disclosure", Severity::Medium, "", "", "https://example.com/.git", "Git repository exposed to public.", Status::Open));
        v.push(Finding::new("Denial of Service", Severity::Medium, "", "", "https://example.com/api/export", "No rate limiting on resource-intensive endpoint.", Status::FalsePositive));
        v.push(Finding::new("Insecure Deserialization", Severity::High, "", "", "https://example.com/api/session", "Untrusted data deserialized without validation.", Status::Open));
        v.push(Finding::new("Path Traversal", Severity::Medium, "", "", "https://example.com/files", "File path parameter allows directory traversal.", Status::Open));
        v.push(Finding::new("CSRF Token Missing", Severity::Medium, "", "", "https://example.com/settings", "Form submission lacks CSRF protection.", Status::Open));
        v.push(Finding::new("Weak Password Policy", Severity::Low, "", "", "https://example.com/register", "No minimum password length requirement.", Status::Resolved));
        v.push(Finding::new("HTTP Only Flag Missing", Severity::Info, "", "", "https://example.com", "Session cookie missing HttpOnly flag.", Status::Open));
        v
    }
}

/// The fields that a new finding is made of.
pub struct FindingRow {
    pub title: Seq<char>,
    pub severity: Severity,
    pub asset: Seq<char>,
    pub date: Seq<char>,
    pub location: Seq<char>,
    pub description: Seq<char>,
    pub status: Status,
}

pub open spec fn finding_row(
    title: &str,
    severity: Severity,
    asset: &str,
    date: &str,
    location: &str,
    description: &str,
    status: Status,
) -> FindingRow {
    FindingRow {
        title: title@,
        severity: severity,
        asset: asset@,
        date: date@,
        location: location@,
        description: description@,
        status: status,
    }
}

/// `f` is a new finding made of `row`.
pub open spec fn finding_is(f: Finding, row: FindingRow) -> bool {
    &&& f.id is None
    &&& f.hex_id@.len() == 0
    &&& f.slug@ == slug_of(row.title)
    &&& f.title@ == row.title
    &&& f.severity == row.severity
    &&& f.asset@ == row.asset
    &&& f.date@ == row.date
    &&& f.location@ == row.location
    &&& f.description@ == row.description
    &&& f.status == row.status
    &&& f.images@.len() == 0
}

/// The demonstration findings, oldest first.
pub open spec fn sample_finding_rows() -> Seq<FindingRow> {
    seq![
        finding_row("Exposed Admin Panel", Severity::High, "nexus_portal", "2025/03/05", "https://portal.nexus.corp/admin", "Admin panel accessible on public IP without VPN.", Status::Resolved),
        finding_row("Missing Rate Limiting", Severity::Medium, "nexus_portal", "2025/03/18", "https://portal.nexus.corp/api/login", "No rate limiting on login endpoint enables brute-force.", Status::Resolved),
        finding_row("Default Credentials", Severity::Critical, "orion_gateway", "2025/04/02", "https://gw.orion.corp/admin", "Factory default admin:admin credentials still active.", Status::Resolved),
        finding_row("Unpatched Log4j", Severity::Critical, "orion_gateway", "2025/04/14", "https://gw.orion.corp/api/log", "Log4Shell (CVE-2021-44228) exploitable via User-Agent header.", Status::Resolved),
        finding_row("Missing HSTS Header", Severity::Info, "nexus_portal", "2025/04/22", "https://portal.nexus.corp", "Strict-Transport-Security header not set.", Status::Resolved),
        finding_row("Session Fixation", Severity::High, "helix_mobile", "2025/05/07", "https://mobile-api.helix.corp/login", "Session token not regenerated after authentication.", Status::Resolved),
        finding_row("Cleartext Storage of Password", Severity::Critical, "helix_mobile", "2025/05/19", "https://mobile-api.helix.corp/db", "User passwords stored as plain SHA-1 hashes without salt.", Status::Resolved),
        finding_row("GraphQL Introspection Enabled", Severity::Medium, "nexus_portal", "2025/06/03", "https://portal.nexus.corp/graphql", "Full schema introspection available in production.", Status::Open),
        finding_row("Command Injection", Severity::Critical, "orion_gateway", "2025/06/12", "https://gw.orion.corp/api/ping", "Host parameter passed to shell exec without sanitization.", Status::Resolved),
        finding_row("Insecure Randomness", Severity::Medium, "helix_mobile", "2025/06/25", "https://mobile-api.helix.corp/api/token", "Password reset tokens generated with Math.random().", Status::Resolved),
        finding_row("Exposed .env File", Severity::High, "nexus_portal", "2025/07/08", "https://portal.nexus.corp/.env", "Environment file with database credentials publicly accessible.", Status::Resolved),
        finding_row("HTTP Request Smuggling", Severity::High, "orion_gateway", "2025/07/16", "https://gw.orion.corp", "CL.TE desync between load balancer and backend.", Status::InProgress),
        finding_row("Verbose Server Header", Severity::Info, "orion_gateway", "2025/07/28", "https://gw.orion.corp", "Server header discloses Apache/2.4.49 version.", Status::Open),
        finding_row("Prototype Pollution", Severity::High, "helix_mobile", "2025/08/04", "https://mobile-api.helix.corp/api/merge", "Deep merge of user input enables __proto__ pollution.", Status::Open),
        finding_row("Open S3 Bucket", Severity::Critical, "nexus_portal", "2025/08/15", "https://s3.amazonaws.com/nexus-uploads", "Public read/write access on uploads bucket.", Status::Resolved),
        finding_row("Weak Session Timeout", Severity::Low, "helix_mobile", "2025/08/22", "https://mobile-api.helix.corp", "Session tokens valid for 30 days without re-auth.", Status::Open),
        finding_row("Open Redirect", Severity::Medium, "nexus_portal", "2025/09/03", "https://portal.nexus.corp/goto", "Unvalidated redirect via query parameter.", Status::Resolved),
        finding_row("Verbose Error Messages", Severity::Info, "nexus_portal", "2025/09/10", "https://portal.nexus.corp/api/debug", "Stack traces exposed in production error responses.", Status::Open),
        finding_row("TLS Certificate Mismatch", Severity::Low, "orion_gateway", "2025/09/18", "https://gw.orion.corp", "Certificate CN does not match hostname.", Status::FalsePositive),
        finding_row("Insecure WebSocket", Severity::Medium, "helix_mobile", "2025/09/26", "https://mobile-api.helix.corp/ws", "WebSocket endpoint accepts connections without origin check.", Status::Open),
        finding_row("SQL Injection", Severity::Critical, "nexus_portal", "2025/10/02", "https://portal.nexus.corp/api/users?id=1", "User input is directly concatenated into SQL query without sanitization.", Status::Open),
        finding_row("XML External Entity (XXE)", Severity::High, "orion_gateway", "2025/10/09", "https://gw.orion.corp/import", "XML parser resolves external entities from untrusted input.", Status::Open),
        finding_row("Cross-Site Scripting (XSS)", Severity::High, "nexus_portal", "2025/10/14", "https://portal.nexus.corp/search", "Reflected XSS vulnerability in search parameter.", Status::InProgress),
        finding_row("Directory Listing Enabled", Severity::Low, "nexus_portal", "2025/10/20", "https://portal.nexus.corp/static/", "Web server exposes directory listing for static assets.", Status::Resolved),
        finding_row("Clickjacking", Severity::Medium, "helix_mobile", "2025/10/27", "https://mobile-api.helix.corp/dashboard", "Missing X-Frame-Options header on sensitive page.", Status::Open),
        finding_row("Buffer Overflow", Severity::Critical, "orion_gateway", "2025/11/01", "https://gw.orion.corp/upload", "Stack buffer overflow in file upload handler.", Status::Open),
        finding_row("Authentication Bypass", Severity::Critical, "nexus_portal", "2025/11/06", "https://portal.nexus.corp/admin", "Admin panel accessible without authentication.", Status::Resolved),
        finding_row("Privilege Escalation", Severity::High, "orion_gateway", "2025/11/12", "https://gw.orion.corp/api/role", "Users can modify their own role parameter.", Status::InProgress),
        finding_row("Information Disclosure", Severity::Medium, "nexus_portal", "2025/11/17", "https://portal.nexus.corp/.git", "Git repository exposed to public.", Status::Open),
        finding_row("Insecure CORS Policy", Severity::Medium, "helix_mobile", "2025/11/22", "https://mobile-api.helix.corp/api/data", "Access-Control-Allow-Origin set to wildcard.", Status::Open),
        finding_row("Missing Security Headers", Severity::Info, "orion_gateway", "2025/11/28", "https://gw.orion.corp/health", "Response missing Content-Security-Policy header.", Status::Open),
        finding_row("Remote Code Execution", Severity::Critical, "orion_gateway", "2025/12/03", "https://gw.orion.corp/eval", "User input passed to eval() function.", Status::Open),
        finding_row("Insecure Deserialization", Severity::High, "helix_mobile", "2025/12/08", "https://mobile-api.helix.corp/api/session", "Untrusted data deserialized without validation.", Status::Open),
        finding_row("Server-Side Request Forgery", Severity::High, "nexus_portal", "2025/12/14", "https://portal.nexus.corp/proxy", "User-supplied URL fetched without allowlist validation.", Status::InProgress),
        finding_row("Path Traversal", Severity::Medium, "nexus_portal", "2025/12/19", "https://portal.nexus.corp/files", "File path parameter allows directory traversal.", Status::Open),
        finding_row("Denial of Service", Severity::Medium, "orion_gateway", "2025/12/22", "https://gw.orion.corp/api/export", "No rate limiting on resource-intensive endpoint.", Status::FalsePositive),
        finding_row("Cookie Without Secure Flag", Severity::Low, "helix_mobile", "2025/12/28", "https://mobile-api.helix.corp", "Session cookie transmitted over unencrypted channel.", Status::Open),
        finding_row("JWT Secret Key Weak", Severity::Critical, "helix_mobile", "2026/01/04", "https://mobile-api.helix.corp/auth", "JWT signed with easily guessable secret key.", Status::Open),
        finding_row("Hardcoded Credentials", Severity::High, "orion_gateway", "2026/01/10", "https://gw.orion.corp/config", "Database password hardcoded in source.", Status::InProgress),
        finding_row("CSRF Token Missing", Severity::Medium, "nexus_portal", "2026/01/15", "https://portal.nexus.corp/settings", "Form submission lacks CSRF protection.", Status::Open),
        finding_row("Weak Password Policy", Severity::Low, "helix_mobile", "2026/01/20", "https://mobile-api.helix.corp/register", "No minimum password length requirement.", Status::Resolved),
        finding_row("HTTP Only Flag Missing", Severity::Info, "nexus_portal", "2026/01/25", "https://portal.nexus.corp", "Session cookie missing HttpOnly flag.", Status::Open),
        finding_row("Unvalidated File Upload", Severity::High, "nexus_portal", "2026/01/28", "https://portal.nexus.corp/upload", "No file type validation on upload endpoint.", Status::Open),
        finding_row("Mass Assignment", Severity::High, "helix_mobile", "2026/02/02", "https://mobile-api.helix.corp/api/profile", "API accepts and persists undocumented fields.", Status::Open),
        finding_row("Broken Access Control", Severity::Critical, "nexus_portal", "2026/02/07", "https://portal.nexus.corp/api/invoices", "IDOR allows accessing other users' invoices.", Status::Open),
    ]
}

/// The demonstration findings without asset or date.
pub open spec fn default_finding_rows() -> Seq<FindingRow> {
    seq![
        finding_row("SQL Injection", Severity::Critical, "", "", "https://example.com/api/users?id=1", "User input is directly concatenated into SQL query without sanitization.", Status::Open),
        finding_row("Cross-Site Scripting (XSS)", Severity::High, "", "", "https://example.com/search", "Reflected XSS vulnerability in search parameter.", Status::InProgress),
        finding_row("Buffer Overflow", Severity::Critical, "", "", "https://example.com/upload", "Stack buffer overflow in file upload handler.", Status::Open),
        finding_row("Authentication Bypass", Severity::Critical, "", "", "https://example.com/admin", "Admin panel accessible without authentication.", Status::Resolved),
        finding_row("Remote Code Execution", Severity::Critical, "", "", "https://example.com/eval", "User input passed to eval() function.", Status::Open),
        finding_row("Privilege Escalation", Severity::High, "", "", "https://example.com/api/role", "Users can modify their own role parameter.", Status::InProgress),
        finding_row("Information Disclosure", Severity::Medium, "", "", "https://example.com/.git", "Git repository exposed to public.", Status::Open),
        finding_row("Denial of Service", Severity::Medium, "", "", "https://example.com/api/export", "No rate limiting on resource-intensive endpoint.", Status::FalsePositive),
        finding_row("Insecure Deserialization", Severity::High, "", "", "https://example.com/api/session", "Untrusted data deserialized without validation.", Status::Open),
        finding_row("Path Traversal", Severity::Medium, "", "", "https://example.com/files", "File path parameter allows directory traversal.", Status::Open),
        finding_row("CSRF Token Missing", Severity::Medium, "", "", "https://example.com/settings", "Form submission lacks CSRF protection.", Status::Open),
        finding_row("Weak Password Policy", Severity::Low, "", "", "https://example.com/register", "No minimum password length requirement.", Status::Resolved),
        finding_row("HTTP Only Flag Missing", Severity::Info, "", "", "https://example.com", "Session cookie missing HttpOnly flag.", Status::Open),
    ]
}

/// How many of `v` have severity `s`.
pub open spec fn severity_count(v: Seq<Finding>, s: Severity) -> nat
    decreases v.len(),
{
    if v.len() == 0 {
        0
    } else {
        severity_count(v.drop_last(), s) + if v.last().severity == s { 1nat } else { 0nat }
    }
}

proof fn lemma_severity_count_bound(v: Seq<Finding>, s: Severity)
    ensures
        severity_count(v, s) <= v.len(),
    decreases v.len(),
{
    if v.len() > 0 {
        lemma_severity_count_bound(v.drop_last(), s);
    }
}

/// The number of findings of one severity.
pub fn count_severity(findings: &[Finding], severity: Severity) -> (r: usize)
    ensures
        r == severity_count(findings@, severity),
{
    let mut n: usize = 0;
    let mut k: usize = 0;
    while k < findings.len()
        invariant
            k <= findings@.len(),
            n == severity_count(findings@.subrange(0, k as int), severity),
        decreases findings.len() - k,
    {
        assert(findings@.subrange(0, k + 1).drop_last() =~= findings@.subrange(0, k as int));
        proof {
            lemma_severity_count_bound(findings@.subrange(0, k as int), severity);
        }
        if findings[k].severity == severity {
            n = n + 1;
        }
        k = k + 1;
    }
    assert(findings@.subrange(0, k as int) =~= findings@);
    n
}

/// The dashboard tabs.
#[derive(Clone, Copy, PartialEq, Eq, Debug, Structural)]
pub enum TabKind {
    Graph,
    Search,
    Placeholder,
}

} // verus!
