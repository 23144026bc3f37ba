//! The TLS inspector: which endpoint to reach and how the handshake's
//! findings are shown.
use vstd::prelude::*;

use crate::text::{
    chars_of, concat2, decimal, decimal_string, join, join_strings, owned, parse_u16,
    parse_u16_spec, push_str, rsplit_once, rsplit_once_char, string_of, string_views, trim,
    trim_chars,
};
use x509_parser::extensions::GeneralName;

use crate::tools::{
    ResultView, SectionView, ToolCommandSpec, ToolCommandView, ToolResult, ToolResultSection,
    lemma_section_views_push, section_views,
};

verus! {

/// `host:port`.
pub open spec fn endpoint(host: Seq<char>, port: u16) -> Seq<char> {
    host + ":"@ + decimal(port as nat)
}

/// `openssl s_client` against the endpoint, with the host as SNI name.
pub open spec fn tls_command(host: Seq<char>, port: u16) -> ToolCommandView {
    ToolCommandView {
        display: "openssl s_client -connect "@ + endpoint(host, port) + " -servername "@ + host
            + " -showcerts"@,
        program: "openssl"@,
        args: seq![
            "s_client"@,
            "-connect"@,
            endpoint(host, port),
            "-servername"@,
            host,
            "-showcerts"@,
        ],
    }
}

fn endpoint_string(host: &str, port: u16) -> (r: String)
    ensures
        r@ == endpoint(host@, port),
{
    let p = decimal_string(port as u64);
    crate::text::concat3(host, ":", p.as_str())
}

pub fn command_spec(host: &str, port: u16) -> (r: ToolCommandSpec)
    ensures
        r@ == tls_command(host@, port),
{
    let mut display = concat2("openssl s_client -connect ", endpoint_string(host, port).as_str());
    push_str(&mut display, " -servername ");
    push_str(&mut display, host);
    push_str(&mut display, " -showcerts");
    let r = ToolCommandSpec {
        display,
        program: owned("openssl"),
        args: vec![
            owned("s_client"),
            owned("-connect"),
            endpoint_string(host, port),
            owned("-servername"),
            owned(host),
            owned("-showcerts"),
        ],
    };
    assert(r@.args =~= tls_command(host@, port).args);
    r
}

/// The endpoint a target names: `host:port` splits at its last colon, with
/// the host trimmed; a target without a colon is a host on port 443.
pub open spec fn target_endpoint(target: Seq<char>) -> Result<(Seq<char>, u16), Seq<char>> {
    match rsplit_once(target, ':') {
        Some((host, port)) => match parse_u16_spec(port) {
            None => Err("Port must be a number from 1 to 65535."@),
            Some(p) => if trim(host).len() == 0 || p == 0 {
                Err("Target must look like host:port."@)
            } else {
                Ok((trim(host), p))
            },
        },
        None => Ok((target, 443u16)),
    }
}

pub fn parse_target(target: &str) -> (r: Result<(String, u16), String>)
    ensures
        match r {
            Ok((host, port)) => target_endpoint(target@) == Ok::<(Seq<char>, u16), Seq<char>>(
                (host@, port),
            ),
            Err(e) => target_endpoint(target@) == Err::<(Seq<char>, u16), Seq<char>>(e@),
        },
{
    let t = chars_of(target);
    match rsplit_once_char(&t, ':') {
        Some((host, port_raw)) => {
            let port = match parse_u16(&port_raw) {
                Some(p) => p,
                None => {
                    return Err(owned("Port must be a number from 1 to 65535."));
                },
            };
            let h = trim_chars(&host);
            if h.len() == 0 || port == 0 {
                return Err(owned("Target must look like host:port."));
            }
            Ok((string_of(&h), port))
        },
        None => Ok((owned(target), 443)),
    }
}

/// What the handshake found out.
#[derive(Clone, Debug)]
pub struct TlsMetadata {
    pub protocol: Option<String>,
    pub cipher: Option<String>,
    pub subject: Option<String>,
    pub issuer: Option<String>,
    pub not_before: Option<String>,
    pub not_after: Option<String>,
    pub san_dns: Vec<String>,
    pub certificate_count: usize,
    pub raw_output: String,
}

pub open spec fn or_unknown(o: Option<String>) -> Seq<char> {
    match o {
        Some(s) => s@,
        None => "unknown"@,
    }
}

/// The transcript of a handshake: the endpoint, then the protocol, the
/// cipher suite and the number of certificates.
pub open spec fn handshake_transcript(
    host: Seq<char>,
    port: u16,
    protocol: Option<String>,
    cipher: Option<String>,
    count: usize,
) -> Seq<char> {
    "native rustls TLS handshake to "@ + endpoint(host, port) + "\n"@ + "protocol="@ + or_unknown(
        protocol,
    ) + "\ncipher="@ + or_unknown(cipher) + "\ncertificates="@ + decimal(count as nat) + "\n"@
}

fn or_unknown_exec(o: &Option<String>) -> (r: String)
    ensures
        r@ == or_unknown(*o),
{
    match o {
        Some(s) => s.clone(),
        None => owned("unknown"),
    }
}

pub fn handshake_raw_output(
    host: &str,
    port: u16,
    protocol: &Option<String>,
    cipher: &Option<String>,
    count: usize,
) -> (r: String)
    ensures
        r@ == handshake_transcript(host@, port, *protocol, *cipher, count),
{
    let mut r = concat2("native rustls TLS handshake to ", endpoint_string(host, port).as_str());
    push_str(&mut r, "\n");
    push_str(&mut r, "protocol=");
    push_str(&mut r, or_unknown_exec(protocol).as_str());
    push_str(&mut r, "\ncipher=");
    push_str(&mut r, or_unknown_exec(cipher).as_str());
    push_str(&mut r, "\ncertificates=");
    push_str(&mut r, decimal_string(count as u64).as_str());
    push_str(&mut r, "\n");
    r
}

pub open spec fn labelled(prefix: Seq<char>, o: Option<String>) -> Seq<Seq<char>> {
    match o {
        Some(s) => seq![prefix + s@],
        None => Seq::empty(),
    }
}

pub open spec fn certificate_lines(m: TlsMetadata) -> Seq<Seq<char>> {
    labelled("Subject: "@, m.subject) + labelled("Issuer: "@, m.issuer) + labelled(
        "Not Before: "@,
        m.not_before,
    ) + labelled("Not After: "@, m.not_after) + if m.san_dns@.len() > 0 {
        seq!["DNS SANs: "@ + join(string_views(m.san_dns@), ", "@)]
    } else {
        Seq::empty()
    }
}

/// The summary, the certificate details when there are any, and a note of
/// how many certificates the server presented.
pub open spec fn tls_sections(host: Seq<char>, port: u16, m: TlsMetadata) -> Seq<SectionView> {
    let summary = seq!["Target: "@ + endpoint(host, port), "Status: Handshake completed"@]
        + labelled("Protocol: "@, m.protocol) + labelled("Cipher: "@, m.cipher);
    let certificate = certificate_lines(m);
    seq![SectionView { label: "Summary"@, lines: summary }] + crate::tools::whois::nonempty_section(
        "Certificate"@,
        certificate,
    ) + seq![
        SectionView {
            label: "Diagnostics"@,
            lines: seq![
                "Native rustls handshake parsed "@ + decimal(m.certificate_count as nat)
                    + " certificate(s)."@,
            ],
        },
    ]
}

fn push_labelled(lines: &mut Vec<String>, prefix: &str, value: &Option<String>)
    ensures
        string_views(final(lines)@) == string_views(old(lines)@) + labelled(prefix@, *value),
{
    let ghost before = lines@;
    match value {
        Some(v) => {
            let line = concat2(prefix, v.as_str());
            lines.push(line);
            proof {
                crate::text::lemma_string_views_push(before, line);
            }
        },
        None => {
            assert(string_views(lines@) =~= string_views(before) + Seq::<Seq<char>>::empty());
        },
    }
}

pub fn tls_metadata_sections(host: &str, port: u16, metadata: &TlsMetadata) -> (r: Vec<
    ToolResultSection,
>)
    ensures
        section_views(r@) == tls_sections(host@, port, *metadata),
{
    let mut summary: Vec<String> = Vec::new();
    summary.push(concat2("Target: ", endpoint_string(host, port).as_str()));
    summary.push(owned("Status: Handshake completed"));
    push_labelled(&mut summary, "Protocol: ", &metadata.protocol);
    push_labelled(&mut summary, "Cipher: ", &metadata.cipher);
    let ghost expected = tls_sections(host@, port, *metadata);
    assert(string_views(summary@) =~= expected[0].lines);
    let mut sections: Vec<ToolResultSection> = Vec::new();
    let first = ToolResultSection { label: owned("Summary"), lines: summary };
    sections.push(first);
    assert(section_views(sections@) =~= seq![first@]);
    let ghost after_summary = section_views(sections@);
    let mut certificate: Vec<String> = Vec::new();
    push_labelled(&mut certificate, "Subject: ", &metadata.subject);
    push_labelled(&mut certificate, "Issuer: ", &metadata.issuer);
    push_labelled(&mut certificate, "Not Before: ", &metadata.not_before);
    push_labelled(&mut certificate, "Not After: ", &metadata.not_after);
    let ghost before_san = certificate@;
    if metadata.san_dns.len() > 0 {
        let joined = join_strings(&metadata.san_dns, ", ");
        let line = concat2("DNS SANs: ", joined.as_str());
        certificate.push(line);
        proof {
            crate::text::lemma_string_views_push(before_san, line);
        }
    }
    let ghost cert_lines = string_views(certificate@);
    assert(cert_lines =~= certificate_lines(*metadata));
    if certificate.len() > 0 {
        let ghost before = sections@;
        let section = ToolResultSection { label: owned("Certificate"), lines: certificate };
        sections.push(section);
        proof {
            lemma_section_views_push(before, section);
        }
    }
    assert(section_views(sections@) =~= after_summary + crate::tools::whois::nonempty_section(
        "Certificate"@,
        cert_lines,
    ));
    let note = crate::text::concat3(
        "Native rustls handshake parsed ",
        decimal_string(metadata.certificate_count as u64).as_str(),
        " certificate(s).",
    );
    let ghost note_view = note@;
    let diagnostics = ToolResultSection { label: owned("Diagnostics"), lines: vec![note] };
    assert(diagnostics@.lines =~= seq![note_view]);
    let ghost before = sections@;
    sections.push(diagnostics);
    proof {
        lemma_section_views_push(before, diagnostics);
    }
    assert(section_views(sections@) =~= expected);
    sections
}

/// The inspector's result for a completed handshake.
pub fn tls_result(host: &str, port: u16, metadata: &TlsMetadata) -> (r: ToolResult)
    ensures
        r@ == (ResultView {
            title: "TLS Inspector"@,
            sections: tls_sections(host@, port, *metadata),
            raw_output: metadata.raw_output@,
        }),
{
    ToolResult {
        title: owned("TLS Inspector"),
        sections: tls_metadata_sections(host, port, metadata),
        raw_output: metadata.raw_output.clone(),
    }
}

// ---------------------------------------------------------------------------
// The peer certificate
// ---------------------------------------------------------------------------
/// The fields of a certificate that the inspector shows: subject, issuer
/// and validity bounds as text, and each subject alternative name, a DNS
/// name as `Some` and any other kind of name as `None`.
#[derive(Clone, Debug)]
pub struct CertificateFields {
    pub subject: String,
    pub issuer: String,
    pub not_before: String,
    pub not_after: String,
    pub alt_names: Vec<Option<String>>,
}

pub open spec fn opt_view(o: Option<String>) -> Option<Seq<char>> {
    match o {
        Some(s) => Some(s@),
        None => None,
    }
}

pub open spec fn alt_name_views(v: Seq<Option<String>>) -> Seq<Option<Seq<char>>> {
    v.map_values(|o: Option<String>| opt_view(o))
}

/// The fields as plain values.
pub open spec fn fields_view(f: CertificateFields) -> (
    Seq<char>,
    Seq<char>,
    Seq<char>,
    Seq<char>,
    Seq<Option<Seq<char>>>,
) {
    (f.subject@, f.issuer@, f.not_before@, f.not_after@, alt_name_views(f.alt_names@))
}

/// What x509-parser reads from a DER-encoded certificate: its fields, or
/// the text of the parse error.
pub uninterp spec fn x509_fields(der: Seq<u8>) -> Result<
    (Seq<char>, Seq<char>, Seq<char>, Seq<char>, Seq<Option<Seq<char>>>),
    Seq<char>,
>;

/// `x509_parser::parse_x509_certificate` and the certificate's accessors:
/// the subject and issuer names and the validity bounds as x509-parser
/// prints them, and the names of the subject-alternative-name extension
/// (none when the extension is absent, invalid or repeated). The result is
/// what the name `x509_fields` gives for the bytes; nothing more of the
/// parser is stated.
#[verifier::external_body]
fn parse_certificate(der: &[u8]) -> (r: Result<CertificateFields, String>)
    ensures
        match r {
            Ok(f) => x509_fields(der@) == Ok::<_, Seq<char>>(fields_view(f)),
            Err(e) => x509_fields(der@) == Err::<(Seq<char>, Seq<char>, Seq<char>, Seq<char>, Seq<Option<Seq<char>>>), _>(e@),
        },
{
    let (_, cert) = x509_parser::parse_x509_certificate(der).map_err(|e| e.to_string())?;
    let alt_names = match cert.subject_alternative_name() {
        Ok(Some(san)) => san.value.general_names.iter().map(|name| match name {
            GeneralName::DNSName(value) => Some(value.to_string()),
            _ => None,
        }).collect(),
        _ => Vec::new(),
    };
    Ok(CertificateFields {
        subject: cert.subject().to_string(),
        issuer: cert.issuer().to_string(),
        not_before: cert.validity().not_before.to_string(),
        not_after: cert.validity().not_after.to_string(),
        alt_names,
    })
}

/// The DNS names among the subject alternative names, in order.
pub open spec fn dns_names(alt: Seq<Option<Seq<char>>>) -> Seq<Seq<char>>
    decreases alt.len(),
{
    if alt.len() == 0 {
        Seq::empty()
    } else {
        let rest = dns_names(alt.drop_last());
        match alt.last() {
            Some(n) => rest.push(n),
            None => rest,
        }
    }
}

/// The metadata reports the handshake's protocol, cipher suite and number
/// of certificates, its transcript, and the fields of the first
/// certificate when there is one.
pub open spec fn metadata_of(
    m: TlsMetadata,
    host: Seq<char>,
    port: u16,
    protocol: Option<String>,
    cipher: Option<String>,
    count: usize,
    fields: Option<(Seq<char>, Seq<char>, Seq<char>, Seq<char>, Seq<Option<Seq<char>>>)>,
) -> bool {
    &&& opt_view(m.protocol) == opt_view(protocol)
    &&& opt_view(m.cipher) == opt_view(cipher)
    &&& m.certificate_count == count
    &&& m.raw_output@ == handshake_transcript(host, port, protocol, cipher, count)
    &&& match fields {
        None => {
            &&& m.subject is None
            &&& m.issuer is None
            &&& m.not_before is None
            &&& m.not_after is None
            &&& m.san_dns@.len() == 0
        },
        Some(f) => {
            &&& opt_view(m.subject) == Some(f.0)
            &&& opt_view(m.issuer) == Some(f.1)
            &&& opt_view(m.not_before) == Some(f.2)
            &&& opt_view(m.not_after) == Some(f.3)
            &&& string_views(m.san_dns@) == dns_names(f.4)
        },
    }
}

/// The metadata of a finished handshake with `host:port`: the protocol and
/// cipher suite it agreed on and the certificates the server sent (DER
/// bytes, the server's own first). It fails exactly when the first
/// certificate cannot be parsed.
pub fn tls_metadata_of(
    host: &str,
    port: u16,
    protocol: Option<String>,
    cipher: Option<String>,
    certs: &[Vec<u8>],
) -> (r: Result<TlsMetadata, String>)
    ensures
        certs@.len() == 0 ==> (r matches Ok(m) && metadata_of(m, host@, port, protocol, cipher, 0, None)),
        certs@.len() > 0 ==> match x509_fields(certs@[0]@) {
            Ok(f) => r matches Ok(m) && metadata_of(
                m,
                host@,
                port,
                protocol,
                cipher,
                certs@.len() as usize,
                Some(f),
            ),
            Err(e) => r matches Err(msg) && msg@ == "Certificate parse failed: "@ + e,
        },
{
    let count = certs.len();
    let raw_output = handshake_raw_output(host, port, &protocol, &cipher, count);
    if count == 0 {
        return Ok(TlsMetadata {
            protocol,
            cipher,
            subject: None,
            issuer: None,
            not_before: None,
            not_after: None,
            san_dns: Vec::new(),
            certificate_count: 0,
            raw_output,
        });
    }
    match parse_certificate(certs[0].as_slice()) {
        Err(e) => Err(concat2("Certificate parse failed: ", e.as_str())),
        Ok(f) => {
            let ghost alt = alt_name_views(f.alt_names@);
            let mut san_dns: Vec<String> = Vec::new();
            for k in 0..f.alt_names.len()
                invariant
                    alt == alt_name_views(f.alt_names@),
                    string_views(san_dns@) == dns_names(alt.take(k as int)),
            {
                assert(alt.take(k + 1).drop_last() =~= alt.take(k as int));
                assert(alt.take(k + 1).last() == opt_view(f.alt_names@[k as int]));
                match &f.alt_names[k] {
                    Some(name) => {
                        let ghost before = san_dns@;
                        san_dns.push(name.clone());
                        assert(string_views(san_dns@) =~= string_views(before).push(name@));
                    },
                    None => {},
                }
            }
            assert(alt.take(f.alt_names.len() as int) =~= alt);
            Ok(TlsMetadata {
                protocol,
                cipher,
                subject: Some(f.subject),
                issuer: Some(f.issuer),
                not_before: Some(f.not_before),
                not_after: Some(f.not_after),
                san_dns,
                certificate_count: count,
                raw_output,
            })
        },
    }
}

} // verus!
