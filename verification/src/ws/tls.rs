//! Whom the gateway trusts to be the manager.
//!
//! There are three ways: a certificate with a known fingerprint, any certificate at all, which the
//! operator has to confirm in the environment, or a certificate that a known authority signed.

use vstd::prelude::*;

use crate::config::AppearXConfig;
use crate::json;
use crate::text;
use crate::ws::sha256;

verus! {

/// Whom to trust.
#[derive(Debug)]
pub enum TlsMode {
    /// A certificate with this fingerprint.
    Pinned { expected_fingerprint: String },
    /// Any certificate.
    Insecure,
    /// A certificate that a known authority signed.
    Standard,
}

/// What a [`TlsMode`] holds.
#[verifier::ext_equal]
pub enum ModeView {
    Pinned { expected_fingerprint: Seq<char> },
    Insecure,
    Standard,
}

impl View for TlsMode {
    type V = ModeView;

    open spec fn view(&self) -> ModeView {
        match *self {
            TlsMode::Pinned { expected_fingerprint } => ModeView::Pinned {
                expected_fingerprint: expected_fingerprint@,
            },
            TlsMode::Insecure => ModeView::Insecure,
            TlsMode::Standard => ModeView::Standard,
        }
    }
}

/// Why no certificate is trusted.
pub open spec fn not_confirmed() -> Seq<char> {
    "accept_self_signed_cert is enabled but BILBYCAST_ALLOW_INSECURE=1 is not set. Set this environment variable to confirm you understand the security implications."@
}

/// Whom to trust, given the settings and what the environment holds under
/// `BILBYCAST_ALLOW_INSECURE`.
pub open spec fn tls_mode(
    accept_self_signed: bool,
    fingerprint: Option<Seq<char>>,
    allow_insecure: Option<Seq<char>>,
) -> Result<ModeView, Seq<char>> {
    if fingerprint is Some && fingerprint->0.len() > 0 {
        Ok(ModeView::Pinned { expected_fingerprint: text::lowercased(fingerprint->0) })
    } else if accept_self_signed {
        if allow_insecure == Some("1"@) {
            Ok(ModeView::Insecure)
        } else {
            Err(not_confirmed())
        }
    } else {
        Ok(ModeView::Standard)
    }
}

/// What came of deciding whom to trust.
pub open spec fn decided(r: Result<TlsMode, String>) -> Result<ModeView, Seq<char>> {
    match r {
        Ok(m) => Ok(m@),
        Err(e) => Err(e@),
    }
}

/// Whom to trust, given the settings and what the environment holds under
/// `BILBYCAST_ALLOW_INSECURE`.
pub fn build_tls_config(
    accept_self_signed: bool,
    cert_fingerprint: Option<&str>,
    allow_insecure: Option<&str>,
) -> (r: Result<TlsMode, String>)
    ensures
        decided(r) == tls_mode(
            accept_self_signed,
            json::text_view(cert_fingerprint),
            json::text_view(allow_insecure),
        ),
        cert_fingerprint matches Some(fp) ==> fp@.len() > 0 && text::is_ascii(fp@) ==> decided(r)
            == Ok::<ModeView, Seq<char>>(
            ModeView::Pinned { expected_fingerprint: text::ascii_lowered(fp@) },
        ),
{
    if let Some(fp) = cert_fingerprint {
        if !fp.is_empty() {
            return Ok(TlsMode::Pinned { expected_fingerprint: text::to_lowercase(fp) });
        }
    }
    if accept_self_signed {
        let allow = match allow_insecure {
            Some(v) => text::str_eq(v, "1"),
            None => false,
        };
        if !allow {
            return Err(
                "accept_self_signed_cert is enabled but BILBYCAST_ALLOW_INSECURE=1 is not set. Set this environment variable to confirm you understand the security implications.".to_owned(),
            );
        }
        return Ok(TlsMode::Insecure);
    }
    Ok(TlsMode::Standard)
}

/// Whom to trust to be the unit. The unit comes with a certificate that nobody signed, so any is
/// accepted unless the settings say otherwise; a fingerprint needs no confirmation.
pub open spec fn unit_mode(fingerprint: Option<Seq<char>>, accept_self_signed: bool) -> ModeView {
    match fingerprint {
        Some(fp) => if fp.len() > 0 {
            ModeView::Pinned { expected_fingerprint: text::lowercased(fp) }
        } else {
            ModeView::Standard
        },
        None => if accept_self_signed {
            ModeView::Insecure
        } else {
            ModeView::Standard
        },
    }
}

/// Whom to trust to be the unit.
pub fn unit_tls_mode(config: &AppearXConfig) -> (r: TlsMode)
    ensures
        r@ == unit_mode(json::string_view(config.cert_fingerprint), config.accept_self_signed_cert),
        config.cert_fingerprint matches Some(fp) ==> fp@.len() > 0 && text::is_ascii(fp@) ==> r@
            == (ModeView::Pinned { expected_fingerprint: text::ascii_lowered(fp@) }),
{
    match &config.cert_fingerprint {
        Some(fp) => if fp.as_str().is_empty() {
            TlsMode::Standard
        } else {
            TlsMode::Pinned { expected_fingerprint: text::to_lowercase(fp.as_str()) }
        },
        None => if config.accept_self_signed_cert {
            TlsMode::Insecure
        } else {
            TlsMode::Standard
        },
    }
}

/// One hexadecimal digit in lower case.
pub open spec fn hex_digit(d: nat) -> char {
    if d < 10 {
        (48 + d) as char
    } else {
        (87 + d) as char
    }
}

/// A byte as two hexadecimal digits.
pub open spec fn hex_byte(b: u8) -> Seq<char> {
    seq![hex_digit((b / 16) as nat), hex_digit((b % 16) as nat)]
}

/// Bytes as hexadecimal digits with colons between them.
pub open spec fn fingerprint(bytes: Seq<u8>) -> Seq<char>
    decreases bytes.len(),
{
    if bytes.len() == 0 {
        Seq::empty()
    } else if bytes.len() == 1 {
        hex_byte(bytes[0])
    } else {
        fingerprint(bytes.drop_last()) + seq![':'] + hex_byte(bytes.last())
    }
}

fn make_hex_digit(d: u8) -> (r: char)
    requires
        d < 16,
    ensures
        r == hex_digit(d as nat),
{
    if d < 10 {
        (48 + d) as char
    } else {
        (87 + d) as char
    }
}

/// Bytes as hexadecimal digits with colons between them.
pub fn make_fingerprint(bytes: &[u8]) -> (r: String)
    ensures
        r@ == fingerprint(bytes@),
{
    let mut out = String::new();
    for i in 0..bytes.len()
        invariant
            out@ == fingerprint(bytes@.take(i as int)),
    {
        let ghost before = out@;
        let ghost b = bytes@[i as int];
        assert(bytes@.take(i + 1).drop_last() == bytes@.take(i as int));
        if i > 0 {
            out.push(':');
        }
        out.push(make_hex_digit(bytes[i] / 16));
        out.push(make_hex_digit(bytes[i] % 16));
        assert(out@ == fingerprint(bytes@.take(i + 1))) by {
            if i > 0 {
                assert(out@ == before + seq![':'] + hex_byte(b));
            } else {
                assert(out@ == hex_byte(b));
            }
        }
    }
    assert(bytes@.take(bytes@.len() as int) == bytes@);
    out
}

/// The fingerprint of a certificate.
pub open spec fn certificate_fingerprint(certificate: Seq<u8>) -> Seq<char> {
    fingerprint(sha256::digest(certificate))
}

/// Accepts a certificate exactly if it has the expected fingerprint; else says why not.
pub fn verify_fingerprint(certificate: &[u8], expected: &str) -> (r: Result<(), String>)
    requires
        certificate@.len() * 8 <= u64::MAX,
    ensures
        r is Ok <==> certificate_fingerprint(certificate@) == expected@,
        r matches Err(e) ==> e@ == "Certificate fingerprint mismatch. Expected: "@ + expected@
            + ", Got: "@ + certificate_fingerprint(certificate@)
            + ". This could indicate a MITM attack or certificate rotation."@,
{
    let mut hasher = sha256::Sha256::new();
    hasher.write(certificate);
    assert(hasher@ == certificate@);
    let digest = hasher.finalize();
    let got = make_fingerprint(digest.as_slice());
    if text::str_eq(got.as_str(), expected) {
        return Ok(());
    }
    let mut out = "Certificate fingerprint mismatch. Expected: ".to_owned();
    out.append(expected);
    out.append(", Got: ");
    out.append(got.as_str());
    out.append(". This could indicate a MITM attack or certificate rotation.");
    Err(out)
}

proof fn lemma_fingerprint_is_lower(bytes: Seq<u8>)
    ensures
        text::ascii_lowered(fingerprint(bytes)) == fingerprint(bytes),
    decreases bytes.len(),
{
    let f = fingerprint(bytes);
    if bytes.len() > 1 {
        let before = fingerprint(bytes.drop_last());
        lemma_fingerprint_is_lower(bytes.drop_last());
        assert forall|i: int| 0 <= i < f.len() implies text::ascii_lower(#[trigger] f[i])
            == f[i] by {
            if i < before.len() {
                assert(text::ascii_lowered(before)[i] == text::ascii_lower(before[i]));
                assert(f[i] == before[i]);
            }
        }
    }
    assert(text::ascii_lowered(f) == f);
}

/// A fingerprint that is given in upper case, lower case or both is that of a certificate exactly
/// if it has the digits of the certificate's digest.
pub proof fn law_fingerprint_in_any_case(certificate: Seq<u8>, given: Seq<char>)
    ensures
        certificate_fingerprint(certificate) == text::ascii_lowered(given) <==> text::ascii_lowered(
            certificate_fingerprint(certificate),
        ) == text::ascii_lowered(given),
{
    lemma_fingerprint_is_lower(sha256::digest(certificate));
}

/// Any certificate is trusted only where the settings say so, no fingerprint is given and the
/// environment confirms it.
pub proof fn law_insecure_needs_confirmation(
    accept_self_signed: bool,
    fingerprint: Option<Seq<char>>,
    allow_insecure: Option<Seq<char>>,
)
    ensures
        tls_mode(accept_self_signed, fingerprint, allow_insecure) == Ok::<ModeView, Seq<char>>(
            ModeView::Insecure,
        ) <==> {
            &&& accept_self_signed
            &&& allow_insecure == Some("1"@)
            &&& fingerprint is None || fingerprint->0.len() == 0
        },
{
}

/// A fingerprint is enough, whatever else the settings say.
pub proof fn law_fingerprint_decides(
    accept_self_signed: bool,
    fingerprint: Seq<char>,
    allow_insecure: Option<Seq<char>>,
)
    requires
        fingerprint.len() > 0,
    ensures
        tls_mode(accept_self_signed, Some(fingerprint), allow_insecure) == Ok::<
            ModeView,
            Seq<char>,
        >(ModeView::Pinned { expected_fingerprint: text::lowercased(fingerprint) }),
{
}

proof fn lemma_fingerprint_length(bytes: Seq<u8>)
    requires
        bytes.len() > 0,
    ensures
        fingerprint(bytes).len() == 3 * bytes.len() - 1,
    decreases bytes.len(),
{
    if bytes.len() > 1 {
        lemma_fingerprint_length(bytes.drop_last());
    }
}

proof fn lemma_hex_byte_injective(a: u8, b: u8)
    requires
        hex_byte(a) == hex_byte(b),
    ensures
        a == b,
{
    assert(hex_byte(a)[0] == hex_byte(b)[0]);
    assert(hex_byte(a)[1] == hex_byte(b)[1]);
}

/// Different bytes have different fingerprints.
pub proof fn law_fingerprint_is_unique(a: Seq<u8>, b: Seq<u8>)
    requires
        a.len() == b.len(),
        fingerprint(a) == fingerprint(b),
    ensures
        a == b,
    decreases a.len(),
{
    if a.len() == 1 {
        lemma_hex_byte_injective(a[0], b[0]);
    } else if a.len() > 1 {
        let fa = fingerprint(a.drop_last());
        let fb = fingerprint(b.drop_last());
        lemma_fingerprint_length(a.drop_last());
        lemma_fingerprint_length(b.drop_last());
        let n = fa.len() as int;
        assert(fingerprint(a).subrange(0, n) == fa);
        assert(fingerprint(b).subrange(0, n) == fb);
        assert(fingerprint(a).subrange(n + 1, n + 3) == hex_byte(a.last()));
        assert(fingerprint(b).subrange(n + 1, n + 3) == hex_byte(b.last()));
        law_fingerprint_is_unique(a.drop_last(), b.drop_last());
        lemma_hex_byte_injective(a.last(), b.last());
        assert(a == a.drop_last().push(a.last()));
        assert(b == b.drop_last().push(b.last()));
    } else {
        assert(a == b);
    }
}

} // verus!
