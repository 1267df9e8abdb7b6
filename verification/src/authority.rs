//! The certificate authority: the root CA (created once, or loaded from its PEM files)
//! and leaf certificates issued on the spot for each intercepted domain, cached by
//! domain. Certificates are made by `rcgen` and served through `rustls`; reading and
//! writing the PEM files is left to the caller. Leaf configurations offer only
//! `http/1.1` in ALPN, as the proxy parses HTTP/1.1 and nothing else.
use vstd::prelude::*;
use std::collections::hash_map::RandomState;
use std::sync::Arc;
use dashmap::DashMap;
use rcgen::{CertificateParams, KeyPair};
use rustls::server::ServerConfig;
use crate::ca::{pem_encode, pem_spec};
use crate::error::{CaError, ServiceError};
use crate::rules::copy_bytes;
use crate::text::{push_str, string_from_str};

verus! {

#[verifier::external_type_specification]
#[verifier::external_body]
pub struct ExCertificateParams(rcgen::CertificateParams);

#[verifier::external_type_specification]
#[verifier::external_body]
pub struct ExKeyPair(rcgen::KeyPair);

#[verifier::external_type_specification]
#[verifier::external_body]
pub struct ExCertificate(rcgen::Certificate);

#[verifier::external_type_specification]
#[verifier::external_body]
pub struct ExRcgenError(rcgen::Error);

#[verifier::external_type_specification]
#[verifier::external_body]
pub struct ExServerConfig(rustls::server::ServerConfig);

#[verifier::external_type_specification]
#[verifier::external_body]
pub struct ExRustlsError(rustls::Error);

#[verifier::external_type_specification]
#[verifier::external_body]
pub struct ExRootCertStore(rustls::RootCertStore);

#[verifier::external_type_specification]
#[verifier::external_body]
pub struct ExTlsAcceptor(tokio_rustls::TlsAcceptor);

// ───────────────────────── Dates ─────────────────────────

pub open spec fn is_leap(y: int) -> bool {
    y % 4 == 0 && (y % 100 != 0 || y % 400 == 0)
}

pub open spec fn days_in_month(y: int, m: int) -> int {
    if m == 2 {
        if is_leap(y) {
            29
        } else {
            28
        }
    } else if m == 4 || m == 6 || m == 9 || m == 11 {
        30
    } else {
        31
    }
}

/// A calendar date that `time` (and so `rcgen::date_time_ymd`) accepts.
pub open spec fn valid_ymd(y: int, m: int, d: int) -> bool {
    &&& -9999 <= y <= 9999
    &&& 1 <= m <= 12
    &&& 1 <= d <= days_in_month(y, m)
}

fn valid_ymd_exec(y: i32, m: u8, d: u8) -> (r: bool)
    ensures
        r == valid_ymd(y as int, m as int, d as int),
{
    if y < -9999 || y > 9999 || m < 1 || m > 12 || d < 1 {
        return false;
    }
    let leap = y % 4 == 0 && (y % 100 != 0 || y % 400 == 0);
    let dim: u8 = if m == 2 {
        if leap {
            29
        } else {
            28
        }
    } else if m == 4 || m == 6 || m == 9 || m == 11 {
        30
    } else {
        31
    };
    d <= dim
}

/// `time::OffsetDateTime::now_utc()`: today's date in UTC as year, month, day; always a
/// valid date of the `time` crate's range.
#[verifier::external_body]
fn utc_today() -> (r: (i32, u8, u8))
    ensures
        valid_ymd(r.0 as int, r.1 as int, r.2 as int),
{
    let now = time::OffsetDateTime::now_utc();
    (now.year(), now.month() as u8, now.day())
}

// ───────────────────────── Certificates (rcgen) ─────────────────────────

/// `CertificateParams::new` with the given subject alternative names. Its source reads
/// each name as an IP address or else as an IA5 (ASCII) DNS name, so it fails exactly
/// when some name is not ASCII.
#[verifier::external_body]
fn new_params(names: Vec<String>) -> (r: Result<CertificateParams, rcgen::Error>)
    ensures
        r is Ok <==> all_ascii(names@.map_values(|n: String| n@)),
{
    CertificateParams::new(names)
}

/// `CertificateParams::default()`.
#[verifier::external_body]
fn default_params() -> (r: CertificateParams) {
    CertificateParams::default()
}

/// Sets the subject to the common name `cn` (`DistinguishedName::push`).
#[verifier::external_body]
fn set_common_name(p: &mut CertificateParams, cn: &str) {
    let mut dn = rcgen::DistinguishedName::new();
    dn.push(rcgen::DnType::CommonName, cn);
    p.distinguished_name = dn;
}

/// Sets the subject to the common name `cn` and the organisation `org`.
#[verifier::external_body]
fn set_common_name_and_org(p: &mut CertificateParams, cn: &str, org: &str) {
    let mut dn = rcgen::DistinguishedName::new();
    dn.push(rcgen::DnType::CommonName, cn);
    dn.push(rcgen::DnType::OrganizationName, org);
    p.distinguished_name = dn;
}

/// Sets the validity period with `rcgen::date_time_ymd`, which panics on an invalid
/// date; `requires` rules those out.
#[verifier::external_body]
fn set_validity(p: &mut CertificateParams, from: (i32, u8, u8), to: (i32, u8, u8))
    requires
        valid_ymd(from.0 as int, from.1 as int, from.2 as int),
        valid_ymd(to.0 as int, to.1 as int, to.2 as int),
{
    p.not_before = rcgen::date_time_ymd(from.0, from.1, from.2);
    p.not_after = rcgen::date_time_ymd(to.0, to.1, to.2);
}

/// Appends a key usage to `CertificateParams::key_usages`, as rcgen's
/// `KeyUsagePurpose` of the same name.
#[verifier::external_body]
fn push_key_usage(p: &mut CertificateParams, u: KeyUsage) {
    p.key_usages.push(match u {
        KeyUsage::DigitalSignature => rcgen::KeyUsagePurpose::DigitalSignature,
        KeyUsage::KeyEncipherment => rcgen::KeyUsagePurpose::KeyEncipherment,
        KeyUsage::KeyCertSign => rcgen::KeyUsagePurpose::KeyCertSign,
        KeyUsage::CrlSign => rcgen::KeyUsagePurpose::CrlSign,
    });
}

/// Appends an extended key usage to `CertificateParams::extended_key_usages`, as
/// rcgen's `ExtendedKeyUsagePurpose` of the same name.
#[verifier::external_body]
fn push_extended_usage(p: &mut CertificateParams, u: ExtendedUsage) {
    p.extended_key_usages.push(match u {
        ExtendedUsage::ServerAuth => rcgen::ExtendedKeyUsagePurpose::ServerAuth,
    });
}

/// Sets `CertificateParams::is_ca`: `IsCa::NoCa`, or `IsCa::Ca` with unconstrained
/// basic constraints.
#[verifier::external_body]
fn set_ca_constraint(p: &mut CertificateParams, c: CaConstraint) {
    p.is_ca = match c {
        CaConstraint::NotCa => rcgen::IsCa::NoCa,
        CaConstraint::Unconstrained => rcgen::IsCa::Ca(rcgen::BasicConstraints::Unconstrained),
    };
}

/// `KeyPair::generate`: a fresh key pair (random).
#[verifier::external_body]
fn generate_key() -> (r: Result<KeyPair, rcgen::Error>) {
    KeyPair::generate()
}

/// Whether `KeyPair::from_pem` accepts the text.
pub uninterp spec fn pem_key_accepted(pem: Seq<char>) -> bool;

/// `KeyPair::from_pem`: fails exactly when the text holds no usable key.
#[verifier::external_body]
fn key_from_pem(pem: &str) -> (r: Result<KeyPair, rcgen::Error>)
    ensures
        r is Ok <==> pem_key_accepted(pem@),
{
    KeyPair::from_pem(pem)
}

/// `CertificateParams::self_signed`.
#[verifier::external_body]
fn self_sign(p: CertificateParams, key: &KeyPair) -> (r: Result<rcgen::Certificate, rcgen::Error>) {
    p.self_signed(key)
}

/// `CertificateParams::signed_by`: the certificate of `key` signed by the issuer.
#[verifier::external_body]
fn sign_by(p: CertificateParams, key: &KeyPair, issuer: &rcgen::Certificate, issuer_key: &KeyPair) -> (r:
    Result<rcgen::Certificate, rcgen::Error>) {
    p.signed_by(key, issuer, issuer_key)
}

/// `Certificate::der`, copied.
#[verifier::external_body]
fn certificate_der(c: &rcgen::Certificate) -> (r: Vec<u8>) {
    c.der().to_vec()
}

/// `KeyPair::serialize_der` (PKCS#8).
#[verifier::external_body]
fn key_der(k: &KeyPair) -> (r: Vec<u8>) {
    k.serialize_der()
}

/// `rcgen::Error`'s message.
#[verifier::external_body]
fn rcgen_error_text(e: &rcgen::Error) -> (r: String) {
    e.to_string()
}

/// `rustls::Error`'s message.
#[verifier::external_body]
fn rustls_error_text(e: &rustls::Error) -> (r: String) {
    e.to_string()
}

/// What `rustls_pemfile::certs` yields first for the PEM text: nothing, the DER of a
/// certificate, or the message of a parse error.
pub uninterp spec fn first_pem_cert(pem: Seq<u8>) -> Option<Result<Seq<u8>, Seq<char>>>;

pub open spec fn pem_item_view(r: Option<Result<Vec<u8>, String>>) -> Option<Result<Seq<u8>, Seq<char>>> {
    match r {
        None => None,
        Some(Ok(d)) => Some(Ok(d@)),
        Some(Err(m)) => Some(Err(m@)),
    }
}

/// The first certificate in PEM text (`rustls_pemfile::certs`): `None` when there is
/// none, `Some(Err(message))` when it cannot be parsed.
#[verifier::external_body]
fn first_pem_certificate(pem: &[u8]) -> (r: Option<Result<Vec<u8>, String>>)
    ensures
        pem_item_view(r) == first_pem_cert(pem@),
{
    let mut rd: &[u8] = pem;
    let first = rustls_pemfile::certs(&mut rd).next();
    first.map(|c| c.map(|d| d.to_vec()).map_err(|e| e.to_string()))
}

/// A TLS server configuration without client authentication that always presents the
/// given certificate and PKCS#8 key (`ServerConfig::builder().with_single_cert`).
#[verifier::external_body]
fn single_cert_server_config(cert_der: Vec<u8>, key_der: Vec<u8>) -> (r: Result<ServerConfig, rustls::Error>) {
    let chain = vec![rustls::pki_types::CertificateDer::from(cert_der)];
    let key = rustls::pki_types::PrivateKeyDer::Pkcs8(rustls::pki_types::PrivatePkcs8KeyDer::from(key_der));
    ServerConfig::builder().with_no_client_auth().with_single_cert(chain, key)
}

/// Sets `ServerConfig::alpn_protocols` to the given protocol names.
#[verifier::external_body]
fn set_alpn_protocols(cfg: &mut ServerConfig, protocols: Vec<Vec<u8>>) {
    cfg.alpn_protocols = protocols;
}

// ───────────────────────── The leaf cache (dashmap) ─────────────────────────

pub type LeafCache = DashMap<String, Arc<ServerConfig>, RandomState>;

/// The configurations a leaf cache holds, keyed by the view of their domain.
pub uninterp spec fn leaf_cache_contents(m: LeafCache) -> Map<Seq<char>, Arc<ServerConfig>>;

/// `DashMap::new`: an empty cache.
#[verifier::external_body]
fn leaf_cache_new() -> (m: LeafCache)
    ensures
        leaf_cache_contents(m) =~= Map::empty(),
{
    DashMap::new()
}

/// `DashMap::get`, the configuration shared: the one stored under the domain, if any.
#[verifier::external_body]
fn leaf_cache_get(m: &LeafCache, k: &str) -> (r: Option<Arc<ServerConfig>>)
    ensures
        leaf_cache_contents(*m).dom().contains(k@) ==> r == Some(leaf_cache_contents(*m)[k@]),
        !leaf_cache_contents(*m).dom().contains(k@) ==> r is None,
{
    m.get(k).map(|v| v.value().clone())
}

/// `DashMap::insert`: stores the configuration under the domain (replacing any other).
#[verifier::external_body]
fn leaf_cache_insert(m: &mut LeafCache, k: String, v: Arc<ServerConfig>)
    ensures
        leaf_cache_contents(*final(m)) == leaf_cache_contents(*old(m)).insert(k@, v),
{
    m.insert(k, v);
}

/// `DashMap::clear`: removes every configuration.
#[verifier::external_body]
fn leaf_cache_clear(m: &mut LeafCache)
    ensures
        leaf_cache_contents(*final(m)) =~= Map::empty(),
{
    m.clear()
}

/// The subjects of the trust anchors a root store holds, in order.
pub uninterp spec fn root_store_subjects(s: rustls::RootCertStore) -> Seq<Seq<u8>>;

/// The subject of the trust anchor that `webpki::anchor_from_trusted_cert` reads from a
/// DER certificate, or `None` when it cannot read one.
pub uninterp spec fn trusted_subject(der: Seq<u8>) -> Option<Seq<u8>>;

/// `RootCertStore::empty` with the certificate added (`RootCertStore::add`, which pushes
/// the certificate's trust anchor and fails, here ignored, when none can be read).
#[verifier::external_body]
fn root_store_with(cert_der: &Vec<u8>) -> (r: rustls::RootCertStore)
    ensures
        root_store_subjects(r) == match trusted_subject(cert_der@) {
            Some(subject) => seq![subject],
            None => Seq::<Seq<u8>>::empty(),
        },
{
    let mut store = rustls::RootCertStore::empty();
    store.add(rustls::pki_types::CertificateDer::from(cert_der.clone())).ok();
    store
}

/// `TlsAcceptor::from`.
#[verifier::external_body]
fn acceptor_from(cfg: Arc<ServerConfig>) -> (r: tokio_rustls::TlsAcceptor) {
    tokio_rustls::TlsAcceptor::from(cfg)
}

// ───────────────────────── What a certificate is requested with ─────────────────────────

/// Every name is ASCII.
pub open spec fn all_ascii(names: Seq<Seq<char>>) -> bool {
    forall|i: int| 0 <= i < names.len() ==> vstd::utf8::is_ascii_chars(#[trigger] names[i])
}

/// A key usage of a certificate.
#[derive(Debug, Clone, Copy, PartialEq, Eq)]
pub enum KeyUsage {
    DigitalSignature,
    KeyEncipherment,
    KeyCertSign,
    CrlSign,
}

/// An extended key usage of a certificate.
#[derive(Debug, Clone, Copy, PartialEq, Eq)]
pub enum ExtendedUsage {
    ServerAuth,
}

/// Whether a certificate is a CA.
#[derive(Debug, Clone, Copy, PartialEq, Eq)]
pub enum CaConstraint {
    NotCa,
    /// A CA without path length constraint.
    Unconstrained,
}

/// What a certificate is for.
#[derive(Debug, Clone, Copy, PartialEq, Eq)]
pub enum CertUsage {
    /// A leaf for TLS servers.
    TlsServer,
    /// The root CA, which signs certificates and CRLs.
    Authority,
}

/// The key usages of a kind of certificate: digital signature and key encipherment for
/// a TLS server, certificate and CRL signing for the CA.
pub open spec fn usage_key_usages(u: CertUsage) -> Seq<KeyUsage> {
    match u {
        CertUsage::TlsServer => seq![KeyUsage::DigitalSignature, KeyUsage::KeyEncipherment],
        CertUsage::Authority => seq![KeyUsage::KeyCertSign, KeyUsage::CrlSign],
    }
}

/// The extended key usages of a kind of certificate: server authentication for a TLS
/// server, none for the CA.
pub open spec fn usage_extended_usages(u: CertUsage) -> Seq<ExtendedUsage> {
    match u {
        CertUsage::TlsServer => seq![ExtendedUsage::ServerAuth],
        CertUsage::Authority => Seq::empty(),
    }
}

pub fn key_usages_for(u: CertUsage) -> (r: Vec<KeyUsage>)
    ensures
        r@ == usage_key_usages(u),
{
    match u {
        CertUsage::TlsServer => vec![KeyUsage::DigitalSignature, KeyUsage::KeyEncipherment],
        CertUsage::Authority => vec![KeyUsage::KeyCertSign, KeyUsage::CrlSign],
    }
}

pub fn extended_usages_for(u: CertUsage) -> (r: Vec<ExtendedUsage>)
    ensures
        r@ == usage_extended_usages(u),
{
    match u {
        CertUsage::TlsServer => vec![ExtendedUsage::ServerAuth],
        CertUsage::Authority => Vec::new(),
    }
}

/// The name `http/1.1` as bytes.
pub open spec fn http11_protocol() -> Seq<u8> {
    seq![104u8, 116u8, 116u8, 112u8, 47u8, 49u8, 46u8, 49u8]
}

/// The protocols a leaf configuration offers in ALPN: `http/1.1` only, as the proxy
/// parses HTTP/1.1 and nothing else.
pub fn leaf_alpn_protocols() -> (r: Vec<Vec<u8>>)
    ensures
        r@.map_values(|p: Vec<u8>| p@) == seq![http11_protocol()],
{
    let p: Vec<u8> = vec![104u8, 116u8, 116u8, 112u8, 47u8, 49u8, 46u8, 49u8];
    let mut r: Vec<Vec<u8>> = Vec::new();
    r.push(p);
    assert(r@.map_values(|p: Vec<u8>| p@) =~= seq![http11_protocol()]);
    r
}

/// What a certificate is requested with: subject alternative names, subject (common
/// name and organisation), validity (first and last day, as year, month, day), key
/// usages, extended key usages and CA constraint, in the order they were added.
pub struct CertRequest {
    pub alt_names: Seq<Seq<char>>,
    pub common_name: Option<Seq<char>>,
    pub organization: Option<Seq<char>>,
    pub validity: Option<((int, int, int), (int, int, int))>,
    pub key_usages: Seq<KeyUsage>,
    pub extended_usages: Seq<ExtendedUsage>,
    pub ca: CaConstraint,
}

/// Certificate parameters together with what they were set to.
pub struct CertParams {
    params: CertificateParams,
    request: Ghost<CertRequest>,
}

impl View for CertParams {
    type V = CertRequest;

    closed spec fn view(&self) -> CertRequest {
        self.request@
    }
}

pub open spec fn blank_request(names: Seq<Seq<char>>) -> CertRequest {
    CertRequest {
        alt_names: names,
        common_name: None,
        organization: None,
        validity: None,
        key_usages: Seq::empty(),
        extended_usages: Seq::empty(),
        ca: CaConstraint::NotCa,
    }
}

/// Parameters for the given subject alternative names; fails exactly when some name is
/// not ASCII.
fn params_for_names(names: Vec<String>) -> (r: Result<CertParams, rcgen::Error>)
    ensures
        r is Ok <==> all_ascii(names@.map_values(|n: String| n@)),
        r matches Ok(p) ==> p@ == blank_request(names@.map_values(|n: String| n@)),
{
    let ghost n = names@.map_values(|n: String| n@);
    match new_params(names) {
        Ok(params) => Ok(CertParams { params, request: Ghost(blank_request(n)) }),
        Err(e) => Err(e),
    }
}

/// Parameters without subject alternative names.
fn params_without_names() -> (r: CertParams)
    ensures
        r@ == blank_request(Seq::empty()),
{
    let params = match new_params(Vec::new()) {
        Ok(p) => p,
        Err(_) => default_params(),
    };
    CertParams { params, request: Ghost(blank_request(Seq::empty())) }
}

impl CertParams {
    /// Sets the subject: the common name, and the organisation when given.
    fn set_subject(&mut self, cn: &str, org: Option<&str>)
        ensures
            final(self)@ == (CertRequest {
                common_name: Some(cn@),
                organization: match org {
                    Some(o) => Some(o@),
                    None => None,
                },
                ..old(self)@
            }),
    {
        match org {
            Some(o) => set_common_name_and_org(&mut self.params, cn, o),
            None => set_common_name(&mut self.params, cn),
        }
        let ghost req = self.request@;
        self.request = Ghost(
            CertRequest {
                common_name: Some(cn@),
                organization: match org {
                    Some(o) => Some(o@),
                    None => None,
                },
                ..req
            },
        );
    }

    /// Sets the first and last day of validity.
    fn set_dates(&mut self, from: (i32, u8, u8), to: (i32, u8, u8))
        requires
            valid_ymd(from.0 as int, from.1 as int, from.2 as int),
            valid_ymd(to.0 as int, to.1 as int, to.2 as int),
        ensures
            final(self)@ == (CertRequest {
                validity: Some(
                    (
                        (from.0 as int, from.1 as int, from.2 as int),
                        (to.0 as int, to.1 as int, to.2 as int),
                    ),
                ),
                ..old(self)@
            }),
    {
        set_validity(&mut self.params, from, to);
        let ghost req = self.request@;
        self.request = Ghost(
            CertRequest {
                validity: Some(
                    (
                        (from.0 as int, from.1 as int, from.2 as int),
                        (to.0 as int, to.1 as int, to.2 as int),
                    ),
                ),
                ..req
            },
        );
    }

    /// Adds a key usage.
    fn add_key_usage(&mut self, u: KeyUsage)
        ensures
            final(self)@ == (CertRequest { key_usages: old(self)@.key_usages.push(u), ..old(self)@ }),
    {
        push_key_usage(&mut self.params, u);
        let ghost req = self.request@;
        self.request = Ghost(CertRequest { key_usages: req.key_usages.push(u), ..req });
    }

    /// Adds an extended key usage.
    fn add_extended_usage(&mut self, u: ExtendedUsage)
        ensures
            final(self)@ == (CertRequest {
                extended_usages: old(self)@.extended_usages.push(u),
                ..old(self)@
            }),
    {
        push_extended_usage(&mut self.params, u);
        let ghost req = self.request@;
        self.request = Ghost(CertRequest { extended_usages: req.extended_usages.push(u), ..req });
    }

    /// Sets whether the certificate is a CA.
    fn set_ca(&mut self, c: CaConstraint)
        ensures
            final(self)@ == (CertRequest { ca: c, ..old(self)@ }),
    {
        set_ca_constraint(&mut self.params, c);
        let ghost req = self.request@;
        self.request = Ghost(CertRequest { ca: c, ..req });
    }

    /// Adds the key usages and extended key usages of `usage`; the CA is marked an
    /// unconstrained CA.
    fn set_usage(&mut self, usage: CertUsage)
        ensures
            final(self)@ == (CertRequest {
                key_usages: old(self)@.key_usages + usage_key_usages(usage),
                extended_usages: old(self)@.extended_usages + usage_extended_usages(usage),
                ca: if usage is Authority {
                    CaConstraint::Unconstrained
                } else {
                    old(self)@.ca
                },
                ..old(self)@
            }),
    {
        let ghost start = self@;
        match usage {
            CertUsage::Authority => self.set_ca(CaConstraint::Unconstrained),
            CertUsage::TlsServer => {},
        }
        let ghost after_ca = self@;
        let ku = key_usages_for(usage);
        let mut i: usize = 0;
        while i < ku.len()
            invariant
                i <= ku@.len(),
                ku@ == usage_key_usages(usage),
                self@ == (CertRequest {
                    key_usages: after_ca.key_usages + ku@.take(i as int),
                    ..after_ca
                }),
            decreases ku.len() - i,
        {
            self.add_key_usage(ku[i]);
            assert(after_ca.key_usages + ku@.take(i + 1) =~= (after_ca.key_usages + ku@.take(
                i as int,
            )).push(ku@[i as int]));
            i += 1;
        }
        assert(ku@.take(ku.len() as int) =~= ku@);
        let ghost after_ku = self@;
        let eu = extended_usages_for(usage);
        let mut j: usize = 0;
        while j < eu.len()
            invariant
                j <= eu@.len(),
                eu@ == usage_extended_usages(usage),
                self@ == (CertRequest {
                    extended_usages: after_ku.extended_usages + eu@.take(j as int),
                    ..after_ku
                }),
            decreases eu.len() - j,
        {
            self.add_extended_usage(eu[j]);
            assert(after_ku.extended_usages + eu@.take(j + 1) =~= (after_ku.extended_usages
                + eu@.take(j as int)).push(eu@[j as int]));
            j += 1;
        }
        assert(eu@.take(eu.len() as int) =~= eu@);
    }
}

/// The day `years` years after `d`, which may not be a calendar date.
pub open spec fn years_later(d: (i32, u8, u8), years: int) -> (int, int, int) {
    (d.0 + years, d.1 as int, d.2 as int)
}

/// The root CA's request: `Cuckoo Proxy CA` of organisation `Cuckoo`, valid for ten
/// years from `today`, an unconstrained CA that signs certificates and CRLs.
pub open spec fn ca_request(today: (i32, u8, u8)) -> CertRequest {
    CertRequest {
        alt_names: Seq::empty(),
        common_name: Some("Cuckoo Proxy CA"@),
        organization: Some("Cuckoo"@),
        validity: Some(((today.0 as int, today.1 as int, today.2 as int), years_later(today, 10))),
        key_usages: usage_key_usages(CertUsage::Authority),
        extended_usages: Seq::empty(),
        ca: CaConstraint::Unconstrained,
    }
}

/// A leaf's request: `domain` as subject and alternative name, valid for a year from
/// `today`, for TLS servers (digital signature, key encipherment, server
/// authentication).
pub open spec fn leaf_request(domain: Seq<char>, today: (i32, u8, u8)) -> CertRequest {
    CertRequest {
        alt_names: seq![domain],
        common_name: Some(domain),
        organization: None,
        validity: Some(((today.0 as int, today.1 as int, today.2 as int), years_later(today, 1))),
        key_usages: usage_key_usages(CertUsage::TlsServer),
        extended_usages: usage_extended_usages(CertUsage::TlsServer),
        ca: CaConstraint::NotCa,
    }
}

/// The message when the validity's last day is not a calendar date.
pub open spec fn bad_validity_text() -> Seq<char> {
    "validity end is not a calendar date"@
}

pub open spec fn is_date(d: (int, int, int)) -> bool {
    valid_ymd(d.0, d.1, d.2)
}

/// What building the root CA's parameters gives on the day `today`.
pub open spec fn ca_params_outcome(today: (i32, u8, u8), r: Result<CertParams, CaError>) -> bool {
    &&& valid_ymd(today.0 as int, today.1 as int, today.2 as int)
    &&& if is_date(years_later(today, 10)) {
        r matches Ok(p) && p@ == ca_request(today)
    } else {
        r matches Err(CaError::SignFailed(m)) && m@ == bad_validity_text()
    }
}

// ───────────────────────── Errors ─────────────────────────

impl CaError {
    /// The error's message.
    pub fn message(&self) -> (r: String)
        ensures
            r@ == ca_error_text(*self),
    {
        let (prefix, detail): (&str, Option<&String>) = match self {
            CaError::GenerateFailed(s) => ("failed to generate CA: ", Some(s)),
            CaError::PersistFailed(s) => ("failed to persist CA: ", Some(s)),
            CaError::LoadFailed(s) => ("failed to load CA: ", Some(s)),
            CaError::SignFailed(s) => ("failed to sign leaf certificate: ", Some(s)),
            CaError::TlsConfigFailed(s) => ("failed to build TLS server config: ", Some(s)),
            CaError::NotInitialized => ("CA not initialized", None),
        };
        let mut m = string_from_str(prefix);
        match detail {
            Some(d) => push_str(&mut m, d.as_str()),
            None => {},
        }
        m
    }
}

pub open spec fn ca_error_text(e: CaError) -> Seq<char> {
    match e {
        CaError::GenerateFailed(s) => "failed to generate CA: "@ + s@,
        CaError::PersistFailed(s) => "failed to persist CA: "@ + s@,
        CaError::LoadFailed(s) => "failed to load CA: "@ + s@,
        CaError::SignFailed(s) => "failed to sign leaf certificate: "@ + s@,
        CaError::TlsConfigFailed(s) => "failed to build TLS server config: "@ + s@,
        CaError::NotInitialized => "CA not initialized"@,
    }
}

/// The service error for a CA error: `Internal("CA error: {message}")`.
pub fn service_error_from_ca(e: &CaError) -> (r: ServiceError)
    ensures
        r matches ServiceError::Internal(m) && m@ == "CA error: "@ + ca_error_text(*e),
{
    let mut m = string_from_str("CA error: ");
    let t = e.message();
    push_str(&mut m, t.as_str());
    ServiceError::Internal(m)
}

fn generate_failed(e: &rcgen::Error) -> (r: CaError)
    ensures
        r is GenerateFailed,
{
    CaError::GenerateFailed(rcgen_error_text(e))
}

// ───────────────────────── The authority ─────────────────────────

/// The root CA: its certificate (DER), key pair and certificate object for signing.
pub struct StoredCa {
    cert_der: Vec<u8>,
    /// The key pair's PKCS#8 DER.
    key_der: Vec<u8>,
    key_pair: KeyPair,
    ca_cert: rcgen::Certificate,
}

/// The certificate authority: the root CA and the cache of leaf configurations.
pub struct CaAuthority {
    ca: StoredCa,
    leaf_cache: LeafCache,
}

/// A freshly created root CA with its PEM files' contents.
pub struct CreatedCa {
    pub authority: CaAuthority,
    pub cert_pem: String,
    pub key_pem: String,
}

/// The parameters of the root CA: `Cuckoo Proxy CA` of organisation `Cuckoo`, valid for
/// ten years from today, an unconstrained CA that signs certificates and CRLs. Fails
/// when today's date has no counterpart ten years on (the 29th of February). Today's
/// date is read from the clock, so the contract holds for the date that was read.
fn ca_cert_params() -> (r: Result<CertParams, CaError>)
    ensures
        exists|today: (i32, u8, u8)| #[trigger] ca_params_outcome(today, r),
        r matches Err(e) ==> e is SignFailed,
{
    let mut params = params_without_names();
    params.set_subject("Cuckoo Proxy CA", Some("Cuckoo"));
    let today = utc_today();
    let (y, m, d) = today;
    let until = (y + 10, m, d);
    if !valid_ymd_exec(until.0, until.1, until.2) {
        let r = Err(CaError::SignFailed(string_from_str("validity end is not a calendar date")));
        assert(ca_params_outcome(today, r));
        return r;
    }
    params.set_dates((y, m, d), until);
    params.set_usage(CertUsage::Authority);
    let r = Ok(params);
    assert(ca_params_outcome(today, r));
    r
}

/// The root certificate from the first PEM item of `ca.crt`: its DER; for no item
/// `LoadFailed("no certificate found in ca.crt")`; for an unreadable one
/// `LoadFailed("failed to parse CA cert PEM: {message}")`.
pub fn ca_cert_from_pem_item(item: Option<Result<Vec<u8>, String>>) -> (r: Result<Vec<u8>, CaError>)
    ensures
        match pem_item_view(item) {
            None => r matches Err(CaError::LoadFailed(m)) && m@ == "no certificate found in ca.crt"@,
            Some(Err(e)) => r matches Err(CaError::LoadFailed(m)) && m@ == "failed to parse CA cert PEM: "@ + e,
            Some(Ok(d)) => r matches Ok(v) && v@ == d,
        },
{
    match item {
        None => Err(CaError::LoadFailed(string_from_str("no certificate found in ca.crt"))),
        Some(Err(e)) => {
            let mut m = string_from_str("failed to parse CA cert PEM: ");
            push_str(&mut m, e.as_str());
            Err(CaError::LoadFailed(m))
        },
        Some(Ok(d)) => Ok(d),
    }
}

/// What issuing a leaf for `domain` on the day `today` can give: a refused domain is
/// `GenerateFailed`; otherwise a day without a counterpart a year on is
/// `SignFailed("validity end is not a calendar date")`; otherwise what comes of the
/// outside key generation, signing and configuration: a configuration, `GenerateFailed`
/// or `TlsConfigFailed`.
pub open spec fn leaf_params_outcome(
    domain: Seq<char>,
    today: (i32, u8, u8),
    r: Result<Arc<ServerConfig>, CaError>,
) -> bool {
    &&& valid_ymd(today.0 as int, today.1 as int, today.2 as int)
    &&& if !vstd::utf8::is_ascii_chars(domain) {
        r matches Err(CaError::GenerateFailed(_))
    } else if !is_date(years_later(today, 1)) {
        r matches Err(CaError::SignFailed(m)) && m@ == bad_validity_text()
    } else {
        r is Ok || r matches Err(CaError::GenerateFailed(_)) || r matches Err(
            CaError::TlsConfigFailed(_),
        )
    }
}

/// The parameters of a leaf for `domain` issued on `today` (see [`leaf_request`]): a
/// domain that is not ASCII is refused with `GenerateFailed`, a last day that is not a
/// calendar date with `SignFailed("validity end is not a calendar date")`.
fn leaf_params(domain: &str, today: (i32, u8, u8)) -> (r: Result<CertParams, CaError>)
    requires
        valid_ymd(today.0 as int, today.1 as int, today.2 as int),
    ensures
        !vstd::utf8::is_ascii_chars(domain@) ==> r matches Err(CaError::GenerateFailed(_)),
        vstd::utf8::is_ascii_chars(domain@) && !is_date(years_later(today, 1)) ==> (r matches Err(
            CaError::SignFailed(m),
        ) && m@ == bad_validity_text()),
        vstd::utf8::is_ascii_chars(domain@) && is_date(years_later(today, 1)) ==> (r matches Ok(p)
            && p@ == leaf_request(domain@, today)),
{
    let mut names: Vec<String> = Vec::new();
    names.push(string_from_str(domain));
    assert(names@.map_values(|n: String| n@) =~= seq![domain@]);
    proof {
        let ns = seq![domain@];
        assert(ns[0] == domain@);
        assert(all_ascii(ns) ==> vstd::utf8::is_ascii_chars(domain@));
        assert(vstd::utf8::is_ascii_chars(domain@) ==> all_ascii(ns)) by {
            if vstd::utf8::is_ascii_chars(domain@) {
                assert forall|i: int| 0 <= i < ns.len() implies vstd::utf8::is_ascii_chars(
                    #[trigger] ns[i],
                ) by {
                    assert(i == 0);
                }
            }
        }
    }
    let mut params = match params_for_names(names) {
        Ok(p) => p,
        Err(e) => return Err(generate_failed(&e)),
    };
    params.set_subject(domain, None);
    let (y, m, d) = today;
    let until = (y + 1, m, d);
    if !valid_ymd_exec(until.0, until.1, until.2) {
        return Err(CaError::SignFailed(string_from_str("validity end is not a calendar date")));
    }
    params.set_dates((y, m, d), until);
    params.set_usage(CertUsage::TlsServer);
    Ok(params)
}

impl CaAuthority {
    /// The root CA certificate (DER).
    pub closed spec fn root_der(&self) -> Seq<u8> {
        self.ca.cert_der@
    }

    /// The root CA's private key (PKCS#8 DER).
    pub closed spec fn root_key_der(&self) -> Seq<u8> {
        self.ca.key_der@
    }

    /// The leaf configurations issued so far, by domain.
    pub closed spec fn cached(&self) -> Map<Seq<char>, Arc<ServerConfig>> {
        leaf_cache_contents(self.leaf_cache)
    }

    /// Creates a new root CA; returns it with the PEM texts of its certificate and key
    /// (`CERTIFICATE` and `PRIVATE KEY`), for the caller to store.
    pub fn generate() -> (r: Result<CreatedCa, CaError>)
        ensures
            r matches Ok(c) ==> c.cert_pem@ == pem_spec(c.authority.root_der(), "CERTIFICATE"@),
            r matches Ok(c) ==> c.key_pem@ == pem_spec(c.authority.root_key_der(), "PRIVATE KEY"@),
            r matches Ok(c) ==> c.authority.cached() == Map::<Seq<char>, Arc<ServerConfig>>::empty(),
            r matches Err(e) ==> e is GenerateFailed || e is SignFailed,
    {
        let params = ca_cert_params()?;
        let key_pair = match generate_key() {
            Ok(k) => k,
            Err(e) => return Err(generate_failed(&e)),
        };
        let ca_cert = match self_sign(params.params, &key_pair) {
            Ok(c) => c,
            Err(e) => return Err(generate_failed(&e)),
        };
        let cert_der = certificate_der(&ca_cert);
        let kd = key_der(&key_pair);
        let cert_pem = pem_encode(cert_der.as_slice(), "CERTIFICATE");
        let key_pem = pem_encode(kd.as_slice(), "PRIVATE KEY");
        let authority = CaAuthority {
            ca: StoredCa { cert_der, key_der: kd, key_pair, ca_cert },
            leaf_cache: leaf_cache_new(),
        };
        Ok(CreatedCa { authority, cert_pem, key_pem })
    }

    /// Loads the root CA from the contents of its PEM files: the first certificate of
    /// `cert_pem` and the key of `key_pem`; the CA certificate object is signed again
    /// with the same parameters. Errors: `LoadFailed("no certificate found in ca.crt")`,
    /// `LoadFailed("failed to parse CA cert PEM: ...")`, `LoadFailed("failed to
    /// reconstruct KeyPair: ...")`.
    pub fn from_pem(cert_pem: &[u8], key_pem: &str) -> (r: Result<CaAuthority, CaError>)
        ensures
            first_pem_cert(cert_pem@) is None ==> (r matches Err(CaError::LoadFailed(m)) && m@
                == "no certificate found in ca.crt"@),
            first_pem_cert(cert_pem@) matches Some(Err(e)) ==> (r matches Err(CaError::LoadFailed(m))
                && m@ == "failed to parse CA cert PEM: "@ + e),
            first_pem_cert(cert_pem@) matches Some(Ok(_)) && !pem_key_accepted(key_pem@) ==> (r matches Err(
                CaError::LoadFailed(m),
            ) && m@.len() >= 31 && m@.take(31) == "failed to reconstruct KeyPair: "@),
            r matches Ok(ca) ==> first_pem_cert(cert_pem@) == Some(Ok::<Seq<u8>, Seq<char>>(ca.root_der())),
            r matches Ok(ca) ==> ca.cached() == Map::<Seq<char>, Arc<ServerConfig>>::empty(),
            r matches Err(e) ==> e is LoadFailed || e is GenerateFailed || e is SignFailed,
    {
        let cert_der = ca_cert_from_pem_item(first_pem_certificate(cert_pem))?;
        let key_pair = match key_from_pem(key_pem) {
            Ok(k) => k,
            Err(e) => {
                let mut m = string_from_str("failed to reconstruct KeyPair: ");
                proof {
                    reveal_strlit("failed to reconstruct KeyPair: ");
                }
                let ghost head = m@;
                let t = rcgen_error_text(&e);
                push_str(&mut m, t.as_str());
                assert(m@.take(31) =~= head);
                return Err(CaError::LoadFailed(m));
            },
        };
        let params = ca_cert_params()?;
        let ca_cert = match self_sign(params.params, &key_pair) {
            Ok(c) => c,
            Err(e) => return Err(generate_failed(&e)),
        };
        let kd = key_der(&key_pair);
        Ok(
            CaAuthority {
                ca: StoredCa { cert_der, key_der: kd, key_pair, ca_cert },
                leaf_cache: leaf_cache_new(),
            },
        )
    }

    /// The TLS configuration for `domain`: the cached one when there is one, with the
    /// cache unchanged; otherwise one issued now (`sign_leaf_cert`), which is cached,
    /// or the issuance error, with the cache unchanged.
    pub fn get_or_issue_server_config(&mut self, domain: &str) -> (r: Result<Arc<ServerConfig>, CaError>)
        ensures
            final(self).root_der() == old(self).root_der(),
            final(self).root_key_der() == old(self).root_key_der(),
            old(self).cached().dom().contains(domain@) ==> r == Ok::<Arc<ServerConfig>, CaError>(
                old(self).cached()[domain@],
            ) && final(self).cached() == old(self).cached(),
            !old(self).cached().dom().contains(domain@) ==> exists|today: (i32, u8, u8)|
                #[trigger] leaf_params_outcome(domain@, today, r),
            !old(self).cached().dom().contains(domain@) ==> (r matches Ok(c) ==> final(self).cached()
                == old(self).cached().insert(domain@, c)),
            r is Err ==> final(self).cached() == old(self).cached(),
            !old(self).cached().dom().contains(domain@) && !vstd::utf8::is_ascii_chars(domain@) ==> r matches Err(
                CaError::GenerateFailed(_),
            ),
            r matches Err(e) ==> e is GenerateFailed || e is SignFailed || e is TlsConfigFailed,
            r matches Err(CaError::SignFailed(m)) ==> m@ == bad_validity_text(),
    {
        match leaf_cache_get(&self.leaf_cache, domain) {
            Some(cfg) => return Ok(cfg),
            None => {},
        }
        let cfg = match self.sign_leaf_cert(domain) {
            Ok(c) => c,
            Err(e) => return Err(e),
        };
        leaf_cache_insert(&mut self.leaf_cache, string_from_str(domain), cfg.clone());
        Ok(cfg)
    }

    /// Issues a leaf certificate for `domain` (subject and alternative name `domain`,
    /// valid one year from today, for TLS servers) signed by the root CA, and its TLS
    /// configuration. A domain that is not ASCII is refused (`GenerateFailed`); on a
    /// day with no counterpart a year on (the 29th of February) it fails with
    /// `SignFailed`; key generation, signing and the TLS configuration are left to the
    /// outside crates, whose errors become `GenerateFailed` and `TlsConfigFailed`.
    fn sign_leaf_cert(&self, domain: &str) -> (r: Result<Arc<ServerConfig>, CaError>)
        ensures
            r matches Err(e) ==> e is GenerateFailed || e is SignFailed || e is TlsConfigFailed,
            !vstd::utf8::is_ascii_chars(domain@) ==> r matches Err(CaError::GenerateFailed(_)),
            r matches Err(CaError::SignFailed(m)) ==> m@ == bad_validity_text(),
            exists|today: (i32, u8, u8)| #[trigger] leaf_params_outcome(domain@, today, r),
    {
        let today = utc_today();
        let params = match leaf_params(domain, today) {
            Ok(p) => p,
            Err(e) => {
                let r = Err(e);
                assert(leaf_params_outcome(domain@, today, r));
                return r;
            },
        };
        let leaf_key = match generate_key() {
            Ok(k) => k,
            Err(e) => {
                let r = Err(generate_failed(&e));
                assert(leaf_params_outcome(domain@, today, r));
                return r;
            },
        };
        let leaf_cert = match sign_by(params.params, &leaf_key, &self.ca.ca_cert, &self.ca.key_pair) {
            Ok(c) => c,
            Err(e) => {
                let r = Err(generate_failed(&e));
                assert(leaf_params_outcome(domain@, today, r));
                return r;
            },
        };
        let r = match single_cert_server_config(certificate_der(&leaf_cert), key_der(&leaf_key)) {
            Ok(mut cfg) => {
                set_alpn_protocols(&mut cfg, leaf_alpn_protocols());
                Ok(Arc::new(cfg))
            },
            Err(e) => Err(CaError::TlsConfigFailed(rustls_error_text(&e))),
        };
        assert(leaf_params_outcome(domain@, today, r));
        r
    }

    /// The root certificate as PEM text, for the user to install.
    pub fn export_ca_cert_pem(&self) -> (r: Result<Vec<u8>, CaError>)
        ensures
            r matches Ok(b) && b@ == vstd::utf8::encode_utf8(pem_spec(self.root_der(), "CERTIFICATE"@)),
    {
        let pem = pem_encode(self.ca.cert_der.as_slice(), "CERTIFICATE");
        Ok(crate::http1::utf8_bytes_then(&pem, None))
    }

    /// The root certificate (DER).
    pub fn export_ca_cert_der(&self) -> (r: Result<Vec<u8>, CaError>)
        ensures
            r matches Ok(b) && b@ == self.root_der(),
    {
        Ok(copy_bytes(&self.ca.cert_der))
    }

    /// A trust store holding the root certificate as its one trust anchor (none when
    /// no trust anchor can be read from it).
    pub fn root_cert_store(&self) -> (r: rustls::RootCertStore)
        ensures
            root_store_subjects(r) == match trusted_subject(self.root_der()) {
                Some(subject) => seq![subject],
                None => Seq::<Seq<u8>>::empty(),
            },
    {
        root_store_with(&self.ca.cert_der)
    }

    /// A TLS acceptor presenting the configuration that `get_or_issue_server_config`
    /// gives for `domain`, whose effect on the cache it has.
    pub fn tls_acceptor(&mut self, domain: &str) -> (r: Result<tokio_rustls::TlsAcceptor, CaError>)
        ensures
            final(self).root_der() == old(self).root_der(),
            final(self).root_key_der() == old(self).root_key_der(),
            old(self).cached().dom().contains(domain@) ==> r is Ok && final(self).cached()
                == old(self).cached(),
            !old(self).cached().dom().contains(domain@) && r is Ok ==> exists|c: Arc<ServerConfig>|
                final(self).cached() == old(self).cached().insert(domain@, c),
            r is Err ==> final(self).cached() == old(self).cached(),
            !old(self).cached().dom().contains(domain@) && !vstd::utf8::is_ascii_chars(domain@) ==> r matches Err(
                CaError::GenerateFailed(_),
            ),
            r matches Err(e) ==> e is GenerateFailed || e is SignFailed || e is TlsConfigFailed,
            r matches Err(CaError::SignFailed(m)) ==> m@ == bad_validity_text(),
    {
        let cfg = match self.get_or_issue_server_config(domain) {
            Ok(c) => c,
            Err(e) => return Err(e),
        };
        Ok(acceptor_from(cfg))
    }

    /// Empties the leaf cache, so that each domain's next configuration is issued anew.
    pub fn clear_cache(&mut self)
        ensures
            final(self).cached() == Map::<Seq<char>, Arc<ServerConfig>>::empty(),
            final(self).root_der() == old(self).root_der(),
            final(self).root_key_der() == old(self).root_key_der(),
    {
        leaf_cache_clear(&mut self.leaf_cache)
    }
}

} // verus!
