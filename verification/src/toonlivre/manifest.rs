//! ToonLivre: the client manifest (request headers, signature rules, session
//! cookie generator and decryption passphrase), its validation, its built-in
//! default, and the values derived from it.

use crate::digest::{base64_encode, base64_standard, hex_string, hex_text, md5_bytes, md5_digest, sha256_bytes, sha256_digest, utf8_bytes};
use crate::number::{decimal, decimal_i64, decimal_u64, signed_decimal};
use crate::text::{append, chars_of, contains, contains_exec, lit, str_eq_chars, string_of, trim, trim_str};
use crate::toonlivre::utils::{base_url, current_utc_date_string, utc_date_text};
use vstd::prelude::*;

verus! {

/// A header value chosen when a URL contains a given text.
pub struct ManifestSignatureMatch {
    pub url_contains: String,
}

/// One signature rule: its value applies when its matcher matches, or by default.
pub struct ManifestSignatureRule {
    pub value: String,
    pub default: bool,
    pub when: Option<ManifestSignatureMatch>,
}

/// Chooses the route label of a dynamic signature.
pub struct ManifestRouteSelector {
    pub when_url_contains: String,
    pub when_matched: String,
    pub otherwise: String,
}

/// How the signature header is computed from the time.
pub enum ManifestSignatureStrategy {
    TimeSha256Base64 { timestamp_divisor: i64, salt: String, route_selector: ManifestRouteSelector },
}

/// A range `start..end` of a pseudo-random base-`radix` stream.
#[derive(Clone, Copy)]
pub struct ManifestRandomSegment {
    pub radix: u8,
    pub start: usize,
    pub end: usize,
}

/// How the session cookie value is generated.
pub enum ManifestSessionCookieGenerator {
    RandomBase36Concat { segments: Vec<ManifestRandomSegment> },
}

/// The session cookie.
pub struct ManifestSessionCookie {
    pub name: String,
    pub generator: ManifestSessionCookieGenerator,
    pub mirrors_into: Vec<String>,
}

/// Request headers and signatures.
pub struct ManifestRequest {
    pub user_agent: String,
    pub accept_language: String,
    pub signature_header: String,
    pub signature_rules: Vec<ManifestSignatureRule>,
    pub signature_strategy: Option<ManifestSignatureStrategy>,
    pub verify_header: String,
    pub include_credentials: bool,
    pub session_cookie: ManifestSessionCookie,
}

/// A range `start..end` of the hexadecimal digest.
#[derive(Clone, Copy)]
pub struct ManifestDigestSlice {
    pub start: usize,
    pub end: usize,
}

/// How the daily passphrase is derived.
pub enum ManifestPassphraseStrategy {
    UtcMd5Derived {
        date_format: String,
        prefix: String,
        salt: String,
        suffix: String,
        digest_encoding: String,
        digest_slice: ManifestDigestSlice,
    },
}

/// How chapter payloads are decrypted.
pub struct DecryptManifest {
    pub data_key_header: String,
    pub payload_selector: String,
    pub algorithm: String,
    pub passphrase: ManifestPassphraseStrategy,
}

/// The client manifest.
pub struct ClientManifest {
    pub schema_version: i64,
    pub source_id: String,
    pub site_url: String,
    pub request: ManifestRequest,
    pub decrypt: DecryptManifest,
}

/// Text that holds something besides whitespace.
pub open spec fn nonblank(s: Seq<char>) -> bool {
    trim(s).len() > 0
}

/// Whether `s` holds something besides whitespace.
pub fn is_nonblank(s: &str) -> (r: bool)
    ensures
        r == nonblank(s@),
{
    trim_str(s).len() > 0
}

/// A dynamic signature strategy is usable.
pub open spec fn strategy_valid(s: ManifestSignatureStrategy) -> bool {
    match s {
        ManifestSignatureStrategy::TimeSha256Base64 { timestamp_divisor, salt, route_selector } => {
            &&& timestamp_divisor > 0
            &&& nonblank(salt@)
            &&& nonblank(route_selector.when_url_contains@)
            &&& nonblank(route_selector.when_matched@)
            &&& nonblank(route_selector.otherwise@)
        },
    }
}

/// Every cookie segment is a non-empty range.
pub open spec fn generator_valid(g: ManifestSessionCookieGenerator) -> bool {
    match g {
        ManifestSessionCookieGenerator::RandomBase36Concat { segments } => {
            &&& segments@.len() > 0
            &&& forall|i: int| 0 <= i < segments@.len() ==> #[trigger] segments@[i].end > segments@[i].start
        },
    }
}

/// The passphrase strategy is the supported one.
pub open spec fn passphrase_valid(p: ManifestPassphraseStrategy) -> bool {
    match p {
        ManifestPassphraseStrategy::UtcMd5Derived {
            date_format,
            prefix,
            salt,
            suffix,
            digest_encoding,
            digest_slice,
        } => {
            &&& date_format@ == "YYYY-MM-DD"@
            &&& digest_encoding@ == "hex"@
            &&& nonblank(prefix@)
            &&& nonblank(salt@)
            &&& nonblank(suffix@)
            &&& digest_slice.end > digest_slice.start
        },
    }
}

/// What a usable manifest for this source satisfies.
pub open spec fn manifest_valid(m: ClientManifest) -> bool {
    &&& m.schema_version == 1
    &&& m.source_id@ == "pt_BR.toonlivre"@
    &&& trim(m.site_url@) == base_url()
    &&& nonblank(m.request.user_agent@)
    &&& nonblank(m.request.accept_language@)
    &&& nonblank(m.request.signature_header@)
    &&& nonblank(m.request.verify_header@)
    &&& (m.request.signature_rules@.len() > 0 || m.request.signature_strategy is Some)
    &&& nonblank(m.request.session_cookie.name@)
    &&& m.request.session_cookie.mirrors_into@.len() > 0
    &&& nonblank(m.decrypt.data_key_header@)
    &&& nonblank(m.decrypt.payload_selector@)
    &&& m.decrypt.algorithm@ == "cryptojs-rabbit"@
    &&& (m.request.signature_strategy matches Some(s) ==> strategy_valid(s))
    &&& generator_valid(m.request.session_cookie.generator)
    &&& passphrase_valid(m.decrypt.passphrase)
}

fn strategy_ok(s: &ManifestSignatureStrategy) -> (r: bool)
    ensures
        r == strategy_valid(*s),
{
    match s {
        ManifestSignatureStrategy::TimeSha256Base64 { timestamp_divisor, salt, route_selector } => {
            *timestamp_divisor > 0 && is_nonblank(salt.as_str()) && is_nonblank(
                route_selector.when_url_contains.as_str(),
            ) && is_nonblank(route_selector.when_matched.as_str()) && is_nonblank(
                route_selector.otherwise.as_str(),
            )
        },
    }
}

#[verifier::loop_isolation(false)]
fn generator_ok(g: &ManifestSessionCookieGenerator) -> (r: bool)
    ensures
        r == generator_valid(*g),
{
    match g {
        ManifestSessionCookieGenerator::RandomBase36Concat { segments } => {
            if segments.len() == 0 {
                return false;
            }
            let mut i: usize = 0;
            while i < segments.len()
                invariant
                    i <= segments@.len(),
                    forall|j: int| 0 <= j < i ==> #[trigger] segments@[j].end > segments@[j].start,
                decreases segments@.len() - i,
            {
                if segments[i].end <= segments[i].start {
                    assert(!(segments@[i as int].end > segments@[i as int].start));
                    return false;
                }
                i += 1;
            }
            true
        },
    }
}

fn passphrase_ok(p: &ManifestPassphraseStrategy) -> (r: bool)
    ensures
        r == passphrase_valid(*p),
{
    match p {
        ManifestPassphraseStrategy::UtcMd5Derived {
            date_format,
            prefix,
            salt,
            suffix,
            digest_encoding,
            digest_slice,
        } => {
            let fmt = lit("YYYY-MM-DD");
            let hex = lit("hex");
            str_eq_chars(date_format.as_str(), fmt.as_slice()) && str_eq_chars(
                digest_encoding.as_str(),
                hex.as_slice(),
            ) && is_nonblank(prefix.as_str()) && is_nonblank(salt.as_str()) && is_nonblank(
                suffix.as_str(),
            ) && digest_slice.end > digest_slice.start
        },
    }
}

/// Whether a manifest is usable for this source (see `manifest_valid`).
pub fn manifest_is_valid(m: &ClientManifest) -> (r: bool)
    ensures
        r == manifest_valid(*m),
{
    let source_id = lit("pt_BR.toonlivre");
    let site = lit("https://toonlivre.net");
    let algorithm = lit("cryptojs-rabbit");
    let site_trimmed = trim_str(m.site_url.as_str());
    if m.schema_version != 1 {
        return false;
    }
    if !str_eq_chars(m.source_id.as_str(), source_id.as_slice()) {
        return false;
    }
    if !crate::text::chars_eq(site_trimmed.as_slice(), site.as_slice()) {
        return false;
    }
    let req = &m.request;
    if !is_nonblank(req.user_agent.as_str()) || !is_nonblank(req.accept_language.as_str())
        || !is_nonblank(req.signature_header.as_str()) || !is_nonblank(
        req.verify_header.as_str(),
    ) || (req.signature_rules.len() == 0 && req.signature_strategy.is_none()) || !is_nonblank(
        req.session_cookie.name.as_str(),
    ) || req.session_cookie.mirrors_into.len() == 0 || !is_nonblank(
        m.decrypt.data_key_header.as_str(),
    ) || !is_nonblank(m.decrypt.payload_selector.as_str()) || !str_eq_chars(
        m.decrypt.algorithm.as_str(),
        algorithm.as_slice(),
    ) {
        return false;
    }
    match &req.signature_strategy {
        Some(s) => {
            if !strategy_ok(s) {
                return false;
            }
        },
        None => {},
    }
    generator_ok(&req.session_cookie.generator) && passphrase_ok(&m.decrypt.passphrase)
}

/// The manifest when it is usable for this source.
pub fn validate_manifest(manifest: ClientManifest) -> (r: Option<ClientManifest>)
    ensures
        manifest_valid(manifest) ==> r == Some(manifest),
        !manifest_valid(manifest) ==> r is None,
{
    if manifest_is_valid(&manifest) {
        Some(manifest)
    } else {
        None
    }
}

} // verus!

verus! {

/// An owned copy of a string literal.
fn owned(x: &str) -> (r: String)
    ensures
        r@ == x@,
{
    x.to_owned()
}

/// The manifest built into the source, used when no usable one is available.
pub open spec fn is_default_manifest(m: ClientManifest) -> bool {
    let req = m.request;
    &&& m.schema_version == 1
    &&& m.source_id@ == "pt_BR.toonlivre"@
    &&& m.site_url@ == "https://toonlivre.net"@
    &&& req.user_agent@
        == "Mozilla/5.0 (Macintosh; Intel Mac OS X 14_0) AppleWebKit/537.36 (KHTML, like Gecko) Chrome/127.0.0.0 Safari/537.36"@
    &&& req.accept_language@ == "pt-BR,pt;q=0.9"@
    &&& req.signature_header@ == "x-toon-signature"@
    &&& req.signature_rules@.len() == 2
    &&& req.signature_rules@[0].value@ == "t8v_authX9"@
    &&& !req.signature_rules@[0].default
    &&& req.signature_rules@[0].when matches Some(w) && w.url_contains@ == "/chapters"@
    &&& req.signature_rules@[1].value@ == "t8v_decoy9"@
    &&& req.signature_rules@[1].default
    &&& req.signature_rules@[1].when is None
    &&& req.signature_strategy matches Some(
        ManifestSignatureStrategy::TimeSha256Base64 { timestamp_divisor, salt, route_selector },
    ) && timestamp_divisor == 30000 && salt@ == "My4xNDE=_1388"@
        && route_selector.when_url_contains@ == "/chapters"@ && route_selector.when_matched@
        == "chapters"@ && route_selector.otherwise@ == "other"@
    &&& req.verify_header@ == "x-toon-verify"@
    &&& req.include_credentials
    &&& req.session_cookie.name@ == "toon_v"@
    &&& req.session_cookie.generator matches ManifestSessionCookieGenerator::RandomBase36Concat {
        segments,
    } && segments@.len() == 2 && segments@[0] == (ManifestRandomSegment {
        radix: 36,
        start: 2,
        end: 15,
    }) && segments@[1] == (ManifestRandomSegment { radix: 36, start: 2, end: 15 })
    &&& req.session_cookie.mirrors_into@.len() == 1
    &&& req.session_cookie.mirrors_into@[0]@ == "x-toon-verify"@
    &&& m.decrypt.data_key_header@ == "x-toon-datakey"@
    &&& m.decrypt.payload_selector@ == "header-named-or-first-string"@
    &&& m.decrypt.algorithm@ == "cryptojs-rabbit"@
    &&& m.decrypt.passphrase matches ManifestPassphraseStrategy::UtcMd5Derived {
        date_format,
        prefix,
        salt,
        suffix,
        digest_encoding,
        digest_slice,
    } && date_format@ == "YYYY-MM-DD"@ && prefix@ == "Dealer-Critter-Catnip4"@ && salt@
        == "toonlivre.tv::v8"@ && suffix@ == "t17_4v19_b2"@ && digest_encoding@ == "hex"@
        && digest_slice == (ManifestDigestSlice { start: 0, end: 8 })
}

/// A literal whose first and last characters are not whitespace is non-blank.
proof fn lemma_nonblank(s: Seq<char>)
    requires
        s.len() > 0,
        !crate::text::is_ws(s[0]),
        !crate::text::is_ws(s.last()),
    ensures
        nonblank(s),
        trim(s) == s,
{
    assert(crate::text::lead_len(s, crate::text::ws_pred()) == 0);
    assert(s.skip(0) == s);
    assert(crate::text::trail_len(s, crate::text::ws_pred()) == 0);
    assert(s.take(s.len() as int) == s);
}

/// The manifest built into the source.
pub fn default_manifest() -> (m: ClientManifest)
    ensures
        is_default_manifest(m),
        manifest_valid(m),
{
    let rules = vec![
        ManifestSignatureRule {
            value: owned("t8v_authX9"),
            default: false,
            when: Some(ManifestSignatureMatch { url_contains: owned("/chapters") }),
        },
        ManifestSignatureRule { value: owned("t8v_decoy9"), default: true, when: None },
    ];
    let segments = vec![
        ManifestRandomSegment { radix: 36, start: 2, end: 15 },
        ManifestRandomSegment { radix: 36, start: 2, end: 15 },
    ];
    let mirrors = vec![owned("x-toon-verify")];
    let m = ClientManifest {
        schema_version: 1,
        source_id: owned("pt_BR.toonlivre"),
        site_url: owned("https://toonlivre.net"),
        request: ManifestRequest {
            user_agent: owned(
                "Mozilla/5.0 (Macintosh; Intel Mac OS X 14_0) AppleWebKit/537.36 (KHTML, like Gecko) Chrome/127.0.0.0 Safari/537.36",
            ),
            accept_language: owned("pt-BR,pt;q=0.9"),
            signature_header: owned("x-toon-signature"),
            signature_rules: rules,
            signature_strategy: Some(
                ManifestSignatureStrategy::TimeSha256Base64 {
                    timestamp_divisor: 30_000,
                    salt: owned("My4xNDE=_1388"),
                    route_selector: ManifestRouteSelector {
                        when_url_contains: owned("/chapters"),
                        when_matched: owned("chapters"),
                        otherwise: owned("other"),
                    },
                },
            ),
            verify_header: owned("x-toon-verify"),
            include_credentials: true,
            session_cookie: ManifestSessionCookie {
                name: owned("toon_v"),
                generator: ManifestSessionCookieGenerator::RandomBase36Concat { segments },
                mirrors_into: mirrors,
            },
        },
        decrypt: DecryptManifest {
            data_key_header: owned("x-toon-datakey"),
            payload_selector: owned("header-named-or-first-string"),
            algorithm: owned("cryptojs-rabbit"),
            passphrase: ManifestPassphraseStrategy::UtcMd5Derived {
                date_format: owned("YYYY-MM-DD"),
                prefix: owned("Dealer-Critter-Catnip4"),
                salt: owned("toonlivre.tv::v8"),
                suffix: owned("t17_4v19_b2"),
                digest_encoding: owned("hex"),
                digest_slice: ManifestDigestSlice { start: 0, end: 8 },
            },
        },
    };
    proof {
        reveal_strlit(
            "Mozilla/5.0 (Macintosh; Intel Mac OS X 14_0) AppleWebKit/537.36 (KHTML, like Gecko) Chrome/127.0.0.0 Safari/537.36",
        );
        reveal_strlit("pt-BR,pt;q=0.9");
        reveal_strlit("x-toon-signature");
        reveal_strlit("x-toon-verify");
        reveal_strlit("toon_v");
        reveal_strlit("x-toon-datakey");
        reveal_strlit("header-named-or-first-string");
        reveal_strlit("https://toonlivre.net");
        reveal_strlit("My4xNDE=_1388");
        reveal_strlit("/chapters");
        reveal_strlit("chapters");
        reveal_strlit("other");
        reveal_strlit("Dealer-Critter-Catnip4");
        reveal_strlit("toonlivre.tv::v8");
        reveal_strlit("t17_4v19_b2");
        lemma_nonblank(
            "Mozilla/5.0 (Macintosh; Intel Mac OS X 14_0) AppleWebKit/537.36 (KHTML, like Gecko) Chrome/127.0.0.0 Safari/537.36"@,
        );
        lemma_nonblank("pt-BR,pt;q=0.9"@);
        lemma_nonblank("x-toon-signature"@);
        lemma_nonblank("x-toon-verify"@);
        lemma_nonblank("toon_v"@);
        lemma_nonblank("x-toon-datakey"@);
        lemma_nonblank("header-named-or-first-string"@);
        lemma_nonblank("https://toonlivre.net"@);
        lemma_nonblank("My4xNDE=_1388"@);
        lemma_nonblank("/chapters"@);
        lemma_nonblank("chapters"@);
        lemma_nonblank("other"@);
        lemma_nonblank("Dealer-Critter-Catnip4"@);
        lemma_nonblank("toonlivre.tv::v8"@);
        lemma_nonblank("t17_4v19_b2"@);
    }
    m
}

} // verus!

verus! {

/// A non-default rule whose non-empty matcher text occurs in `url`.
pub open spec fn rule_matches(r: ManifestSignatureRule, url: Seq<char>) -> bool {
    !r.default && (r.when matches Some(w) && w.url_contains@.len() > 0 && contains(
        url,
        w.url_contains@,
    ))
}

/// Index of the first rule from `i` on that matches `url`.
pub open spec fn first_matching_rule(rules: Seq<ManifestSignatureRule>, url: Seq<char>, i: int) -> Option<int>
    decreases rules.len() - i,
{
    if i < 0 || i >= rules.len() {
        None
    } else if rule_matches(rules[i], url) {
        Some(i)
    } else {
        first_matching_rule(rules, url, i + 1)
    }
}

/// Index of the first default rule from `i` on.
pub open spec fn first_default_rule(rules: Seq<ManifestSignatureRule>, i: int) -> Option<int>
    decreases rules.len() - i,
{
    if i < 0 || i >= rules.len() {
        None
    } else if rules[i].default {
        Some(i)
    } else {
        first_default_rule(rules, i + 1)
    }
}

/// The signature from the rules: the first matching rule, else the first
/// default rule, else the built-in default value.
pub open spec fn rule_signature(rules: Seq<ManifestSignatureRule>, url: Seq<char>) -> Seq<char> {
    match first_matching_rule(rules, url, 0) {
        Some(k) => rules[k].value@,
        None => match first_default_rule(rules, 0) {
            Some(k) => rules[k].value@,
            None => "t8v_decoy9"@,
        },
    }
}

/// `now * 1000`, saturated to the `i64` range.
pub open spec fn millis_saturated(now: int) -> int {
    if now * 1000 > i64::MAX {
        i64::MAX as int
    } else if now * 1000 < i64::MIN {
        i64::MIN as int
    } else {
        now * 1000
    }
}

/// The time-based signature: the time in units of `divisor` milliseconds, the
/// route label (`when_matched` when the URL contains `when_url_contains`), and
/// the salt are hashed with SHA-256; the time and the hexadecimal digest, joined
/// by `:`, are encoded in Base64.
pub open spec fn time_signature(
    divisor: int,
    salt: Seq<char>,
    when_url_contains: Seq<char>,
    when_matched: Seq<char>,
    otherwise: Seq<char>,
    url: Seq<char>,
    now: int,
) -> Seq<char> {
    let timestamp = millis_saturated(now) / divisor;
    let route = if contains(url, when_url_contains) {
        when_matched
    } else {
        otherwise
    };
    let payload = signed_decimal(timestamp) + seq![':'] + route + seq![':'] + salt;
    let digest = hex_text(sha256_digest(vstd::utf8::encode_utf8(payload)));
    base64_standard(vstd::utf8::encode_utf8(signed_decimal(timestamp) + seq![':'] + digest))
}

/// The time-based signature of a strategy.
pub open spec fn strategy_signature(s: ManifestSignatureStrategy, url: Seq<char>, now: int) -> Seq<char> {
    match s {
        ManifestSignatureStrategy::TimeSha256Base64 { timestamp_divisor, salt, route_selector } =>
            time_signature(
            timestamp_divisor as int,
            salt@,
            route_selector.when_url_contains@,
            route_selector.when_matched@,
            route_selector.otherwise@,
            url,
            now,
        ),
    }
}

/// Whether a strategy's time division can be carried out without a panic.
pub open spec fn strategy_computable(s: ManifestSignatureStrategy, now: int) -> bool {
    match s {
        ManifestSignatureStrategy::TimeSha256Base64 { timestamp_divisor, .. } => timestamp_divisor
            != 0 && !(timestamp_divisor == -1 && millis_saturated(now) == i64::MIN),
    }
}

/// The signature header value for a request to `url` at time `now`.
pub open spec fn signature_for(m: ClientManifest, url: Seq<char>, now: int) -> Seq<char> {
    match m.request.signature_strategy {
        Some(s) => strategy_signature(s, url, now),
        None => rule_signature(m.request.signature_rules@, url),
    }
}

proof fn lemma_div_in_range(a: int, d: int)
    requires
        i64::MIN <= a <= i64::MAX,
        d != 0,
        i64::MIN <= d <= i64::MAX,
        !(d == -1 && a == i64::MIN),
    ensures
        i64::MIN <= a / d <= i64::MAX,
{
    if d == -1 {
        assert(a / d == -a) by (nonlinear_arith)
            requires
                d == -1,
        ;
    } else if d == 1 {
        assert(a / d == a) by (nonlinear_arith)
            requires
                d == 1,
        ;
    } else if d > 1 {
        assert(i64::MIN <= a / d <= i64::MAX) by (nonlinear_arith)
            requires
                d > 1,
                i64::MIN <= a <= i64::MAX,
        ;
    } else {
        assert(i64::MIN <= a / d <= i64::MAX) by (nonlinear_arith)
            requires
                d < -1,
                i64::MIN <= a <= i64::MAX,
        ;
    }
}

/// The hexadecimal SHA-256 digest of `bytes`.
pub fn sha256_hex(bytes: &[u8]) -> (r: Vec<char>)
    ensures
        r@ == hex_text(sha256_digest(bytes@)),
{
    let d = sha256_bytes(bytes);
    hex_string(d.as_slice())
}

/// The time-based signature of a strategy.
pub fn dynamic_signature_value(strategy: &ManifestSignatureStrategy, url: &str, now: i64) -> (r: String)
    requires
        strategy_computable(*strategy, now as int),
    ensures
        r@ == strategy_signature(*strategy, url@, now as int),
{
    match strategy {
        ManifestSignatureStrategy::TimeSha256Base64 { timestamp_divisor, salt, route_selector } => {
            let millis: i64 = match now.checked_mul(1000) {
                Some(v) => v,
                None => if now > 0 {
                    i64::MAX
                } else {
                    i64::MIN
                },
            };
            assert(millis == millis_saturated(now as int));
            let timestamp: i64 = match millis.checked_div_euclid(*timestamp_divisor) {
                Some(t) => t,
                None => 0,
            };
            proof {
                lemma_div_in_range(millis as int, *timestamp_divisor as int);
            }
            assert(timestamp == millis_saturated(now as int) / (*timestamp_divisor as int));
            let u = chars_of(url);
            let w = chars_of(route_selector.when_url_contains.as_str());
            let route = if contains_exec(u.as_slice(), w.as_slice()) {
                chars_of(route_selector.when_matched.as_str())
            } else {
                chars_of(route_selector.otherwise.as_str())
            };
            let mut payload = decimal_i64(timestamp);
            payload.push(':');
            append(&mut payload, route.as_slice());
            payload.push(':');
            let salt_chars = chars_of(salt.as_str());
            append(&mut payload, salt_chars.as_slice());
            let ghost route_v = if contains(url@, route_selector.when_url_contains@) {
                route_selector.when_matched@
            } else {
                route_selector.otherwise@
            };
            assert(route@ == route_v);
            assert(payload@ == signed_decimal(timestamp as int) + seq![':'] + route_v + seq![':'] + salt@);
            let payload_bytes = utf8_bytes(payload.as_slice());
            let digest = sha256_hex(payload_bytes.as_slice());
            let mut signed = decimal_i64(timestamp);
            signed.push(':');
            append(&mut signed, digest.as_slice());
            assert(digest@ == hex_text(sha256_digest(vstd::utf8::encode_utf8(payload@))));
            assert(signed@ == signed_decimal(timestamp as int) + seq![':'] + digest@);
            let signed_bytes = utf8_bytes(signed.as_slice());
            base64_encode(signed_bytes.as_slice())
        },
    }
}

/// The signature from the rules (see `rule_signature`).
pub fn static_signature_value(rules: &Vec<ManifestSignatureRule>, url: &str) -> (r: String)
    ensures
        r@ == rule_signature(rules@, url@),
{
    let u = chars_of(url);
    let mut i: usize = 0;
    while i < rules.len()
        invariant
            i <= rules@.len(),
            first_matching_rule(rules@, url@, 0) == first_matching_rule(rules@, url@, i as int),
            u@ == url@,
        decreases rules@.len() - i,
    {
        let rule = &rules[i];
        if !rule.default {
            match &rule.when {
                Some(w) => {
                    let c = chars_of(w.url_contains.as_str());
                    if c.len() > 0 && contains_exec(u.as_slice(), c.as_slice()) {
                        return rule.value.clone();
                    }
                },
                None => {},
            }
        }
        i += 1;
    }
    let mut j: usize = 0;
    while j < rules.len()
        invariant
            j <= rules@.len(),
            first_default_rule(rules@, 0) == first_default_rule(rules@, j as int),
            first_matching_rule(rules@, url@, 0) is None,
        decreases rules@.len() - j,
    {
        if rules[j].default {
            return rules[j].value.clone();
        }
        j += 1;
    }
    owned("t8v_decoy9")
}

/// The signature header value for a request to `url` at time `now`.
pub fn signature_value_for_url(manifest: &ClientManifest, url: &str, now: i64) -> (r: String)
    requires
        manifest.request.signature_strategy matches Some(s) ==> strategy_computable(s, now as int),
    ensures
        r@ == signature_for(*manifest, url@, now as int),
{
    match &manifest.request.signature_strategy {
        Some(strategy) => dynamic_signature_value(strategy, url, now),
        None => static_signature_value(&manifest.request.signature_rules, url),
    }
}

} // verus!

verus! {

/// The passphrase a strategy derives at time `now`: the prefix followed by the
/// slice `start..end` (clamped to the digest) of the lower-case hexadecimal MD5
/// digest of the UTC date, the salt and the suffix.
pub open spec fn strategy_passphrase(p: ManifestPassphraseStrategy, now: int) -> Seq<char> {
    match p {
        ManifestPassphraseStrategy::UtcMd5Derived { prefix, salt, suffix, digest_slice, .. } => {
            let hex = hex_text(
                md5_digest(vstd::utf8::encode_utf8(utc_date_text(now) + salt@ + suffix@)),
            );
            let start = if digest_slice.start <= hex.len() {
                digest_slice.start as int
            } else {
                hex.len() as int
            };
            let end0 = if digest_slice.end <= hex.len() {
                digest_slice.end as int
            } else {
                hex.len() as int
            };
            let end = if end0 >= start {
                end0
            } else {
                start
            };
            prefix@ + hex.subrange(start, end)
        },
    }
}

/// The decryption passphrase that a manifest derives at time `now`.
pub fn current_decryption_passphrase_for_manifest(manifest: &ClientManifest, now: i64) -> (r: String)
    ensures
        r@ == strategy_passphrase(manifest.decrypt.passphrase, now as int),
{
    match &manifest.decrypt.passphrase {
        ManifestPassphraseStrategy::UtcMd5Derived { prefix, salt, suffix, digest_slice, .. } => {
            let date = current_utc_date_string(now);
            let mut seed = chars_of(date.as_str());
            let salt_chars = chars_of(salt.as_str());
            append(&mut seed, salt_chars.as_slice());
            let suffix_chars = chars_of(suffix.as_str());
            append(&mut seed, suffix_chars.as_slice());
            let bytes = utf8_bytes(seed.as_slice());
            let digest = md5_bytes(bytes.as_slice());
            let hex = hex_string(digest.as_slice());
            let start = if digest_slice.start <= hex.len() {
                digest_slice.start
            } else {
                hex.len()
            };
            let end0 = if digest_slice.end <= hex.len() {
                digest_slice.end
            } else {
                hex.len()
            };
            let end = if end0 >= start {
                end0
            } else {
                start
            };
            let mut out = chars_of(prefix.as_str());
            let piece = crate::text::slice_range(hex.as_slice(), start, end);
            append(&mut out, piece.as_slice());
            string_of(out.as_slice())
        },
    }
}

/// The seed of the session cookie: the time, the request counter, the source
/// identifier and the current passphrase, joined by `:`.
pub open spec fn cookie_seed(m: ClientManifest, now: int, counter: int) -> Seq<char> {
    signed_decimal(now) + seq![':'] + signed_decimal(counter) + seq![':'] + m.source_id@ + seq![':']
        + strategy_passphrase(m.decrypt.passphrase, now)
}

/// The seed of the session cookie.
pub fn pseudo_random_seed(manifest: &ClientManifest, now: i64, counter: i32) -> (r: Vec<char>)
    ensures
        r@ == cookie_seed(*manifest, now as int, counter as int),
{
    let mut out = decimal_i64(now);
    out.push(':');
    let c = decimal_i64(counter as i64);
    append(&mut out, c.as_slice());
    out.push(':');
    let id = chars_of(manifest.source_id.as_str());
    append(&mut out, id.as_slice());
    out.push(':');
    let p = current_decryption_passphrase_for_manifest(manifest, now);
    let pc = chars_of(p.as_str());
    append(&mut out, pc.as_slice());
    out
}

/// The code point of the digit `value`: `'0'` to `'9'`, then `'a'` onwards.
/// Past 168 the byte arithmetic that writes it overflows, and past 40 it is
/// not ASCII.
pub open spec fn digit_code(value: nat) -> u32 {
    (if value < 10 {
        48 + value
    } else {
        87 + value
    }) as u32
}

/// The code point of the digit `value` (any byte value; the text is only
/// made from digits up to 168, see `random_segment`).
fn digit_code_exec(value: u8) -> (r: u32)
    ensures
        r == digit_code(value as nat),
{
    if value < 10 {
        48u32 + value as u32
    } else {
        87u32 + value as u32
    }
}

/// Two digits per digest byte: the byte modulo the radix, then its quotient
/// modulo the radix, as code points.
pub open spec fn digest_digits(bytes: Seq<u8>, radix: nat) -> Seq<u32>
    decreases bytes.len(),
{
    if bytes.len() == 0 {
        seq![]
    } else {
        let b = bytes.last() as nat;
        digest_digits(bytes.drop_last(), radix) + seq![digit_code(b % radix), digit_code((b / radix) % radix)]
    }
}

/// The text hashed in round `round` of segment `index`.
pub open spec fn round_input(seed: Seq<char>, index: nat, round: nat) -> Seq<char> {
    seed + seq![':'] + decimal(index) + seq![':'] + decimal(round)
}

/// The digit stream of segment `index` after `rounds` rounds of MD5.
pub open spec fn digit_stream(seed: Seq<char>, index: nat, radix: nat, rounds: nat) -> Seq<u32>
    decreases rounds,
{
    if rounds == 0 {
        seq![]
    } else {
        digit_stream(seed, index, radix, (rounds - 1) as nat) + digest_digits(
            md5_digest(vstd::utf8::encode_utf8(round_input(seed, index, (rounds - 1) as nat))),
            radix,
        )
    }
}

/// The effective radix of a segment (at least 2).
pub open spec fn effective_radix(seg: ManifestRandomSegment) -> nat {
    if seg.radix >= 2 {
        seg.radix as nat
    } else {
        2
    }
}

/// The end of a segment's range (at least one past its start).
pub open spec fn segment_end(seg: ManifestRandomSegment) -> nat {
    if seg.end >= seg.start + 1 {
        seg.end as nat
    } else {
        (seg.start + 1) as nat
    }
}

/// The UTF-8 length of a digit written as a byte: one below 128, else two.
pub open spec fn code_width(c: u32) -> nat {
    if c < 128 {
        1
    } else {
        2
    }
}

/// The UTF-8 length of a run of digits.
pub open spec fn bytes_len(s: Seq<u32>) -> nat
    decreases s.len(),
{
    if s.len() == 0 {
        0
    } else {
        bytes_len(s.drop_last()) + code_width(s.last())
    }
}

/// The number of digits the stream is grown to from `k` on: digits are
/// added until the text holds at least `t` bytes.
pub open spec fn reach_from(s: Seq<u32>, t: nat, k: nat) -> nat
    decreases s.len() - k,
{
    if k >= s.len() || bytes_len(s.take(k as int)) >= t {
        k
    } else {
        reach_from(s, t, k + 1)
    }
}

/// The index of the digit at which the text's byte offset `b` falls, from
/// `k` on, when `b` is a character boundary.
pub open spec fn boundary_from(s: Seq<u32>, b: nat, k: nat) -> Option<nat>
    decreases s.len() - k,
{
    if bytes_len(s.take(k as int)) == b {
        Some(k)
    } else if k >= s.len() || bytes_len(s.take(k as int)) > b {
        None
    } else {
        boundary_from(s, b, k + 1)
    }
}

/// The characters of a run of digit code points.
pub open spec fn codes_text(s: Seq<u32>) -> Seq<char> {
    s.map_values(|c: u32| c as char)
}

/// Segment `index` of the session cookie: the stream of digits is grown
/// until it holds `end` bytes (at least `start + 1`), then the bytes
/// `start..end` are taken. `None` where that cannot be done: `start` at the
/// largest index, a digit past 168 (its byte arithmetic overflows), or an
/// end of the range that is not a character boundary.
pub open spec fn random_segment(seed: Seq<char>, index: nat, seg: ManifestRandomSegment) -> Option<Seq<char>> {
    let t = segment_end(seg);
    let d = digit_stream(seed, index, effective_radix(seg), (t + 31) / 32);
    let p = d.take(reach_from(d, t, 0) as int);
    if seg.start == usize::MAX {
        None
    } else if exists|i: int| 0 <= i < p.len() && #[trigger] p[i] >= 256 {
        None
    } else {
        match (boundary_from(p, seg.start as nat, 0), boundary_from(p, t, 0)) {
            (Some(i), Some(j)) => Some(codes_text(p.subrange(i as int, j as int))),
            _ => None,
        }
    }
}

proof fn lemma_bytes_len_step(s: Seq<u32>, k: int)
    requires
        0 <= k < s.len(),
    ensures
        bytes_len(s.take(k + 1)) == bytes_len(s.take(k)) + code_width(s[k]),
        bytes_len(s.take(k)) >= k,
    decreases k,
{
    assert(s.take(k + 1).drop_last() == s.take(k));
    if k > 0 {
        lemma_bytes_len_step(s, k - 1);
    }
}

proof fn lemma_boundary_increasing(s: Seq<u32>, b: nat, k: nat)
    requires
        k <= s.len(),
    ensures
        boundary_from(s, b, k) matches Some(i) ==> k <= i <= s.len() && bytes_len(s.take(i as int)) == b,
    decreases s.len() - k,
{
    if bytes_len(s.take(k as int)) != b && k < s.len() && bytes_len(s.take(k as int)) <= b {
        lemma_boundary_increasing(s, b, k + 1);
    }
}

/// The index at which the byte offset `b` of `s` falls, if it is a boundary.
fn boundary_exec(s: &Vec<u32>, b: usize) -> (r: Option<usize>)
    ensures
        match r {
            Some(i) => boundary_from(s@, b as nat, 0) == Some(i as nat),
            None => boundary_from(s@, b as nat, 0) is None,
        },
{
    let mut k: usize = 0;
    let mut bytes: u128 = 0;
    while k <= s.len()
        invariant
            k <= s@.len(),
            bytes == bytes_len(s@.take(k as int)),
            bytes <= 2 * k,
            boundary_from(s@, b as nat, k as nat) == boundary_from(s@, b as nat, 0),
        decreases s@.len() - k,
    {
        if bytes == b as u128 {
            return Some(k);
        }
        if k == s.len() || bytes > b as u128 {
            return None;
        }
        proof {
            lemma_bytes_len_step(s@, k as int);
        }
        bytes = bytes + if s[k] < 128 {
            1
        } else {
            2
        };
        k += 1;
    }
    None
}

/// Segment `index` of the session cookie (see `random_segment`).
pub fn pseudo_random_segment(seed: &[char], index: usize, segment: ManifestRandomSegment) -> (r: Option<String>)
    ensures
        match r {
            Some(x) => random_segment(seed@, index as nat, segment) == Some(x@),
            None => random_segment(seed@, index as nat, segment) is None,
        },
{
    if segment.start == usize::MAX {
        return None;
    }
    let radix: u8 = if segment.radix >= 2 {
        segment.radix
    } else {
        2
    };
    let target: usize = if segment.end >= segment.start + 1 {
        segment.end
    } else {
        segment.start + 1
    };
    let mut stream: Vec<u32> = Vec::new();
    let mut round: usize = 0;
    while stream.len() < target
        invariant
            radix as nat == effective_radix(segment),
            2 <= radix,
            target as nat == segment_end(segment),
            stream@ == digit_stream(seed@, index as nat, radix as nat, round as nat),
            stream@.len() == 32 * round,
            round == 0 || 32 * (round - 1) < target,
        decreases target + 32 - stream@.len(),
    {
        let mut input: Vec<char> = Vec::new();
        append(&mut input, seed);
        input.push(':');
        let idx = decimal_u64(index as u64);
        append(&mut input, idx.as_slice());
        input.push(':');
        let rd = decimal_u64(round as u64);
        append(&mut input, rd.as_slice());
        assert(input@ == round_input(seed@, index as nat, round as nat));
        let bytes = utf8_bytes(input.as_slice());
        let digest = md5_bytes(bytes.as_slice());
        let ghost before = stream@;
        let mut j: usize = 0;
        while j < digest.len()
            invariant
                2 <= radix,
                j <= digest@.len(),
                digest@.len() == 16,
                stream@ == before + digest_digits(digest@.take(j as int), radix as nat),
                stream@.len() == before.len() + 2 * j,
            decreases digest@.len() - j,
        {
            assert(digest@.take(j + 1).drop_last() == digest@.take(j as int));
            let b = digest[j];
            stream.push(digit_code_exec(b % radix));
            stream.push(digit_code_exec((b / radix) % radix));
            j += 1;
        }
        assert(digest@.take(16) == digest@);
        round += 1;
    }
    assert(round == (target + 31) / 32);
    let ghost d = stream@;
    // How far the original grows the stream: until it holds `target` bytes.
    let mut n: usize = 0;
    let mut held: u128 = 0;
    while n < stream.len() && held < target as u128
        invariant
            stream@ == d,
            n <= d.len(),
            held == bytes_len(d.take(n as int)),
            held <= 2 * n,
            reach_from(d, target as nat, n as nat) == reach_from(d, target as nat, 0),
        decreases d.len() - n,
    {
        proof {
            lemma_bytes_len_step(d, n as int);
        }
        held = held + if stream[n] < 128 {
            1
        } else {
            2
        };
        n += 1;
    }
    assert(reach_from(d, target as nat, n as nat) == n as nat);
    assert(d == digit_stream(seed@, index as nat, effective_radix(segment), (segment_end(segment) + 31) / 32));
    let ghost p = d.take(n as int);
    assert(p == d.take(reach_from(d, segment_end(segment), 0) as int));
    stream.truncate(n);
    assert(stream@ == p);
    // A digit past 168 overflows the byte arithmetic that writes it.
    let mut k: usize = 0;
    while k < stream.len()
        invariant
            stream@ == p,
            k <= p.len(),
            forall|i: int| 0 <= i < k ==> p[i] < 256,
            segment.start != usize::MAX,
            p == digit_stream(seed@, index as nat, effective_radix(segment), (segment_end(segment) + 31) / 32).take(
                reach_from(
                    digit_stream(seed@, index as nat, effective_radix(segment), (segment_end(segment) + 31) / 32),
                    segment_end(segment),
                    0,
                ) as int,
            ),
        decreases p.len() - k,
    {
        if stream[k] >= 256 {
            assert(p[k as int] >= 256);
            return None;
        }
        k += 1;
    }
    assert(!exists|i: int| 0 <= i < p.len() && #[trigger] p[i] >= 256);
    let first = boundary_exec(&stream, segment.start);
    let last = boundary_exec(&stream, target);
    match (first, last) {
        (Some(i), Some(j)) => {
            proof {
                lemma_boundary_increasing(p, segment.start as nat, 0);
                lemma_boundary_increasing(p, target as nat, 0);
                if j < i {
                    lemma_bytes_len_mono(p, j as int, i as int);
                }
            }
            let mut out: Vec<char> = Vec::new();
            let mut m: usize = i;
            while m < j
                invariant
                    stream@ == p,
                    i <= m <= j <= p.len(),
                    forall|x: int| 0 <= x < p.len() ==> p[x] < 256,
                    out@ == codes_text(p.subrange(i as int, m as int)),
                decreases j - m,
            {
                let c = stream[m];
                out.push((c as u8) as char);
                assert(codes_text(p.subrange(i as int, m + 1)) =~= out@);
                m += 1;
            }
            let r = string_of(out.as_slice());
            assert(r@ == codes_text(p.subrange(i as int, j as int)));
            Some(r)
        },
        _ => None,
    }
}

proof fn lemma_bytes_len_mono(s: Seq<u32>, a: int, b: int)
    requires
        0 <= a <= b <= s.len(),
    ensures
        bytes_len(s.take(a)) + (b - a) <= bytes_len(s.take(b)),
    decreases b - a,
{
    if a < b {
        lemma_bytes_len_step(s, b - 1);
        lemma_bytes_len_mono(s, a, b - 1);
    }
}

/// The segments `0..n` of the session cookie, concatenated; `None` when one
/// of them cannot be made.
pub open spec fn cookie_segments(seed: Seq<char>, segs: Seq<ManifestRandomSegment>, n: nat) -> Option<Seq<char>>
    decreases n,
{
    if n == 0 {
        Some(seq![])
    } else {
        match (cookie_segments(seed, segs, (n - 1) as nat), random_segment(seed, (n - 1) as nat, segs[n - 1])) {
            (Some(a), Some(b)) => Some(a + b),
            _ => None,
        }
    }
}

/// The session cookie value a manifest generates at time `now` with request
/// counter `counter`; `None` where one of its segments cannot be made.
pub open spec fn cookie_value(m: ClientManifest, now: int, counter: int) -> Option<Seq<char>> {
    match m.request.session_cookie.generator {
        ManifestSessionCookieGenerator::RandomBase36Concat { segments } => cookie_segments(
            cookie_seed(m, now, counter),
            segments@,
            segments@.len(),
        ),
    }
}

/// The session cookie value for the time `now` and request counter
/// `counter`, or `None` where one of its segments cannot be made.
pub fn try_generate_session_cookie_value(manifest: &ClientManifest, now: i64, counter: i32) -> (r: Option<String>)
    ensures
        match r {
            Some(x) => cookie_value(*manifest, now as int, counter as int) == Some(x@),
            None => cookie_value(*manifest, now as int, counter as int) is None,
        },
{
    match &manifest.request.session_cookie.generator {
        ManifestSessionCookieGenerator::RandomBase36Concat { segments } => {
            let seed = pseudo_random_seed(manifest, now, counter);
            let mut token: Vec<char> = Vec::new();
            let mut index: usize = 0;
            assert(cookie_value(*manifest, now as int, counter as int) == cookie_segments(seed@, segments@, segments@.len()));
            while index < segments.len()
                invariant
                    index <= segments@.len(),
                    cookie_value(*manifest, now as int, counter as int) == cookie_segments(seed@, segments@, segments@.len()),
                    cookie_segments(seed@, segments@, index as nat) == Some(token@),
                decreases segments@.len() - index,
            {
                match pseudo_random_segment(seed.as_slice(), index, segments[index]) {
                    Some(piece) => {
                        let pc = chars_of(piece.as_str());
                        append(&mut token, pc.as_slice());
                        assert(cookie_segments(seed@, segments@, (index + 1) as nat) == Some(token@));
                    },
                    None => {
                        assert(cookie_segments(seed@, segments@, (index + 1) as nat) is None);
                        proof {
                            lemma_cookie_segments_stuck(seed@, segments@, (index + 1) as nat, segments@.len());
                        }
                        return None;
                    },
                }
                index += 1;
            }
            let r = string_of(token.as_slice());
            assert(cookie_segments(seed@, segments@, segments@.len()) == Some(r@));
            Some(r)
        },
    }
}

proof fn lemma_cookie_segments_stuck(seed: Seq<char>, segs: Seq<ManifestRandomSegment>, k: nat, n: nat)
    requires
        k <= n,
        cookie_segments(seed, segs, k) is None,
    ensures
        cookie_segments(seed, segs, n) is None,
    decreases n - k,
{
    if k < n {
        lemma_cookie_segments_stuck(seed, segs, k + 1, n);
    }
}

/// The session cookie value for the time `now` and request counter `counter`,
/// on a manifest whose segments can all be made.
pub fn generate_session_cookie_value(manifest: &ClientManifest, now: i64, counter: i32) -> (r: String)
    requires
        cookie_value(*manifest, now as int, counter as int) is Some,
    ensures
        cookie_value(*manifest, now as int, counter as int) == Some(r@),
{
    match try_generate_session_cookie_value(manifest, now, counter) {
        Some(s) => s,
        None => String::new(),
    }
}

/// The manifest in effect: a remote manifest is taken when it has a signature
/// strategy or when the bundled one has none; otherwise the bundled one.
pub fn choose_active_manifest(bundled: ClientManifest, remote: Option<ClientManifest>) -> (r: ClientManifest)
    ensures
        r == (match remote {
            Some(m) => if m.request.signature_strategy is Some || bundled.request.signature_strategy is None {
                m
            } else {
                bundled
            },
            None => bundled,
        }),
{
    match remote {
        Some(m) => {
            if m.request.signature_strategy.is_some() || bundled.request.signature_strategy.is_none() {
                m
            } else {
                bundled
            }
        },
        None => bundled,
    }
}

/// A parsed manifest when it is usable, else the built-in default.
pub fn manifest_or_default(parsed: Option<ClientManifest>) -> (r: ClientManifest)
    ensures
        (parsed matches Some(m) && manifest_valid(m)) ==> Some(r) == parsed,
        !(parsed matches Some(m) && manifest_valid(m)) ==> is_default_manifest(r),
        manifest_valid(r),
{
    match parsed {
        Some(m) => match validate_manifest(m) {
            Some(v) => v,
            None => default_manifest(),
        },
        None => default_manifest(),
    }
}

} // verus!
