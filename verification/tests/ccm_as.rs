use base64::engine::general_purpose::STANDARD;
use base64::Engine;
use ccm_dsm::ccm_as::{
    attester_for, cert_is_currently_valid, cert_is_valid_at, issued_cert, since_1970,
    validity_holds, AttestError, Attester, CcmAsConfig, CcmAsTokenGetter, ConfigError, ConfigValue, Tee,
    TokenCache, TokenStep,
};

// Self-signed, CN=ccm_as-test, from 2026-09-06 18:03:38 to 2036-09-04 18:03:38.
const VALID_CERT: &str = "-----BEGIN CERTIFICATE-----
MIICuDCCAaCgAwIBAgIUEUdXuSfxBbbrB29OmESJOXWw7mQwDQYJKoZIhvcNAQEL
BQAwFjEUMBIGA1UEAwwLY2NtX2FzLXRlc3QwHhcNMjYwOTA2MTgwMzM4WhcNMzYw
OTA0MTgwMzM4WjAWMRQwEgYDVQQDDAtjY21fYXMtdGVzdDCCASIwDQYJKoZIhvcN
AQEBBQADggEPADCCAQoCggEBAMRTQ6sRp3W125lHn+f/oTael9+YtNdbURuYiTkm
cMfWjYIIDgwdR1SCtYaJxhI7z8/nyb7+/KY6vla9hagCz3J06O/ebr7FhGQqxpk9
epyhuYAYjIpoz+R8AAU0O2SnruClSahfHncLp7WyxMRg9tWiQJP20dpGmxMMVgiM
IdgiE6FjLbleagDfiiLLz08xcdcOC/jCF2JYdIUF8+vUajKmjjRtSy7bdPD83+/Q
nhijENnGq49gaPyfn6lxUbkFUnKM9ByW354TPfG3D7ImaRCu9ONiU2c84/WKWkpC
FHtx3ri4moltfnXYX3AInDumEQ3WcddKfOMABxplIQbmn1UCAwEAATANBgkqhkiG
9w0BAQsFAAOCAQEABTnffpswY1VB46Ykly1/KAUVu/zcU8B5/JVxysRxl0MdBqeE
bHNimEHGeTeo+iQKr5dKsV9Eihs8rXqafuaThXBTNMiqqFaHRwNuAn3ey/96pzex
MkmLTgIoF18alo9p4ysOpiHYXRQw+r7XHu+EJetSEtFWhvBWPlh3TBrfZSBvUQjx
r1Vi/PvAUiTCvh1uqnIvmV57AdhrU0lCuqW+ZG43oTpT6UGxyVH3luPMtQLr0lXw
G1aRjT0Gp+flSjPRR6tgXZ92MhNU9F89E0MYBf+FGZB7V/hAQ7y9MJkE228EGuJX
fl1gqt2iQ9eHzcbEDISrEejTfqg5TvVh1epaww==
-----END CERTIFICATE-----";

// Same subject, from 2024-09-07 18:03:38 to 2025-09-07 18:03:38.
const EXPIRED_CERT: &str = "-----BEGIN CERTIFICATE-----
MIICuDCCAaCgAwIBAgIUeiTxg1V31/TkVtVXptGmPKFbCvIwDQYJKoZIhvcNAQEL
BQAwFjEUMBIGA1UEAwwLY2NtX2FzLXRlc3QwHhcNMjQwOTA3MTgwMzM4WhcNMjUw
OTA3MTgwMzM4WjAWMRQwEgYDVQQDDAtjY21fYXMtdGVzdDCCASIwDQYJKoZIhvcN
AQEBBQADggEPADCCAQoCggEBAL2NuTI56lkMhPZZ+opzKIpBCb3T76lirVQhJyZR
f3trOkxTaxzDf3Rl7++U3qgVOcBuqqsbgix90zaZWoJs/L2NlcPuPz2WDSENkhIJ
DjoAXq+LQkQ8ulMzeNn+r7iqwMk4GgH017C/VJO4DRjavYcujfe0X0LRHblDEibf
kYeygB+qicWa8eYPFqduvPcWxJYa5OQIqZGxxoi1UtgXu7enS4bBHkyA7saKSr4i
mSmD+ITDGUduNnCzEd8gb79ycrgYmeWARuG1JoMg97NDFkmGPyRCgy72QEzP9KO6
asmc69edRpcybKpyJU+j1dBiJpmnSAJ3Opm/tLrNYo2gkwsCAwEAATANBgkqhkiG
9w0BAQsFAAOCAQEAVVhbA3h6Zk3/SlcNYdZFv4+Ur1bwoyLO+DRzG8eGt/ngaV3c
e3jpyYxblPtIQASBQ9u0MAOGEFvWtkuLIZPcJBy0HkoIb0iVo65aH1T8/mqQpi2g
F3PcZ54/xPvZipMGswBK2ZiFGxuK1sNSa0l4gDIOSEIInf2q+QdV8Gk75bSust7E
hnZ7qHFN8uXhtY8T3F2vDwuuU6FuHDKgWkcWKRenFSiGDjcRm/QqmDJvRPI05Ggp
5mTSwamJ7X0rOsTqKg6kfHSdUG2dGQj1bDgbiCwwZkaTEFjYHOaVqYcYikcHDDtA
Wn/fTpmWfQ26lDwVArEIBGVmloEEENm8Biv0gg==
-----END CERTIFICATE-----";

const SECOND: u128 = 1_000_000_000;
const EXPIRED_FROM: u128 = 1_725_732_218 * SECOND;
const EXPIRED_UNTIL: u128 = 1_757_268_218 * SECOND;

fn description(value: &toml::Value) -> String {
    match value {
        toml::Value::Integer(n) => format!("integer `{n}`"),
        other => other.type_str().to_owned(),
    }
}

fn item_of(item: &toml::Value) -> Result<String, String> {
    item.as_str().map(str::to_owned).ok_or_else(|| description(item))
}

fn value_of(value: &toml::Value) -> ConfigValue {
    match value {
        toml::Value::String(text) => ConfigValue::Text(text.clone()),
        toml::Value::Array(items) => {
            ConfigValue::List(items.iter().map(|item| item_of(item)).collect())
        }
        other => ConfigValue::Other(description(other)),
    }
}

fn config(file: &str) -> Result<CcmAsConfig, ConfigError> {
    let table: toml::Table = toml::from_str(file).unwrap();
    let fields = table.iter().map(|(name, value)| (name.clone(), value_of(value))).collect();
    CcmAsConfig::from_fields(&fields)
}

#[test]
fn deserializes_multiple_domain_names_and_appconfig_id() {
    let cfg = config(
        r#"
            ccm_domain_names = ["fortanix.com", "example.com"]
            ccm_appconfig_id = "deadbeef"
            "#,
    )
    .unwrap();
    assert_eq!(cfg.ccm_domain_names, vec!["fortanix.com", "example.com"]);
    assert_eq!(cfg.ccm_appconfig_id, Some("deadbeef".to_string()));
}

#[test]
fn ccm_appconfig_id_defaults_to_none() {
    let cfg = config(r#"ccm_domain_names = ["fortanix.com"]"#).unwrap();
    assert_eq!(cfg.ccm_appconfig_id, None);
}

#[test]
fn ccm_domain_names_must_be_an_array_not_a_bare_string() {
    let result = config(r#"ccm_domain_names = "fortanix.com""#);
    assert!(result.is_err());
    assert_eq!(
        result.unwrap_err().to_text(),
        "invalid type: string \"fortanix.com\", expected a sequence"
    );
}

#[test]
fn ccm_domain_names_is_required() {
    let result = config("");
    assert!(result.is_err());
    assert_eq!(result, Err(ConfigError::NoDomainNames));
}

#[test]
fn domain_names_must_all_be_texts() {
    let error = config(r#"ccm_domain_names = ["fortanix.com", 7]"#).unwrap_err();
    assert_eq!(error, ConfigError::NotString { found: "integer `7`".to_string() });
    assert_eq!(error.to_text(), "invalid type: integer `7`, expected a string");
}

fn field(name: &str, value: ConfigValue) -> (String, ConfigValue) {
    (name.to_string(), value)
}

fn list(items: &[&str]) -> ConfigValue {
    ConfigValue::List(items.iter().map(|item| Ok(item.to_string())).collect())
}

#[test]
fn appconfig_id_must_be_a_text() {
    let error = config("ccm_domain_names = []\nccm_appconfig_id = 7").unwrap_err();
    assert_eq!(error, ConfigError::NotString { found: "integer `7`".to_string() });
    let fields = vec![
        field("ccm_appconfig_id", list(&[])),
        field("ccm_domain_names", list(&["a"])),
    ];
    let error = CcmAsConfig::from_fields(&fields).unwrap_err();
    assert_eq!(error.to_text(), "invalid type: sequence, expected a string");
    let fields = vec![
        field("ccm_appconfig_id", ConfigValue::Null),
        field("ccm_domain_names", list(&[])),
        field("unknown", ConfigValue::Null),
        field("unknown", ConfigValue::Null),
    ];
    assert_eq!(CcmAsConfig::from_fields(&fields).unwrap().ccm_appconfig_id, None);
}

#[test]
fn fields_must_not_be_repeated() {
    let fields = vec![
        field("ccm_domain_names", list(&["a"])),
        field("ccm_domain_names", ConfigValue::Null),
    ];
    let error = CcmAsConfig::from_fields(&fields).unwrap_err();
    assert_eq!(error.to_text(), "duplicate field `ccm_domain_names`");
    let text = || ConfigValue::Text("00".to_string());
    let fields = vec![field("ccm_appconfig_id", text()), field("ccm_appconfig_id", text())];
    let error = CcmAsConfig::from_fields(&fields).unwrap_err();
    assert_eq!(error, ConfigError::Repeated { field: "ccm_appconfig_id".to_string() });
}

#[test]
fn first_fault_of_a_file_is_reported() {
    let wrong_id = || field("ccm_appconfig_id", ConfigValue::Other("integer `7`".to_string()));
    let wrong_names = || field("ccm_domain_names", ConfigValue::Null);
    let told = |fields| CcmAsConfig::from_fields(&fields).unwrap_err().to_text();
    assert_eq!(told(vec![wrong_id()]), "invalid type: integer `7`, expected a string");
    assert_eq!(
        told(vec![wrong_id(), wrong_names()]),
        "invalid type: integer `7`, expected a string"
    );
    assert_eq!(
        told(vec![wrong_names(), wrong_id()]),
        "invalid type: null, expected a sequence"
    );
    assert_eq!(told(vec![]), "missing field `ccm_domain_names`");
}

#[test]
fn currently_valid_cert_is_valid() {
    assert!(cert_is_currently_valid(VALID_CERT));
}

#[test]
fn expired_cert_is_not_valid() {
    assert!(!cert_is_currently_valid(EXPIRED_CERT));
}

#[test]
fn unparseable_pem_is_treated_as_not_valid() {
    assert!(!cert_is_currently_valid("not a certificate"));
}

#[test]
fn validity_starts_and_ends_exactly() {
    assert!(!cert_is_valid_at(EXPIRED_CERT, Some(EXPIRED_FROM - 1)));
    assert!(cert_is_valid_at(EXPIRED_CERT, Some(EXPIRED_FROM)));
    assert!(cert_is_valid_at(EXPIRED_CERT, Some(EXPIRED_UNTIL - 1)));
    assert!(!cert_is_valid_at(EXPIRED_CERT, Some(EXPIRED_UNTIL)));
    assert!(!cert_is_valid_at(EXPIRED_CERT, None));
    assert!(validity_holds(Some((3, 5)), Some(4)));
    assert!(!validity_holds(Some((3, 5)), Some(5)));
    assert!(!validity_holds(Some((3, 5)), Some(2)));
    assert!(!validity_holds(None, Some(4)));
}

#[test]
fn nothing_is_valid_before_1970() {
    assert_eq!(since_1970(Ok(EXPIRED_FROM)), Some(EXPIRED_FROM));
    assert_eq!(since_1970(Err(EXPIRED_FROM)), None);
    assert!(cert_is_valid_at(EXPIRED_CERT, since_1970(Ok(EXPIRED_FROM))));
    assert!(!cert_is_valid_at(EXPIRED_CERT, since_1970(Err(EXPIRED_FROM))));
}

// A document whose body is the single byte 0x30, which a length would have to follow.
const TRUNCATED: &str = "-----BEGIN CERTIFICATE-----\nMA==\n-----END CERTIFICATE-----";

#[test]
fn truncated_certificate_is_not_valid() {
    assert!(!cert_is_currently_valid(TRUNCATED));
    assert!(!cert_is_valid_at(TRUNCATED, Some(EXPIRED_FROM)));
    for cut in [27, 100, 500, 900] {
        let mut lines: Vec<&str> = EXPIRED_CERT.lines().collect();
        lines.retain(|line| !line.is_empty());
        let body = lines[1..lines.len() - 1].concat();
        let short = &body[..cut / 4 * 4];
        let wrapped = short.as_bytes().chunks(64).map(|c| String::from_utf8(c.to_vec()).unwrap());
        let wrapped: Vec<String> = wrapped.collect();
        let pem = format!("{}\n{}\n{}", lines[0], wrapped.join("\n"), lines[lines.len() - 1]);
        assert!(!cert_is_valid_at(&pem, Some(EXPIRED_FROM)));
    }
}

#[test]
fn other_documents_are_not_certificates() {
    let other = EXPIRED_CERT.replace("CERTIFICATE", "PUBLIC KEY");
    assert!(!cert_is_valid_at(&other, Some(EXPIRED_FROM)));
}

// A PEM document with these bytes, its base64 changed at the given places.
fn document(der: &[u8], broken_at: &[usize]) -> String {
    let mut body = STANDARD.encode(der).into_bytes();
    for &at in broken_at {
        body[at] = b'!';
    }
    let lines: Vec<String> =
        body.chunks(64).map(|line| String::from_utf8(line.to_vec()).unwrap()).collect();
    format!("-----BEGIN CERTIFICATE-----\n{}\n-----END CERTIFICATE-----", lines.join("\n"))
}

#[test]
fn what_follows_the_certificate_does_not_matter() {
    let body: String = EXPIRED_CERT.lines().filter(|line| !line.starts_with('-')).collect();
    let mut der = STANDARD.decode(body).unwrap();
    assert_eq!(der.len(), 700);
    let valid = |pem: &str| cert_is_valid_at(pem, Some(EXPIRED_FROM));
    assert!(valid(&document(&der, &[])));
    der.resize(960, 0);
    assert!(valid(&document(&der, &[])));
    // Nothing behind the fetched 768 bytes, 1024 symbols, is decoded; what stands before is.
    assert!(valid(&document(&der, &[1200])));
    assert!(valid(&document(&der, &[1024])));
    assert!(!valid(&document(&der, &[1023])));
    assert!(!valid(&document(&der, &[960])));
    assert!(!valid(&document(&der, &[0])));
    // Documents that end within a header, or within what it announces.
    for len in 1..40 {
        assert!(!valid(&document(&der[..len], &[])));
    }
    assert!(!valid(&document(&der[..699], &[])));
    assert!(!valid(&document(&[0x30, 0x84, 0, 0, 1], &[])));
}

fn getter(names: &[&str], id: Option<&str>) -> CcmAsTokenGetter {
    CcmAsTokenGetter::new(&CcmAsConfig {
        ccm_domain_names: names.iter().map(|name| name.to_string()).collect(),
        ccm_appconfig_id: id.map(str::to_owned),
    })
}

#[test]
fn valid_credential_is_reused() {
    let getter = getter(&["fortanix.com"], None);
    let mut cache = TokenCache::new();
    assert_eq!(getter.get_token(&mut cache), TokenStep::Attest);
    let issued = cache.store(VALID_CERT.to_string(), "key".to_string());
    assert_eq!(issued.cert_pem, VALID_CERT);
    assert_eq!(issued.key_pem, "key");
    assert_eq!(getter.get_token(&mut cache), TokenStep::Reuse(issued));
}

#[test]
fn expired_credential_is_attested_anew() {
    let getter = getter(&["fortanix.com"], None);
    let mut cache = TokenCache::new();
    let issued = cache.store(EXPIRED_CERT.to_string(), "key".to_string());
    assert_eq!(
        getter.get_token_at(&mut cache, Some(EXPIRED_UNTIL - 1)),
        TokenStep::Reuse(issued)
    );
    for now in [EXPIRED_UNTIL, EXPIRED_UNTIL + SECOND] {
        assert_eq!(getter.get_token_at(&mut cache, Some(now)), TokenStep::Attest);
        cache.attestation_failed();
    }
    assert_eq!(getter.get_token(&mut cache), TokenStep::Attest);
    cache.store("not a certificate".to_string(), "key".to_string());
    assert_eq!(getter.get_token(&mut cache), TokenStep::Attest);
}

#[test]
fn overlapping_calls_share_one_attestation() {
    let getter = getter(&["fortanix.com"], None);
    let mut cache = TokenCache::new();
    assert_eq!(getter.get_token(&mut cache), TokenStep::Attest);
    assert_eq!(getter.get_token(&mut cache), TokenStep::Wait);
    assert_eq!(getter.get_token(&mut cache), TokenStep::Wait);
    cache.attestation_failed();
    assert_eq!(getter.get_token(&mut cache), TokenStep::Attest);
    assert_eq!(getter.get_token(&mut cache), TokenStep::Wait);
    let issued = cache.store(VALID_CERT.to_string(), "key".to_string());
    assert_eq!(getter.get_token(&mut cache), TokenStep::Reuse(issued));
}

#[test]
fn certificate_is_asked_for_all_names() {
    let request = getter(&["fortanix.com", "example.com"], Some(" dEadbeef\n"))
        .attest_and_issue_cert()
        .unwrap();
    assert_eq!(request.alt_names, "fortanix.com,example.com");
    assert_eq!(request.appconfig_id, Some(vec![0xde, 0xad, 0xbe, 0xef]));
    let request = getter(&[], None).attest_and_issue_cert().unwrap();
    assert_eq!(request.alt_names, "");
    assert_eq!(request.appconfig_id, None);
}

#[test]
fn appconfig_id_must_be_hexadecimal() {
    for id in ["xyz", "abc", "0g"] {
        let error = getter(&[], Some(id)).attest_and_issue_cert().unwrap_err();
        assert_eq!(error.to_text(), "ccm_as: ccm_appconfig_id is not valid hex");
    }
    let error = getter(&[], Some("abc")).attest_and_issue_cert().unwrap_err();
    assert_eq!(error, AttestError::AppconfigId { cause: "Odd number of digits".to_string() });
}

#[test]
fn attester_follows_the_environment() {
    assert_eq!(attester_for(Tee::Snp), Ok(Attester::BaremetalSevSnp));
    assert_eq!(attester_for(Tee::Tdx), Ok(Attester::BaremetalTdx));
    let error = attester_for(Tee::Other("Sample".to_string())).unwrap_err();
    assert_eq!(error.to_text(), "ccm_as: unsupported TEE Sample");
}

#[test]
fn certificate_must_be_returned() {
    assert_eq!(issued_cert(Some("pem".to_string())), Ok("pem".to_string()));
    let error = issued_cert(None).unwrap_err();
    assert_eq!(error, AttestError::NoCertificate);
    assert_eq!(error.to_text(), "ccm_as: CCM returned no workload certificate");
}
