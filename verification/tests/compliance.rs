use belarc_inventory::alerts::build_alerts;
use belarc_inventory::compliance::{
    compute_score_breakdown, score_band, WEIGHT_CERTIFICATES, WEIGHT_SECURITY,
};
use belarc_inventory::json::{Decimal, Json};
use belarc_inventory::models::{
    BankingAppConfig, CollectorResult, CompanyProfile, MachineStatus, MachineSummary, ServerConfig,
    UiLabels, UtcTime,
};

fn s(v: &str) -> Json {
    Json::Str(v.to_string())
}

fn obj(fields: Vec<(&str, Json)>) -> Json {
    Json::Object(fields.into_iter().map(|(k, v)| (k.to_string(), v)).collect())
}

fn float(milli: i128, serde_text: &str, display: &str) -> Json {
    Json::Float(Decimal { milli, frac: false }, serde_text.to_string(), display.to_string())
}

fn collector(name: &str, data: Json) -> CollectorResult {
    CollectorResult {
        name: name.to_string(),
        version: "1".to_string(),
        data,
        hash: String::new(),
        duration_ms: 0,
        error: None,
    }
}

fn machine() -> MachineSummary {
    MachineSummary {
        id: "test-id".to_string(),
        hostname: "PC-TEST".to_string(),
        serial: None,
        status: MachineStatus::Online,
        logged_user: None,
        ip_address: None,
        uptime_seconds: Some(86400 * 3),
        last_seen: UtcTime { secs: 1_700_000_000, nanos: 0 },
        first_seen: UtcTime { secs: 1_700_000_000, nanos: 0 },
        health_score: None,
    }
}

fn base_hw() -> CollectorResult {
    collector(
        "hardware",
        obj(vec![
            (
                "physical_disks",
                Json::Array(vec![obj(vec![
                    ("health_status", s("Healthy")),
                    ("media_type", s("SSD")),
                ])]),
            ),
            (
                "logical_disks",
                Json::Array(vec![obj(vec![
                    ("letter", s("C")),
                    ("free_percent", float(40000, "40.0", "40")),
                ])]),
            ),
            ("ram", obj(vec![("total_gb", float(16000, "16.0", "16"))])),
        ]),
    )
}

fn base_sec() -> CollectorResult {
    collector(
        "security",
        obj(vec![
            (
                "eset",
                obj(vec![("installed", Json::Bool(true)), ("service_running", Json::Bool(true))]),
            ),
            ("firewall", obj(vec![("enabled", Json::Bool(true))])),
        ]),
    )
}

fn profile() -> CompanyProfile {
    CompanyProfile {
        company_name: "Empresa Demo".to_string(),
        project_tagline: "Inventário".to_string(),
        erp_name: "OperationsSuite".to_string(),
        erp_server_ip: "192.0.2.25".to_string(),
        inventory_server_ip: "192.0.2.10".to_string(),
        antivirus_name: "ESET".to_string(),
        banking_app: BankingAppConfig { id: "bank".to_string(), label: "Banco".to_string() },
        erp_branches: Vec::new(),
        ui: UiLabels {
            erp_user: "usuario".to_string(),
            erp_access_reference: "acesso".to_string(),
            erp_offline_warning: "ERP offline".to_string(),
            freeze_prone_description: "travamentos".to_string(),
            critical_apps_summary: "apps".to_string(),
        },
    }
}

#[test]
fn root_expired_certs_do_not_lower_score() {
    let certs = collector(
        "certificates",
        obj(vec![(
            "expired",
            Json::Array(vec![obj(vec![
                ("subject", s("CN=Baltimore CyberTrust Root")),
                ("issuer", s("CN=Baltimore CyberTrust Root")),
                ("store", s("Cert:\\LocalMachine\\Root")),
                ("has_private_key", Json::Bool(false)),
                ("thumbprint", s("abc")),
            ])]),
        )]),
    );
    let bd = compute_score_breakdown(&machine(), &[certs, base_hw(), base_sec()]);
    assert_eq!(bd.certificates, WEIGHT_CERTIFICATES);
    assert!(bd.total >= 75);
}

#[test]
fn expired_ecnpj_lowers_cert_score_only() {
    let certs = collector(
        "certificates",
        obj(vec![(
            "expired",
            Json::Array(vec![obj(vec![
                (
                    "subject",
                    s("CN=FABRIKAM EQUIPAMENTOS LTDA:17211893000117, OU=RFB e-CNPJ A1, O=ICP-Brasil"),
                ),
                ("store", s("Cert:\\LocalMachine\\My")),
                ("has_private_key", Json::Bool(true)),
                ("thumbprint", s("xyz")),
            ])]),
        )]),
    );
    let bd = compute_score_breakdown(&machine(), &[certs, base_hw(), base_sec()]);
    assert_eq!(bd.certificates, WEIGHT_CERTIFICATES.saturating_mul(40).saturating_div(100));
    assert!(bd.total >= 90);
}

#[test]
fn self_signed_does_not_generate_alert_or_score_hit() {
    let make = || {
        collector(
            "certificates",
            obj(vec![(
                "expired",
                Json::Array(vec![obj(vec![
                    ("subject", s("CN=projeto2-william")),
                    ("issuer", s("CN=projeto2-william")),
                    ("store", s("Cert:\\LocalMachine\\Root")),
                    ("has_private_key", Json::Bool(true)),
                    ("thumbprint", s("ss1")),
                    ("days_left", Json::NegInt(-10)),
                ])]),
            )]),
        )
    };
    let bd = compute_score_breakdown(&machine(), &[make(), base_hw(), base_sec()]);
    assert_eq!(bd.certificates, WEIGHT_CERTIFICATES);
    let alerts = build_alerts(
        &machine(),
        &[make(), base_hw(), base_sec()],
        &ServerConfig::default(),
        None,
        &profile(),
    );
    assert!(!alerts.iter().any(|a| a.category == "certificate"));
}

#[test]
fn eset_active_firewall_off_minor_penalty() {
    let sec = collector(
        "security",
        obj(vec![
            (
                "eset",
                obj(vec![("installed", Json::Bool(true)), ("service_running", Json::Bool(true))]),
            ),
            ("firewall", obj(vec![("enabled", Json::Bool(false))])),
        ]),
    );
    let bd = compute_score_breakdown(&machine(), &[base_hw(), sec]);
    assert_eq!(bd.security, WEIGHT_SECURITY.saturating_sub(2));
}

#[test]
fn score_stays_within_weights_on_sample_machine() {
    let bd = compute_score_breakdown(&machine(), &[base_hw(), base_sec()]);
    let sum = bd.smart_disk as u32
        + bd.security as u32
        + bd.windows_update as u32
        + bd.critical_events as u32
        + bd.disk_free as u32
        + bd.temperature as u32
        + bd.certificates as u32;
    assert!(bd.total <= 100);
    assert!(sum <= 100);
    assert_eq!(bd.band, score_band(bd.total));
}

#[test]
fn band_thresholds() {
    assert_eq!(score_band(100), score_band(90));
    assert_ne!(score_band(90), score_band(89));
    assert_ne!(score_band(0), score_band(100));
}

#[test]
fn no_collectors_alerts_are_unique_per_category_and_message() {
    let alerts = build_alerts(&machine(), &[], &ServerConfig::default(), None, &profile());
    for (i, a) in alerts.iter().enumerate() {
        for b in alerts.iter().skip(i + 1) {
            assert!(!(a.category == b.category && a.message == b.message));
        }
    }
}
