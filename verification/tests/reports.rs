use sha2::Digest;
use belarc_inventory::auth::{bearer_token, bootstrap_note, generate_password, hash_password, verify_password};
use belarc_inventory::commands::{
    cmd_output_text, collect_poll, force_agent_collect, open_firewall_port, probe_succeeded, ps_escape_v,
    run_uninstall_core, set_machine_env, step_outcome, verify_service_running, Check, CmdOutput, CollectState,
    Step,
};
use belarc_inventory::json::{Decimal, Json};
use belarc_inventory::markdown::{
    event_logs_to_markdown, format_scalar, incidents_to_markdown, json_to_markdown, performance_to_markdown,
    section_title_of, software_to_markdown,
};
use belarc_inventory::models::{
    hash_json, machine_fingerprint, new_id, AlertSeverity, CollectorResult, IncidentRecord, UtcTime,
};
use belarc_inventory::registry::{inventory_action, registration_action, InventoryAction, Registration};
use belarc_inventory::setup::{agent_server_url, ensure_ready_exe, existing_agent_decision, request_elevation_script, ExistingAgent, ReadyAction, Role};
use belarc_inventory::xlsx::{xlsx_bytes, xlsx_sheet};
use belarc_inventory::tickets::DbError;

fn s(v: &str) -> Json {
    Json::Str(v.to_string())
}

fn obj(fields: Vec<(&str, Json)>) -> Json {
    Json::Object(fields.into_iter().map(|(k, v)| (k.to_string(), v)).collect())
}

#[test]
fn scalars_as_the_report_shows_them() {
    assert_eq!(format_scalar(&Json::Null), "—");
    assert_eq!(format_scalar(&s("a\"b")), "a\"b");
    assert_eq!(format_scalar(&Json::Bool(true)), "true");
    assert_eq!(format_scalar(&Json::NegInt(-7)), "-7");
    assert_eq!(format_scalar(&Json::Array(vec![s("x"), Json::UInt(2)])), "[\"x\",2]");
    let f = Json::Float(Decimal { milli: 1500, frac: false }, "1.5".to_string(), "1.5".to_string());
    assert_eq!(format_scalar(&obj(vec![("k", f)])), "{\"k\":1.5}");
}

#[test]
fn nested_lists_and_long_arrays() {
    let v = obj(vec![("cpu", obj(vec![("name", s("i5")), ("cores", Json::UInt(4))])), ("ok", Json::Bool(false))]);
    assert_eq!(
        json_to_markdown(&v, 0),
        "- **cpu:**\n  - **name:** i5\n  - **cores:** 4\n- **ok:** false\n"
    );
    let items: Vec<Json> = (0..52).map(|i| Json::UInt(i)).collect();
    let md = json_to_markdown(&Json::Array(items), 1);
    assert!(md.starts_with("  - 0\n"));
    assert!(md.ends_with("  _… mais 2 itens omitidos._\n"));
    let listed = Json::Array(vec![obj(vec![("name", s("Chrome")), ("version", s("120"))])]);
    assert_eq!(json_to_markdown(&listed, 0), "- Chrome\n  - version: 120\n");
}

#[test]
fn software_section() {
    let data = obj(vec![
        ("program_count", Json::UInt(2)),
        ("browsers", Json::Array(vec![obj(vec![("name", s("Edge"))])])),
        ("standard_apps", Json::Array(vec![obj(vec![("label", s("ESET")), ("installed", Json::Bool(true))])])),
        ("programs", Json::Array(vec![obj(vec![("display_name", s("7-Zip")), ("version", s("23"))]), obj(vec![("name", Json::UInt(1))])])),
    ]);
    assert_eq!(
        software_to_markdown(&data),
        "- **Programas instalados:** 2\n\n- **Navegador:** Edge v—\n\n**Software padrão da empresa:**\n\n| Programa | Status |\n|----------|--------|\n| ESET | Instalado |\n\n**Amostra de programas (primeiros 2 de 2):**\n\n- 7-Zip v23\n- ?\n"
    );
}

#[test]
fn performance_section_lists_failures_only() {
    let rec = |id: u64, product: &str| obj(vec![("record_type_id", Json::UInt(id)), ("product", s(product)), ("time", s("t"))]);
    let data = obj(vec![
        ("cpu", obj(vec![("load_percent", Json::UInt(12))])),
        ("reliability_records", Json::Array(vec![rec(3, "ok"), rec(1, "Excel"), rec(4, "Word")])),
    ]);
    assert_eq!(
        performance_to_markdown(&data),
        "**CPU:** 12% de uso na coleta\n\n**Falhas recentes (Reliability Monitor):**\n- t — —: Excel\n- t — —: Word\n"
    );
}

#[test]
fn event_log_section() {
    let data = obj(vec![
        ("summary", obj(vec![("bsod", Json::UInt(1))])),
        ("bsod_events", Json::Array(vec![obj(vec![("time", s("ontem")), ("summary", s("0x50"))])])),
    ]);
    assert_eq!(
        event_logs_to_markdown(&data),
        "**Resumo (14 dias):**\n\n- **bsod:** 1\n\n**Eventos de estabilidade:**\n\n- ontem — 0x50\n\n"
    );
}

fn incident(title: &str) -> IncidentRecord {
    IncidentRecord {
        id: "i".to_string(),
        machine_id: "m".to_string(),
        category: "disk".to_string(),
        severity: AlertSeverity::Warning,
        title: title.to_string(),
        message: "msg".to_string(),
        metric_value: Some(Decimal { milli: 87260, frac: false }),
        threshold: None,
        recommendation: None,
        source_collector: "performance".to_string(),
        observed_at: UtcTime { secs: 0, nanos: 0 },
        first_seen: UtcTime { secs: 0, nanos: 0 },
        last_seen: UtcTime { secs: 0, nanos: 0 },
        occurrence_count: 3,
    }
}

#[test]
fn incident_log_shows_forty_rows() {
    assert_eq!(incidents_to_markdown(&[]), "");
    let one = incidents_to_markdown(&[incident("Disco cheio")]);
    assert!(one.contains("| 1970-01-01 00:00 | Disco cheio | Warning | msg | 87.3 | — | 3 |\n"));
    let many: Vec<IncidentRecord> = (0..45).map(|_| incident("x")).collect();
    let md = incidents_to_markdown(&many);
    assert_eq!(md.matches("| x |").count(), 40);
    assert!(md.ends_with("\n_… e mais 5 registros no dashboard._\n\n"));
}

#[test]
fn section_titles() {
    assert_eq!(section_title_of("event_logs"), "Eventos e BSOD");
    assert_eq!(section_title_of("custom"), "custom");
}

#[test]
fn json_hash_is_sha256_of_compact_text() {
    let h = hash_json(&obj(vec![("a", Json::UInt(1))]));
    let expected = format!("{:x}", sha2::Sha256::digest(b"{\"a\":1}"));
    assert_eq!(h, expected);
    assert_eq!(h.len(), 64);
}

#[test]
fn fingerprint_prefers_uuid_then_mac_then_serial() {
    let a = machine_fingerprint(Some(" abc "), None, Some("aa:bb-cc"), "PC1");
    let b = machine_fingerprint(Some("ABC"), Some("S1"), Some("AABBCC"), "PC2");
    assert_eq!(a, b);
    assert_eq!(a.len(), 64);
    let generic = machine_fingerprint(None, Some("To be filled by O.E.M."), None, "PC3");
    let by_host = machine_fingerprint(None, None, None, "PC3");
    assert_eq!(generic, by_host);
    let real = machine_fingerprint(None, Some("XYZ"), None, "PC3");
    assert_ne!(real, by_host);
}

#[test]
fn new_ids_differ() {
    let a = new_id();
    let b = new_id();
    assert_eq!(a.len(), 36);
    assert_ne!(a, b);
}

#[test]
fn bearer_tokens() {
    assert_eq!(bearer_token(Some("Bearer  abc ")).as_deref(), Some("abc"));
    assert_eq!(bearer_token(Some("bearer xyz")).as_deref(), Some("xyz"));
    assert_eq!(bearer_token(Some("Bearer ")), None);
    assert_eq!(bearer_token(Some("Basic abcdef")), None);
    assert_eq!(bearer_token(None), None);
}

#[test]
fn passwords() {
    let p = generate_password(14);
    assert_eq!(p.chars().count(), 14);
    assert!(p.chars().all(|c| c.is_ascii_alphanumeric() && !"IOl01".contains(c)));
    let h = hash_password("segredo").unwrap();
    assert_ne!(h, "segredo");
    assert!(verify_password("segredo", &h));
    assert!(!verify_password("outro", &h));
    assert!(!verify_password("segredo", "nao-e-hash"));
    assert!(bootstrap_note("ti", "pw", "2024").contains("Usuario: ti\r\nSenha: pw\r\n"));
}

#[test]
fn sheet_and_workbook() {
    let rows = vec![vec!["a<b".to_string(), "x&y".to_string()], vec!["z".to_string()]];
    let sheet = xlsx_sheet(&rows);
    assert!(sheet.contains("<row r=\"1\"><c r=\"A1\" t=\"inlineStr\"><is><t>a&lt;b</t></is></c><c r=\"B1\" t=\"inlineStr\"><is><t>x&amp;y</t></is></c></row>"));
    assert!(sheet.contains("<row r=\"2\"><c r=\"A2\""));
    let wide: Vec<String> = (0..28).map(|i| i.to_string()).collect();
    assert!(xlsx_sheet(&[wide]).contains("<c r=\"AB1\""));
    let bytes = xlsx_bytes(&rows).unwrap();
    assert_eq!(&bytes[0..2], b"PK");
    assert!(bytes.len() > 200);
}

fn output(success: bool, out: &str, err: &str) -> CmdOutput {
    CmdOutput {
        success,
        stdout: out.as_bytes().to_vec(),
        stderr: err.as_bytes().to_vec(),
        status: "exit code: 1".to_string(),
    }
}

#[test]
fn command_outcomes() {
    assert_eq!(cmd_output_text(&output(false, " out ", "  ")), "out");
    assert_eq!(cmd_output_text(&output(false, "out", " err ")), "err");
    assert_eq!(cmd_output_text(&output(false, "", "")), "codigo exit code: 1");
    let launch = Step { program: "x".to_string(), args: vec![], label: "x".to_string(), check: Check::Launch };
    assert_eq!(step_outcome(&launch, &Err("nao existe".to_string())), Err("x falhou: nao existe".to_string()));
    assert_eq!(step_outcome(&launch, &Ok(output(false, "", ""))), Ok(()));
    let strict = Step { program: "x".to_string(), args: vec![], label: "x".to_string(), check: Check::Success("p: ".to_string()) };
    assert_eq!(step_outcome(&strict, &Ok(output(false, "", "falhou"))), Err("p: falhou".to_string()));
    assert!(probe_succeeded(&Ok(output(true, "", ""))));
    assert!(!probe_succeeded(&Err("e".to_string())));
    assert!(verify_service_running(&Ok(output(true, "STATE : 4 Running", ""))));
    assert!(!verify_service_running(&Ok(output(true, "STATE : 1 STOPPED", ""))));
}

#[test]
fn command_plans() {
    let env = set_machine_env("BELARC_X", "1");
    assert_eq!(env[0].program, "setx");
    assert_eq!(env[0].args, vec!["BELARC_X", "1", "/M"]);
    let fw = open_firewall_port(8080);
    assert_eq!(fw.len(), 4);
    assert_eq!(fw[2].args[4], "name=Belarc Inventory TCP 8080");
    assert_eq!(fw[2].args[8], "localport=8080");
    assert_eq!(run_uninstall_core(true).len(), 6);
    assert_eq!(run_uninstall_core(false).len(), 2);
    assert_eq!(ps_escape_v("it's"), "it''s");
    let plan = force_agent_collect("C:\\Program Files\\BelarcInventory");
    assert_eq!(plan.exe, "C:\\Program Files\\BelarcInventory\\belarc-agent.exe");
    assert_eq!(plan.timeout_secs, 360);
    assert!(matches!(collect_poll(&plan, 10, None), CollectState::Wait));
    match collect_poll(&plan, 400, None) {
        CollectState::Kill(m) => assert_eq!(m, "coleta demorou mais de 360s"),
        _ => panic!("expected a kill"),
    }
    match collect_poll(&plan, 1, Some((false, Some(3)))) {
        CollectState::Done(Err(m)) => assert_eq!(m, "coleta terminou com erro (exit 3)"),
        _ => panic!("expected an error"),
    }
}

#[test]
fn setup_decisions() {
    assert_eq!(Role::Ti.title(), "Belarc TI Setup");
    assert_eq!(agent_server_url("http://192.0.2.10", true), "http://127.0.0.1:8080");
    assert_eq!(belarc_inventory::setup::listen_address(), "0.0.0.0:8080");
    assert_eq!(belarc_inventory::setup::default_server_url(), "http://192.0.2.10:8080");
    assert_eq!(agent_server_url("http://192.0.2.10", false), "http://192.0.2.10");
    let cfg = "server_url = \"http://127.0.0.1\"\nagent_token = \"t\"\n";
    assert!(matches!(existing_agent_decision(cfg, "HTTP://127.0.0.1", false), ExistingAgent::Keep));
    assert!(matches!(existing_agent_decision(cfg, "http://192.0.2.10", true), ExistingAgent::KeepLocal(_)));
    assert!(matches!(existing_agent_decision(cfg, "http://192.0.2.10", false), ExistingAgent::Refuse(_)));
    match existing_agent_decision("agent_token = \"abc\"\n", "http://x", false) {
        ExistingAgent::Rebuild(t) => assert_eq!(t.as_deref(), Some("abc")),
        _ => panic!("expected a rebuild"),
    }
    assert!(matches!(ensure_ready_exe("\\\\NAS\\Belarc\\BelarcPC.exe", true), ReadyAction::CopyToLocal));
    assert!(matches!(ensure_ready_exe("C:\\Temp\\BelarcPC.exe", false), ReadyAction::Elevate));
    assert_eq!(
        request_elevation_script("C:\\a'b.exe", &["--role".to_string(), "client pc".to_string()], false),
        "Start-Process -FilePath 'C:\\a''b.exe' -ArgumentList --role,'client pc' -Verb RunAs -Wait"
    );
}

#[test]
fn registrations_and_inventory() {
    assert!(matches!(registration_action(Some("m1".to_string()), Some("m2".to_string()), false), Ok(Registration::SameHardware(id)) if id == "m1"));
    assert!(matches!(registration_action(None, Some("m2".to_string()), false), Ok(Registration::SameToken(id)) if id == "m2"));
    assert!(matches!(registration_action(None, None, false), Err(DbError::InvalidToken)));
    assert!(matches!(registration_action(None, None, true), Ok(Registration::Enroll)));
    let c = CollectorResult {
        name: "os".to_string(),
        version: "1".to_string(),
        data: Json::Null,
        hash: "h2".to_string(),
        duration_ms: 0,
        error: None,
    };
    assert!(matches!(inventory_action(&c, Some("h2".to_string())), InventoryAction::Skip));
    match inventory_action(&c, Some("h1".to_string())) {
        InventoryAction::Store(Some((name, old))) => {
            assert_eq!(name, "os");
            assert_eq!(old, "h1");
        }
        _ => panic!("expected a store"),
    }
    assert!(matches!(inventory_action(&c, None), InventoryAction::Store(None)));
}

#[test]
fn fingerprint_keeps_identity_across_serial_host_case_and_separators() {
    let u = "4c4c4544-0042-3510-8052-b4c04f4b4d32";
    let a = machine_fingerprint(Some(u), Some("SN-1"), Some("aa:bb:cc:dd:ee:ff"), "PC-A");
    let b = machine_fingerprint(Some("4C4C4544-0042-3510-8052-B4C04F4B4D32"), None, Some("AA-BB-CC-DD-EE-FF"), "PC-B");
    assert_eq!(a, b);
    let c = machine_fingerprint(Some(u), Some("SN-1"), Some("aa:bb:cc:dd:ee:00"), "PC-A");
    assert_ne!(a, c);
}
