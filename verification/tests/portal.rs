use belarc_inventory::agent::{agent_config_path, pending_endpoint, portal_url, DevicePortalSession};
use belarc_inventory::commands::{
    agent_install_needs_fallback, create_shortcuts, install_agent_service, install_server_task_as,
    install_ticket_portal_shortcut, manifest_sha256, setup_manifest, step_outcome, Check, CmdOutput, Step,
};
use belarc_inventory::json::Json;
use belarc_inventory::models::{profile_candidates, UtcTime};
use belarc_inventory::nas::{
    chamados_index, chamados_index_at, complete_nas_meta, description_from_md, nas_folder_kind, nas_import_action, nas_meta_at,
    nas_meta, rfc3339_newer, ticket_description_md, NasEntry, NasFolder, NasImport,
};
use belarc_inventory::portal::{
    active_only, check_archive_department, check_new_user_record, check_new_user_request, device_display_name,
    device_portal_account, portal_me, routing_departments,
};
use belarc_inventory::models::CollectorResult;
use belarc_inventory::registry::{
    consume_enrollment, dedupe_plan, enrollment_valid, inventory_identity, Dedupe, EnrollmentToken, MachineIdentity,
};
use belarc_inventory::setup::Role;
use belarc_inventory::tickets::{ApiError, DbError, NasSyncStats, NasTicketMeta, PortalUser, Ticket};
use belarc_inventory::workflow::{
    can_read_ticket, changed_checklist_item, check_attach, check_checklist_add, check_checklist_change,
    download_headers, new_checklist_item, plan_comment, TicketCaller,
};

fn ticket(status: &str) -> Ticket {
    Ticket {
        id: "t1".to_string(),
        code: "CHM-20240101-001".to_string(),
        machine_id: "m1".to_string(),
        hostname_snapshot: Some("PC-01".to_string()),
        owner_name_snapshot: Some("Ana".to_string()),
        title: "Impressora".to_string(),
        description: Some("Impressora sem toner".to_string()),
        status: status.to_string(),
        priority: "normal".to_string(),
        department: "ti".to_string(),
        requester_user_id: Some("u1".to_string()),
        created_by: Some("portal".to_string()),
        assignee: None,
        nas_path: None,
        created_at: "2024-01-01T10:00:00+00:00".to_string(),
        updated_at: "2024-01-01T11:00:00+00:00".to_string(),
        closed_at: None,
        rating: Some(5),
        rating_comment: None,
        reopen_pending: false,
        reopen_reason: None,
        reopen_requested_at: None,
        last_reopen_reason: None,
        resolution: None,
        attachments: Vec::new(),
        comments: Vec::new(),
        checklist: Vec::new(),
    }
}

fn user(role: &str, hash: &str, department: Option<&str>) -> PortalUser {
    PortalUser {
        id: "u1".to_string(),
        username: "ana".to_string(),
        display_name: "Ana".to_string(),
        password_hash: hash.to_string(),
        role: role.to_string(),
        department: department.map(|d| d.to_string()),
    }
}

fn meta() -> NasTicketMeta {
    NasTicketMeta {
        code: "  ".to_string(),
        machine_id: "m1".to_string(),
        hostname_snapshot: None,
        owner_name_snapshot: None,
        title: "Rede".to_string(),
        description: Some(" ".to_string()),
        status: "open".to_string(),
        priority: "normal".to_string(),
        created_by: None,
        assignee: None,
        created_at: "2024-01-01T10:00:00Z".to_string(),
        updated_at: Some(String::new()),
        closed_at: None,
        rating: None,
        rating_comment: None,
        reopen_pending: false,
        reopen_reason: None,
        reopen_requested_at: None,
        last_reopen_reason: None,
        resolution: None,
        nas_path: None,
        duration_min: None,
        attachments_count: None,
        comments_count: None,
    }
}

fn strs(v: &[&str]) -> Vec<String> {
    v.iter().map(|s| s.to_string()).collect()
}

fn now() -> UtcTime {
    UtcTime { secs: 1_704_110_400, nanos: 0 }
}

fn str_of(j: &Json) -> Option<&str> {
    match j {
        Json::Str(s) => Some(s.as_str()),
        _ => None,
    }
}

fn fields(j: &Json) -> &Vec<(String, Json)> {
    match j {
        Json::Object(f) => f,
        _ => panic!("not an object"),
    }
}

#[test]
fn nas_folders_by_name() {
    assert!(nas_folder_kind("CHM-20240101-001") == NasFolder::Ticket);
    assert!(nas_folder_kind("CHM-PC01-pend-7") == NasFolder::Outbox);
    assert!(nas_folder_kind("_index.json") == NasFolder::Other);
    assert!(nas_folder_kind("chm-20240101-001") == NasFolder::Other);
}

#[test]
fn description_is_the_last_paragraph() {
    assert_eq!(description_from_md("# T\n\n**Codigo:** X\n\n  Corpo do chamado \n").as_deref(), Some("Corpo do chamado"));
    assert_eq!(description_from_md("# T\n\n# Outro"), None);
    assert_eq!(description_from_md("# T\n\n\n"), None);
    assert_eq!(description_from_md("a\n\n\nb").as_deref(), Some("b"));
    assert_eq!(description_from_md("sem paragrafos").as_deref(), Some("sem paragrafos"));
}

#[test]
fn description_md_reads_back() {
    let t = ticket("open");
    let md = ticket_description_md(&t);
    assert_eq!(
        md,
        "# Impressora\n\n**Codigo:** CHM-20240101-001\n**Host:** PC-01\n**Responsavel:** Ana\n**Status:** open\n**Prioridade:** normal\n**Assignee:** -\n**Aberto:** 2024-01-01T10:00:00+00:00\n**Atualizado:** 2024-01-01T11:00:00+00:00\n**Fechado:** -\n**Resolucao:** -\n**Avaliacao:** 5\n\nImpressora sem toner\n"
    );
    assert_eq!(description_from_md(&md).as_deref(), Some("Impressora sem toner"));
}

#[test]
fn newer_compares_instants_then_text() {
    assert!(rfc3339_newer("2024-01-02T00:00:00Z", "2024-01-01T23:00:00Z"));
    assert!(!rfc3339_newer("2024-01-02T00:00:00Z", "2024-01-01T23:00:00-03:00"));
    assert!(!rfc3339_newer("2024-01-01T10:00:00Z", "2024-01-01T10:00:00Z"));
    assert!(rfc3339_newer("b", "a"));
    assert!(!rfc3339_newer("a", "b"));
}

#[test]
fn nas_copy_wins_only_when_newer() {
    let mut m = meta();
    m.updated_at = Some("2024-01-02T00:00:00Z".to_string());
    assert!(nas_import_action(&m, None) == NasImport::Import);
    assert!(nas_import_action(&m, Some("2024-01-01T00:00:00Z")) == NasImport::Update);
    assert!(nas_import_action(&m, Some("2024-01-03T00:00:00Z")) == NasImport::Keep);
}

#[test]
fn meta_is_completed_from_the_folder() {
    let m = complete_nas_meta(meta(), "CHM-20240101-009", Some("# Rede\n\n**Codigo:** x\n\nSem rede no setor\n"));
    assert_eq!(m.code, "CHM-20240101-009");
    assert_eq!(m.updated_at.as_deref(), Some("2024-01-01T10:00:00Z"));
    assert_eq!(m.description.as_deref(), Some("Sem rede no setor"));
    let kept = complete_nas_meta(meta(), "CHM-1", None);
    assert_eq!(kept.description.as_deref(), Some(" "));
}

#[test]
fn import_counts() {
    let mut s = NasSyncStats::default();
    s.record(NasEntry::Outbox);
    s.record(NasEntry::Imported);
    s.record(NasEntry::Unchanged);
    s.record(NasEntry::Failed);
    s.record(NasEntry::Updated);
    assert_eq!((s.scanned, s.imported, s.updated, s.skipped, s.errors), (4, 1, 1, 2, 1));
}

#[test]
fn meta_of_a_ticket() {
    let mut t = ticket("done");
    t.closed_at = Some("2024-01-01T12:30:00+00:00".to_string());
    let m = nas_meta_at(&t, "\\\\FILE-SHARE\\Portal\\Chamados\\CHM-20240101-001", now());
    assert_eq!(m.nas_path.as_deref(), Some("\\\\FILE-SHARE\\Portal\\Chamados\\CHM-20240101-001"));
    assert_eq!(m.duration_min, Some(150));
    assert_eq!(m.updated_at.as_deref(), Some("2024-01-01T11:00:00+00:00"));
    assert_eq!((m.attachments_count, m.comments_count), (Some(0), Some(0)));
}

#[test]
fn index_of_tickets() {
    let t = ticket("open");
    let j = chamados_index_at(&[t], "2024-01-01T12:00:00+00:00", now());
    let f = fields(&j);
    assert_eq!(f[0].0, "count");
    assert!(matches!(f[0].1, Json::UInt(1)));
    assert_eq!(str_of(&f[1].1), Some("2024-01-01T12:00:00+00:00"));
    let entries = match &f[2].1 {
        Json::Array(e) => e,
        _ => panic!("tickets"),
    };
    let e = fields(&entries[0]);
    let keys: Vec<&str> = e.iter().map(|(k, _)| k.as_str()).collect();
    assert_eq!(
        keys,
        vec!["assignee", "closed_at", "code", "duration_min", "hostname", "nas_path", "owner", "priority", "rating", "status", "title", "updated_at"]
    );
    assert!(matches!(e[0].1, Json::Null));
    assert!(matches!(e[3].1, Json::UInt(120)));
    assert!(matches!(e[8].1, Json::UInt(5)));
    let empty = chamados_index(&[], "agora");
    assert!(matches!(fields(&empty)[0].1, Json::UInt(0)));
    let m = nas_meta(&ticket("open"), "D:\\Chamados\\CHM-20240101-001");
    assert_eq!(m.nas_path.as_deref(), Some("D:\\Chamados\\CHM-20240101-001"));
    assert!(m.duration_min.unwrap() > 0);
}

fn identity(id: &str, uuid: &str, mac: &str) -> MachineIdentity {
    MachineIdentity {
        id: id.to_string(),
        machine_uuid: Some(uuid.to_string()),
        serial: None,
        mac_primary: Some(mac.to_string()),
        hostname: format!("PC-{id}"),
    }
}

#[test]
fn duplicates_fold_into_the_most_recent() {
    let ms = vec![
        identity("a", "1111", "AA:BB"),
        identity("b", "2222", "CC:DD"),
        identity("c", "1111", "aa-bb"),
    ];
    let plan = dedupe_plan(&ms);
    assert_eq!(plan.len(), 3);
    assert!(matches!(&plan[0], Dedupe::Keep { id, .. } if id == "a"));
    assert!(matches!(&plan[1], Dedupe::Keep { id, .. } if id == "b"));
    assert!(matches!(&plan[2], Dedupe::Merge { from, into } if from == "c" && into == "a"));
    let fp = |d: &Dedupe| match d {
        Dedupe::Keep { fingerprint, .. } => fingerprint.clone(),
        _ => String::new(),
    };
    assert_ne!(fp(&plan[0]), fp(&plan[1]));
    assert_eq!(fp(&plan[0]).len(), 64);
}

fn internal(e: ApiError) -> String {
    match e {
        ApiError::Internal(m) => m,
        _ => panic!("not internal"),
    }
}

fn conflict(e: ApiError) -> String {
    match e {
        ApiError::Conflict(m) => m,
        _ => panic!("not conflict"),
    }
}

#[test]
fn routing_normalises_and_checks() {
    let active = strs(&["ti", "desenho"]);
    assert_eq!(routing_departments(&strs(&["TI", "Desenho", "ti"]), &active).ok().unwrap(), strs(&["ti", "desenho"]));
    assert_eq!(internal(routing_departments(&strs(&["ti", "!!!"]), &active).err().unwrap()), "setor de recebimento invalido");
    assert_eq!(
        internal(routing_departments(&strs(&["projeto"]), &active).err().unwrap()),
        "setor de recebimento inexistente ou arquivado"
    );
    assert_eq!(active_only(&strs(&["projeto", "ti"]), &active), strs(&["ti"]));
}

#[test]
fn device_accounts() {
    assert_eq!(device_display_name(Some("  "), Some("joao"), "PC-01"), "joao");
    assert_eq!(device_display_name(Some("Maria"), Some("joao"), "PC-01"), "Maria");
    assert_eq!(device_display_name(None, None, "PC-01"), "Portal — PC-01");
    let a = device_portal_account("m1", &[], None);
    assert_eq!(a.password_hash, "device-session-only");
    assert_eq!(a.id.len(), 36);
    assert_eq!((a.username.as_str(), a.role, a.department), ("device-m1-portal", "requester", None));
    let b = device_portal_account("m1", &strs(&["desenho", "ti"]), Some(("u7".to_string(), "h7".to_string())));
    assert_eq!((b.id.as_str(), b.password_hash.as_str()), ("u7", "h7"));
    assert_eq!((b.role, b.department.as_deref()), ("sector_agent", Some("desenho")));
}

#[test]
fn portal_sessions_describe_themselves() {
    let me = portal_me(Some(user("sector_agent", "h", Some("desenho"))), Vec::new());
    assert!(me.authenticated && !me.can_open_ticket);
    assert_eq!(me.receive_departments, strs(&["desenho"]));
    let dev = portal_me(Some(user("sector_agent", "device-session-only", None)), strs(&["ti"]));
    assert!(dev.can_open_ticket);
    assert_eq!(dev.receive_departments, strs(&["ti"]));
    let none = portal_me(None, strs(&["ti"]));
    assert!(!none.authenticated && none.receive_departments.is_empty() && none.username.is_none());
}

#[test]
fn new_portal_accounts() {
    let active = strs(&["ti"]);
    assert_eq!(check_new_user_request("12345678", Some("TI"), &active).ok().unwrap().as_deref(), Some("ti"));
    assert_eq!(check_new_user_request("12345678", None, &active).ok().unwrap(), None);
    assert_eq!(internal(check_new_user_request("12345678", Some("desenho"), &active).err().unwrap()), "setor invalido ou arquivado");
    assert_eq!(internal(check_new_user_request("1234567", None, &active).err().unwrap()), "senha deve ter ao menos 8 caracteres");
    assert_eq!(check_new_user_request("çççç", None, &active).ok().unwrap(), None);
    let ok = check_new_user_record(" ana ", " Ana ", "requester", None).ok().unwrap();
    assert_eq!(ok, ("ana".to_string(), "Ana".to_string()));
    let msg = |e: DbError| match e {
        DbError::InvalidInput(m) => m,
        _ => panic!("not invalid input"),
    };
    assert_eq!(msg(check_new_user_record(" ", "Ana", "requester", None).err().unwrap()), "usuario e nome sao obrigatorios");
    assert_eq!(msg(check_new_user_record("ana", "Ana", "admin", None).err().unwrap()), "papel invalido");
    assert_eq!(msg(check_new_user_record("ana", "Ana", "sector_agent", None).err().unwrap()), "atendente precisa de setor");
    assert!(matches!(check_archive_department(None), Err(DbError::NotFound)));
    assert_eq!(msg(check_archive_department(Some(1)).err().unwrap()), "setor padrao nao pode ser arquivado");
    assert!(check_archive_department(Some(0)).is_ok());
}

fn args_of(s: &Step) -> Vec<&str> {
    s.args.iter().map(|a| a.as_str()).collect()
}

#[test]
fn server_task_accounts() {
    let steps = install_server_task_as("C:\\Program Files\\BelarcInventory", "0.0.0.0:80", None, Some(" svc "), Some("pw"));
    assert_eq!(steps.len(), 4);
    let tr = "cmd /c \"set BELARC_DATA_DIR=C:\\ProgramData\\BelarcInventoryServer&& set BELARC_LISTEN=0.0.0.0:80&& set BELARC_COMPANY_PROFILE=C:\\Program Files\\BelarcInventory\\config\\company-profile.json&& set BELARC_CHAMADOS_ROOT=\\\\FILE-SHARE\\Portal\\Chamados&& \"C:\\Program Files\\BelarcInventory\\belarc-server.exe\"\"";
    assert_eq!(
        args_of(&steps[2]),
        vec!["/Create", "/F", "/TN", "BelarcInventoryServer", "/TR", tr, "/SC", "ONSTART", "/RU", "svc", "/RP", "pw", "/RL", "HIGHEST"]
    );
    let system = install_server_task_as("C:\\X", "l", Some("\\\\NAS\\Chamados"), Some("  "), Some("pw"));
    assert_eq!(&args_of(&system[2])[8..], &["/RU", "SYSTEM", "/RL", "HIGHEST"]);
    assert!(args_of(&system[2])[5].contains("BELARC_CHAMADOS_ROOT=\\\\NAS\\Chamados&&"));
    let nopw = install_server_task_as("C:\\X", "l", None, Some("svc"), Some(""));
    assert_eq!(&args_of(&nopw[2])[8..], &["/RU", "svc", "/RL", "HIGHEST"]);
    assert_eq!(args_of(&steps[3]), vec!["/Run", "/TN", "BelarcInventoryServer"]);
}

fn output(success: bool, stdout: &str) -> CmdOutput {
    CmdOutput { success, stdout: stdout.as_bytes().to_vec(), stderr: Vec::new(), status: "exit code: 1".to_string() }
}

#[test]
fn agent_service_installation() {
    let plan = install_agent_service("C:\\A\\belarc-agent.exe", "http://10.0.0.1", "tok");
    assert_eq!(plan.config_path, "C:\\ProgramData\\BelarcInventory\\config.toml");
    assert_eq!(
        plan.config_text,
        "server_url = \"http://10.0.0.1\"\nagent_token = \"tok\"\nheartbeat_interval_seconds = 180\nt1_interval_seconds = 21600\nt2_interval_seconds = 86400\n"
    );
    assert_eq!(plan.install.program, "C:\\A\\belarc-agent.exe");
    assert_eq!(
        step_outcome(&plan.install, &Err("nao encontrado".to_string())).err().unwrap(),
        "belarc-agent install falhou: nao encontrado"
    );
    assert!(agent_install_needs_fallback(&Ok(output(false, ""))));
    assert!(!agent_install_needs_fallback(&Ok(output(true, ""))));
    assert!(!agent_install_needs_fallback(&Err("x".to_string())));
    assert!(plan.fallback.args[4].contains("-BinaryPathName '\"C:\\A\\belarc-agent.exe\" service'"));
    assert_eq!(step_outcome(&plan.fallback, &Ok(output(false, "negado"))).err().unwrap(), "New-Service: negado");
}

#[test]
fn ticket_shortcut() {
    assert_eq!(
        install_ticket_portal_shortcut("C:\\A\\belarc-agent.exe", false, None).err().unwrap(),
        "belarc-agent.exe nao encontrado para criar atalho de chamados"
    );
    let s = install_ticket_portal_shortcut("C:\\O'Brien\\belarc-agent.exe", true, Some("C:\\O'Brien")).ok().unwrap();
    assert!(s.args[4].contains("$shortcut.TargetPath = 'C:\\O''Brien\\belarc-agent.exe'"));
    assert!(s.args[4].contains("$shortcut.WorkingDirectory = 'C:\\O''Brien'"));
    assert!(matches!(&s.check, Check::Prefixed(p) if p == "atalho Chamados Serviços: "));
    assert_eq!(step_outcome(&s, &Err("sem shell".to_string())).err().unwrap(), "atalho Chamados Serviços: sem shell");
}

#[test]
fn setup_shortcuts_and_manifest() {
    let c = create_shortcuts("C:\\T\\ChamadosServicosTI-v2.exe", Some("C:\\T"), "C:\\T\\i.ico", "http://s", Role::Client);
    assert!(c.args[4].contains("'Chamados Serviços TI.lnk'"));
    assert!(!c.args[4].contains("Painel TI"));
    let t = create_shortcuts("C:\\T\\x.exe", None, "C:\\T\\i.ico", "http://s", Role::Ti);
    assert!(t.args[4].contains("$panel.Arguments = 'http://s'"));
    assert!(t.args[4].contains("$tickets.WorkingDirectory = 'C:\\Program Files\\BelarcInventory'"));
    assert_eq!(step_outcome(&t, &Err("x".to_string())).err().unwrap(), "criação de atalhos falhou: x");
    let sha = manifest_sha256(&Ok(output(true, "SHA256 hash of file:\r\nab12 cd\r\nCertUtil: ok\r\n")));
    assert_eq!(sha, "ab12 cd");
    assert_eq!(manifest_sha256(&Ok(output(true, "one line"))), "");
    assert_eq!(manifest_sha256(&Err("x".to_string())), "");
    let m = setup_manifest(Role::Ti, "http://s", "C:\\T\\x.exe", "ab12");
    let f = fields(&m);
    assert!(matches!(f[0].1, Json::Bool(true)));
    assert_eq!(str_of(&f[1].1), Some("ti"));
    assert_eq!(f[3].0, "ticket_executable");
}

#[test]
fn agent_urls_and_paths() {
    let s = DevicePortalSession { token: "abc".to_string(), portal_path: "/cliente.html".to_string() };
    assert_eq!(portal_url("http://srv", &s), "http://srv/cliente.html?v=portal-autenticado-v2#access_token=abc");
    assert_eq!(pending_endpoint("http://srv", "heartbeat").as_deref(), Some("http://srv/api/heartbeat"));
    assert_eq!(pending_endpoint("http://srv", "inventory").as_deref(), Some("http://srv/api/inventory"));
    assert_eq!(pending_endpoint("http://srv", "other"), None);
    assert_eq!(agent_config_path(None), "C:\\ProgramData\\BelarcInventory\\config.toml");
    assert_eq!(agent_config_path(Some("D:\\Data\\")), "D:\\Data\\BelarcInventory\\config.toml");
    assert_eq!(
        profile_candidates(Some("X:\\p.json"), Some("C:\\B")),
        strs(&["X:\\p.json", "C:\\B\\config\\company-profile.json", "C:\\B\\company-profile.json", "config/company-profile.json"])
    );
    assert_eq!(profile_candidates(None, None), strs(&["config/company-profile.json"]));
}

#[test]
fn who_reads_and_writes_in_a_ticket() {
    let t = ticket("open");
    let deps = strs(&["ti"]);
    assert!(can_read_ticket(&TicketCaller::Ti, &[], &t));
    assert!(can_read_ticket(&TicketCaller::Agent { machine_id: "m1".to_string() }, &[], &t));
    assert!(!can_read_ticket(&TicketCaller::Agent { machine_id: "m2".to_string() }, &[], &t));
    let mut other = user("requester", "h", None);
    other.id = "u9".to_string();
    assert!(!can_read_ticket(&TicketCaller::Portal(other), &[], &t));
    assert!(can_read_ticket(&TicketCaller::Portal(user("requester", "h", None)), &[], &t));

    let c = plan_comment(&TicketCaller::Agent { machine_id: "m1".to_string() }, &[], &t, "  ", true, None, None).ok().unwrap();
    assert_eq!((c.role, c.author_name.as_deref(), c.body.as_str()), ("user", Some("PC-01"), "Anexo enviado na conversa."));
    let ti = plan_comment(&TicketCaller::Ti, &[], &t, " ok ", false, Some("admin".to_string()), Some("x".to_string())).ok().unwrap();
    assert_eq!((ti.role, ti.author_name.as_deref(), ti.body.as_str()), ("ti", Some("admin"), "ok"));
    let sector = plan_comment(&TicketCaller::Portal(user("sector_agent", "h", Some("ti"))), &deps, &t, "visto", false, None, None)
        .ok()
        .unwrap();
    assert_eq!((sector.role, sector.author_name.as_deref()), ("sector", Some("Ana")));
    assert_eq!(
        internal(plan_comment(&TicketCaller::Ti, &[], &t, " ", false, None, None).err().unwrap()),
        "escreva uma mensagem ou anexe um arquivo"
    );
    let done = ticket("done");
    assert_eq!(
        conflict(plan_comment(&TicketCaller::Ti, &[], &done, "x", false, None, None).err().unwrap()),
        "chamado fechado — nao aceita novos comentarios"
    );
    assert!(matches!(
        plan_comment(&TicketCaller::Agent { machine_id: "m2".to_string() }, &[], &done, "x", false, None, None),
        Err(ApiError::Unauthorized)
    ));

    assert_eq!(check_checklist_add(&TicketCaller::Ti, &[], &t, " trocar toner ").ok().unwrap(), "trocar toner");
    assert_eq!(internal(check_checklist_add(&TicketCaller::Ti, &[], &t, " ").err().unwrap()), "item da checklist vazio");
    assert!(matches!(
        check_checklist_add(&TicketCaller::Portal(user("requester", "h", None)), &[], &t, "x"),
        Err(ApiError::Unauthorized)
    ));
    assert_eq!(conflict(check_checklist_add(&TicketCaller::Ti, &[], &done, "x").err().unwrap()), "chamado concluido — checklist bloqueada");
    assert!(matches!(
        check_checklist_change(&TicketCaller::Agent { machine_id: "m1".to_string() }, &[], &t),
        Err(ApiError::Unauthorized)
    ));
    assert!(check_checklist_change(&TicketCaller::Portal(user("sector_agent", "h", None)), &deps, &t).is_ok());
    assert_eq!(
        conflict(check_attach(&TicketCaller::Agent { machine_id: "m2".to_string() }, &[], &done).err().unwrap()),
        "chamado concluido — anexos bloqueados"
    );
    assert!(matches!(check_attach(&TicketCaller::Agent { machine_id: "m2".to_string() }, &[], &t), Err(ApiError::Unauthorized)));
    assert!(check_attach(&TicketCaller::Ti, &[], &t).is_ok());
}

#[test]
fn attachments_are_served_inline() {
    let (ct, disp) = download_headers("foto \"1\"\r\n.PNG");
    assert_eq!(ct, "image/png");
    assert_eq!(disp, "inline; filename=\"foto 1__.PNG\"");
    assert_eq!(download_headers("notas").0, "application/octet-stream");
}

#[test]
fn checklist_items() {
    match new_checklist_item("t1", " ", None, "agora") {
        Err(DbError::InvalidInput(m)) => assert_eq!(m, "item vazio"),
        _ => panic!("blank label"),
    }
    let first = new_checklist_item("t1", " trocar toner ", None, "2024-01-01T10:00:00+00:00").ok().unwrap();
    assert_eq!((first.label.as_str(), first.sort_order, first.done), ("trocar toner", 0, false));
    assert_eq!(first.id.len(), 36);
    let next = new_checklist_item("t1", "testar", Some(4), "agora").ok().unwrap();
    assert_eq!(next.sort_order, 5);
    let done = changed_checklist_item(first, Some(true), Some("  "), "depois");
    assert_eq!((done.label.as_str(), done.done, done.updated_at.as_str()), ("trocar toner", true, "depois"));
    let renamed = changed_checklist_item(done, None, Some(" novo "), "fim");
    assert_eq!((renamed.label.as_str(), renamed.done), ("novo", true));
}

fn collector(name: &str, data: Json) -> CollectorResult {
    CollectorResult {
        name: name.to_string(),
        version: "1.0.0".to_string(),
        data,
        hash: String::new(),
        duration_ms: 0,
        error: None,
    }
}

#[test]
fn identity_refreshes_the_machine() {
    assert!(inventory_identity(&[collector("os", Json::Null)]).is_none());
    let data = Json::Object(vec![
        ("ip_address".to_string(), Json::Str("10.0.0.9".to_string())),
        ("logged_user".to_string(), Json::Str("ana".to_string())),
        ("uptime_seconds".to_string(), Json::UInt(3600)),
    ]);
    let u = inventory_identity(&[collector("os", Json::Null), collector("identity", data)]).unwrap();
    assert_eq!(u.logged_user.as_deref(), Some("ana"));
    assert_eq!(u.ip_address.as_deref(), Some("10.0.0.9"));
    assert_eq!(u.uptime_seconds, Some(3600));
    let primary = Json::Object(vec![
        ("ip_address".to_string(), Json::Str("10.0.0.9".to_string())),
        ("ip_primary".to_string(), Json::Str("10.0.0.1".to_string())),
    ]);
    let p = inventory_identity(&[collector("identity", primary)]).unwrap();
    assert_eq!(p.ip_address.as_deref(), Some("10.0.0.1"));
    assert_eq!((p.logged_user, p.uptime_seconds), (None, None));
}

#[test]
fn enrollment_tokens_are_single_use() {
    let t = EnrollmentToken { active: true, expires_at: "2024-01-02T10:00:00+00:00".to_string(), consumed_at: None };
    assert!(enrollment_valid(Some(&t), "2024-01-01T10:00:00+00:00"));
    assert!(!enrollment_valid(Some(&t), "2024-01-02T10:00:00+00:00"));
    assert!(!enrollment_valid(None, "2024-01-01T10:00:00+00:00"));
    let used = consume_enrollment(t, "2024-01-01T11:00:00+00:00");
    assert_eq!(used.consumed_at.as_deref(), Some("2024-01-01T11:00:00+00:00"));
    assert!(!enrollment_valid(Some(&used), "2024-01-01T10:00:00+00:00"));
}
