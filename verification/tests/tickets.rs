use belarc_inventory::attach::{attachment_on_record, decode_base64, leftover_entry, plan_attachment, AttachPlan};
use belarc_inventory::tickets::{
    next_ticket_code, sanitize_filename, ApiError, AttachRequest, DbError, PortalUser, Ticket,
    TicketAttachment, UpdateTicketRequest,
};
use belarc_inventory::models::UtcTime;
use belarc_inventory::workflow::{
    can_manage_ticket, close_ticket_record, decide_ticket_reopen, owner_snapshot, rate_ticket_record,
    request_reopen_record, update_ticket_record, validate_reopen, validate_reopen_request,
    validate_ticket_update, ReopenDecision, TicketCaller,
};

fn ticket(status: &str) -> Ticket {
    Ticket {
        id: "t1".to_string(),
        code: "CHM-20240101-001".to_string(),
        machine_id: "m1".to_string(),
        hostname_snapshot: Some("PC-01".to_string()),
        owner_name_snapshot: None,
        title: "Impressora".to_string(),
        description: None,
        status: status.to_string(),
        priority: "normal".to_string(),
        department: "ti".to_string(),
        requester_user_id: Some("u1".to_string()),
        created_by: Some("portal".to_string()),
        assignee: None,
        nas_path: None,
        created_at: "2024-01-01T10:00:00+00:00".to_string(),
        updated_at: "2024-01-01T10:00:00+00:00".to_string(),
        closed_at: None,
        rating: None,
        rating_comment: None,
        reopen_pending: false,
        reopen_reason: None,
        reopen_requested_at: None,
        last_reopen_reason: None,
        resolution: None,
        attachments: Vec::new(),
        comments: Vec::new(),
        checklist: Vec::new(),
    }
}

fn requester() -> PortalUser {
    PortalUser {
        id: "u1".to_string(),
        username: "ana".to_string(),
        display_name: "Ana".to_string(),
        password_hash: "x".to_string(),
        role: "requester".to_string(),
        department: None,
    }
}

fn no_change() -> UpdateTicketRequest {
    UpdateTicketRequest {
        title: None,
        description: None,
        status: None,
        priority: None,
        assignee: None,
        department: None,
    }
}

fn invalid_text(e: DbError) -> String {
    match e {
        DbError::InvalidInput(m) => m,
        _ => panic!("expected an invalid input"),
    }
}

#[test]
fn closed_ticket_refuses_changes_and_second_close() {
    let closed = close_ticket_record(ticket("open"), Some("  trocado toner  "), "2024-01-02T00:00:00+00:00").unwrap();
    assert_eq!(closed.status, "done");
    assert_eq!(closed.resolution.as_deref(), Some("trocado toner"));
    assert_eq!(closed.closed_at.as_deref(), Some("2024-01-02T00:00:00+00:00"));
    match validate_ticket_update(true, true, &closed, &no_change()) {
        Err(ApiError::Conflict(m)) => assert_eq!(m, "chamado concluido — alteracoes bloqueadas"),
        _ => panic!("expected a conflict"),
    }
    let again = close_ticket_record(closed, None, "2024-01-03T00:00:00+00:00");
    assert_eq!(invalid_text(again.err().unwrap()), "chamado ja esta concluido");
}

#[test]
fn ticket_is_rated_once_from_one_to_five() {
    let closed = close_ticket_record(ticket("open"), None, "n1").unwrap();
    let bad = rate_ticket_record(close_ticket_record(ticket("open"), None, "n1").unwrap(), 6, None, "n2");
    assert_eq!(invalid_text(bad.err().unwrap()), "rating deve ser 1 a 5");
    let open = rate_ticket_record(ticket("open"), 5, None, "n2");
    assert_eq!(invalid_text(open.err().unwrap()), "so e possivel avaliar chamado fechado");
    let rated = rate_ticket_record(closed, 4, Some("ok"), "n2").unwrap();
    assert_eq!(rated.rating, Some(4));
    assert_eq!(rated.rating_comment.as_deref(), Some("ok"));
    let second = rate_ticket_record(rated, 5, None, "n3");
    assert_eq!(invalid_text(second.err().unwrap()), "chamado ja avaliado");
}

#[test]
fn one_reopen_request_at_a_time() {
    let closed = close_ticket_record(ticket("open"), None, "n1").unwrap();
    let blank = request_reopen_record(close_ticket_record(ticket("open"), None, "n1").unwrap(), "   ", "n2");
    assert_eq!(invalid_text(blank.err().unwrap()), "motivo obrigatorio");
    let asked = request_reopen_record(closed, " voltou a falhar ", "n2").unwrap();
    assert!(asked.reopen_pending);
    assert_eq!(asked.reopen_reason.as_deref(), Some("voltou a falhar"));
    let again = request_reopen_record(asked, "de novo", "n3");
    assert_eq!(invalid_text(again.err().unwrap()), "ja existe pedido de reabertura pendente");
}

#[test]
fn reopening_undoes_closing() {
    let closed = close_ticket_record(ticket("open"), Some("feito"), "n1").unwrap();
    let asked = request_reopen_record(closed, "ainda falha", "n2").unwrap();
    let reopened = update_ticket_record(asked, None, None, Some("open"), None, None, "n3");
    assert_eq!(reopened.status, "open");
    assert!(reopened.closed_at.is_none());
    assert!(reopened.resolution.is_none());
    assert!(!reopened.reopen_pending);
    assert!(reopened.reopen_reason.is_none());
    assert_eq!(reopened.updated_at, "n3");
}

#[test]
fn closing_through_update_sets_closed_at_once() {
    let t = update_ticket_record(ticket("open"), Some("Novo"), None, Some("done"), None, Some("joao"), "n1");
    assert_eq!(t.closed_at.as_deref(), Some("n1"));
    assert_eq!(t.title, "Novo");
    assert_eq!(t.assignee.as_deref(), Some("joao"));
}

#[test]
fn update_validation_order() {
    let t = ticket("open");
    assert!(matches!(validate_ticket_update(false, true, &t, &no_change()), Err(ApiError::Unauthorized)));
    let mut req = no_change();
    req.status = Some("voando".to_string());
    match validate_ticket_update(true, true, &t, &req) {
        Err(ApiError::Internal(m)) => assert_eq!(m, "invalid status"),
        _ => panic!("expected invalid status"),
    }
    let mut req = no_change();
    req.department = Some("Financeiro".to_string());
    assert!(matches!(validate_ticket_update(true, false, &t, &req), Err(ApiError::Unauthorized)));
    let change = validate_ticket_update(true, true, &t, &req).ok().unwrap();
    assert_eq!(change.department.as_deref(), Some("financeiro"));
}

#[test]
fn portal_managers_are_the_receiving_departments() {
    let t = ticket("open");
    let caller = TicketCaller::Portal(requester());
    assert!(!can_manage_ticket(&caller, &["rh".to_string()], &t));
    assert!(can_manage_ticket(&caller, &["rh".to_string(), "ti".to_string()], &t));
    assert!(can_manage_ticket(&TicketCaller::Ti, &[], &t));
    assert!(!can_manage_ticket(&TicketCaller::Agent { machine_id: "m1".to_string() }, &[], &t));
}

#[test]
fn reopen_request_rules_for_callers() {
    let closed = close_ticket_record(ticket("open"), None, "n1").unwrap();
    match validate_reopen_request(&TicketCaller::Ti, &closed, "x") {
        Err(ApiError::Internal(m)) => assert_eq!(m, "pedido de reabertura e feito pelo usuario do PC"),
        _ => panic!("expected IT to be told"),
    }
    let other = TicketCaller::Agent { machine_id: "m2".to_string() };
    assert!(matches!(validate_reopen_request(&other, &closed, "x"), Err(ApiError::Unauthorized)));
    let plan = validate_reopen_request(&TicketCaller::Portal(requester()), &closed, " falhou ").ok().unwrap();
    assert_eq!(plan.reason, "falhou");
    assert_eq!(plan.comment, "[Pedido de reabertura] falhou");
    assert_eq!(plan.author.as_deref(), Some("Ana"));
    let agent = TicketCaller::Agent { machine_id: "m1".to_string() };
    let plan = validate_reopen_request(&agent, &closed, "falhou").ok().unwrap();
    assert_eq!(plan.author.as_deref(), Some("PC-01"));
}

#[test]
fn reopen_decisions() {
    let closed = close_ticket_record(ticket("open"), None, "n1").unwrap();
    match decide_ticket_reopen(&closed, true, "ok") {
        Err(ApiError::Conflict(m)) => assert_eq!(m, "nao ha pedido de reabertura pendente"),
        _ => panic!("expected a conflict"),
    }
    let asked = request_reopen_record(closed, "impressora", "n2").unwrap();
    match decide_ticket_reopen(&asked, true, " aprovado ").ok().unwrap() {
        ReopenDecision::Approve { card_reason, comment } => {
            assert_eq!(card_reason, "impressora");
            assert_eq!(comment, "[Reabertura aprovada] aprovado");
        }
        _ => panic!("expected an approval"),
    }
    match decide_ticket_reopen(&asked, false, "nao").ok().unwrap() {
        ReopenDecision::Refuse { comment } => assert_eq!(comment, "[Reabertura recusada] nao"),
        _ => panic!("expected a refusal"),
    }
    let plan = validate_reopen(&asked, "revisar", None).ok().unwrap();
    assert_eq!(plan.status, "open");
    assert_eq!(plan.comment, "[Reaberto pela TI] revisar");
    match validate_reopen(&asked, "revisar", Some("done")) {
        Err(ApiError::Internal(m)) => assert_eq!(m, "invalid status"),
        _ => panic!("expected invalid status"),
    }
}

#[test]
fn owner_snapshot_skips_blank_names() {
    assert_eq!(owner_snapshot(Some("  ".to_string()), Some("maria".to_string())).as_deref(), Some("maria"));
    assert_eq!(owner_snapshot(Some("Joao".to_string()), Some("maria".to_string())).as_deref(), Some("Joao"));
    assert_eq!(owner_snapshot(None, Some(" ".to_string())), None);
}

#[test]
fn next_code_is_above_the_days_highest() {
    // 2024-01-01T12:00:00Z
    let now = UtcTime { secs: 1_704_110_400, nanos: 0 };
    let codes = vec![
        "CHM-20240101-001".to_string(),
        "CHM-20240101-007".to_string(),
        "CHM-20231231-050".to_string(),
    ];
    assert_eq!(next_ticket_code(now, &codes).as_deref(), Some("CHM-20240101-008"));
    assert_eq!(next_ticket_code(now, &[]).as_deref(), Some("CHM-20240101-001"));
}

#[test]
fn safe_names_stay_in_the_folder() {
    assert_eq!(sanitize_filename("..\\..\\windows\\system32.dll"), "system32.dll");
    assert_eq!(sanitize_filename("C:/temp/relatório final.pdf"), "relat_rio_final.pdf");
    assert_eq!(sanitize_filename("pasta/"), "anexo.bin");
}

fn req(filename: &str, content: &str, stored: Option<&str>) -> AttachRequest {
    AttachRequest {
        filename: filename.to_string(),
        content_base64: content.to_string(),
        stored_name: stored.map(|s| s.to_string()),
    }
}

fn internal_text(e: ApiError) -> String {
    match e {
        ApiError::Internal(m) => m,
        _ => panic!("expected an internal error"),
    }
}

#[test]
fn attachment_requests() {
    assert_eq!(internal_text(plan_attachment(&req("  ", "", None)).err().unwrap()), "filename required");
    match plan_attachment(&req(" foto 1.png ", "  ", Some(" a/b.png "))).ok().unwrap() {
        AttachPlan::Register { filename, safe } => {
            assert_eq!(filename, "foto 1.png");
            assert_eq!(safe, "b.png");
        }
        _ => panic!("expected a registration"),
    }
    match plan_attachment(&req("a.txt", "aGVs\nbG8=", None)).ok().unwrap() {
        AttachPlan::Write { safe, bytes, .. } => {
            assert_eq!(safe, "a.txt");
            assert_eq!(bytes, b"hello".to_vec());
        }
        _ => panic!("expected a write"),
    }
    let bad = internal_text(plan_attachment(&req("a.txt", "!!!", None)).err().unwrap());
    assert!(bad.starts_with("base64: "));
    assert!(internal_text(plan_attachment(&req("a.txt", "====", None)).err().unwrap()).starts_with("base64: "));
}

#[test]
fn base64_with_and_without_padding() {
    assert_eq!(decode_base64("aGVsbG8=").unwrap(), b"hello".to_vec());
    assert_eq!(decode_base64("aGVsbG8").unwrap(), b"hello".to_vec());
    assert_eq!(decode_base64(" aGVs bG8= \r\n").unwrap(), b"hello".to_vec());
    assert!(decode_base64("a").is_err());
}

#[test]
fn attachments_on_record() {
    let existing = vec![TicketAttachment {
        id: "a1".to_string(),
        ticket_id: "t1".to_string(),
        filename: "foto.png".to_string(),
        stored_name: "foto.png".to_string(),
        created_at: "n".to_string(),
    }];
    assert!(attachment_on_record(&existing, "foto.png", None));
    assert!(attachment_on_record(&existing, "outro.png", Some("foto.png")));
    assert!(!attachment_on_record(&existing, "outro.png", None));
    let entries = vec!["x.txt".to_string(), "123_foto.png".to_string(), "foto.png".to_string()];
    assert_eq!(leftover_entry(&entries, "foto.png"), Some(1));
    assert_eq!(leftover_entry(&entries, "nada.png"), None);
}

#[test]
fn attachment_files_local_mirror_first() {
    let t = ticket("open");
    let files = belarc_inventory::tickets::attachment_file_candidates(
        "\\\\FILE-SHARE\\Portal\\Chamados",
        &t,
        "foto.png",
        "D:\\Data\\chamados-files",
    );
    assert_eq!(files[0], "D:\\Data\\chamados-files\\CHM-20240101-001\\attachments\\foto.png");
    assert_eq!(files[1], "\\\\FILE-SHARE\\Portal\\Chamados\\CHM-20240101-001\\attachments\\foto.png");
    let roots = belarc_inventory::tickets::attachment_root_candidates(
        "\\\\FILE-SHARE\\Portal\\Chamados",
        &t,
        "D:\\Data\\chamados-files",
    );
    assert_eq!(files.len(), roots.len());
    assert_eq!(roots.last().unwrap(), "D:\\Data\\chamados-files\\CHM-20240101-001");
    assert_eq!(
        roots,
        vec![
            "\\\\FILE-SHARE\\Portal\\Chamados\\CHM-20240101-001".to_string(),
            "\\\\192.0.2.11\\Portal\\Chamados\\CHM-20240101-001".to_string(),
            "D:\\Data\\chamados-files\\CHM-20240101-001".to_string(),
        ]
    );
}

#[test]
fn nas_attachment_path_ignores_stored_folder() {
    let mut t = ticket("open");
    let plain = belarc_inventory::tickets::nas_attachment_unc(&t, "sub/foto.png");
    assert_eq!(plain, "\\\\FILE-SHARE\\Portal\\Chamados\\CHM-20240101-001\\attachments\\foto.png");
    t.nas_path = Some("\\\\OTHER\\share\\x".to_string());
    assert_eq!(belarc_inventory::tickets::nas_attachment_unc(&t, "sub/foto.png"), plain);
}

#[test]
fn file_candidates_match_root_candidates() {
    let mut t = ticket("open");
    t.nas_path = Some("\\\\NAS2\\Tickets\\CHM-20240101-001".to_string());
    let root = "\\\\FILE-SHARE\\Portal\\Chamados";
    let local = "D:\\Data\\chamados-files";
    let roots = belarc_inventory::tickets::attachment_root_candidates(root, &t, local);
    let files = belarc_inventory::tickets::attachment_file_candidates(root, &t, "a.txt", local);
    assert_eq!(files.len(), roots.len());
    assert_eq!(files[0], "D:\\Data\\chamados-files\\CHM-20240101-001\\attachments\\a.txt");
    for (i, r) in roots[..roots.len() - 1].iter().enumerate() {
        assert_eq!(files[i + 1], format!("{r}\\attachments\\a.txt"));
    }
}
