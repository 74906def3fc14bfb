use belarc_inventory::auth::{
    bootstrap_credentials, check_login, check_portal_login, hash_password, login_lookup_name, ti_session_active,
    ti_session_expiry,
};
use belarc_inventory::registry::{enrollment_expiry, enrollment_valid, expiry_after, issued_enrollment_token};
use belarc_inventory::models::{AlertRecord, AlertSeverity, UtcTime};
use belarc_inventory::portal::admin_receive_departments;
use belarc_inventory::stats::alerts_of_machine;
use belarc_inventory::tickets::{ApiError, PortalUser};

#[test]
fn it_logins() {
    assert_eq!(login_lookup_name("  ti ", "x").ok().unwrap(), "ti");
    assert!(matches!(login_lookup_name("  ", "x"), Err(ApiError::Unauthorized)));
    assert!(matches!(login_lookup_name("ti", ""), Err(ApiError::Unauthorized)));
    let hash = hash_password("segredo-123").ok().unwrap();
    let user = Some(("id1".to_string(), "ti".to_string(), hash.clone()));
    assert_eq!(check_login("segredo-123", user.clone()).ok().unwrap(), ("id1".to_string(), "ti".to_string()));
    assert!(matches!(check_login("errada", user), Err(ApiError::Unauthorized)));
    assert!(matches!(check_login("segredo-123", None), Err(ApiError::Unauthorized)));
    let portal = PortalUser {
        id: "u1".to_string(),
        username: "ana".to_string(),
        display_name: "Ana".to_string(),
        password_hash: hash,
        role: "requester".to_string(),
        department: None,
    };
    assert_eq!(check_portal_login("segredo-123", Some(portal)).ok().unwrap().id, "u1");
    let device = PortalUser {
        id: "u2".to_string(),
        username: "device-m1-portal".to_string(),
        display_name: "PC".to_string(),
        password_hash: "device-session-only".to_string(),
        role: "requester".to_string(),
        department: None,
    };
    assert!(matches!(check_portal_login("device-session-only", Some(device)), Err(ApiError::Unauthorized)));
}

#[test]
fn first_it_account() {
    assert!(bootstrap_credentials(1, None, None).is_none());
    let (u, p) = bootstrap_credentials(0, None, None).unwrap();
    assert_eq!(u, "ti");
    assert_eq!(p.chars().count(), 14);
    assert!(p.chars().all(|c| c.is_ascii_alphanumeric() && !"IOl01".contains(c)));
    assert_eq!(
        bootstrap_credentials(0, Some("admin".to_string()), Some("s3nha".to_string())),
        Some(("admin".to_string(), "s3nha".to_string()))
    );
}

#[test]
fn registration_update_keeps_routing_unless_given() {
    let active = vec!["ti".to_string(), "desenho".to_string()];
    let stored = vec!["desenho".to_string()];
    assert_eq!(admin_receive_departments(None, &active, stored.clone()).ok().unwrap(), stored);
    let asked = vec!["TI".to_string()];
    assert_eq!(admin_receive_departments(Some(&asked), &active, stored.clone()).ok().unwrap(), vec!["ti".to_string()]);
    let empty: Vec<String> = Vec::new();
    assert!(admin_receive_departments(Some(&empty), &active, stored).ok().unwrap().is_empty());
}

fn alert(id: &str, machine: &str) -> AlertRecord {
    AlertRecord {
        id: id.to_string(),
        machine_id: machine.to_string(),
        hostname: "PC".to_string(),
        severity: AlertSeverity::Warning,
        category: "disk".to_string(),
        message: "C: 95%".to_string(),
        created_at: UtcTime { secs: 0, nanos: 0 },
        resolved: false,
    }
}

#[test]
fn reports_show_their_machine_alerts() {
    let all = vec![alert("a", "m1"), alert("b", "m2"), alert("c", "m1")];
    let mine: Vec<String> = alerts_of_machine(all, "m1").into_iter().map(|a| a.id).collect();
    assert_eq!(mine, vec!["a".to_string(), "c".to_string()]);
}

#[test]
fn enrollment_token_lasts_a_day() {
    let now = UtcTime { secs: 0, nanos: 0 };
    let e = expiry_after(now, 24).unwrap();
    assert_eq!((e.secs, e.nanos), (86_400, 0));
    assert_eq!(enrollment_expiry(now), "1970-01-02T00:00:00+00:00");
    let later = UtcTime { secs: 1_700_000_000, nanos: 500_000_000 };
    assert_eq!(enrollment_expiry(later), "2023-11-15T22:13:20.500+00:00");
}

#[test]
fn expiry_out_of_range_is_empty() {
    assert!(expiry_after(UtcTime { secs: i64::MAX, nanos: 0 }, 1).is_none());
    assert_eq!(enrollment_expiry(UtcTime { secs: i64::MAX - 10, nanos: 0 }), "");
}

#[test]
fn it_session_lasts_twelve_hours() {
    let now = UtcTime { secs: 0, nanos: 0 };
    let expires = ti_session_expiry(now);
    assert_eq!(expires, "1970-01-01T12:00:00+00:00");
    assert!(ti_session_active(&expires, "1970-01-01T11:59:59+00:00"));
    assert!(!ti_session_active(&expires, "1970-01-01T12:00:00+00:00"));
    assert!(!ti_session_active(&expires, "1970-01-02T00:00:00+00:00"));
}

#[test]
fn issued_token_enrolls_for_a_day() {
    let t = issued_enrollment_token(UtcTime { secs: 0, nanos: 0 });
    assert!(t.active);
    assert!(t.consumed_at.is_none());
    assert_eq!(t.expires_at, "1970-01-02T00:00:00+00:00");
    assert!(enrollment_valid(Some(&t), "1970-01-01T00:00:00+00:00"));
    assert!(enrollment_valid(Some(&t), "1970-01-01T23:59:59+00:00"));
    assert!(!enrollment_valid(Some(&t), "1970-01-02T00:00:01+00:00"));
}

#[test]
fn stored_hash_is_bcrypt_text() {
    let h = hash_password("segredo-ti").unwrap();
    assert_eq!(h.len(), 60);
    assert!(h.starts_with("$2b$12$"));
    assert_ne!(h, "segredo-ti");
}
