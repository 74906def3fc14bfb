use belarc_inventory::alerts::{alert_rows_to_keep, resolve_alert, sync_machine_alerts, AlertRow};
use belarc_inventory::tickets::DbError;
use belarc_inventory::incidents::merge_incident;
use belarc_inventory::models::{AlertRecord, AlertSeverity, IncidentRecord, UtcTime};

fn at(secs: i64) -> UtcTime {
    UtcTime { secs, nanos: 0 }
}

fn incident(message: &str, seen: i64, severity: AlertSeverity) -> IncidentRecord {
    IncidentRecord {
        id: "inc-1".to_string(),
        machine_id: "m1".to_string(),
        category: "bsod".to_string(),
        severity,
        title: "Tela azul".to_string(),
        message: message.to_string(),
        metric_value: None,
        threshold: None,
        recommendation: None,
        source_collector: "event_logs".to_string(),
        observed_at: at(seen),
        first_seen: at(seen),
        last_seen: at(seen),
        occurrence_count: 1,
    }
}

#[test]
fn incidents_keep_their_history() {
    let first = merge_incident(None, incident("primeira", 100, AlertSeverity::Warning));
    assert_eq!(first.occurrence_count, 1);
    let second = merge_incident(Some(first), incident("segunda", 200, AlertSeverity::Critical));
    assert_eq!(second.occurrence_count, 2);
    assert_eq!(second.first_seen.secs, 100);
    assert_eq!(second.last_seen.secs, 200);
    assert_eq!(second.message, "segunda");
    assert!(second.severity == AlertSeverity::Critical);
    let third = merge_incident(Some(second), incident("terceira", 300, AlertSeverity::Info));
    assert_eq!((third.occurrence_count, third.first_seen.secs, third.observed_at.secs), (3, 100, 100));
}

fn row(machine: &str, category: &str, message: &str, resolved: bool) -> AlertRow {
    AlertRow {
        machine_id: machine.to_string(),
        category: category.to_string(),
        message: message.to_string(),
        resolved,
    }
}

#[test]
fn duplicate_open_alerts_keep_the_last() {
    let rows = vec![
        row("m1", "disk", "C: 95%", false),
        row("m1", "disk", "C: 95%", true),
        row("m2", "disk", "C: 95%", false),
        row("m1", "disk", "C: 95%", false),
        row("m1", "av", "off", false),
    ];
    assert_eq!(alert_rows_to_keep(&rows), vec![false, true, true, true, true]);
}

fn alert(id: &str, machine: &str, message: &str, resolved: bool) -> AlertRecord {
    AlertRecord {
        id: id.to_string(),
        machine_id: machine.to_string(),
        hostname: "PC".to_string(),
        severity: AlertSeverity::Warning,
        category: "disk".to_string(),
        message: message.to_string(),
        created_at: at(1),
        resolved,
    }
}

#[test]
fn resolved_alerts_stay_resolved() {
    let stored = vec![
        alert("a", "m1", "velho", false),
        alert("b", "m1", "resolvido", true),
        alert("c", "m2", "outro", false),
    ];
    let mut again = alert("b", "m1", "de novo", false);
    again.severity = AlertSeverity::Critical;
    let fresh = vec![again, alert("d", "m1", "novo", true)];
    let r = sync_machine_alerts(stored, "m1", fresh);
    let view: Vec<(&str, &str, bool)> = r.iter().map(|a| (a.id.as_str(), a.message.as_str(), a.resolved)).collect();
    assert_eq!(view, vec![("b", "de novo", true), ("c", "outro", false), ("d", "novo", false)]);
    assert!(r[0].severity == AlertSeverity::Critical);
}

#[test]
fn resolving_then_reporting_again() {
    let stored = vec![alert("a", "m1", "disco", false), alert("b", "m1", "av", false)];
    assert!(matches!(resolve_alert(vec![alert("a", "m1", "x", false)], "z"), Err(DbError::NotFound)));
    let resolved = resolve_alert(stored, "a").ok().unwrap();
    assert_eq!(resolved.iter().map(|a| a.resolved).collect::<Vec<_>>(), vec![true, false]);
    let again = sync_machine_alerts(resolved, "m1", vec![alert("a", "m1", "disco", false), alert("b", "m1", "av", false)]);
    let view: Vec<(&str, bool)> = again.iter().map(|a| (a.id.as_str(), a.resolved)).collect();
    assert_eq!(view, vec![("a", true), ("b", false)]);
}
