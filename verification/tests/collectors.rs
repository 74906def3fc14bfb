use belarc_inventory::agent::{
    collector_out_name, collector_output_text, collector_parsed, collector_run_outcome, collector_step, CollectorError,
    COLLECTOR_VERSION,
};
use belarc_inventory::commands::CmdOutput;
use belarc_inventory::json::Json;

fn run(success: bool, stdout: &[u8], stderr: &[u8]) -> CmdOutput {
    CmdOutput { success, stdout: stdout.to_vec(), stderr: stderr.to_vec(), status: "exit code: 1".to_string() }
}

#[test]
fn collector_command_writes_utf8_file() {
    let s = collector_step("C:\\Agent\\collectors\\o'neil.ps1", "C:\\Temp\\belarc-os-1.json");
    assert_eq!(s.program, "powershell");
    assert_eq!(&s.args[..5], &["-NoProfile", "-NonInteractive", "-ExecutionPolicy", "Bypass", "-Command"]);
    assert_eq!(
        s.args[5],
        "$OutputEncoding = [Console]::OutputEncoding = [System.Text.UTF8Encoding]::new($false); $out = & 'C:\\Agent\\collectors\\o''neil.ps1' | Out-String; [System.IO.File]::WriteAllText('C:\\Temp\\belarc-os-1.json', $out.Trim(), [System.Text.UTF8Encoding]::new($false))"
    );
    let name = collector_out_name("os");
    assert!(name.starts_with("belarc-os-") && name.ends_with(".json"));
    assert_eq!(name.len(), "belarc-os-".len() + 36 + ".json".len());
}

#[test]
fn collector_outcomes() {
    match collector_run_outcome("os", &Err("no powershell".to_string()), 5) {
        Err(CollectorError::Execution(m)) => assert_eq!(m, "no powershell"),
        _ => panic!("execution error expected"),
    }
    assert!(matches!(collector_run_outcome("os", &Ok(run(true, b"", b"")), 5), Ok(None)));
    let failed = collector_run_outcome("os", &Ok(run(false, b"", &[0xFF, 0xFE, b'x', 0, b'!', 0])), 7).ok().unwrap().unwrap();
    assert_eq!(failed.error.as_deref(), Some("x!"));
    assert_eq!(failed.version, COLLECTOR_VERSION);
    assert_eq!(failed.duration_ms, 7);
    assert!(matches!(&failed.data, Json::Object(f) if f.is_empty()));
    assert_eq!(failed.hash, "44136fa355b3678a1146ad16f7e8649e94fb4fc21fe77e8310c060f61caaff8a");
}

#[test]
fn collector_output_and_parse() {
    assert_eq!(collector_output_text(Some("{}".to_string()), b"ignored"), "{}");
    assert_eq!(collector_output_text(None, b"plain"), "plain");
    let ok = collector_parsed("os", Ok(Json::Object(Vec::new())), "{}", 3).ok().unwrap();
    assert_eq!(ok.name, "os");
    assert!(ok.error.is_none());
    assert_eq!(ok.hash, "44136fa355b3678a1146ad16f7e8649e94fb4fc21fe77e8310c060f61caaff8a");
    let long = "x".repeat(250);
    match collector_parsed("os", Err("expected value at line 1 column 1".to_string()), &long, 3) {
        Err(CollectorError::Json(m)) => {
            assert_eq!(m, format!("expected value at line 1 column 1: {}", "x".repeat(200)));
        }
        _ => panic!("json error expected"),
    }
}
