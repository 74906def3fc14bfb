//! What the installer runs on Windows: each action is a list of commands, each with
//! the rule that decides what its outcome means. The installer runs the commands in
//! order and stops at the first outcome that is an error.

use vstd::prelude::*;
use crate::ext::{from_utf8_lossy, to_uppercase, upper_text, utf8_lossy};
use crate::text::{chars, contains, extend, extend_str, fmt_u64, nat_digits, to_string, trim, trim_v};
use crate::setup::Role;
use crate::winpath::{win_join, win_join_v};

verus! {

pub const SERVER_TASK: &'static str = "BelarcInventoryServer";
pub const AGENT_SERVICE: &'static str = "BelarcInventoryAgent";
pub const REPAIR_TASK: &'static str = "BelarcInventoryRepair";
pub const NAS_TASK_PRESENCE: &'static str = "BelarcInventoryNasPresence";
pub const NAS_TASK_FULL: &'static str = "BelarcInventoryNasFull";
pub const NAS_TASK_FULL_BOOT: &'static str = "BelarcInventoryNasFullBoot";
pub const NAS_TASK_IMPORT: &'static str = "BelarcInventoryNasImport";
pub const INSTALL_DIR: &'static str = "C:\\Program Files\\BelarcInventory";
pub const COMPANY_PROFILE: &'static str = "C:\\Program Files\\BelarcInventory\\config\\company-profile.json";
pub const SERVER_DATA: &'static str = "C:\\ProgramData\\BelarcInventoryServer";
pub const AGENT_DATA: &'static str = "C:\\ProgramData\\BelarcInventory";

/// What a finished command left: whether it succeeded, its output and its exit
/// status as the system writes it.
pub struct CmdOutput {
    pub success: bool,
    pub stdout: Vec<u8>,
    pub stderr: Vec<u8>,
    pub status: String,
}

/// The text that explains a command's outcome: its error output, else its standard
/// output (both trimmed), else its exit status.
pub open spec fn output_text(o: CmdOutput) -> Seq<char> {
    let out = trim(utf8_lossy(o.stdout@));
    let err = trim(utf8_lossy(o.stderr@));
    if err.len() > 0 {
        err
    } else if out.len() > 0 {
        out
    } else {
        "codigo "@ + o.status@
    }
}

pub fn cmd_output_text(o: &CmdOutput) -> (r: String)
    ensures
        r@ == output_text(*o),
{
    let out = trim_v(&chars(from_utf8_lossy(o.stdout.as_slice()).as_str()));
    let err = trim_v(&chars(from_utf8_lossy(o.stderr.as_slice()).as_str()));
    if err.len() > 0 {
        to_string(&err)
    } else if out.len() > 0 {
        to_string(&out)
    } else {
        let mut t = chars("codigo ");
        extend_str(&mut t, o.status.as_str());
        to_string(&t)
    }
}

/// What a command's outcome means for its action.
pub enum Check {
    /// Nothing: the outcome is ignored.
    Ignore,
    /// A command that could not be started stops the action.
    Launch,
    /// A command that could not be started, or that failed, stops the action; a
    /// failure is reported after this prefix.
    Success(String),
    /// As `Success`, with the error that kept the command from starting reported
    /// after the same prefix.
    Prefixed(String),
}

/// One command: the program, its arguments, the name it is reported by when it
/// cannot be started, and its check.
pub struct Step {
    pub program: String,
    pub args: Vec<String>,
    pub label: String,
    pub check: Check,
}

pub open spec fn step_view(s: Step) -> (Seq<char>, Seq<Seq<char>>) {
    (s.program@, crate::compliance::views(s.args@))
}

/// The outcome of a step given what running it gave (`Err`: the text of the error
/// that kept it from starting).
pub open spec fn step_outcome_spec(s: Step, r: Result<CmdOutput, String>) -> Result<(), Seq<char>> {
    match s.check {
        Check::Ignore => Ok(()),
        Check::Launch => match r {
            Err(e) => Err(s.label@ + " falhou: "@ + e@),
            Ok(_) => Ok(()),
        },
        Check::Success(prefix) => match r {
            Err(e) => Err(s.label@ + " falhou: "@ + e@),
            Ok(o) => if o.success {
                Ok(())
            } else {
                Err(prefix@ + output_text(o))
            },
        },
        Check::Prefixed(prefix) => match r {
            Err(e) => Err(prefix@ + e@),
            Ok(o) => if o.success {
                Ok(())
            } else {
                Err(prefix@ + output_text(o))
            },
        },
    }
}

pub fn step_outcome(s: &Step, r: &Result<CmdOutput, String>) -> (out: Result<(), String>)
    ensures
        match out {
            Ok(()) => step_outcome_spec(*s, *r) is Ok,
            Err(e) => step_outcome_spec(*s, *r) == Err::<(), Seq<char>>(e@),
        },
{
    let launch_error = |e: &String| -> (m: String)
        ensures
            m@ == s.label@ + " falhou: "@ + e@,
        {
            let mut t = chars(s.label.as_str());
            extend_str(&mut t, " falhou: ");
            extend_str(&mut t, e.as_str());
            to_string(&t)
        };
    match &s.check {
        Check::Ignore => Ok(()),
        Check::Launch => match r {
            Err(e) => Err(launch_error(e)),
            Ok(_) => Ok(()),
        },
        Check::Success(prefix) => match r {
            Err(e) => Err(launch_error(e)),
            Ok(o) => {
                if o.success {
                    Ok(())
                } else {
                    let mut t = chars(prefix.as_str());
                    extend_str(&mut t, cmd_output_text(o).as_str());
                    Err(to_string(&t))
                }
            },
        },
        Check::Prefixed(prefix) => {
            let mut t = chars(prefix.as_str());
            match r {
                Err(e) => {
                    extend_str(&mut t, e.as_str());
                    Err(to_string(&t))
                },
                Ok(o) => {
                    if o.success {
                        Ok(())
                    } else {
                        extend_str(&mut t, cmd_output_text(o).as_str());
                        Err(to_string(&t))
                    }
                },
            }
        },
    }
}

/// Whether a probe found what it looks for: it started and succeeded.
pub fn probe_succeeded(r: &Result<CmdOutput, String>) -> (b: bool)
    ensures
        b == (r matches Ok(o) && o.success),
{
    match r {
        Ok(o) => o.success,
        Err(_) => false,
    }
}

fn strs(items: &[&str]) -> (r: Vec<String>)
    ensures
        r@.len() == items@.len(),
        forall|k: int| 0 <= k < items@.len() ==> #[trigger] r@[k]@ == items@[k]@,
        forall|k: int| 0 <= k < items@.len() ==> #[trigger] crate::compliance::views(r@)[k] == items@[k]@,
{
    let mut out: Vec<String> = Vec::new();
    let mut i: usize = 0;
    while i < items.len()
        invariant
            i <= items@.len(),
            out@.len() == i,
            forall|k: int| 0 <= k < i ==> #[trigger] out@[k]@ == items@[k]@,
        decreases items@.len() - i,
    {
        let t = items[i].to_string();
        out.push(t);
        i = i + 1;
    }
    assert forall|k: int| 0 <= k < items@.len() implies #[trigger] crate::compliance::views(out@)[k] == items@[k]@ by {
        assert(out@[k]@ == items@[k]@);
    }
    out
}

fn step(program: &str, args: Vec<String>, check: Check) -> (r: Step)
    ensures
        r.program@ == program@,
        r.label@ == program@,
        r.args == args,
        r.check == check,
{
    Step { program: program.to_string(), args, label: program.to_string(), check }
}

/// `s` with each `'` doubled, for a PowerShell single-quoted string.
pub open spec fn ps_escape(s: Seq<char>) -> Seq<char>
    decreases s.len(),
{
    if s.len() == 0 {
        s
    } else if s.last() == '\'' {
        ps_escape(s.drop_last()) + "''"@
    } else {
        ps_escape(s.drop_last()).push(s.last())
    }
}

pub fn ps_escape_v(s: &str) -> (r: String)
    ensures
        r@ == ps_escape(s@),
{
    let v = chars(s);
    let mut out: Vec<char> = Vec::new();
    let mut i: usize = 0;
    assert(v@.take(0) =~= Seq::<char>::empty());
    while i < v.len()
        invariant
            i <= v@.len(),
            out@ == ps_escape(v@.take(i as int)),
        decreases v@.len() - i,
    {
        assert(v@.take(i + 1).drop_last() =~= v@.take(i as int));
        assert(v@.take(i + 1).last() == v@[i as int]);
        if v[i] == '\'' {
            out.push('\'');
            out.push('\'');
        } else {
            out.push(v[i]);
        }
        proof {
            reveal_strlit("''");
        }
        assert(out@ =~= ps_escape(v@.take(i + 1)));
        i = i + 1;
    }
    assert(v@.take(v@.len() as int) =~= v@);
    to_string(&out)
}

/// A PowerShell script run hidden; a failure stops the action with its output.
pub open spec fn hidden_args(script: Seq<char>) -> Seq<Seq<char>> {
    seq!["-NoProfile"@, "-ExecutionPolicy"@, "Bypass"@, "-WindowStyle"@, "Hidden"@, "-Command"@, script]
}

pub fn powershell_hidden(script: &str, check_it: bool) -> (r: Step)
    ensures
        r.program@ == "powershell.exe"@,
        r.label@ == "powershell"@,
        crate::compliance::views(r.args@) == hidden_args(script@),
        check_it ==> (r.check matches Check::Success(p) && p@ == ""@),
        !check_it ==> r.check is Ignore,
{
    let args = strs(&["-NoProfile", "-ExecutionPolicy", "Bypass", "-WindowStyle", "Hidden", "-Command", script]);
    proof {
        reveal_strlit("");
    }
    Step {
        program: "powershell.exe".to_string(),
        args,
        label: "powershell".to_string(),
        check: if check_it {
            Check::Success(String::new())
        } else {
            Check::Ignore
        },
    }
}

// ---------------------------------------------------------------------------
// Actions
// ---------------------------------------------------------------------------

/// Sets a machine-wide environment variable (`setx key value /M`).
pub fn set_machine_env(key: &str, value: &str) -> (r: Vec<Step>)
    ensures
        r@.len() == 1,
        step_view(r@[0]) == ("setx"@, seq![key@, value@, "/M"@]),
        r@[0].check is Launch,
{
    let s = step("setx", strs(&[key, value, "/M"]), Check::Launch);
    assert(crate::compliance::views(s.args@) =~= seq![key@, value@, "/M"@]);
    vec![s]
}

pub open spec fn firewall_rule(port: u16) -> Seq<char> {
    "Belarc Inventory TCP "@ + nat_digits(port as nat)
}

/// Opens a TCP port for the server: removes the old rule for 8080 and any rule of
/// this name, adds the rule with `netsh` (which must start), and also through
/// PowerShell (best effort).
pub fn open_firewall_port(port: u16) -> (r: Vec<Step>)
    ensures
        r@.len() == 4,
        step_view(r@[0]) == ("netsh"@, seq!["advfirewall"@, "firewall"@, "delete"@, "rule"@, "name=Belarc Inventory TCP 8080"@]),
        r@[0].check is Ignore,
        step_view(r@[1]) == ("netsh"@, seq!["advfirewall"@, "firewall"@, "delete"@, "rule"@, "name="@ + firewall_rule(port)]),
        r@[1].check is Ignore,
        step_view(r@[2]) == ("netsh"@, seq![
            "advfirewall"@, "firewall"@, "add"@, "rule"@, "name="@ + firewall_rule(port), "dir=in"@, "action=allow"@,
            "protocol=TCP"@, "localport="@ + nat_digits(port as nat), "profile=any"@,
        ]),
        r@[2].check is Launch,
        step_view(r@[3]) == ("powershell"@, seq!["-NoProfile"@, "-Command"@,
            "New-NetFirewallRule -DisplayName '"@ + firewall_rule(port) + "' -Direction Inbound -Action Allow -Protocol TCP -LocalPort "@
                + nat_digits(port as nat) + " -Profile Domain,Private,Public -Enabled True -ErrorAction SilentlyContinue"@]),
        r@[3].check is Ignore,
{
    let digits = fmt_u64(port as u64);
    let mut rule = chars("Belarc Inventory TCP ");
    extend(&mut rule, &digits);
    let rule_s = to_string(&rule);
    let mut name = chars("name=");
    extend(&mut name, &rule);
    let name_s = to_string(&name);
    let mut lp = chars("localport=");
    extend(&mut lp, &digits);
    let lp_s = to_string(&lp);
    let mut ps = chars("New-NetFirewallRule -DisplayName '");
    extend(&mut ps, &rule);
    extend_str(&mut ps, "' -Direction Inbound -Action Allow -Protocol TCP -LocalPort ");
    extend(&mut ps, &digits);
    extend_str(&mut ps, " -Profile Domain,Private,Public -Enabled True -ErrorAction SilentlyContinue");
    let ps_s = to_string(&ps);
    let s0 = step("netsh", strs(&["advfirewall", "firewall", "delete", "rule", "name=Belarc Inventory TCP 8080"]), Check::Ignore);
    let s1 = step("netsh", strs(&["advfirewall", "firewall", "delete", "rule", name_s.as_str()]), Check::Ignore);
    let s2 = step(
        "netsh",
        strs(&["advfirewall", "firewall", "add", "rule", name_s.as_str(), "dir=in", "action=allow", "protocol=TCP", lp_s.as_str(), "profile=any"]),
        Check::Launch,
    );
    let s3 = step("powershell", strs(&["-NoProfile", "-Command", ps_s.as_str()]), Check::Ignore);
    assert(rule_s@ == firewall_rule(port));
    let r = vec![s0, s1, s2, s3];
    assert(crate::compliance::views(r@[0].args@) =~= seq!["advfirewall"@, "firewall"@, "delete"@, "rule"@, "name=Belarc Inventory TCP 8080"@]);
    assert(crate::compliance::views(r@[1].args@) =~= seq!["advfirewall"@, "firewall"@, "delete"@, "rule"@, "name="@ + firewall_rule(port)]);
    assert(crate::compliance::views(r@[2].args@) =~= seq![
            "advfirewall"@, "firewall"@, "add"@, "rule"@, "name="@ + firewall_rule(port), "dir=in"@, "action=allow"@,
            "protocol=TCP"@, "localport="@ + nat_digits(port as nat), "profile=any"@,
        ]);
    r
}

/// Asks the task scheduler about the server task; it exists where the query
/// succeeds ([`probe_succeeded`]).
pub fn server_task_exists() -> (r: Step)
    ensures
        step_view(r) == ("schtasks"@, seq!["/Query"@, "/TN"@, SERVER_TASK@]),
        r.check is Ignore,
{
    let s = step("schtasks", strs(&["/Query", "/TN", SERVER_TASK]), Check::Ignore);
    assert(crate::compliance::views(s.args@) =~= seq!["/Query"@, "/TN"@, SERVER_TASK@]);
    s
}

/// Starts the server task that is already registered; a failure is reported.
pub fn start_existing_server_task() -> (r: Vec<Step>)
    ensures
        r@.len() == 1,
        step_view(r@[0]) == ("schtasks"@, seq!["/Run"@, "/TN"@, SERVER_TASK@]),
        r@[0].check matches Check::Success(p) && p@ == "não foi possível iniciar a tarefa existente BelarcInventoryServer: "@,
{
    let s = step(
        "schtasks",
        strs(&["/Run", "/TN", SERVER_TASK]),
        Check::Success("não foi possível iniciar a tarefa existente BelarcInventoryServer: ".to_string()),
    );
    assert(crate::compliance::views(s.args@) =~= seq!["/Run"@, "/TN"@, SERVER_TASK@]);
    vec![s]
}

/// The hourly repair task: the script it runs (the installer does nothing where the
/// script is missing) and the commands that re-create the task every four hours.
pub fn install_repair_task(install_dir: &str) -> (r: (String, Vec<Step>))
    ensures
        r.0@ == win_join(install_dir@, "reparo-automatico.ps1"@),
        r.1@.len() == 3,
        step_view(r.1@[0]) == ("schtasks"@, seq!["/End"@, "/TN"@, REPAIR_TASK@]),
        r.1@[0].check is Ignore,
        step_view(r.1@[1]) == ("schtasks"@, seq!["/Delete"@, "/F"@, "/TN"@, REPAIR_TASK@]),
        r.1@[1].check is Ignore,
        step_view(r.1@[2]) == ("schtasks"@, seq![
            "/Create"@, "/F"@, "/TN"@, REPAIR_TASK@, "/TR"@,
            "powershell.exe -NoProfile -ExecutionPolicy Bypass -WindowStyle Hidden -File \""@ + r.0@ + "\""@, "/SC"@, "HOURLY"@,
            "/MO"@, "4"@, "/RU"@, "SYSTEM"@, "/RL"@, "HIGHEST"@,
        ]),
        r.1@[2].check is Launch,
{
    let script = win_join_v(&chars(install_dir), &chars("reparo-automatico.ps1"));
    let mut tr = chars("powershell.exe -NoProfile -ExecutionPolicy Bypass -WindowStyle Hidden -File \"");
    extend(&mut tr, &script);
    extend_str(&mut tr, "\"");
    let tr_s = to_string(&tr);
    let s0 = step("schtasks", strs(&["/End", "/TN", REPAIR_TASK]), Check::Ignore);
    let s1 = step("schtasks", strs(&["/Delete", "/F", "/TN", REPAIR_TASK]), Check::Ignore);
    let s2 = step(
        "schtasks",
        strs(&["/Create", "/F", "/TN", REPAIR_TASK, "/TR", tr_s.as_str(), "/SC", "HOURLY", "/MO", "4", "/RU", "SYSTEM", "/RL", "HIGHEST"]),
        Check::Launch,
    );
    let steps = vec![s0, s1, s2];
    let script_s = to_string(&script);
    assert(crate::compliance::views(steps@[0].args@) =~= seq!["/End"@, "/TN"@, REPAIR_TASK@]);
    assert(crate::compliance::views(steps@[1].args@) =~= seq!["/Delete"@, "/F"@, "/TN"@, REPAIR_TASK@]);
    assert(crate::compliance::views(steps@[2].args@) =~= seq![
            "/Create"@, "/F"@, "/TN"@, REPAIR_TASK@, "/TR"@,
            "powershell.exe -NoProfile -ExecutionPolicy Bypass -WindowStyle Hidden -File \""@ + script_s@ + "\""@, "/SC"@, "HOURLY"@,
            "/MO"@, "4"@, "/RU"@, "SYSTEM"@, "/RL"@, "HIGHEST"@,
        ]);
    (script_s, steps)
}

/// Removes the ticket shortcut from the shared desktop (best effort).
pub fn remove_ticket_portal_shortcut() -> (r: Step)
    ensures
        crate::compliance::views(r.args@) == hidden_args(
            "\n$path = Join-Path ([Environment]::GetFolderPath('CommonDesktopDirectory')) 'Chamados Serviços.lnk'\nRemove-Item -LiteralPath $path -Force -ErrorAction SilentlyContinue\n"@,
        ),
        r.check is Ignore,
{
    powershell_hidden(
        "\n$path = Join-Path ([Environment]::GetFolderPath('CommonDesktopDirectory')) 'Chamados Serviços.lnk'\nRemove-Item -LiteralPath $path -Force -ErrorAction SilentlyContinue\n",
        false,
    )
}

/// Asks the service manager about the agent service.
pub fn service_query() -> (r: Step)
    ensures
        step_view(r) == ("sc"@, seq!["query"@, AGENT_SERVICE@]),
        r.check is Ignore,
{
    let s = step("sc", strs(&["query", AGENT_SERVICE]), Check::Ignore);
    assert(crate::compliance::views(s.args@) =~= seq!["query"@, AGENT_SERVICE@]);
    s
}

/// The agent service runs where the service query's text, in upper case, says
/// `RUNNING`.
pub fn verify_service_running(r: &Result<CmdOutput, String>) -> (b: bool)
    ensures
        b == (r matches Ok(o) && contains(upper_text(output_text(*o)), "RUNNING"@)),
{
    match r {
        Ok(o) => {
            let t = to_uppercase(cmd_output_text(o).as_str());
            crate::text::contains_v(&chars(t.as_str()), &chars("RUNNING"))
        },
        Err(_) => false,
    }
}

// ---------------------------------------------------------------------------
// The server task and the agent service
// ---------------------------------------------------------------------------

/// The command line of the server task: the server with its data folder, listen
/// address, company profile and ticket share set.
pub open spec fn server_task_line(exe: Seq<char>, listen: Seq<char>, chamados: Seq<char>) -> Seq<char> {
    "cmd /c \"set BELARC_DATA_DIR="@ + SERVER_DATA@ + "&& set BELARC_LISTEN="@ + listen + "&& set BELARC_COMPANY_PROFILE="@
        + COMPANY_PROFILE@ + "&& set BELARC_CHAMADOS_ROOT="@ + chamados + "&& \""@ + exe + "\"\""@
}

/// The arguments that create the server task at start-up, under the account given
/// (trimmed; with its password where one is given), else as SYSTEM.
pub open spec fn server_task_create(tr: Seq<char>, run_as: Option<Seq<char>>, password: Option<Seq<char>>) -> Seq<Seq<char>> {
    let base = seq!["/Create"@, "/F"@, "/TN"@, SERVER_TASK@, "/TR"@, tr, "/SC"@, "ONSTART"@, "/RU"@];
    match run_as {
        Some(u) if trim(u).len() > 0 => match password {
            Some(pw) if pw.len() > 0 => base + seq![trim(u), "/RP"@, pw, "/RL"@, "HIGHEST"@],
            _ => base + seq![trim(u), "/RL"@, "HIGHEST"@],
        },
        _ => base + seq!["SYSTEM"@, "/RL"@, "HIGHEST"@],
    }
}

pub open spec fn opt_view(o: Option<&str>) -> Option<Seq<char>> {
    match o {
        Some(s) => Some(s@),
        None => None,
    }
}

/// Re-creates the server task so that it starts with the machine and runs the
/// server from `install_dir` (`chamados_root`: the ticket share configured for the
/// installer, else the default one), then starts it. The old task is ended and
/// deleted first (best effort); the new one must be created and started.
pub fn install_server_task_as(
    install_dir: &str,
    listen: &str,
    chamados_root: Option<&str>,
    run_as: Option<&str>,
    password: Option<&str>,
) -> (r: Vec<Step>)
    ensures
        r@.len() == 4,
        step_view(r@[0]) == ("schtasks"@, seq!["/End"@, "/TN"@, SERVER_TASK@]),
        r@[0].check is Ignore,
        step_view(r@[1]) == ("schtasks"@, seq!["/Delete"@, "/F"@, "/TN"@, SERVER_TASK@]),
        r@[1].check is Ignore,
        step_view(r@[2]) == ("schtasks"@, server_task_create(
            server_task_line(
                win_join(install_dir@, "belarc-server.exe"@),
                listen@,
                match chamados_root {
                    Some(c) => c@,
                    None => crate::tickets::DEFAULT_CHAMADOS_ROOT@,
                },
            ),
            opt_view(run_as),
            opt_view(password),
        )),
        r@[2].check is Launch,
        step_view(r@[3]) == ("schtasks"@, seq!["/Run"@, "/TN"@, SERVER_TASK@]),
        r@[3].check is Launch,
{
    let exe = win_join_v(&chars(install_dir), &chars("belarc-server.exe"));
    let chamados = match chamados_root {
        Some(c) => c,
        None => crate::tickets::DEFAULT_CHAMADOS_ROOT,
    };
    let mut tr = chars("cmd /c \"set BELARC_DATA_DIR=");
    extend_str(&mut tr, SERVER_DATA);
    extend_str(&mut tr, "&& set BELARC_LISTEN=");
    extend_str(&mut tr, listen);
    extend_str(&mut tr, "&& set BELARC_COMPANY_PROFILE=");
    extend_str(&mut tr, COMPANY_PROFILE);
    extend_str(&mut tr, "&& set BELARC_CHAMADOS_ROOT=");
    extend_str(&mut tr, chamados);
    extend_str(&mut tr, "&& \"");
    extend(&mut tr, &exe);
    extend_str(&mut tr, "\"\"");
    let tr_s = to_string(&tr);
    let t = tr_s.as_str();
    let user = match run_as {
        Some(u) => {
            let tu = trim_v(&chars(u));
            if tu.len() > 0 {
                Some(to_string(&tu))
            } else {
                None
            }
        },
        None => None,
    };
    let create = match &user {
        Some(u) => match password {
            Some(pw) if pw.unicode_len() > 0 => strs(
                &["/Create", "/F", "/TN", SERVER_TASK, "/TR", t, "/SC", "ONSTART", "/RU", u.as_str(), "/RP", pw, "/RL", "HIGHEST"],
            ),
            _ => strs(&["/Create", "/F", "/TN", SERVER_TASK, "/TR", t, "/SC", "ONSTART", "/RU", u.as_str(), "/RL", "HIGHEST"]),
        },
        None => strs(&["/Create", "/F", "/TN", SERVER_TASK, "/TR", t, "/SC", "ONSTART", "/RU", "SYSTEM", "/RL", "HIGHEST"]),
    };
    let s0 = step("schtasks", strs(&["/End", "/TN", SERVER_TASK]), Check::Ignore);
    let s1 = step("schtasks", strs(&["/Delete", "/F", "/TN", SERVER_TASK]), Check::Ignore);
    let s2 = step("schtasks", create, Check::Launch);
    let s3 = step("schtasks", strs(&["/Run", "/TN", SERVER_TASK]), Check::Launch);
    let r = vec![s0, s1, s2, s3];
    assert(crate::compliance::views(r@[0].args@) =~= seq!["/End"@, "/TN"@, SERVER_TASK@]);
    assert(crate::compliance::views(r@[1].args@) =~= seq!["/Delete"@, "/F"@, "/TN"@, SERVER_TASK@]);
    assert(crate::compliance::views(r@[3].args@) =~= seq!["/Run"@, "/TN"@, SERVER_TASK@]);
    assert(crate::compliance::views(r@[2].args@) =~= server_task_create(tr_s@, opt_view(run_as), opt_view(password)));
    r
}

/// The agent's `config.toml`: the server, the token and the default intervals.
pub open spec fn agent_config_spec(server_url: Seq<char>, token: Seq<char>) -> Seq<char> {
    "server_url = \""@ + server_url + "\"\nagent_token = \""@ + token
        + "\"\nheartbeat_interval_seconds = 180\nt1_interval_seconds = 21600\nt2_interval_seconds = 86400\n"@
}

/// The script that registers the agent service through PowerShell.
pub open spec fn new_service_script(exe: Seq<char>) -> Seq<char> {
    "\n$svc = 'BelarcInventoryAgent'\n$existing = Get-Service -Name $svc -ErrorAction SilentlyContinue\nif ($existing) {\n    Stop-Service -Name $svc -Force -ErrorAction SilentlyContinue\n    sc.exe delete $svc | Out-Null\n    Start-Sleep -Seconds 3\n}\nNew-Service -Name $svc -BinaryPathName '\""@
        + ps_escape(exe)
        + "\" service' -DisplayName 'Belarc Inventory Agent' -StartupType Automatic -Description 'Belarc Inventory Agent' | Out-Null\nStart-Service -Name $svc\n"@
}

/// What installing the agent service takes: the configuration to write, the
/// commands that remove the old service (best effort), the agent's own `install`
/// (which must start), and the PowerShell registration used where that fails.
pub struct AgentServicePlan {
    pub config_path: String,
    pub config_text: String,
    pub remove_old: Vec<Step>,
    pub install: Step,
    pub fallback: Step,
}

pub fn install_agent_service(agent_exe: &str, server_url: &str, token: &str) -> (r: AgentServicePlan)
    ensures
        r.config_path@ == win_join(AGENT_DATA@, "config.toml"@),
        r.config_text@ == agent_config_spec(server_url@, token@),
        r.remove_old@.len() == 2,
        step_view(r.remove_old@[0]) == ("sc"@, seq!["stop"@, AGENT_SERVICE@]),
        r.remove_old@[0].check is Ignore,
        step_view(r.remove_old@[1]) == ("sc"@, seq!["delete"@, AGENT_SERVICE@]),
        r.remove_old@[1].check is Ignore,
        step_view(r.install) == (agent_exe@, seq!["install"@]),
        r.install.label@ == "belarc-agent install"@,
        r.install.check is Launch,
        step_view(r.fallback) == ("powershell.exe"@, seq![
            "-NoProfile"@, "-ExecutionPolicy"@, "Bypass"@, "-Command"@, new_service_script(agent_exe@),
        ]),
        r.fallback.label@ == "New-Service"@,
        r.fallback.check matches Check::Success(p) && p@ == "New-Service: "@,
{
    let path = win_join_v(&chars(AGENT_DATA), &chars("config.toml"));
    let mut cfg = chars("server_url = \"");
    extend_str(&mut cfg, server_url);
    extend_str(&mut cfg, "\"\nagent_token = \"");
    extend_str(&mut cfg, token);
    extend_str(&mut cfg, "\"\nheartbeat_interval_seconds = 180\nt1_interval_seconds = 21600\nt2_interval_seconds = 86400\n");
    let mut ps = chars(
        "\n$svc = 'BelarcInventoryAgent'\n$existing = Get-Service -Name $svc -ErrorAction SilentlyContinue\nif ($existing) {\n    Stop-Service -Name $svc -Force -ErrorAction SilentlyContinue\n    sc.exe delete $svc | Out-Null\n    Start-Sleep -Seconds 3\n}\nNew-Service -Name $svc -BinaryPathName '\"",
    );
    extend_str(&mut ps, ps_escape_v(agent_exe).as_str());
    extend_str(
        &mut ps,
        "\" service' -DisplayName 'Belarc Inventory Agent' -StartupType Automatic -Description 'Belarc Inventory Agent' | Out-Null\nStart-Service -Name $svc\n",
    );
    let ps_s = to_string(&ps);
    let s0 = step("sc", strs(&["stop", AGENT_SERVICE]), Check::Ignore);
    let s1 = step("sc", strs(&["delete", AGENT_SERVICE]), Check::Ignore);
    let install = Step {
        program: agent_exe.to_string(),
        args: strs(&["install"]),
        label: "belarc-agent install".to_string(),
        check: Check::Launch,
    };
    let fallback = Step {
        program: "powershell.exe".to_string(),
        args: strs(&["-NoProfile", "-ExecutionPolicy", "Bypass", "-Command", ps_s.as_str()]),
        label: "New-Service".to_string(),
        check: Check::Success("New-Service: ".to_string()),
    };
    let remove_old = vec![s0, s1];
    assert(crate::compliance::views(remove_old@[0].args@) =~= seq!["stop"@, AGENT_SERVICE@]);
    assert(crate::compliance::views(remove_old@[1].args@) =~= seq!["delete"@, AGENT_SERVICE@]);
    assert(crate::compliance::views(install.args@) =~= seq!["install"@]);
    assert(crate::compliance::views(fallback.args@) =~= seq![
            "-NoProfile"@, "-ExecutionPolicy"@, "Bypass"@, "-Command"@, new_service_script(agent_exe@),
        ]);
    AgentServicePlan {
        config_path: to_string(&path),
        config_text: to_string(&cfg),
        remove_old,
        install,
        fallback,
    }
}

/// The agent's own `install` started but failed: the service is registered through
/// PowerShell instead.
pub fn agent_install_needs_fallback(r: &Result<CmdOutput, String>) -> (b: bool)
    ensures
        b == (r matches Ok(o) && !o.success),
{
    match r {
        Ok(o) => !o.success,
        Err(_) => false,
    }
}

/// The script that puts the ticket shortcut on the shared desktop.
pub open spec fn shortcut_script(exe: Seq<char>, workdir: Seq<char>) -> Seq<char> {
    "\n$desktop = [Environment]::GetFolderPath('CommonDesktopDirectory')\n$path = Join-Path $desktop 'Chamados Serviços.lnk'\n$shell = New-Object -ComObject WScript.Shell\n$shortcut = $shell.CreateShortcut($path)\n$shortcut.TargetPath = '"@
        + ps_escape(exe) + "'\n$shortcut.Arguments = 'open-ticket'\n$shortcut.WorkingDirectory = '"@ + ps_escape(workdir)
        + "'\n$shortcut.IconLocation = '"@ + ps_escape(exe)
        + ",0'\n$shortcut.Description = 'Abrir chamados deste computador'\n$shortcut.Save()\n"@
}

/// The shortcut that opens this machine's tickets (the agent's `open-ticket`); the
/// token never enters it. `exists`: whether the agent is installed at `agent_exe`;
/// `folder`: the folder it is in (the install folder where it has none).
pub fn install_ticket_portal_shortcut(agent_exe: &str, exists: bool, folder: Option<&str>) -> (r: Result<Step, String>)
    ensures
        match r {
            Ok(s) => exists && step_view(s) == ("powershell.exe"@, seq![
                "-NoProfile"@, "-ExecutionPolicy"@, "Bypass"@, "-Command"@, shortcut_script(agent_exe@, match folder {
                    Some(f) => f@,
                    None => INSTALL_DIR@,
                }),
            ]) && (s.check matches Check::Prefixed(p) && p@ == "atalho Chamados Serviços: "@),
            Err(e) => !exists && e@ == "belarc-agent.exe nao encontrado para criar atalho de chamados"@,
        },
{
    if !exists {
        return Err("belarc-agent.exe nao encontrado para criar atalho de chamados".to_string());
    }
    let wd = match folder {
        Some(f) => f,
        None => INSTALL_DIR,
    };
    let exe = ps_escape_v(agent_exe);
    let mut ps = chars(
        "\n$desktop = [Environment]::GetFolderPath('CommonDesktopDirectory')\n$path = Join-Path $desktop 'Chamados Serviços.lnk'\n$shell = New-Object -ComObject WScript.Shell\n$shortcut = $shell.CreateShortcut($path)\n$shortcut.TargetPath = '",
    );
    extend_str(&mut ps, exe.as_str());
    extend_str(&mut ps, "'\n$shortcut.Arguments = 'open-ticket'\n$shortcut.WorkingDirectory = '");
    extend_str(&mut ps, ps_escape_v(wd).as_str());
    extend_str(&mut ps, "'\n$shortcut.IconLocation = '");
    extend_str(&mut ps, exe.as_str());
    extend_str(&mut ps, ",0'\n$shortcut.Description = 'Abrir chamados deste computador'\n$shortcut.Save()\n");
    let ps_s = to_string(&ps);
    let s = Step {
        program: "powershell.exe".to_string(),
        args: strs(&["-NoProfile", "-ExecutionPolicy", "Bypass", "-Command", ps_s.as_str()]),
        label: "powershell.exe".to_string(),
        check: Check::Prefixed("atalho Chamados Serviços: ".to_string()),
    };
    assert(crate::compliance::views(s.args@) =~= seq![
            "-NoProfile"@, "-ExecutionPolicy"@, "Bypass"@, "-Command"@, shortcut_script(agent_exe@, wd@),
        ]);
    Ok(s)
}

// ---------------------------------------------------------------------------
// The ticket client's shortcuts and manifest
// ---------------------------------------------------------------------------

/// The script that puts the ticket client's shortcut on the desktops (and, for IT,
/// the panel's shortcut too), every text already escaped for PowerShell.
pub open spec fn role_shortcut_script(role: Role, ticket: Seq<char>, workdir: Seq<char>, icon: Seq<char>, url: Seq<char>) -> Seq<char> {
    match role {
        Role::Client => "\n$shell = New-Object -ComObject WScript.Shell\n$desktops = @([Environment]::GetFolderPath('CommonDesktopDirectory'), [Environment]::GetFolderPath('Desktop')) | Where-Object { $_ -and (Test-Path -LiteralPath $_) } | Select-Object -Unique\nforeach ($desktop in $desktops) {\n"@ + "  $shortcut = $shell.CreateShortcut((Join-Path $desktop 'Chamados Serviços TI.lnk'))\n  $shortcut.TargetPath = '"@ + ticket + "'\n  $shortcut.WorkingDirectory = '"@ + workdir + "'\n  $shortcut.IconLocation = '"@ + icon + ",0'\n  $shortcut.Description = 'Abrir chamados deste computador'\n  $shortcut.Save()\n}\n"@,
        Role::Ti => "\n$shell = New-Object -ComObject WScript.Shell\n$desktops = @([Environment]::GetFolderPath('CommonDesktopDirectory'), [Environment]::GetFolderPath('Desktop')) | Where-Object { $_ -and (Test-Path -LiteralPath $_) } | Select-Object -Unique\nforeach ($desktop in $desktops) {\n"@ + "  $panel = $shell.CreateShortcut((Join-Path $desktop 'Belarc Inventory — Painel TI.lnk'))\n  $panel.TargetPath = \"$env:WINDIR\\explorer.exe\"\n  $panel.Arguments = '"@ + url + "'\n  $panel.Description = 'Inventário, Gestão TI, Diretório, Chamados e Dashboard BI'\n  $panel.Save()\n  $tickets = $shell.CreateShortcut((Join-Path $desktop 'Chamados Serviços TI.lnk'))\n  $tickets.TargetPath = '"@ + ticket + "'\n  $tickets.WorkingDirectory = '"@ + workdir + "'\n  $tickets.IconLocation = '"@ + icon
            + ",0'\n  $tickets.Description = 'Abrir chamados deste computador'\n  $tickets.Save()\n}\n"@,
    }
}

/// Creates the desktop shortcuts of a setup run: `ticket_exe` and `icon` are the
/// ticket client and its icon, `folder` the client's folder (the install folder where
/// it has none), `server_url` the panel's address. A failure reports the script's
/// output.
pub fn create_shortcuts(ticket_exe: &str, folder: Option<&str>, icon: &str, server_url: &str, role: Role) -> (r: Step)
    ensures
        step_view(r) == ("powershell.exe"@, seq![
            "-NoProfile"@, "-ExecutionPolicy"@, "Bypass"@, "-Command"@, role_shortcut_script(
                role,
                ps_escape(ticket_exe@),
                ps_escape(match folder {
                    Some(f) => f@,
                    None => INSTALL_DIR@,
                }),
                ps_escape(icon@),
                ps_escape(server_url@),
            ),
        ]),
        r.label@ == "criação de atalhos"@,
        r.check matches Check::Success(p) && p@ == ""@,
{
    let ticket = ps_escape_v(ticket_exe);
    let wd = ps_escape_v(match folder {
        Some(f) => f,
        None => INSTALL_DIR,
    });
    let url = ps_escape_v(server_url);
    let ic = ps_escape_v(icon);
    let mut ps = chars("\n$shell = New-Object -ComObject WScript.Shell\n$desktops = @([Environment]::GetFolderPath('CommonDesktopDirectory'), [Environment]::GetFolderPath('Desktop')) | Where-Object { $_ -and (Test-Path -LiteralPath $_) } | Select-Object -Unique\nforeach ($desktop in $desktops) {\n");
    match role {
        Role::Client => {
            extend_str(&mut ps, "  $shortcut = $shell.CreateShortcut((Join-Path $desktop 'Chamados Serviços TI.lnk'))\n  $shortcut.TargetPath = '");
            extend_str(&mut ps, ticket.as_str());
            extend_str(&mut ps, "'\n  $shortcut.WorkingDirectory = '");
            extend_str(&mut ps, wd.as_str());
            extend_str(&mut ps, "'\n  $shortcut.IconLocation = '");
            extend_str(&mut ps, ic.as_str());
            extend_str(&mut ps, ",0'\n  $shortcut.Description = 'Abrir chamados deste computador'\n  $shortcut.Save()\n}\n");
        },
        Role::Ti => {
            extend_str(&mut ps, "  $panel = $shell.CreateShortcut((Join-Path $desktop 'Belarc Inventory — Painel TI.lnk'))\n  $panel.TargetPath = \"$env:WINDIR\\explorer.exe\"\n  $panel.Arguments = '");
            extend_str(&mut ps, url.as_str());
            extend_str(&mut ps, "'\n  $panel.Description = 'Inventário, Gestão TI, Diretório, Chamados e Dashboard BI'\n  $panel.Save()\n  $tickets = $shell.CreateShortcut((Join-Path $desktop 'Chamados Serviços TI.lnk'))\n  $tickets.TargetPath = '");
            extend_str(&mut ps, ticket.as_str());
            extend_str(&mut ps, "'\n  $tickets.WorkingDirectory = '");
            extend_str(&mut ps, wd.as_str());
            extend_str(&mut ps, "'\n  $tickets.IconLocation = '");
            extend_str(&mut ps, ic.as_str());
            extend_str(&mut ps, ",0'\n  $tickets.Description = 'Abrir chamados deste computador'\n  $tickets.Save()\n}\n");
        },
    }
    let ps_s = to_string(&ps);
    proof {
        reveal_strlit("");
    }
    let r = Step {
        program: "powershell.exe".to_string(),
        args: strs(&["-NoProfile", "-ExecutionPolicy", "Bypass", "-Command", ps_s.as_str()]),
        label: "criação de atalhos".to_string(),
        check: Check::Success(String::new()),
    };
    assert(crate::compliance::views(r.args@) =~= seq![
            "-NoProfile"@, "-ExecutionPolicy"@, "Bypass"@, "-Command"@, ps_s@,
        ]);
    r
}

/// Asks `certutil` for the SHA-256 of a file (its outcome is read by
/// [`manifest_sha256`]).
pub fn hash_file_step(path: &str) -> (r: Step)
    ensures
        step_view(r) == ("certutil"@, seq!["-hashfile"@, path@, "SHA256"@]),
        r.check is Ignore,
{
    let s = step("certutil", strs(&["-hashfile", path, "SHA256"]), Check::Ignore);
    assert(crate::compliance::views(s.args@) =~= seq!["-hashfile"@, path@, "SHA256"@]);
    s
}

/// The second line of a text (split at `\n`), trimmed; empty where there is none.
pub open spec fn second_line(text: Seq<char>) -> Seq<char> {
    let r = crate::text::find_char(text, '\n');
    if r < 0 {
        Seq::empty()
    } else {
        let rest = text.skip(r + 1);
        let r2 = crate::text::find_char(rest, '\n');
        trim(if r2 < 0 { rest } else { rest.take(r2) })
    }
}

/// The hash `certutil` printed (the second line of its output), or nothing where it
/// could not be started.
pub fn manifest_sha256(r: &Result<CmdOutput, String>) -> (h: String)
    ensures
        h@ == match r {
            Ok(o) => second_line(utf8_lossy(o.stdout@)),
            Err(_) => Seq::empty(),
        },
{
    match r {
        Ok(o) => {
            let t = chars(from_utf8_lossy(o.stdout.as_slice()).as_str());
            proof {
                crate::text::lemma_find_char(t@, '\n');
            }
            match crate::text::find_char_v(&t, '\n') {
                None => String::new(),
                Some(i) => {
                    assert(i < t@.len());
                    let rest = crate::text::copy_range(&t, i + 1, t.len());
                    assert(rest@ =~= t@.skip(i + 1));
                    proof {
                        crate::text::lemma_find_char(rest@, '\n');
                    }
                    let line = match crate::text::find_char_v(&rest, '\n') {
                        None => rest,
                        Some(j) => {
                            let l = crate::text::copy_range(&rest, 0, j);
                            assert(l@ =~= rest@.take(j as int));
                            l
                        },
                    };
                    to_string(&trim_v(&line))
                },
            }
        },
        Err(_) => String::new(),
    }
}

/// The manifest a setup run leaves beside the ticket client, its keys in serde_json's
/// order.
pub open spec fn manifest_ok(j: crate::json::Json, role: Role, server_url: Seq<char>, exe: Seq<char>, sha: Seq<char>) -> bool {
    &&& j matches crate::json::Json::Object(fs)
    &&& fs@.len() == 5
    &&& fs@[0].0@ == "legacy_preserved"@ && fs@[0].1 == crate::json::Json::Bool(true)
    &&& fs@[1].0@ == "role"@ && fs@[1].1.str_spec() == Some(
        match role {
            Role::Client => "cliente"@,
            Role::Ti => "ti"@,
        },
    )
    &&& fs@[2].0@ == "server_url"@ && fs@[2].1.str_spec() == Some(server_url)
    &&& fs@[3].0@ == "ticket_executable"@ && fs@[3].1.str_spec() == Some(exe)
    &&& fs@[4].0@ == "ticket_sha256"@ && fs@[4].1.str_spec() == Some(sha)
}

pub fn setup_manifest(role: Role, server_url: &str, ticket_exe: &str, sha256: &str) -> (j: crate::json::Json)
    ensures
        manifest_ok(j, role, server_url@, ticket_exe@, sha256@),
{
    let role_name = match role {
        Role::Client => "cliente",
        Role::Ti => "ti",
    };
    let mut fs: Vec<(String, crate::json::Json)> = Vec::new();
    fs.push(("legacy_preserved".to_string(), crate::json::Json::Bool(true)));
    fs.push(("role".to_string(), crate::json::Json::Str(role_name.to_string())));
    fs.push(("server_url".to_string(), crate::json::Json::Str(server_url.to_string())));
    fs.push(("ticket_executable".to_string(), crate::json::Json::Str(ticket_exe.to_string())));
    fs.push(("ticket_sha256".to_string(), crate::json::Json::Str(sha256.to_string())));
    crate::json::Json::Object(fs)
}

/// Stops and removes the agent service, and first the server and repair tasks where
/// asked (all best effort).
pub fn run_uninstall_core(include_server: bool) -> (r: Vec<Step>)
    ensures
        include_server ==> r@.len() == 6 && step_view(r@[0]) == ("schtasks"@, seq!["/End"@, "/TN"@, SERVER_TASK@])
            && step_view(r@[1]) == ("schtasks"@, seq!["/Delete"@, "/F"@, "/TN"@, SERVER_TASK@]) && step_view(r@[2]) == (
            "schtasks"@,
            seq!["/End"@, "/TN"@, REPAIR_TASK@],
        ) && step_view(r@[3]) == ("schtasks"@, seq!["/Delete"@, "/F"@, "/TN"@, REPAIR_TASK@]),
        !include_server ==> r@.len() == 2,
        step_view(r@[r@.len() - 2]) == ("sc"@, seq!["stop"@, AGENT_SERVICE@]),
        step_view(r@[r@.len() - 1]) == ("sc"@, seq!["delete"@, AGENT_SERVICE@]),
        forall|i: int| 0 <= i < r@.len() ==> (#[trigger] r@[i]).check is Ignore,
{
    let mut out: Vec<Step> = Vec::new();
    if include_server {
        let a = step("schtasks", strs(&["/End", "/TN", SERVER_TASK]), Check::Ignore);
        let b = step("schtasks", strs(&["/Delete", "/F", "/TN", SERVER_TASK]), Check::Ignore);
        let c = step("schtasks", strs(&["/End", "/TN", REPAIR_TASK]), Check::Ignore);
        let d = step("schtasks", strs(&["/Delete", "/F", "/TN", REPAIR_TASK]), Check::Ignore);
        assert(crate::compliance::views(a.args@) =~= seq!["/End"@, "/TN"@, SERVER_TASK@]);
        assert(crate::compliance::views(b.args@) =~= seq!["/Delete"@, "/F"@, "/TN"@, SERVER_TASK@]);
        assert(crate::compliance::views(c.args@) =~= seq!["/End"@, "/TN"@, REPAIR_TASK@]);
        assert(crate::compliance::views(d.args@) =~= seq!["/Delete"@, "/F"@, "/TN"@, REPAIR_TASK@]);
        out.push(a);
        out.push(b);
        out.push(c);
        out.push(d);
    }
    let e = step("sc", strs(&["stop", AGENT_SERVICE]), Check::Ignore);
    let f = step("sc", strs(&["delete", AGENT_SERVICE]), Check::Ignore);
    assert(crate::compliance::views(e.args@) =~= seq!["stop"@, AGENT_SERVICE@]);
    assert(crate::compliance::views(f.args@) =~= seq!["delete"@, AGENT_SERVICE@]);
    out.push(e);
    out.push(f);
    out
}

/// Seconds since the Unix epoch, written in decimal.
pub fn chrono_lite_now(secs: u64) -> (r: String)
    ensures
        r@ == nat_digits(secs as nat),
{
    to_string(&fmt_u64(secs))
}

// ---------------------------------------------------------------------------
// Forced collection
// ---------------------------------------------------------------------------

/// A forced collection: the agent to run, its arguments, and how long to wait.
pub struct CollectPlan {
    pub exe: String,
    pub args: Vec<String>,
    pub timeout_secs: u64,
}

pub fn force_agent_collect_wait(install_dir: &str, timeout_secs: u64) -> (r: CollectPlan)
    ensures
        r.exe@ == win_join(install_dir@, "belarc-agent.exe"@),
        crate::compliance::views(r.args@) == seq!["collect"@, "t1"@, "--force"@],
        r.timeout_secs == timeout_secs,
{
    let exe = to_string(&win_join_v(&chars(install_dir), &chars("belarc-agent.exe")));
    let args = strs(&["collect", "t1", "--force"]);
    assert(crate::compliance::views(args@) =~= seq!["collect"@, "t1"@, "--force"@]);
    CollectPlan { exe, args, timeout_secs }
}

/// A forced collection that waits up to six minutes; its outcome is not used.
pub fn force_agent_collect(install_dir: &str) -> (r: CollectPlan)
    ensures
        r.exe@ == win_join(install_dir@, "belarc-agent.exe"@),
        r.timeout_secs == 360,
{
    force_agent_collect_wait(install_dir, 360)
}

/// Where a forced collection stands.
pub enum CollectState {
    /// Still running: wait and look again.
    Wait,
    /// Over: with its outcome.
    Done(Result<(), String>),
    /// Too slow: stop it, with this error.
    Kill(String),
}

/// What a look at a running collection decides (`exit`: the exit of the process where
/// it finished: success and exit code).
pub fn collect_poll(plan: &CollectPlan, elapsed_secs: u64, exit: Option<(bool, Option<i32>)>) -> (r: CollectState)
    ensures
        match exit {
            Some((true, _)) => r matches CollectState::Done(Ok(())),
            Some((false, code)) => r matches CollectState::Done(Err(m)) && m@ == "coleta terminou com erro (exit "@
                + crate::text::int_digits(match code {
                Some(c) => c as int,
                None => -1,
            }) + ")"@,
            None => if elapsed_secs >= plan.timeout_secs {
                r matches CollectState::Kill(m) && m@ == "coleta demorou mais de "@ + nat_digits(plan.timeout_secs as nat)
                    + "s"@
            } else {
                r is Wait
            },
        },
{
    match exit {
        Some((true, _)) => CollectState::Done(Ok(())),
        Some((false, code)) => {
            let c: i64 = match code {
                Some(c) => c as i64,
                None => -1,
            };
            let mut t = chars("coleta terminou com erro (exit ");
            extend(&mut t, &crate::text::fmt_i64(c));
            extend_str(&mut t, ")");
            CollectState::Done(Err(to_string(&t)))
        },
        None => {
            if elapsed_secs >= plan.timeout_secs {
                let mut t = chars("coleta demorou mais de ");
                extend(&mut t, &fmt_u64(plan.timeout_secs));
                extend_str(&mut t, "s");
                CollectState::Kill(to_string(&t))
            } else {
                CollectState::Wait
            }
        },
    }
}

// ---------------------------------------------------------------------------
// Scheduled exports to the file share
// ---------------------------------------------------------------------------

/// Whether one of the share's known folders can be reached (a probe: it succeeds
/// where one exists).
pub open spec fn share_probe_script() -> Seq<char> {
    "\n$candidates = @(\n  '\\\\FILE-SHARE\\Portal\\Belarc\\PCs',\n  '\\\\192.0.2.11\\Portal\\Belarc\\PCs',\n  '\\\\FILE-SHARE\\Public\\__arquivos-ti\\Infos - PCs\\BELARC_PC',\n  '\\\\192.0.2.11\\Public\\__arquivos-ti\\Infos - PCs\\BELARC_PC'\n)\nforeach ($p in $candidates) {\n  try {\n    if (Test-Path -LiteralPath $p -ErrorAction Stop) { exit 0 }\n  } catch {}\n}\nexit 1\n"@
}

pub fn test_nas_share_access() -> (r: Step)
    ensures
        step_view(r) == ("powershell.exe"@, seq!["-NoProfile"@, "-Command"@, share_probe_script()]),
        r.check is Ignore,
{
    let s = step(
        "powershell.exe",
        strs(&["-NoProfile", "-Command", "\n$candidates = @(\n  '\\\\FILE-SHARE\\Portal\\Belarc\\PCs',\n  '\\\\192.0.2.11\\Portal\\Belarc\\PCs',\n  '\\\\FILE-SHARE\\Public\\__arquivos-ti\\Infos - PCs\\BELARC_PC',\n  '\\\\192.0.2.11\\Public\\__arquivos-ti\\Infos - PCs\\BELARC_PC'\n)\nforeach ($p in $candidates) {\n  try {\n    if (Test-Path -LiteralPath $p -ErrorAction Stop) { exit 0 }\n  } catch {}\n}\nexit 1\n"]),
        Check::Ignore,
    );
    assert(crate::compliance::views(s.args@) =~= seq!["-NoProfile"@, "-Command"@, share_probe_script()]);
    s
}

/// The script that (re)creates the PC's export tasks, run as `task_user`: a presence
/// export every five minutes and a full export every six hours and at start-up.
pub open spec fn pc_tasks_script(export_dir: Seq<char>, task_user: Seq<char>) -> Seq<char> {
    "\n$presenceArgs = '-NoProfile -WindowStyle Hidden -ExecutionPolicy Bypass -File ''"@ + ps_escape(win_join(export_dir, "exportar-presence-nas.ps1"@)) + "'' -Quiet'\n$fullArgs = '-NoProfile -WindowStyle Hidden -ExecutionPolicy Bypass -File ''"@
        + ps_escape(win_join(export_dir, "exportar-para-nas.ps1"@)) + "'' -Quiet'\n$principal = New-ScheduledTaskPrincipal -UserId '"@ + ps_escape(task_user) + "' -LogonType Interactive -RunLevel Highest\n$settingsPresence = New-ScheduledTaskSettingsSet -AllowStartIfOnBatteries -DontStopIfGoingOnBatteries -StartWhenAvailable -Hidden -ExecutionTimeLimit (New-TimeSpan -Minutes 10)\n$settingsFull = New-ScheduledTaskSettingsSet -AllowStartIfOnBatteries -DontStopIfGoingOnBatteries -StartWhenAvailable -Hidden -ExecutionTimeLimit (New-TimeSpan -Hours 2)\nforeach ($t in @('BelarcInventoryNas','BelarcInventoryNasBoot','BelarcInventoryNasPresence','BelarcInventoryNasFull','BelarcInventoryNasFullBoot')) {\n  Unregister-ScheduledTask -TaskName $t -Confirm:$false -ErrorAction SilentlyContinue\n}\n$actionP = New-ScheduledTaskAction -Execute 'powershell.exe' -Argument $presenceArgs\n$triggerP = New-ScheduledTaskTrigger -Once -At (Get-Date).AddMinutes(1) -RepetitionInterval (New-TimeSpan -Minutes 5) -RepetitionDuration (New-TimeSpan -Days 3650)\nRegister-ScheduledTask -TaskName 'BelarcInventoryNasPresence' -Action $actionP -Trigger $triggerP -Principal $principal -Settings $settingsPresence -Force | Out-Null\n$actionF = New-ScheduledTaskAction -Execute 'powershell.exe' -Argument $fullArgs\n$triggerF = New-ScheduledTaskTrigger -Once -At (Get-Date).AddMinutes(3) -RepetitionInterval (New-TimeSpan -Hours 6) -RepetitionDuration (New-TimeSpan -Days 3650)\n$triggerB = New-ScheduledTaskTrigger -AtStartup\n$triggerB.Delay = 'PT3M'\nRegister-ScheduledTask -TaskName 'BelarcInventoryNasFull' -Action $actionF -Trigger $triggerF -Principal $principal -Settings $settingsFull -Force | Out-Null\nRegister-ScheduledTask -TaskName 'BelarcInventoryNasFullBoot' -Action $actionF -Trigger $triggerB -Principal $principal -Settings $settingsFull -Force | Out-Null\nStart-ScheduledTask -TaskName 'BelarcInventoryNasPresence' -ErrorAction SilentlyContinue\nStart-ScheduledTask -TaskName 'BelarcInventoryNasFull' -ErrorAction SilentlyContinue\n"@
}

/// The account the export tasks run as: `domain\user` of the installing session.
pub fn nas_task_principal_user(domain: Option<&str>, user: Option<&str>) -> (r: String)
    ensures
        r@ == (match domain {
            Some(d) => d@,
            None => "."@,
        }) + "\\"@ + (match user {
            Some(u) => u@,
            None => "SYSTEM"@,
        }),
{
    let mut t = chars(match domain {
        Some(d) => d,
        None => ".",
    });
    extend_str(&mut t, "\\");
    extend_str(&mut t, match user {
        Some(u) => u,
        None => "SYSTEM",
    });
    to_string(&t)
}

pub fn register_pc_tasks(export_dir: &str, task_user: &str) -> (r: Step)
    ensures
        crate::compliance::views(r.args@) == hidden_args(pc_tasks_script(export_dir@, task_user@)),
        r.check matches Check::Success(p) && p@ == ""@,
{
    let ed = chars(export_dir);
    let presence = ps_escape_v(to_string(&win_join_v(&ed, &chars("exportar-presence-nas.ps1"))).as_str());
    let full = ps_escape_v(to_string(&win_join_v(&ed, &chars("exportar-para-nas.ps1"))).as_str());
    let user = ps_escape_v(task_user);
    let mut ps = chars("\n$presenceArgs = '-NoProfile -WindowStyle Hidden -ExecutionPolicy Bypass -File ''");
    extend_str(&mut ps, presence.as_str());
    extend_str(&mut ps, "'' -Quiet'\n$fullArgs = '-NoProfile -WindowStyle Hidden -ExecutionPolicy Bypass -File ''");
    extend_str(&mut ps, full.as_str());
    extend_str(&mut ps, "'' -Quiet'\n$principal = New-ScheduledTaskPrincipal -UserId '");
    extend_str(&mut ps, user.as_str());
    extend_str(&mut ps, "' -LogonType Interactive -RunLevel Highest\n$settingsPresence = New-ScheduledTaskSettingsSet -AllowStartIfOnBatteries -DontStopIfGoingOnBatteries -StartWhenAvailable -Hidden -ExecutionTimeLimit (New-TimeSpan -Minutes 10)\n$settingsFull = New-ScheduledTaskSettingsSet -AllowStartIfOnBatteries -DontStopIfGoingOnBatteries -StartWhenAvailable -Hidden -ExecutionTimeLimit (New-TimeSpan -Hours 2)\nforeach ($t in @('BelarcInventoryNas','BelarcInventoryNasBoot','BelarcInventoryNasPresence','BelarcInventoryNasFull','BelarcInventoryNasFullBoot')) {\n  Unregister-ScheduledTask -TaskName $t -Confirm:$false -ErrorAction SilentlyContinue\n}\n$actionP = New-ScheduledTaskAction -Execute 'powershell.exe' -Argument $presenceArgs\n$triggerP = New-ScheduledTaskTrigger -Once -At (Get-Date).AddMinutes(1) -RepetitionInterval (New-TimeSpan -Minutes 5) -RepetitionDuration (New-TimeSpan -Days 3650)\nRegister-ScheduledTask -TaskName 'BelarcInventoryNasPresence' -Action $actionP -Trigger $triggerP -Principal $principal -Settings $settingsPresence -Force | Out-Null\n$actionF = New-ScheduledTaskAction -Execute 'powershell.exe' -Argument $fullArgs\n$triggerF = New-ScheduledTaskTrigger -Once -At (Get-Date).AddMinutes(3) -RepetitionInterval (New-TimeSpan -Hours 6) -RepetitionDuration (New-TimeSpan -Days 3650)\n$triggerB = New-ScheduledTaskTrigger -AtStartup\n$triggerB.Delay = 'PT3M'\nRegister-ScheduledTask -TaskName 'BelarcInventoryNasFull' -Action $actionF -Trigger $triggerF -Principal $principal -Settings $settingsFull -Force | Out-Null\nRegister-ScheduledTask -TaskName 'BelarcInventoryNasFullBoot' -Action $actionF -Trigger $triggerB -Principal $principal -Settings $settingsFull -Force | Out-Null\nStart-ScheduledTask -TaskName 'BelarcInventoryNasPresence' -ErrorAction SilentlyContinue\nStart-ScheduledTask -TaskName 'BelarcInventoryNasFull' -ErrorAction SilentlyContinue\n");
    assert(ps@ =~= pc_tasks_script(export_dir@, task_user@));
    powershell_hidden(to_string(&ps).as_str(), true)
}

pub open spec fn import_task_script(script: Seq<char>) -> Seq<char> {
    "\n$taskName = 'BelarcInventoryNasImport'\n$args = '-NoProfile -WindowStyle Hidden -ExecutionPolicy Bypass -File ''"@ + ps_escape(script) + "'' -Quiet'\n$action = New-ScheduledTaskAction -Execute 'powershell.exe' -Argument $args\n$principal = New-ScheduledTaskPrincipal -UserId 'SYSTEM' -LogonType ServiceAccount -RunLevel Highest\n$settings = New-ScheduledTaskSettingsSet -AllowStartIfOnBatteries -DontStopIfGoingOnBatteries -StartWhenAvailable -Hidden -ExecutionTimeLimit (New-TimeSpan -Hours 1)\nUnregister-ScheduledTask -TaskName $taskName -Confirm:$false -ErrorAction SilentlyContinue\n$trigger = New-ScheduledTaskTrigger -Once -At (Get-Date).AddMinutes(1) -RepetitionInterval (New-TimeSpan -Minutes 3) -RepetitionDuration (New-TimeSpan -Days 3650)\nRegister-ScheduledTask -TaskName $taskName -Action $action -Trigger $trigger -Principal $principal -Settings $settings -Force | Out-Null\nStart-ScheduledTask -TaskName $taskName -ErrorAction SilentlyContinue\n"@
}

/// The script that (re)creates the server's import task: every three minutes, as
/// SYSTEM.
pub fn register_import_task(import_script: &str) -> (r: Step)
    ensures
        crate::compliance::views(r.args@) == hidden_args(import_task_script(import_script@)),
        r.check matches Check::Success(p) && p@ == ""@,
{
    let mut ps = chars("\n$taskName = 'BelarcInventoryNasImport'\n$args = '-NoProfile -WindowStyle Hidden -ExecutionPolicy Bypass -File ''");
    extend_str(&mut ps, ps_escape_v(import_script).as_str());
    extend_str(&mut ps, "'' -Quiet'\n$action = New-ScheduledTaskAction -Execute 'powershell.exe' -Argument $args\n$principal = New-ScheduledTaskPrincipal -UserId 'SYSTEM' -LogonType ServiceAccount -RunLevel Highest\n$settings = New-ScheduledTaskSettingsSet -AllowStartIfOnBatteries -DontStopIfGoingOnBatteries -StartWhenAvailable -Hidden -ExecutionTimeLimit (New-TimeSpan -Hours 1)\nUnregister-ScheduledTask -TaskName $taskName -Confirm:$false -ErrorAction SilentlyContinue\n$trigger = New-ScheduledTaskTrigger -Once -At (Get-Date).AddMinutes(1) -RepetitionInterval (New-TimeSpan -Minutes 3) -RepetitionDuration (New-TimeSpan -Days 3650)\nRegister-ScheduledTask -TaskName $taskName -Action $action -Trigger $trigger -Principal $principal -Settings $settings -Force | Out-Null\nStart-ScheduledTask -TaskName $taskName -ErrorAction SilentlyContinue\n");
    assert(ps@ =~= import_task_script(import_script@));
    powershell_hidden(to_string(&ps).as_str(), true)
}

pub open spec fn background_script(script: Seq<char>) -> Seq<char> {
    "Start-Process powershell.exe -ArgumentList '-NoProfile -WindowStyle Hidden -ExecutionPolicy Bypass -File ''"@ + ps_escape(script) + "'' -Quiet' -WindowStyle Hidden"@
}

/// Starts a script in a hidden window without waiting for it (best effort).
pub fn run_script_background(script: &str) -> (r: Step)
    ensures
        crate::compliance::views(r.args@) == hidden_args(background_script(script@)),
        r.check is Ignore,
{
    let mut ps = chars("Start-Process powershell.exe -ArgumentList '-NoProfile -WindowStyle Hidden -ExecutionPolicy Bypass -File ''");
    extend_str(&mut ps, ps_escape_v(script).as_str());
    extend_str(&mut ps, "'' -Quiet' -WindowStyle Hidden");
    assert(ps@ =~= background_script(script@));
    powershell_hidden(to_string(&ps).as_str(), false)
}

pub open spec fn presence_script(hostname: Seq<char>) -> Seq<char> {
    "\n. 'C:\\ProgramData\\BelarcInventory\\nas-export\\config\\belarc-deploy.ps1'\n$folder = Join-Path (Get-BelarcNasRoot) '"@ + ps_escape(hostname) + "'\n$p = Join-Path $folder 'presence.json'\nif ((Test-Path -LiteralPath $p)) { exit 0 } else { exit 1 }\n"@
}

/// Whether the machine's presence file is on the share (a probe).
pub fn verify_presence_on_share(hostname: &str) -> (r: Step)
    ensures
        step_view(r) == ("powershell.exe"@, seq!["-NoProfile"@, "-ExecutionPolicy"@, "Bypass"@, "-Command"@, presence_script(hostname@)]),
        r.check is Ignore,
{
    let mut ps = chars("\n. 'C:\\ProgramData\\BelarcInventory\\nas-export\\config\\belarc-deploy.ps1'\n$folder = Join-Path (Get-BelarcNasRoot) '");
    extend_str(&mut ps, ps_escape_v(hostname).as_str());
    extend_str(&mut ps, "'\n$p = Join-Path $folder 'presence.json'\nif ((Test-Path -LiteralPath $p)) { exit 0 } else { exit 1 }\n");
    assert(ps@ =~= presence_script(hostname@));
    let ps_s = to_string(&ps);
    let s = step("powershell.exe", strs(&["-NoProfile", "-ExecutionPolicy", "Bypass", "-Command", ps_s.as_str()]), Check::Ignore);
    assert(crate::compliance::views(s.args@) =~= seq!["-NoProfile"@, "-ExecutionPolicy"@, "Bypass"@, "-Command"@, presence_script(hostname@)]);
    s
}

/// Removes the PC's export tasks (best effort).
pub fn uninstall_pc_tasks() -> (r: Step)
    ensures
        crate::compliance::views(r.args@) == hidden_args("\nforeach ($t in @('BelarcInventoryNas','BelarcInventoryNasBoot','BelarcInventoryNasPresence','BelarcInventoryNasFull','BelarcInventoryNasFullBoot')) {\n  Unregister-ScheduledTask -TaskName $t -Confirm:$false -ErrorAction SilentlyContinue\n}\n"@),
        r.check is Ignore,
{
    powershell_hidden("\nforeach ($t in @('BelarcInventoryNas','BelarcInventoryNasBoot','BelarcInventoryNasPresence','BelarcInventoryNasFull','BelarcInventoryNasFullBoot')) {\n  Unregister-ScheduledTask -TaskName $t -Confirm:$false -ErrorAction SilentlyContinue\n}\n", false)
}

/// Removes the server's import task (best effort).
pub fn uninstall_import_task() -> (r: Step)
    ensures
        crate::compliance::views(r.args@) == hidden_args("Unregister-ScheduledTask -TaskName 'BelarcInventoryNasImport' -Confirm:$false -ErrorAction SilentlyContinue"@),
        r.check is Ignore,
{
    powershell_hidden("Unregister-ScheduledTask -TaskName 'BelarcInventoryNasImport' -Confirm:$false -ErrorAction SilentlyContinue", false)
}

} // verus!
