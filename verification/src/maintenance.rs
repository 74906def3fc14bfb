//! The maintenance playbook: the profiles of the maintenance script, its tasks, and
//! the programs that tend to freeze.

use vstd::prelude::*;
use crate::freeze::{freeze_views, FreezeProneApp, FreezeV};
use crate::models::CompanyProfile;
use crate::text::{chars, extend_str, to_string};

verus! {

pub struct MaintenanceTask {
    pub id: String,
    pub label: String,
    pub description: String,
    pub command: String,
    pub profile: String,
    pub requires_admin: bool,
    pub runs_background: bool,
}

pub struct FreezeProneAppInfo {
    pub id: String,
    pub label: String,
    pub category: String,
    pub remediation: String,
}

pub struct MaintenanceProfile {
    pub id: String,
    pub label: String,
    pub description: String,
    pub command: String,
    pub estimated_minutes: u32,
}

pub struct MaintenancePlaybook {
    pub erp_server_ip: String,
    pub erp_name: String,
    pub freeze_prone_apps: Vec<FreezeProneAppInfo>,
    pub profiles: Vec<MaintenanceProfile>,
    pub tasks: Vec<MaintenanceTask>,
    pub quick_start: String,
}

pub type TaskV = (Seq<char>, Seq<char>, Seq<char>, Seq<char>, Seq<char>, bool, bool);

pub type ProfileV = (Seq<char>, Seq<char>, Seq<char>, Seq<char>, u32);

pub type InfoV = (Seq<char>, Seq<char>, Seq<char>, Seq<char>);

impl View for MaintenanceTask {
    type V = TaskV;

    open spec fn view(&self) -> TaskV {
        (self.id@, self.label@, self.description@, self.command@, self.profile@, self.requires_admin, self.runs_background)
    }
}

impl View for MaintenanceProfile {
    type V = ProfileV;

    open spec fn view(&self) -> ProfileV {
        (self.id@, self.label@, self.description@, self.command@, self.estimated_minutes)
    }
}

impl View for FreezeProneAppInfo {
    type V = InfoV;

    open spec fn view(&self) -> InfoV {
        (self.id@, self.label@, self.category@, self.remediation@)
    }
}

pub open spec fn profile_views(v: Seq<MaintenanceProfile>) -> Seq<ProfileV> {
    v.map_values(|p: MaintenanceProfile| p@)
}

pub open spec fn task_views(v: Seq<MaintenanceTask>) -> Seq<TaskV> {
    v.map_values(|t: MaintenanceTask| t@)
}

pub open spec fn info_views(v: Seq<FreezeProneAppInfo>) -> Seq<InfoV> {
    v.map_values(|a: FreezeProneAppInfo| a@)
}

/// The three profiles of the maintenance script: quick, complete, critical programs.
pub open spec fn playbook_profiles(p: CompanyProfile) -> Seq<ProfileV> {
    seq![
        (
            "Rapido"@,
            "Rapido (5-15 min)"@,
            "Limpeza de temp, DNS, cache Windows, winget upgrade. Seguro em segundo plano."@,
            ".\\executar-manutencao.ps1 -Perfil Rapido"@,
            15u32,
        ),
        (
            "Completo"@,
            "Completo (30-60 min)"@,
            "Rapido + DISM, limpeza de componentes Windows, otimizacoes de disco."@,
            ".\\executar-manutencao.ps1 -Perfil Completo"@,
            45u32,
        ),
        (
            "AppsCriticos"@,
            "Apps criticos ("@ + p.ui.critical_apps_summary@ + ")"@,
            "Limpa cache dos programas que mais travam + teste do servidor "@ + p.erp_name@ + "."@,
            ".\\executar-manutencao.ps1 -Perfil AppsCriticos"@,
            10u32,
        ),
    ]
}

pub open spec fn playbook_tasks(p: CompanyProfile) -> Seq<TaskV> {
    seq![
        (
            "winget_upgrade"@,
            "Atualizar tudo (winget)"@,
            "Atualiza apps instalados via winget, incluindo LibreOffice e utilitarios."@,
            "winget upgrade --all --accept-package-agreements --accept-source-agreements --disable-interactivity"@,
            "Rapido"@,
            false,
            true,
        ),
        (
            "temp_cleanup"@,
            "Limpar arquivos temporarios"@,
            "Remove %TEMP%, C:\\Windows\\Temp e cache de miniaturas."@,
            "Remove-Item $env:TEMP\\* -Recurse -Force -ErrorAction SilentlyContinue"@,
            "Rapido"@,
            false,
            true,
        ),
        (
            "dns_flush"@,
            "Limpar cache DNS"@,
            "Resolve problemas de lentidao em apps que usam rede ("@ + p.erp_name@ + ")."@,
            "ipconfig /flushdns"@,
            "Rapido"@,
            false,
            false,
        ),
        (
            "wu_check"@,
            "Verificar Windows Update"@,
            "Busca atualizacoes pendentes do Windows 10/11."@,
            "UsoClient StartScan"@,
            "Rapido"@,
            true,
            true,
        ),
        (
            "dism_cleanup"@,
            "DISM — limpar componentes"@,
            "Libera espaco e corrige store do Windows (requer admin)."@,
            "DISM /Online /Cleanup-Image /StartComponentCleanup"@,
            "Completo"@,
            true,
            true,
        ),
        (
            "erp_ping"@,
            "Testar servidor "@ + p.erp_name@ + " ERP"@,
            "Verifica se "@ + p.erp_server_ip@ + " responde na LAN."@,
            "Test-Connection "@ + p.erp_server_ip@ + " -Count 3"@,
            "AppsCriticos"@,
            false,
            false,
        ),
        (
            "fusion_cache"@,
            "Limpar cache Fusion 360"@,
            "Remove cache webdeploy da Autodesk."@,
            "Remove-Item \"$env:LOCALAPPDATA\\Autodesk\\webdeploy\\production\\*\\packages\" -Recurse -Force -ErrorAction SilentlyContinue"@,
            "AppsCriticos"@,
            false,
            true,
        ),
        (
            "libre_cache"@,
            "Limpar cache LibreOffice"@,
            "Fecha travamentos do Draw/soffice.bin."@,
            "Remove-Item \"$env:APPDATA\\LibreOffice\\4\\cache\\*\" -Recurse -Force -ErrorAction SilentlyContinue"@,
            "AppsCriticos"@,
            false,
            true,
        ),
    ]
}

pub open spec fn app_info(a: FreezeV) -> InfoV {
    (a.0, a.1, a.2, a.6)
}

pub open spec fn playbook_matches(pb: MaintenancePlaybook, p: CompanyProfile, apps: Seq<FreezeV>) -> bool {
    &&& pb.erp_server_ip@ == p.erp_server_ip@
    &&& pb.erp_name@ == p.erp_name@
    &&& pb.quick_start@ == ".\\executar-manutencao.ps1 -Perfil Rapido"@
    &&& info_views(pb.freeze_prone_apps@) == apps.map_values(|a: FreezeV| app_info(a))
    &&& profile_views(pb.profiles@) == playbook_profiles(p)
    &&& task_views(pb.tasks@) == playbook_tasks(p)
}

fn concat3(a: &str, b: &str, c: &str) -> (r: String)
    ensures
        r@ == a@ + b@ + c@,
{
    let mut t = chars(a);
    extend_str(&mut t, b);
    extend_str(&mut t, c);
    to_string(&t)
}

fn task(id: &str, label: String, description: String, command: String, profile: &str, requires_admin: bool, runs_background: bool) -> (r: MaintenanceTask)
    ensures
        r@ == (id@, label@, description@, command@, profile@, requires_admin, runs_background),
{
    MaintenanceTask {
        id: id.to_owned(),
        label,
        description,
        command,
        profile: profile.to_owned(),
        requires_admin,
        runs_background,
    }
}

fn push_task(v: &mut Vec<MaintenanceTask>, t: MaintenanceTask)
    ensures
        task_views(final(v)@) == task_views(old(v)@).push(t@),
{
    let ghost v0 = v@;
    v.push(t);
    assert forall|k: int| 0 <= k < v0.len() implies #[trigger] task_views(v@)[k] == task_views(v0)[k] by {
        assert(v@[k] == v0[k]);
    }
    assert(task_views(v@) =~= task_views(v0).push(t@));
}

fn push_profile(v: &mut Vec<MaintenanceProfile>, p: MaintenanceProfile)
    ensures
        profile_views(final(v)@) == profile_views(old(v)@).push(p@),
{
    let ghost v0 = v@;
    v.push(p);
    assert forall|k: int| 0 <= k < v0.len() implies #[trigger] profile_views(v@)[k] == profile_views(v0)[k] by {
        assert(v@[k] == v0[k]);
    }
    assert(profile_views(v@) =~= profile_views(v0).push(p@));
}

fn profiles_v(p: &CompanyProfile) -> (r: Vec<MaintenanceProfile>)
    ensures
        profile_views(r@) == playbook_profiles(*p),
{
    let mut v: Vec<MaintenanceProfile> = Vec::new();
    assert(profile_views(v@) =~= Seq::<ProfileV>::empty());
    push_profile(&mut v, MaintenanceProfile {
        id: "Rapido".to_owned(),
        label: "Rapido (5-15 min)".to_owned(),
        description: "Limpeza de temp, DNS, cache Windows, winget upgrade. Seguro em segundo plano.".to_owned(),
        command: ".\\executar-manutencao.ps1 -Perfil Rapido".to_owned(),
        estimated_minutes: 15,
    });
    push_profile(&mut v, MaintenanceProfile {
        id: "Completo".to_owned(),
        label: "Completo (30-60 min)".to_owned(),
        description: "Rapido + DISM, limpeza de componentes Windows, otimizacoes de disco.".to_owned(),
        command: ".\\executar-manutencao.ps1 -Perfil Completo".to_owned(),
        estimated_minutes: 45,
    });
    push_profile(&mut v, MaintenanceProfile {
        id: "AppsCriticos".to_owned(),
        label: concat3("Apps criticos (", p.ui.critical_apps_summary.as_str(), ")"),
        description: concat3("Limpa cache dos programas que mais travam + teste do servidor ", p.erp_name.as_str(), "."),
        command: ".\\executar-manutencao.ps1 -Perfil AppsCriticos".to_owned(),
        estimated_minutes: 10,
    });
    assert(profile_views(v@) =~= playbook_profiles(*p));
    v
}

fn tasks_v(p: &CompanyProfile) -> (r: Vec<MaintenanceTask>)
    ensures
        task_views(r@) == playbook_tasks(*p),
{
    let mut v: Vec<MaintenanceTask> = Vec::new();
    assert(task_views(v@) =~= Seq::<TaskV>::empty());
    push_task(&mut v, task(
        "winget_upgrade",
        "Atualizar tudo (winget)".to_owned(),
        "Atualiza apps instalados via winget, incluindo LibreOffice e utilitarios.".to_owned(),
        "winget upgrade --all --accept-package-agreements --accept-source-agreements --disable-interactivity".to_owned(),
        "Rapido",
        false,
        true,
    ));
    push_task(&mut v, task(
        "temp_cleanup",
        "Limpar arquivos temporarios".to_owned(),
        "Remove %TEMP%, C:\\Windows\\Temp e cache de miniaturas.".to_owned(),
        "Remove-Item $env:TEMP\\* -Recurse -Force -ErrorAction SilentlyContinue".to_owned(),
        "Rapido",
        false,
        true,
    ));
    push_task(&mut v, task(
        "dns_flush",
        "Limpar cache DNS".to_owned(),
        concat3("Resolve problemas de lentidao em apps que usam rede (", p.erp_name.as_str(), ")."),
        "ipconfig /flushdns".to_owned(),
        "Rapido",
        false,
        false,
    ));
    push_task(&mut v, task(
        "wu_check",
        "Verificar Windows Update".to_owned(),
        "Busca atualizacoes pendentes do Windows 10/11.".to_owned(),
        "UsoClient StartScan".to_owned(),
        "Rapido",
        true,
        true,
    ));
    push_task(&mut v, task(
        "dism_cleanup",
        "DISM — limpar componentes".to_owned(),
        "Libera espaco e corrige store do Windows (requer admin).".to_owned(),
        "DISM /Online /Cleanup-Image /StartComponentCleanup".to_owned(),
        "Completo",
        true,
        true,
    ));
    push_task(&mut v, task(
        "erp_ping",
        concat3("Testar servidor ", p.erp_name.as_str(), " ERP"),
        concat3("Verifica se ", p.erp_server_ip.as_str(), " responde na LAN."),
        concat3("Test-Connection ", p.erp_server_ip.as_str(), " -Count 3"),
        "AppsCriticos",
        false,
        false,
    ));
    push_task(&mut v, task(
        "fusion_cache",
        "Limpar cache Fusion 360".to_owned(),
        "Remove cache webdeploy da Autodesk.".to_owned(),
        "Remove-Item \"$env:LOCALAPPDATA\\Autodesk\\webdeploy\\production\\*\\packages\" -Recurse -Force -ErrorAction SilentlyContinue".to_owned(),
        "AppsCriticos",
        false,
        true,
    ));
    push_task(&mut v, task(
        "libre_cache",
        "Limpar cache LibreOffice".to_owned(),
        "Fecha travamentos do Draw/soffice.bin.".to_owned(),
        "Remove-Item \"$env:APPDATA\\LibreOffice\\4\\cache\\*\" -Recurse -Force -ErrorAction SilentlyContinue".to_owned(),
        "AppsCriticos",
        false,
        true,
    ));
    assert(task_views(v@) =~= playbook_tasks(*p));
    v
}

/// The playbook the dashboard shows and the diagnosis prompt lists.
pub fn maintenance_playbook(profile: &CompanyProfile, apps: &[FreezeProneApp]) -> (r: MaintenancePlaybook)
    ensures
        playbook_matches(r, *profile, freeze_views(apps@)),
{
    let ghost fv = freeze_views(apps@);
    let mut infos: Vec<FreezeProneAppInfo> = Vec::new();
    let mut i: usize = 0;
    while i < apps.len()
        invariant
            i <= apps@.len(),
            fv == freeze_views(apps@),
            infos@.len() == i,
            forall|k: int| 0 <= k < i ==> #[trigger] infos@[k]@ == app_info(fv[k]),
        decreases apps@.len() - i,
    {
        let a = &apps[i];
        assert(fv[i as int] == a@);
        infos.push(FreezeProneAppInfo {
            id: a.id.clone(),
            label: a.label.clone(),
            category: a.category.clone(),
            remediation: a.remediation.clone(),
        });
        i = i + 1;
    }
    assert(info_views(infos@) =~= fv.map_values(|a: FreezeV| app_info(a)));
    MaintenancePlaybook {
        erp_server_ip: profile.erp_server_ip.clone(),
        erp_name: profile.erp_name.clone(),
        freeze_prone_apps: infos,
        profiles: profiles_v(profile),
        tasks: tasks_v(profile),
        quick_start: ".\\executar-manutencao.ps1 -Perfil Rapido".to_owned(),
    }
}

} // verus!
