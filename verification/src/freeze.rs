//! Corporate programs that tend to freeze, with the action plan that incidents about
//! them recommend.

use vstd::prelude::*;
use crate::compliance::views;
use crate::ext::{to_lowercase, lower_text};
use crate::models::{CompanyProfile, ErpBranchConfig};
use crate::text::{before_last_char, before_last_char_v, chars, contains, contains_v, extend, extend_str, to_string};

verus! {

#[derive(Clone)]
pub struct FreezeProneApp {
    pub id: String,
    pub label: String,
    pub category: String,
    pub process_patterns: Vec<String>,
    pub product_patterns: Vec<String>,
    pub install_paths: Vec<String>,
    pub remediation: String,
}

/// What a freeze-prone program holds, as texts.
pub type FreezeV = (Seq<char>, Seq<char>, Seq<char>, Seq<Seq<char>>, Seq<Seq<char>>, Seq<Seq<char>>, Seq<char>);

impl View for FreezeProneApp {
    type V = FreezeV;

    open spec fn view(&self) -> FreezeV {
        (
            self.id@,
            self.label@,
            self.category@,
            views(self.process_patterns@),
            views(self.product_patterns@),
            views(self.install_paths@),
            self.remediation@,
        )
    }
}

pub open spec fn freeze_views(a: Seq<FreezeProneApp>) -> Seq<FreezeV> {
    a.map_values(|x: FreezeProneApp| x@)
}

/// The action plan for an ERP branch whose client freezes.
pub open spec fn erp_remediation(server_ip: Seq<char>, install_dir: Seq<char>) -> Seq<char> {
    "1) Ping servidor ERP "@ + server_ip
        + " — se falhar, acionar TI rede. 2) Reiniciar o cliente ERP (Gerenciador de Tarefas). 3) Executar .\\executar-manutencao.ps1 -Perfil AppsCriticos. 4) Verificar cabo de rede e switch da LAN. 5) Se travar: limpar temp em "@
        + install_dir + "\\temp."@
}

pub open spec fn branch_app(b: ErpBranchConfig, p: CompanyProfile) -> FreezeV {
    (
        b.id@,
        b.label@ + " — "@ + b.install_path@,
        "erp"@,
        if b.process_patterns@.len() == 0 {
            seq!["sistema"@]
        } else {
            views(b.process_patterns@)
        },
        if b.product_patterns@.len() == 0 {
            seq!["client.exe"@, lower_text(p.erp_name@)]
        } else {
            views(b.product_patterns@)
        },
        seq![b.install_path@],
        erp_remediation(p.erp_server_ip@, before_last_char(b.install_path@, '\\')),
    )
}

pub open spec fn fusion_app() -> FreezeV {
    (
        "fusion360"@,
        "Fusion 360"@,
        "engenharia"@,
        seq!["fusion"@, "fusion360"@, "adsk"@],
        seq!["fusion"@, "autodesk fusion"@, "fusion360"@],
        Seq::empty(),
        "1) Fechar Fusion e limpar cache: %LOCALAPPDATA%\\Autodesk\\webdeploy. 2) Atualizar drivers de video (NVIDIA/AMD). 3) Garantir 8+ GB RAM livre antes de abrir projetos grandes. 4) winget upgrade Autodesk.Fusion360. 5) Executar .\\executar-manutencao.ps1 -Perfil AppsCriticos."@,
    )
}

pub open spec fn autocad_app() -> FreezeV {
    (
        "autocad"@,
        "AutoCAD"@,
        "engenharia"@,
        seq!["acad"@, "autocad"@],
        seq!["autocad"@, "acad.exe"@],
        Seq::empty(),
        "1) Salvar DWG e reiniciar AutoCAD. 2) Limpar %LOCALAPPDATA%\\Autodesk\\ADPSDK e temp AC*. 3) PURGE e AUDIT no desenho se lento. 4) Desativar hardware acceleration se travar ao renderizar. 5) Executar .\\executar-manutencao.ps1 -Perfil AppsCriticos."@,
    )
}

pub open spec fn libreoffice_app() -> FreezeV {
    (
        "libreoffice"@,
        "LibreOffice"@,
        "escritorio"@,
        seq!["soffice"@, "libreoffice"@],
        seq!["libreoffice"@, "soffice.bin"@, "soffice.exe"@, "writer"@, "calc"@],
        Seq::empty(),
        "1) Fechar todos os soffice.bin no Gerenciador de Tarefas. 2) Limpar cache em %APPDATA%\\LibreOffice\\4\\cache. 3) winget upgrade TheDocumentFoundation.LibreOffice. 4) Executar .\\executar-manutencao.ps1 -Perfil AppsCriticos."@,
    )
}

pub open spec fn libredraw_app() -> FreezeV {
    (
        "libredraw"@,
        "LibreOffice Draw"@,
        "escritorio"@,
        seq!["soffice"@, "libreoffice"@],
        seq!["libreoffice"@, "soffice.bin"@, "draw"@],
        Seq::empty(),
        "1) Fechar todos os soffice.bin no Gerenciador de Tarefas. 2) Limpar cache em %APPDATA%\\LibreOffice\\4\\cache. 3) winget upgrade TheDocumentFoundation.LibreOffice. 4) Abrir Draw com Recovery desabilitado se arquivo corrompido. 5) Executar .\\executar-manutencao.ps1 -Perfil AppsCriticos."@,
    )
}

/// One program per ERP branch of the profile, then Fusion 360, AutoCAD,
/// LibreOffice and LibreOffice Draw.
pub open spec fn freeze_apps_spec(p: CompanyProfile) -> Seq<FreezeV> {
    p.erp_branches@.map_values(|b: ErpBranchConfig| branch_app(b, p)) + seq![
        fusion_app(),
        autocad_app(),
        libreoffice_app(),
        libredraw_app(),
    ]
}

fn strings(items: Vec<&str>) -> (r: Vec<String>)
    ensures
        r@.len() == items@.len(),
        views(r@) == items@.map_values(|x: &str| x@),
{
    let mut r: Vec<String> = Vec::new();
    let mut i: usize = 0;
    while i < items.len()
        invariant
            i <= items@.len(),
            r@.len() == i,
            views(r@) == items@.take(i as int).map_values(|x: &str| x@),
        decreases items@.len() - i,
    {
        let ghost r0 = r@;
        r.push(items[i].to_owned());
        i = i + 1;
        assert forall|j: int| 0 <= j < i implies #[trigger] views(r@)[j] == items@.take(i as int).map_values(|x: &str| x@)[j] by {
            if j < i - 1 {
                assert(r@[j] == r0[j]);
                assert(views(r0)[j] == r0[j]@);
            }
        }
        assert(views(r@) =~= items@.take(i as int).map_values(|x: &str| x@));
    }
    assert(items@.take(items@.len() as int) =~= items@);
    r
}

fn copy_strings(v: &Vec<String>) -> (r: Vec<String>)
    ensures
        views(r@) == views(v@),
{
    let mut r: Vec<String> = Vec::new();
    let mut i: usize = 0;
    while i < v.len()
        invariant
            i <= v@.len(),
            r@.len() == i,
            views(r@) == views(v@).take(i as int),
        decreases v@.len() - i,
    {
        let ghost r0 = r@;
        r.push(v[i].clone());
        i = i + 1;
        assert forall|j: int| 0 <= j < i implies #[trigger] views(r@)[j] == views(v@).take(i as int)[j] by {
            if j < i - 1 {
                assert(r@[j] == r0[j]);
                assert(views(r0)[j] == r0[j]@);
            }
        }
        assert(views(r@) =~= views(v@).take(i as int));
    }
    assert(views(v@).take(v@.len() as int) =~= views(v@));
    r
}

fn app_of(id: &str, label: &str, category: &str, process: Vec<&str>, product: Vec<&str>, remediation: &str) -> (r: FreezeProneApp)
    ensures
        r@ == (
            id@,
            label@,
            category@,
            process@.map_values(|x: &str| x@),
            product@.map_values(|x: &str| x@),
            Seq::<Seq<char>>::empty(),
            remediation@,
        ),
{
    let paths: Vec<String> = Vec::new();
    assert(views(paths@) =~= Seq::<Seq<char>>::empty());
    FreezeProneApp {
        id: id.to_owned(),
        label: label.to_owned(),
        category: category.to_owned(),
        process_patterns: strings(process),
        product_patterns: strings(product),
        install_paths: paths,
        remediation: remediation.to_owned(),
    }
}

fn branch_app_v(b: &ErpBranchConfig, p: &CompanyProfile) -> (r: FreezeProneApp)
    ensures
        r@ == branch_app(*b, *p),
{
    let path = chars(b.install_path.as_str());
    let dir = before_last_char_v(&path, '\\');
    let mut label = chars(b.label.as_str());
    extend_str(&mut label, " — ");
    extend(&mut label, &path);
    let process = if b.process_patterns.len() == 0 {
        strings(vec!["sistema"])
    } else {
        copy_strings(&b.process_patterns)
    };
    let product = if b.product_patterns.len() == 0 {
        let mut v = strings(vec!["client.exe"]);
        let ghost v0 = v@;
        v.push(to_lowercase(p.erp_name.as_str()));
        assert(v@[0] == v0[0]);
        assert(views(v0)[0] == v0[0]@);
        assert(views(v@) =~= seq!["client.exe"@, lower_text(p.erp_name@)]);
        v
    } else {
        copy_strings(&b.product_patterns)
    };
    let mut rem = chars("1) Ping servidor ERP ");
    extend_str(&mut rem, p.erp_server_ip.as_str());
    extend_str(
        &mut rem,
        " — se falhar, acionar TI rede. 2) Reiniciar o cliente ERP (Gerenciador de Tarefas). 3) Executar .\\executar-manutencao.ps1 -Perfil AppsCriticos. 4) Verificar cabo de rede e switch da LAN. 5) Se travar: limpar temp em ",
    );
    extend(&mut rem, &dir);
    extend_str(&mut rem, "\\temp.");
    let paths = strings(vec![b.install_path.as_str()]);
    assert(views(paths@) =~= seq![b.install_path@]);
    let r = FreezeProneApp {
        id: b.id.clone(),
        label: to_string(&label),
        category: "erp".to_owned(),
        process_patterns: process,
        product_patterns: product,
        install_paths: paths,
        remediation: to_string(&rem),
    };
    assert(r@.3 =~= branch_app(*b, *p).3);
    assert(r@.4 =~= branch_app(*b, *p).4);
    r
}

/// The freeze-prone programs of a company profile.
pub fn build_freeze_prone_apps(profile: &CompanyProfile) -> (r: Vec<FreezeProneApp>)
    ensures
        freeze_views(r@) == freeze_apps_spec(*profile),
{
    let mut apps: Vec<FreezeProneApp> = Vec::new();
    let ghost bs = profile.erp_branches@.map_values(|b: ErpBranchConfig| branch_app(b, *profile));
    let mut i: usize = 0;
    while i < profile.erp_branches.len()
        invariant
            i <= profile.erp_branches@.len(),
            bs == profile.erp_branches@.map_values(|b: ErpBranchConfig| branch_app(b, *profile)),
            apps@.len() == i,
            freeze_views(apps@) == bs.take(i as int),
        decreases profile.erp_branches@.len() - i,
    {
        let a = branch_app_v(&profile.erp_branches[i], profile);
        let ghost a0 = apps@;
        apps.push(a);
        i = i + 1;
        assert forall|j: int| 0 <= j < i implies #[trigger] freeze_views(apps@)[j] == bs.take(i as int)[j] by {
            if j < i - 1 {
                assert(apps@[j] == a0[j]);
                assert(freeze_views(a0)[j] == a0[j]@);
            }
        }
        assert(freeze_views(apps@) =~= bs.take(i as int));
    }
    assert(bs.take(bs.len() as int) =~= bs);
    let ghost n: int = apps@.len() as int;
    apps.push(
        app_of(
            "fusion360",
            "Fusion 360",
            "engenharia",
            vec!["fusion", "fusion360", "adsk"],
            vec!["fusion", "autodesk fusion", "fusion360"],
            "1) Fechar Fusion e limpar cache: %LOCALAPPDATA%\\Autodesk\\webdeploy. 2) Atualizar drivers de video (NVIDIA/AMD). 3) Garantir 8+ GB RAM livre antes de abrir projetos grandes. 4) winget upgrade Autodesk.Fusion360. 5) Executar .\\executar-manutencao.ps1 -Perfil AppsCriticos.",
        ),
    );
    apps.push(
        app_of(
            "autocad",
            "AutoCAD",
            "engenharia",
            vec!["acad", "autocad"],
            vec!["autocad", "acad.exe"],
            "1) Salvar DWG e reiniciar AutoCAD. 2) Limpar %LOCALAPPDATA%\\Autodesk\\ADPSDK e temp AC*. 3) PURGE e AUDIT no desenho se lento. 4) Desativar hardware acceleration se travar ao renderizar. 5) Executar .\\executar-manutencao.ps1 -Perfil AppsCriticos.",
        ),
    );
    apps.push(
        app_of(
            "libreoffice",
            "LibreOffice",
            "escritorio",
            vec!["soffice", "libreoffice"],
            vec!["libreoffice", "soffice.bin", "soffice.exe", "writer", "calc"],
            "1) Fechar todos os soffice.bin no Gerenciador de Tarefas. 2) Limpar cache em %APPDATA%\\LibreOffice\\4\\cache. 3) winget upgrade TheDocumentFoundation.LibreOffice. 4) Executar .\\executar-manutencao.ps1 -Perfil AppsCriticos.",
        ),
    );
    apps.push(
        app_of(
            "libredraw",
            "LibreOffice Draw",
            "escritorio",
            vec!["soffice", "libreoffice"],
            vec!["libreoffice", "soffice.bin", "draw"],
            "1) Fechar todos os soffice.bin no Gerenciador de Tarefas. 2) Limpar cache em %APPDATA%\\LibreOffice\\4\\cache. 3) winget upgrade TheDocumentFoundation.LibreOffice. 4) Abrir Draw com Recovery desabilitado se arquivo corrompido. 5) Executar .\\executar-manutencao.ps1 -Perfil AppsCriticos.",
        ),
    );
    assert(freeze_views(apps@) =~= freeze_apps_spec(*profile)) by {
        assert(freeze_views(apps@)[n] =~~= fusion_app());
        assert(freeze_views(apps@)[n + 1] =~~= autocad_app());
        assert(freeze_views(apps@)[n + 2] =~~= libreoffice_app());
        assert(freeze_views(apps@)[n + 3] =~~= libredraw_app());
    }
    apps
}

/// Whether some pattern occurs in a (lower-case) text.
pub open spec fn any_pattern(text: Seq<char>, pats: Seq<Seq<char>>) -> bool {
    exists|i: int| 0 <= i < pats.len() && contains(text, #[trigger] pats[i])
}

/// Index of the first program one of whose patterns (as chosen by `product`) occurs
/// in `text`, or -1.
pub open spec fn first_match(text: Seq<char>, apps: Seq<FreezeV>, product: bool) -> int
    decreases apps.len(),
{
    if apps.len() == 0 {
        -1
    } else if any_pattern(text, if product { apps[0].4 } else { apps[0].3 }) {
        0
    } else {
        let r = first_match(text, apps.drop_first(), product);
        if r < 0 {
            -1
        } else {
            r + 1
        }
    }
}

proof fn lemma_first_match_at(text: Seq<char>, apps: Seq<FreezeV>, product: bool, i: int)
    requires
        0 <= i <= apps.len(),
        forall|j: int| 0 <= j < i ==> !any_pattern(text, if product { (#[trigger] apps[j]).4 } else { apps[j].3 }),
        i == apps.len() || any_pattern(text, if product { apps[i].4 } else { apps[i].3 }),
    ensures
        first_match(text, apps, product) == if i == apps.len() {
            -1
        } else {
            i
        },
    decreases i,
{
    if i > 0 {
        let t = apps.drop_first();
        assert forall|j: int| 0 <= j < i - 1 implies !any_pattern(text, if product { (#[trigger] t[j]).4 } else { t[j].3 }) by {
            assert(t[j] == apps[j + 1]);
        }
        if i - 1 < t.len() {
            assert(t[i - 1] == apps[i]);
        }
        lemma_first_match_at(text, t, product, i - 1);
    }
}

fn any_pattern_v(text: &Vec<char>, pats: &Vec<String>) -> (r: bool)
    ensures
        r == any_pattern(text@, views(pats@)),
{
    let mut i: usize = 0;
    while i < pats.len()
        invariant
            i <= pats@.len(),
            forall|j: int| 0 <= j < i ==> !contains(text@, #[trigger] views(pats@)[j]),
        decreases pats@.len() - i,
    {
        let p = chars(pats[i].as_str());
        if contains_v(text, &p) {
            assert(views(pats@)[i as int] == p@);
            return true;
        }
        i = i + 1;
    }
    false
}

fn find_app<'a>(text: &Vec<char>, apps: &'a [FreezeProneApp], product: bool) -> (r: Option<&'a FreezeProneApp>)
    ensures
        match r {
            Some(a) => {
                let k = first_match(text@, freeze_views(apps@), product);
                0 <= k < apps@.len() && *a == apps@[k]
            },
            None => first_match(text@, freeze_views(apps@), product) == -1,
        },
{
    let ghost fv = freeze_views(apps@);
    let mut i: usize = 0;
    while i < apps.len()
        invariant
            i <= apps@.len(),
            fv == freeze_views(apps@),
            forall|j: int| 0 <= j < i ==> !any_pattern(text@, if product { (#[trigger] fv[j]).4 } else { fv[j].3 }),
        decreases apps@.len() - i,
    {
        let app = &apps[i];
        assert(fv[i as int] == app@);
        let hit = if product {
            any_pattern_v(text, &app.product_patterns)
        } else {
            any_pattern_v(text, &app.process_patterns)
        };
        if hit {
            proof {
                lemma_first_match_at(text@, fv, product, i as int);
            }
            return Some(app);
        }
        i = i + 1;
    }
    proof {
        lemma_first_match_at(text@, fv, product, i as int);
    }
    None
}

/// The first program one of whose product patterns occurs in the lower-cased product
/// name.
pub fn match_product<'a>(product: &str, apps: &'a [FreezeProneApp]) -> (r: Option<&'a FreezeProneApp>)
    ensures
        match r {
            Some(a) => {
                let k = first_match(lower_text(product@), freeze_views(apps@), true);
                0 <= k < apps@.len() && *a == apps@[k]
            },
            None => first_match(lower_text(product@), freeze_views(apps@), true) == -1,
        },
{
    let p = chars(to_lowercase(product).as_str());
    find_app(&p, apps, true)
}

/// The first program one of whose process patterns occurs in the lower-cased process
/// name.
pub fn match_process<'a>(name: &str, apps: &'a [FreezeProneApp]) -> (r: Option<&'a FreezeProneApp>)
    ensures
        match r {
            Some(a) => {
                let k = first_match(lower_text(name@), freeze_views(apps@), false);
                0 <= k < apps@.len() && *a == apps@[k]
            },
            None => first_match(lower_text(name@), freeze_views(apps@), false) == -1,
        },
{
    let n = chars(to_lowercase(name).as_str());
    find_app(&n, apps, false)
}

pub open spec fn erp_unreachable_spec(p: CompanyProfile) -> Seq<char> {
    "Servidor ERP "@ + p.erp_server_ip@
        + " inalcancavel. Verificar: cabo de rede, switch, servidor ligado, ping "@
        + p.erp_server_ip@ + " no CMD. "@ + p.erp_name@
        + " depende da LAN — sem servidor o cliente trava ou fica lento. Acionar TI de rede antes de reiniciar o PC."@
}

/// The action plan when the ERP server cannot be reached.
pub fn erp_unreachable_remediation(profile: &CompanyProfile) -> (r: String)
    ensures
        r@ == erp_unreachable_spec(*profile),
{
    let mut m = chars("Servidor ERP ");
    extend_str(&mut m, profile.erp_server_ip.as_str());
    extend_str(&mut m, " inalcancavel. Verificar: cabo de rede, switch, servidor ligado, ping ");
    extend_str(&mut m, profile.erp_server_ip.as_str());
    extend_str(&mut m, " no CMD. ");
    extend_str(&mut m, profile.erp_name.as_str());
    extend_str(
        &mut m,
        " depende da LAN — sem servidor o cliente trava ou fica lento. Acionar TI de rede antes de reiniciar o PC.",
    );
    to_string(&m)
}

} // verus!
