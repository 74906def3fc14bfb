//! The IT registration of a machine (owner, extension, e-mail, notes) kept by the
//! dashboard.

use vstd::prelude::*;
use crate::models::UtcTime;
use crate::text::{chars, to_string, trim, trim_v};

verus! {

pub struct MachineAdmin {
    pub owner_name: Option<String>,
    pub ramal: Option<String>,
    pub primary_email: Option<String>,
    pub network_cable: Option<String>,
    pub cybersul_user: Option<String>,
    pub nas_user: Option<String>,
    pub notes: Option<String>,
    pub maintenance_status: Option<String>,
    pub maintenance_notes: Option<String>,
    pub ti_comments: Option<String>,
    pub ticket_default_department: Option<String>,
    pub ticket_attendant_department: Option<String>,
    pub ticket_receive_departments: Vec<String>,
    pub updated_at: Option<UtcTime>,
}

/// An update of the registration as the dashboard sends it.
pub struct UpdateMachineAdmin {
    pub owner_name: Option<String>,
    pub ramal: Option<String>,
    pub primary_email: Option<String>,
    pub network_cable: Option<String>,
    pub cybersul_user: Option<String>,
    pub nas_user: Option<String>,
    pub notes: Option<String>,
    pub maintenance_status: Option<String>,
    pub maintenance_notes: Option<String>,
    pub ti_comments: Option<String>,
    pub ticket_default_department: Option<String>,
    pub ticket_attendant_department: Option<String>,
    pub ticket_receive_departments: Option<Vec<String>>,
}

pub open spec fn ostr(o: Option<String>) -> Option<Seq<char>> {
    match o {
        Some(s) => Some(s@),
        None => None,
    }
}

/// A copy of an optional text.
pub fn copy_opt(o: &Option<String>) -> (r: Option<String>)
    ensures
        ostr(r) == ostr(*o),
{
    match o {
        Some(s) => Some(s.clone()),
        None => None,
    }
}

/// A present value is trimmed; one that is empty after trimming counts as absent.
pub open spec fn empty_to_none_spec(s: Option<Seq<char>>) -> Option<Seq<char>> {
    match s {
        Some(v) => if trim(v).len() == 0 {
            None
        } else {
            Some(trim(v))
        },
        None => None,
    }
}

pub fn empty_to_none(s: Option<String>) -> (r: Option<String>)
    ensures
        ostr(r) == empty_to_none_spec(ostr(s)),
{
    match s {
        Some(v) => {
            let c = chars(v.as_str());
            let t = trim_v(&c);
            if t.len() == 0 {
                None
            } else {
                Some(to_string(&t))
            }
        },
        None => None,
    }
}

pub open spec fn record_of_spec(u: UpdateMachineAdmin, r: MachineAdmin) -> bool {
    &&& ostr(r.owner_name) == empty_to_none_spec(ostr(u.owner_name))
    &&& ostr(r.ramal) == empty_to_none_spec(ostr(u.ramal))
    &&& ostr(r.primary_email) == empty_to_none_spec(ostr(u.primary_email))
    &&& ostr(r.network_cable) == empty_to_none_spec(ostr(u.network_cable))
    &&& ostr(r.cybersul_user) == empty_to_none_spec(ostr(u.cybersul_user))
    &&& ostr(r.nas_user) == empty_to_none_spec(ostr(u.nas_user))
    &&& ostr(r.notes) == empty_to_none_spec(ostr(u.notes))
    &&& ostr(r.maintenance_status) == empty_to_none_spec(ostr(u.maintenance_status))
    &&& ostr(r.maintenance_notes) == empty_to_none_spec(ostr(u.maintenance_notes))
    &&& ostr(r.ti_comments) == empty_to_none_spec(ostr(u.ti_comments))
    &&& ostr(r.ticket_default_department) == empty_to_none_spec(ostr(u.ticket_default_department))
    &&& ostr(r.ticket_attendant_department) == empty_to_none_spec(
        ostr(u.ticket_attendant_department),
    )
    &&& r.ticket_receive_departments@ == match u.ticket_receive_departments {
        Some(v) => v@,
        None => Seq::empty(),
    }
    &&& r.updated_at is None
}

impl UpdateMachineAdmin {
    /// The stored registration: text fields trimmed, blank ones dropped.
    pub fn into_record(self) -> (r: MachineAdmin)
        ensures
            record_of_spec(self, r),
    {
        let ghost u = self;
        let receive = match self.ticket_receive_departments {
            Some(v) => v,
            None => Vec::new(),
        };
        MachineAdmin {
            owner_name: empty_to_none(self.owner_name),
            ramal: empty_to_none(self.ramal),
            primary_email: empty_to_none(self.primary_email),
            network_cable: empty_to_none(self.network_cable),
            cybersul_user: empty_to_none(self.cybersul_user),
            nas_user: empty_to_none(self.nas_user),
            notes: empty_to_none(self.notes),
            maintenance_status: empty_to_none(self.maintenance_status),
            maintenance_notes: empty_to_none(self.maintenance_notes),
            ti_comments: empty_to_none(self.ti_comments),
            ticket_default_department: empty_to_none(self.ticket_default_department),
            ticket_attendant_department: empty_to_none(self.ticket_attendant_department),
            ticket_receive_departments: receive,
            updated_at: None,
        }
    }
}

/// The e-mail to show: the registered one, else the first Thunderbird address.
pub open spec fn display_email_spec(admin: MachineAdmin, tb: Seq<String>) -> Option<Seq<char>> {
    match admin.primary_email {
        Some(e) => Some(e@),
        None => if tb.len() > 0 {
            Some(tb[0]@)
        } else {
            None
        },
    }
}

pub fn display_email(admin: &MachineAdmin, thunderbird_emails: &[String]) -> (r: Option<String>)
    ensures
        ostr(r) == display_email_spec(*admin, thunderbird_emails@),
{
    match &admin.primary_email {
        Some(e) => Some(e.clone()),
        None => if thunderbird_emails.len() > 0 {
            Some(thunderbird_emails[0].clone())
        } else {
            None
        },
    }
}

/// What a registration holds, as texts.
pub struct AdminView {
    pub owner_name: Option<Seq<char>>,
    pub ramal: Option<Seq<char>>,
    pub primary_email: Option<Seq<char>>,
    pub network_cable: Option<Seq<char>>,
    pub cybersul_user: Option<Seq<char>>,
    pub nas_user: Option<Seq<char>>,
    pub notes: Option<Seq<char>>,
    pub maintenance_status: Option<Seq<char>>,
    pub maintenance_notes: Option<Seq<char>>,
    pub ti_comments: Option<Seq<char>>,
    pub ticket_default_department: Option<Seq<char>>,
    pub ticket_attendant_department: Option<Seq<char>>,
    pub ticket_receive_departments: Seq<Seq<char>>,
    pub updated_at: Option<UtcTime>,
}

impl View for MachineAdmin {
    type V = AdminView;

    open spec fn view(&self) -> AdminView {
        AdminView {
            owner_name: ostr(self.owner_name),
            ramal: ostr(self.ramal),
            primary_email: ostr(self.primary_email),
            network_cable: ostr(self.network_cable),
            cybersul_user: ostr(self.cybersul_user),
            nas_user: ostr(self.nas_user),
            notes: ostr(self.notes),
            maintenance_status: ostr(self.maintenance_status),
            maintenance_notes: ostr(self.maintenance_notes),
            ti_comments: ostr(self.ti_comments),
            ticket_default_department: ostr(self.ticket_default_department),
            ticket_attendant_department: ostr(self.ticket_attendant_department),
            ticket_receive_departments: self.ticket_receive_departments@.map_values(|s: String| s@),
            updated_at: self.updated_at,
        }
    }
}

fn copy_strings(v: &Vec<String>) -> (r: Vec<String>)
    ensures
        r@.map_values(|s: String| s@) == v@.map_values(|s: String| s@),
{
    let mut r: Vec<String> = Vec::new();
    let mut i: usize = 0;
    while i < v.len()
        invariant
            i <= v@.len(),
            r@.len() == i,
            forall|k: int| 0 <= k < i ==> #[trigger] r@[k]@ == v@[k]@,
        decreases v@.len() - i,
    {
        r.push(v[i].clone());
        i = i + 1;
    }
    assert(r@.map_values(|s: String| s@) =~= v@.map_values(|s: String| s@));
    r
}

/// A copy of a registration.
pub fn copy_admin(a: &MachineAdmin) -> (r: MachineAdmin)
    ensures
        r@ == a@,
{
    MachineAdmin {
        owner_name: copy_opt(&a.owner_name),
        ramal: copy_opt(&a.ramal),
        primary_email: copy_opt(&a.primary_email),
        network_cable: copy_opt(&a.network_cable),
        cybersul_user: copy_opt(&a.cybersul_user),
        nas_user: copy_opt(&a.nas_user),
        notes: copy_opt(&a.notes),
        maintenance_status: copy_opt(&a.maintenance_status),
        maintenance_notes: copy_opt(&a.maintenance_notes),
        ti_comments: copy_opt(&a.ti_comments),
        ticket_default_department: copy_opt(&a.ticket_default_department),
        ticket_attendant_department: copy_opt(&a.ticket_attendant_department),
        ticket_receive_departments: copy_strings(&a.ticket_receive_departments),
        updated_at: a.updated_at,
    }
}

} // verus!
