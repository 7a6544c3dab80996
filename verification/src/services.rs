use vstd::prelude::*;

use crate::text::{decimal, decimal_string, join_strings, join_with};

verus! {

/// Service states, as the service control manager reports them.
pub const SERVICE_STOPPED: u32 = 1;

pub const SERVICE_START_PENDING: u32 = 2;

pub const SERVICE_STOP_PENDING: u32 = 3;

pub const SERVICE_RUNNING: u32 = 4;

pub const SERVICE_CONTINUE_PENDING: u32 = 5;

pub const SERVICE_PAUSE_PENDING: u32 = 6;

pub const SERVICE_PAUSED: u32 = 7;

/// Service start types, as the service control manager reports them.
pub const SERVICE_BOOT_START: u32 = 0;

pub const SERVICE_SYSTEM_START: u32 = 1;

pub const SERVICE_AUTO_START: u32 = 2;

pub const SERVICE_DEMAND_START: u32 = 3;

pub const SERVICE_DISABLED: u32 = 4;

pub open spec fn service_state_label(state: u32) -> Seq<char> {
    if state == SERVICE_RUNNING {
        "Running"@
    } else if state == SERVICE_STOPPED {
        "Stopped"@
    } else if state == SERVICE_START_PENDING {
        "Start pending"@
    } else if state == SERVICE_STOP_PENDING {
        "Stop pending"@
    } else if state == SERVICE_CONTINUE_PENDING {
        "Continue pending"@
    } else if state == SERVICE_PAUSE_PENDING {
        "Pause pending"@
    } else if state == SERVICE_PAUSED {
        "Paused"@
    } else {
        "Unknown"@
    }
}

pub open spec fn service_start_label(start_type: u32) -> Seq<char> {
    if start_type == SERVICE_AUTO_START {
        "Automatic"@
    } else if start_type == SERVICE_DEMAND_START {
        "Manual"@
    } else if start_type == SERVICE_DISABLED {
        "Disabled"@
    } else if start_type == SERVICE_BOOT_START {
        "Boot"@
    } else if start_type == SERVICE_SYSTEM_START {
        "System"@
    } else {
        "Unknown"@
    }
}

/// The text shown for a service state.
pub fn service_state_text(state: u32) -> (r: &'static str)
    ensures
        r@ == service_state_label(state),
{
    if state == SERVICE_RUNNING {
        "Running"
    } else if state == SERVICE_STOPPED {
        "Stopped"
    } else if state == SERVICE_START_PENDING {
        "Start pending"
    } else if state == SERVICE_STOP_PENDING {
        "Stop pending"
    } else if state == SERVICE_CONTINUE_PENDING {
        "Continue pending"
    } else if state == SERVICE_PAUSE_PENDING {
        "Pause pending"
    } else if state == SERVICE_PAUSED {
        "Paused"
    } else {
        "Unknown"
    }
}

/// The text shown for a service start type.
pub fn service_start_type_text(start_type: u32) -> (r: &'static str)
    ensures
        r@ == service_start_label(start_type),
{
    if start_type == SERVICE_AUTO_START {
        "Automatic"
    } else if start_type == SERVICE_DEMAND_START {
        "Manual"
    } else if start_type == SERVICE_DISABLED {
        "Disabled"
    } else if start_type == SERVICE_BOOT_START {
        "Boot"
    } else if start_type == SERVICE_SYSTEM_START {
        "System"
    } else {
        "Unknown"
    }
}

/// A service the game needs: its service name and its display name.
#[derive(Debug, Clone, Copy)]
pub struct ServiceRequirement {
    pub name: &'static str,
    pub display: &'static str,
}

/// The services the game needs, in the order they are shown.
pub open spec fn required_service_table() -> Seq<(Seq<char>, Seq<char>)> {
    seq![
        ("AppXSVC"@, "AppX Deployment Service"@),
        ("ClipSVC"@, "Client License Service"@),
        ("InstallService"@, "Microsoft Store Install Service"@),
        ("LicenseManager"@, "Windows License Manager Service"@),
        ("StateRepository"@, "State Repository Service"@),
        ("AppReadiness"@, "App Readiness"@),
        ("BITS"@, "Background Intelligent Transfer Service"@),
        ("wuauserv"@, "Windows Update"@),
        ("WaaSMedicSvc"@, "Windows Update Medic Service"@),
        ("DoSvc"@, "Delivery Optimization"@),
        ("UsoSvc"@, "Update Orchestrator Service"@),
        ("XblAuthManager"@, "Xbox Live Auth Manager"@),
        ("XblGameSave"@, "Xbox Live Game Save"@),
        ("XboxNetApiSvc"@, "Xbox Live Networking Service"@),
        ("GamingServices"@, "Gaming Services"@),
    ]
}

pub open spec fn requirements_match_table(r: Seq<ServiceRequirement>) -> bool {
    &&& r.len() == required_service_table().len()
    &&& forall|i: int|
        0 <= i < r.len() ==> (#[trigger] r[i].name@, r[i].display@) == required_service_table()[i]
}

fn push_requirement(v: &mut Vec<ServiceRequirement>, name: &'static str, display: &'static str)
    ensures
        final(v)@ == old(v)@.push(ServiceRequirement { name, display }),
{
    v.push(ServiceRequirement { name, display });
}

/// The services the game needs.
pub fn required_services() -> (r: Vec<ServiceRequirement>)
    ensures
        requirements_match_table(r@),
{
    let mut v: Vec<ServiceRequirement> = Vec::new();
    push_requirement(&mut v, "AppXSVC", "AppX Deployment Service");
    push_requirement(&mut v, "ClipSVC", "Client License Service");
    push_requirement(&mut v, "InstallService", "Microsoft Store Install Service");
    push_requirement(&mut v, "LicenseManager", "Windows License Manager Service");
    push_requirement(&mut v, "StateRepository", "State Repository Service");
    push_requirement(&mut v, "AppReadiness", "App Readiness");
    push_requirement(&mut v, "BITS", "Background Intelligent Transfer Service");
    push_requirement(&mut v, "wuauserv", "Windows Update");
    push_requirement(&mut v, "WaaSMedicSvc", "Windows Update Medic Service");
    push_requirement(&mut v, "DoSvc", "Delivery Optimization");
    push_requirement(&mut v, "UsoSvc", "Update Orchestrator Service");
    push_requirement(&mut v, "XblAuthManager", "Xbox Live Auth Manager");
    push_requirement(&mut v, "XblGameSave", "Xbox Live Game Save");
    push_requirement(&mut v, "XboxNetApiSvc", "Xbox Live Networking Service");
    push_requirement(&mut v, "GamingServices", "Gaming Services");
    assert forall|i: int| 0 <= i < v@.len() implies (#[trigger] v@[i].name@, v@[i].display@)
        == required_service_table()[i] by {}
    v
}

/// The state of one required service, as shown.
#[derive(Debug, Clone)]
pub struct ServiceStatusInfo {
    pub display: String,
    pub state: String,
    pub start_type: String,
    pub is_disabled: bool,
    pub error: Option<String>,
}

pub struct ServiceStatusView {
    pub display: Seq<char>,
    pub state: Seq<char>,
    pub start_type: Seq<char>,
    pub is_disabled: bool,
    pub error: Option<Seq<char>>,
}

pub open spec fn opt_view(s: Option<String>) -> Option<Seq<char>> {
    match s {
        Some(x) => Some(x@),
        None => None,
    }
}

impl View for ServiceStatusInfo {
    type V = ServiceStatusView;

    open spec fn view(&self) -> ServiceStatusView {
        ServiceStatusView {
            display: self.display@,
            state: self.state@,
            start_type: self.start_type@,
            is_disabled: self.is_disabled,
            error: opt_view(self.error),
        }
    }
}

/// How querying one service went: the service could not be opened; its status
/// could not be read; its status was read but no configuration size was
/// reported; its configuration could not be read; or both were read. Errors
/// are the text of the system error.
#[derive(Debug, Clone)]
pub enum ServiceQuery {
    OpenFailed(String),
    StatusFailed(String),
    ConfigUnavailable(u32),
    ConfigFailed(u32, String),
    Complete(u32, u32),
}

pub open spec fn status_view(
    display: Seq<char>,
    state: Seq<char>,
    start_type: Seq<char>,
    is_disabled: bool,
    error: Option<Seq<char>>,
) -> ServiceStatusView {
    ServiceStatusView { display, state, start_type, is_disabled, error }
}

/// What is shown of a service after querying it.
pub open spec fn service_info_of(display: Seq<char>, q: ServiceQuery) -> ServiceStatusView {
    match q {
        ServiceQuery::OpenFailed(e) => status_view(
            display,
            "Missing"@,
            "Unknown"@,
            false,
            Some("OpenService failed: "@ + e@),
        ),
        ServiceQuery::StatusFailed(e) => status_view(
            display,
            "Unknown"@,
            "Unknown"@,
            false,
            Some("Status query failed: "@ + e@),
        ),
        ServiceQuery::ConfigUnavailable(state) => status_view(
            display,
            service_state_label(state),
            "Unknown"@,
            false,
            Some("Config query failed"@),
        ),
        ServiceQuery::ConfigFailed(state, e) => status_view(
            display,
            service_state_label(state),
            "Unknown"@,
            false,
            Some("Config query failed: "@ + e@),
        ),
        ServiceQuery::Complete(state, start) => status_view(
            display,
            service_state_label(state),
            service_start_label(start),
            start == SERVICE_DISABLED,
            None,
        ),
    }
}

fn prefixed(prefix: &str, text: &String) -> (r: String)
    ensures
        r@ == prefix@ + text@,
{
    let mut r = String::from_str(prefix);
    r.append(text.as_str());
    r
}

/// What is shown of a required service, given how querying it went.
pub fn query_service_info(req: &ServiceRequirement, query: &ServiceQuery) -> (r: ServiceStatusInfo)
    ensures
        r@ == service_info_of(req.display@, *query),
{
    let display = String::from_str(req.display);
    match query {
        ServiceQuery::OpenFailed(e) => ServiceStatusInfo {
            display,
            state: String::from_str("Missing"),
            start_type: String::from_str("Unknown"),
            is_disabled: false,
            error: Some(prefixed("OpenService failed: ", e)),
        },
        ServiceQuery::StatusFailed(e) => ServiceStatusInfo {
            display,
            state: String::from_str("Unknown"),
            start_type: String::from_str("Unknown"),
            is_disabled: false,
            error: Some(prefixed("Status query failed: ", e)),
        },
        ServiceQuery::ConfigUnavailable(state) => ServiceStatusInfo {
            display,
            state: String::from_str(service_state_text(*state)),
            start_type: String::from_str("Unknown"),
            is_disabled: false,
            error: Some(String::from_str("Config query failed")),
        },
        ServiceQuery::ConfigFailed(state, e) => ServiceStatusInfo {
            display,
            state: String::from_str(service_state_text(*state)),
            start_type: String::from_str("Unknown"),
            is_disabled: false,
            error: Some(prefixed("Config query failed: ", e)),
        },
        ServiceQuery::Complete(state, start) => ServiceStatusInfo {
            display,
            state: String::from_str(service_state_text(*state)),
            start_type: String::from_str(service_start_type_text(*start)),
            is_disabled: *start == SERVICE_DISABLED,
            error: None,
        },
    }
}

/// A required service is switched to manual start when it was read without
/// error and is disabled.
pub fn needs_manual_start(info: &ServiceStatusInfo) -> (r: bool)
    ensures
        r == (info.error is None && info.is_disabled),
{
    info.error.is_none() && info.is_disabled
}

/// The state of every required service: from the queries, one per required
/// service in order, when the service manager could be opened; else every
/// service unknown, with the error.
pub fn detect_services(scm: std::result::Result<Vec<ServiceQuery>, String>) -> (r: (
    Vec<ServiceStatusInfo>,
    Option<String>,
))
    requires
        scm matches Ok(qs) ==> qs@.len() == required_service_table().len(),
    ensures
        r.0@.len() == required_service_table().len(),
        match scm {
            Ok(qs) => r.1 is None && forall|i: int|
                0 <= i < r.0@.len() ==> (#[trigger] r.0@[i])@ == service_info_of(
                    required_service_table()[i].1,
                    qs@[i],
                ),
            Err(e) => r.1 matches Some(m) && m@ == "OpenSCManager failed: "@ + e@ && forall|i: int|
                0 <= i < r.0@.len() ==> (#[trigger] r.0@[i])@ == status_view(
                    required_service_table()[i].1,
                    "Unknown"@,
                    "Unknown"@,
                    false,
                    Some("OpenSCManager failed: "@ + e@),
                ),
        },
{
    let reqs = required_services();
    let mut services: Vec<ServiceStatusInfo> = Vec::new();
    match scm {
        Ok(queries) => {
            let mut i: usize = 0;
            while i < reqs.len()
                invariant
                    requirements_match_table(reqs@),
                    queries@.len() == reqs@.len(),
                    i <= reqs@.len(),
                    services@.len() == i,
                    forall|k: int|
                        0 <= k < i ==> (#[trigger] services@[k])@ == service_info_of(
                            required_service_table()[k].1,
                            queries@[k],
                        ),
                decreases reqs@.len() - i,
            {
                assert((reqs@[i as int].name@, reqs@[i as int].display@)
                    == required_service_table()[i as int]);
                services.push(query_service_info(&reqs[i], &queries[i]));
                i = i + 1;
            }
            (services, None)
        },
        Err(raw) => {
            let err = prefixed("OpenSCManager failed: ", &raw);
            let mut i: usize = 0;
            while i < reqs.len()
                invariant
                    requirements_match_table(reqs@),
                    i <= reqs@.len(),
                    services@.len() == i,
                    err@ == "OpenSCManager failed: "@ + raw@,
                    forall|k: int|
                        0 <= k < i ==> (#[trigger] services@[k])@ == status_view(
                            required_service_table()[k].1,
                            "Unknown"@,
                            "Unknown"@,
                            false,
                            Some(err@),
                        ),
                decreases reqs@.len() - i,
            {
                assert((reqs@[i as int].name@, reqs@[i as int].display@)
                    == required_service_table()[i as int]);
                services.push(
                    ServiceStatusInfo {
                        display: String::from_str(reqs[i].display),
                        state: String::from_str("Unknown"),
                        start_type: String::from_str("Unknown"),
                        is_disabled: false,
                        error: Some(err.clone()),
                    },
                );
                i = i + 1;
            }
            (services, Some(err))
        },
    }
}

/// Why switching a service to manual start failed: the service could not be
/// opened for configuration, or the change was refused. Errors are the text of
/// the system error.
#[derive(Debug, Clone)]
pub enum ServiceChangeError {
    OpenFailed(String),
    ChangeFailed(String),
}

pub open spec fn change_error_text(e: ServiceChangeError) -> Seq<char> {
    match e {
        ServiceChangeError::OpenFailed(t) => "OpenService failed: "@ + t@,
        ServiceChangeError::ChangeFailed(t) => "ChangeServiceConfig failed: "@ + t@,
    }
}

/// What happened to one required service when fixing: how querying it went and,
/// when a switch to manual start was tried, how that went.
#[derive(Debug, Clone)]
pub struct ServiceFixAttempt {
    pub query: ServiceQuery,
    pub change: Option<std::result::Result<(), ServiceChangeError>>,
}

/// The error of one attempt, if any: the query's, else the change's.
pub open spec fn attempt_error(display: Seq<char>, a: ServiceFixAttempt) -> Option<Seq<char>> {
    match service_info_of(display, a.query).error {
        Some(e) => Some(e),
        None => match a.change {
            Some(Err(e)) => Some(change_error_text(e)),
            _ => None,
        },
    }
}

/// The error lines of the attempts, `name: error`, in order.
pub open spec fn fix_error_lines(attempts: Seq<ServiceFixAttempt>) -> Seq<Seq<char>>
    decreases attempts.len(),
{
    if attempts.len() == 0 {
        Seq::empty()
    } else {
        let k = attempts.len() - 1;
        let rest = fix_error_lines(attempts.drop_last());
        match attempt_error(required_service_table()[k].1, attempts.last()) {
            Some(e) => rest.push(required_service_table()[k].0 + ": "@ + e),
            None => rest,
        }
    }
}

/// The outcome of switching the disabled required services to manual start:
/// nothing when all went well, else the error lines joined by newlines. When
/// the service manager could not be opened, that error alone.
pub fn set_disabled_services_manual(
    scm: std::result::Result<Vec<ServiceFixAttempt>, String>,
) -> (r: Option<String>)
    requires
        scm matches Ok(attempts) ==> attempts@.len() == required_service_table().len(),
    ensures
        match scm {
            Err(e) => r matches Some(m) && m@ == "OpenSCManager failed: "@ + e@,
            Ok(attempts) => {
                let lines = fix_error_lines(attempts@);
                if lines.len() == 0 {
                    r is None
                } else {
                    r matches Some(m) && m@ == join_with(lines, "\n"@)
                }
            },
        },
{
    let attempts = match scm {
        Ok(a) => a,
        Err(raw) => return Some(prefixed("OpenSCManager failed: ", &raw)),
    };
    let reqs = required_services();
    let mut errors: Vec<String> = Vec::new();
    let mut i: usize = 0;
    assert(attempts@.take(0) =~= Seq::<ServiceFixAttempt>::empty());
    while i < attempts.len()
        invariant
            requirements_match_table(reqs@),
            attempts@.len() == reqs@.len(),
            i <= attempts@.len(),
            errors@.map_values(|l: String| l@) == fix_error_lines(attempts@.take(i as int)),
        decreases attempts@.len() - i,
    {
        assert(attempts@.take(i + 1).drop_last() =~= attempts@.take(i as int));
        assert(attempts@.take(i + 1).last() == attempts@[i as int]);
        assert((reqs@[i as int].name@, reqs@[i as int].display@)
            == required_service_table()[i as int]);
        let info = query_service_info(&reqs[i], &attempts[i].query);
        let ghost before = errors@;
        match info.error {
            Some(e) => {
                let mut line = String::from_str(reqs[i].name);
                line.append(": ");
                line.append(e.as_str());
                errors.push(line);
                assert(errors@.map_values(|l: String| l@) =~= before.map_values(|l: String| l@).push(line@));
            },
            None => match &attempts[i].change {
                Some(Err(change_err)) => {
                    let mut line = String::from_str(reqs[i].name);
                    line.append(": ");
                    match change_err {
                        ServiceChangeError::OpenFailed(t) => {
                            line.append("OpenService failed: ");
                            line.append(t.as_str());
                        },
                        ServiceChangeError::ChangeFailed(t) => {
                            line.append("ChangeServiceConfig failed: ");
                            line.append(t.as_str());
                        },
                    }
                    let ghost head = reqs@[i as int].name@ + ": "@;
                    assert(line@ =~= head + change_error_text(*change_err));
                    errors.push(line);
                    assert(errors@.map_values(|l: String| l@) =~= before.map_values(|l: String| l@).push(line@));
                },
                _ => {},
            },
        }
        i = i + 1;
    }
    assert(attempts@.take(attempts@.len() as int) =~= attempts@);
    if errors.len() == 0 {
        None
    } else {
        Some(join_strings(&errors, "\n"))
    }
}

/// What the services panel shows: one row per service (name, status, start
/// type), a summary line, and whether the fix button is offered.
pub struct ServicesView {
    pub rows: Vec<(String, String, String)>,
    pub summary: String,
    pub show_fix: bool,
}

pub open spec fn count_disabled(s: Seq<ServiceStatusInfo>) -> nat
    decreases s.len(),
{
    if s.len() == 0 {
        0
    } else {
        count_disabled(s.drop_last()) + if s.last().is_disabled {
            1nat
        } else {
            0nat
        }
    }
}

pub open spec fn services_summary(error: Option<Seq<char>>, total: nat, disabled: nat) -> Seq<char> {
    match error {
        Some(e) => "Required services: error ("@ + e + ")"@,
        None => if total == 0 {
            "Required services: none"@
        } else if disabled == 0 {
            "Required services: OK ("@ + decimal(total) + "/"@ + decimal(total) + ")"@
        } else {
            "Required services disabled: "@ + decimal(disabled) + "/"@ + decimal(total)
        },
    }
}

/// The row of a service: its display name, its state (or `Error`), and its start
/// type (or `-` when there was an error).
pub open spec fn service_row(s: ServiceStatusInfo) -> (Seq<char>, Seq<char>, Seq<char>) {
    if s.error is Some {
        (s.display@, "Error"@, "-"@)
    } else {
        (s.display@, s.state@, s.start_type@)
    }
}

/// What the services panel shows for the given services and error.
pub fn services_view(services: &Vec<ServiceStatusInfo>, error: Option<&String>) -> (r: ServicesView)
    ensures
        r.rows@.len() == services@.len(),
        forall|i: int|
            0 <= i < services@.len() ==> ((#[trigger] r.rows@[i]).0@, r.rows@[i].1@, r.rows@[i].2@)
                == service_row(services@[i]),
        r.summary@ == services_summary(
            match error {
                Some(e) => Some(e@),
                None => None,
            },
            services@.len() as nat,
            count_disabled(services@),
        ),
        r.show_fix == (count_disabled(services@) > 0),
{
    let mut rows: Vec<(String, String, String)> = Vec::new();
    let mut disabled: usize = 0;
    let mut i: usize = 0;
    assert(services@.take(0) =~= Seq::<ServiceStatusInfo>::empty());
    while i < services.len()
        invariant
            i <= services@.len(),
            rows@.len() == i,
            disabled == count_disabled(services@.take(i as int)),
            disabled <= i,
            forall|k: int|
                0 <= k < i ==> ((#[trigger] rows@[k]).0@, rows@[k].1@, rows@[k].2@) == service_row(
                    services@[k],
                ),
        decreases services@.len() - i,
    {
        assert(services@.take(i + 1).drop_last() =~= services@.take(i as int));
        assert(services@.take(i + 1).last() == services@[i as int]);
        let service = &services[i];
        let status_text = if service.error.is_some() {
            String::from_str("Error")
        } else {
            service.state.clone()
        };
        let start_text = if service.error.is_some() {
            String::from_str("-")
        } else {
            service.start_type.clone()
        };
        if service.is_disabled {
            disabled = disabled + 1;
        }
        rows.push((service.display.clone(), status_text, start_text));
        i = i + 1;
    }
    assert(services@.take(services@.len() as int) =~= services@);
    let total = services.len();
    let summary = match error {
        Some(e) => {
            let mut s = String::from_str("Required services: error (");
            s.append(e.as_str());
            s.append(")");
            s
        },
        None => {
            if total == 0 {
                String::from_str("Required services: none")
            } else if disabled == 0 {
                let n = decimal_string(total as u64);
                let mut s = String::from_str("Required services: OK (");
                s.append(n.as_str());
                s.append("/");
                s.append(n.as_str());
                s.append(")");
                s
            } else {
                let d = decimal_string(disabled as u64);
                let n = decimal_string(total as u64);
                let mut s = String::from_str("Required services disabled: ");
                s.append(d.as_str());
                s.append("/");
                s.append(n.as_str());
                s
            }
        },
    };
    ServicesView { rows, summary, show_fix: disabled > 0 }
}

} // verus!
