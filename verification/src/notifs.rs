//! The texts that go with an incident: its title, the reports of its
//! narrative log, and the notification that announces it.

use vstd::prelude::*;
use vstd::string::*;
use crate::health::{FailureAction, SuccessAction};
use crate::text::{contains, holds, replace, replaced};

verus! {

/// The notifications that can be sent.
#[derive(Copy, Clone, Debug, PartialEq, Eq, Structural)]
pub enum TemplateOptions {
    /// An incident was opened automatically.
    AutoIncidentCreate,
}

impl TemplateOptions {
    /// The name of the email template.
    pub fn template_name(&self) -> (res: String)
        ensures
            res@ == "auto-incid-create"@,
    {
        match self {
            TemplateOptions::AutoIncidentCreate => String::from_str("auto-incid-create"),
        }
    }

    /// The subject line of the email.
    pub fn subject(&self) -> (res: String)
        ensures
            res@ == "Some monitors are down!"@,
    {
        match self {
            TemplateOptions::AutoIncidentCreate => String::from_str("Some monitors are down!"),
        }
    }
}

/// The status tag of a report in an incident's narrative log.
#[derive(Copy, Clone, Debug, PartialEq, Eq, Structural)]
pub enum ReportStatus {
    Investigating,
    Monitoring,
    Resolved,
}

impl ReportStatus {
    /// The tag as the store holds it.
    pub fn tag(&self) -> (res: String)
        ensures
            res@ == match *self {
                ReportStatus::Investigating => "investigating"@,
                ReportStatus::Monitoring => "monitoring"@,
                ReportStatus::Resolved => "resolved"@,
            },
    {
        match self {
            ReportStatus::Investigating => String::from_str("investigating"),
            ReportStatus::Monitoring => String::from_str("monitoring"),
            ReportStatus::Resolved => String::from_str("resolved"),
        }
    }
}

/// The reports that a failed probe's action asks for, in order.
pub open spec fn failure_reports(action: FailureAction) -> Seq<ReportStatus> {
    match action {
        FailureAction::OpenIncident => seq![ReportStatus::Investigating],
        FailureAction::ReportRegression { .. } => seq![ReportStatus::Investigating],
        _ => Seq::empty(),
    }
}

/// The reports that a successful probe's action asks for, in order.
pub open spec fn success_reports(action: SuccessAction) -> Seq<ReportStatus> {
    match action {
        SuccessAction::Counted { monitoring_report, .. } => if monitoring_report {
            seq![ReportStatus::Monitoring]
        } else {
            Seq::empty()
        },
        SuccessAction::Resolved { monitoring_report, .. } => if monitoring_report {
            seq![ReportStatus::Monitoring, ReportStatus::Resolved]
        } else {
            seq![ReportStatus::Resolved]
        },
        _ => Seq::empty(),
    }
}

/// The reports to write for a failed probe's action, in order.
pub fn reports_after_failure(action: &FailureAction) -> (res: Vec<ReportStatus>)
    ensures
        res@ == failure_reports(*action),
{
    let mut res: Vec<ReportStatus> = Vec::new();
    match action {
        FailureAction::OpenIncident => {
            res.push(ReportStatus::Investigating);
        },
        FailureAction::ReportRegression { .. } => {
            res.push(ReportStatus::Investigating);
        },
        _ => {},
    }
    res
}

/// The reports to write for a successful probe's action, in order.
pub fn reports_after_success(action: &SuccessAction) -> (res: Vec<ReportStatus>)
    ensures
        res@ == success_reports(*action),
{
    let mut res: Vec<ReportStatus> = Vec::new();
    match action {
        SuccessAction::Counted { monitoring_report, .. } => {
            if *monitoring_report {
                res.push(ReportStatus::Monitoring);
            }
        },
        SuccessAction::Resolved { monitoring_report, .. } => {
            if *monitoring_report {
                res.push(ReportStatus::Monitoring);
            }
            res.push(ReportStatus::Resolved);
        },
        _ => {},
    }
    res
}

/// Whether a failed probe's action changed the tracked set, so that the
/// mirror has to be reconciled.
pub fn failure_reconciles(action: &FailureAction) -> (res: bool)
    ensures
        res == !(*action is Nothing),
{
    match action {
        FailureAction::Nothing => false,
        _ => true,
    }
}

/// Whether a successful probe's action changed the tracked set, so that the
/// mirror has to be reconciled.
pub fn success_reconciles(action: &SuccessAction) -> (res: bool)
    ensures
        res == !(*action is Nothing),
{
    match action {
        SuccessAction::Nothing => false,
        _ => true,
    }
}

/// The title of the incident that is opened for a monitor.
pub fn incident_title(monitor_name: &str) -> (res: String)
    ensures
        res@ == monitor_name@ + " is down"@,
{
    let mut res = String::from_str(monitor_name);
    res.append(" is down");
    res
}

/// The first report of an incident, written when it is opened.
pub fn opening_message(target: &str) -> (res: String)
    ensures
        res@ == "It appears that "@ + target@
            + " is down. We are currently investigating this incident."@,
{
    let mut res = String::from_str("It appears that ");
    res.append(target);
    res.append(" is down. We are currently investigating this incident.");
    res
}

/// The report written when a recovering monitor fails again.
pub fn regression_message(monitor_name: &str) -> (res: String)
    ensures
        res@ == monitor_name@ + " is failing to ping again. We're looking into this now."@,
{
    let mut res = String::from_str(monitor_name);
    res.append(" is failing to ping again. We're looking into this now.");
    res
}

/// The report written on the first successful ping of an episode.
pub fn monitoring_message(monitor_name: &str) -> (res: String)
    ensures
        res@ == monitor_name@ + " is back online. Monitoring for stability."@,
{
    let mut res = String::from_str(monitor_name);
    res.append(" is back online. Monitoring for stability.");
    res
}

/// The report written when an incident is resolved.
pub fn resolved_message(monitor_name: &str) -> (res: String)
    ensures
        res@ == "The incident has been resolved. "@ + monitor_name@ + " is back online."@,
{
    let mut res = String::from_str("The incident has been resolved. ");
    res.append(monitor_name);
    res.append(" is back online.");
    res
}

/// The address of an incident's page in the web application.
pub fn incident_url(app_url: &str, workspace_slug: &str, incident_id: &str) -> (res: String)
    ensures
        res@ == app_url@ + "/admin/"@ + workspace_slug@ + "/incidents/"@ + incident_id@,
{
    let mut res = String::from_str(app_url);
    res.append("/admin/");
    res.append(workspace_slug);
    res.append("/incidents/");
    res.append(incident_id);
    res
}

/// Whether the mail server is spoken to over TLS from the first byte, as the
/// settings `true` and `1` ask; with any other setting the connection is
/// upgraded by STARTTLS.
pub fn smtp_implicit_tls(secure: &String) -> (res: bool)
    ensures
        res == (secure@ == "true"@ || secure@ == "1"@),
{
    *secure == String::from_str("true") || *secure == String::from_str("1")
}

/// The sender of the monitor's emails, for the mailbox `from`.
pub fn sender(from: &str) -> (res: String)
    ensures
        res@ == "Miru <"@ + from@ + ">"@,
{
    let mut res = String::from_str("Miru <");
    res.append(from);
    res.append(">");
    res
}

/// The error that is reported where an email is asked for while emails are
/// switched off.
pub fn email_disabled_message(template: TemplateOptions) -> (res: String)
    ensures
        res@ == "Failed to send auto-incid-create email. Emails are not enabled in this instance."@,
{
    match template {
        TemplateOptions::AutoIncidentCreate => String::from_str(
            "Failed to send auto-incid-create email. Emails are not enabled in this instance.",
        ),
    }
}

/// The template with each placeholder replaced by its value, one pair of
/// `values` after the other.
pub open spec fn filled(content: Seq<char>, values: Seq<(String, String)>) -> Seq<char>
    decreases values.len(),
{
    if values.len() == 0 {
        content
    } else {
        replaced(filled(content, values.drop_last()), values.last().0@, values.last().1@)
    }
}

/// Fills an email template: every copy of each placeholder is replaced by
/// the value that is paired with it, the pairs taken in the order given.
pub fn fill_template(content: &str, values: &Vec<(String, String)>) -> (res: String)
    ensures
        res@ == filled(content@, values@),
{
    let mut res = String::from_str(content);
    let mut i: usize = 0;
    proof {
        assert(values@.take(0).len() == 0);
    }
    while i < values.len()
        invariant
            i <= values.len(),
            res@ == filled(content@, values@.take(i as int)),
        decreases values.len() - i,
    {
        proof {
            assert(values@.take(i + 1).drop_last() == values@.take(i as int));
            assert(values@.take(i + 1).last() == values@[i as int]);
        }
        res = replace(res.as_str(), values[i].0.as_str(), values[i].1.as_str());
        i += 1;
    }
    proof {
        assert(values@.take(i as int) == values@);
    }
    res
}

/// The position of the first file whose name holds the template's name,
/// if any does.
pub fn pick_template(file_names: &Vec<String>, name: &str) -> (res: Option<usize>)
    ensures
        match res {
            Some(i) => i < file_names@.len() && holds(file_names@[i as int]@, name@)
                && forall|k: int| 0 <= k < i ==> !holds(file_names@[k]@, name@),
            None => forall|k: int| 0 <= k < file_names@.len() ==> !holds(file_names@[k]@, name@),
        },
{
    let mut i: usize = 0;
    while i < file_names.len()
        invariant
            i <= file_names.len(),
            forall|k: int| 0 <= k < i ==> !holds(file_names@[k]@, name@),
        decreases file_names.len() - i,
    {
        if contains(file_names[i].as_str(), name) {
            return Some(i);
        }
        i += 1;
    }
    None
}

/// One line of the list of affected monitors.
pub fn monitor_line(name: &str, target: &str) -> (res: String)
    ensures
        res@ == "- "@ + name@ + " ("@ + target@ + ")\n"@,
{
    let mut res = String::from_str("- ");
    res.append(name);
    res.append(" (");
    res.append(target);
    res.append(")\n");
    res
}

/// The list of affected monitors as the chat message shows it: the line of
/// the monitor that was linked last, and nothing where none is linked.
pub fn affected_monitors(linked: &Vec<(String, String)>) -> (res: String)
    ensures
        res@ == if linked@.len() == 0 {
            Seq::<char>::empty()
        } else {
            "- "@ + linked@.last().0@ + " ("@ + linked@.last().1@ + ")\n"@
        },
{
    if linked.len() == 0 {
        String::new()
    } else {
        let last = &linked[linked.len() - 1];
        monitor_line(last.0.as_str(), last.1.as_str())
    }
}

/// The chat message that announces an incident. `monitors` lists the
/// affected monitors, `started` is the time the incident began, as it is to
/// be shown, and `url` is the address of the incident's page.
pub fn chat_message(template: TemplateOptions, monitors: &str, started: &str, url: &str) -> (res:
    String)
    ensures
        res@ == "## Some monitors are down! \n\nAffected monitors: \n"@ + monitors@
            + "\n\nStarted: <t:"@ + started@ + ":R>\nCurrently: Investigating\n\n[[View Incident]("@
            + url@ + ")]"@,
{
    match template {
        TemplateOptions::AutoIncidentCreate => {
            let mut res = String::from_str("## Some monitors are down! \n\nAffected monitors: \n");
            res.append(monitors);
            res.append("\n\nStarted: <t:");
            res.append(started);
            res.append(":R>\nCurrently: Investigating\n\n[[View Incident](");
            res.append(url);
            res.append(")]");
            res
        },
    }
}

} // verus!
