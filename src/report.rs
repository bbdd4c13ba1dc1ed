use vstd::prelude::*;

verus! {

/// How urgent a report is.
#[derive(Clone, Copy, Debug, PartialEq, Eq, Structural)]
pub enum Priority {
    Minor,
    Major,
    Critical,
}

/// The free-text part of a report.
pub struct ReportDetails {
    pub subject: String,
}

/// One entry in a report's conversation, in chronological order.
pub struct Message {
    pub created_at: u64,
    pub content: String,
    pub author_uuid: String,
}

/// A support ticket opened by a user and possibly assigned to an employee.
pub struct Report {
    pub created_at: u64,
    pub report_details: ReportDetails,
    pub priority: Priority,
    pub user_uuid: String,
    pub employee_uuid: String,
    pub messages: Vec<Message>,
    pub is_resolved: bool,
}

} // verus!
