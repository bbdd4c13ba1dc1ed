use vstd::prelude::*;

verus! {

/// One entry in a discussion thread.
pub struct Message {
    pub author_uuid: String,
    pub content: String,
    pub create_at: u64,
}

/// A discussion attached to a report by id; the report need not exist.
pub struct Thread {
    pub messages: Vec<Message>,
    pub is_resolved: bool,
    pub report_uuid: String,
    pub uuid: String,
}

} // verus!
