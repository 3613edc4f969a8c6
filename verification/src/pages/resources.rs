//! The pages that list the resources of one category.

use vstd::prelude::*;
use crate::resource::ResourceMessage;
use crate::resource::ResourceType;
use crate::text::text_of;
use crate::time::Timestamp;
use vstd::string::StringExecFns;

verus! {

/// A page that lists the resources of one category.
#[derive(Debug, Clone, Copy, PartialEq, Eq, Structural)]
pub struct ResourcesPage {
    pub resource_type: ResourceType,
}

/// What the user can ask of such a page: to fetch its resources again, or
/// something of the resource `path` of the module `module_id`.
#[derive(Debug, Clone)]
pub enum ResourcesMessage {
    Refresh,
    ResourceMessage(ResourceType, String, String, ResourceMessage),
}

/// What a resources page asks the client to do.
#[derive(Debug)]
pub enum ResourcesRequest {
    /// Fetch the resources of a category again.
    LoadResources(ResourceType),
    /// Do something with one resource.
    ResourceMessage(ResourceType, String, String, ResourceMessage),
}

impl ResourcesPage {
    /// The page for `resource_type`.
    pub fn default(resource_type: ResourceType) -> (p: Self)
        ensures
            p.resource_type == resource_type,
    {
        ResourcesPage { resource_type }
    }

    /// Passes the user's wish on: a refresh concerns the category of this
    /// page, a message for a resource goes on as it is.
    pub fn update(&self, message: ResourcesMessage) -> (request: ResourcesRequest)
        ensures
            match message {
                ResourcesMessage::Refresh => request == ResourcesRequest::LoadResources(
                    self.resource_type,
                ),
                ResourcesMessage::ResourceMessage(resource_type, module_id, path, m) => request
                    == ResourcesRequest::ResourceMessage(resource_type, module_id, path, m),
            },
    {
        match message {
            ResourcesMessage::Refresh => ResourcesRequest::LoadResources(self.resource_type),
            ResourcesMessage::ResourceMessage(resource_type, module_id, path, m) => {
                ResourcesRequest::ResourceMessage(resource_type, module_id, path, m)
            },
        }
    }
}

/// The day and the time of day, in UTC, of the moment `secs` seconds and
/// `nanos` nanoseconds after the epoch, written as `%d/%m/%Y %T`; or nothing
/// where chrono cannot represent the moment.
pub uninterp spec fn day_and_time(secs: i64, nanos: u32) -> Option<Seq<char>>;

/// Calls `chrono::DateTime::from_timestamp`, which gives the moment in UTC
/// that lies `secs` seconds and `nanos` nanoseconds after the epoch, or
/// nothing where the seconds are out of range or the nanoseconds invalid, and
/// on that moment `DateTime::format` with `%d/%m/%Y %T`. The text depends on
/// the two numbers alone and is named `day_and_time`; nothing more is claimed
/// of it.
#[verifier::external_body]
fn utc_day_and_time(secs: i64, nanos: u32) -> (text: Option<String>)
    ensures
        text_of(text) == day_and_time(secs, nanos),
{
    match chrono::DateTime::from_timestamp(secs, nanos) {
        Some(moment) => Some(moment.format("%d/%m/%Y %T").to_string()),
        None => None,
    }
}

/// The line that says when a category was last fetched, given the day and
/// the time as they are to be shown.
pub fn updated_label(day_and_time: &str) -> (label: String)
    ensures
        label@ == "Last updated at "@ + day_and_time@,
{
    String::from_str("Last updated at ").concat(day_and_time)
}

/// The line that `updated_label` makes of the moment `last_updated`, or
/// nothing where no day and time can be given for it.
pub open spec fn label_of(last_updated: Timestamp) -> Option<Seq<char>> {
    if last_updated.secs_since_epoch > i64::MAX {
        None
    } else {
        match day_and_time(last_updated.secs_since_epoch as i64, last_updated.nanos_since_epoch) {
            Some(text) => Some("Last updated at "@ + text),
            None => None,
        }
    }
}

/// The line that says when a category was last fetched, with the day and the
/// time in UTC; nothing where the moment lies beyond what a calendar date can
/// express.
pub fn last_updated_label(last_updated: Timestamp) -> (label: Option<String>)
    ensures
        text_of(label) == label_of(last_updated),
{
    if last_updated.secs_since_epoch > 0x7fff_ffff_ffff_ffff {
        return None;
    }
    match utc_day_and_time(last_updated.secs_since_epoch as i64, last_updated.nanos_since_epoch) {
        Some(text) => Some(updated_label(text.as_str())),
        None => None,
    }
}

} // verus!
