//! Data export of an organization's messages and files in a time window.
use vstd::prelude::*;
use vstd::std_specs::convert::FromSpecImpl;

use crate::domain::attachment::{Attachment, AttachmentError};
use crate::domain::message::{Message, MessageError};
use crate::text::{chars_of, string_of, trim_seq, trimmed};
use crate::time::{chrono_representable, format_rfc3339, instant_less, instant_lt, parse_rfc3339, rfc3339_instant, rfc3339_text};

verus! {

#[derive(Debug)]
pub struct DataExport {
    pub organization_id: u128,
    pub format: String,
    pub from: String,
    pub to: String,
    pub messages: Vec<Message>,
    pub files: Vec<Attachment>,
}

#[derive(Clone, Copy, Debug, PartialEq, Eq)]
pub enum DataExportError {
    InvalidInput(&'static str),
    StoreUnavailable,
}

impl DataExportError {
    pub fn status_code(&self) -> (r: u16)
        ensures
            r == (match self {
                DataExportError::InvalidInput(_) => 400u16,
                DataExportError::StoreUnavailable => 500,
            }),
    {
        match self {
            DataExportError::InvalidInput(_) => 400,
            DataExportError::StoreUnavailable => 500,
        }
    }

    pub fn code(&self) -> (r: &'static str)
        ensures
            r@ == (match self {
                DataExportError::InvalidInput(_) => "invalid_request"@,
                DataExportError::StoreUnavailable => "data_export_store_unavailable"@,
            }),
    {
        match self {
            DataExportError::InvalidInput(_) => "invalid_request",
            DataExportError::StoreUnavailable => "data_export_store_unavailable",
        }
    }

    pub fn message(&self) -> (r: &'static str)
        ensures
            r@ == (match self {
                DataExportError::InvalidInput(m) => m@,
                DataExportError::StoreUnavailable => "data export store is unavailable"@,
            }),
    {
        match self {
            DataExportError::InvalidInput(m) => m,
            DataExportError::StoreUnavailable => "data export store is unavailable",
        }
    }
}

impl From<MessageError> for DataExportError {
    fn from(error: MessageError) -> (r: DataExportError) {
        match error {
            MessageError::InvalidInput(m) => DataExportError::InvalidInput(m),
            MessageError::NotFound => DataExportError::StoreUnavailable,
            MessageError::StoreUnavailable => DataExportError::StoreUnavailable,
        }
    }
}

impl FromSpecImpl<MessageError> for DataExportError {
    open spec fn obeys_from_spec() -> bool {
        true
    }

    open spec fn from_spec(error: MessageError) -> DataExportError {
        match error {
            MessageError::InvalidInput(m) => DataExportError::InvalidInput(m),
            MessageError::NotFound => DataExportError::StoreUnavailable,
            MessageError::StoreUnavailable => DataExportError::StoreUnavailable,
        }
    }
}

impl From<AttachmentError> for DataExportError {
    fn from(error: AttachmentError) -> (r: DataExportError) {
        match error {
            AttachmentError::InvalidInput(m) => DataExportError::InvalidInput(m),
            AttachmentError::NotFound => DataExportError::StoreUnavailable,
            AttachmentError::StoreUnavailable => DataExportError::StoreUnavailable,
        }
    }
}

impl FromSpecImpl<AttachmentError> for DataExportError {
    open spec fn obeys_from_spec() -> bool {
        true
    }

    open spec fn from_spec(error: AttachmentError) -> DataExportError {
        match error {
            AttachmentError::InvalidInput(m) => DataExportError::InvalidInput(m),
            AttachmentError::NotFound => DataExportError::StoreUnavailable,
            AttachmentError::StoreUnavailable => DataExportError::StoreUnavailable,
        }
    }
}

/// The instant of a trimmed RFC 3339 text.
pub fn normalize_rfc3339(value: &str, message: &'static str) -> (r: Result<(i64, u32), DataExportError>)
    ensures
        match rfc3339_instant(trim_seq(value@)) {
            Some(t) => r == Ok::<(i64, u32), DataExportError>(t) && chrono_representable(t.0, t.1),
            None => r == Err::<(i64, u32), DataExportError>(DataExportError::InvalidInput(message)),
        },
{
    let t = string_of(&trimmed(value));
    match parse_rfc3339(t.as_str()) {
        Some(i) => Ok(i),
        None => Err(DataExportError::InvalidInput(message)),
    }
}

/// The window of an export (`export_for_organization` before its store
/// calls): both ends must parse and `from` must not be after `to`; each is
/// written in UTC with milliseconds.
pub fn export_window(from: &str, to: &str) -> (r: Result<(String, String), DataExportError>)
    ensures
        match rfc3339_instant(trim_seq(from@)) {
            None => r == Err::<(String, String), DataExportError>(DataExportError::InvalidInput("data export from must be RFC3339")),
            Some(f) => match rfc3339_instant(trim_seq(to@)) {
                None => r == Err::<(String, String), DataExportError>(DataExportError::InvalidInput("data export to must be RFC3339")),
                Some(t) => if instant_lt(t, f) {
                    r == Err::<(String, String), DataExportError>(DataExportError::InvalidInput("data export from must be before to"))
                } else {
                    r matches Ok(w) && w.0@ == rfc3339_text(f.0, f.1, true) && w.1@ == rfc3339_text(t.0, t.1, true)
                },
            },
        },
{
    let f = normalize_rfc3339(from, "data export from must be RFC3339")?;
    let t = normalize_rfc3339(to, "data export to must be RFC3339")?;
    if instant_less(t, f) {
        return Err(DataExportError::InvalidInput("data export from must be before to"));
    }
    let from_text = match format_rfc3339(f.0, f.1, true) {
        Some(s) => s,
        None => String::new(),
    };
    let to_text = match format_rfc3339(t.0, t.1, true) {
        Some(s) => s,
        None => String::new(),
    };
    Ok((from_text, to_text))
}

/// The ids of the exported messages, in order.
pub fn message_ids_of(messages: &Vec<Message>) -> (r: Vec<u128>)
    ensures
        r@.len() == messages@.len(),
        forall|i: int| 0 <= i < r@.len() ==> r@[i] == (#[trigger] messages@[i]).id,
{
    let mut ids: Vec<u128> = Vec::new();
    let mut i: usize = 0;
    while i < messages.len()
        invariant
            i <= messages.len(),
            ids@.len() == i,
            forall|k: int| 0 <= k < i ==> ids@[k] == (#[trigger] messages@[k]).id,
        decreases messages.len() - i,
    {
        ids.push(messages[i].id);
        i += 1;
    }
    ids
}

/// The export document.
pub fn data_export(organization_id: u128, window: (String, String), messages: Vec<Message>, files: Vec<Attachment>) -> (r: DataExport)
    ensures
        r.organization_id == organization_id && r.format@ == "json"@,
        r.from == window.0 && r.to == window.1 && r.messages == messages && r.files == files,
{
    DataExport { organization_id, format: string_of(&chars_of("json")), from: window.0, to: window.1, messages, files }
}

} // verus!
