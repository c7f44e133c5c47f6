//! File attachments: the checks made when one is announced, uploaded and
//! linked to a message.
use vstd::prelude::*;

use crate::text::{
    chars_of, contains_char, eq_str, lower_seq, string_of, trim_seq, trimmed, trimmed_lower, utf8_len,
    utf8_len_at_most,
};

verus! {

pub const MAX_ATTACHMENT_SIZE_BYTES: i64 = 10485760i64;

pub const MAX_ATTACHMENTS_PER_MESSAGE: usize = 10usize;

#[derive(Clone, Debug, PartialEq, Eq)]
pub struct Attachment {
    pub id: u128,
    pub organization_id: u128,
    pub space_id: u128,
    pub channel_id: u128,
    pub message_id: Option<u128>,
    pub uploader_user_id: u128,
    pub file_name: String,
    pub content_type: String,
    pub size_bytes: i64,
    pub status: AttachmentStatus,
    pub created_at: String,
}

#[derive(Clone, Debug, PartialEq, Eq)]
pub struct NewAttachment {
    pub organization_id: u128,
    pub space_id: u128,
    pub channel_id: u128,
    pub uploader_user_id: u128,
    pub file_name: String,
    pub content_type: String,
    pub size_bytes: i64,
}

#[derive(Clone, Copy, Debug, PartialEq, Eq, Structural)]
pub enum AttachmentStatus {
    Pending,
    Uploaded,
    Linked,
}

/// The stored name of a status.
pub open spec fn status_name(s: AttachmentStatus) -> Seq<char> {
    match s {
        AttachmentStatus::Pending => "pending"@,
        AttachmentStatus::Uploaded => "uploaded"@,
        AttachmentStatus::Linked => "linked"@,
    }
}

impl AttachmentStatus {
    pub fn as_str(&self) -> (r: &'static str)
        ensures
            r@ == status_name(*self),
    {
        match self {
            AttachmentStatus::Pending => "pending",
            AttachmentStatus::Uploaded => "uploaded",
            AttachmentStatus::Linked => "linked",
        }
    }

    /// The status with the stored name `value`; another name is a store
    /// fault.
    pub fn parse(value: &str) -> (r: Result<AttachmentStatus, AttachmentError>)
        ensures
            match r {
                Ok(s) => status_name(s) == value@,
                Err(e) => e == AttachmentError::StoreUnavailable && value@ != "pending"@ && value@ != "uploaded"@
                    && value@ != "linked"@,
            },
    {
        let v = chars_of(value);
        if eq_str(&v, "pending") {
            Ok(AttachmentStatus::Pending)
        } else if eq_str(&v, "uploaded") {
            Ok(AttachmentStatus::Uploaded)
        } else if eq_str(&v, "linked") {
            Ok(AttachmentStatus::Linked)
        } else {
            Err(AttachmentError::StoreUnavailable)
        }
    }
}

#[derive(Clone, Debug, PartialEq, Eq)]
pub struct AttachmentContent {
    pub content_type: String,
    pub bytes: Vec<u8>,
}

#[derive(Clone, Copy, Debug, PartialEq, Eq)]
pub enum AttachmentError {
    InvalidInput(&'static str),
    NotFound,
    StoreUnavailable,
}

impl AttachmentError {
    pub fn status_code(&self) -> (r: u16)
        ensures
            r == (match self {
                AttachmentError::InvalidInput(_) => 400u16,
                AttachmentError::NotFound => 404,
                AttachmentError::StoreUnavailable => 500,
            }),
    {
        match self {
            AttachmentError::InvalidInput(_) => 400,
            AttachmentError::NotFound => 404,
            AttachmentError::StoreUnavailable => 500,
        }
    }

    pub fn code(&self) -> (r: &'static str)
        ensures
            r@ == (match self {
                AttachmentError::InvalidInput(_) => "invalid_request"@,
                AttachmentError::NotFound => "attachment_not_found"@,
                AttachmentError::StoreUnavailable => "store_unavailable"@,
            }),
    {
        match self {
            AttachmentError::InvalidInput(_) => "invalid_request",
            AttachmentError::NotFound => "attachment_not_found",
            AttachmentError::StoreUnavailable => "store_unavailable",
        }
    }

    pub fn message(&self) -> (r: &'static str)
        ensures
            r@ == (match self {
                AttachmentError::InvalidInput(m) => m@,
                AttachmentError::NotFound => "attachment was not found"@,
                AttachmentError::StoreUnavailable => "attachment store is unavailable"@,
            }),
    {
        match self {
            AttachmentError::InvalidInput(m) => m,
            AttachmentError::NotFound => "attachment was not found",
            AttachmentError::StoreUnavailable => "attachment store is unavailable",
        }
    }
}

/// A file name: trimmed, 1 to 255 bytes, without `/`.
pub open spec fn valid_file_name(n: Seq<char>) -> bool {
    n.len() > 0 && utf8_len(n) <= 255 && !n.contains('/')
}

pub fn normalize_file_name(file_name: String) -> (r: Result<String, AttachmentError>)
    ensures
        match r {
            Ok(s) => valid_file_name(trim_seq(file_name@)) && s@ == trim_seq(file_name@),
            Err(e) => !valid_file_name(trim_seq(file_name@)) && e == AttachmentError::InvalidInput(
                "attachment file name must be 1 to 255 characters without path separators",
            ),
        },
{
    let n = trimmed(file_name.as_str());
    if n.len() == 0 || !utf8_len_at_most(&n, 255) || contains_char(&n, '/') {
        Err(AttachmentError::InvalidInput("attachment file name must be 1 to 255 characters without path separators"))
    } else {
        Ok(string_of(&n))
    }
}

/// A media type: trimmed, ASCII lower-cased, 1 to 120 bytes, with a `/`.
pub open spec fn valid_content_type(t: Seq<char>) -> bool {
    t.len() > 0 && utf8_len(t) <= 120 && t.contains('/')
}

pub open spec fn content_type_key(t: Seq<char>) -> Seq<char> {
    lower_seq(trim_seq(t))
}

pub fn normalize_content_type(content_type: String) -> (r: Result<String, AttachmentError>)
    ensures
        match r {
            Ok(s) => valid_content_type(content_type_key(content_type@)) && s@ == content_type_key(content_type@),
            Err(e) => !valid_content_type(content_type_key(content_type@)) && e == AttachmentError::InvalidInput(
                "attachment content type must be a valid media type",
            ),
        },
{
    let t = trimmed_lower(content_type.as_str());
    if t.len() == 0 || !utf8_len_at_most(&t, 120) || !contains_char(&t, '/') {
        Err(AttachmentError::InvalidInput("attachment content type must be a valid media type"))
    } else {
        Ok(string_of(&t))
    }
}

pub fn normalize_size(size_bytes: i64) -> (r: Result<i64, AttachmentError>)
    ensures
        r == (if 1 <= size_bytes <= MAX_ATTACHMENT_SIZE_BYTES {
            Ok::<i64, AttachmentError>(size_bytes)
        } else {
            Err(AttachmentError::InvalidInput("attachment size must be between 1 byte and 10 MiB"))
        }),
{
    if 1 <= size_bytes && size_bytes <= MAX_ATTACHMENT_SIZE_BYTES {
        Ok(size_bytes)
    } else {
        Err(AttachmentError::InvalidInput("attachment size must be between 1 byte and 10 MiB"))
    }
}

/// A new pending attachment (`create_pending` before the store call): the
/// file name, media type and size are checked in that order.
pub fn pending_attachment(id: u128, created_at: String, input: NewAttachment) -> (r: Result<Attachment, AttachmentError>)
    ensures
        match r {
            Ok(a) => {
                &&& valid_file_name(trim_seq(input.file_name@)) && a.file_name@ == trim_seq(input.file_name@)
                &&& valid_content_type(content_type_key(input.content_type@)) && a.content_type@ == content_type_key(input.content_type@)
                &&& 1 <= input.size_bytes <= MAX_ATTACHMENT_SIZE_BYTES && a.size_bytes == input.size_bytes
                &&& a.id == id && a.organization_id == input.organization_id && a.space_id == input.space_id
                &&& a.channel_id == input.channel_id && a.uploader_user_id == input.uploader_user_id
                &&& a.message_id is None && a.status == AttachmentStatus::Pending && a.created_at@ == created_at@
            },
            Err(e) => {
                ||| !valid_file_name(trim_seq(input.file_name@)) && e == AttachmentError::InvalidInput(
                    "attachment file name must be 1 to 255 characters without path separators",
                )
                ||| valid_file_name(trim_seq(input.file_name@)) && !valid_content_type(content_type_key(input.content_type@))
                    && e == AttachmentError::InvalidInput("attachment content type must be a valid media type")
                ||| valid_file_name(trim_seq(input.file_name@)) && valid_content_type(content_type_key(input.content_type@))
                    && !(1 <= input.size_bytes <= MAX_ATTACHMENT_SIZE_BYTES)
                    && e == AttachmentError::InvalidInput("attachment size must be between 1 byte and 10 MiB")
            },
        },
{
    let file_name = normalize_file_name(input.file_name)?;
    let content_type = normalize_content_type(input.content_type)?;
    let size_bytes = normalize_size(input.size_bytes)?;
    Ok(Attachment {
        id,
        organization_id: input.organization_id,
        space_id: input.space_id,
        channel_id: input.channel_id,
        message_id: None,
        uploader_user_id: input.uploader_user_id,
        file_name,
        content_type,
        size_bytes,
        status: AttachmentStatus::Pending,
        created_at,
    })
}

/// What `upload` checks before storing the content, in order: the
/// uploader, that the file is not linked yet, the size and the media type.
pub open spec fn upload_outcome(a: Attachment, uploader_user_id: u128, content_type: Seq<char>, len: int) -> Result<Seq<char>, AttachmentError> {
    if a.uploader_user_id != uploader_user_id {
        Err(AttachmentError::NotFound)
    } else if a.status == AttachmentStatus::Linked {
        Err(AttachmentError::InvalidInput("attachment is already linked to a message"))
    } else if len != a.size_bytes {
        Err(AttachmentError::InvalidInput("attachment upload size must match presign size"))
    } else if !valid_content_type(content_type_key(content_type)) {
        Err(AttachmentError::InvalidInput("attachment content type must be a valid media type"))
    } else if content_type_key(content_type) != a.content_type@ {
        Err(AttachmentError::InvalidInput("attachment content type must match presign content type"))
    } else {
        Ok(content_type_key(content_type))
    }
}

/// The content to store for an upload (`upload` before the store call).
pub fn prepare_upload(attachment: &Attachment, uploader_user_id: u128, content_type: String, bytes: Vec<u8>) -> (r: Result<AttachmentContent, AttachmentError>)
    ensures
        match upload_outcome(*attachment, uploader_user_id, content_type@, bytes@.len() as int) {
            Ok(t) => r matches Ok(c) && c.content_type@ == t && c.bytes@ == bytes@,
            Err(e) => r == Err::<AttachmentContent, AttachmentError>(e),
        },
{
    if attachment.uploader_user_id != uploader_user_id {
        return Err(AttachmentError::NotFound);
    }
    match attachment.status {
        AttachmentStatus::Linked => {
            return Err(AttachmentError::InvalidInput("attachment is already linked to a message"));
        },
        _ => {},
    }
    let len = bytes.len();
    if attachment.size_bytes < 0 || len as u64 != attachment.size_bytes as u64 {
        return Err(AttachmentError::InvalidInput("attachment upload size must match presign size"));
    }
    let content_type = normalize_content_type(content_type)?;
    if !eq_chars(&chars_of(content_type.as_str()), &chars_of(attachment.content_type.as_str())) {
        return Err(AttachmentError::InvalidInput("attachment content type must match presign content type"));
    }
    Ok(AttachmentContent { content_type, bytes })
}

/// Whether two character sequences are equal.
fn eq_chars(a: &Vec<char>, b: &Vec<char>) -> (r: bool)
    ensures
        r == (a@ == b@),
{
    if a.len() != b.len() {
        return false;
    }
    let mut i: usize = 0;
    while i < a.len()
        invariant
            i <= a.len(),
            a.len() == b.len(),
            forall|k: int| 0 <= k < i ==> a@[k] == b@[k],
        decreases a.len() - i,
    {
        if a[i] != b[i] {
            return false;
        }
        i += 1;
    }
    assert(a@ =~= b@);
    true
}

/// Whether an uploaded attachment may go with a new message in the channel.
pub open spec fn attachable(a: Attachment, organization_id: u128, space_id: u128, channel_id: u128, uploader_user_id: u128) -> bool {
    &&& a.organization_id == organization_id
    &&& a.space_id == space_id
    &&& a.channel_id == channel_id
    &&& a.uploader_user_id == uploader_user_id
    &&& a.message_id is None
    &&& a.status == AttachmentStatus::Uploaded
}

/// The outcome of `validate_for_message` from the `i`-th identifier on:
/// the first repeated identifier, failed lookup or unfit attachment, in
/// order.
pub open spec fn attachments_outcome_from(
    organization_id: u128,
    space_id: u128,
    channel_id: u128,
    uploader_user_id: u128,
    ids: Seq<u128>,
    lookups: Seq<Result<Attachment, AttachmentError>>,
    i: int,
) -> Result<(), AttachmentError>
    decreases ids.len() - i,
{
    if i < 0 || i >= ids.len() {
        Ok(())
    } else if ids.take(i).contains(ids[i]) {
        Err(AttachmentError::InvalidInput("message attachment ids must be unique"))
    } else {
        match lookups[i] {
            Err(e) => Err(e),
            Ok(a) => if attachable(a, organization_id, space_id, channel_id, uploader_user_id) {
                attachments_outcome_from(organization_id, space_id, channel_id, uploader_user_id, ids, lookups, i + 1)
            } else {
                Err(AttachmentError::InvalidInput("attachments must be uploaded files from the same channel"))
            },
        }
    }
}

/// Whether `v` holds `x`.
fn contains_id(v: &Vec<u128>, upto: usize, x: u128) -> (r: bool)
    requires
        upto <= v.len(),
    ensures
        r == v@.take(upto as int).contains(x),
{
    let mut i: usize = 0;
    while i < upto
        invariant
            i <= upto <= v.len(),
            forall|k: int| 0 <= k < i ==> v@[k] != x,
        decreases upto - i,
    {
        if v[i] == x {
            assert(v@.take(upto as int)[i as int] == x);
            return true;
        }
        i += 1;
    }
    proof {
        if v@.take(upto as int).contains(x) {
            let k = choose|k: int| 0 <= k < upto && v@.take(upto as int)[k] == x;
            assert(v@[k] == x);
        }
    }
    false
}

/// Whether the attachments named by `attachment_ids` may go with a new
/// message (`validate_for_message`). `lookups[i]` is what the store gave for
/// `attachment_ids[i]` (`NotFound` where it has none); a lookup after the
/// first failure is not read.
pub fn validate_for_message(
    organization_id: u128,
    space_id: u128,
    channel_id: u128,
    uploader_user_id: u128,
    attachment_ids: &Vec<u128>,
    lookups: &Vec<Result<Attachment, AttachmentError>>,
) -> (r: Result<(), AttachmentError>)
    requires
        attachment_ids.len() <= MAX_ATTACHMENTS_PER_MESSAGE ==> lookups.len() == attachment_ids.len(),
    ensures
        r == (if attachment_ids.len() > MAX_ATTACHMENTS_PER_MESSAGE {
            Err(AttachmentError::InvalidInput("message cannot include more than 10 attachments"))
        } else {
            attachments_outcome_from(
                organization_id,
                space_id,
                channel_id,
                uploader_user_id,
                attachment_ids@,
                lookups@,
                0,
            )
        }),
{
    if attachment_ids.len() > MAX_ATTACHMENTS_PER_MESSAGE {
        return Err(AttachmentError::InvalidInput("message cannot include more than 10 attachments"));
    }
    let mut i: usize = 0;
    while i < attachment_ids.len()
        invariant
            i <= attachment_ids.len(),
            attachment_ids.len() <= MAX_ATTACHMENTS_PER_MESSAGE,
            lookups.len() == attachment_ids.len(),
            attachments_outcome_from(organization_id, space_id, channel_id, uploader_user_id, attachment_ids@, lookups@, 0)
                == attachments_outcome_from(organization_id, space_id, channel_id, uploader_user_id, attachment_ids@, lookups@, i as int),
        decreases attachment_ids.len() - i,
    {
        let id = attachment_ids[i];
        if contains_id(attachment_ids, i, id) {
            return Err(AttachmentError::InvalidInput("message attachment ids must be unique"));
        }
        match &lookups[i] {
            Err(e) => {
                return Err(*e);
            },
            Ok(a) => {
                let fits = a.organization_id == organization_id && a.space_id == space_id
                    && a.channel_id == channel_id && a.uploader_user_id == uploader_user_id
                    && a.message_id.is_none() && match a.status {
                    AttachmentStatus::Uploaded => true,
                    _ => false,
                };
                if !fits {
                    return Err(AttachmentError::InvalidInput("attachments must be uploaded files from the same channel"));
                }
            },
        }
        i += 1;
    }
    Ok(())
}

} // verus!
