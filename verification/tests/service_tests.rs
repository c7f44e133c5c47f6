use opencord::domain::attachment::{
    pending_attachment, prepare_upload, validate_for_message, Attachment, AttachmentError, AttachmentStatus,
    NewAttachment,
};
use opencord::domain::audit::{new_audit_event, AuditError, NewAuditEvent};
use opencord::domain::billing::{check_provider_event, plan_update_error, BillingError, BillingProviderEvent};
use opencord::domain::bot::{bot_user_email, check_bot_application, token_last_four, BotError, CreateBotApplicationInput};
use opencord::domain::calendar_sync::{
    meeting_join_url, new_calendar_account, normalize_calendar_id, require_sync_account, synced_event,
    token_storage_value, CalendarSyncError, ConnectCalendarAccount, LocalGoogleCalendarAdapter,
    LocalMicrosoftCalendarAdapter,
};
use opencord::domain::command::{
    callback_token_hash, check_callback_interaction, generate_interaction_token, normalize_command_name, CommandError,
};
use opencord::domain::data_export::{export_window, DataExportError};
use opencord::domain::json::JsonValue;
use opencord::domain::organization::OrganizationError;
use opencord::domain::push::{new_push_token, PushError, PushPlatform};
use opencord::domain::retention::{
    normalize_policy, plan_retention, retention_purge, retention_run_time, start_retention_run, RetentionError, RetentionPolicy,
    RetentionRunSummary,
};
use opencord::domain::scim::{
    check_provision_input, generate_scim_token, hash_scim_token, scim_password_marker, scim_token_lookup,
    ProvisionScimUserInput, ScimError,
};
use opencord::domain::usage::usage_summary;
use opencord::domain::webhook::{generate_token, hash_token, verify_webhook, IncomingWebhook, WebhookError};

const ABC_SHA256: &str = "ba7816bf8f01cfea414140de5dae2223b00361a396177a9cb410ff61f20015ad";
const ORG: u128 = 0x0190_0000_0000_7000_8000_0000_0000_0001;

fn uploaded(id: u128) -> Attachment {
    Attachment {
        id,
        organization_id: 1,
        space_id: 2,
        channel_id: 3,
        message_id: None,
        uploader_user_id: 4,
        file_name: "a.png".to_string(),
        content_type: "image/png".to_string(),
        size_bytes: 3,
        status: AttachmentStatus::Uploaded,
        created_at: "t".to_string(),
    }
}

#[test]
fn pending_attachments_are_checked() {
    let input = NewAttachment {
        organization_id: 1,
        space_id: 2,
        channel_id: 3,
        uploader_user_id: 4,
        file_name: "  report.pdf ".to_string(),
        content_type: " Application/PDF ".to_string(),
        size_bytes: 10,
    };
    let a = pending_attachment(9, "now".to_string(), input).unwrap();
    assert_eq!(a.file_name, "report.pdf");
    assert_eq!(a.content_type, "application/pdf");
    assert_eq!(a.status, AttachmentStatus::Pending);
    let bad = NewAttachment {
        organization_id: 1,
        space_id: 2,
        channel_id: 3,
        uploader_user_id: 4,
        file_name: "dir/x".to_string(),
        content_type: "text/plain".to_string(),
        size_bytes: 10,
    };
    assert_eq!(
        pending_attachment(9, "now".to_string(), bad).unwrap_err(),
        AttachmentError::InvalidInput("attachment file name must be 1 to 255 characters without path separators")
    );
    assert_eq!(AttachmentStatus::parse("linked").unwrap(), AttachmentStatus::Linked);
    assert_eq!(AttachmentStatus::parse("gone").unwrap_err(), AttachmentError::StoreUnavailable);
    assert_eq!(AttachmentStatus::Uploaded.as_str(), "uploaded");
}

#[test]
fn uploads_must_match_the_presign() {
    let mut a = uploaded(1);
    a.status = AttachmentStatus::Pending;
    assert_eq!(prepare_upload(&a, 5, "image/png".to_string(), vec![1, 2, 3]).unwrap_err(), AttachmentError::NotFound);
    assert_eq!(
        prepare_upload(&a, 4, "image/png".to_string(), vec![1, 2]).unwrap_err(),
        AttachmentError::InvalidInput("attachment upload size must match presign size")
    );
    assert_eq!(
        prepare_upload(&a, 4, "image/jpeg".to_string(), vec![1, 2, 3]).unwrap_err(),
        AttachmentError::InvalidInput("attachment content type must match presign content type")
    );
    let c = prepare_upload(&a, 4, " IMAGE/PNG ".to_string(), vec![1, 2, 3]).unwrap();
    assert_eq!(c.content_type, "image/png");
    assert_eq!(c.bytes, vec![1, 2, 3]);
    a.status = AttachmentStatus::Linked;
    assert_eq!(
        prepare_upload(&a, 4, "image/png".to_string(), vec![1, 2, 3]).unwrap_err(),
        AttachmentError::InvalidInput("attachment is already linked to a message")
    );
}

#[test]
fn message_attachments_are_validated_in_order() {
    let ids = vec![1, 2];
    assert!(validate_for_message(1, 2, 3, 4, &ids, &vec![Ok(uploaded(1)), Ok(uploaded(2))]).is_ok());
    assert_eq!(
        validate_for_message(1, 2, 3, 4, &vec![1, 1], &vec![Ok(uploaded(1)), Ok(uploaded(1))]).unwrap_err(),
        AttachmentError::InvalidInput("message attachment ids must be unique")
    );
    assert_eq!(
        validate_for_message(1, 2, 99, 4, &ids, &vec![Ok(uploaded(1)), Ok(uploaded(2))]).unwrap_err(),
        AttachmentError::InvalidInput("attachments must be uploaded files from the same channel")
    );
    assert_eq!(
        validate_for_message(1, 2, 3, 4, &ids, &vec![Ok(uploaded(1)), Err(AttachmentError::NotFound)]).unwrap_err(),
        AttachmentError::NotFound
    );
    let eleven: Vec<u128> = (0..11).collect();
    assert_eq!(
        validate_for_message(1, 2, 3, 4, &eleven, &vec![]).unwrap_err(),
        AttachmentError::InvalidInput("message cannot include more than 10 attachments")
    );
}

#[test]
fn audit_labels_are_required() {
    let e = new_audit_event(
        1,
        "now".to_string(),
        NewAuditEvent {
            organization_id: 1,
            space_id: 2,
            actor_user_id: 3,
            action: " channel.created ",
            target_type: "channel",
            target_id: 4,
            metadata: JsonValue::Null,
        },
    )
    .unwrap();
    assert_eq!(e.action, "channel.created");
    let err = new_audit_event(
        1,
        "now".to_string(),
        NewAuditEvent {
            organization_id: 1,
            space_id: 2,
            actor_user_id: 3,
            action: "  ",
            target_type: "channel",
            target_id: 4,
            metadata: JsonValue::Null,
        },
    )
    .unwrap_err();
    assert_eq!(err, AuditError::InvalidInput("audit action is required"));
    assert_eq!(AuditError::StoreUnavailable.code(), "audit_store_unavailable");
}

fn billing_event() -> BillingProviderEvent {
    BillingProviderEvent {
        organization_id: 1,
        provider: " Stripe ".to_string(),
        event_type: "Subscription.Updated".to_string(),
        external_customer_id: " cus_1 ".to_string(),
        external_subscription_id: "sub_1".to_string(),
        plan: "TEAM".to_string(),
        status: "active".to_string(),
        current_period_end: Some("2026-07-01T10:00:00+02:00".to_string()),
    }
}

#[test]
fn billing_events_are_checked() {
    let c = check_provider_event(billing_event()).unwrap();
    assert_eq!(c.provider, "stripe");
    assert_eq!(c.event_type, "subscription.updated");
    assert_eq!(c.plan, "team");
    assert_eq!(c.external_customer_id, "cus_1");
    assert_eq!(c.current_period_end, Some("2026-07-01T08:00:00Z".to_string()));
    let mut bad = billing_event();
    bad.provider = "paypal".to_string();
    assert_eq!(check_provider_event(bad).unwrap_err(), BillingError::InvalidInput("billing provider must be stripe"));
    let mut bad = billing_event();
    bad.current_period_end = Some("soon".to_string());
    assert_eq!(
        check_provider_event(bad).unwrap_err(),
        BillingError::InvalidInput("billing current_period_end must be RFC3339")
    );
    assert_eq!(plan_update_error(OrganizationError::NotFound), BillingError::OrganizationNotFound);
    assert_eq!(plan_update_error(OrganizationError::Forbidden), BillingError::StoreUnavailable);
}

#[test]
fn bot_applications() {
    let ok = check_bot_application(&CreateBotApplicationInput {
        organization_id: 1,
        created_by_user_id: 2,
        name: "  Deploy bot ".to_string(),
        description: Some("   ".to_string()),
    })
    .unwrap();
    assert_eq!(ok.0, "Deploy bot");
    assert_eq!(ok.1, None);
    let err = check_bot_application(&CreateBotApplicationInput {
        organization_id: 1,
        created_by_user_id: 2,
        name: "".to_string(),
        description: None,
    })
    .unwrap_err();
    assert_eq!(err, BotError::InvalidInput("bot application name must be 1 to 80 characters"));
    assert_eq!(bot_user_email(ORG), "bot-01900000000070008000000000000001@bots.opencord.local");
    assert_eq!(token_last_four("ocb_123456"), "3456");
    assert_eq!(token_last_four("ab"), "ab");
}

#[test]
fn calendar_accounts() {
    assert_eq!(normalize_calendar_id("   ".to_string(), "m").unwrap(), "primary");
    assert_eq!(
        token_storage_value("  abcdefgh  ".to_string()).unwrap(),
        "sha256:9c56cc51b374c3ba189210d5b6d4bf57790d351c96c47c02190ecf1e430635ab"
    );
    assert_eq!(
        token_storage_value("short".to_string()).unwrap_err(),
        CalendarSyncError::InvalidInput("google access_token must be at least 8 characters")
    );
    let a = new_calendar_account(
        1,
        2,
        "now".to_string(),
        ConnectCalendarAccount {
            external_account_id: "  ada@example.com ".to_string(),
            calendar_id: "".to_string(),
            access_token: "  token-12345678 ".to_string(),
            refresh_token: None,
        },
        "google",
        "google external_account_id is required",
        "google calendar_id is required",
    )
    .unwrap();
    assert_eq!(a.external_account_id, "ada@example.com");
    assert_eq!(a.calendar_id, "primary");
    assert_eq!(a.token_last_four, "5678");
    assert!(a.sync_enabled);
    let mut off = a.clone();
    off.sync_enabled = false;
    assert_eq!(
        require_sync_account(Some(off), "google calendar account is not connected").unwrap_err(),
        CalendarSyncError::AccountNotConnected("google calendar account is not connected")
    );
    let g = LocalGoogleCalendarAdapter.upsert_event(&None, ORG);
    assert_eq!(g.provider_event_id, "google-01900000000070008000000000000001");
    assert_eq!(
        g.provider_event_url,
        Some("https://calendar.google.com/calendar/event?eid=google-01900000000070008000000000000001".to_string())
    );
    let m = LocalMicrosoftCalendarAdapter.upsert_event(&None, ORG);
    assert_eq!(m.provider_event_id, "microsoft-01900000000070008000000000000001");
    let (event, operation) = synced_event(3, "now".to_string(), 4, &a, "google", g, None);
    assert_eq!(operation, "created");
    assert_eq!(event.id, 3);
    assert_eq!(event.status, "synced");
    let (again, operation) = synced_event(5, "later".to_string(), 4, &a, "google", LocalGoogleCalendarAdapter.upsert_event(&Some(event.clone()), 6), Some(event.clone()));
    assert_eq!(operation, "updated");
    assert_eq!(again.id, 3);
    assert_eq!(again.created_at, "now");
    assert_eq!(again.provider_event_id, event.provider_event_id);
    assert_eq!(meeting_join_url("https://x.io//", "mtg-1"), "https://x.io/join/mtg-1");
    assert_eq!(meeting_join_url("", "mtg-1"), "/join/mtg-1");
}

#[test]
fn commands_and_interactions() {
    assert_eq!(normalize_command_name("  Deploy_Now ".to_string()).unwrap(), "deploy_now");
    assert_eq!(
        normalize_command_name("deploy now".to_string()).unwrap_err(),
        CommandError::InvalidInput("command name must contain lowercase letters, numbers, underscores, or hyphens")
    );
    assert_eq!(
        normalize_command_name("x".repeat(33)).unwrap_err(),
        CommandError::InvalidInput("command name must be 1 to 32 characters")
    );
    let token = generate_interaction_token();
    assert!(token.starts_with("oci_"));
    assert_eq!(token.len(), 68);
    assert_eq!(callback_token_hash("abc").unwrap_err(), CommandError::Unauthorized);
    assert_eq!(check_callback_interaction(None).unwrap_err(), CommandError::Unauthorized);
    assert_eq!(CommandError::AlreadyResponded.status_code(), 409);
}

#[test]
fn export_windows() {
    let (from, to) = export_window(" 2026-01-01T00:00:00Z ", "2026-01-02T00:00:00+01:00").unwrap();
    assert_eq!(from, "2026-01-01T00:00:00.000Z");
    assert_eq!(to, "2026-01-01T23:00:00.000Z");
    assert_eq!(
        export_window("2026-01-02T00:00:00Z", "2026-01-01T00:00:00Z").unwrap_err(),
        DataExportError::InvalidInput("data export from must be before to")
    );
    assert_eq!(
        export_window("x", "2026-01-01T00:00:00Z").unwrap_err(),
        DataExportError::InvalidInput("data export from must be RFC3339")
    );
    assert!(export_window("2026-01-01T00:00:00Z", "2026-01-01T00:00:00Z").is_ok());
}

#[test]
fn push_tokens() {
    let t = new_push_token(1, 2, " IOS ", "  device-token-1 ".to_string(), Some("  ".to_string()), "now".to_string())
        .unwrap();
    assert_eq!(t.platform, PushPlatform::Ios);
    assert_eq!(t.token, "device-token-1");
    assert_eq!(t.token_last_four, "en-1");
    assert_eq!(t.device_name, None);
    assert_eq!(
        new_push_token(1, 2, "fax", "device-token-1".to_string(), None, "now".to_string()).unwrap_err(),
        PushError::InvalidInput("platform must be ios, android, web, or desktop")
    );
    assert_eq!(
        new_push_token(1, 2, "web", "short".to_string(), None, "now".to_string()).unwrap_err(),
        PushError::InvalidInput("device token must be between 8 and 4096 bytes")
    );
    assert_eq!(PushPlatform::Desktop.as_str(), "desktop");
}

#[test]
fn retention_policies_and_runs() {
    let policy = RetentionPolicy {
        organization_id: 1,
        messages_retain_days: Some(30),
        files_retain_days: None,
        audit_logs_retain_days: Some(365),
        deleted_message_purge_days: Some(1),
    };
    assert_eq!(normalize_policy(policy).unwrap(), policy);
    let bad = RetentionPolicy { files_retain_days: Some(0), ..policy };
    assert_eq!(
        normalize_policy(bad).unwrap_err(),
        RetentionError::InvalidInput("files_retain_days must be between 1 and 3650")
    );
    let (now, ran_at, mut summary) = start_retention_run(" 2026-07-01T08:00:00Z ", true, 2).unwrap();
    assert_eq!(ran_at, "2026-07-01T08:00:00.000Z");
    let purge = plan_retention(now, policy, true).unwrap().unwrap();
    assert_eq!(purge.messages_before, Some("2026-06-01T08:00:00.000Z".to_string()));
    assert_eq!(purge.deleted_messages_before, Some("2026-06-30T08:00:00.000Z".to_string()));
    assert_eq!(purge.files_before, None);
    assert_eq!(retention_purge(now, policy, true).unwrap(), purge);
    assert_eq!(plan_retention((i64::MIN + 10, 0), policy, true).unwrap(), None);
    summary.add_purge(3, 0, 2);
    summary.add_purge(1, 4, 0);
    assert_eq!(
        summary,
        RetentionRunSummary {
            organizations_scanned: 2,
            messages_purged: 4,
            files_purged: 4,
            audit_events_purged: 2,
            dry_run: true,
        }
    );
    assert_eq!(
        start_retention_run("nope", false, 0).unwrap_err(),
        RetentionError::InvalidInput("retention run timestamp must be RFC3339")
    );
}

#[test]
fn scim_provisioning() {
    let token = generate_scim_token();
    assert!(token.starts_with("opc-scim-"));
    assert_eq!(token.len(), 73);
    assert_eq!(hash_scim_token("abc"), ABC_SHA256);
    assert_eq!(scim_token_lookup("  abc ").unwrap(), ABC_SHA256);
    assert_eq!(scim_token_lookup("   ").unwrap_err(), ScimError::Unauthorized);
    assert_eq!(
        scim_password_marker(ORG, "ext-9"),
        "!scim:a753a2cb61f95982d1207daa5687fb03131415b348d06dda407c2be968a92644"
    );
    let (ext, user_name, display) = check_provision_input(&ProvisionScimUserInput {
        external_id: " ext-9 ".to_string(),
        user_name: " Ada@Example.com ".to_string(),
        display_name: None,
        active: true,
    })
    .unwrap();
    assert_eq!(ext, "ext-9");
    assert_eq!(user_name, "ada@example.com");
    assert_eq!(display, "ada@example.com");
    assert_eq!(ScimError::Unauthorized.status_code(), 401);
}

#[test]
fn usage_counts_active_members() {
    let s = usage_summary(1, &vec![4, 5, 6], 1024, 2);
    assert_eq!(s.active_users, 3);
    assert_eq!(s.stored_file_bytes, 1024);
    assert_eq!(s.calendar_connected_accounts, 2);
}

#[test]
fn webhooks_verify_their_token() {
    let token = generate_token();
    assert!(token.starts_with("ocw_"));
    assert_eq!(hash_token("abc"), ABC_SHA256);
    let hook = IncomingWebhook {
        id: 1,
        organization_id: 2,
        space_id: 3,
        channel_id: 4,
        bot_user_id: 5,
        created_by_user_id: 6,
        name: "ci".to_string(),
        token_hash: ABC_SHA256.to_string(),
        token_last_four: "xabc".to_string(),
        status: "active".to_string(),
        created_at: "now".to_string(),
    };
    assert_eq!(verify_webhook(Some(hook.clone()), "abc").unwrap(), hook);
    assert_eq!(verify_webhook(Some(hook.clone()), "abd").unwrap_err(), WebhookError::NotFound);
    let mut disabled = hook;
    disabled.status = "disabled".to_string();
    assert_eq!(verify_webhook(Some(disabled), "abc").unwrap_err(), WebhookError::NotFound);
    assert_eq!(verify_webhook(None, "abc").unwrap_err(), WebhookError::NotFound);
}

#[test]
fn retention_totals_stop_before_overflow() {
    let (_, ran_at) = retention_run_time("2026-07-01T10:00:00+02:00").unwrap();
    assert_eq!(ran_at, "2026-07-01T08:00:00.000Z");
    let mut summary = RetentionRunSummary::start(1, false);
    assert!(summary.try_add_purge(usize::MAX, 1, 0));
    assert!(!summary.try_add_purge(1, 0, 0));
    assert_eq!(summary.messages_purged, usize::MAX);
    assert_eq!(summary.files_purged, 1);
}
