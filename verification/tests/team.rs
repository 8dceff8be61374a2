use prokuro::clock::{parse_moment, Moment, MAX_SECS};
use prokuro::gateway::auth::{require_write, AuthUser, TeamRole};
use prokuro::gateway::team::handlers::{
    admit_inviter, admit_patcher, admit_remover, admit_seat, admit_token, invite_reply, member_json,
    team_error, team_json,
};
use prokuro::gateway::team::mail::{
    accept_url, branded_email, email_mark_url, invite_mail, lead_mail, login_url, queue_payload,
    ready_mail, registrant_mail, InviteEmailDelivery,
};
use prokuro::gateway::team::store::{
    invite_from_item, invite_item, is_expired, member_from_item, member_item, normalize_email,
    snapshot_from_items, token_item, ttl_epoch, InviteRecord, TeamError, TeamStore,
};
use prokuro::json::{as_int, as_text, Json};
use prokuro::model::purchasing::BillingPlan;

fn user(id: &str, email: &str) -> AuthUser {
    AuthUser {
        user_id: id.to_string(),
        account_id: id.to_string(),
        email: Some(email.to_string()),
        first_name: None,
        last_name: None,
        role: TeamRole::Owner,
    }
}

fn resolved(team: &mut TeamStore, id: &str, email: &str) -> AuthUser {
    let mut member = user(id, email);
    team.resolve_membership(&mut member);
    member
}

#[test]
fn free_plan_invite_returns_402() {
    let mut team = TeamStore::memory();
    let owner = resolved(&mut team, "owner-free", "owner@example.com");
    assert_eq!(admit_inviter(&owner, "read_only").unwrap(), TeamRole::ReadOnly);
    let reply = admit_seat(BillingPlan::Free, team.seat_usage("owner-free")).unwrap_err();
    assert_eq!(reply.status, 402);
    assert_eq!(as_text(reply.body.get("error")).as_deref(), Some("plan_cap_exceeded"));
    assert_eq!(as_text(reply.body.get("cap")).as_deref(), Some("seats"));
    assert_eq!(as_int(reply.body.get("limit")), Some(1));
    assert!(as_text(reply.body.get("message")).unwrap().contains("owner only"));
}

#[test]
fn growth_owner_can_invite_and_read_only_cannot_invite_or_delete_bom() {
    let mut team = TeamStore::memory();
    let owner = resolved(&mut team, "owner-growth", "owner@example.com");
    admit_inviter(&owner, "read_only").unwrap();
    assert!(admit_seat(BillingPlan::Growth, team.seat_usage("owner-growth")).is_ok());
    let invite = team
        .create_invite("owner-growth", "reader@example.com", TeamRole::ReadOnly, "owner-growth")
        .unwrap();
    let url = accept_url(&invite.id, None);
    assert!(url.contains(&invite.id));
    let reply = invite_reply(&invite, &url, None);
    assert_eq!(reply.status, 201);
    assert!(matches!(reply.body.get("email_sent"), Some(Json::Bool(false))));
    assert_eq!(as_text(reply.body.get("email_delivery")).as_deref(), Some("not_configured"));
    assert_eq!(admit_seat(BillingPlan::Growth, team.seat_usage("owner-growth")).unwrap_err().status, 402);
    let accepted = team.accept_invite(&invite.id, &user("reader-1", "reader@example.com")).unwrap();
    assert_eq!(accepted.account_id, "owner-growth");
    assert_eq!(accepted.role, TeamRole::ReadOnly);
    let reader = resolved(&mut team, "reader-1", "reader@example.com");
    assert_eq!(reader.account_id, "owner-growth");
    let refused = require_write(&reader).unwrap_err();
    assert_eq!(refused.status, 403);
    assert_eq!(as_text(refused.body.get("error")).as_deref(), Some("forbidden"));
    let refused = admit_inviter(&reader, "admin").unwrap_err();
    assert_eq!(refused.status, 403);
    assert!(as_text(refused.body.get("message")).unwrap().contains("owner or admin"));
}

#[test]
fn admin_can_manage_members_within_seat_cap() {
    let mut team = TeamStore::memory();
    resolved(&mut team, "owner-scale", "owner@example.com");
    assert!(admit_seat(BillingPlan::Scale, team.seat_usage("owner-scale")).is_ok());
    let invite = team
        .create_invite("owner-scale", "admin@example.com", TeamRole::Admin, "owner-scale")
        .unwrap();
    team.accept_invite(&invite.id, &user("admin-1", "admin@example.com")).unwrap();
    let admin = resolved(&mut team, "admin-1", "admin@example.com");
    assert_eq!(admin.role, TeamRole::Admin);
    assert!(admit_inviter(&admin, "read_only").is_ok());
    let invite = team
        .create_invite("owner-scale", "reader@example.com", TeamRole::ReadOnly, "admin-1")
        .unwrap();
    team.accept_invite(&invite.id, &user("reader-2", "reader@example.com")).unwrap();
    let role = admit_patcher(&admin, "reader-2", "admin").unwrap();
    let patched = team.patch_member_role("owner-scale", "reader-2", role).unwrap();
    assert_eq!(patched.role, TeamRole::Admin);
    assert_eq!(as_text(member_json(&patched).get("role")).as_deref(), Some("admin"));
    admit_remover(&admin, "reader-2").unwrap();
    team.remove_member("owner-scale", "reader-2").unwrap();
    assert!(matches!(team.remove_member("owner-scale", "reader-2"), Err(TeamError::NotFound)));
}

#[test]
fn expired_invite_cannot_be_accepted() {
    let mut team = TeamStore::memory();
    resolved(&mut team, "owner-exp", "owner@example.com");
    let then = parse_moment("2020-01-01T00:00:00Z").unwrap();
    let invite = team
        .create_invite_at(
            "owner-exp",
            "reader@example.com",
            TeamRole::ReadOnly,
            "owner-exp",
            then,
            "token-1".into(),
        )
        .unwrap();
    let error = team.accept_invite(&invite.id, &user("reader-x", "reader@example.com")).unwrap_err();
    let reply = team_error(error);
    assert_eq!(reply.status, 410);
    assert_eq!(as_text(reply.body.get("error")).as_deref(), Some("invite expired"));
}

#[test]
fn invites_end_with_the_calendar() {
    let mut team = TeamStore::memory();
    resolved(&mut team, "owner-late", "owner@example.com");
    let last = Moment { secs: MAX_SECS, nanos: 0 };
    let invite = team
        .create_invite_at("owner-late", "a@example.com", TeamRole::Admin, "owner-late", last, "t-1".into())
        .unwrap();
    assert_eq!(invite.expires_at, invite.created_at);
    let before = Moment { secs: MAX_SECS - 604_801, nanos: 0 };
    let invite = team
        .create_invite_at("owner-late", "b@example.com", TeamRole::Admin, "owner-late", before, "t-2".into())
        .unwrap();
    assert_ne!(invite.expires_at, invite.created_at);
    let error = team.create_invite("owner-late", "no email", TeamRole::Admin, "owner-late").unwrap_err();
    assert!(matches!(error, TeamError::Invalid(text) if text == "invalid email"));
}

#[test]
fn invites_are_for_one_address() {
    let mut team = TeamStore::memory();
    resolved(&mut team, "owner", "owner@example.com");
    let invite = team
        .create_invite("owner", "Reader@Example.com", TeamRole::ReadOnly, "owner")
        .unwrap();
    assert_eq!(invite.email, "reader@example.com");
    assert!(matches!(
        team.create_invite("owner", "reader@example.com", TeamRole::Admin, "owner"),
        Err(TeamError::Conflict(_))
    ));
    assert!(matches!(
        team.accept_invite(&invite.id, &user("x", "other@example.com")),
        Err(TeamError::EmailMismatch)
    ));
    assert!(matches!(team.accept_invite("nothing", &user("x", "x@y.com")), Err(TeamError::NotFound)));
    team.revoke_invite("owner", &invite.id).unwrap();
    assert!(matches!(team.revoke_invite("owner", &invite.id), Err(TeamError::NotFound)));
    assert!(matches!(normalize_email("nobody"), Err(TeamError::Invalid(_))));
}

#[test]
fn owners_stay() {
    let mut team = TeamStore::memory();
    let owner = resolved(&mut team, "owner", "owner@example.com");
    assert!(team.remove_member("owner", "owner").is_err());
    assert!(admit_remover(&owner, "owner").is_err());
    assert_eq!(team.find_account_by_email("owner@example.com").as_deref(), Some("owner"));
    let snapshot = team.snapshot("owner");
    assert_eq!(snapshot.members.len(), 1);
    let shown = team_json(&owner, BillingPlan::Growth, &snapshot, None);
    assert!(shown.get("members").is_some());
    assert!(admit_token("  ").is_err());
    assert_eq!(admit_token(" t ").unwrap(), "t");
}

#[test]
fn rows_read_back() {
    let mut team = TeamStore::memory();
    resolved(&mut team, "owner", "owner@example.com");
    let member = team.snapshot("owner").members.remove(0);
    for account_row in [false, true] {
        let read = member_from_item(&member_item(&member, account_row)).expect("member");
        assert_eq!(read.user_id, "owner");
        assert_eq!(read.role, TeamRole::Owner);
    }
    let invite = InviteRecord {
        id: "t".into(),
        account_id: "owner".into(),
        email: "a@b.com".into(),
        role: TeamRole::Admin,
        invited_by: "owner".into(),
        expires_at: "2030-01-01T00:00:00Z".into(),
        created_at: "2026-01-01T00:00:00Z".into(),
    };
    let read = invite_from_item(&invite_item(&invite)).expect("invite");
    assert_eq!((read.id.as_str(), read.email.as_str()), ("t", "a@b.com"));
    assert!(token_item(&invite).entries.len() > 2);
    let snapshot = snapshot_from_items(&vec![member_item(&member, true), invite_item(&invite)]);
    assert_eq!((snapshot.members.len(), snapshot.invites.len()), (1, 1));
    assert_eq!(ttl_epoch("1970-01-01T00:01:00Z"), Some(60));
    assert!(is_expired("2020-01-01T00:00:00Z", parse_moment("2021-01-01T00:00:00Z").unwrap()));
}

#[test]
fn branded_email_has_mark_wordmark_and_cta() {
    let html = branded_email(
        &email_mark_url(None, None),
        "Your Prokuro account is ready",
        "Your account is ready",
        "<p>Access is on.</p>",
        Some(("Log in to Prokuro", "https://app.prokuro.ai/login")),
    );
    assert!(html.contains("prokuro-mark.png"));
    assert!(html.contains(">Prokuro<"));
    assert!(html.contains("Your account is ready"));
    assert!(html.contains("Log in to Prokuro"));
    assert!(html.contains("https://app.prokuro.ai/login"));
    assert!(html.contains("#2b4fff"));
}

#[test]
fn mails_name_their_reader() {
    let mark = email_mark_url(None, Some("https://app.example"));
    let invite = invite_mail(&mark, "a@b.com", "https://app.example/accept?token=t", TeamRole::Admin);
    assert_eq!(invite.to, "a@b.com");
    assert!(invite.text.contains("https://app.example/accept?token=t"));
    assert!(invite.html.contains("https://app.example/accept?token=t"));
    assert_eq!(registrant_mail(&mark, "a@b.com").to, "a@b.com");
    assert!(lead_mail("a@b.com").text.contains("a@b.com"));
    assert!(ready_mail(&mark, "a@b.com", &login_url(None)).text.contains(&login_url(None)));
    let payload = queue_payload(&invite, "from@x.com", Some("https://u"));
    assert_eq!(as_text(payload.get("to")).as_deref(), Some("a@b.com"));
    let member = InviteRecord {
        id: "t".into(),
        account_id: "o".into(),
        email: "a@b.com".into(),
        role: TeamRole::Admin,
        invited_by: "o".into(),
        expires_at: "x".into(),
        created_at: "x".into(),
    };
    let sent = invite_reply(&member, "u", Some(Ok(InviteEmailDelivery::Sent)));
    assert_eq!(sent.status, 201);
    let failed = invite_reply(&member, "u", Some(Err("down".into())));
    assert_eq!(failed.status, 201);
}
