//! Mails to team members and registrants.

use vstd::prelude::*;
use vstd::string::*;

use crate::gateway::auth::TeamRole;
use crate::json::{field, Json, JsonView};
use crate::text::percent::{percent_encode, percent_encoded};
use crate::text::search::{contains, has_part, parts_are_found};
use crate::text::{owned, trim_end_char, without_trailing};

verus! {

/// How an invitation was handed over.
#[derive(Debug, Clone, Copy, PartialEq, Eq, Structural)]
pub enum InviteEmailDelivery {
    /// Put in a queue, to be sent from there.
    Queued,
    /// Sent at once.
    Sent,
}

/// Up to the title.
pub const PAGE_TO_TITLE: &'static str = "<!DOCTYPE html>
<html lang=\"en\">
<head>
<meta charset=\"utf-8\">
<meta name=\"viewport\" content=\"width=device-width\">
<title>";

/// From the title to the preview text.
pub const PAGE_TO_PREVIEW: &'static str = "</title>
</head>
<body style=\"margin:0;padding:0;background:#f5f7fa;\">
  <div style=\"display:none;max-height:0;overflow:hidden;color:#f5f7fa;font-size:1px;line-height:1px;\">";

/// From the preview text to the mark.
pub const PAGE_TO_MARK: &'static str = "</div>
  <table role=\"presentation\" cellpadding=\"0\" cellspacing=\"0\" border=\"0\" width=\"100%\" style=\"background:#f5f7fa;\">
    <tr>
      <td align=\"center\" style=\"padding:32px 16px;\">
        <table role=\"presentation\" cellpadding=\"0\" cellspacing=\"0\" border=\"0\" width=\"560\" style=\"width:560px;max-width:100%;background:#ffffff;border-radius:8px;overflow:hidden;\">
          <tr>
            <td style=\"padding:28px 40px 20px;border-bottom:1px solid #dde4ee;\">
              <a href=\"https://prokuro.ai\" style=\"text-decoration:none;\">
                <img src=\"";

/// From the mark to the heading.
pub const PAGE_TO_HEADING: &'static str = "\" width=\"36\" height=\"36\" alt=\"Prokuro\" style=\"display:block;border:0;width:36px;height:36px;\">
              </a>
              <div style=\"font-family:Georgia,'Times New Roman',serif;font-size:20px;line-height:28px;color:#0f1b2d;padding-top:12px;\">Prokuro</div>
            </td>
          </tr>
          <tr>
            <td style=\"padding:28px 40px 8px;font-family:Georgia,'Times New Roman',serif;font-size:24px;line-height:32px;color:#0f1b2d;\">";

/// From the heading to the body.
pub const PAGE_TO_BODY: &'static str = "</td>
          </tr>
          <tr>
            <td style=\"padding:0 40px 8px;font-family:Arial,Helvetica,sans-serif;\">";

/// From the body to the button.
pub const PAGE_TO_CTA: &'static str = "</td>
          </tr>
          ";

/// From the button to the end.
pub const PAGE_END: &'static str = "
          <tr>
            <td style=\"padding:28px 40px 32px;font-family:Arial,Helvetica,sans-serif;font-size:12px;line-height:18px;color:#7a8598;\">
              Prokuro · San Francisco<br>
              <a href=\"https://prokuro.ai\" style=\"color:#2b4fff;text-decoration:none;\">prokuro.ai</a>
            </td>
          </tr>
        </table>
      </td>
    </tr>
  </table>
</body>
</html>";

/// A button up to its link.
pub const CTA_TO_LINK: &'static str = "<tr><td style=\"padding:8px 40px 8px;\">
              <a href=\"";

/// From the link to the label.
pub const CTA_TO_LABEL: &'static str = "\" style=\"display:inline-block;background:#2b4fff;color:#ffffff;font-family:Arial,Helvetica,sans-serif;font-size:14px;font-weight:600;line-height:1;text-decoration:none;padding:14px 22px;border-radius:8px;\">";

/// From the label to the end of the button.
pub const CTA_END: &'static str = "</a>
            </td></tr>";

/// A button with a link.
pub open spec fn cta_html(cta: Option<(Seq<char>, Seq<char>)>) -> Seq<char> {
    match cta {
        Some((label, href)) => CTA_TO_LINK@ + href + CTA_TO_LABEL@ + label + CTA_END@,
        None => Seq::empty(),
    }
}

/// A page in the house style.
pub open spec fn page_html(
    mark: Seq<char>,
    preview: Seq<char>,
    heading: Seq<char>,
    body: Seq<char>,
    cta: Option<(Seq<char>, Seq<char>)>,
) -> Seq<char> {
    PAGE_TO_TITLE@ + preview + PAGE_TO_PREVIEW@ + preview + PAGE_TO_MARK@ + mark + PAGE_TO_HEADING@
        + heading + PAGE_TO_BODY@ + body + PAGE_TO_CTA@ + cta_html(cta) + PAGE_END@
}

/// A page in the house style, with the mark at that address.
pub fn branded_email(
    mark: &str,
    preview: &str,
    heading: &str,
    body_html: &str,
    cta: Option<(&str, &str)>,
) -> (r: String)
    ensures
        r@ == page_html(mark@, preview@, heading@, body_html@, cta.deep_view()),
{
    let mut out = owned(PAGE_TO_TITLE);
    out.append(preview);
    out.append(PAGE_TO_PREVIEW);
    out.append(preview);
    out.append(PAGE_TO_MARK);
    out.append(mark);
    out.append(PAGE_TO_HEADING);
    out.append(heading);
    out.append(PAGE_TO_BODY);
    out.append(body_html);
    out.append(PAGE_TO_CTA);
    let mut button = String::new();
    if let Some((label, href)) = cta {
        button.append(CTA_TO_LINK);
        button.append(href);
        button.append(CTA_TO_LABEL);
        button.append(label);
        button.append(CTA_END);
        assert(button@ =~= CTA_TO_LINK@ + href@ + CTA_TO_LABEL@ + label@ + CTA_END@);
    }
    out.append(button.as_str());
    out.append(PAGE_END);
    out
}

/// Where the mark is found: at the given address, else next to the application
/// unless that runs on this machine, else at the public site.
pub open spec fn mark_url(logo_url: Option<Seq<char>>, app_base: Option<Seq<char>>) -> Seq<char> {
    if logo_url is Some && logo_url->0.len() > 0 {
        logo_url->0
    } else if app_base is Some && is_public_base(without_trailing(app_base->0, '/')) {
        without_trailing(app_base->0, '/') + "/brand/email/prokuro-mark.png"@
    } else {
        "https://prokuro.ai/brand/email/prokuro-mark.png"@
    }
}

/// An address that others can reach.
pub open spec fn is_public_base(base: Seq<char>) -> bool {
    base.len() > 0 && !has_part(base, "localhost"@) && !has_part(base, "127.0.0.1"@)
}

/// Where the mark is found.
pub fn email_mark_url(logo_url: Option<&str>, app_base: Option<&str>) -> (r: String)
    ensures
        r@ == mark_url(logo_url.deep_view(), app_base.deep_view()),
{
    if let Some(url) = logo_url {
        if !url.is_empty() {
            return owned(url);
        }
    }
    if let Some(base) = app_base {
        let mut base = trim_end_char(base, '/');
        if !base.as_str().is_empty() && !contains(base.as_str(), "localhost") && !contains(
            base.as_str(),
            "127.0.0.1",
        ) {
            base.append("/brand/email/prokuro-mark.png");
            return base;
        }
    }
    owned("https://prokuro.ai/brand/email/prokuro-mark.png")
}

/// The address of the application.
pub open spec fn base_url(app_base: Option<Seq<char>>) -> Seq<char> {
    match app_base {
        Some(base) => without_trailing(base, '/'),
        None => without_trailing("http://localhost:3010"@, '/'),
    }
}

fn app_base_url(app_base: Option<&str>) -> (r: String)
    ensures
        r@ == base_url(app_base.deep_view()),
{
    match app_base {
        Some(base) => trim_end_char(base, '/'),
        None => trim_end_char("http://localhost:3010", '/'),
    }
}

/// Where an invitation is accepted.
pub fn accept_url(token: &str, app_base: Option<&str>) -> (r: String)
    ensures
        r@ == base_url(app_base.deep_view()) + "/invite/accept?token="@ + percent_encoded(token@),
{
    let mut url = app_base_url(app_base);
    url.append("/invite/accept?token=");
    url.append(percent_encode(token).as_str());
    url
}

/// Where users log in.
pub fn login_url(app_base: Option<&str>) -> (r: String)
    ensures
        r@ == base_url(app_base.deep_view()) + "/login"@,
{
    let mut url = app_base_url(app_base);
    url.append("/login");
    url
}

/// A mail.
#[derive(Debug)]
pub struct Mail {
    pub to: String,
    pub subject: String,
    pub text: String,
    pub html: String,
}

/// The content of a mail.
#[verifier::ext_equal]
pub struct MailView {
    pub to: Seq<char>,
    pub subject: Seq<char>,
    pub text: Seq<char>,
    pub html: Seq<char>,
}

impl View for Mail {
    type V = MailView;

    open spec fn view(&self) -> MailView {
        MailView { to: self.to@, subject: self.subject@, text: self.text@, html: self.html@ }
    }
}

/// The name of a role in a mail.
pub open spec fn role_label(role: TeamRole) -> Seq<char> {
    match role {
        TeamRole::Admin => "Admin"@,
        TeamRole::ReadOnly => "Read only"@,
        TeamRole::Owner => "Owner"@,
    }
}

/// An invitation to a team.
pub open spec fn invite_mail_view(
    mark: Seq<char>,
    to: Seq<char>,
    accept_url: Seq<char>,
    role: TeamRole,
) -> MailView {
    MailView {
        to,
        subject: "You're invited to a Prokuro team"@,
        text: "You've been invited to join a Prokuro account as "@ + role_label(role)
            + ".\n\nAccept the invite:\n"@ + accept_url
            + "\n\nThis link expires in 7 days.\n\n— Prokuro\nhttps://prokuro.ai\n"@,
        html: page_html(
            mark,
            "You're invited to Prokuro"@,
            "You're invited"@,
            INVITE_TO_ROLE@ + role_label(role) + INVITE_END@,
            Some(("Accept invite"@, accept_url)),
        ),
    }
}

/// The body of an invitation up to the role.
pub const INVITE_TO_ROLE: &'static str =
    "<p style=\"margin:0 0 16px;font-size:15px;line-height:1.6;color:#4f5d73;\">You've been invited to join a Prokuro account as <strong style=\"color:#0f1b2d;\">";

/// The body of an invitation from the role on.
pub const INVITE_END: &'static str = "</strong>. This link expires in 7 days.</p>";

/// An invitation to a team.
pub fn invite_mail(mark: &str, to: &str, accept_url: &str, role: TeamRole) -> (r: Mail)
    ensures
        r@ == invite_mail_view(mark@, to@, accept_url@, role),
{
    let label = match role {
        TeamRole::Admin => "Admin",
        TeamRole::ReadOnly => "Read only",
        TeamRole::Owner => "Owner",
    };
    let mut text = owned("You've been invited to join a Prokuro account as ");
    text.append(label);
    text.append(".\n\nAccept the invite:\n");
    text.append(accept_url);
    text.append("\n\nThis link expires in 7 days.\n\n— Prokuro\nhttps://prokuro.ai\n");
    let mut body = owned(INVITE_TO_ROLE);
    body.append(label);
    body.append(INVITE_END);
    let html = branded_email(
        mark,
        "You're invited to Prokuro",
        "You're invited",
        body.as_str(),
        Some(("Accept invite", accept_url)),
    );
    Mail { to: owned(to), subject: owned("You're invited to a Prokuro team"), text, html }
}

/// The thanks for a registration.
pub const REGISTERED_TEXT: &'static str =
    "Thanks for registering with Prokuro. We have logged your request and will reach out.\n\n— Prokuro\nhttps://prokuro.ai\n";

/// The thanks for a registration as a page.
pub const REGISTERED_HTML: &'static str =
    "<p style=\"margin:0 0 16px;font-size:15px;line-height:1.6;color:#4f5d73;\">Thanks for registering. We logged your request and will reach out after we review it. You will get another email when your account is enabled.</p>";

/// The thanks that a registrant gets.
pub fn registrant_mail(mark: &str, user_email: &str) -> (r: Mail)
    ensures
        r@ == (MailView {
            to: user_email@,
            subject: "We received your Prokuro registration"@,
            text: REGISTERED_TEXT@,
            html: page_html(
                mark@,
                "We received your Prokuro registration"@,
                "We have your request"@,
                REGISTERED_HTML@,
                Some(("Visit Prokuro"@, "https://prokuro.ai"@)),
            ),
        }),
{
    let html = branded_email(
        mark,
        "We received your Prokuro registration",
        "We have your request",
        REGISTERED_HTML,
        Some(("Visit Prokuro", "https://prokuro.ai")),
    );
    Mail {
        to: owned(user_email),
        subject: owned("We received your Prokuro registration"),
        text: owned(REGISTERED_TEXT),
        html,
    }
}

/// The notice that sales gets of a registration.
pub fn lead_mail(user_email: &str) -> (r: Mail)
    ensures
        r@ == (MailView {
            to: "sales@prokuro.ai"@,
            subject: "Prokuro access request: "@ + user_email@,
            text: user_email@ + " registered and is waiting for access.\n"@,
            html: "<p><strong>"@ + user_email@
                + "</strong> registered and is waiting for access.</p>"@,
        }),
{
    let mut subject = owned("Prokuro access request: ");
    subject.append(user_email);
    let mut text = owned(user_email);
    text.append(" registered and is waiting for access.\n");
    let mut html = owned("<p><strong>");
    html.append(user_email);
    html.append("</strong> registered and is waiting for access.</p>");
    Mail { to: owned("sales@prokuro.ai"), subject, text, html }
}

/// The news that access is on.
pub const READY_HTML: &'static str =
    "<p style=\"margin:0 0 16px;font-size:15px;line-height:1.6;color:#4f5d73;\">Access is on for your team. Log in to upload a BOM and see what to buy, drop, or watch.</p>";

/// The news that access is on.
pub fn ready_mail(mark: &str, user_email: &str, login_url: &str) -> (r: Mail)
    ensures
        r@ == (MailView {
            to: user_email@,
            subject: "Your Prokuro account is ready"@,
            text: "Your Prokuro account is ready.\n\nLog in:\n"@ + login_url@
                + "\n\n— Prokuro\nhttps://prokuro.ai\n"@,
            html: page_html(
                mark@,
                "Your Prokuro account is ready"@,
                "Your account is ready"@,
                READY_HTML@,
                Some(("Log in to Prokuro"@, login_url@)),
            ),
        }),
{
    let mut text = owned("Your Prokuro account is ready.\n\nLog in:\n");
    text.append(login_url);
    text.append("\n\n— Prokuro\nhttps://prokuro.ai\n");
    let html = branded_email(
        mark,
        "Your Prokuro account is ready",
        "Your account is ready",
        READY_HTML,
        Some(("Log in to Prokuro", login_url)),
    );
    Mail { to: owned(user_email), subject: owned("Your Prokuro account is ready"), text, html }
}

/// A mail as it is put in the queue, with the link of an invitation.
pub open spec fn queued_mail(mail: MailView, from: Seq<char>, accept_url: Option<Seq<char>>) -> JsonView {
    let fields = seq![
        ("to"@, JsonView::Text(mail.to)),
        ("from"@, JsonView::Text(from)),
        ("subject"@, JsonView::Text(mail.subject)),
        ("text"@, JsonView::Text(mail.text)),
        ("html"@, JsonView::Text(mail.html)),
    ];
    match accept_url {
        Some(url) => JsonView::Object(fields.push(("accept_url"@, JsonView::Text(url)))),
        None => JsonView::Object(fields),
    }
}

/// A mail as it is put in the queue, with the link of an invitation.
pub fn queue_payload(mail: &Mail, from: &str, accept_url: Option<&str>) -> (r: Json)
    ensures
        r@ == queued_mail(mail@, from@, accept_url.deep_view()),
{
    let mut fields = vec![
        field("to", Json::text(mail.to.as_str())),
        field("from", Json::text(from)),
        field("subject", Json::text(mail.subject.as_str())),
        field("text", Json::text(mail.text.as_str())),
        field("html", Json::text(mail.html.as_str())),
    ];
    if let Some(url) = accept_url {
        fields.push(field("accept_url", Json::text(url)));
    }
    let r = Json::Object(fields);
    assert(r@->Object_0 =~= queued_mail(mail@, from@, accept_url.deep_view())->Object_0);
    r
}

/// The application's address loses the slashes at its end, so that links to it have one.
pub proof fn links_have_one_slash(token: &str, base: &str, slashed: &str, a: String, b: String, c: String, d: String)
    requires
        call_ensures(accept_url, (token, Some(base)), a),
        call_ensures(accept_url, (token, Some(slashed)), b),
        call_ensures(login_url, (Some(base),), c),
        call_ensures(login_url, (Some(slashed),), d),
        slashed@ == base@.push('/'),
        base@.len() > 0,
        base@.last() != '/',
    ensures
        a@ == base@ + "/invite/accept?token="@ + percent_encoded(token@),
        b@ == a@,
        c@ == base@ + "/login"@,
        d@ == c@,
{
    reveal_with_fuel(without_trailing, 3);
    assert(slashed@.drop_last() =~= base@);
}

/// Without an address the application is looked for on this machine.
pub proof fn links_default_to_this_machine(r: String)
    requires
        call_ensures(login_url, (None::<&str>,), r),
    ensures
        r@ == "http://localhost:3010"@ + "/login"@,
{
    reveal_strlit("http://localhost:3010");
    let s = "http://localhost:3010"@;
    assert(s.len() == 21 && s.last() == '0');
    reveal_with_fuel(without_trailing, 2);
}

/// The mark is shown from the address that was set for it, else from the application
/// where others can reach it, else from the public site.
pub proof fn marks_can_be_reached(logo: &str, base: &str, a: String, b: String, c: String)
    requires
        call_ensures(email_mark_url, (Some(logo), Some(base)), a),
        call_ensures(email_mark_url, (None::<&str>, Some(base)), b),
        call_ensures(email_mark_url, (None::<&str>, None::<&str>), c),
        base@.len() > 0,
        base@.last() != '/',
    ensures
        logo@.len() > 0 ==> a@ == logo@,
        logo@.len() == 0 ==> a@ == b@,
        !has_part(base@, "localhost"@) && !has_part(base@, "127.0.0.1"@) ==> b@ == base@
            + "/brand/email/prokuro-mark.png"@,
        has_part(base@, "localhost"@) || has_part(base@, "127.0.0.1"@) ==> b@ == c@,
        c@ == "https://prokuro.ai/brand/email/prokuro-mark.png"@,
{
    reveal_with_fuel(without_trailing, 2);
}

/// An invitation goes to the person invited, names the role and brings the link, in both
/// of its forms.
pub proof fn invitations_bring_the_link(mark: &str, to: &str, url: &str, role: TeamRole, r: Mail)
    requires
        call_ensures(invite_mail, (mark, to, url, role), r),
    ensures
        r@.to == to@,
        r@.subject == "You're invited to a Prokuro team"@,
        has_part(r@.text, url@),
        has_part(r@.html, url@),
        role == TeamRole::Admin ==> has_part(r@.text, "Admin"@) && has_part(r@.html, "Admin"@),
        role == TeamRole::ReadOnly ==> has_part(r@.text, "Read only"@) && has_part(r@.html, "Read only"@),
        role == TeamRole::Owner ==> has_part(r@.text, "Owner"@) && has_part(r@.html, "Owner"@),
{
    let label = role_label(role);
    let a = "You've been invited to join a Prokuro account as "@;
    let b = ".\n\nAccept the invite:\n"@;
    let c = "\n\nThis link expires in 7 days.\n\n— Prokuro\nhttps://prokuro.ai\n"@;
    parts_are_found(a, label, b + url@ + c);
    assert(a + label + (b + url@ + c) =~= a + label + b + url@ + c);
    parts_are_found(a + label + b, url@, c);
    let preview = "You're invited to Prokuro"@;
    let heading = "You're invited"@;
    let body = INVITE_TO_ROLE@ + label + INVITE_END@;
    let cta = Some(("Accept invite"@, url@));
    pages_show_their_parts(mark@, preview, heading, body, cta);
    parts_are_found(INVITE_TO_ROLE@, label, INVITE_END@);
    parts_of_parts(r@.html, body, label);
}

proof fn parts_of_parts(s: Seq<char>, p: Seq<char>, q: Seq<char>)
    requires
        has_part(s, p),
        has_part(p, q),
    ensures
        has_part(s, q),
{
    let i = choose|i: int| crate::text::search::occurs_at(s, p, i);
    let j = choose|j: int| crate::text::search::occurs_at(p, q, j);
    let whole = s.subrange(i, i + p.len());
    assert(whole == p);
    assert(s.subrange(i + j, i + j + q.len()) =~= whole.subrange(j, j + q.len() as int));
    assert(crate::text::search::occurs_at(s, q, i + j));
}

/// A page shows its heading, its text, its mark and the link of its button.
pub proof fn pages_show_their_parts(
    mark: Seq<char>,
    preview: Seq<char>,
    heading: Seq<char>,
    body: Seq<char>,
    cta: Option<(Seq<char>, Seq<char>)>,
)
    ensures
        ({
            let page = page_html(mark, preview, heading, body, cta);
            &&& has_part(page, mark)
            &&& has_part(page, preview)
            &&& has_part(page, heading)
            &&& has_part(page, body)
            &&& (match cta {
                Some((label, href)) => has_part(page, label) && has_part(page, href),
                None => true,
            })
        }),
{
    let page = page_html(mark, preview, heading, body, cta);
    let b = cta_html(cta);
    let p0 = PAGE_TO_TITLE@ + preview + PAGE_TO_PREVIEW@;
    let p1 = p0 + preview + PAGE_TO_MARK@;
    let p2 = p1 + mark + PAGE_TO_HEADING@;
    let p3 = p2 + heading + PAGE_TO_BODY@;
    let p4 = p3 + body + PAGE_TO_CTA@;
    let t4 = PAGE_END@;
    let t3 = PAGE_TO_CTA@ + b + t4;
    let t2 = PAGE_TO_BODY@ + body + t3;
    let t1 = PAGE_TO_HEADING@ + heading + t2;
    let t0 = PAGE_TO_MARK@ + mark + t1;
    parts_are_found(p0, preview, t0);
    parts_are_found(p1, mark, t1);
    parts_are_found(p2, heading, t2);
    parts_are_found(p3, body, t3);
    parts_are_found(p4, b, t4);
    assert(page =~= p4 + b + t4);
    assert(page =~= p3 + body + t3);
    assert(page =~= p2 + heading + t2);
    assert(page =~= p1 + mark + t1);
    assert(page =~= p0 + preview + t0);
    if let Some((label, href)) = cta {
        parts_are_found(CTA_TO_LINK@, href, CTA_TO_LABEL@ + label + CTA_END@);
        assert(CTA_TO_LINK@ + href + (CTA_TO_LABEL@ + label + CTA_END@) =~= b);
        parts_are_found(CTA_TO_LINK@ + href + CTA_TO_LABEL@, label, CTA_END@);
        parts_of_parts(page, b, href);
        parts_of_parts(page, b, label);
    }
}

/// The mails of a registration go to the registrant and to sales, and the news that
/// access is on goes to its holder with the link to log in.
pub proof fn registrations_are_answered(mark: &str, email: &str, url: &str, a: Mail, b: Mail, c: Mail)
    requires
        call_ensures(registrant_mail, (mark, email), a),
        call_ensures(lead_mail, (email,), b),
        call_ensures(ready_mail, (mark, email, url), c),
    ensures
        a@.to == email@,
        b@.to == "sales@prokuro.ai"@,
        has_part(b@.text, email@) && has_part(b@.html, email@) && has_part(b@.subject, email@),
        c@.to == email@,
        has_part(c@.text, url@) && has_part(c@.html, url@),
{
    parts_are_found(Seq::empty(), email@, " registered and is waiting for access.\n"@);
    assert(Seq::<char>::empty() + email@ + " registered and is waiting for access.\n"@ =~= email@
        + " registered and is waiting for access.\n"@);
    parts_are_found("<p><strong>"@, email@, "</strong> registered and is waiting for access.</p>"@);
    parts_are_found("Prokuro access request: "@, email@, Seq::empty());
    assert("Prokuro access request: "@ + email@ + Seq::<char>::empty() =~= "Prokuro access request: "@ + email@);
    parts_are_found("Your Prokuro account is ready.\n\nLog in:\n"@, url@, "\n\n— Prokuro\nhttps://prokuro.ai\n"@);
    pages_show_their_parts(
        mark@,
        "Your Prokuro account is ready"@,
        "Your account is ready"@,
        READY_HTML@,
        Some(("Log in to Prokuro"@, url@)),
    );
}

/// A mail in the queue is the mail: to whom, from whom, about what, and in both forms.
pub proof fn queued_mails_are_whole(mail: &Mail, from: &str, url: Option<&str>, r: Json)
    requires
        call_ensures(queue_payload, (mail, from, url), r),
    ensures
        r@ is Object,
        ({
            let f = r@->Object_0;
            &&& f.contains(("to"@, JsonView::Text(mail@.to)))
            &&& f.contains(("from"@, JsonView::Text(from@)))
            &&& f.contains(("subject"@, JsonView::Text(mail@.subject)))
            &&& f.contains(("text"@, JsonView::Text(mail@.text)))
            &&& f.contains(("html"@, JsonView::Text(mail@.html)))
            &&& url is Some ==> f.contains(("accept_url"@, JsonView::Text(url->0@))) && f.len() == 6
            &&& url is None ==> f.len() == 5
        }),
{
    let f = r@->Object_0;
    assert(f[0] == ("to"@, JsonView::Text(mail@.to)));
    assert(f[1] == ("from"@, JsonView::Text(from@)));
    assert(f[2] == ("subject"@, JsonView::Text(mail@.subject)));
    assert(f[3] == ("text"@, JsonView::Text(mail@.text)));
    assert(f[4] == ("html"@, JsonView::Text(mail@.html)));
    if url is Some {
        assert(f[5] == ("accept_url"@, JsonView::Text(url->0@)));
    }
}

} // verus!
