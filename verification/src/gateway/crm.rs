//! Notes on boms in the customer's CRM.

use vstd::prelude::*;
use vstd::string::*;

use super::analyze::{is_risky, line_views, AnalyzeView, AnalyzedLine, LineView, RiskLevel};
use super::boms::types::{BomRecord, BomRecordView};
use super::clients::tariff::is_positive;
use crate::http::{error_reply, refusal, Reply, ReplyView};
use crate::json::{as_text, field, get_view, json_view, pointer_view, text_of, Json, JsonView};
use crate::text::case::{ascii_lower, eq_ascii_case, eq_ignore_ascii_case, to_ascii_lower};
use crate::text::number::{dec_int, dec_nat, i64_text, usize_text};
use crate::text::search::{join, joined};
use crate::text::{is_blank, owned, same, trim, trim_end_char, without_trailing};

verus! {

/// What a note is to a company, in the CRM's numbers.
pub const NOTE_TO_COMPANY_ASSOCIATION: u32 = 190;

/// How many accounts a search shows.
pub const ACCOUNT_SEARCH_LIMIT: u32 = 10;

/// How many lines a note lists.
pub const NOTE_RISK_LINES: usize = 5;

/// What to search accounts for.
#[derive(Debug)]
pub struct AccountSearchParams {
    pub query: String,
}

/// An account in the CRM.
#[derive(Debug)]
pub struct CrmAccount {
    pub id: String,
    pub name: String,
    pub domain: Option<String>,
}

/// The content of an account.
#[verifier::ext_equal]
pub struct CrmAccountView {
    pub id: Seq<char>,
    pub name: Seq<char>,
    pub domain: Option<Seq<char>>,
}

impl View for CrmAccount {
    type V = CrmAccountView;

    open spec fn view(&self) -> CrmAccountView {
        CrmAccountView { id: self.id@, name: self.name@, domain: self.domain.deep_view() }
    }
}

/// The contents of accounts.
pub open spec fn account_views(accounts: Seq<CrmAccount>) -> Seq<CrmAccountView> {
    accounts.map_values(|a: CrmAccount| a@)
}

/// The text, unless it is blank.
pub open spec fn unless_blank(text: Option<Seq<char>>) -> Option<Seq<char>> {
    match text {
        Some(t) => if is_blank(t) {
            None
        } else {
            Some(t)
        },
        None => None,
    }
}

/// What a search result says of an account; nothing where it has no id.
pub open spec fn found_account(result: JsonView) -> Option<CrmAccountView> {
    match text_of(get_view(result, "id"@)) {
        None => None,
        Some(id) => Some(
            CrmAccountView {
                id,
                name: match unless_blank(text_of(pointer_view(result, seq!["properties"@, "name"@]))) {
                    Some(name) => name,
                    None => "Unnamed company"@,
                },
                domain: unless_blank(
                    text_of(pointer_view(result, seq!["properties"@, "domain"@])),
                ),
            },
        ),
    }
}

/// The accounts in search results, in order.
pub open spec fn found_accounts(results: Seq<JsonView>) -> Seq<CrmAccountView>
    decreases results.len(),
{
    if results.len() == 0 {
        Seq::empty()
    } else {
        let before = found_accounts(results.drop_last());
        match found_account(results.last()) {
            Some(account) => before.push(account),
            None => before,
        }
    }
}

/// The accounts that a search found.
pub open spec fn search_result(response: JsonView) -> Seq<CrmAccountView> {
    match get_view(response, "results"@) {
        Some(JsonView::Array(results)) => found_accounts(results),
        _ => Seq::empty(),
    }
}

fn drop_blank(text: Option<String>) -> (r: Option<String>)
    ensures
        r.deep_view() == unless_blank(text.deep_view()),
{
    match text {
        Some(t) => if trim(t.as_str()).as_str().is_empty() {
            None
        } else {
            Some(t)
        },
        None => None,
    }
}

fn read_account(result: &Json) -> (r: Option<CrmAccount>)
    ensures
        match found_account(result@) {
            Some(account) => r is Some && r->0@ == account,
            None => r is None,
        },
{
    let id = match as_text(result.get("id")) {
        Some(id) => id,
        None => {
            return None;
        },
    };
    let name_path: [&str; 2] = ["properties", "name"];
    let domain_path: [&str; 2] = ["properties", "domain"];
    assert(name_path.deep_view() =~= seq!["properties"@, "name"@]);
    assert(domain_path.deep_view() =~= seq!["properties"@, "domain"@]);
    let name = match drop_blank(as_text(result.pointer(&name_path))) {
        Some(name) => name,
        None => owned("Unnamed company"),
    };
    let domain = drop_blank(as_text(result.pointer(&domain_path)));
    Some(CrmAccount { id, name, domain })
}

/// The accounts that a search found.
pub fn accounts_from_search(response: &Json) -> (r: Vec<CrmAccount>)
    ensures
        account_views(r@) == search_result(response@),
{
    let mut out: Vec<CrmAccount> = Vec::new();
    assert(account_views(out@) =~= Seq::<CrmAccountView>::empty());
    match response.get("results") {
        Some(Json::Array(results)) => {
            let ghost all = results@.map_values(|j: Json| j@);
            proof {
                assert(json_view(Json::Array(*results))->Array_0 =~= all);
            }
            let mut i: usize = 0;
            assert(account_views(out@) =~= found_accounts(all.take(0)));
            while i < results.len()
                invariant
                    i <= results@.len(),
                    all == results@.map_values(|j: Json| j@),
                    account_views(out@) == found_accounts(all.take(i as int)),
                decreases results@.len() - i,
            {
                let ghost before = out@;
                proof {
                    assert(all.take(i + 1).drop_last() =~= all.take(i as int));
                    assert(all.take(i + 1).last() == results@[i as int]@);
                }
                if let Some(account) = read_account(&results[i]) {
                    out.push(account);
                    assert(account_views(out@) =~= account_views(before).push(account@));
                }
                i += 1;
            }
            assert(all.take(i as int) =~= all);
        },
        _ => {},
    }
    out
}

/// A note on a company as the CRM takes it.
pub open spec fn note_json(account_id: Seq<char>, body: Seq<char>, timestamp: Seq<char>) -> JsonView {
    JsonView::Object(
        seq![
            (
                "properties"@,
                JsonView::Object(
                    seq![
                        ("hs_timestamp"@, JsonView::Text(timestamp)),
                        ("hs_note_body"@, JsonView::Text(body)),
                    ],
                ),
            ),
            (
                "associations"@,
                JsonView::Array(
                    seq![
                        JsonView::Object(
                            seq![
                                (
                                    "to"@,
                                    JsonView::Object(seq![("id"@, JsonView::Text(account_id))]),
                                ),
                                (
                                    "types"@,
                                    JsonView::Array(
                                        seq![
                                            JsonView::Object(
                                                seq![
                                                    (
                                                        "associationCategory"@,
                                                        JsonView::Text("HUBSPOT_DEFINED"@),
                                                    ),
                                                    (
                                                        "associationTypeId"@,
                                                        JsonView::Number(
                                                            dec_nat(
                                                                NOTE_TO_COMPANY_ASSOCIATION as nat,
                                                            ),
                                                        ),
                                                    ),
                                                ],
                                            ),
                                        ],
                                    ),
                                ),
                            ],
                        ),
                    ],
                ),
            ),
        ],
    )
}

fn object1(name: &str, value: Json) -> (r: Json)
    ensures
        r@ == JsonView::Object(seq![(name@, value@)]),
{
    let r = Json::Object(vec![field(name, value)]);
    assert(r@->Object_0 =~= seq![(name@, value@)]);
    r
}

fn object2(a: &str, x: Json, b: &str, y: Json) -> (r: Json)
    ensures
        r@ == JsonView::Object(seq![(a@, x@), (b@, y@)]),
{
    let r = Json::Object(vec![field(a, x), field(b, y)]);
    assert(r@->Object_0 =~= seq![(a@, x@), (b@, y@)]);
    r
}

fn array1(value: Json) -> (r: Json)
    ensures
        r@ == JsonView::Array(seq![value@]),
{
    let r = Json::Array(vec![value]);
    assert(r@->Array_0 =~= seq![value@]);
    r
}

/// A note on a company as the CRM takes it.
pub fn note_payload(account_id: &str, body: &str, timestamp: &str) -> (r: Json)
    ensures
        r@ == note_json(account_id@, body@, timestamp@),
{
    let properties = object2("hs_timestamp", Json::text(timestamp), "hs_note_body", Json::text(body));
    let kind = object2(
        "associationCategory",
        Json::text("HUBSPOT_DEFINED"),
        "associationTypeId",
        Json::number(NOTE_TO_COMPANY_ASSOCIATION as u64),
    );
    let association = object2(
        "to",
        object1("id", Json::text(account_id)),
        "types",
        array1(kind),
    );
    object2("properties", properties, "associations", array1(association))
}

/// A search for accounts as the CRM takes it.
pub fn search_payload(query: &str) -> (r: Json)
    ensures
        r@ == JsonView::Object(
            seq![
                ("query"@, JsonView::Text(query@)),
                ("limit"@, JsonView::Number(dec_nat(ACCOUNT_SEARCH_LIMIT as nat))),
                (
                    "properties"@,
                    JsonView::Array(seq![JsonView::Text("name"@), JsonView::Text("domain"@)]),
                ),
            ],
        ),
{
    let properties = Json::Array(vec![Json::text("name"), Json::text("domain")]);
    assert(properties@->Array_0 =~= seq![JsonView::Text("name"@), JsonView::Text("domain"@)]);
    let r = Json::Object(
        vec![
            field("query", Json::text(query)),
            field("limit", Json::number(ACCOUNT_SEARCH_LIMIT as u64)),
            field("properties", properties),
        ],
    );
    assert(r@->Object_0 =~= seq![
        ("query"@, JsonView::Text(query@)),
        ("limit"@, JsonView::Number(dec_nat(ACCOUNT_SEARCH_LIMIT as nat))),
        (
            "properties"@,
            JsonView::Array(seq![JsonView::Text("name"@), JsonView::Text("domain"@)]),
        ),
    ]);
    r
}

/// The reason in a part's life.
pub open spec fn life_reason(line: LineView) -> Seq<Seq<char>> {
    let lifecycle = ascii_lower(line.lifecycle_status);
    if lifecycle == "eol"@ || lifecycle == "discontinued"@ {
        seq!["EOL"@]
    } else if lifecycle == "nrnd"@ {
        seq!["NRND"@]
    } else {
        Seq::empty()
    }
}

/// The reason in a part's stock.
pub open spec fn stock_reason(line: LineView) -> Seq<Seq<char>> {
    if eq_ascii_case(line.availability_status, "outofstock"@) {
        seq!["out of stock"@]
    } else if line.total_avail > 0 {
        seq![dec_int(line.total_avail as int) + " in stock"@]
    } else {
        Seq::empty()
    }
}

/// Whole weeks, rounded to the nearest.
pub open spec fn weeks(days: int) -> int {
    (2 * days + 7) / 14
}

/// The reason in a part's lead time.
pub open spec fn lead_reason(line: LineView) -> Seq<Seq<char>> {
    if line.factory_lead_days is Some && line.factory_lead_days->0 > 0 {
        seq![dec_int(weeks(line.factory_lead_days->0 as int)) + " wk lead"@]
    } else {
        Seq::empty()
    }
}

/// The reason in a part's duty.
pub open spec fn duty_reason(line: LineView) -> Seq<Seq<char>> {
    if line.total_duty_pct is Some && is_positive(line.total_duty_pct->0.bits) {
        seq![line.total_duty_pct->0.plain + "% duty"@]
    } else {
        Seq::empty()
    }
}

/// Why a line is at risk.
pub open spec fn reasons(line: LineView) -> Seq<Seq<char>> {
    life_reason(line) + stock_reason(line) + lead_reason(line) + duty_reason(line)
}

/// A line in a note: the part and why it is at risk.
pub open spec fn headline(line: LineView) -> Seq<char> {
    let mpn = match line.mpn {
        Some(mpn) => mpn,
        None => "(no MPN)"@,
    };
    if reasons(line).len() == 0 {
        mpn
    } else {
        mpn + " — "@ + joined(reasons(line), ", "@)
    }
}

fn push_text(list: &mut Vec<String>, text: String)
    ensures
        final(list).deep_view() == old(list).deep_view().push(text@),
{
    let ghost before = list.deep_view();
    list.push(text);
    assert(list.deep_view() =~= before.push(text@));
}

/// A line in a note.
pub fn line_headline(line: &AnalyzedLine) -> (r: String)
    ensures
        r@ == headline(line@),
{
    let mut out = match &line.mpn {
        Some(mpn) => mpn.clone(),
        None => owned("(no MPN)"),
    };
    let mut list: Vec<String> = Vec::new();
    assert(list.deep_view() =~= Seq::<Seq<char>>::empty());
    let lifecycle = to_ascii_lower(line.lifecycle_status.as_str());
    if same(lifecycle.as_str(), "eol") || same(lifecycle.as_str(), "discontinued") {
        push_text(&mut list, owned("EOL"));
    } else if same(lifecycle.as_str(), "nrnd") {
        push_text(&mut list, owned("NRND"));
    }
    assert(list.deep_view() =~= life_reason(line@));
    if eq_ignore_ascii_case(line.availability_status.as_str(), "outofstock") {
        push_text(&mut list, owned("out of stock"));
    } else if line.total_avail > 0 {
        let mut s = i64_text(line.total_avail);
        s.append(" in stock");
        push_text(&mut list, s);
    }
    assert(list.deep_view() =~= life_reason(line@) + stock_reason(line@));
    if let Some(days) = line.factory_lead_days {
        if days > 0 {
            let mut s = i64_text((2 * days as i64 + 7) / 14);
            s.append(" wk lead");
            push_text(&mut list, s);
        }
    }
    assert(list.deep_view() =~= life_reason(line@) + stock_reason(line@) + lead_reason(line@));
    if let Some(duty) = &line.total_duty_pct {
        if duty.positive() {
            let mut s = duty.plain.clone();
            s.append("% duty");
            push_text(&mut list, s);
        }
    }
    assert(list.deep_view() =~= reasons(line@));
    if list.len() == 0 {
        out
    } else {
        let slice: &[String] = list.as_slice();
        assert(slice.deep_view() =~= list.deep_view());
        out.append(" — ");
        out.append(join(slice, ", ").as_str());
        out
    }
}

/// The first `limit` lines at risk among the given ones.
pub open spec fn first_risky(lines: Seq<LineView>, limit: nat) -> Seq<LineView>
    decreases lines.len(),
{
    if lines.len() == 0 {
        Seq::empty()
    } else {
        let before = first_risky(lines.drop_last(), limit);
        if is_risky(lines.last()) && before.len() < limit {
            before.push(lines.last())
        } else {
            before
        }
    }
}

/// The lines that a note lists: of the picked worst ones, or where none are
/// picked, of all.
pub open spec fn noted_lines(analyze: AnalyzeView) -> Seq<LineView> {
    if analyze.top_risks.len() == 0 {
        first_risky(analyze.lines, NOTE_RISK_LINES as nat)
    } else {
        first_risky(analyze.top_risks, NOTE_RISK_LINES as nat)
    }
}

/// The headlines of lines, each with a bullet.
pub open spec fn bullets(lines: Seq<LineView>) -> Seq<Seq<char>> {
    lines.map_values(|l: LineView| "• "@ + headline(l))
}

fn bulleted(lines: &Vec<AnalyzedLine>) -> (r: Vec<String>)
    ensures
        r.deep_view() == bullets(first_risky(line_views(lines@), NOTE_RISK_LINES as nat)),
{
    let ghost views = line_views(lines@);
    let mut out: Vec<String> = Vec::new();
    let mut i: usize = 0;
    assert(out.deep_view() =~= bullets(first_risky(views.take(0), NOTE_RISK_LINES as nat)));
    while i < lines.len()
        invariant
            i <= lines@.len(),
            views == line_views(lines@),
            out.deep_view() == bullets(first_risky(views.take(i as int), NOTE_RISK_LINES as nat)),
        decreases lines@.len() - i,
    {
        let line = &lines[i];
        let ghost before = first_risky(views.take(i as int), NOTE_RISK_LINES as nat);
        proof {
            assert(views.take(i + 1).drop_last() =~= views.take(i as int));
            assert(views.take(i + 1).last() == line@);
            assert(out.deep_view().len() == before.len());
        }
        if matches!(line.risk_level, RiskLevel::Red | RiskLevel::Yellow) && out.len()
            < NOTE_RISK_LINES {
            let mut s = owned("• ");
            s.append(line_headline(line).as_str());
            push_text(&mut out, s);
            assert(out.deep_view() =~= bullets(before.push(line@)));
        }
        i += 1;
    }
    assert(views.take(i as int) =~= views);
    out
}

/// The head of a note: what the bom is, how risky, and the counts.
pub open spec fn note_head(record: BomRecordView, score: Seq<char>) -> Seq<Seq<char>> {
    let counts = record.analyze.summary;
    seq![
        "Prokuro BOM risk — "@ + record.summary.name,
        Seq::empty(),
        "Risk band: "@ + record.summary.risk_band + " (score "@ + score + "/10)"@,
        dec_nat(counts.total as nat) + " lines · "@ + dec_nat(record.summary.at_risk_count as nat)
            + " at risk · "@ + dec_nat(counts.eol_or_nrnd as nat) + " EOL/NRND · "@ + dec_nat(
            counts.out_of_stock as nat,
        ) + " out of stock · "@ + dec_nat(counts.long_lead as nat) + " long lead"@,
    ]
}

/// The lines of a note.
pub open spec fn note_lines(record: BomRecordView, score: Seq<char>, bom_url: Option<Seq<char>>) -> Seq<
    Seq<char>,
> {
    let flagged = noted_lines(record.analyze);
    let head = note_head(record, score);
    let listed = if flagged.len() == 0 {
        head
    } else {
        head + seq![Seq::empty(), "Top risks:"@] + bullets(flagged)
    };
    match bom_url {
        Some(url) => listed + seq![Seq::empty(), "Full BOM: "@ + url],
        None => listed,
    }
}

/// A note on a bom. The score is given with one decimal.
pub fn bom_risk_note(record: &BomRecord, score: &str, bom_url: Option<&str>) -> (r: String)
    ensures
        r@ == joined(note_lines(record@, score@, bom_url.deep_view()), "\n"@),
{
    let counts = &record.analyze.summary;
    let mut lines: Vec<String> = Vec::new();
    assert(lines.deep_view() =~= Seq::<Seq<char>>::empty());
    let mut title = owned("Prokuro BOM risk — ");
    title.append(record.summary.name.as_str());
    push_text(&mut lines, title);
    push_text(&mut lines, String::new());
    let mut band = owned("Risk band: ");
    band.append(record.summary.risk_band.as_str());
    band.append(" (score ");
    band.append(score);
    band.append("/10)");
    push_text(&mut lines, band);
    let mut sums = usize_text(counts.total);
    sums.append(" lines · ");
    sums.append(usize_text(record.summary.at_risk_count).as_str());
    sums.append(" at risk · ");
    sums.append(usize_text(counts.eol_or_nrnd).as_str());
    sums.append(" EOL/NRND · ");
    sums.append(usize_text(counts.out_of_stock).as_str());
    sums.append(" out of stock · ");
    sums.append(usize_text(counts.long_lead).as_str());
    sums.append(" long lead");
    push_text(&mut lines, sums);
    assert(lines.deep_view() =~= note_head(record@, score@));
    let mut flagged = if record.analyze.top_risks.len() == 0 {
        bulleted(&record.analyze.lines)
    } else {
        bulleted(&record.analyze.top_risks)
    };
    assert(flagged.deep_view() == bullets(noted_lines(record@.analyze)));
    assert(flagged.deep_view().len() == noted_lines(record@.analyze).len());
    let ghost bullet_views = flagged.deep_view();
    if flagged.len() > 0 {
        let ghost head = lines.deep_view();
        push_text(&mut lines, String::new());
        push_text(&mut lines, owned("Top risks:"));
        let ghost titled = lines.deep_view();
        lines.append(&mut flagged);
        assert(lines.deep_view() =~= titled + bullet_views);
        assert(titled =~= head + seq![Seq::<char>::empty(), "Top risks:"@]);
    }
    if let Some(url) = bom_url {
        let ghost before = lines.deep_view();
        let mut link = owned("Full BOM: ");
        link.append(url);
        push_text(&mut lines, String::new());
        push_text(&mut lines, link);
        assert(lines.deep_view() =~= before + seq![Seq::<char>::empty(), "Full BOM: "@ + url@]);
    }
    assert(lines.deep_view() =~= note_lines(record@, score@, bom_url.deep_view()));
    let slice: &[String] = lines.as_slice();
    assert(slice.deep_view() =~= lines.deep_view());
    join(slice, "\n")
}

/// A note lists at most five lines, and only such at risk.
pub proof fn note_lists_only_risky(lines: Seq<LineView>, limit: nat, i: int)
    requires
        0 <= i < first_risky(lines, limit).len(),
    ensures
        first_risky(lines, limit).len() <= limit,
        is_risky(first_risky(lines, limit)[i]),
    decreases lines.len(),
{
    let before = first_risky(lines.drop_last(), limit);
    if before.len() > 0 {
        if i < before.len() {
            note_lists_only_risky(lines.drop_last(), limit, i);
        } else {
            note_lists_only_risky(lines.drop_last(), limit, 0);
        }
    }
}

/// What stands in the way of a note on a bom.
pub open spec fn sync_fault(account_id: Seq<char>, configured: bool) -> Option<ReplyView> {
    if is_blank(account_id) {
        Some(refusal(400, "account_id is required"@))
    } else if !configured {
        Some(refusal(503, "CRM not configured"@))
    } else {
        None
    }
}

/// Whether a note on a bom can be made, for which account.
pub fn admit_sync(account_id: &str, configured: bool) -> (r: Result<String, Reply>)
    ensures
        match sync_fault(account_id@, configured) {
            Some(reply) => r is Err && r->Err_0@ == reply,
            None => r is Ok && r->Ok_0@ == crate::text::trimmed(account_id@),
        },
{
    let account_id = trim(account_id);
    if account_id.as_str().is_empty() {
        return Err(error_reply(400, "account_id is required"));
    }
    if !configured {
        return Err(crm_not_configured());
    }
    Ok(account_id)
}

/// What is answered where no CRM is set up.
pub fn crm_not_configured() -> (r: Reply)
    ensures
        r@ == refusal(503, "CRM not configured"@),
{
    error_reply(503, "CRM not configured")
}

/// Where a bom is shown.
pub fn bom_url(app_base: &str, bom_id: &str) -> (r: String)
    ensures
        r@ == without_trailing(app_base@, '/') + "/bom/"@ + bom_id@,
{
    let mut url = trim_end_char(app_base, '/');
    url.append("/bom/");
    url.append(bom_id);
    url
}

/// A found account has its id, its name unless that is blank, and its domain unless that
/// is blank; a result without an id is no account.
pub proof fn found_accounts_are_read(result: JsonView, props: JsonView, id: Seq<char>, name: Seq<char>, domain: Seq<char>)
    requires
        result is Object,
        props is Object,
        get_view(result, "properties"@) == Some(props),
    ensures
        get_view(result, "id"@) is None ==> found_account(result) is None,
        get_view(result, "id"@) == Some(JsonView::Text(id)) ==> {
            &&& found_account(result) is Some
            &&& found_account(result)->0.id == id
            &&& get_view(props, "name"@) == Some(JsonView::Text(name)) && !is_blank(name) ==> found_account(result)->0.name
                == name
            &&& get_view(props, "name"@) is None ==> found_account(result)->0.name == "Unnamed company"@
            &&& get_view(props, "domain"@) == Some(JsonView::Text(domain)) && !is_blank(domain) ==> found_account(
                result,
            )->0.domain == Some(domain)
            &&& get_view(props, "domain"@) is None ==> found_account(result)->0.domain is None
        },
{
    reveal_with_fuel(pointer_view, 4);
    let p = seq!["properties"@, "name"@];
    let q = seq!["properties"@, "domain"@];
    assert(p.drop_first() =~= seq!["name"@]);
    assert(q.drop_first() =~= seq!["domain"@]);
    assert(seq!["name"@].drop_first() =~= Seq::<Seq<char>>::empty());
    assert(seq!["domain"@].drop_first() =~= Seq::<Seq<char>>::empty());
}

/// The accounts that a search found come in its order; without results there are none.
pub proof fn accounts_keep_their_order(results: Seq<JsonView>, result: JsonView)
    ensures
        found_accounts(Seq::empty()).len() == 0,
        found_account(result) is Some ==> found_accounts(results.push(result)) == found_accounts(results).push(
            found_account(result)->0,
        ),
        found_account(result) is None ==> found_accounts(results.push(result)) == found_accounts(results),
{
    assert(results.push(result).drop_last() =~= results);
    assert(results.push(result).last() == result);
}

/// A note is tied to the company that it is about, says what it says, and has its time.
pub proof fn notes_are_tied_to_companies(account_id: &str, body: &str, timestamp: &str, r: Json)
    requires
        call_ensures(note_payload, (account_id, body, timestamp), r),
    ensures
        r@ is Object && r@->Object_0.len() == 2,
        r@->Object_0[0].0 == "properties"@,
        r@->Object_0[0].1->Object_0.contains(("hs_note_body"@, JsonView::Text(body@))),
        r@->Object_0[0].1->Object_0.contains(("hs_timestamp"@, JsonView::Text(timestamp@))),
        r@->Object_0[1].0 == "associations"@,
        r@->Object_0[1].1->Array_0.len() == 1,
        r@->Object_0[1].1->Array_0[0]->Object_0[0] == (
            "to"@,
            JsonView::Object(seq![("id"@, JsonView::Text(account_id@))]),
        ),
        r@->Object_0[1].1->Array_0[0]->Object_0[1].1->Array_0[0]->Object_0[1] == (
            "associationTypeId"@,
            JsonView::Number(dec_nat(190)),
        ),
{
    let f = r@->Object_0[0].1->Object_0;
    assert(f[0] == ("hs_timestamp"@, JsonView::Text(timestamp@)));
    assert(f[1] == ("hs_note_body"@, JsonView::Text(body@)));
}

/// A search asks for the words that were given, and for ten accounts at most.
pub proof fn searches_ask_for_the_words(query: &str, r: Json)
    requires
        call_ensures(search_payload, (query,), r),
    ensures
        r@->Object_0.contains(("query"@, JsonView::Text(query@))),
        r@->Object_0.contains(("limit"@, JsonView::Number(dec_nat(10)))),
        r@->Object_0[2].1->Array_0.contains(JsonView::Text("name"@)),
        r@->Object_0[2].1->Array_0.contains(JsonView::Text("domain"@)),
{
    let f = r@->Object_0;
    assert(f[0] == ("query"@, JsonView::Text(query@)));
    assert(f[1] == ("limit"@, JsonView::Number(dec_nat(10))));
    let a = f[2].1->Array_0;
    assert(a[0] == JsonView::Text("name"@));
    assert(a[1] == JsonView::Text("domain"@));
}

/// A part at the end of its life, or discontinued, or not for new designs, is called so,
/// however its status is spelled; any other life is no reason.
pub proof fn lives_are_reasons(line: LineView)
    ensures
        eq_ascii_case(line.lifecycle_status, "Eol"@) ==> reasons(line).len() > 0 && reasons(line)[0] == "EOL"@,
        eq_ascii_case(line.lifecycle_status, "Discontinued"@) ==> reasons(line).len() > 0 && reasons(line)[0] == "EOL"@,
        eq_ascii_case(line.lifecycle_status, "Nrnd"@) ==> reasons(line).len() > 0 && reasons(line)[0] == "NRND"@,
        eq_ascii_case(line.lifecycle_status, "Active"@) ==> life_reason(line).len() == 0,
        eq_ascii_case(line.lifecycle_status, "Unknown"@) ==> life_reason(line).len() == 0,
{
    reveal_strlit("Eol");
    reveal_strlit("Discontinued");
    reveal_strlit("Nrnd");
    reveal_strlit("Active");
    reveal_strlit("Unknown");
    reveal_strlit("eol");
    reveal_strlit("discontinued");
    reveal_strlit("nrnd");
    assert(ascii_lower("Eol"@) =~= "eol"@);
    assert(ascii_lower("Discontinued"@) =~= "discontinued"@);
    assert(ascii_lower("Nrnd"@) =~= "nrnd"@);
    assert(ascii_lower("Active"@).len() == 6);
    assert(ascii_lower("Unknown"@).len() == 7);
    assert("eol"@.len() == 3);
    assert("discontinued"@.len() == 12);
    assert("nrnd"@.len() == 4);
    assert(reasons(line) =~= life_reason(line) + (stock_reason(line) + lead_reason(line) + duty_reason(line)));
}

/// Stock is a reason where there is none, or some; a lead time where there is one; a duty
/// where there is one.
pub proof fn other_reasons(line: LineView)
    ensures
        eq_ascii_case(line.availability_status, "OutOfStock"@) ==> reasons(line).contains("out of stock"@),
        !eq_ascii_case(line.availability_status, "OutOfStock"@) && line.total_avail > 0 ==> reasons(line).contains(
            dec_int(line.total_avail as int) + " in stock"@,
        ),
        !eq_ascii_case(line.availability_status, "OutOfStock"@) && line.total_avail <= 0 ==> stock_reason(line).len()
            == 0,
        line.factory_lead_days is Some && line.factory_lead_days->0 > 0 ==> reasons(line).contains(
            dec_int(weeks(line.factory_lead_days->0 as int)) + " wk lead"@,
        ),
        line.factory_lead_days is None || line.factory_lead_days->0 <= 0 ==> lead_reason(line).len() == 0,
        line.total_duty_pct is Some && 1 <= line.total_duty_pct->0.bits <= 0x7ff0_0000_0000_0000 ==> reasons(
            line,
        ).contains(line.total_duty_pct->0.plain + "% duty"@),
        line.total_duty_pct is None || line.total_duty_pct->0.bits == 0 ==> duty_reason(line).len() == 0,
        reasons(line).len() <= 4,
{
    reveal_strlit("OutOfStock");
    reveal_strlit("outofstock");
    assert(ascii_lower("OutOfStock"@) =~= ascii_lower("outofstock"@));
    let a = life_reason(line);
    let b = stock_reason(line);
    let c = lead_reason(line);
    let d = duty_reason(line);
    let all = reasons(line);
    if b.len() > 0 {
        assert(all[a.len() as int] == b[0]);
    }
    if c.len() > 0 {
        assert(all[(a.len() + b.len()) as int] == c[0]);
    }
    if d.len() > 0 {
        assert(all[(a.len() + b.len() + c.len()) as int] == d[0]);
    }
}

/// Weeks are the nearest whole number of sevens of days.
pub proof fn weeks_are_seven_days(days: int, n: int)
    ensures
        -7 <= 2 * (7 * weeks(days) - days) <= 7,
        weeks(7 * n) == n,
{
}

/// A headline begins with the part and brings each of its reasons; a line without a part
/// says so.
pub proof fn headlines_begin_with_the_part(line: &AnalyzedLine, r: String)
    requires
        call_ensures(line_headline, (line,), r),
    ensures
        line@.mpn is Some ==> line@.mpn->0.is_prefix_of(r@),
        line@.mpn is None ==> "(no MPN)"@.is_prefix_of(r@),
        line@.mpn is Some && reasons(line@).len() == 0 ==> r@ == line@.mpn->0,
        line@.mpn is Some && reasons(line@).len() > 0 ==> r@ == line@.mpn->0 + " — "@ + joined(reasons(line@), ", "@),
{
    let mpn = match line@.mpn {
        Some(mpn) => mpn,
        None => "(no MPN)"@,
    };
    assert(r@.subrange(0, mpn.len() as int) =~= mpn);
}

/// The lines of a note are the first five at risk: a risky line is listed unless five
/// stand before it, and one that is not risky never is.
pub proof fn notes_list_the_first_risky(lines: Seq<LineView>, line: LineView)
    ensures
        first_risky(Seq::empty(), 5).len() == 0,
        is_risky(line) && first_risky(lines, 5).len() < 5 ==> first_risky(lines.push(line), 5) == first_risky(
            lines,
            5,
        ).push(line),
        !is_risky(line) || first_risky(lines, 5).len() >= 5 ==> first_risky(lines.push(line), 5) == first_risky(
            lines,
            5,
        ),
{
    assert(lines.push(line).drop_last() =~= lines);
    assert(lines.push(line).last() == line);
}

/// A note says which bom it is about and how risky that is, links to it where it can, and
/// lists the worst lines, of which there are five at most.
pub proof fn notes_say_what_they_are_about(record: &BomRecord, score: &str, url: Option<&str>, r: String)
    requires
        call_ensures(bom_risk_note, (record, score, url), r),
    ensures
        r@ == joined(note_lines(record@, score@, url.deep_view()), "\n"@),
        ({
            let lines = note_lines(record@, score@, url.deep_view());
            let worst = if record@.analyze.top_risks.len() > 0 {
                first_risky(record@.analyze.top_risks, 5)
            } else {
                first_risky(record@.analyze.lines, 5)
            };
            &&& lines[0] == "Prokuro BOM risk — "@ + record@.summary.name
            &&& lines[2] == "Risk band: "@ + record@.summary.risk_band + " (score "@ + score@ + "/10)"@
            &&& url is Some ==> lines.last() == "Full BOM: "@ + url->0@
            &&& worst.len() == 0 && url is None ==> lines.len() == 4
            &&& worst.len() > 0 ==> lines[5] == "Top risks:"@ && lines[6] == "• "@ + headline(worst[0])
            &&& worst.len() > 0 && url is None ==> lines.len() == 6 + worst.len()
        }),
{
}

/// A note needs an account and a CRM, and goes to the account without the blanks around
/// its id.
pub proof fn notes_need_an_account(account_id: &str, configured: bool, r: Result<String, Reply>)
    requires
        call_ensures(admit_sync, (account_id, configured), r),
    ensures
        r is Ok <==> !is_blank(account_id@) && configured,
        r is Ok ==> r->Ok_0@ == crate::text::trimmed(account_id@),
        is_blank(account_id@) ==> r is Err && r->Err_0@.status == 400,
        !is_blank(account_id@) && !configured ==> r is Err && r->Err_0@.status == 503,
{
}

/// The link to a bom has one slash after the application's address.
pub proof fn bom_links_have_one_slash(base: &str, slashed: &str, id: &str, a: String, b: String)
    requires
        call_ensures(bom_url, (base, id), a),
        call_ensures(bom_url, (slashed, id), b),
        slashed@ == base@.push('/'),
        base@.len() > 0,
        base@.last() != '/',
    ensures
        a@ == base@ + "/bom/"@ + id@,
        b@ == a@,
{
    reveal_with_fuel(without_trailing, 3);
    assert(slashed@.drop_last() =~= base@);
}

/// The accounts of a search are those that its results name; without results there are
/// none.
pub proof fn searches_give_accounts(response: &Json, r: Vec<CrmAccount>, result: JsonView)
    requires
        call_ensures(accounts_from_search, (response,), r),
    ensures
        get_view(response@, "results"@) is None ==> r@.len() == 0,
        get_view(response@, "results"@) == Some(JsonView::Array(seq![result])) && found_account(result) is Some ==> r@.len()
            == 1 && r@[0]@ == found_account(result)->0,
        get_view(response@, "results"@) == Some(JsonView::Array(seq![result])) && found_account(result) is None ==> r@.len()
            == 0,
{
    let views = account_views(r@);
    assert(views.len() == r@.len());
    reveal_with_fuel(found_accounts, 3);
    assert(seq![result].drop_last() =~= Seq::<JsonView>::empty());
    assert(seq![result].last() == result);
    if get_view(response@, "results"@) == Some(JsonView::Array(seq![result])) && found_account(result) is Some {
        assert(views =~= seq![found_account(result)->0]);
        assert(views[0] == r@[0]@);
    }
}

} // verus!
