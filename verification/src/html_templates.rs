//! The site's HTML pages, written out as text. Every text that comes from a
//! user or the database is HTML-escaped where it enters a page; numbers are
//! written in decimal.

use vstd::prelude::*;
use crate::bindings::{form_urlencoded_text, format_utc_minute, push_escaped, urlencode_pairs, utc_minute_text};
use crate::structs::{Pages, Session, User, UtcTime};
use crate::site::{SITE_LINK, SITE_NAME};
use crate::text::{decimal, html_escape, is_infix, lemma_infix_middle, lemma_infix_transitive, push_signed, push_unsigned};

verus! {

/// A whole page: the doctype, then the head, the header and the main part.
pub open spec fn page_markup(head: Seq<char>, header: Seq<char>, mane: Seq<char>) -> Seq<char> {
    "<!DOCTYPE html><html lang=\"en\"><head>"@ + head + "</head><body><header>"@ + header
        + "</header>"@ + "<main>"@ + mane + "</main>"@ + "</body></html>"@
}

/// Puts a page together from its head, header and main part, which are
/// markup already.
pub fn html_builder(head: &str, header: &str, mane: &str) -> (r: String)
    ensures
        r@ == page_markup(head@, header@, mane@),
{
    let mut r = String::from_str("<!DOCTYPE html><html lang=\"en\"><head>");
    r.append(head);
    r.append("</head><body><header>");
    r.append(header);
    r.append("</header>");
    r.append("<main>");
    r.append(mane);
    r.append("</main>");
    r.append("</body></html>");
    r
}

/// The name and value pairs of the oEmbed query that a page's head links to.
pub open spec fn oembed_pairs(title: Seq<char>) -> Seq<(Seq<char>, Seq<char>)> {
    seq![
        ("type"@, "rich"@),
        ("version"@, "1.0"@),
        ("provider_name"@, SITE_NAME@),
        ("provider_url"@, SITE_LINK@),
        ("title"@, title),
        ("cache_age"@, "86400"@),
        ("html"@, ""@),
    ]
}

/// The oEmbed query for a page with the given title, form-urlencoded.
pub open spec fn oembed_query(title: Seq<char>) -> Seq<char> {
    form_urlencoded_text(oembed_pairs(title))
}

/// The oEmbed query for a page with the given title.
pub fn encode_url(title: &str) -> (r: String)
    ensures
        r@ == oembed_query(title@),
{
    let mut pairs: Vec<(String, String)> = Vec::new();
    pairs.push((String::from_str("type"), String::from_str("rich")));
    pairs.push((String::from_str("version"), String::from_str("1.0")));
    pairs.push((String::from_str("provider_name"), String::from_str(SITE_NAME)));
    pairs.push((String::from_str("provider_url"), String::from_str(SITE_LINK)));
    pairs.push((String::from_str("title"), String::from_str(title)));
    pairs.push((String::from_str("cache_age"), String::from_str("86400")));
    pairs.push((String::from_str("html"), String::from_str("")));
    assert(pairs.deep_view() =~= oembed_pairs(title@));
    urlencode_pairs(&pairs)
}

/// The head of a page: title, character set, viewport, style sheet, canonical
/// address, link preview properties, the oEmbed link carrying `query`, and the
/// page script.
pub open spec fn head_markup_with(
    title: Seq<char>,
    description: Seq<char>,
    link: Seq<char>,
    query: Seq<char>,
) -> Seq<char> {
    "<title>"@ + html_escape(title) + "</title>"@
        + "<meta charset=\"UTF-8\"><meta http-equiv=\"X-UA-Compatible\" content=\"IE=edge\"><meta name=\"viewport\" content=\"width=device-width,initial-scale=1\"><link rel=\"stylesheet\" crossorigin href=\"/style.css\">"@
        + "<link rel=\"canonical\" href=\""@ + html_escape(link) + "\">"@
        + "<meta property=\"og:title\" content=\""@ + html_escape(title) + "\">"@
        + "<meta property=\"og:description\" content=\""@ + html_escape(description) + "\">"@
        + "<meta property=\"og:url\" content=\""@ + html_escape(link) + "\">"@
        + "<meta property=\"og:type\" content=\"website\">"@
        + "<meta property=\"og:site_name\" content=\""@ + html_escape(SITE_NAME@) + "\">"@
        + "<link crossorigin rel=\"alternate\" type=\"application/json+oembed\" href=\"https://census.silkrose.dev/oembed?"@
        + html_escape(query) + "\" title=\""@ + html_escape(title) + "\">"@
        + "<script crossorigin src=\"/mane.js\"></script>"@
}

/// The head of a page with the given title, description and address, whose
/// oEmbed link carries `query`.
pub fn head_html_with_query(title: &str, description: &str, link: &str, query: &str) -> (r: String)
    ensures
        r@ == head_markup_with(title@, description@, link@, query@),
{
    let mut r = String::from_str("<title>");
    push_escaped(&mut r, title);
    r.append("</title>");
    r.append(
        "<meta charset=\"UTF-8\"><meta http-equiv=\"X-UA-Compatible\" content=\"IE=edge\"><meta name=\"viewport\" content=\"width=device-width,initial-scale=1\"><link rel=\"stylesheet\" crossorigin href=\"/style.css\">",
    );
    r.append("<link rel=\"canonical\" href=\"");
    push_escaped(&mut r, link);
    r.append("\">");
    r.append("<meta property=\"og:title\" content=\"");
    push_escaped(&mut r, title);
    r.append("\">");
    r.append("<meta property=\"og:description\" content=\"");
    push_escaped(&mut r, description);
    r.append("\">");
    r.append("<meta property=\"og:url\" content=\"");
    push_escaped(&mut r, link);
    r.append("\">");
    r.append("<meta property=\"og:type\" content=\"website\">");
    r.append("<meta property=\"og:site_name\" content=\"");
    push_escaped(&mut r, SITE_NAME);
    r.append("\">");
    r.append(
        "<link crossorigin rel=\"alternate\" type=\"application/json+oembed\" href=\"https://census.silkrose.dev/oembed?",
    );
    push_escaped(&mut r, query);
    r.append("\" title=\"");
    push_escaped(&mut r, title);
    r.append("\">");
    r.append("<script crossorigin src=\"/mane.js\"></script>");
    r
}

/// The head of a page with the given title, description and address.
pub open spec fn head_markup(title: Seq<char>, description: Seq<char>, link: Seq<char>) -> Seq<char> {
    head_markup_with(title, description, link, oembed_query(title))
}

/// The head of a page with the given title, description and address.
pub fn head_html(title: &str, description: &str, link: &str) -> (r: String)
    ensures
        r@ == head_markup(title@, description@, link@),
{
    let encode = encode_url(title);
    head_html_with_query(title, description, link, encode.as_str())
}

/// A navigation link, underlined when it leads to the current page.
pub open spec fn header_link_markup(link: Seq<char>, text: Seq<char>, checked: bool) -> Seq<char> {
    if checked {
        "<a href=\""@ + html_escape(link) + "\" class=\"underlined\">"@ + html_escape(text) + "</a>"@
    } else {
        "<a href=\""@ + html_escape(link) + "\">"@ + html_escape(text) + "</a>"@
    }
}

/// A navigation link, underlined when it leads to the current page.
pub fn header_link_html(link: &str, text: &str, checked: bool) -> (r: String)
    ensures
        r@ == header_link_markup(link@, text@, checked),
{
    let mut r = String::from_str("<a href=\"");
    push_escaped(&mut r, link);
    if checked {
        r.append("\" class=\"underlined\">");
    } else {
        r.append("\">");
    }
    push_escaped(&mut r, text);
    r.append("</a>");
    r
}

/// The navigation bar: shown to signed-in users only, with the current page's
/// link underlined. No page of the site is the comics page, so its link is
/// never underlined.
pub open spec fn header_markup(page: Pages, admin: bool) -> Seq<char> {
    if admin {
        "<nav><span class=\"nav\">"@ + header_link_markup("/"@, "Home"@, page == Pages::Home)
            + "\u{2022}"@ + header_link_markup("/user"@, "User"@, page == Pages::User)
            + "\u{2022}"@ + header_link_markup("/comics"@, "Comics"@, false) + "</span></nav>"@
    } else {
        Seq::empty()
    }
}

/// The navigation bar for the given page.
pub fn header_html(page: Pages, admin: bool) -> (r: String)
    ensures
        r@ == header_markup(page, admin),
{
    if admin {
        let home = header_link_html("/", "Home", page == Pages::Home);
        let user = header_link_html("/user", "User", page == Pages::User);
        let comics = header_link_html("/comics", "Comics", false);
        let mut r = String::from_str("<nav><span class=\"nav\">");
        r.append(home.as_str());
        r.append("\u{2022}");
        r.append(user.as_str());
        r.append("\u{2022}");
        r.append(comics.as_str());
        r.append("</span></nav>");
        r
    } else {
        String::new()
    }
}

/// A required text input with length bounds.
pub open spec fn input_required_markup(id: Seq<char>, name: Seq<char>, min: u32, max: u32) -> Seq<char> {
    "<input id=\""@ + html_escape(id) + "\" type=\"text\" name=\""@ + html_escape(name)
        + "\" minlength=\""@ + decimal(min as int) + "\" maxlength=\""@ + decimal(max as int)
        + "\" required></input>"@
}

/// A required text input with length bounds.
pub fn input_text_required(id: &str, name: &str, min: u32, max: u32) -> (r: String)
    ensures
        r@ == input_required_markup(id@, name@, min, max),
{
    let mut r = String::from_str("<input id=\"");
    push_escaped(&mut r, id);
    r.append("\" type=\"text\" name=\"");
    push_escaped(&mut r, name);
    r.append("\" minlength=\"");
    push_unsigned(&mut r, min as u64);
    r.append("\" maxlength=\"");
    push_unsigned(&mut r, max as u64);
    r.append("\" required></input>");
    r
}

/// A required text input with length bounds and a preset value.
pub open spec fn input_value_required_markup(
    id: Seq<char>,
    name: Seq<char>,
    min: u32,
    max: u32,
    value: Seq<char>,
) -> Seq<char> {
    "<input id=\""@ + html_escape(id) + "\" type=\"text\" name=\""@ + html_escape(name)
        + "\" minlength=\""@ + decimal(min as int) + "\" maxlength=\""@ + decimal(max as int)
        + "\" value=\""@ + html_escape(value) + "\" required></input>"@
}

/// A required text input with length bounds and a preset value.
pub fn input_text_value_required(id: &str, name: &str, min: u32, max: u32, value: &str) -> (r: String)
    ensures
        r@ == input_value_required_markup(id@, name@, min, max, value@),
{
    let mut r = String::from_str("<input id=\"");
    push_escaped(&mut r, id);
    r.append("\" type=\"text\" name=\"");
    push_escaped(&mut r, name);
    r.append("\" minlength=\"");
    push_unsigned(&mut r, min as u64);
    r.append("\" maxlength=\"");
    push_unsigned(&mut r, max as u64);
    r.append("\" value=\"");
    push_escaped(&mut r, value);
    r.append("\" required></input>");
    r
}

/// A required input for digits only, with length bounds.
pub open spec fn input_numeric_required_markup(id: Seq<char>, name: Seq<char>, min: u32, max: u32) -> Seq<char> {
    "<input id=\""@ + html_escape(id) + "\" type=\"text\" name=\""@ + html_escape(name)
        + "\" inputmode=\"numeric\" pattern=\"\\d*\" minlength=\""@ + decimal(min as int)
        + "\" maxlength=\""@ + decimal(max as int) + "\" required></input>"@
}

/// A required input for digits only, with length bounds.
pub fn input_text_numeric_required(id: &str, name: &str, min: u32, max: u32) -> (r: String)
    ensures
        r@ == input_numeric_required_markup(id@, name@, min, max),
{
    let mut r = String::from_str("<input id=\"");
    push_escaped(&mut r, id);
    r.append("\" type=\"text\" name=\"");
    push_escaped(&mut r, name);
    r.append("\" inputmode=\"numeric\" pattern=\"\\d*\" minlength=\"");
    push_unsigned(&mut r, min as u64);
    r.append("\" maxlength=\"");
    push_unsigned(&mut r, max as u64);
    r.append("\" required></input>");
    r
}

/// The script of a button that goes to `endpoint`.
pub open spec fn go_to_script(endpoint: Seq<char>) -> Seq<char> {
    "window.location.href='"@ + endpoint + "';"@
}

/// A button that goes to `endpoint` when clicked.
pub open spec fn button_link_markup(text: Seq<char>, endpoint: Seq<char>) -> Seq<char> {
    "<button type=\"button\" onclick=\""@ + html_escape(go_to_script(endpoint)) + "\">"@
        + html_escape(text) + "</button>"@
}

fn go_to(endpoint: &str) -> (r: String)
    ensures
        r@ == go_to_script(endpoint@),
{
    let mut r = String::from_str("window.location.href='");
    r.append(endpoint);
    r.append("';");
    r
}

/// A button that goes to `endpoint` when clicked.
pub fn button_link(text: &str, endpoint: &str) -> (r: String)
    ensures
        r@ == button_link_markup(text@, endpoint@),
{
    let script = go_to(endpoint);
    let mut r = String::from_str("<button type=\"button\" onclick=\"");
    push_escaped(&mut r, script.as_str());
    r.append("\">");
    push_escaped(&mut r, text);
    r.append("</button>");
    r
}

/// A user's profile picture followed by a dash, when they have one.
pub open spec fn pfp_markup(user: User) -> Seq<char> {
    match user.pfp_url {
        Some(pfp) => "<img src=\""@ + html_escape(pfp@ + "-32"@) + "\" alt=\""@ + html_escape(user.name@)
            + "\"></img> - "@,
        None => Seq::empty(),
    }
}

/// The address of a user's Fimfiction profile.
pub open spec fn profile_address(id: i32) -> Seq<char> {
    "https://www.fimfiction.net/user/"@ + decimal(id as int) + "/"@
}

/// A user shown inline: picture if any, then their name linking to their
/// Fimfiction profile.
pub open spec fn user_inline_markup(user: User) -> Seq<char> {
    pfp_markup(user) + "<a href=\""@ + html_escape(profile_address(user.id)) + "\">"@
        + html_escape(user.name@) + "<sup>\u{2197}</sup></a>"@
}

fn pfp_html(user: &User) -> (r: String)
    ensures
        r@ == pfp_markup(*user),
{
    match &user.pfp_url {
        Some(pfp) => {
            let mut src = String::from_str(pfp.as_str());
            src.append("-32");
            let mut r = String::from_str("<img src=\"");
            push_escaped(&mut r, src.as_str());
            r.append("\" alt=\"");
            push_escaped(&mut r, user.name.as_str());
            r.append("\"></img> - ");
            r
        },
        None => String::new(),
    }
}

/// A user shown inline.
pub fn user_inline_html(user: &User) -> (r: String)
    ensures
        r@ == user_inline_markup(*user),
{
    let mut address = String::from_str("https://www.fimfiction.net/user/");
    push_signed(&mut address, user.id as i64);
    address.append("/");
    let mut r = pfp_html(user);
    r.append("<a href=\"");
    push_escaped(&mut r, address.as_str());
    r.append("\">");
    push_escaped(&mut r, user.name.as_str());
    r.append("<sup>\u{2197}</sup></a>");
    r
}

/// Where the update button of a user leads.
pub open spec fn update_address(id: i32) -> Seq<char> {
    "/user/update/"@ + decimal(id as int)
}

/// Where the remove button of a user leads.
pub open spec fn remove_address(id: i32) -> Seq<char> {
    "/user/remove/"@ + decimal(id as int)
}

/// One row of the user list: the user, an update button and a remove button.
pub open spec fn user_row_markup(user: User) -> Seq<char> {
    "<span class=\"row\">"@ + user_inline_markup(user) + button_link_markup("Update"@, update_address(user.id))
        + "<button type=\"button\" class=\"danger\" onclick=\""@
        + html_escape(go_to_script(remove_address(user.id))) + "\">Remove</button></span>"@
}

/// The rows of the user list, in the order given.
pub open spec fn user_rows_markup(users: Seq<User>) -> Seq<char>
    decreases users.len(),
{
    if users.len() == 0 {
        Seq::empty()
    } else {
        user_rows_markup(users.drop_last()) + user_row_markup(users.last())
    }
}

fn user_row_html(user: &User) -> (r: String)
    ensures
        r@ == user_row_markup(*user),
{
    let mut update = String::from_str("/user/update/");
    push_signed(&mut update, user.id as i64);
    let mut remove = String::from_str("/user/remove/");
    push_signed(&mut remove, user.id as i64);
    let remove_script = go_to(remove.as_str());
    let inline = user_inline_html(user);
    let button = button_link("Update", update.as_str());
    let mut r = String::from_str("<span class=\"row\">");
    r.append(inline.as_str());
    r.append(button.as_str());
    r.append("<button type=\"button\" class=\"danger\" onclick=\"");
    push_escaped(&mut r, remove_script.as_str());
    r.append("\">Remove</button></span>");
    r
}

/// The section on authorized users: the user list with its buttons, then the
/// form that adds a user by Fimfiction ID.
pub open spec fn authorized_user_markup(users: Seq<User>) -> Seq<char> {
    "<h2>Authorized Users</h2><p>Update, remove, &amp; add users.</p><h3>User List:</h3><p>Click the buttons below to update or remove a user.</p>"@
        + user_rows_markup(users)
        + "<p>This site pulls user information from Fimfiction. If anyone updates their name or profile picture on Fimfiction, we have no idea unless you click the button to re-fetch the data.</p><h3>Add Authorized User</h3><p>Add a new authorized user with their Fimfiction ID below:</p><form class=\"row\" method=\"get\" action=\"/user/add\"><label for=\"id\">User ID:</label>"@
        + input_numeric_required_markup("id"@, "id"@, 1, 6) + "<button type=\"submit\">Add</button></form>"@
}

/// The section on authorized users.
pub fn authorized_user_html(users: &Vec<User>) -> (r: String)
    ensures
        r@ == authorized_user_markup(users@),
{
    let mut rows = String::new();
    let mut i: usize = 0;
    assert(users@.take(0) =~= Seq::<User>::empty());
    while i < users.len()
        invariant
            i <= users@.len(),
            rows@ == user_rows_markup(users@.take(i as int)),
        decreases users.len() - i,
    {
        let row = user_row_html(&users[i]);
        rows.append(row.as_str());
        assert(users@.take(i + 1).drop_last() =~= users@.take(i as int));
        i = i + 1;
    }
    assert(users@.take(i as int) =~= users@);
    let input = input_text_numeric_required("id", "id", 1, 6);
    let mut r = String::from_str(
        "<h2>Authorized Users</h2><p>Update, remove, &amp; add users.</p><h3>User List:</h3><p>Click the buttons below to update or remove a user.</p>",
    );
    r.append(rows.as_str());
    r.append(
        "<p>This site pulls user information from Fimfiction. If anyone updates their name or profile picture on Fimfiction, we have no idea unless you click the button to re-fetch the data.</p><h3>Add Authorized User</h3><p>Add a new authorized user with their Fimfiction ID below:</p><form class=\"row\" method=\"get\" action=\"/user/add\"><label for=\"id\">User ID:</label>",
    );
    r.append(input.as_str());
    r.append("<button type=\"submit\">Add</button></form>");
    r
}

/// The text shown for an instant: its UTC minute as `yy-mm-dd HH:MM`, or
/// nothing for an instant outside chrono's calendar.
pub open spec fn time_text(t: UtcTime) -> Seq<char> {
    match utc_minute_text(t.secs, t.nanos) {
        Some(text) => text,
        None => Seq::empty(),
    }
}

fn time_string(t: UtcTime) -> (r: String)
    ensures
        r@ == time_text(t),
{
    match format_utc_minute(t.secs, t.nanos) {
        Some(text) => text,
        None => String::new(),
    }
}

/// The user agent cell of a session row; the first row, the session in use,
/// is marked active.
pub open spec fn agent_cell_markup(user_agent: Seq<char>, num: usize) -> Seq<char> {
    if num == 0 {
        "<td role=\"cell\" data-cell=\"User Agent: \"><b>(Active) </b>"@ + html_escape(user_agent) + "</td>"@
    } else {
        "<td role=\"cell\" data-cell=\"User Agent: \">"@ + html_escape(user_agent) + "</td>"@
    }
}

/// Row `num` of the session table, given the texts of when the session was
/// created and last seen: a revoke checkbox carrying the session's token, the
/// user agent, then the two times.
pub open spec fn session_row_markup_with(
    session: Session,
    num: usize,
    created: Seq<char>,
    seen: Seq<char>,
) -> Seq<char> {
    "<tr role=\"row\"><td role=\"cell\" data-cell=\"Revoke: \"><input type=\"checkbox\" id=\""@
        + decimal(num as int) + "\" name=\""@ + decimal(num as int) + "\" value=\""@
        + html_escape(session.token@) + "\"></input></td>"@
        + agent_cell_markup(session.user_agent@, num) + "<td role=\"cell\" data-cell=\"Created: \">"@
        + html_escape(created) + "</td><td role=\"cell\" data-cell=\"Last Seen: \">"@
        + html_escape(seen) + "</td></tr>"@
}

/// Row `num` of the session table, its times written as UTC minutes.
pub open spec fn session_row_markup(session: Session, num: usize) -> Seq<char> {
    session_row_markup_with(session, num, time_text(session.date_created), time_text(session.last_seen))
}

/// Row `num` of the session table, given the texts of when the session was
/// created and last seen.
pub fn session_row_with_times(session: &Session, num: usize, created: &str, seen: &str) -> (r: String)
    ensures
        r@ == session_row_markup_with(*session, num, created@, seen@),
{
    let mut r = String::from_str(
        "<tr role=\"row\"><td role=\"cell\" data-cell=\"Revoke: \"><input type=\"checkbox\" id=\"",
    );
    push_unsigned(&mut r, num as u64);
    r.append("\" name=\"");
    push_unsigned(&mut r, num as u64);
    r.append("\" value=\"");
    push_escaped(&mut r, session.token.as_str());
    r.append("\"></input></td>");
    if num == 0 {
        r.append("<td role=\"cell\" data-cell=\"User Agent: \"><b>(Active) </b>");
    } else {
        r.append("<td role=\"cell\" data-cell=\"User Agent: \">");
    }
    push_escaped(&mut r, session.user_agent.as_str());
    r.append("</td>");
    r.append("<td role=\"cell\" data-cell=\"Created: \">");
    push_escaped(&mut r, created);
    r.append("</td><td role=\"cell\" data-cell=\"Last Seen: \">");
    push_escaped(&mut r, seen);
    r.append("</td></tr>");
    r
}

/// Row `num` of the session table.
pub fn session_table_row(session: &Session, num: usize) -> (r: String)
    ensures
        r@ == session_row_markup(*session, num),
{
    let created = time_string(session.date_created);
    let seen = time_string(session.last_seen);
    session_row_with_times(session, num, created.as_str(), seen.as_str())
}

/// The rows of the session table, numbered from zero in the order given.
pub open spec fn session_rows_markup(sessions: Seq<Session>) -> Seq<char>
    decreases sessions.len(),
{
    if sessions.len() == 0 {
        Seq::empty()
    } else {
        session_rows_markup(sessions.drop_last()) + session_row_markup(
            sessions.last(),
            (sessions.len() - 1) as usize,
        )
    }
}

/// The form listing the sessions with their revoke checkboxes.
pub open spec fn sessions_markup(sessions: Seq<Session>) -> Seq<char> {
    "<form method=\"post\" action=\"/user/revoke-sessions\"><h1>Sessions</h1><table role=\"table\"><caption role=\"caption\">Active User Sessions</caption><thead role=\"rowgroup\"><tr role=\"row\"><th role=\"columnheader\">Revoke?</th><th role=\"columnheader\">User Agent</th><th role=\"columnheader\">Created</th><th role=\"columnheader\">Last Seen</th></tr></thead><tbody role=\"rowgroup\">"@
        + session_rows_markup(sessions)
        + "</tbody></table><button type=\"submit\">Revoke Sessions</button></form>"@
}

/// The form listing the sessions, the first of which is the one in use; there
/// must be at least one.
pub fn user_sessions_html(sessions: Vec<Session>) -> (r: String)
    requires
        sessions@.len() > 0,
    ensures
        r@ == sessions_markup(sessions@),
{
    let mut rows = String::new();
    let mut i: usize = 0;
    assert(sessions@.take(0) =~= Seq::<Session>::empty());
    while i < sessions.len()
        invariant
            i <= sessions@.len(),
            rows@ == session_rows_markup(sessions@.take(i as int)),
        decreases sessions.len() - i,
    {
        let row = session_table_row(&sessions[i], i);
        rows.append(row.as_str());
        assert(sessions@.take(i + 1).drop_last() =~= sessions@.take(i as int));
        i = i + 1;
    }
    assert(sessions@.take(i as int) =~= sessions@);
    let mut r = String::from_str(
        "<form method=\"post\" action=\"/user/revoke-sessions\"><h1>Sessions</h1><table role=\"table\"><caption role=\"caption\">Active User Sessions</caption><thead role=\"rowgroup\"><tr role=\"row\"><th role=\"columnheader\">Revoke?</th><th role=\"columnheader\">User Agent</th><th role=\"columnheader\">Created</th><th role=\"columnheader\">Last Seen</th></tr></thead><tbody role=\"rowgroup\">",
    );
    r.append(rows.as_str());
    r.append("</tbody></table><button type=\"submit\">Revoke Sessions</button></form>");
    r
}

/// The description of the user settings page.
pub open spec fn settings_description() -> Seq<char> {
    "Authorized users, user updates, & user sessions."@
}

/// The user settings page: the authorized users, then the sessions.
pub open spec fn user_settings_markup(users: Seq<User>, sessions: Seq<Session>) -> Seq<char> {
    page_markup(
        head_markup(
            "User Settings - "@ + SITE_NAME@,
            settings_description(),
            SITE_LINK@ + "/user-settings"@,
        ),
        header_markup(Pages::User, true),
        "<h1>User Settings</h1><p>"@ + html_escape(settings_description()) + "</p>"@
            + authorized_user_markup(users) + "<hr>"@ + sessions_markup(sessions),
    )
}

/// The user settings page; the first session is the one in use, and there
/// must be at least one.
pub fn user_settings_html(users: Vec<User>, sessions: Vec<Session>) -> (r: String)
    requires
        sessions@.len() > 0,
    ensures
        r@ == user_settings_markup(users@, sessions@),
{
    let description = "Authorized users, user updates, & user sessions.";
    let mut title = String::from_str("User Settings - ");
    title.append(SITE_NAME);
    let mut link = String::from_str(SITE_LINK);
    link.append("/user-settings");
    let mut mane = String::from_str("<h1>User Settings</h1><p>");
    push_escaped(&mut mane, description);
    mane.append("</p>");
    let authorized = authorized_user_html(&users);
    mane.append(authorized.as_str());
    mane.append("<hr>");
    let listed = user_sessions_html(sessions);
    mane.append(listed.as_str());
    let head = head_html(title.as_str(), description, link.as_str());
    let header = header_html(Pages::User, true);
    html_builder(head.as_str(), header.as_str(), mane.as_str())
}

/// The description of the home page.
pub open spec fn home_description() -> Seq<char> {
    "The Equestrian Census, reimagined."@
}

/// The home page; the navigation bar shows for a signed-in user.
pub open spec fn home_markup(user: Option<User>) -> Seq<char> {
    page_markup(
        head_markup("Home - "@ + SITE_NAME@, home_description(), SITE_LINK@),
        header_markup(Pages::Home, user is Some),
        "<h1>Census Consensus</h1><p>"@ + html_escape(home_description()) + "</p><p></p>"@,
    )
}

/// The home page, for the signed-in user if there is one.
pub fn home_html(user: Option<User>) -> (r: String)
    ensures
        r@ == home_markup(user),
{
    let description = "The Equestrian Census, reimagined.";
    let mut title = String::from_str("Home - ");
    title.append(SITE_NAME);
    let mut mane = String::from_str("<h1>Census Consensus</h1><p>");
    push_escaped(&mut mane, description);
    mane.append("</p><p></p>");
    let head = head_html(title.as_str(), description, SITE_LINK);
    let header = header_html(Pages::Home, user.is_some());
    html_builder(head.as_str(), header.as_str(), mane.as_str())
}

/// The pieces a page's head is made of, in order.
pub open spec fn head_pieces(
    title: Seq<char>,
    description: Seq<char>,
    link: Seq<char>,
    query: Seq<char>,
) -> Seq<Seq<char>> {
    seq![
        "<title>"@ + html_escape(title) + "</title>"@,
        "<meta charset=\"UTF-8\"><meta http-equiv=\"X-UA-Compatible\" content=\"IE=edge\"><meta name=\"viewport\" content=\"width=device-width,initial-scale=1\"><link rel=\"stylesheet\" crossorigin href=\"/style.css\">"@,
        "<link rel=\"canonical\" href=\""@ + html_escape(link) + "\">"@,
        "<meta property=\"og:title\" content=\""@ + html_escape(title) + "\">"@,
        "<meta property=\"og:description\" content=\""@ + html_escape(description) + "\">"@,
        "<meta property=\"og:url\" content=\""@ + html_escape(link) + "\">"@,
        "<meta property=\"og:type\" content=\"website\">"@ + "<meta property=\"og:site_name\" content=\""@
            + html_escape(SITE_NAME@) + "\">"@,
        "<link crossorigin rel=\"alternate\" type=\"application/json+oembed\" href=\"https://census.silkrose.dev/oembed?"@
            + html_escape(query) + "\" title=\""@ + html_escape(title) + "\">"@,
        "<script crossorigin src=\"/mane.js\"></script>"@,
    ]
}

proof fn lemma_head_is_its_pieces(title: Seq<char>, description: Seq<char>, link: Seq<char>, query: Seq<char>)
    ensures
        head_markup_with(title, description, link, query) == {
            let p = head_pieces(title, description, link, query);
            p[0] + p[1] + p[2] + p[3] + p[4] + p[5] + p[6] + p[7] + p[8]
        },
{
    let p = head_pieces(title, description, link, query);
    assert(head_markup_with(title, description, link, query) =~= p[0] + p[1] + p[2] + p[3] + p[4] + p[5] + p[6]
        + p[7] + p[8]);
}

proof fn lemma_piece_is_infix(p: Seq<Seq<char>>, k: int)
    requires
        p.len() == 9,
        0 <= k < 9,
    ensures
        is_infix(p[k], p[0] + p[1] + p[2] + p[3] + p[4] + p[5] + p[6] + p[7] + p[8]),
{
    let whole = p[0] + p[1] + p[2] + p[3] + p[4] + p[5] + p[6] + p[7] + p[8];
    let mut off: int = 0;
    if k >= 1 { off = off + p[0].len(); }
    if k >= 2 { off = off + p[1].len(); }
    if k >= 3 { off = off + p[2].len(); }
    if k >= 4 { off = off + p[3].len(); }
    if k >= 5 { off = off + p[4].len(); }
    if k >= 6 { off = off + p[5].len(); }
    if k >= 7 { off = off + p[6].len(); }
    if k >= 8 { off = off + p[7].len(); }
    assert(whole.subrange(off, off + p[k].len()) =~= p[k]);
}

/// A page's head shows what it was given: its title in the title element and
/// the og:title tag, its address as the canonical link and as the og:url
/// tag, its description in the og:description tag, and the oEmbed link with
/// the given query and title; every one of them escaped.
pub proof fn lemma_head_shows_its_inputs(
    title: Seq<char>,
    description: Seq<char>,
    link: Seq<char>,
    query: Seq<char>,
)
    ensures
        is_infix(
            "<title>"@ + html_escape(title) + "</title>"@,
            head_markup_with(title, description, link, query),
        ),
        is_infix(
            "<link rel=\"canonical\" href=\""@ + html_escape(link) + "\">"@,
            head_markup_with(title, description, link, query),
        ),
        is_infix(
            "<meta property=\"og:title\" content=\""@ + html_escape(title) + "\">"@,
            head_markup_with(title, description, link, query),
        ),
        is_infix(
            "<meta property=\"og:description\" content=\""@ + html_escape(description) + "\">"@,
            head_markup_with(title, description, link, query),
        ),
        is_infix(
            "<meta property=\"og:url\" content=\""@ + html_escape(link) + "\">"@,
            head_markup_with(title, description, link, query),
        ),
        is_infix(
            "<link crossorigin rel=\"alternate\" type=\"application/json+oembed\" href=\"https://census.silkrose.dev/oembed?"@
                + html_escape(query) + "\" title=\""@ + html_escape(title) + "\">"@,
            head_markup_with(title, description, link, query),
        ),
{
    let p = head_pieces(title, description, link, query);
    lemma_head_is_its_pieces(title, description, link, query);
    lemma_piece_is_infix(p, 0);
    lemma_piece_is_infix(p, 2);
    lemma_piece_is_infix(p, 3);
    lemma_piece_is_infix(p, 4);
    lemma_piece_is_infix(p, 5);
    lemma_piece_is_infix(p, 7);
}

/// The home page shows the same main part to everyone, signed in or not: the
/// site's heading and its escaped description.
pub proof fn lemma_home_main_is_the_same_for_everyone(user: Option<User>)
    ensures
        is_infix(
            "<main>"@ + "<h1>Census Consensus</h1><p>"@ + html_escape("The Equestrian Census, reimagined."@)
                + "</p><p></p>"@ + "</main>"@,
            home_markup(user),
        ),
{
    let head = head_markup("Home - "@ + SITE_NAME@, home_description(), SITE_LINK@);
    let header = header_markup(Pages::Home, user is Some);
    let before = "<!DOCTYPE html><html lang=\"en\"><head>"@ + head + "</head><body><header>"@ + header + "</header>"@;
    let part = "<main>"@ + "<h1>Census Consensus</h1><p>"@ + html_escape("The Equestrian Census, reimagined."@)
        + "</p><p></p>"@ + "</main>"@;
    let after = "</body></html>"@;
    assert(home_markup(user) =~= before + part + after);
    lemma_infix_middle(before, part, after);
}

/// Signed-in users all get the same home page: only whether someone is
/// signed in changes it.
pub proof fn lemma_home_page_does_not_depend_on_who(u: User, v: User)
    ensures
        home_markup(Some(u)) == home_markup(Some(v)),
{
}

/// A row of the user list shows its user: their escaped name linking to
/// their own Fimfiction profile, an Update button going to their update
/// address, and a Remove button going to their remove address.
pub proof fn lemma_user_row_shows_its_user(user: User)
    ensures
        is_infix(
            "<a href=\""@ + html_escape("https://www.fimfiction.net/user/"@ + decimal(user.id as int) + "/"@) + "\">"@
                + html_escape(user.name@),
            user_row_markup(user),
        ),
        is_infix(
            "<button type=\"button\" onclick=\""@ + html_escape(
                "window.location.href='"@ + "/user/update/"@ + decimal(user.id as int) + "';"@,
            ) + "\">"@ + html_escape("Update"@) + "</button>"@,
            user_row_markup(user),
        ),
        is_infix(
            "<button type=\"button\" class=\"danger\" onclick=\""@ + html_escape(
                "window.location.href='"@ + "/user/remove/"@ + decimal(user.id as int) + "';"@,
            ) + "\">Remove</button></span>"@,
            user_row_markup(user),
        ),
{
    let row = user_row_markup(user);
    let id = user.id as int;
    let update_script = "window.location.href='"@ + "/user/update/"@ + decimal(id) + "';"@;
    let remove_script = "window.location.href='"@ + "/user/remove/"@ + decimal(id) + "';"@;
    assert(go_to_script(update_address(user.id)) =~= update_script);
    assert(go_to_script(remove_address(user.id)) =~= remove_script);
    let profile = "<a href=\""@ + html_escape("https://www.fimfiction.net/user/"@ + decimal(id) + "/"@) + "\">"@
        + html_escape(user.name@);
    let update = "<button type=\"button\" onclick=\""@ + html_escape(update_script) + "\">"@ + html_escape(
        "Update"@,
    ) + "</button>"@;
    let remove = "<button type=\"button\" class=\"danger\" onclick=\""@ + html_escape(remove_script)
        + "\">Remove</button></span>"@;
    let start = "<span class=\"row\">"@ + pfp_markup(user);
    let sup = "<sup>\u{2197}</sup></a>"@;
    assert(row =~= start + profile + (sup + update + remove));
    lemma_infix_middle(start, profile, sup + update + remove);
    assert(row =~= (start + profile + sup) + update + remove);
    lemma_infix_middle(start + profile + sup, update, remove);
    assert(row =~= (start + profile + sup + update) + remove + Seq::<char>::empty());
    lemma_infix_middle(start + profile + sup + update, remove, Seq::<char>::empty());
}

/// The rows for one list of users followed by another are the rows of the
/// first followed by the rows of the second.
pub proof fn lemma_user_rows_concat(a: Seq<User>, b: Seq<User>)
    ensures
        user_rows_markup(a + b) == user_rows_markup(a) + user_rows_markup(b),
    decreases b.len(),
{
    if b.len() == 0 {
        assert(a + b =~= a);
        assert(user_rows_markup(a) + user_rows_markup(b) =~= user_rows_markup(a));
    } else {
        lemma_user_rows_concat(a, b.drop_last());
        assert((a + b).drop_last() =~= a + b.drop_last());
        assert((a + b).last() == b.last());
        assert(user_rows_markup(a) + user_rows_markup(b) =~= user_rows_markup(a) + user_rows_markup(b.drop_last())
            + user_row_markup(b.last()));
    }
}

/// A list of one user is that user's row.
pub proof fn lemma_user_rows_single(user: User)
    ensures
        user_rows_markup(seq![user]) == user_row_markup(user),
{
    let one = seq![user];
    assert(one.drop_last() =~= Seq::<User>::empty());
    assert(one.last() == user);
    assert(user_rows_markup(one.drop_last()) == Seq::<char>::empty());
    assert(Seq::<char>::empty() + user_row_markup(user) =~= user_row_markup(user));
}

/// The user list has one row per user, in the order given: the rows of the
/// users before `k`, then the row of user `k`, then the rows of the users
/// after it.
pub proof fn lemma_user_rows_in_order(users: Seq<User>, k: int)
    requires
        0 <= k < users.len(),
    ensures
        user_rows_markup(users) == user_rows_markup(users.take(k)) + user_row_markup(users[k])
            + user_rows_markup(users.skip(k + 1)),
{
    assert(users =~= users.take(k) + seq![users[k]] + users.skip(k + 1));
    lemma_user_rows_concat(users.take(k) + seq![users[k]], users.skip(k + 1));
    lemma_user_rows_concat(users.take(k), seq![users[k]]);
    lemma_user_rows_single(users[k]);
}

/// Row `k` of a session table shows session `k`: its token as the revoke
/// checkbox value, then the UTC minute it was created in the Created cell
/// and the UTC minute it was last seen in the Last Seen cell.
pub proof fn lemma_session_row_shows_its_session(session: Session, k: usize)
    ensures
        is_infix(
            "\" value=\""@ + html_escape(session.token@) + "\"></input></td>"@,
            session_row_markup(session, k),
        ),
        is_infix(
            "<td role=\"cell\" data-cell=\"Created: \">"@ + html_escape(time_text(session.date_created))
                + "</td><td role=\"cell\" data-cell=\"Last Seen: \">"@ + html_escape(time_text(session.last_seen))
                + "</td></tr>"@,
            session_row_markup(session, k),
        ),
{
    let row = session_row_markup(session, k);
    let start = "<tr role=\"row\"><td role=\"cell\" data-cell=\"Revoke: \"><input type=\"checkbox\" id=\""@
        + decimal(k as int) + "\" name=\""@ + decimal(k as int);
    let value = "\" value=\""@ + html_escape(session.token@) + "\"></input></td>"@;
    let agent = agent_cell_markup(session.user_agent@, k);
    let times = "<td role=\"cell\" data-cell=\"Created: \">"@ + html_escape(time_text(session.date_created))
        + "</td><td role=\"cell\" data-cell=\"Last Seen: \">"@ + html_escape(time_text(session.last_seen))
        + "</td></tr>"@;
    assert(row =~= start + value + (agent + times));
    lemma_infix_middle(start, value, agent + times);
    assert(row =~= (start + value + agent) + times + Seq::<char>::empty());
    lemma_infix_middle(start + value + agent, times, Seq::<char>::empty());
}

/// The session table grows one row per session in the order given: the rows
/// of the first `k + 1` sessions are those of the first `k` followed by the
/// row of session `k` numbered `k`, which is what `session_table_row`
/// renders for it.
pub proof fn lemma_session_rows_in_order(sessions: Seq<Session>, k: int)
    requires
        0 <= k < sessions.len(),
    ensures
        session_rows_markup(sessions.take(k + 1)) == session_rows_markup(sessions.take(k)) + session_row_markup(
            sessions[k],
            k as usize,
        ),
        session_rows_markup(sessions.take(sessions.len() as int)) == session_rows_markup(sessions),
{
    assert(sessions.take(k + 1).drop_last() =~= sessions.take(k));
    assert(sessions.take(k + 1).last() == sessions[k]);
    assert(sessions.take(sessions.len() as int) =~= sessions);
}

/// A page carries its head, and its main part between `<main>` and
/// `</main>`.
pub proof fn lemma_page_parts(head: Seq<char>, header: Seq<char>, mane: Seq<char>)
    ensures
        is_infix(head, page_markup(head, header, mane)),
        is_infix("<main>"@ + mane + "</main>"@, page_markup(head, header, mane)),
{
    let page = page_markup(head, header, mane);
    let top = "<!DOCTYPE html><html lang=\"en\"><head>"@;
    let mid = "</head><body><header>"@ + header + "</header>"@;
    let main = "<main>"@ + mane + "</main>"@;
    let end = "</body></html>"@;
    assert(page =~= top + head + (mid + main + end));
    lemma_infix_middle(top, head, mid + main + end);
    assert(page =~= (top + head + mid) + main + end);
    lemma_infix_middle(top + head + mid, main, end);
}

/// The user settings page carries the settings head (its title, its own
/// address and description) and, in its main part, the user list section,
/// a rule, then the sessions form; the user list holds the rows of the given
/// users and the sessions form the rows of the given sessions.
pub proof fn lemma_settings_page_shows_users_then_sessions(users: Seq<User>, sessions: Seq<Session>)
    ensures
        is_infix(
            head_markup(
                "User Settings - "@ + SITE_NAME@,
                "Authorized users, user updates, & user sessions."@,
                SITE_LINK@ + "/user-settings"@,
            ),
            user_settings_markup(users, sessions),
        ),
        is_infix(
            authorized_user_markup(users) + "<hr>"@ + sessions_markup(sessions),
            user_settings_markup(users, sessions),
        ),
        is_infix(user_rows_markup(users), authorized_user_markup(users)),
        is_infix(session_rows_markup(sessions), sessions_markup(sessions)),
{
    let head = head_markup(
        "User Settings - "@ + SITE_NAME@,
        "Authorized users, user updates, & user sessions."@,
        SITE_LINK@ + "/user-settings"@,
    );
    let header = header_markup(Pages::User, true);
    let intro = "<h1>User Settings</h1><p>"@ + html_escape(settings_description()) + "</p>"@;
    let body = authorized_user_markup(users) + "<hr>"@ + sessions_markup(sessions);
    let mane = intro + authorized_user_markup(users) + "<hr>"@ + sessions_markup(sessions);
    lemma_page_parts(head, header, mane);
    assert(mane =~= intro + body);
    assert("<main>"@ + mane + "</main>"@ =~= ("<main>"@ + intro) + body + "</main>"@);
    lemma_infix_middle("<main>"@ + intro, body, "</main>"@);
    lemma_infix_transitive(body, "<main>"@ + mane + "</main>"@, user_settings_markup(users, sessions));
    let a_top = "<h2>Authorized Users</h2><p>Update, remove, &amp; add users.</p><h3>User List:</h3><p>Click the buttons below to update or remove a user.</p>"@;
    let a_tail = "<p>This site pulls user information from Fimfiction. If anyone updates their name or profile picture on Fimfiction, we have no idea unless you click the button to re-fetch the data.</p><h3>Add Authorized User</h3><p>Add a new authorized user with their Fimfiction ID below:</p><form class=\"row\" method=\"get\" action=\"/user/add\"><label for=\"id\">User ID:</label>"@
        + input_numeric_required_markup("id"@, "id"@, 1, 6) + "<button type=\"submit\">Add</button></form>"@;
    assert(authorized_user_markup(users) =~= a_top + user_rows_markup(users) + a_tail);
    lemma_infix_middle(a_top, user_rows_markup(users), a_tail);
    let f_top = "<form method=\"post\" action=\"/user/revoke-sessions\"><h1>Sessions</h1><table role=\"table\"><caption role=\"caption\">Active User Sessions</caption><thead role=\"rowgroup\"><tr role=\"row\"><th role=\"columnheader\">Revoke?</th><th role=\"columnheader\">User Agent</th><th role=\"columnheader\">Created</th><th role=\"columnheader\">Last Seen</th></tr></thead><tbody role=\"rowgroup\">"@;
    let f_tail = "</tbody></table><button type=\"submit\">Revoke Sessions</button></form>"@;
    lemma_infix_middle(f_top, session_rows_markup(sessions), f_tail);
}

/// Row `k` of a session table numbers its checkbox `k`, and marks the row
/// active exactly when it is the first: row 0 shows "(Active)" before the
/// escaped user agent, every other row shows the user agent alone.
pub proof fn lemma_session_row_number_and_marker(session: Session, k: usize)
    ensures
        is_infix(
            "<tr role=\"row\"><td role=\"cell\" data-cell=\"Revoke: \"><input type=\"checkbox\" id=\""@
                + decimal(k as int) + "\" name=\""@ + decimal(k as int),
            session_row_markup(session, k),
        ),
        k == 0 ==> is_infix(
            "<td role=\"cell\" data-cell=\"User Agent: \"><b>(Active) </b>"@ + html_escape(session.user_agent@)
                + "</td>"@,
            session_row_markup(session, k),
        ),
        k != 0 ==> is_infix(
            "<td role=\"cell\" data-cell=\"User Agent: \">"@ + html_escape(session.user_agent@) + "</td>"@,
            session_row_markup(session, k),
        ),
{
    let row = session_row_markup(session, k);
    let start = "<tr role=\"row\"><td role=\"cell\" data-cell=\"Revoke: \"><input type=\"checkbox\" id=\""@
        + decimal(k as int) + "\" name=\""@ + decimal(k as int) + "\" value=\""@ + html_escape(session.token@)
        + "\"></input></td>"@;
    let agent = agent_cell_markup(session.user_agent@, k);
    let times = "<td role=\"cell\" data-cell=\"Created: \">"@ + html_escape(time_text(session.date_created))
        + "</td><td role=\"cell\" data-cell=\"Last Seen: \">"@ + html_escape(time_text(session.last_seen))
        + "</td></tr>"@;
    let number = "<tr role=\"row\"><td role=\"cell\" data-cell=\"Revoke: \"><input type=\"checkbox\" id=\""@
        + decimal(k as int) + "\" name=\""@ + decimal(k as int);
    let value = "\" value=\""@ + html_escape(session.token@) + "\"></input></td>"@;
    assert(row =~= start + agent + times);
    lemma_infix_middle(start, agent, times);
    assert(row =~= Seq::<char>::empty() + number + (value + agent + times));
    lemma_infix_middle(Seq::<char>::empty(), number, value + agent + times);
}

/// Only signed-in visitors get a navigation bar, and in it the link to the
/// current page, and only that one, is underlined.
pub proof fn lemma_header_underlines_current_page(page: Pages, admin: bool)
    ensures
        !admin ==> header_markup(page, admin).len() == 0,
        admin ==> is_infix(
            "<a href=\""@ + html_escape("/"@) + (if page == Pages::Home {
                "\" class=\"underlined\">"@
            } else {
                "\">"@
            }) + html_escape("Home"@) + "</a>"@,
            header_markup(page, admin),
        ),
        admin ==> is_infix(
            "<a href=\""@ + html_escape("/user"@) + (if page == Pages::User {
                "\" class=\"underlined\">"@
            } else {
                "\">"@
            }) + html_escape("User"@) + "</a>"@,
            header_markup(page, admin),
        ),
{
    if admin {
        let h = header_markup(page, admin);
        let home = header_link_markup("/"@, "Home"@, page == Pages::Home);
        let user = header_link_markup("/user"@, "User"@, page == Pages::User);
        let nav = "<nav><span class=\"nav\">"@;
        let rest = "\u{2022}"@ + header_link_markup("/comics"@, "Comics"@, false) + "</span></nav>"@;
        assert(home =~= "<a href=\""@ + html_escape("/"@) + (if page == Pages::Home {
            "\" class=\"underlined\">"@
        } else {
            "\">"@
        }) + html_escape("Home"@) + "</a>"@);
        assert(user =~= "<a href=\""@ + html_escape("/user"@) + (if page == Pages::User {
            "\" class=\"underlined\">"@
        } else {
            "\">"@
        }) + html_escape("User"@) + "</a>"@);
        assert(h =~= nav + home + ("\u{2022}"@ + user + rest));
        lemma_infix_middle(nav, home, "\u{2022}"@ + user + rest);
        assert(h =~= (nav + home + "\u{2022}"@) + user + rest);
        lemma_infix_middle(nav + home + "\u{2022}"@, user, rest);
    }
}

/// The oEmbed query of a page carries the page's own title.
pub proof fn lemma_oembed_query_names_the_title(title: Seq<char>)
    ensures
        exists|i: int| 0 <= i < oembed_pairs(title).len() && #[trigger] oembed_pairs(title)[i] == ("title"@, title),
{
    assert(oembed_pairs(title)[4] == ("title"@, title));
}

} // verus!
