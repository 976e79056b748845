use census::html_templates::{
    authorized_user_html, button_link, encode_url, head_html, head_html_with_query, header_html,
    header_link_html, home_html, html_builder, input_text_numeric_required, input_text_required,
    input_text_value_required, session_row_with_times, session_table_row, user_inline_html,
    user_sessions_html, user_settings_html,
};
use census::structs::{Pages, Session, User, UtcTime};

fn session(token: &str, agent: &str, created: i64, seen: i64) -> Session {
    Session {
        token: token.to_string(),
        user_id: 1,
        user_agent: agent.to_string(),
        last_seen: UtcTime { secs: seen, nanos: 0 },
        date_created: UtcTime { secs: created, nanos: 0 },
    }
}

const HOME_HEAD: &str = "<title>Home - Census Consensus</title><meta charset=\"UTF-8\"><meta http-equiv=\"X-UA-Compatible\" content=\"IE=edge\"><meta name=\"viewport\" content=\"width=device-width,initial-scale=1\"><link rel=\"stylesheet\" crossorigin href=\"/style.css\"><link rel=\"canonical\" href=\"https://census.silkrose.dev\"><meta property=\"og:title\" content=\"Home - Census Consensus\"><meta property=\"og:description\" content=\"The Equestrian Census, reimagined.\"><meta property=\"og:url\" content=\"https://census.silkrose.dev\"><meta property=\"og:type\" content=\"website\"><meta property=\"og:site_name\" content=\"Census Consensus\"><link crossorigin rel=\"alternate\" type=\"application/json+oembed\" href=\"https://census.silkrose.dev/oembed?type=rich&amp;version=1.0&amp;provider_name=Census+Consensus&amp;provider_url=https%3A%2F%2Fcensus.silkrose.dev&amp;title=Home+-+Census+Consensus&amp;cache_age=86400&amp;html=\" title=\"Home - Census Consensus\"><script crossorigin src=\"/mane.js\"></script>";

#[test]
fn page_frame() {
    assert_eq!(
        html_builder("<title>t</title>", "", "<p>x</p>"),
        "<!DOCTYPE html><html lang=\"en\"><head><title>t</title></head><body><header></header><main><p>x</p></main></body></html>"
    );
}

#[test]
fn oembed_query_is_form_urlencoded() {
    assert_eq!(
        encode_url("Home - Census Consensus"),
        "type=rich&version=1.0&provider_name=Census+Consensus&provider_url=https%3A%2F%2Fcensus.silkrose.dev&title=Home+-+Census+Consensus&cache_age=86400&html="
    );
    assert!(encode_url("a&b=c").contains("&title=a%26b%3Dc&"));
}

#[test]
fn head_of_home_page() {
    assert_eq!(
        head_html("Home - Census Consensus", "The Equestrian Census, reimagined.", "https://census.silkrose.dev"),
        HOME_HEAD
    );
}

#[test]
fn head_escapes_its_texts() {
    let head = head_html_with_query("a<b", "\"d\"", "/l?x=1&y=2", "q=1&r=2");
    assert!(head.starts_with("<title>a&lt;b</title>"));
    assert!(head.contains("<meta property=\"og:description\" content=\"&quot;d&quot;\">"));
    assert!(head.contains("<link rel=\"canonical\" href=\"/l?x=1&amp;y=2\">"));
    assert!(head.contains("href=\"https://census.silkrose.dev/oembed?q=1&amp;r=2\" title=\"a&lt;b\">"));
}

#[test]
fn home_page_for_visitor() {
    let expected = format!(
        "<!DOCTYPE html><html lang=\"en\"><head>{HOME_HEAD}</head><body><header></header><main><h1>Census Consensus</h1><p>The Equestrian Census, reimagined.</p><p></p></main></body></html>"
    );
    assert_eq!(home_html(None), expected);
}

#[test]
fn home_page_for_signed_in_user() {
    let user = User { id: 1, name: String::from("Twi"), pfp_url: None };
    let page = home_html(Some(user));
    assert!(page.contains(
        "<header><nav><span class=\"nav\"><a href=\"/\" class=\"underlined\">Home</a>\u{2022}<a href=\"/user\">User</a>\u{2022}<a href=\"/comics\">Comics</a></span></nav></header>"
    ));
}

#[test]
fn navigation_links() {
    assert_eq!(header_link_html("/", "Home", true), "<a href=\"/\" class=\"underlined\">Home</a>");
    assert_eq!(header_link_html("/a&b", "<T>", false), "<a href=\"/a&amp;b\">&lt;T&gt;</a>");
    assert_eq!(
        header_html(Pages::User, true),
        "<nav><span class=\"nav\"><a href=\"/\">Home</a>\u{2022}<a href=\"/user\" class=\"underlined\">User</a>\u{2022}<a href=\"/comics\">Comics</a></span></nav>"
    );
    assert_eq!(header_html(Pages::Home, false), "");
}

#[test]
fn inputs_and_buttons() {
    assert_eq!(
        input_text_numeric_required("id", "id", 1, 6),
        "<input id=\"id\" type=\"text\" name=\"id\" inputmode=\"numeric\" pattern=\"\\d*\" minlength=\"1\" maxlength=\"6\" required></input>"
    );
    assert_eq!(
        input_text_required("t", "title", 0, 4294967295),
        "<input id=\"t\" type=\"text\" name=\"title\" minlength=\"0\" maxlength=\"4294967295\" required></input>"
    );
    assert_eq!(
        input_text_value_required("t", "title", 2, 30, "a\"b"),
        "<input id=\"t\" type=\"text\" name=\"title\" minlength=\"2\" maxlength=\"30\" value=\"a&quot;b\" required></input>"
    );
    assert_eq!(
        button_link("Update", "/user/update/5"),
        "<button type=\"button\" onclick=\"window.location.href='/user/update/5';\">Update</button>"
    );
}

#[test]
fn user_shown_inline() {
    let user = User { id: 42, name: String::from("A<b>&\""), pfp_url: Some(String::from("https://cdn/x")) };
    assert_eq!(
        user_inline_html(&user),
        "<img src=\"https://cdn/x-32\" alt=\"A&lt;b&gt;&amp;&quot;\"></img> - <a href=\"https://www.fimfiction.net/user/42/\">A&lt;b&gt;&amp;&quot;<sup>\u{2197}</sup></a>"
    );
    let plain = User { id: -3, name: String::from("Rar"), pfp_url: None };
    assert_eq!(
        user_inline_html(&plain),
        "<a href=\"https://www.fimfiction.net/user/-3/\">Rar<sup>\u{2197}</sup></a>"
    );
}

#[test]
fn user_list_section() {
    let users = vec![User { id: 7, name: String::from("Spike"), pfp_url: None }];
    let section = authorized_user_html(&users);
    assert!(section.starts_with("<h2>Authorized Users</h2><p>Update, remove, &amp; add users.</p><h3>User List:</h3><p>Click the buttons below to update or remove a user.</p><span class=\"row\"><a href=\"https://www.fimfiction.net/user/7/\">Spike<sup>\u{2197}</sup></a><button type=\"button\" onclick=\"window.location.href='/user/update/7';\">Update</button><button type=\"button\" class=\"danger\" onclick=\"window.location.href='/user/remove/7';\">Remove</button></span><p>This site pulls user information from Fimfiction. If anyone updates their name or profile picture on Fimfiction, we have no idea unless you click the button to re-fetch the data.</p>"));
    assert!(section.ends_with("<form class=\"row\" method=\"get\" action=\"/user/add\"><label for=\"id\">User ID:</label><input id=\"id\" type=\"text\" name=\"id\" inputmode=\"numeric\" pattern=\"\\d*\" minlength=\"1\" maxlength=\"6\" required></input><button type=\"submit\">Add</button></form>"));
}

#[test]
fn session_rows_given_times() {
    let s = session("tok\"1", "Firefox <x>", 0, 0);
    assert_eq!(
        session_row_with_times(&s, 0, "24-01-02 03:04", "25-12-31 23:59"),
        "<tr role=\"row\"><td role=\"cell\" data-cell=\"Revoke: \"><input type=\"checkbox\" id=\"0\" name=\"0\" value=\"tok&quot;1\"></input></td><td role=\"cell\" data-cell=\"User Agent: \"><b>(Active) </b>Firefox &lt;x&gt;</td><td role=\"cell\" data-cell=\"Created: \">24-01-02 03:04</td><td role=\"cell\" data-cell=\"Last Seen: \">25-12-31 23:59</td></tr>"
    );
    assert_eq!(
        session_row_with_times(&s, 12, "c", "s"),
        "<tr role=\"row\"><td role=\"cell\" data-cell=\"Revoke: \"><input type=\"checkbox\" id=\"12\" name=\"12\" value=\"tok&quot;1\"></input></td><td role=\"cell\" data-cell=\"User Agent: \">Firefox &lt;x&gt;</td><td role=\"cell\" data-cell=\"Created: \">c</td><td role=\"cell\" data-cell=\"Last Seen: \">s</td></tr>"
    );
}

#[test]
fn session_times_are_utc_minutes() {
    let s = session("t", "ua", 1704164640, 1767225599);
    let row = session_table_row(&s, 1);
    assert!(row.contains("data-cell=\"Created: \">24-01-02 03:04</td>"));
    assert!(row.contains("data-cell=\"Last Seen: \">25-12-31 23:59</td>"));
}

#[test]
fn session_table_marks_only_first_row_active() {
    let sessions = vec![session("a", "one", 0, 60), session("b", "two", 0, 0), session("c", "three", 0, 0)];
    let form = user_sessions_html(sessions);
    assert!(form.starts_with("<form method=\"post\" action=\"/user/revoke-sessions\"><h1>Sessions</h1><table role=\"table\"><caption role=\"caption\">Active User Sessions</caption><thead role=\"rowgroup\"><tr role=\"row\"><th role=\"columnheader\">Revoke?</th><th role=\"columnheader\">User Agent</th><th role=\"columnheader\">Created</th><th role=\"columnheader\">Last Seen</th></tr></thead><tbody role=\"rowgroup\"><tr role=\"row\">"));
    assert!(form.ends_with("</tbody></table><button type=\"submit\">Revoke Sessions</button></form>"));
    assert_eq!(form.matches("(Active) ").count(), 1);
    assert!(form.contains("<b>(Active) </b>one</td>"));
    let a = form.find("value=\"a\"").unwrap();
    let b = form.find("value=\"b\"").unwrap();
    let c = form.find("value=\"c\"").unwrap();
    assert!(a < b && b < c);
    assert!(form.contains("id=\"2\" name=\"2\" value=\"c\""));
}

#[test]
fn user_settings_page_layout() {
    let users = vec![User { id: 1, name: String::from("<script>"), pfp_url: None }];
    let sessions = vec![session("tok", "agent", 0, 0)];
    let page = user_settings_html(users, sessions);
    assert!(page.starts_with("<!DOCTYPE html><html lang=\"en\"><head><title>User Settings - Census Consensus</title>"));
    assert!(page.contains("<link rel=\"canonical\" href=\"https://census.silkrose.dev/user-settings\">"));
    assert!(page.contains("<meta property=\"og:description\" content=\"Authorized users, user updates, &amp; user sessions.\">"));
    assert!(page.contains("<main><h1>User Settings</h1><p>Authorized users, user updates, &amp; user sessions.</p><h2>Authorized Users</h2>"));
    assert!(page.contains("</form><hr><form method=\"post\""));
    assert!(page.contains("&lt;script&gt;"));
    assert!(!page.contains("<script>"));
    assert!(page.contains("<a href=\"/user\" class=\"underlined\">User</a>"));
}
