use census::endpoints::{
    add_user_id, add_user_step, cached_css_reply, css_reply, distinct_tokens, may_revoke, parse_css,
    prefer_minified, remove_user_step, revoke_location, revoke_tokens, sort_newest_first,
    update_user_step, user_settings_page, ContentKind, Reply, UserStep,
};
use census::structs::{Session, User, UtcTime};

fn session(token: &str, secs: i64, nanos: u32) -> Session {
    Session {
        token: token.to_string(),
        user_id: 1,
        user_agent: String::from("ua"),
        last_seen: UtcTime { secs, nanos },
        date_created: UtcTime { secs: 0, nanos: 0 },
    }
}

fn tokens(sessions: &[Session]) -> Vec<&str> {
    sessions.iter().map(|s| s.token.as_str()).collect()
}

#[test]
fn sessions_listed_newest_first() {
    let sorted = sort_newest_first(vec![
        session("old", 10, 0),
        session("new", 30, 0),
        session("mid", 20, 5),
        session("mid-earlier", 20, 4),
    ]);
    assert_eq!(tokens(&sorted), vec!["new", "mid", "mid-earlier", "old"]);
}

#[test]
fn ties_come_in_reverse_of_given_order() {
    let given = vec![session("a", 5, 0), session("b", 5, 0), session("c", 9, 0), session("d", 5, 0)];
    let sorted = sort_newest_first(given.clone());
    assert_eq!(tokens(&sorted), vec!["c", "d", "b", "a"]);
    let mut reference = given;
    reference.sort_by_key(|k| (k.last_seen.secs, k.last_seen.nanos));
    reference.reverse();
    assert_eq!(tokens(&sorted), tokens(&reference));
}

#[test]
fn sorting_nothing_gives_nothing() {
    assert!(sort_newest_first(Vec::new()).is_empty());
}

#[test]
fn settings_page_lists_sessions_newest_first() {
    let users = vec![User { id: 1, name: String::from("Twi"), pfp_url: None }];
    let page = user_settings_page(users, vec![session("older", 1, 0), session("newer", 2, 0)]);
    let newer = page.find("value=\"newer\"").unwrap();
    let older = page.find("value=\"older\"").unwrap();
    assert!(newer < older);
    assert!(page.contains("value=\"newer\"></input></td><td role=\"cell\" data-cell=\"User Agent: \"><b>(Active) </b>"));
}

#[test]
fn style_sheet_replies() {
    assert!(matches!(css_reply(Err(String::from("x"))), Reply::InternalServerError));
    assert!(matches!(
        css_reply(Ok(String::from("a{}"))),
        Reply::Success { kind: ContentKind::Css, ref body } if body == "a{}"
    ));
    assert!(matches!(cached_css_reply(String::new()), Reply::InternalServerError));
    assert!(matches!(
        cached_css_reply(String::from("b{}")),
        Reply::Success { kind: ContentKind::Css, ref body } if body == "b{}"
    ));
    assert_eq!(ContentKind::Css.content_type(), "text/css; charset=utf-8");
    assert_eq!(ContentKind::Html.content_type(), "text/html; charset=utf-8");
    assert_eq!(ContentKind::JavaScript.content_type(), "text/javascript; charset=utf-8");
}

#[test]
fn style_sheet_is_minified_when_possible() {
    assert_eq!(parse_css(None), Err(String::from("Failed to read CSS file!")));
    assert_eq!(parse_css(Some(String::from("a {\n  color: red;\n}\n"))), Ok(String::from("a{color:red}")));
    assert_eq!(prefer_minified(String::from("raw"), None), "raw");
    assert_eq!(prefer_minified(String::from("raw"), Some(String::from("min"))), "min");
}

#[test]
fn user_update_steps() {
    assert!(matches!(
        update_user_step(Some(5), String::from("/user")),
        UserStep::FetchAndStore { id: 5, ref location } if location == "/user"
    ));
    assert!(matches!(
        update_user_step(None, String::from("/user")),
        UserStep::Answer(Reply::BadRequest { ref message }) if message == "Unable to update a user who doesn't exist."
    ));
}

#[test]
fn user_add_steps() {
    assert!(matches!(add_user_id(Some(9)), Ok(9)));
    assert!(matches!(
        add_user_id(None),
        Err(Reply::BadRequest { ref message }) if message == "Missing id parameter."
    ));
    assert!(matches!(
        add_user_step(9, true, String::from("/user")),
        UserStep::Answer(Reply::BadRequest { ref message }) if message == "Unable to add a user who already exists."
    ));
    assert!(matches!(
        add_user_step(9, false, String::from("/back")),
        UserStep::FetchAndStore { id: 9, ref location } if location == "/back"
    ));
}

#[test]
fn removing_yourself_signs_you_out() {
    assert!(matches!(
        remove_user_step(Some(4), 4, String::from("/user")),
        UserStep::Delete { id: 4, ref location } if location == "/logout"
    ));
    assert!(matches!(
        remove_user_step(Some(4), 5, String::from("/user")),
        UserStep::Delete { id: 4, ref location } if location == "/user"
    ));
    assert!(matches!(
        remove_user_step(None, 5, String::from("/user")),
        UserStep::Answer(Reply::BadRequest { ref message }) if message == "Unable to update a user who doesn't exist."
    ));
}

#[test]
fn revocation_form_tokens() {
    let mut t = revoke_tokens("0=abc&1=def&0=ghi").unwrap();
    t.sort();
    assert_eq!(t, vec![String::from("def"), String::from("ghi")]);
    let mut t = revoke_tokens("0=same&1=same&2=x%2By+z").unwrap();
    t.sort();
    assert_eq!(t, vec![String::from("same"), String::from("x+y z")]);
    assert_eq!(revoke_tokens(""), Some(Vec::new()));
    assert_eq!(revoke_tokens("name=abc"), None);
    assert_eq!(revoke_tokens("-1=abc"), None);
}

#[test]
fn distinct_tokens_of_parsed_pairs() {
    let pairs = vec![(1u32, String::from("a")), (2, String::from("a")), (1, String::from("b"))];
    let mut t = distinct_tokens(&pairs);
    t.sort();
    assert_eq!(t, vec![String::from("a"), String::from("b")]);
    assert!(distinct_tokens(&Vec::new()).is_empty());
}

#[test]
fn only_own_sessions_are_revoked() {
    assert!(may_revoke(Some(3), 3));
    assert!(!may_revoke(Some(4), 3));
    assert!(!may_revoke(None, 3));
}

#[test]
fn revoking_the_session_in_use_signs_out() {
    let named = vec![String::from("a"), String::from("b")];
    assert_eq!(revoke_location(&named, "b", String::from("/user")), "/logout");
    assert_eq!(revoke_location(&named, "c", String::from("/user")), "/user");
    assert_eq!(revoke_location(&Vec::new(), "c", String::from("/back")), "/back");
}
