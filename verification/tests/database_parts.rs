use census::database::{
    count_err, db_expect, delete_err, insert_err, pfp_url, select_err, update_err, user_or_missing,
};
use census::structs::User;

#[test]
fn failure_messages_carry_the_report() {
    assert_eq!(insert_err("boom"), "database insertion error:\nboom");
    assert_eq!(select_err("boom"), "database selection error:\nboom");
    assert_eq!(update_err(""), "database updating error:\n");
    assert_eq!(delete_err("x y"), "database deletion error:\nx y");
    assert_eq!(count_err(), "database counting error");
    assert_eq!(
        db_expect(),
        "database constraints means this resource will always be present in the database."
    );
}

#[test]
fn placeholder_avatar_keeps_no_picture() {
    assert_eq!(
        pfp_url(
            "https://static.fimfiction.net/images/none_64.png",
            "https://static.fimfiction.net/images/none_256.png"
        ),
        None
    );
}

#[test]
fn real_avatar_keeps_large_address_without_size() {
    assert_eq!(
        pfp_url(
            "https://cdn-img.fimfiction.net/user/x1y2-1700000000-123456-64",
            "https://cdn-img.fimfiction.net/user/x1y2-1700000000-123456-256"
        ),
        Some(String::from("https://cdn-img.fimfiction.net/user/x1y2-1700000000-123456"))
    );
    assert_eq!(pfp_url("a-64", "b-256-256"), Some(String::from("b")));
    assert_eq!(pfp_url("a-64", "b"), Some(String::from("b")));
}

#[test]
fn stored_address_is_stable_when_kept_again() {
    let kept = pfp_url("a-64", "pic-256-256").unwrap();
    assert!(!kept.ends_with("-256"));
    assert_eq!(pfp_url("a-64", &kept), Some(kept.clone()));
}

#[test]
fn guaranteed_user_or_message() {
    let u = User { id: 3, name: String::from("Twi"), pfp_url: None };
    assert_eq!(user_or_missing(Some(u.clone())), Ok(u));
    assert_eq!(user_or_missing(None), Err(String::from(db_expect())));
}
