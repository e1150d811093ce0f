use auth_session::cookie::{create, create_at, delete, delete_at, find_cookie, LAST_COOKIE_SECOND};

#[test]
fn create_cookie_fields() {
    let c = create_at("access_token", "tok".to_string(), 900, 1_700_000_000);
    assert_eq!(c.name, "access_token");
    assert_eq!(c.value, "tok");
    assert_eq!(c.path, "/");
    assert!(c.http_only && c.secure && !c.same_site_lax);
    assert_eq!(c.max_age, 900);
    assert_eq!(c.expires, 1_700_000_900);
}

#[test]
fn create_cookie_header() {
    let c = create_at("access_token", "tok".to_string(), 900, 0);
    assert_eq!(
        c.to_header(),
        "access_token=tok; HttpOnly; Secure; Path=/; Max-Age=900; Expires=Thu, 01 Jan 1970 00:15:00 GMT"
    );
    let c = create("refresh_token", "r".to_string(), 60);
    let h = c.to_header();
    assert!(h.starts_with("refresh_token=r; HttpOnly; Secure; Path=/; Max-Age=60; Expires="));
}

#[test]
fn create_cookie_far_future_clamped() {
    let c = create_at("a", "b".to_string(), LAST_COOKIE_SECOND, u64::MAX);
    assert_eq!(c.expires as u64, LAST_COOKIE_SECOND);
    assert!(c.to_header().ends_with("Expires=Fri, 31 Dec 9999 23:59:59 GMT"));
}

#[test]
fn delete_cookie_header() {
    let c = delete_at("refresh_token", 86400 * 2);
    assert_eq!(c.value, "");
    assert_eq!(c.max_age, -1);
    assert_eq!(c.expires, 86400);
    assert_eq!(
        c.to_header(),
        "refresh_token=; HttpOnly; SameSite=Lax; Secure; Path=/; Max-Age=-1; Expires=Fri, 02 Jan 1970 00:00:00 GMT"
    );
    let d = delete("access_token");
    assert!(d.to_header().starts_with("access_token=; HttpOnly; SameSite=Lax; Secure; Path=/; Max-Age=-1"));
}

#[test]
fn cookie_lookup() {
    let h = "theme=dark; access_token=abc.def.ghi;refresh_token=r1 ; empty=";
    assert_eq!(find_cookie(h, "access_token").as_deref(), Some("abc.def.ghi"));
    assert_eq!(find_cookie(h, "refresh_token").as_deref(), Some("r1"));
    assert_eq!(find_cookie(h, "empty").as_deref(), Some(""));
    assert_eq!(find_cookie(h, "missing"), None);
    assert_eq!(find_cookie("", "access_token"), None);
    assert_eq!(find_cookie("a=1; a=2", "a").as_deref(), Some("1"));
    assert_eq!(find_cookie("junk; x=%41", "x").as_deref(), Some("A"));
}
