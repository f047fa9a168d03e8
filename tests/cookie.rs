use blog_render::cookie::{CookieError, CookieService};

#[test]
fn set_builds_one_day_assignment() {
    let c = CookieService::new();
    assert_eq!(c.set("token", "abc"), "token=abc; max-age=86400; SameSite=Lax;");
}

#[test]
fn remove_builds_expiring_assignment() {
    let c = CookieService::new();
    assert_eq!(c.remove("token"), "token=; max-age=-86400; SameSite=Lax;");
}

#[test]
fn get_reads_first_cookie_value() {
    let c = CookieService::new();
    assert_eq!(c.get("token=abc; theme=dark", "token"), Ok("abc".to_string()));
    assert_eq!(c.get("token=a=b", "token"), Ok("a".to_string()));
    assert_eq!(c.get("token=", "token"), Ok(String::new()));
}

#[test]
fn get_without_value_is_not_found() {
    let c = CookieService::new();
    assert_eq!(c.get("", "token"), Err(CookieError::NotFound));
    assert_eq!(c.get("token; a=b", "token"), Err(CookieError::NotFound));
}
