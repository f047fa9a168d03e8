use blog_render::api::{info_url, recent_posts_url, user_url, AccountError, BlogError};
use blog_render::router::MainRoute;
use blog_render::text::decimal_text;

#[test]
fn account_error_messages() {
    assert_eq!(AccountError::UsernameAlreadyExists.message(), "Username already exists.");
    assert_eq!(AccountError::PassNotMatched.message(), "Your password is not matched.");
    assert_eq!(
        AccountError::PasswordVerifyFailed.message(),
        "Please re-check your password in the verify field."
    );
    assert_eq!(AccountError::Nothing.message(), "Nothing.");
}

#[test]
fn blog_error_messages() {
    assert_eq!(BlogError::InvalidTags.message(), "Tags must be in ascii area.");
    assert_eq!(BlogError::TooShortTitle.message(), "Too short title length.");
    assert_eq!(BlogError::PermissionError.message(), "You have not permission.");
    assert_eq!(BlogError::Nothing.message(), "Nothing.");
}

#[test]
fn request_addresses() {
    assert_eq!(info_url("t0k"), "http://localhost/api/account_service/info?token=t0k");
    assert_eq!(user_url(17), "http://localhost/api/account_service/get_user?pk=17");
    assert_eq!(recent_posts_url(5), "http://localhost/api/blog/recent_posts?count=5");
}

#[test]
fn decimal_numerals() {
    assert_eq!(decimal_text(0), "0");
    assert_eq!(decimal_text(86400), "86400");
    assert_eq!(decimal_text(-7), "-7");
    assert_eq!(decimal_text(i64::MIN), i64::MIN.to_string());
    assert_eq!(decimal_text(i64::MAX), i64::MAX.to_string());
}

#[test]
fn default_route_is_main() {
    assert_eq!(MainRoute::default(), MainRoute::Main);
}
