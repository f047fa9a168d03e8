use blog_render::api::{AccountError, AccountLevel, BlogError, InfoResponse};
use blog_render::post::{
    account_error_after, blog_error_after, edit_post_form, join_tags, may_create_post,
    may_edit_post, new_post_form, next_page, previous_page, same_account, split_tags, tags_label,
    upper_tags_label,
};

fn strings(items: &[&str]) -> Vec<String> {
    items.iter().map(|s| s.to_string()).collect()
}

#[test]
fn tags_split_at_commas_without_spaces() {
    assert_eq!(split_tags("rust, verus , math"), strings(&["rust", "verus", "math"]));
    assert_eq!(split_tags("a b,c"), strings(&["ab", "c"]));
    assert_eq!(split_tags(""), strings(&[""]));
    assert_eq!(split_tags("a,"), strings(&["a", ""]));
}

#[test]
fn new_post_form_checks_fields_in_order() {
    assert_eq!(new_post_form("", "", "é").unwrap_err(), BlogError::TooShortTitle);
    assert_eq!(new_post_form("t", "", "é").unwrap_err(), BlogError::TooShortBody);
    assert_eq!(new_post_form("t", "b", "é").unwrap_err(), BlogError::InvalidTags);
    let form = new_post_form("Title", "Body", "x, y").unwrap();
    assert_eq!(form.title, "Title");
    assert_eq!(form.body, "Body");
    assert_eq!(form.tag, strings(&["x", "y"]));
}

#[test]
fn edit_post_form_keeps_key() {
    let form = edit_post_form(42, "T", "B", "a").unwrap();
    assert_eq!(form.pk, 42);
    assert_eq!(form.title, "T");
    assert_eq!(form.body, "B");
    assert_eq!(form.tag, strings(&["a"]));
    assert_eq!(edit_post_form(42, "", "B", "a").unwrap_err(), BlogError::TooShortTitle);
}

#[test]
fn tags_join_with_commas() {
    assert_eq!(join_tags(&strings(&["a", "b", "c"])), "a,b,c");
    assert_eq!(join_tags(&Vec::new()), "");
    assert_eq!(split_tags(&join_tags(&strings(&["a", "b"]))), strings(&["a", "b"]));
}

#[test]
fn tags_label_lists_hash_tags() {
    assert_eq!(tags_label(&strings(&["rust", "math"])), "#rust, #math");
    assert_eq!(tags_label(&strings(&["one"])), "#one");
    assert_eq!(tags_label(&strings(&[""])), "NO TAGS");
    assert_eq!(tags_label(&Vec::new()), "");
}

#[test]
fn service_errors_replace_shown_error() {
    assert_eq!(blog_error_after(BlogError::Nothing, None), BlogError::NetworkError);
    assert_eq!(
        blog_error_after(BlogError::TooShortBody, Some(BlogError::Nothing)),
        BlogError::TooShortBody
    );
    assert_eq!(
        blog_error_after(BlogError::Nothing, Some(BlogError::PermissionError)),
        BlogError::PermissionError
    );
    assert_eq!(account_error_after(AccountError::Nothing, None), AccountError::NetworkError);
    assert_eq!(
        account_error_after(AccountError::Nothing, Some(AccountError::UserNotExists)),
        AccountError::UserNotExists
    );
    assert_eq!(
        account_error_after(AccountError::PassNotMatched, Some(AccountError::Nothing)),
        AccountError::PassNotMatched
    );
}

#[test]
fn access_rules() {
    assert!(may_edit_post(5, 5));
    assert!(!may_edit_post(5, 6));
    assert!(may_edit_post(5, (1i64 << 32) + 5));
    assert!(may_create_post(AccountLevel::Admin));
    assert!(!may_create_post(AccountLevel::Default));
}

#[test]
fn paging() {
    assert_eq!(next_page(0, 25, 10), Some(1));
    assert_eq!(next_page(1, 25, 10), Some(2));
    assert_eq!(next_page(2, 25, 10), None);
    assert_eq!(next_page(0, 10, 10), None);
    assert_eq!(previous_page(2), Some(1));
    assert_eq!(previous_page(0), None);
}

#[test]
fn upper_tags_label_uppercases_tags() {
    assert_eq!(upper_tags_label(&strings(&["rust", "Math"])), "#RUST, #MATH");
    assert_eq!(upper_tags_label(&strings(&["straße"])), "#STRASSE");
    assert_eq!(upper_tags_label(&strings(&[""])), "NO TAGS");
}

fn account(pk: i64, nickname: &str, level: AccountLevel) -> InfoResponse {
    InfoResponse {
        pk,
        username: "user".to_string(),
        nickname: nickname.to_string(),
        email: "user@example.com".to_string(),
        level,
    }
}

#[test]
fn same_account_compares_every_field() {
    let a = account(1, "neo", AccountLevel::Admin);
    assert!(same_account(&a, &a.clone()));
    assert!(!same_account(&a, &account(2, "neo", AccountLevel::Admin)));
    assert!(!same_account(&a, &account(1, "trinity", AccountLevel::Admin)));
    assert!(!same_account(&a, &account(1, "neo", AccountLevel::Default)));
}
