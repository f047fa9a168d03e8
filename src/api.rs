//! The records exchanged with the blog's account and post services, the errors that
//! they report, and the addresses of the requests that carry no body.
use crate::text::{decimal_of, decimal_text};
use vstd::prelude::*;

verus! {

/// Address of the account and blog services.
pub const API_ROOT: &'static str = "http://localhost/api";

#[derive(Clone, Copy, PartialEq, Eq, Structural, Debug)]
pub enum AccountError {
    Nothing,
    PassNotMatched,
    UserNotExists,
    DatabaseError,
    UsernameAlreadyExists,
    EmailAlreadyExists,
    NetworkError,
    PasswordVerifyFailed,
}

/// The message shown to the user for an account error.
pub open spec fn account_error_message(e: AccountError) -> Seq<char> {
    match e {
        AccountError::UsernameAlreadyExists => "Username already exists."@,
        AccountError::EmailAlreadyExists => "E-mail already exists."@,
        AccountError::NetworkError => "Some network error occurs."@,
        AccountError::DatabaseError => "Some database error occurs."@,
        AccountError::UserNotExists => "Your user not exists."@,
        AccountError::PassNotMatched => "Your password is not matched."@,
        AccountError::PasswordVerifyFailed => "Please re-check your password in the verify field."@,
        AccountError::Nothing => "Nothing."@,
    }
}

impl AccountError {
    /// The message shown to the user.
    pub fn message(&self) -> (r: String)
        ensures
            r@ == account_error_message(*self),
    {
        let m = match self {
            AccountError::UsernameAlreadyExists => "Username already exists.",
            AccountError::EmailAlreadyExists => "E-mail already exists.",
            AccountError::NetworkError => "Some network error occurs.",
            AccountError::DatabaseError => "Some database error occurs.",
            AccountError::UserNotExists => "Your user not exists.",
            AccountError::PassNotMatched => "Your password is not matched.",
            AccountError::PasswordVerifyFailed => "Please re-check your password in the verify field.",
            AccountError::Nothing => "Nothing.",
        };
        m.to_string()
    }
}

#[derive(Clone, Copy, PartialEq, Eq, Structural, Debug)]
pub enum BlogError {
    Nothing,
    AuthError,
    DatabaseError,
    NetworkError,
    PermissionError,
    TooShortTitle,
    TooShortBody,
    InvalidTags,
}

/// The message shown to the user for a blog error.
pub open spec fn blog_error_message(e: BlogError) -> Seq<char> {
    match e {
        BlogError::AuthError => "Some account verify error occurs."@,
        BlogError::NetworkError => "Some network error occurs."@,
        BlogError::DatabaseError => "Some database error occurs."@,
        BlogError::PermissionError => "You have not permission."@,
        BlogError::TooShortBody => "Too short body length."@,
        BlogError::TooShortTitle => "Too short title length."@,
        BlogError::InvalidTags => "Tags must be in ascii area."@,
        BlogError::Nothing => "Nothing."@,
    }
}

impl BlogError {
    /// The message shown to the user.
    pub fn message(&self) -> (r: String)
        ensures
            r@ == blog_error_message(*self),
    {
        let m = match self {
            BlogError::AuthError => "Some account verify error occurs.",
            BlogError::NetworkError => "Some network error occurs.",
            BlogError::DatabaseError => "Some database error occurs.",
            BlogError::PermissionError => "You have not permission.",
            BlogError::TooShortBody => "Too short body length.",
            BlogError::TooShortTitle => "Too short title length.",
            BlogError::InvalidTags => "Tags must be in ascii area.",
            BlogError::Nothing => "Nothing.",
        };
        m.to_string()
    }
}

#[derive(Clone, Copy, PartialEq, Eq, Structural, Debug)]
pub enum AccountLevel {
    Default,
    Admin,
}

/// A moment in UTC: whole seconds since 1970-01-01T00:00:00 and the nanoseconds past them.
#[derive(Clone, Copy, PartialEq, Eq, Structural, Debug)]
pub struct Timestamp {
    pub secs: i64,
    pub nanos: u32,
}

/// The envelope of every service response: whether the request was served, and its body.
#[derive(Clone, Debug)]
pub struct ResponseBlock<T> {
    pub status: bool,
    pub body: Option<T>,
}

/// A request body together with the session token.
#[derive(Clone, Debug)]
pub struct AsRequest<T> {
    pub token: String,
    pub body: T,
}

#[derive(Clone, Debug)]
pub struct LoginForm {
    pub username: String,
    pub pass: String,
}

#[derive(Clone, Debug)]
pub struct LoginResponse {
    pub result: AccountError,
    pub token: Option<String>,
}

#[derive(Clone, Debug)]
pub struct InfoResponse {
    pub pk: i64,
    pub username: String,
    pub nickname: String,
    pub email: String,
    pub level: AccountLevel,
}

#[derive(Clone, Debug)]
pub struct RegisterForm {
    pub username: String,
    pub pass: String,
    pub email: String,
    pub nickname: String,
}

#[derive(Clone, Debug)]
pub struct RegisterResponse {
    pub result: AccountError,
}

#[derive(Clone, Debug, Default)]
pub struct NewPostForm {
    pub title: String,
    pub body: String,
    pub tag: Vec<String>,
}

#[derive(Clone, Debug, Default)]
pub struct ViewPostForm {
    pub id: i64,
}

#[derive(Clone, Debug)]
pub struct NewPostResponse {
    pub error: BlogError,
}

#[derive(Clone, Debug)]
pub struct CountPostsResponse {
    pub error: BlogError,
    pub count: i64,
}

#[derive(Clone, Debug)]
pub struct PublicPost {
    pub title: String,
    pub body: String,
    pub author: i32,
    pub tags: Vec<String>,
    pub created_at: Timestamp,
    pub modified_at: Timestamp,
}

#[derive(Clone, Debug)]
pub struct ViewPostResponse {
    pub error: BlogError,
    pub post: Option<PublicPost>,
}

#[derive(Clone, Debug, Default)]
pub struct DeletePostForm {
    pub id: i64,
}

#[derive(Clone, Debug)]
pub struct DeletePostResponse {
    pub error: BlogError,
}

#[derive(Clone, Debug)]
pub struct RecentPostsResponse {
    pub error: BlogError,
    pub posts: Vec<i64>,
}

#[derive(Clone, Debug, Default)]
pub struct EditPostForm {
    pub pk: i64,
    pub title: String,
    pub body: String,
    pub tag: Vec<String>,
}

#[derive(Clone, Debug)]
pub struct EditPostResponse {
    pub error: BlogError,
}

/// Address of the request for the account that holds `token`.
pub fn info_url(token: &str) -> (r: String)
    ensures
        r@ == API_ROOT@ + "/account_service/info?token="@ + token@,
{
    let mut out = String::new();
    out.append(API_ROOT);
    out.append("/account_service/info?token=");
    out.append(token);
    out
}

/// Address of the request for the account with key `pk`.
pub fn user_url(pk: i32) -> (r: String)
    ensures
        r@ == API_ROOT@ + "/account_service/get_user?pk="@ + decimal_of(pk as int),
{
    let digits = decimal_text(pk as i64);
    let mut out = String::new();
    out.append(API_ROOT);
    out.append("/account_service/get_user?pk=");
    out.append(digits.as_str());
    out
}

/// Address of the request for the keys of the `count` most recent posts.
pub fn recent_posts_url(count: i64) -> (r: String)
    ensures
        r@ == API_ROOT@ + "/blog/recent_posts?count="@ + decimal_of(count as int),
{
    let digits = decimal_text(count);
    let mut out = String::new();
    out.append(API_ROOT);
    out.append("/blog/recent_posts?count=");
    out.append(digits.as_str());
    out
}

} // verus!
