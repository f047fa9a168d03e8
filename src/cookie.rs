//! The cookie that holds the session token: what to write to `document.cookie` to
//! store or remove it, and how to read it back from `document.cookie`.
use crate::text::{
    chars_of, decimal_of, decimal_text, find_char, lemma_next_char, lemma_prefix_next_char, next_char,
};
use vstd::prelude::*;

verus! {

/// Seconds in a day.
pub const SECONDS_PER_DAY: i32 = 86400;

/// Builds and reads cookie strings; it holds no state.
#[derive(Clone, Copy)]
pub struct CookieService;

#[derive(Clone, Copy, PartialEq, Eq, Structural, Debug)]
pub enum CookieError {
    NotFound,
}

/// The assignment to `document.cookie` that stores `value` under `name` for `days`
/// days; a negative number of days removes the cookie.
pub open spec fn cookie_assignment(name: Seq<char>, value: Seq<char>, days: int) -> Seq<char> {
    name + "="@ + value + "; max-age="@ + decimal_of(days * 86400) + "; SameSite=Lax;"@
}

/// The first cookie of a `document.cookie` string: the text before the first `;`.
pub open spec fn first_cookie(cookies: Seq<char>) -> Seq<char> {
    cookies.subrange(0, next_char(cookies, ';', 0))
}

/// The value of a `name=value` pair: the text after the first `=` up to the next `=`
/// or the end; none when there is no `=`.
pub open spec fn pair_value(pair: Seq<char>) -> Option<Seq<char>> {
    let eq = next_char(pair, '=', 0);
    if eq >= pair.len() {
        None
    } else {
        Some(pair.subrange(eq + 1, next_char(pair, '=', eq + 1)))
    }
}

impl CookieService {
    pub fn new() -> Self {
        CookieService
    }

    /// The assignment that stores `value` under `name` for one day.
    pub fn set(&self, name: &str, value: &str) -> (r: String)
        ensures
            r@ == cookie_assignment(name@, value@, 1),
    {
        self.set_cookie(name, value, 1)
    }

    /// The value of the first cookie of `cookies`, a `document.cookie` string. As the
    /// session keeps a single cookie, the name does not select among them.
    pub fn get(&self, cookies: &str, _name: &str) -> (r: Result<String, CookieError>)
        ensures
            match pair_value(first_cookie(cookies@)) {
                Some(v) => r is Ok && r->Ok_0@ == v,
                None => r == Err::<String, CookieError>(CookieError::NotFound),
            },
    {
        let cs = chars_of(cookies);
        let end = find_char(&cs, ';', 0);
        proof {
            lemma_next_char(cs@, ';', 0);
        }
        let ghost first = first_cookie(cs@);
        let eq = find_char(&cs, '=', 0);
        proof {
            lemma_next_char(cs@, '=', 0);
            lemma_next_char(first, '=', 0);
            lemma_prefix_next_char(cs@, '=', end as int, 0);
        }
        if eq >= end {
            return Err(CookieError::NotFound);
        }
        let stop = find_char(&cs, '=', eq + 1);
        proof {
            lemma_next_char(cs@, '=', eq + 1);
            lemma_prefix_next_char(cs@, '=', end as int, eq + 1);
        }
        let stop = if stop < end {
            stop
        } else {
            end
        };
        let v = cookies.substring_char(eq + 1, stop);
        assert(v@ =~= first.subrange(eq + 1, next_char(first, '=', eq + 1)));
        Ok(v.to_string())
    }

    /// The assignment that removes the cookie `name`.
    pub fn remove(&self, name: &str) -> (r: String)
        ensures
            r@ == cookie_assignment(name@, ""@, -1),
    {
        self.set_cookie(name, "", -1)
    }

    fn set_cookie(&self, name: &str, value: &str, days: i32) -> (r: String)
        requires
            -24855 <= days <= 24855,
        ensures
            r@ == cookie_assignment(name@, value@, days as int),
    {
        let max_age = decimal_text((days * SECONDS_PER_DAY) as i64);
        let mut out = String::new();
        out.append(name);
        out.append("=");
        out.append(value);
        out.append("; max-age=");
        out.append(max_age.as_str());
        out.append("; SameSite=Lax;");
        out
    }
}

} // verus!
