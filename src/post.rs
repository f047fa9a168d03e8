//! The decisions of the post pages: checking and building the post forms, reading
//! the tag field, showing tags, following service errors, access and paging.
use crate::api::{AccountError, AccountLevel, BlogError, EditPostForm, InfoResponse, NewPostForm};
use crate::math_span::views_of;
use crate::text::{chars_of, find_char, lemma_next_char, next_char};
use vstd::prelude::*;

verus! {

/// The comma-separated fields of `s` from `start` on; a text without commas is one field.
pub open spec fn fields_from(s: Seq<char>, start: int) -> Seq<Seq<char>>
    decreases s.len() - start,
{
    if start < 0 || start > s.len() {
        seq![]
    } else {
        let i = next_char(s, ',', start);
        if i >= s.len() {
            seq![s.subrange(start, s.len() as int)]
        } else {
            proof {
                lemma_next_char(s, ',', start);
            }
            seq![s.subrange(start, i)] + fields_from(s, i + 1)
        }
    }
}

/// `s` with its spaces removed.
pub open spec fn without_spaces(s: Seq<char>) -> Seq<char>
    decreases s.len(),
{
    if s.len() == 0 {
        seq![]
    } else if s.last() == ' ' {
        without_spaces(s.drop_last())
    } else {
        without_spaces(s.drop_last()).push(s.last())
    }
}

/// The tags that a tag field names: its comma-separated fields, spaces removed.
pub open spec fn tag_list(s: Seq<char>) -> Seq<Seq<char>> {
    fields_from(s, 0).map_values(|f: Seq<char>| without_spaces(f))
}

/// Why a post with these fields is refused, if it is: an empty title, an empty body,
/// or a tag field that is not ASCII, checked in that order.
pub open spec fn post_check(title: Seq<char>, body: Seq<char>, tags: Seq<char>) -> Option<BlogError> {
    if title.len() == 0 {
        Some(BlogError::TooShortTitle)
    } else if body.len() == 0 {
        Some(BlogError::TooShortBody)
    } else if !vstd::utf8::is_ascii_chars(tags) {
        Some(BlogError::InvalidTags)
    } else {
        None
    }
}

/// The tags joined by `, `, each after a `#`.
pub open spec fn hash_list(ts: Seq<Seq<char>>) -> Seq<char>
    decreases ts.len(),
{
    if ts.len() == 0 {
        seq![]
    } else if ts.len() == 1 {
        "#"@ + ts[0]
    } else {
        hash_list(ts.drop_last()) + ", #"@ + ts.last()
    }
}

/// The tag line of a post preview: `NO TAGS` where the list would show a bare `#`.
pub open spec fn tags_line(ts: Seq<Seq<char>>) -> Seq<char> {
    if hash_list(ts) == "#"@ {
        "NO TAGS"@
    } else {
        hash_list(ts)
    }
}

/// The tags joined by commas, as the tag field shows them.
pub open spec fn joined(ts: Seq<Seq<char>>) -> Seq<char>
    decreases ts.len(),
{
    if ts.len() == 0 {
        seq![]
    } else if ts.len() == 1 {
        ts[0]
    } else {
        joined(ts.drop_last()) + ","@ + ts.last()
    }
}

/// The characters of `cs[from..to]` that are not spaces.
fn copy_without_spaces(text: &str, cs: &Vec<char>, from: usize, to: usize) -> (r: String)
    requires
        cs@ == text@,
        from <= to <= cs.len(),
    ensures
        r@ == without_spaces(cs@.subrange(from as int, to as int)),
{
    let mut out = String::new();
    let mut i = from;
    assert(cs@.subrange(from as int, from as int).len() == 0);
    while i < to
        invariant
            cs@ == text@,
            from <= i <= to <= cs.len(),
            out@ == without_spaces(cs@.subrange(from as int, i as int)),
        decreases to - i,
    {
        let ghost piece = cs@.subrange(from as int, i + 1);
        assert(piece.drop_last() =~= cs@.subrange(from as int, i as int));
        assert(piece.last() == cs@[i as int]);
        if cs[i] != ' ' {
            let c = text.substring_char(i, i + 1);
            assert(c@ =~= seq![cs@[i as int]]);
            out.append(c);
        }
        i = i + 1;
    }
    out
}

/// The tags that the tag field `tags` names: split at commas, spaces removed.
pub fn split_tags(tags: &str) -> (r: Vec<String>)
    ensures
        views_of(r@) == tag_list(tags@),
{
    let cs = chars_of(tags);
    let n = cs.len();
    let mut r: Vec<String> = Vec::new();
    let mut start: usize = 0;
    let ghost ws = |f: Seq<char>| without_spaces(f);
    assert(views_of(r@) + fields_from(cs@, 0).map_values(ws) =~= tag_list(cs@));
    loop
        invariant
            cs@ == tags@,
            n == cs.len(),
            start <= n,
            ws == (|f: Seq<char>| without_spaces(f)),
            views_of(r@) + fields_from(cs@, start as int).map_values(ws) == tag_list(cs@),
        decreases n - start,
    {
        let i = find_char(&cs, ',', start);
        let field = copy_without_spaces(tags, &cs, start, i);
        let ghost before = views_of(r@);
        let ghost rest = fields_from(cs@, start as int);
        r.push(field);
        assert(views_of(r@) =~= before.push(field@));
        if i == n {
            assert(rest == seq![cs@.subrange(start as int, n as int)]);
            assert(views_of(r@) =~= before + rest.map_values(ws));
            return r;
        }
        assert(rest == seq![cs@.subrange(start as int, i as int)] + fields_from(cs@, i + 1));
        assert(views_of(r@) + fields_from(cs@, i + 1).map_values(ws) =~= before
            + rest.map_values(ws));
        start = i + 1;
    }
}

/// The tags as the tag field shows them, joined by commas.
pub fn join_tags(tags: &Vec<String>) -> (r: String)
    ensures
        r@ == joined(views_of(tags@)),
{
    let mut out = String::new();
    let mut i: usize = 0;
    while i < tags.len()
        invariant
            i <= tags.len(),
            out@ == joined(views_of(tags@).subrange(0, i as int)),
        decreases tags.len() - i,
    {
        let ghost ts = views_of(tags@).subrange(0, i + 1);
        assert(ts.drop_last() =~= views_of(tags@).subrange(0, i as int));
        if i > 0 {
            out.append(",");
        }
        out.append(tags[i].as_str());
        assert(out@ =~= joined(ts));
        i = i + 1;
    }
    assert(views_of(tags@).subrange(0, tags.len() as int) =~= views_of(tags@));
    out
}

/// The tag line of a post preview: `#a, #b`, or `NO TAGS` where that would be a bare `#`.
pub fn tags_label(tags: &Vec<String>) -> (r: String)
    ensures
        r@ == tags_line(views_of(tags@)),
{
    let mut out = String::new();
    let mut i: usize = 0;
    while i < tags.len()
        invariant
            i <= tags.len(),
            out@ == hash_list(views_of(tags@).subrange(0, i as int)),
        decreases tags.len() - i,
    {
        let ghost ts = views_of(tags@).subrange(0, i + 1);
        assert(ts.drop_last() =~= views_of(tags@).subrange(0, i as int));
        if i > 0 {
            out.append(", #");
        } else {
            out.append("#");
        }
        out.append(tags[i].as_str());
        assert(out@ =~= hash_list(ts));
        i = i + 1;
    }
    assert(views_of(tags@).subrange(0, tags.len() as int) =~= views_of(tags@));
    let bare = "#".to_string();
    if out == bare {
        "NO TAGS".to_string()
    } else {
        out
    }
}

/// The upper-case form of a text, as Unicode defines it.
pub uninterp spec fn uppercase_of(s: Seq<char>) -> Seq<char>;

/// Relies on `str::to_uppercase`: the result depends on the characters alone, and
/// the empty text stays empty.
#[verifier::external_body]
fn uppercase(s: &str) -> (r: String)
    ensures
        r@ == uppercase_of(s@),
        s@.len() == 0 ==> r@.len() == 0,
{
    s.to_uppercase()
}

/// The tag line of a full post: its tags in upper case, `#A, #B`, or `NO TAGS` where
/// that would be a bare `#`.
pub fn upper_tags_label(tags: &Vec<String>) -> (r: String)
    ensures
        r@ == tags_line(views_of(tags@).map_values(|t: Seq<char>| uppercase_of(t))),
        forall|i: int|
            0 <= i < tags.len() && #[trigger] tags@[i]@.len() == 0 ==> uppercase_of(tags@[i]@)
                == Seq::<char>::empty(),
{
    let mut upper: Vec<String> = Vec::new();
    for i in 0..tags.len()
        invariant
            views_of(upper@) == views_of(tags@).subrange(0, i as int).map_values(
                |t: Seq<char>| uppercase_of(t),
            ),
            forall|j: int|
                0 <= j < i && #[trigger] tags@[j]@.len() == 0 ==> uppercase_of(tags@[j]@)
                    == Seq::<char>::empty(),
    {
        let u = uppercase(tags[i].as_str());
        assert(tags@[i as int]@.len() == 0 ==> u@ =~= Seq::<char>::empty());
        let ghost before = views_of(upper@);
        upper.push(u);
        assert(views_of(upper@) =~= before.push(u@));
        assert(views_of(upper@) =~= views_of(tags@).subrange(0, i + 1).map_values(
            |t: Seq<char>| uppercase_of(t),
        ));
    }
    assert(views_of(tags@).subrange(0, tags.len() as int) =~= views_of(tags@));
    tags_label(&upper)
}

/// Whether two account records describe the same account, field by field; a post's
/// author sees the edit and delete buttons only when this holds of the signed-in account.
pub fn same_account(a: &InfoResponse, b: &InfoResponse) -> (r: bool)
    ensures
        r == (a.pk == b.pk && a.username@ == b.username@ && a.nickname@ == b.nickname@
            && a.email@ == b.email@ && a.level == b.level),
{
    a.pk == b.pk && a.username == b.username && a.nickname == b.nickname && a.email == b.email
        && a.level == b.level
}

/// The form of a new post, or why it is refused.
pub fn new_post_form(title: &str, body: &str, tags: &str) -> (r: Result<NewPostForm, BlogError>)
    ensures
        match post_check(title@, body@, tags@) {
            Some(e) => r == Err::<NewPostForm, BlogError>(e),
            None => r is Ok && r->Ok_0.title@ == title@ && r->Ok_0.body@ == body@
                && views_of(r->Ok_0.tag@) == tag_list(tags@),
        },
{
    if title.is_empty() {
        Err(BlogError::TooShortTitle)
    } else if body.is_empty() {
        Err(BlogError::TooShortBody)
    } else if !tags.is_ascii() {
        Err(BlogError::InvalidTags)
    } else {
        Ok(NewPostForm { title: title.to_string(), body: body.to_string(), tag: split_tags(tags) })
    }
}

/// The form that edits the post `pk`, or why it is refused.
pub fn edit_post_form(pk: i64, title: &str, body: &str, tags: &str) -> (r: Result<
    EditPostForm,
    BlogError,
>)
    ensures
        match post_check(title@, body@, tags@) {
            Some(e) => r == Err::<EditPostForm, BlogError>(e),
            None => r is Ok && r->Ok_0.pk == pk && r->Ok_0.title@ == title@ && r->Ok_0.body@
                == body@ && views_of(r->Ok_0.tag@) == tag_list(tags@),
        },
{
    if title.is_empty() {
        Err(BlogError::TooShortTitle)
    } else if body.is_empty() {
        Err(BlogError::TooShortBody)
    } else if !tags.is_ascii() {
        Err(BlogError::InvalidTags)
    } else {
        Ok(
            EditPostForm {
                pk,
                title: title.to_string(),
                body: body.to_string(),
                tag: split_tags(tags),
            },
        )
    }
}

/// The error that a page shows after a post service answered: a missing body is a
/// network error, an error in the body replaces the shown one, and `Nothing` keeps it.
pub fn blog_error_after(shown: BlogError, body: Option<BlogError>) -> (r: BlogError)
    ensures
        r == match body {
            None => BlogError::NetworkError,
            Some(BlogError::Nothing) => shown,
            Some(e) => e,
        },
{
    match body {
        None => BlogError::NetworkError,
        Some(BlogError::Nothing) => shown,
        Some(e) => e,
    }
}

/// The error that a page shows after an account service answered, by the same rule.
pub fn account_error_after(shown: AccountError, body: Option<AccountError>) -> (r: AccountError)
    ensures
        r == match body {
            None => AccountError::NetworkError,
            Some(AccountError::Nothing) => shown,
            Some(e) => e,
        },
{
    match body {
        None => AccountError::NetworkError,
        Some(AccountError::Nothing) => shown,
        Some(e) => e,
    }
}

/// Whether the account `user_pk` wrote a post of author `author`; authors are kept
/// as 32-bit keys, so the account key is compared in its low 32 bits.
pub fn may_edit_post(author: i32, user_pk: i64) -> (r: bool)
    ensures
        r == (author == user_pk as i32),
{
    author == #[verifier::truncate] (user_pk as i32)
}

/// Whether an account of this level may write new posts: only administrators may.
pub fn may_create_post(level: AccountLevel) -> (r: bool)
    ensures
        r == (level == AccountLevel::Admin),
{
    level == AccountLevel::Admin
}

/// The page after `page` in a list of `count` posts shown `per_page` at a time, if
/// that page shows any post.
pub fn next_page(page: i64, count: i64, per_page: i64) -> (r: Option<i64>)
    requires
        page < i64::MAX,
    ensures
        r == (if (page + 1) * per_page < count {
            Some((page + 1) as i64)
        } else {
            None
        }),
{
    proof {
        let a = page as int + 1;
        let b = per_page as int;
        assert(-0x4000_0000_0000_0000_0000_0000_0000_0000 <= a * b <= 0x4000_0000_0000_0000_0000_0000_0000_0000)
            by (nonlinear_arith)
            requires
                -0x8000_0000_0000_0000 <= a <= 0x8000_0000_0000_0000,
                -0x8000_0000_0000_0000 <= b <= 0x8000_0000_0000_0000,
        {
        }
    }
    let first = (page as i128 + 1) * (per_page as i128);
    if first < count as i128 {
        Some(page + 1)
    } else {
        None
    }
}

/// The page before `page`, if there is one.
pub fn previous_page(page: i64) -> (r: Option<i64>)
    ensures
        r == (if page > 0 {
            Some((page - 1) as i64)
        } else {
            None
        }),
{
    if page > 0 {
        Some(page - 1)
    } else {
        None
    }
}

} // verus!
