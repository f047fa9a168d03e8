//! The post body pipeline: math spans first, then CommonMark with strikethrough.
use crate::math_span::{
    delimiters, extract_with, extracted, lemma_plain_text_unchanged, lemma_sequential_pairing,
    lemma_single_span, lemma_unpaired_last_delimiter, payload_list, payloads, views_of, DELIMITER,
};
use katex_wasmbind::KaTeXOptions;
use pulldown_cmark::{html, Options, Parser};
use vstd::prelude::*;

verus! {

/// The markup that KaTeX produces for a math notation in inline mode.
pub uninterp spec fn katex_inline_of(notation: Seq<char>) -> Seq<char>;

/// The HTML that pulldown-cmark produces for a CommonMark text with the
/// strikethrough extension enabled.
pub uninterp spec fn markdown_html_of(text: Seq<char>) -> Seq<char>;

/// Relies on katex_wasmbind's `KaTeXOptions::inline_mode` and `KaTeXOptions::render`:
/// the markup depends on the notation alone; a malformed notation gives error markup.
/// KaTeX is a JavaScript library reached through wasm-bindgen imports, so the call
/// returns only inside a JavaScript host (wasm32 in a browser); on any other target
/// wasm-bindgen's import stubs panic. This library is meant to run in that host.
#[verifier::external_body]
fn render_math(notation: &str) -> (r: String)
    ensures
        r@ == katex_inline_of(notation@),
{
    KaTeXOptions::inline_mode().render(notation)
}

/// Relies on pulldown_cmark's `Parser::new_ext` and `html::push_html`: the HTML
/// depends on the text alone, and raw inline markup passes through unescaped.
#[verifier::external_body]
fn markdown_to_html(text: &str) -> (r: String)
    ensures
        r@ == markdown_html_of(text@),
{
    let mut options = Options::empty();
    options.insert(Options::ENABLE_STRIKETHROUGH);
    let mut out = String::new();
    html::push_html(&mut out, Parser::new_ext(text, options));
    out
}

/// The rendered markup of each payload.
pub open spec fn rendered_math(ps: Seq<Seq<char>>) -> Seq<Seq<char>> {
    ps.map_values(|p: Seq<char>| katex_inline_of(p))
}

/// `text` with each math span replaced by its rendered markup, in document order.
pub open spec fn extract_spec(text: Seq<char>) -> Seq<char> {
    extracted(text, rendered_math(payloads(text)))
}

/// A text without delimiters makes no renderer call and passes the extraction
/// unchanged, so rendering it is converting it.
pub proof fn lemma_plain_text_render(s: Seq<char>)
    requires
        forall|i: int| 0 <= i < s.len() ==> s[i] != DELIMITER,
    ensures
        rendered_math(payloads(s)).len() == 0,
        extract_spec(s) == s,
        markdown_html_of(extract_spec(s)) == markdown_html_of(s),
{
    lemma_plain_text_unchanged(s, rendered_math(payloads(s)));
}

/// With exactly two delimiters, at `i` and `j`, the one payload `s[i+1..j]` is
/// rendered once, and its markup stands in place of `s[i..=j]` between the text
/// before `i` and the text after `j`.
pub proof fn lemma_single_span_render(s: Seq<char>, i: int, j: int)
    requires
        0 <= i,
        i + 1 < j < s.len(),
        s[i] == DELIMITER,
        s[j] == DELIMITER,
        forall|k: int| 0 <= k < s.len() && k != i && k != j ==> s[k] != DELIMITER,
    ensures
        rendered_math(payloads(s)) == seq![katex_inline_of(s.subrange(i + 1, j))],
        extract_spec(s) == s.subrange(0, i) + katex_inline_of(s.subrange(i + 1, j)) + s.subrange(
            j + 1,
            s.len() as int,
        ),
{
    let frags = rendered_math(payloads(s));
    lemma_single_span(s, i, j, frags);
    assert(frags =~= seq![katex_inline_of(s.subrange(i + 1, j))]);
}

/// The renderer is called once per pair of delimiters, first with second, third
/// with fourth, in order: with `2k` or `2k + 1` delimiters there are `k` calls, the
/// `i`-th on the text strictly between delimiters `2i` and `2i + 1`.
pub proof fn lemma_renderer_calls(s: Seq<char>)
    ensures
        rendered_math(payloads(s)).len() == delimiters(s).len() / 2,
        forall|i: int|
            0 <= i < delimiters(s).len() / 2 ==> #[trigger] rendered_math(payloads(s))[i]
                == katex_inline_of(s.subrange(delimiters(s)[2 * i] + 1, delimiters(s)[2 * i + 1])),
{
    lemma_sequential_pairing(s);
}

/// With an odd number of delimiters the last one is dropped and the text after it is
/// kept as literal text, never rendered: the result is that of the text before it,
/// followed by the text after it.
pub proof fn lemma_unpaired_render(s: Seq<char>)
    requires
        delimiters(s).len() % 2 == 1,
    ensures
        extract_spec(s) == extract_spec(s.subrange(0, delimiters(s).last())) + s.subrange(
            delimiters(s).last() + 1,
            s.len() as int,
        ),
{
    lemma_unpaired_last_delimiter(s, rendered_math(payloads(s)));
}

/// Replaces each math span of `text` by the markup that the math renderer gives for
/// its payload; one renderer call per span, in document order. A text with a pair of
/// delimiters calls KaTeX, which returns only inside a JavaScript host (wasm32 in a
/// browser).
pub fn extract(text: &str) -> (r: String)
    ensures
        r@ == extract_spec(text@),
{
    let ps = payload_list(text);
    let mut fragments: Vec<String> = Vec::new();
    for i in 0..ps.len()
        invariant
            views_of(ps@) == payloads(text@),
            views_of(fragments@) == rendered_math(views_of(ps@)).subrange(0, i as int),
    {
        let f = render_math(ps[i].as_str());
        let ghost before = views_of(fragments@);
        fragments.push(f);
        assert(views_of(fragments@) =~= before.push(f@));
        assert(views_of(fragments@) =~= rendered_math(views_of(ps@)).subrange(0, i + 1));
    }
    assert(views_of(fragments@) =~= rendered_math(payloads(text@)));
    extract_with(text, &fragments)
}

/// Converts a CommonMark text with strikethrough to HTML; raw inline markup, such as
/// the fragments that `extract` inserts, passes through.
pub fn convert(text: &str) -> (r: String)
    ensures
        r@ == markdown_html_of(text@),
{
    markdown_to_html(text)
}

/// Renders a post body to HTML: math spans first, then the structured markup. A body
/// with a pair of delimiters calls KaTeX, which returns only inside a JavaScript host
/// (wasm32 in a browser).
pub fn render(input: String) -> (r: String)
    ensures
        r@ == markdown_html_of(extract_spec(input@)),
{
    let body = extract(input.as_str());
    convert(body.as_str())
}

} // verus!
