//! Escaping primitives: markup escaping for text and attribute values, and
//! the extra apostrophe hardening applied to text content.
use vstd::prelude::*;

verus! {

/// The character sequence a single character contributes to escaped markup:
/// `&`, `<` and `>` become their entity sequences, all else passes through.
pub open spec fn escape_char(c: char) -> Seq<char> {
    if c == '&' {
        "&amp;"@
    } else if c == '<' {
        "&lt;"@
    } else if c == '>' {
        "&gt;"@
    } else {
        seq![c]
    }
}

/// Markup escaping of a whole string: the concatenation of each character's
/// escape sequence. Used both for text content and for attribute values.
pub open spec fn escape_markup(s: Seq<char>) -> Seq<char>
    decreases s.len(),
{
    if s.len() == 0 {
        Seq::empty()
    } else {
        escape_markup(s.drop_last()) + escape_char(s.last())
    }
}

/// The extra hardening step for text content: a literal apostrophe becomes
/// `&#x27;`, all other characters pass through.
pub open spec fn apos_entity(c: char) -> Seq<char> {
    if c == '\'' {
        "&#x27;"@
    } else {
        seq![c]
    }
}

/// Apostrophe substitution over a whole string.
pub open spec fn escape_apos(s: Seq<char>) -> Seq<char>
    decreases s.len(),
{
    if s.len() == 0 {
        Seq::empty()
    } else {
        escape_apos(s.drop_last()) + apos_entity(s.last())
    }
}

/// Relies on `html_escape::encode_text`: it replaces every `&` with `&amp;`,
/// every `<` with `&lt;` and every `>` with `&gt;`, and leaves every other
/// character unchanged.
#[verifier::external_body]
pub(crate) fn encode_markup(s: &str) -> (r: String)
    ensures
        r@ == escape_markup(s@),
{
    html_escape::encode_text(s).into_owned()
}

/// Replaces every apostrophe in `s` with `&#x27;`, leaving all other
/// characters unchanged.
pub(crate) fn replace_apostrophes(s: &str) -> (r: String)
    ensures
        r@ == escape_apos(s@),
{
    let n = s.unicode_len();
    let mut out = String::new();
    let mut i: usize = 0;
    while i < n
        invariant
            n == s@.len(),
            i <= n,
            out@ == escape_apos(s@.subrange(0, i as int)),
        decreases n - i,
    {
        let c = s.get_char(i);
        if c == '\'' {
            out.append("&#x27;");
        } else {
            let piece = s.substring_char(i, i + 1);
            out.append(piece);
        }
        proof {
            let pre = s@.subrange(0, i as int);
            let ext = s@.subrange(0, i + 1);
            assert(ext.drop_last() =~= pre);
            assert(ext.last() == s@[i as int]);
            assert(s@.subrange(i as int, i + 1) =~= seq![s@[i as int]]);
        }
        i += 1;
    }
    proof {
        assert(s@.subrange(0, n as int) =~= s@);
    }
    out
}

/// Escapes a string for use as text content of a text node: markup escaping
/// followed by the apostrophe substitution.
pub(crate) fn encode_text_content(s: &str) -> (r: String)
    ensures
        r@ == escape_apos(escape_markup(s@)),
{
    let escaped = encode_markup(s);
    replace_apostrophes(escaped.as_str())
}

/// Holds when position `i` of `t` starts one of the entity sequences that
/// markup escaping produces.
pub open spec fn entity_at(t: Seq<char>, i: int) -> bool {
    ||| (i + 5 <= t.len() && t.subrange(i, i + 5) == "&amp;"@)
    ||| (i + 4 <= t.len() && t.subrange(i, i + 4) == "&lt;"@)
    ||| (i + 4 <= t.len() && t.subrange(i, i + 4) == "&gt;"@)
}

proof fn lemma_escape_apos_clean(s: Seq<char>)
    requires
        forall|j: int| 0 <= j < s.len() ==> s[j] != '<' && s[j] != '>',
    ensures
        forall|i: int|
            0 <= i < escape_apos(s).len() ==> escape_apos(s)[i] != '<' && escape_apos(s)[i] != '>'
                && escape_apos(s)[i] != '\'',
    decreases s.len(),
{
    reveal_strlit("&#x27;");
    if s.len() == 0 {
    } else {
        let pre = escape_apos(s.drop_last());
        let tail = apos_entity(s.last());
        lemma_escape_apos_clean(s.drop_last());
        assert forall|i: int| 0 <= i < escape_apos(s).len() implies escape_apos(s)[i] != '<'
            && escape_apos(s)[i] != '>' && escape_apos(s)[i] != '\'' by {
            if i < pre.len() {
                assert(escape_apos(s)[i] == pre[i]);
            } else {
                assert(escape_apos(s)[i] == tail[i - pre.len()]);
                if s.last() == '\'' {
                    assert(tail =~= "&#x27;"@);
                } else {
                    assert(tail =~= seq![s.last()]);
                }
            }
        }
    }
}

/// Law: the fully escaped content of a text node, markup escaping followed
/// by the apostrophe substitution, carries no literal `<`, `>` or `'` at
/// all, whatever the input was.
pub proof fn lemma_text_content_escaped(s: Seq<char>)
    ensures
        forall|i: int|
            0 <= i < escape_apos(escape_markup(s)).len() ==> escape_apos(escape_markup(s))[i]
                != '<' && escape_apos(escape_markup(s))[i] != '>' && escape_apos(
                escape_markup(s),
            )[i] != '\'',
{
    lemma_escape_markup_no_raw_markup(s);
    lemma_escape_apos_clean(escape_markup(s));
}

/// Law: escaped markup contains no literal `<` or `>` at all, and every `&`
/// in it begins one of the entity sequences `&amp;`, `&lt;` or `&gt;`.
pub proof fn lemma_escape_markup_no_raw_markup(s: Seq<char>)
    ensures
        forall|i: int|
            0 <= i < escape_markup(s).len() ==> escape_markup(s)[i] != '<' && escape_markup(s)[i]
                != '>',
        forall|i: int|
            0 <= i < escape_markup(s).len() && escape_markup(s)[i] == '&' ==> entity_at(
                escape_markup(s),
                i,
            ),
    decreases s.len(),
{
    reveal_strlit("&amp;");
    reveal_strlit("&lt;");
    reveal_strlit("&gt;");
    if s.len() == 0 {
    } else {
        let pre = escape_markup(s.drop_last());
        let tail = escape_char(s.last());
        let whole = escape_markup(s);
        lemma_escape_markup_no_raw_markup(s.drop_last());
        assert(whole == pre + tail);
        assert forall|i: int| 0 <= i < whole.len() implies whole[i] != '<' && whole[i]
            != '>' by {
            if i < pre.len() {
                assert(whole[i] == pre[i]);
            } else {
                assert(whole[i] == tail[i - pre.len()]);
            }
        }
        assert forall|i: int| 0 <= i < whole.len() && whole[i] == '&' implies entity_at(
            whole,
            i,
        ) by {
            if i < pre.len() {
                assert(pre[i] == '&');
                assert(entity_at(pre, i));
                if i + 5 <= pre.len() && pre.subrange(i, i + 5) == "&amp;"@ {
                    assert(whole.subrange(i, i + 5) =~= pre.subrange(i, i + 5));
                } else if i + 4 <= pre.len() && pre.subrange(i, i + 4) == "&lt;"@ {
                    assert(whole.subrange(i, i + 4) =~= pre.subrange(i, i + 4));
                } else {
                    assert(whole.subrange(i, i + 4) =~= pre.subrange(i, i + 4));
                }
            } else {
                let j = i - pre.len();
                assert(whole[i] == tail[j]);
                if s.last() == '&' {
                    assert(tail =~= "&amp;"@);
                    assert(j == 0);
                    assert(whole.subrange(i, i + 5) =~= tail);
                } else if s.last() == '<' {
                    assert(tail =~= "&lt;"@);
                    assert(j == 0);
                    assert(whole.subrange(i, i + 4) =~= tail);
                } else if s.last() == '>' {
                    assert(tail =~= "&gt;"@);
                    assert(j == 0);
                    assert(whole.subrange(i, i + 4) =~= tail);
                } else {
                    assert(tail =~= seq![s.last()]);
                }
            }
        }
    }
}

} // verus!
