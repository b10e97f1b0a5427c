//! Sanitizers for operator-supplied CSS and HTML theme slots.
//!
//! Both sanitizers work line by line (CSS) or tag by tag (HTML) and drop the
//! whole unit when it holds a dangerous construct; everything else is copied
//! through unchanged. The decisions are made on the Unicode lowercase of the
//! unit, as `str::to_lowercase` computes it.
use vstd::prelude::*;

use crate::text::{
    chars_eq, chars_of, contains_chars, contains_char, contains_seq, has_prefix, is_whitespace,
    is_whitespace_char, lowercase_of, push_char, push_chars, starts_with, string_from,
    strip_end_all, strip_end_matches, strip_start_all, strip_start_matches, to_lowercase, trim,
    trim_chars,
};

verus! {

// ---------------------------------------------------------------------------
// CSS
// ---------------------------------------------------------------------------

/// A CSS line (trimmed and lowercased) that must be dropped: an `@import`
/// rule, or one holding `url(`, `javascript:`, `expression(` or `behavior:`.
pub open spec fn css_line_dangerous(lowered: Seq<char>) -> bool {
    ||| has_prefix(lowered, "@import"@)
    ||| contains_seq(lowered, "url("@)
    ||| contains_seq(lowered, "javascript:"@)
    ||| contains_seq(lowered, "expression("@)
    ||| contains_seq(lowered, "behavior:"@)
}

/// The output for one line: the line and a newline, or nothing when the
/// line is dangerous.
pub open spec fn css_emit(line: Seq<char>) -> Seq<char> {
    if css_line_dangerous(lowercase_of(trim(line))) {
        Seq::empty()
    } else {
        line.push('\n')
    }
}

/// A line ended by `\n` loses one trailing `\r`, as `str::lines` does.
pub open spec fn strip_cr(line: Seq<char>) -> Seq<char> {
    if line.len() > 0 && line.last() == '\r' {
        line.drop_last()
    } else {
        line
    }
}

/// Sanitized output of the text `s` when the current, unfinished line so far
/// is `cur`. Lines are split as `str::lines` splits them: at `\n`, with a
/// `\r` before the `\n` dropped, and no empty final line after a trailing
/// newline.
pub open spec fn css_from(cur: Seq<char>, s: Seq<char>) -> Seq<char>
    decreases s.len(),
{
    if s.len() == 0 {
        if cur.len() == 0 {
            Seq::empty()
        } else {
            css_emit(cur)
        }
    } else if s[0] == '\n' {
        css_emit(strip_cr(cur)) + css_from(Seq::empty(), s.drop_first())
    } else {
        css_from(cur.push(s[0]), s.drop_first())
    }
}

/// The sanitized stylesheet.
pub open spec fn sanitize_css_spec(css: Seq<char>) -> Seq<char> {
    css_from(Seq::empty(), css)
}

/// Decides whether one trimmed, lowercased CSS line must be dropped.
pub fn css_line_is_dangerous(lowered: &str) -> (b: bool)
    ensures
        b == css_line_dangerous(lowered@),
{
    let l = chars_of(lowered);
    let import = chars_of("@import");
    let url = chars_of("url(");
    let js = chars_of("javascript:");
    let expr = chars_of("expression(");
    let behavior = chars_of("behavior:");
    starts_with(l.as_slice(), import.as_slice()) || contains_chars(l.as_slice(), url.as_slice())
        || contains_chars(l.as_slice(), js.as_slice()) || contains_chars(
        l.as_slice(),
        expr.as_slice(),
    ) || contains_chars(l.as_slice(), behavior.as_slice())
}

fn emit_css_line(out: &mut String, line: &Vec<char>)
    ensures
        final(out)@ == old(out)@ + css_emit(line@),
{
    let trimmed = trim_chars(line.as_slice());
    let lowered = to_lowercase(string_from(trimmed.as_slice()).as_str());
    if !css_line_is_dangerous(lowered.as_str()) {
        push_chars(out, line.as_slice());
        push_char(out, '\n');
    }
}

/// Sanitize user-provided CSS: every line that, trimmed and lowercased,
/// starts with `@import` or holds `url(`, `javascript:`, `expression(` or
/// `behavior:` is dropped; every other line is kept, followed by `\n`.
pub fn sanitize_css(css: &str) -> (r: String)
    ensures
        r@ == sanitize_css_spec(css@),
{
    let s = chars_of(css);
    let n = s.len();
    let mut out = String::new();
    let mut cur: Vec<char> = Vec::new();
    let mut i: usize = 0;
    assert(s@.subrange(0, n as int) =~= s@);
    while i < n
        invariant
            n == s@.len(),
            s@ == css@,
            i <= n,
            out@ + css_from(cur@, s@.subrange(i as int, n as int)) == sanitize_css_spec(css@),
        decreases n - i,
    {
        let ghost rest = s@.subrange(i as int, n as int);
        assert(rest.drop_first() =~= s@.subrange(i + 1, n as int));
        let c = s[i];
        if c == '\n' {
            let ghost before = out@;
            let ghost old_cur = cur@;
            if cur.len() > 0 && cur[cur.len() - 1] == '\r' {
                cur.pop();
                assert(cur@ =~= old_cur.drop_last());
            }
            assert(cur@ == strip_cr(old_cur));
            emit_css_line(&mut out, &cur);
            assert(out@ + css_from(Seq::empty(), s@.subrange(i + 1, n as int)) =~= before + css_from(
                old_cur,
                rest,
            ));
            cur = Vec::new();
        } else {
            cur.push(c);
        }
        i += 1;
    }
    if cur.len() > 0 {
        emit_css_line(&mut out, &cur);
    }
    out
}

/// The complete stylesheet of the cloud UI: the theme's custom properties,
/// then the base styles, then the operator's custom CSS once sanitized.
pub fn generate_css(css_vars: &str, base_css: &str, custom_css: Option<&str>) -> (r: String)
    ensures
        r@ == css_vars@ + base_css@ + match custom_css {
            Some(c) => sanitize_css_spec(c@),
            None => Seq::empty(),
        },
{
    let mut css = String::from_str(css_vars);
    css.append(base_css);
    match custom_css {
        Some(c) => {
            let clean = sanitize_css(c);
            css.append(clean.as_str());
        },
        None => {},
    }
    css
}

// ---------------------------------------------------------------------------
// HTML
// ---------------------------------------------------------------------------

/// Separators ending a tag name.
pub open spec fn is_name_sep(c: char) -> bool {
    is_whitespace(c) || c == '>' || c == '/'
}

/// The leading run of `t` up to the first separator.
pub open spec fn leading_name(t: Seq<char>) -> Seq<char>
    decreases t.len(),
{
    if t.len() == 0 || is_name_sep(t[0]) {
        Seq::empty()
    } else {
        seq![t[0]] + leading_name(t.drop_first())
    }
}

/// The tag name of a lowercased tag: leading `<`s and then `/`s removed,
/// trimmed, cut at the first whitespace, `>` or `/`.
pub open spec fn tag_name(tag_lower: Seq<char>) -> Seq<char> {
    leading_name(trim(strip_start_all(strip_start_all(tag_lower, '<'), '/')))
}

/// An attribute word that installs an event handler: with leading `/`s and
/// trailing `>`s removed it starts with `on` and holds `=`.
pub open spec fn handler_word(word: Seq<char>) -> bool {
    let a = strip_end_all(strip_start_all(word, '/'), '>');
    has_prefix(a, "on"@) && a.contains('=')
}

/// Whether some whitespace-separated word of `s`, the current word so far
/// being `cur`, is a handler word (as `split_whitespace` cuts words).
pub open spec fn any_handler_word(cur: Seq<char>, s: Seq<char>) -> bool
    decreases s.len(),
{
    if s.len() == 0 {
        handler_word(cur)
    } else if is_whitespace(s[0]) {
        handler_word(cur) || any_handler_word(Seq::empty(), s.drop_first())
    } else {
        any_handler_word(cur.push(s[0]), s.drop_first())
    }
}

/// A lowercased tag that must be dropped: a `script`, `iframe`, `object` or
/// `embed` tag, one holding `javascript:` or `data:text/html`, or one with an
/// `on*=` event-handler attribute.
pub open spec fn html_tag_blocked(tag_lower: Seq<char>) -> bool {
    let name = tag_name(tag_lower);
    ||| name == "script"@
    ||| name == "iframe"@
    ||| name == "object"@
    ||| name == "embed"@
    ||| contains_seq(tag_lower, "javascript:"@)
    ||| contains_seq(tag_lower, "data:text/html"@)
    ||| any_handler_word(Seq::empty(), tag_lower)
}

pub open spec fn html_emit(tag: Seq<char>) -> Seq<char> {
    if html_tag_blocked(lowercase_of(tag)) {
        Seq::empty()
    } else {
        tag
    }
}

/// Sanitized output of `s`; `tag` is the tag being collected, if any. A tag
/// runs from `<` through the next `>` (or to the end of the input); text
/// outside tags is copied.
pub open spec fn html_from(tag: Option<Seq<char>>, s: Seq<char>) -> Seq<char>
    decreases s.len(),
{
    match tag {
        None => if s.len() == 0 {
            Seq::empty()
        } else if s[0] == '<' {
            html_from(Some(seq!['<']), s.drop_first())
        } else {
            seq![s[0]] + html_from(None, s.drop_first())
        },
        Some(t) => if s.len() == 0 {
            html_emit(t)
        } else if s[0] == '>' {
            html_emit(t.push('>')) + html_from(None, s.drop_first())
        } else {
            html_from(Some(t.push(s[0])), s.drop_first())
        },
    }
}

pub open spec fn sanitize_html_spec(html: Seq<char>) -> Seq<char> {
    html_from(None, html)
}

fn is_name_sep_char(c: char) -> (b: bool)
    ensures
        b == is_name_sep(c),
{
    is_whitespace_char(c) || c == '>' || c == '/'
}

fn leading_name_exec(t: &[char]) -> (r: Vec<char>)
    ensures
        r@ == leading_name(t@),
{
    let n = t.len();
    let mut r: Vec<char> = Vec::new();
    let mut i: usize = 0;
    assert(t@.subrange(0, n as int) =~= t@);
    while i < n && !is_name_sep_char(t[i])
        invariant
            n == t@.len(),
            i <= n,
            r@ + leading_name(t@.subrange(i as int, n as int)) == leading_name(t@),
        decreases n - i,
    {
        let ghost rest = t@.subrange(i as int, n as int);
        assert(rest.drop_first() =~= t@.subrange(i + 1, n as int));
        assert(rest[0] == t@[i as int]);
        let ghost before = r@;
        r.push(t[i]);
        assert(before + leading_name(rest) =~= r@ + leading_name(t@.subrange(i + 1, n as int)));
        i += 1;
    }
    proof {
        let rest = t@.subrange(i as int, n as int);
        if i < n {
            assert(rest[0] == t@[i as int]);
        }
        assert(r@ + leading_name(rest) =~= r@);
    }
    r
}

fn handler_word_exec(word: &Vec<char>) -> (b: bool)
    ensures
        b == handler_word(word@),
{
    let a = strip_end_matches(strip_start_matches(word.as_slice(), '/').as_slice(), '>');
    let on = chars_of("on");
    starts_with(a.as_slice(), on.as_slice()) && contains_char(a.as_slice(), '=')
}

fn any_handler_word_exec(s: &[char]) -> (b: bool)
    ensures
        b == any_handler_word(Seq::empty(), s@),
{
    let n = s.len();
    let mut found = false;
    let mut cur: Vec<char> = Vec::new();
    let mut i: usize = 0;
    assert(s@.subrange(0, n as int) =~= s@);
    while i < n
        invariant
            n == s@.len(),
            i <= n,
            any_handler_word(Seq::empty(), s@) == (found || any_handler_word(
                cur@,
                s@.subrange(i as int, n as int),
            )),
        decreases n - i,
    {
        let ghost rest = s@.subrange(i as int, n as int);
        assert(rest.drop_first() =~= s@.subrange(i + 1, n as int));
        assert(rest[0] == s@[i as int]);
        let c = s[i];
        if is_whitespace_char(c) {
            if handler_word_exec(&cur) {
                found = true;
            }
            cur = Vec::new();
        } else {
            cur.push(c);
        }
        i += 1;
    }
    found || handler_word_exec(&cur)
}

/// Decides whether one lowercased tag must be dropped.
pub fn html_tag_is_blocked(tag_lower: &str) -> (b: bool)
    ensures
        b == html_tag_blocked(tag_lower@),
{
    let t = chars_of(tag_lower);
    let t1 = strip_start_matches(t.as_slice(), '<');
    let t2 = strip_start_matches(t1.as_slice(), '/');
    let t3 = trim_chars(t2.as_slice());
    let name = leading_name_exec(t3.as_slice());
    let script = chars_of("script");
    let iframe = chars_of("iframe");
    let object = chars_of("object");
    let embed = chars_of("embed");
    let js = chars_of("javascript:");
    let data = chars_of("data:text/html");
    let blocked_name = chars_eq(name.as_slice(), script.as_slice()) || chars_eq(name.as_slice(), iframe.as_slice())
        || chars_eq(name.as_slice(), object.as_slice()) || chars_eq(name.as_slice(), embed.as_slice());
    blocked_name || contains_chars(t.as_slice(), js.as_slice()) || contains_chars(
        t.as_slice(),
        data.as_slice(),
    ) || any_handler_word_exec(t.as_slice())
}

fn emit_tag(out: &mut String, tag: &Vec<char>)
    ensures
        final(out)@ == old(out)@ + html_emit(tag@),
{
    let lowered = to_lowercase(string_from(tag.as_slice()).as_str());
    if !html_tag_is_blocked(lowered.as_str()) {
        push_chars(out, tag.as_slice());
    }
}

/// Sanitize user-provided HTML for slot fields: every tag (from `<` through
/// the next `>`) that, lowercased, is a `script`/`iframe`/`object`/`embed`
/// tag, holds `javascript:` or `data:text/html`, or carries an `on*=`
/// attribute is dropped; everything else is copied unchanged.
pub fn sanitize_html(html: &str) -> (r: String)
    ensures
        r@ == sanitize_html_spec(html@),
{
    let s = chars_of(html);
    let n = s.len();
    let mut out = String::new();
    let mut in_tag = false;
    let mut tag: Vec<char> = Vec::new();
    let mut i: usize = 0;
    assert(s@.subrange(0, n as int) =~= s@);
    while i < n
        invariant
            n == s@.len(),
            s@ == html@,
            i <= n,
            out@ + html_from(
                if in_tag {
                    Some(tag@)
                } else {
                    None
                },
                s@.subrange(i as int, n as int),
            ) == sanitize_html_spec(html@),
        decreases n - i,
    {
        let ghost rest = s@.subrange(i as int, n as int);
        assert(rest.drop_first() =~= s@.subrange(i + 1, n as int));
        assert(rest[0] == s@[i as int]);
        let c = s[i];
        if in_tag {
            tag.push(c);
            if c == '>' {
                emit_tag(&mut out, &tag);
                tag = Vec::new();
                in_tag = false;
            }
        } else if c == '<' {
            tag = Vec::new();
            tag.push('<');
            in_tag = true;
            assert(tag@ =~= seq!['<']);
        } else {
            push_char(&mut out, c);
        }
        i += 1;
    }
    if in_tag {
        emit_tag(&mut out, &tag);
    }
    out
}

/// A tag being collected: it opens with `<` and holds no `>` yet.
pub open spec fn open_tag(t: Seq<char>) -> bool {
    t.len() > 0 && t[0] == '<' && !t.contains('>')
}

/// Collecting a tag over `u` (no `>`) ends with the input, or at the `>`
/// that closes it.
proof fn lemma_tag_run(p: Seq<char>, u: Seq<char>, rest: Seq<char>)
    requires
        open_tag(p),
        !u.contains('>'),
    ensures
        html_from(Some(p), u) == html_emit(p + u),
        html_from(Some(p), u.push('>') + rest) == html_emit(p + u.push('>')) + html_from(None, rest),
    decreases u.len(),
{
    if u.len() == 0 {
        assert(p + u =~= p);
        assert((u.push('>') + rest).drop_first() =~= rest);
        assert(p + u.push('>') =~= p.push('>'));
    } else {
        let c = u[0];
        let u2 = u.drop_first();
        assert(!u2.contains('>')) by {
            if u2.contains('>') {
                let k = choose|k: int| 0 <= k < u2.len() && u2[k] == '>';
                assert(u[k + 1] == '>');
            }
        }
        assert(!p.push(c).contains('>')) by {
            if p.push(c).contains('>') {
                let k = choose|k: int| 0 <= k < p.push(c).len() && p.push(c)[k] == '>';
                if k < p.len() {
                    assert(p[k] == '>');
                } else {
                    assert(u[0] == '>');
                }
            }
        }
        lemma_tag_run(p.push(c), u2, rest);
        assert(p.push(c) + u2 =~= p + u);
        assert(p.push(c) + u2.push('>') =~= p + u.push('>'));
        assert((u.push('>') + rest).drop_first() =~= u2.push('>') + rest);
        assert((u.push('>') + rest)[0] == c);
    }
}

/// A kept tag re-reads as itself, then the rest as usual.
proof fn lemma_kept_tag(t: Seq<char>, rest: Seq<char>)
    requires
        open_tag(t),
        html_emit(t.push('>')) == t.push('>'),
    ensures
        html_from(None, t.push('>') + rest) == t.push('>') + html_from(None, rest),
{
    let u = t.drop_first();
    assert(!u.contains('>')) by {
        if u.contains('>') {
            let k = choose|k: int| 0 <= k < u.len() && u[k] == '>';
            assert(t[k + 1] == '>');
        }
    }
    lemma_tag_run(seq!['<'], u, rest);
    assert(seq!['<'] + u.push('>') =~= t.push('>'));
    assert((t.push('>') + rest).drop_first() =~= u.push('>') + rest);
    assert((t.push('>') + rest)[0] == '<');
}

/// An unterminated kept tag re-reads as itself.
proof fn lemma_kept_open_tag(t: Seq<char>)
    requires
        open_tag(t),
        html_emit(t) == t,
    ensures
        html_from(None, t) == t,
{
    let u = t.drop_first();
    assert(!u.contains('>')) by {
        if u.contains('>') {
            let k = choose|k: int| 0 <= k < u.len() && u[k] == '>';
            assert(t[k + 1] == '>');
        }
    }
    lemma_tag_run(seq!['<'], u, Seq::empty());
    assert(seq!['<'] + u =~= t);
}

proof fn lemma_html_from_idempotent_in_tag(t: Seq<char>, s: Seq<char>)
    requires
        open_tag(t),
    ensures
        html_from(None, html_from(Some(t), s)) == html_from(Some(t), s),
    decreases s.len(), 1int,
{
    if s.len() == 0 {
        if html_emit(t).len() == 0 {
            assert(html_emit(t) =~= Seq::<char>::empty());
        } else {
            lemma_kept_open_tag(t);
        }
    } else if s[0] == '>' {
        let rest = s.drop_first();
        lemma_html_from_idempotent(rest);
        let y = html_from(None, rest);
        if html_emit(t.push('>')).len() == 0 {
            assert(html_emit(t.push('>')) + y =~= y);
        } else {
            lemma_kept_tag(t, y);
        }
    } else {
        assert(!t.push(s[0]).contains('>')) by {
            if t.push(s[0]).contains('>') {
                let k = choose|k: int| 0 <= k < t.push(s[0]).len() && t.push(s[0])[k] == '>';
                if k < t.len() {
                    assert(t[k] == '>');
                }
            }
        }
        lemma_html_from_idempotent_in_tag(t.push(s[0]), s.drop_first());
    }
}

proof fn lemma_html_from_idempotent(s: Seq<char>)
    ensures
        html_from(None, html_from(None, s)) == html_from(None, s),
    decreases s.len(), 2int,
{
    if s.len() == 0 {
    } else if s[0] == '<' {
        assert(!seq!['<'].contains('>')) by {
            if seq!['<'].contains('>') {
                let k = choose|k: int| 0 <= k < 1 && seq!['<'][k] == '>';
            }
        }
        lemma_html_from_idempotent_in_tag(seq!['<'], s.drop_first());
    } else {
        let x = html_from(None, s.drop_first());
        lemma_html_from_idempotent(s.drop_first());
        let o = seq![s[0]] + x;
        assert(o[0] == s[0]);
        assert(o.drop_first() =~= x);
    }
}

/// Law: sanitizing is idempotent. Sanitized HTML sanitizes to itself: its
/// text holds no `<`, and every tag it keeps is read back whole and kept
/// again.
pub proof fn lemma_sanitize_html_idempotent(html: Seq<char>)
    ensures
        sanitize_html_spec(sanitize_html_spec(html)) == sanitize_html_spec(html),
{
    lemma_html_from_idempotent(html);
}

} // verus!
