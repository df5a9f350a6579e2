//! Turning the plain text of `history.xml` entries into Markdown.
use vstd::prelude::*;

use crate::text::{
    chars_of, ends_with, find_from, is_ws, occurs_at, find, find_first, find_ws_from, find_whitespace, join, lemma_find_from,
    lemma_find_ws_from, lemma_join_step, lines, lines_of, opt_int, push_all, push_range,
    starts_with, string_from_chars, sub_vec, trim, trim_chars,
};

verus! {

/// `http://`
pub open spec fn http_pat() -> Seq<char> {
    seq!['h', 't', 't', 'p', ':', '/', '/']
}

/// `https://`
pub open spec fn https_pat() -> Seq<char> {
    seq!['h', 't', 't', 'p', 's', ':', '/', '/']
}

/// `<a href="`
pub open spec fn anchor_pat() -> Seq<char> {
    seq!['<', 'a', ' ', 'h', 'r', 'e', 'f', '=', '"']
}

/// `</a>`
pub open spec fn close_pat() -> Seq<char> {
    seq!['<', '/', 'a', '>']
}

/// The earlier of two optional matches; on a tie the first one.
pub open spec fn earlier(a: Option<(int, bool)>, b: Option<(int, bool)>) -> Option<(int, bool)> {
    match (a, b) {
        (Some(x), Some(y)) => if y.0 < x.0 {
            Some(y)
        } else {
            Some(x)
        },
        (Some(x), None) => Some(x),
        (None, y) => y,
    }
}

/// A found index, tagged with whether it is an HTML anchor.
pub open spec fn tagged(o: Option<int>, is_anchor: bool) -> Option<(int, bool)> {
    match o {
        Some(i) => Some((i, is_anchor)),
        None => None,
    }
}

/// The next link in `s`: the first `http://`, `https://` or (when `anchors`) `<a href="`.
pub open spec fn next_link(s: Seq<char>, anchors: bool) -> Option<(int, bool)> {
    let h = tagged(find_first(s, http_pat()), false);
    let hs = tagged(find_first(s, https_pat()), false);
    let a = if anchors {
        tagged(find_first(s, anchor_pat()), true)
    } else {
        None
    };
    earlier(earlier(h, hs), a)
}

/// Punctuation that is not taken to end a bare URL.
pub open spec fn is_url_punct(c: char) -> bool {
    c == '.' || c == ',' || c == ';' || c == ':' || c == '!' || c == '?' || c == ')' || c == ']'
        || c == '}' || c == '\'' || c == '"'
}

/// `k` moved back over trailing punctuation of `r[..k]`.
pub open spec fn url_end(r: Seq<char>, k: int) -> int
    decreases k,
{
    if k > 0 && k <= r.len() && is_url_punct(r[k - 1]) {
        url_end(r, k - 1)
    } else {
        k
    }
}

/// `[text](url)`
pub open spec fn md_link(text: Seq<char>, url: Seq<char>) -> Seq<char> {
    seq!['['] + text + seq![']', '('] + url + seq![')']
}

/// What a bare URL at the start of `r` becomes, and how many characters it uses.
pub open spec fn url_step(r: Seq<char>) -> (Seq<char>, int) {
    let end = match find_ws_from(r, 0) {
        Some(e) => e,
        None => r.len() as int,
    };
    let ue = url_end(r, end);
    if ue > 0 {
        (md_link(r.take(ue), r.take(ue)), ue)
    } else {
        (r.take(1), 1)
    }
}

/// What an HTML anchor at the start of `r` becomes, and how many characters it uses.
pub open spec fn anchor_step(r: Seq<char>) -> (Seq<char>, int) {
    let fallback = (r.take(1), 1int);
    match find_first(r.skip(9), seq!['"']) {
        Some(q) => {
            let qa = q + 9;
            match find_first(r.skip(qa), seq!['>']) {
                Some(t) => {
                    let te = qa + t;
                    match find_first(r.skip(te + 1), close_pat()) {
                        Some(c) => {
                            let ce = te + 1 + c;
                            (md_link(r.subrange(te + 1, ce), r.subrange(9, qa)), ce + 4)
                        },
                        None => fallback,
                    }
                },
                None => fallback,
            }
        },
        None => fallback,
    }
}

proof fn lemma_url_end(r: Seq<char>, k: int)
    requires
        0 <= k <= r.len(),
    ensures
        0 <= url_end(r, k) <= k,
        forall|i: int| url_end(r, k) <= i < k ==> is_url_punct(#[trigger] r[i]),
        url_end(r, k) > 0 ==> !is_url_punct(r[url_end(r, k) - 1]),
    decreases k,
{
    if k > 0 && is_url_punct(r[k - 1]) {
        lemma_url_end(r, k - 1);
    }
}

proof fn lemma_no_ws_from(s: Seq<char>, i: int)
    requires
        0 <= i,
        find_ws_from(s, i) is None,
    ensures
        forall|k: int| i <= k < s.len() ==> !is_ws(#[trigger] s[k]),
    decreases s.len() - i,
{
    if i < s.len() {
        lemma_no_ws_from(s, i + 1);
    }
}

/// Punctuation that ends a sentence or closes a quote or bracket:
/// `. , ; : ! ? ) ] } ' "`.
pub open spec fn closing_punctuation(c: char) -> bool {
    ||| c == '.'
    ||| c == ','
    ||| c == ';'
    ||| c == ':'
    ||| c == '!'
    ||| c == '?'
    ||| c == ')'
    ||| c == ']'
    ||| c == '}'
    ||| c == '\''
    ||| c == '"'
}

/// A bare URL (text that starts with neither whitespace nor punctuation) becomes a
/// Markdown link whose text and target are the URL: the characters up to the next
/// whitespace, less the closing punctuation at their end (`http://a.com,` links
/// `http://a.com` and leaves the comma after the link). The URL never ends with such
/// punctuation, holds no whitespace, and all that is left before the whitespace is such
/// punctuation.
pub proof fn lemma_bare_url_leaves_trailing_punctuation(r: Seq<char>)
    requires
        r.len() > 0,
        !is_ws(r[0]),
        !closing_punctuation(r[0]),
    ensures
        ({
            let (em, n) = url_step(r);
            let end = match find_ws_from(r, 0) {
                Some(e) => e,
                None => r.len() as int,
            };
            &&& 1 <= n <= end <= r.len()
            &&& em == md_link(r.take(n), r.take(n))
            &&& !closing_punctuation(r[n - 1])
            &&& forall|k: int| 0 <= k < n ==> !is_ws(#[trigger] r[k])
            &&& forall|k: int| n <= k < end ==> closing_punctuation(#[trigger] r[k])
        }),
{
    let end = match find_ws_from(r, 0) {
        Some(e) => e,
        None => r.len() as int,
    };
    crate::text::lemma_find_ws_from(r, 0);
    if find_ws_from(r, 0) is None {
        lemma_no_ws_from(r, 0);
    }
    assert(end >= 1);
    lemma_url_end(r, end);
    let ue = url_end(r, end);
    if ue == 0 {
        assert(is_url_punct(r[0]));
    }
    assert(ue > 0);
}

/// `s` with its links written as Markdown links.
pub open spec fn md_urls(s: Seq<char>, anchors: bool) -> Seq<char>
    decreases s.len(),
{
    match next_link(s, anchors) {
        Some((start, is_anchor)) => if 0 <= start < s.len() {
            let r = s.skip(start);
            let (em, n) = if is_anchor {
                anchor_step(r)
            } else {
                url_step(r)
            };
            if 1 <= n <= r.len() {
                s.take(start) + em + md_urls(r.skip(n), anchors)
            } else {
                s
            }
        } else {
            s
        },
        None => s,
    }
}

/// A line of history text in Markdown: `- TITLE -` becomes bold, a leading `-`, `=`, `#`
/// or `>` is escaped, and links become Markdown links.
pub open spec fn md_line(l: Seq<char>) -> Seq<char> {
    if starts_with(l, seq!['-', ' ']) && ends_with(l.skip(2), seq![' ', '-']) {
        seq!['*', '*'] + md_urls(l.subrange(2, l.len() - 2), true) + seq!['*', '*']
    } else if l.len() > 0 && (l[0] == '-' || l[0] == '=' || l[0] == '#' || l[0] == '>') {
        seq!['\\'] + md_urls(l, true)
    } else {
        md_urls(l, true)
    }
}

proof fn lemma_absent_not_found(s: Seq<char>, p: Seq<char>, i: int)
    requires
        0 <= i,
        forall|k: int| 0 <= k ==> !occurs_at(s, k, p),
    ensures
        find_from(s, p, i) is None,
    decreases s.len() - i,
{
    if !(i + p.len() > s.len()) && !occurs_at(s, i, p) && i < s.len() {
        lemma_absent_not_found(s, p, i + 1);
    }
}

/// Text with no `http://`, no `https://` and no `<a href="` has no link to rewrite, and
/// stays as it is.
pub proof fn lemma_text_without_links_unchanged(s: Seq<char>, anchors: bool)
    requires
        forall|k: int| 0 <= k ==> !occurs_at(s, k, http_pat()),
        forall|k: int| 0 <= k ==> !occurs_at(s, k, https_pat()),
        forall|k: int| 0 <= k ==> !occurs_at(s, k, anchor_pat()),
    ensures
        md_urls(s, anchors) == s,
{
    lemma_absent_not_found(s, http_pat(), 0);
    lemma_absent_not_found(s, https_pat(), 0);
    lemma_absent_not_found(s, anchor_pat(), 0);
}

/// A title line `- TITLE -` becomes the title in bold, `**TITLE**` (its links rewritten);
/// any other line that starts with `-`, `=`, `#` or `>` gets a backslash before it, so
/// that Markdown shows the character as it is; other lines are only given their links.
pub proof fn lemma_line_markup(l: Seq<char>)
    ensures
        l.len() >= 4 && l[0] == '-' && l[1] == ' ' && l[l.len() - 2] == ' ' && l[l.len() - 1] == '-' ==> md_line(
            l,
        ) == seq!['*', '*'] + md_urls(l.subrange(2, l.len() - 2), true) + seq!['*', '*'],
        !(l.len() >= 4 && l[0] == '-' && l[1] == ' ' && l[l.len() - 2] == ' ' && l[l.len() - 1] == '-') && l.len()
            > 0 && (l[0] == '-' || l[0] == '=' || l[0] == '#' || l[0] == '>') ==> md_line(l)[0] == '\\'
            && md_line(l).drop_first() == md_urls(l, true),
        l.len() == 0 || !(l[0] == '-' || l[0] == '=' || l[0] == '#' || l[0] == '>') ==> md_line(l) == md_urls(
            l,
            true,
        ),
{
    if l.len() >= 4 && l[0] == '-' && l[1] == ' ' && l[l.len() - 2] == ' ' && l[l.len() - 1] == '-' {
        assert(l.take(2) =~= seq!['-', ' ']);
        assert(l.skip(2).skip(l.skip(2).len() - 2) =~= seq![' ', '-']);
    }
    if l.len() > 0 && (l[0] == '-' || l[0] == '=' || l[0] == '#' || l[0] == '>') {
        let e = seq!['\\'] + md_urls(l, true);
        assert(e.drop_first() =~= md_urls(l, true));
    }
}

/// The Markdown for a history text: its trimmed lines, each turned by `line_fn`, joined by
/// newlines.
pub open spec fn md_text_with(text: Seq<char>, line_fn: spec_fn(Seq<char>) -> Seq<char>) -> Seq<char> {
    join(lines(trim(text)).map_values(line_fn), seq!['\n'])
}

/// The line conversion of `markdown_from_history_text`.
pub open spec fn md_line_fn() -> spec_fn(Seq<char>) -> Seq<char> {
    |l: Seq<char>| md_line(l)
}

/// The Markdown that `markdown_from_history_text` gives for `text`.
pub open spec fn md_text(text: Seq<char>) -> Seq<char> {
    md_text_with(text, md_line_fn())
}

fn http_vec() -> (r: Vec<char>)
    ensures
        r@ == http_pat(),
{
    let r = vec!['h', 't', 't', 'p', ':', '/', '/'];
    assert(r@ =~= http_pat());
    r
}

fn https_vec() -> (r: Vec<char>)
    ensures
        r@ == https_pat(),
{
    let r = vec!['h', 't', 't', 'p', 's', ':', '/', '/'];
    assert(r@ =~= https_pat());
    r
}

fn anchor_vec() -> (r: Vec<char>)
    ensures
        r@ == anchor_pat(),
{
    let r = vec!['<', 'a', ' ', 'h', 'r', 'e', 'f', '=', '"'];
    assert(r@ =~= anchor_pat());
    r
}

fn close_vec() -> (r: Vec<char>)
    ensures
        r@ == close_pat(),
{
    let r = vec!['<', '/', 'a', '>'];
    assert(r@ =~= close_pat());
    r
}

fn one_char(c: char) -> (r: Vec<char>)
    ensures
        r@ == seq![c],
{
    let r = vec![c];
    assert(r@ =~= seq![c]);
    r
}

fn tag_found(o: Option<usize>, is_anchor: bool) -> (r: Option<(usize, bool)>)
    ensures
        opt_pair(r) == tagged(opt_int(o), is_anchor),
{
    match o {
        Some(i) => Some((i, is_anchor)),
        None => None,
    }
}

/// An optional index-and-flag seen with a mathematical index.
pub open spec fn opt_pair(o: Option<(usize, bool)>) -> Option<(int, bool)> {
    match o {
        Some((i, b)) => Some((i as int, b)),
        None => None,
    }
}

fn pick_earlier(a: Option<(usize, bool)>, b: Option<(usize, bool)>) -> (r: Option<(usize, bool)>)
    ensures
        opt_pair(r) == earlier(opt_pair(a), opt_pair(b)),
{
    match (a, b) {
        (Some(x), Some(y)) => if y.0 < x.0 {
            Some(y)
        } else {
            Some(x)
        },
        (Some(x), None) => Some(x),
        (None, y) => y,
    }
}

/// Finds the next link in `s`.
fn find_next_link(s: &Vec<char>, anchors: bool) -> (r: Option<(usize, bool)>)
    ensures
        opt_pair(r) == next_link(s@, anchors),
{
    let h = tag_found(find(s, &http_vec()), false);
    let hs = tag_found(find(s, &https_vec()), false);
    let a = if anchors {
        tag_found(find(s, &anchor_vec()), true)
    } else {
        None
    };
    pick_earlier(pick_earlier(h, hs), a)
}

fn is_url_punctuation(c: char) -> (r: bool)
    ensures
        r == is_url_punct(c),
{
    c == '.' || c == ',' || c == ';' || c == ':' || c == '!' || c == '?' || c == ')' || c == ']'
        || c == '}' || c == '\'' || c == '"'
}

fn push_link(out: &mut Vec<char>, s: &Vec<char>, ta: usize, tb: usize, ua: usize, ub: usize)
    requires
        ta <= tb <= s@.len(),
        ua <= ub <= s@.len(),
    ensures
        final(out)@ == old(out)@ + md_link(s@.subrange(ta as int, tb as int), s@.subrange(ua as int, ub as int)),
{
    out.push('[');
    push_range(out, s, ta, tb);
    out.push(']');
    out.push('(');
    push_range(out, s, ua, ub);
    out.push(')');
    assert(final(out)@ =~= old(out)@ + md_link(s@.subrange(ta as int, tb as int), s@.subrange(ua as int, ub as int)));
}

/// Writes the bare URL at the start of `r`; returns how many characters it used.
fn url_step_exec(out: &mut Vec<char>, r: &Vec<char>) -> (n: usize)
    requires
        r@.len() >= 1,
    ensures
        final(out)@ == old(out)@ + url_step(r@).0,
        n == url_step(r@).1,
        1 <= n <= r@.len(),
{
    let end = match find_whitespace(r) {
        Some(e) => e,
        None => r.len(),
    };
    proof {
        lemma_find_ws_from(r@, 0);
    }
    let mut ue = end;
    while ue > 0 && is_url_punctuation(r[ue - 1])
        invariant
            ue <= end <= r@.len(),
            url_end(r@, end as int) == url_end(r@, ue as int),
        decreases ue,
    {
        ue = ue - 1;
    }
    if ue > 0 {
        push_link(out, r, 0, ue, 0, ue);
        assert(r@.subrange(0, ue as int) =~= r@.take(ue as int));
        ue
    } else {
        push_range(out, r, 0, 1);
        assert(r@.subrange(0, 1) =~= r@.take(1));
        1
    }
}

/// Writes the HTML anchor at the start of `r`; returns how many characters it used.
fn anchor_step_exec(out: &mut Vec<char>, r: &Vec<char>) -> (n: usize)
    requires
        starts_with(r@, anchor_pat()),
    ensures
        final(out)@ == old(out)@ + anchor_step(r@).0,
        n == anchor_step(r@).1,
        1 <= n <= r@.len(),
{
    let quote = one_char('"');
    let gt = one_char('>');
    let close = close_vec();
    let after_open = sub_vec(r, 9, r.len());
    assert(after_open@ =~= r@.skip(9));
    let found_q = find(&after_open, &quote);
    proof {
        lemma_find_from(after_open@, quote@, 0);
    }
    if let Some(q) = found_q {
        let qa = q + 9;
        let after_url = sub_vec(r, qa, r.len());
        assert(after_url@ =~= r@.skip(qa as int));
        let found_t = find(&after_url, &gt);
        proof {
            lemma_find_from(after_url@, gt@, 0);
        }
        if let Some(t) = found_t {
            let te = qa + t;
            let after_tag = sub_vec(r, te + 1, r.len());
            assert(after_tag@ =~= r@.skip(te + 1));
            let found_c = find(&after_tag, &close);
            proof {
                lemma_find_from(after_tag@, close@, 0);
            }
            if let Some(c) = found_c {
                let ce = te + 1 + c;
                push_link(out, r, te + 1, ce, 9, qa);
                return ce + 4;
            }
        }
    }
    push_range(out, r, 0, 1);
    assert(r@.subrange(0, 1) =~= r@.take(1));
    1
}

/// Writes `text` with its links turned into Markdown links onto `out`.
#[verifier::rlimit(60)]
fn push_md_urls(out: &mut Vec<char>, text: &Vec<char>, anchors: bool)
    ensures
        final(out)@ == old(out)@ + md_urls(text@, anchors),
{
    let mut cur = sub_vec(text, 0, text.len());
    assert(cur@ =~= text@);
    loop
        invariant
            old(out)@ + md_urls(text@, anchors) == out@ + md_urls(cur@, anchors),
        decreases cur@.len(),
    {
        let found = find_next_link(&cur, anchors);
        proof {
            lemma_find_from(cur@, http_pat(), 0);
            lemma_find_from(cur@, https_pat(), 0);
            lemma_find_from(cur@, anchor_pat(), 0);
        }
        match found {
            None => {
                push_all(out, &cur);
                return;
            },
            Some((start, is_anchor)) => {
                let r = sub_vec(&cur, start, cur.len());
                assert(r@ =~= cur@.skip(start as int));
                push_range(out, &cur, 0, start);
                assert(cur@.subrange(0, start as int) =~= cur@.take(start as int));
                let n = if is_anchor {
                    assert(r@.take(9) =~= cur@.subrange(start as int, start + 9));
                    anchor_step_exec(out, &r)
                } else {
                    url_step_exec(out, &r)
                };
                let rest = sub_vec(&r, n, r.len());
                assert(rest@ =~= r@.skip(n as int));
                cur = rest;
            },
        }
    }
}

/// Writes the Markdown for one line of history text onto `out`.
fn push_md_line(out: &mut Vec<char>, l: &Vec<char>)
    ensures
        final(out)@ == old(out)@ + md_line(l@),
{
    let n = l.len();
    if n >= 4 && l[0] == '-' && l[1] == ' ' && l[n - 2] == ' ' && l[n - 1] == '-' {
        assert(l@.take(2) =~= seq!['-', ' ']);
        assert(l@.skip(2).skip(l@.skip(2).len() - 2) =~= seq![' ', '-']);
        let middle = sub_vec(l, 2, n - 2);
        out.push('*');
        out.push('*');
        push_md_urls(out, &middle, true);
        out.push('*');
        out.push('*');
        assert(final(out)@ =~= old(out)@ + md_line(l@));
    } else {
        proof {
            if starts_with(l@, seq!['-', ' ']) && ends_with(l@.skip(2), seq![' ', '-']) {
                assert(l@.take(2)[0] == '-' && l@.take(2)[1] == ' ');
                let t = l@.skip(2);
                assert(t.skip(t.len() - 2)[0] == ' ' && t.skip(t.len() - 2)[1] == '-');
                assert(false);
            }
        }
        if n > 0 && (l[0] == '-' || l[0] == '=' || l[0] == '#' || l[0] == '>') {
            out.push('\\');
            push_md_urls(out, l, true);
            assert(final(out)@ =~= old(out)@ + md_line(l@));
        } else {
            push_md_urls(out, l, true);
        }
    }
}

/// Turns the text of a `history.xml` entry into Markdown: the text is trimmed, each line is
/// converted (a `- TITLE -` line becomes bold, a leading `-`, `=`, `#` or `>` is escaped with a
/// backslash, and `http://`, `https://` and `<a href="...">...</a>` links become Markdown
/// links), and the lines are joined with newlines.
pub fn markdown_from_history_text(text: &str) -> (r: String)
    ensures
        r@ == md_text(text@),
{
    let chars = chars_of(text);
    let trimmed = trim_chars(&chars);
    let ls = lines_of(&trimmed);
    let ghost parts = lines(trim(text@)).map_values(md_line_fn());
    let mut out: Vec<char> = Vec::new();
    let mut k: usize = 0;
    while k < ls.len()
        invariant
            k <= ls@.len(),
            ls@.len() == lines(trimmed@).len(),
            trimmed@ == trim(text@),
            forall|i: int| 0 <= i < ls@.len() ==> #[trigger] ls@[i]@ == lines(trimmed@)[i],
            parts == lines(trim(text@)).map_values(md_line_fn()),
            out@ == join(parts.take(k as int), seq!['\n']),
        decreases ls@.len() - k,
    {
        proof {
            lemma_join_step(parts, seq!['\n'], k as int);
        }
        if k > 0 {
            out.push('\n');
        }
        push_md_line(&mut out, &ls[k]);
        proof {
            assert(parts[k as int] == md_line(ls@[k as int]@));
            if k == 0 {
                assert(out@ =~= join(parts.take(k + 1), seq!['\n']));
            } else {
                assert(out@ =~= join(parts.take(k + 1), seq!['\n']));
            }
        }
        k = k + 1;
    }
    assert(parts.take(ls@.len() as int) =~= parts);
    string_from_chars(&out)
}

/// Turns the links in `text` into Markdown links: a bare `http://` or `https://` URL (up to the
/// next whitespace, without trailing punctuation) becomes `[url](url)`, and
/// `<a href="url">text</a>` becomes `[text](url)`.
pub fn markdown_urls(text: &str) -> (r: String)
    ensures
        r@ == md_urls(text@, true),
{
    let chars = chars_of(text);
    let mut out: Vec<char> = Vec::new();
    push_md_urls(&mut out, &chars, true);
    assert(out@ =~= md_urls(text@, true));
    string_from_chars(&out)
}

/// Writes `text` with its links turned into Markdown links onto `out`, with or without HTML
/// anchors.
pub fn push_markdown_urls(out: &mut Vec<char>, text: &Vec<char>, anchors: bool)
    ensures
        final(out)@ == old(out)@ + md_urls(text@, anchors),
{
    push_md_urls(out, text, anchors)
}

} // verus!
