//! Browser tabs: the domain of a URL, derived here rather than trusted
//! from the extension.
use crate::context::BrowserTab;
use crate::json::{field, get, json_of, parse_json, str_of, str_or, Json};
use crate::text::{chars_of, slice, string_of, strip_prefix, strip_prefix_spec, trim, trim_vec};
use vstd::prelude::*;

verus! {

pub open spec fn url_break(c: char) -> bool {
    c == '/' || c == '?' || c == '#'
}

/// Index of the first `/`, `?` or `#` from `k` on, or the length.
pub open spec fn host_end(s: Seq<char>, k: int) -> int
    decreases s.len() - k,
{
    if k < 0 || k >= s.len() {
        s.len() as int
    } else if url_break(s[k]) {
        k
    } else {
        host_end(s, k + 1)
    }
}

/// The URL without an `https://` or `http://` scheme, up to the first
/// `/`, `?` or `#`.
pub open spec fn domain_spec(url: Seq<char>) -> Seq<char> {
    let rest = match strip_prefix_spec(url, "https://"@) {
        Some(r) => r,
        None => match strip_prefix_spec(url, "http://"@) {
            Some(r) => r,
            None => url,
        },
    };
    rest.take(host_end(rest, 0))
}

pub fn extract_domain(url: &str) -> (r: String)
    ensures
        r@ == domain_spec(url@),
{
    let u = chars_of(url);
    let rest = match strip_prefix(&u, &chars_of("https://")) {
        Some(r) => r,
        None => match strip_prefix(&u, &chars_of("http://")) {
            Some(r) => r,
            None => u,
        },
    };
    let mut i: usize = 0;
    while i < rest.len() && !(rest[i] == '/' || rest[i] == '?' || rest[i] == '#')
        invariant
            i <= rest.len(),
            host_end(rest@, 0) == host_end(rest@, i as int),
        decreases rest.len() - i,
    {
        i = i + 1;
    }
    proof {
        lemma_host_end(rest@, i as int);
    }
    string_of(&slice(&rest, 0, i))
}

proof fn lemma_host_end(s: Seq<char>, k: int)
    requires
        0 <= k <= s.len(),
        k == s.len() || url_break(s[k]),
    ensures
        host_end(s, k) == k,
{
}

/// One line from the browser extension, read as a tab: nothing for a
/// blank line, a line that is not JSON, or one without a URL; otherwise
/// the URL, the title (empty when absent) and the URL's host.
pub open spec fn tab_spec(line: Seq<char>, parsed: Option<Json>) -> Option<(Seq<char>, Seq<char>, Seq<char>)> {
    if trim(line).len() == 0 {
        None
    } else {
        match parsed {
            None => None,
            Some(j) => {
                let url = str_or(field(j, "url"@), Seq::empty());
                if url.len() == 0 {
                    None
                } else {
                    Some((url, str_or(field(j, "title"@), Seq::empty()), domain_spec(url)))
                }
            },
        }
    }
}

pub open spec fn tab_view(t: Option<BrowserTab>) -> Option<(Seq<char>, Seq<char>, Seq<char>)> {
    match t {
        Some(b) => Some((b.url@, b.title@, b.domain@)),
        None => None,
    }
}

pub open spec fn deref_json(o: Option<&Json>) -> Option<Json> {
    match o {
        Some(j) => Some(*j),
        None => None,
    }
}

/// The tab a line describes, given what the line reads as JSON.
pub fn tab_from(line: &str, parsed: Option<&Json>) -> (r: Option<BrowserTab>)
    ensures
        tab_view(r) == tab_spec(line@, deref_json(parsed)),
{
    if trim_vec(&chars_of(line)).len() == 0 {
        return None;
    }
    let j = match parsed {
        Some(j) => j,
        None => return None,
    };
    let url = match str_of(get(j, "url")) {
        Some(u) => chars_of(u),
        None => Vec::new(),
    };
    if url.len() == 0 {
        return None;
    }
    let title = match str_of(get(j, "title")) {
        Some(t) => chars_of(t),
        None => Vec::new(),
    };
    let url_text = string_of(&url);
    let domain = extract_domain(url_text.as_str());
    Some(BrowserTab { url: url_text, title: string_of(&title), domain })
}

/// The tab one line from the browser extension describes.
pub fn browser_tab(line: &str) -> (r: Option<BrowserTab>)
    ensures
        tab_view(r) == tab_spec(line@, json_of(line@)),
{
    let parsed = parse_json(line);
    match &parsed {
        Ok(j) => tab_from(line, Some(j)),
        Err(_) => tab_from(line, None),
    }
}

} // verus!
