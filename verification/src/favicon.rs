//! Finding a site's favicon: which address is asked, which pages are
//! searched, which links are tried and which answer is taken. Fetching is
//! left to the caller, which reports back what it got.

use vstd::prelude::*;

use crate::chars::{same_str, str_concat};
use crate::strs::{split, split_from, starts_with, starts_with_spec};
use crate::web::{join_url, opt_view, parse_url, url_join, url_parse};

verus! {

/// The origin whose favicon a link shows: the scheme and host of a web link
/// (parsed again), or the empty string where the link is no web link or
/// has no host.
pub open spec fn favicon_origin_spec(url: Seq<char>) -> Seq<char> {
    match url_parse(url) {
        Some((_, scheme, cannot_be_a_base, host, _)) => if cannot_be_a_base || !starts_with_spec(scheme, "http"@) {
            Seq::empty()
        } else {
            match host {
                Some(h) => match url_parse(scheme + "://"@ + h) {
                    Some(origin) => origin.0,
                    None => Seq::empty(),
                },
                None => Seq::empty(),
            }
        },
        None => Seq::empty(),
    }
}

/// The origin whose favicon is shown for `url`; empty where there is none.
pub fn favicon_origin(url: &str) -> (r: String)
    ensures
        r@ == favicon_origin_spec(url@),
{
    let parsed = match parse_url(url) {
        Some(p) => p,
        None => return String::new(),
    };
    if parsed.cannot_be_a_base || !starts_with(parsed.scheme.as_str(), "http") {
        return String::new();
    }
    let host = match parsed.host {
        Some(h) => h,
        None => return String::new(),
    };
    let with_sep = str_concat(parsed.scheme.as_str(), "://");
    let origin = str_concat(with_sep.as_str(), host.as_str());
    proof {
        assert(origin@ =~= parsed.scheme@ + "://"@ + host@);
    }
    match parse_url(origin.as_str()) {
        Some(o) => o.serialization,
        None => String::new(),
    }
}

/// The address of the registrable domain above a subdomain: the scheme,
/// then the last two labels of the domain.
pub open spec fn apex_address(scheme: Seq<char>, labels: Seq<Seq<char>>) -> Seq<char> {
    scheme + "://"@ + labels[labels.len() - 2] + "."@ + labels[labels.len() - 1]
}

/// The pages searched for the favicon of `url`: the URL itself and, where
/// its domain has more than two labels, the address of the last two;
/// `None` where `url` or that address does not parse.
pub open spec fn favicon_targets_spec(url: Seq<char>) -> Option<Seq<Seq<char>>> {
    match url_parse(url) {
        Some((serialization, scheme, _, _, domain)) => match domain {
            Some(d) => {
                let labels = split_from(d, "."@, 0);
                if labels.len() > 2 {
                    match url_parse(apex_address(scheme, labels)) {
                        Some(apex) => Some(seq![serialization, apex.0]),
                        None => None,
                    }
                } else {
                    Some(seq![serialization])
                }
            },
            None => Some(seq![serialization]),
        },
        None => None,
    }
}

/// The values of some strings.
pub open spec fn string_views(v: Seq<String>) -> Seq<Seq<char>> {
    v.map_values(|s: String| s@)
}

/// The pages searched for the favicon of `url`, in order.
pub fn favicon_targets(url: &str) -> (r: Option<Vec<String>>)
    ensures
        match r {
            Some(v) => favicon_targets_spec(url@) == Some(string_views(v@)),
            None => favicon_targets_spec(url@) is None,
        },
{
    let parsed = match parse_url(url) {
        Some(p) => p,
        None => return None,
    };
    let mut targets: Vec<String> = Vec::new();
    targets.push(parsed.serialization);
    let ghost first = targets@[0]@;
    if let Some(d) = parsed.domain {
        proof {
            reveal_strlit(".");
        }
        let labels = split(d.as_str(), ".");
        let n = labels.len();
        if n > 2 {
            let a = str_concat(parsed.scheme.as_str(), "://");
            let b = str_concat(a.as_str(), labels[n - 2].as_str());
            let c = str_concat(b.as_str(), ".");
            let e = str_concat(c.as_str(), labels[n - 1].as_str());
            proof {
                let lv = split_from(d@, "."@, 0);
                assert(lv[n - 2] == labels@[n - 2]@);
                assert(lv[n - 1] == labels@[n - 1]@);
                assert(e@ =~= apex_address(parsed.scheme@, lv));
            }
            match parse_url(e.as_str()) {
                Some(apex) => targets.push(apex.serialization),
                None => return None,
            }
        }
    }
    proof {
        assert(targets@[0]@ == first);
    }
    assert(string_views(targets@) =~= if targets@.len() == 1 {
        seq![first]
    } else {
        seq![first, targets@[1]@]
    });
    Some(targets)
}

/// The links of a document that may point to an icon.
pub const ICON_LINKS: &'static str = "link[rel~='icon'], link[rel~='shortcut icon'], link[rel~='alternate icon'], link[rel~='apple-touch-icon'], link[rel~='apple-touch-icon-precomposed']";

/// What `scraper` gives for `html` parsed as a document and searched with
/// the CSS selector `selector`: `None` where the selector does not parse,
/// else the value of attribute `attr` of each element found, in document
/// order.
pub uninterp spec fn html_select_attr(html: Seq<char>, selector: Seq<char>, attr: Seq<char>) -> Option<
    Seq<Option<Seq<char>>>,
>;

/// The values of some optional strings.
pub open spec fn opt_views(v: Seq<Option<String>>) -> Seq<Option<Seq<char>>> {
    v.map_values(|s: Option<String>| opt_view(s))
}

/// `scraper::Selector::parse` of `selector`, then
/// `Html::parse_document(html).select(..)` with `Element::attr(attr)` read
/// for each element found; claimed: the result is
/// `html_select_attr(html, selector, attr)`, a function of the three
/// strings alone. How HTML is parsed and selectors match is not stated.
#[verifier::external_body]
fn select_attr(html: &str, selector: &str, attr: &str) -> (r: Option<Vec<Option<String>>>)
    ensures
        match r {
            Some(v) => html_select_attr(html@, selector@, attr@) == Some(opt_views(v@)),
            None => html_select_attr(html@, selector@, attr@) is None,
        },
{
    match scraper::Selector::parse(selector) {
        Ok(sel) => {
            let doc = scraper::Html::parse_document(html);
            Some(doc.select(&sel).map(|e| e.value().attr(attr).map(|a| a.to_string())).collect())
        },
        Err(_) => None,
    }
}

/// The values that are there, in order.
pub open spec fn present(v: Seq<Option<Seq<char>>>) -> Seq<Seq<char>>
    decreases v.len(),
{
    if v.len() == 0 {
        Seq::empty()
    } else {
        let rest = present(v.drop_last());
        match v.last() {
            Some(s) => rest.push(s),
            None => rest,
        }
    }
}

/// The icon links tried on a page: the `href`s found, then `/favicon.svg`
/// and `/favicon.ico`.
pub open spec fn favicon_hrefs_spec(found: Seq<Option<Seq<char>>>) -> Seq<Seq<char>> {
    present(found) + seq!["/favicon.svg"@, "/favicon.ico"@]
}

/// The icon links tried on a page, given the `href` of each icon link found
/// on it.
pub fn favicon_hrefs(found: Vec<Option<String>>) -> (r: Vec<String>)
    ensures
        string_views(r@) == favicon_hrefs_spec(opt_views(found@)),
{
    let mut r: Vec<String> = Vec::new();
    let mut i: usize = 0;
    while i < found.len()
        invariant
            i <= found@.len(),
            string_views(r@) == present(opt_views(found@).take(i as int)),
        decreases found.len() - i,
    {
        let ghost before = string_views(r@);
        proof {
            assert(opt_views(found@).take(i + 1).drop_last() =~= opt_views(found@).take(i as int));
        }
        match &found[i] {
            Some(h) => {
                r.push(h.clone());
                assert(string_views(r@) =~= before.push(h@));
            },
            None => {},
        }
        i = i + 1;
    }
    proof {
        assert(opt_views(found@).take(i as int) =~= opt_views(found@));
    }
    let ghost links = string_views(r@);
    r.push("/favicon.svg".to_string());
    r.push("/favicon.ico".to_string());
    assert(string_views(r@) =~= links + seq!["/favicon.svg"@, "/favicon.ico"@]);
    r
}

/// The icon links tried on the page `html`; `None` where the icon-link
/// selector is refused.
pub fn icon_hrefs(html: &str) -> (r: Option<Vec<String>>)
    ensures
        match html_select_attr(html@, ICON_LINKS@, "href"@) {
            Some(found) => r matches Some(v) && string_views(v@) == favicon_hrefs_spec(found),
            None => r is None,
        },
{
    match select_attr(html, ICON_LINKS, "href") {
        Some(found) => Some(favicon_hrefs(found)),
        None => None,
    }
}

/// The address an icon link points to on the page at `page`: the link
/// itself where it parses as a URL, else the link joined to the page.
/// `None` where the link cannot be joined to the page, which the search
/// does not survive.
pub open spec fn icon_address_spec(page: Seq<char>, href: Seq<char>) -> Option<Seq<char>> {
    match url_join(page, href) {
        Some(joined) => match url_parse(href) {
            Some(own) => Some(own.0),
            None => Some(joined),
        },
        None => None,
    }
}

/// The address an icon link of the page at `page` points to.
pub fn icon_address(page: &str, href: &str) -> (r: Option<String>)
    ensures
        opt_view(r) == icon_address_spec(page@, href@),
{
    let joined = join_url(page, href);
    match joined {
        Some(j) => match parse_url(href) {
            Some(own) => Some(own.serialization),
            None => Some(j),
        },
        None => None,
    }
}

/// An icon answer is taken when it is `200 OK` with a content type of SVG,
/// ICO or PNG; one announced under 2048 bytes is taken only as SVG.
pub open spec fn icon_taken_spec(status: u16, content_type: Option<Seq<char>>, length: Option<u64>) -> bool {
    &&& status == 200
    &&& content_type matches Some(t)
    &&& !((length matches Some(l) && l < 2048) && t != "image/svg+xml"@)
    &&& (t == "image/svg+xml"@ || t == "image/x-icon"@ || t == "image/png"@)
}

/// Whether an icon answer with `status`, `content_type` and announced
/// `length` is taken.
pub fn icon_taken(status: u16, content_type: Option<&str>, length: Option<u64>) -> (r: bool)
    ensures
        r == icon_taken_spec(
            status,
            match content_type {
                Some(t) => Some(t@),
                None => None,
            },
            length,
        ),
{
    if status != 200 {
        return false;
    }
    let t = match content_type {
        Some(t) => t,
        None => return false,
    };
    let svg = same_str(t, "image/svg+xml");
    let small = match length {
        Some(l) => l < 2048,
        None => false,
    };
    if small && !svg {
        return false;
    }
    svg || same_str(t, "image/x-icon") || same_str(t, "image/png")
}

/// What the favicon search asks for next.
#[derive(Debug)]
pub enum FaviconStep {
    /// Fetch this page and report it back (`on_page`).
    LoadPage(String),
    /// Fetch this icon and report whether its answer is taken (`on_icon`).
    LoadIcon(String),
    /// The favicon is at this address.
    Found(String),
    /// No page gave an icon that is taken.
    NotFound,
    /// The search cannot go on: the icon-link selector was refused, or a
    /// link does not join the page's address.
    Stopped,
}

/// A favicon search: the pages to search, the icon links of the page being
/// searched, and the icon being tried. Pages are searched in order, and the
/// links of a page in order; the first icon taken ends the search.
pub struct FaviconSearch {
    pub targets: Vec<String>,
    /// How many pages have been asked for.
    pub next_target: usize,
    /// The address of the page whose links are being tried.
    pub page: String,
    pub hrefs: Vec<String>,
    /// How many links of the page have been tried.
    pub next_href: usize,
    /// The icon asked for last.
    pub trying: Option<String>,
}

/// `s` asks to fetch the page `url`.
pub open spec fn loads_page(s: FaviconStep, url: Seq<char>) -> bool {
    s matches FaviconStep::LoadPage(u) && u@ == url
}

/// `s` asks to fetch the icon `url`.
pub open spec fn loads_icon(s: FaviconStep, url: Seq<char>) -> bool {
    s matches FaviconStep::LoadIcon(u) && u@ == url
}

/// What comes after the icon links tried so far in search `s`, taken by
/// `after`, with step `r`: the next link of the page where one is left
/// (resolved against the page), else the next page, else nothing found.
pub open spec fn advanced(s: FaviconSearch, after: FaviconSearch, r: FaviconStep) -> bool {
    &&& after.targets@ == s.targets@
    &&& after.page@ == s.page@
    &&& if s.next_href < s.hrefs@.len() {
        &&& after.hrefs@ == s.hrefs@
        &&& after.next_href == s.next_href + 1
        &&& after.next_target == s.next_target
        &&& match icon_address_spec(s.page@, s.hrefs@[s.next_href as int]@) {
            Some(a) => loads_icon(r, a) && after.trying == Some(r->LoadIcon_0),
            None => r is Stopped,
        }
    } else if s.next_target < s.targets@.len() {
        &&& after.hrefs@.len() == 0
        &&& after.next_href == 0
        &&& after.next_target == s.next_target + 1
        &&& loads_page(r, s.targets@[s.next_target as int]@)
    } else {
        &&& after.hrefs@ == s.hrefs@
        &&& after.next_href == s.next_href
        &&& after.next_target == s.next_target
        &&& r is NotFound
    }
}

impl FaviconSearch {
    /// A search of the pages `targets`, in order; it asks for the first.
    pub fn start(targets: Vec<String>) -> (r: (FaviconSearch, FaviconStep))
        ensures
            r.0.targets@ == targets@,
            r.0.hrefs@.len() == 0,
            targets@.len() > 0 ==> r.0.next_target == 1 && loads_page(r.1, targets@[0]@),
            targets@.len() == 0 ==> r.1 is NotFound,
    {
        let mut s = FaviconSearch {
            targets,
            next_target: 0,
            page: String::new(),
            hrefs: Vec::new(),
            next_href: 0,
            trying: None,
        };
        let step = s.advance();
        (s, step)
    }

    /// Moves on from the links tried so far.
    fn advance(&mut self) -> (r: FaviconStep)
        requires
            old(self).next_href <= old(self).hrefs@.len(),
            old(self).next_target <= old(self).targets@.len(),
        ensures
            advanced(*old(self), *final(self), r),
            final(self).next_href <= final(self).hrefs@.len(),
            final(self).next_target <= final(self).targets@.len(),
    {
        if self.next_href < self.hrefs.len() {
            let a = icon_address(self.page.as_str(), self.hrefs[self.next_href].as_str());
            self.next_href = self.next_href + 1;
            match a {
                Some(addr) => {
                    self.trying = Some(addr.clone());
                    FaviconStep::LoadIcon(addr)
                },
                None => FaviconStep::Stopped,
            }
        } else if self.next_target < self.targets.len() {
            let t = self.targets[self.next_target].clone();
            self.next_target = self.next_target + 1;
            self.hrefs = Vec::new();
            self.next_href = 0;
            FaviconStep::LoadPage(t)
        } else {
            FaviconStep::NotFound
        }
    }

    /// The page asked for came back from `url` (after redirects) with the
    /// text `html`, or, with `None`, could not be fetched: its icon links are
    /// tried in order, or the next page is asked for.
    pub fn on_page(&mut self, page: Option<(String, String)>) -> (r: FaviconStep)
        requires
            old(self).next_target <= old(self).targets@.len(),
            old(self).hrefs@.len() == 0,
            old(self).next_href == 0,
        ensures
            final(self).next_target <= final(self).targets@.len(),
            final(self).next_href <= final(self).hrefs@.len(),
            final(self).targets@ == old(self).targets@,
            match page {
                None => advanced(*old(self), *final(self), r),
                Some((url, html)) => match html_select_attr(html@, ICON_LINKS@, "href"@) {
                    None => r is Stopped,
                    Some(found) => exists|s: FaviconSearch|
                        {
                            &&& s.targets@ == old(self).targets@
                            &&& s.next_target == old(self).next_target
                            &&& s.page@ == url@
                            &&& string_views(s.hrefs@) == favicon_hrefs_spec(found)
                            &&& s.next_href == 0
                            &&& #[trigger] advanced(s, *final(self), r)
                        },
                },
            },
    {
        match page {
            None => self.advance(),
            Some((url, html)) => match icon_hrefs(html.as_str()) {
                None => FaviconStep::Stopped,
                Some(hrefs) => {
                    self.page = url;
                    self.hrefs = hrefs;
                    self.next_href = 0;
                    let ghost mid = *self;
                    let r = self.advance();
                    proof {
                        assert(advanced(mid, *self, r));
                    }
                    r
                },
            },
        }
    }

    /// The icon asked for was taken (`accepted`) or not: the search ends
    /// with it, or moves on.
    pub fn on_icon(&mut self, accepted: bool) -> (r: FaviconStep)
        requires
            old(self).next_href <= old(self).hrefs@.len(),
            old(self).next_target <= old(self).targets@.len(),
        ensures
            final(self).next_href <= final(self).hrefs@.len(),
            final(self).next_target <= final(self).targets@.len(),
            accepted ==> match old(self).trying {
                Some(t) => r matches FaviconStep::Found(f) && f@ == t@,
                None => r is NotFound,
            },
            !accepted ==> advanced(*old(self), *final(self), r),
    {
        if accepted {
            match &self.trying {
                Some(t) => FaviconStep::Found(t.clone()),
                None => FaviconStep::NotFound,
            }
        } else {
            self.advance()
        }
    }
}

} // verus!
