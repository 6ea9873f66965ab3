//! What the address bar's text makes the web view load.
//!
//! Text that parses as an absolute URL is loaded as it is.  Otherwise text
//! that looks like a domain (no space, a dot, not starting with a dot) is
//! tried with `https://` in front, and anything else becomes a web search.
use vstd::prelude::*;
use crate::parsed_url::ParsedUrl;
use crate::parsed_url::parse_url;
use crate::parsed_url::url_parse;
use crate::parsed_url::url_parses;

verus! {

/// Scheme put in front of text that looks like a domain.
pub open spec fn secure_scheme_prefix() -> Seq<char> {
    seq!['h', 't', 't', 'p', 's', ':', '/', '/']
}

/// Search page that address-bar text which is neither a URL nor a domain is
/// appended to.
pub open spec fn search_page_prefix() -> Seq<char> {
    seq![
        'h', 't', 't', 'p', 's', ':', '/', '/', 'w', 'w', 'w', '.', 'g', 'o', 'o', 'g', 'l', 'e',
        '.', 'c', 'o', 'm', '/', 's', 'e', 'a', 'r', 'c', 'h', '?', 'q', '=',
    ]
}

/// Text that reads like a host name: no space, at least one dot, and not
/// starting with a dot.
pub open spec fn looks_like_domain(text: Seq<char>) -> bool {
    &&& !text.contains(' ')
    &&& text.contains('.')
    &&& text[0] != '.'
}

/// How address-bar text was read.
#[derive(Clone, Copy, Debug, PartialEq, Eq, Structural)]
pub enum LocationKind {
    /// The text is an absolute URL.
    Address,
    /// The text is a domain; `https://` was put in front.
    Domain,
    /// The text is a search query for the search page.
    Search,
}

/// Which reading of address-bar text wins, from whether the text parses as
/// it is, whether it looks like a domain, and whether the text with
/// `https://` in front and the search page for it parse: the text itself
/// first, then the domain, then the search; `None` when none applies.
pub open spec fn spec_location_kind(
    address_parses: bool,
    domain_like: bool,
    domain_parses: bool,
    search_parses: bool,
) -> Option<LocationKind> {
    if address_parses {
        Some(LocationKind::Address)
    } else if domain_like && domain_parses {
        Some(LocationKind::Domain)
    } else if search_parses {
        Some(LocationKind::Search)
    } else {
        None
    }
}

/// The text handed to the URL parser for each reading of `text`.
pub open spec fn location_source(kind: LocationKind, text: Seq<char>) -> Seq<char> {
    match kind {
        LocationKind::Address => text,
        LocationKind::Domain => secure_scheme_prefix() + text,
        LocationKind::Search => search_page_prefix() + text,
    }
}

/// The reading the address bar chooses for `text`.
pub open spec fn spec_location(text: Seq<char>) -> Option<LocationKind> {
    spec_location_kind(
        url_parses(text),
        looks_like_domain(text),
        url_parses(secure_scheme_prefix() + text),
        url_parses(search_page_prefix() + text),
    )
}

/// Text that parses as an absolute URL is always loaded as it is, whatever
/// it looks like; a domain reading needs the text to fail as a URL, look like
/// a domain and parse with `https://` in front; a search is the reading only
/// when neither of the others applies and the search page parses.
pub proof fn lemma_absolute_url_loaded_as_is(text: Seq<char>)
    ensures
        url_parses(text) ==> spec_location(text) == Some(LocationKind::Address)
            && location_source(LocationKind::Address, text) == text,
        spec_location(text) == Some(LocationKind::Domain) ==> !url_parses(text)
            && looks_like_domain(text) && url_parses(location_source(LocationKind::Domain, text)),
        spec_location(text) == Some(LocationKind::Search) ==> !url_parses(text) && !(
        looks_like_domain(text) && url_parses(secure_scheme_prefix() + text)) && url_parses(
            location_source(LocationKind::Search, text),
        ),
        spec_location(text) is None ==> !url_parses(text) && !url_parses(
            search_page_prefix() + text,
        ),
        spec_location(text) matches Some(kind) ==> url_parses(location_source(kind, text)),
{
}

/// Text with a space, without a dot, or starting with a dot never reads as
/// a domain; text with none of these faults always does.
pub proof fn lemma_domain_shape(text: Seq<char>)
    ensures
        text.contains(' ') ==> !looks_like_domain(text),
        !text.contains('.') ==> !looks_like_domain(text),
        text.len() > 0 && text[0] == '.' ==> !looks_like_domain(text),
        !text.contains(' ') && text.contains('.') && text[0] != '.' ==> looks_like_domain(text),
{
}

/// Which reading of address-bar text wins, given how each candidate fared.
pub fn choose_location_kind(
    address_parses: bool,
    domain_like: bool,
    domain_parses: bool,
    search_parses: bool,
) -> (kind: Option<LocationKind>)
    ensures
        kind == spec_location_kind(address_parses, domain_like, domain_parses, search_parses),
        address_parses ==> kind == Some(LocationKind::Address),
        kind == Some(LocationKind::Domain) ==> !address_parses && domain_like && domain_parses,
        !address_parses && domain_like && domain_parses ==> kind == Some(LocationKind::Domain),
        kind == Some(LocationKind::Search) ==> !address_parses && !(domain_like && domain_parses)
            && search_parses,
        kind is None <==> !address_parses && !(domain_like && domain_parses) && !search_parses,
{
    if address_parses {
        Some(LocationKind::Address)
    } else if domain_like && domain_parses {
        Some(LocationKind::Domain)
    } else if search_parses {
        Some(LocationKind::Search)
    } else {
        None
    }
}

/// A URL chosen for address-bar text.
pub struct Location {
    pub kind: LocationKind,
    /// The text the URL was parsed from.
    pub source: String,
    /// The URL parsed from `source`, with its text.
    pub url: ParsedUrl,
}

/// Whether `text` reads like a host name.
fn is_domain_like(text: &str) -> (res: bool)
    ensures
        res == looks_like_domain(text@),
{
    let n = text.unicode_len();
    if n == 0 {
        return false;
    }
    if text.get_char(0) == '.' {
        return false;
    }
    let mut has_dot = false;
    let mut i: usize = 0;
    while i < n
        invariant
            n == text@.len(),
            i <= n,
            forall|j: int| 0 <= j < i ==> text@[j] != ' ',
            has_dot == (exists|j: int| 0 <= j < i && text@[j] == '.'),
        decreases n - i,
    {
        let c = text.get_char(i);
        if c == ' ' {
            assert(text@.contains(' ')) by {
                assert(text@[i as int] == ' ');
            }
            return false;
        }
        if c == '.' {
            has_dot = true;
        }
        i = i + 1;
    }
    has_dot
}

/// The URL the address bar loads for `text`: the text itself when it is an
/// absolute URL, else `https://` and the text when the text looks like a
/// domain and that parses, else the search page for the text; `None` when
/// none of these parses.
pub fn convert_input_string_to_url(text: &str) -> (res: Option<Location>)
    ensures
        res is Some <==> spec_location(text@) is Some,
        res matches Some(loc) ==> {
            &&& loc.kind == spec_location(text@)->0
            &&& loc.source@ == location_source(loc.kind, text@)
            &&& Some(loc.url.spec_text()) == url_parse(loc.source@)
        },
        url_parses(text@) ==> ({
            &&& res is Some
            &&& res->0.kind == LocationKind::Address
            &&& res->0.source@ == text@
            &&& Some(res->0.url.spec_text()) == url_parse(text@)
        }),
{
    let address = parse_url(text);
    let domain_like = is_domain_like(text);
    let mut with_scheme = String::new();
    with_scheme.append("https://");
    with_scheme.append(text);
    let mut search = String::new();
    search.append("https://www.google.com/search?q=");
    search.append(text);
    proof {
        reveal_strlit("https://");
        reveal_strlit("https://www.google.com/search?q=");
        assert(with_scheme@ =~= secure_scheme_prefix() + text@);
        assert(search@ =~= search_page_prefix() + text@);
    }
    let domain = parse_url(with_scheme.as_str());
    let searched = parse_url(search.as_str());
    match choose_location_kind(address.is_ok(), domain_like, domain.is_ok(), searched.is_ok()) {
        Some(LocationKind::Address) => match address {
            Ok(url) => Some(Location { kind: LocationKind::Address, source: text.to_owned(), url }),
            Err(_) => None,
        },
        Some(LocationKind::Domain) => match domain {
            Ok(url) => Some(Location { kind: LocationKind::Domain, source: with_scheme, url }),
            Err(_) => None,
        },
        Some(LocationKind::Search) => match searched {
            Ok(url) => Some(Location { kind: LocationKind::Search, source: search, url }),
            Err(_) => None,
        },
        None => None,
    }
}

/// The URL a new web view opens with: `None` when `text` is not an
/// absolute URL, else the URL parsed from `text`, with its text.
pub fn initial_url(text: &str) -> (res: Option<ParsedUrl>)
    ensures
        res is Some <==> url_parses(text@),
        res matches Some(parsed) ==> Some(parsed.spec_text()) == url_parse(text@),
{
    match parse_url(text) {
        Ok(parsed) => Some(parsed),
        Err(_) => None,
    }
}

} // verus!
