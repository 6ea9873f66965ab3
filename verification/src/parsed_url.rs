//! A URL parsed by the `url` crate, kept together with its own text.
//!
//! Values are made only by [`parse_url`], so the URL and the text in one
//! value always come from the same parse.
use vstd::prelude::*;
use url::ParseError;
use url::Url;

verus! {

#[verifier::external_type_specification]
#[verifier::external_body]
pub struct ExUrl(Url);

#[verifier::external_type_specification]
#[verifier::external_body]
pub struct ExParseError(ParseError);

/// What `url::Url::parse` makes of `input`: `None` when `input` is not an
/// absolute URL, else the text of the URL it parses to.
pub uninterp spec fn url_parse(input: Seq<char>) -> Option<Seq<char>>;

/// Whether `url::Url::parse` accepts `input`.
pub open spec fn url_parses(input: Seq<char>) -> bool {
    url_parse(input) is Some
}

/// A URL and its text (`Url::as_str`), from one parse.
pub struct ParsedUrl {
    url: Url,
    text: String,
}

impl ParsedUrl {
    /// The text of the URL.
    pub closed spec fn spec_text(&self) -> Seq<char> {
        self.text@
    }

    /// The text of the URL.
    pub fn text(&self) -> (text: &String)
        ensures
            text@ == self.spec_text(),
    {
        &self.text
    }

    /// The URL itself, to hand to the engine; its text is [`Self::text`].
    pub fn url(&self) -> &Url {
        &self.url
    }

    /// The URL itself, to hand to the engine; its text is [`Self::text`].
    pub fn into_url(self) -> Url {
        self.url
    }
}

/// `url::Url::parse`, keeping the URL's text (`Url::as_str`) beside it:
/// succeeds exactly when [`url_parse`] gives a text, and then that text is
/// the text kept.
#[verifier::external_body]
pub(crate) fn parse_url(input: &str) -> (res: Result<ParsedUrl, ParseError>)
    ensures
        res is Ok <==> url_parse(input@) is Some,
        res matches Ok(parsed) ==> Some(parsed.spec_text()) == url_parse(input@),
{
    match Url::parse(input) {
        Ok(url) => {
            let text = url.as_str().to_owned();
            Ok(ParsedUrl { url, text })
        },
        Err(error) => Err(error),
    }
}

} // verus!
