//! URLs and form-encoded queries.

use vstd::prelude::*;

verus! {

#[verifier::external_type_specification]
#[verifier::external_body]
pub struct ExUrl(url::Url);

/// The serialization of a URL.
pub uninterp spec fn url_text(u: url::Url) -> Seq<char>;

/// The serialization of the URL that a text stands for; where it stands for
/// none, whether that is because it is a relative reference, and the reason
/// in words.
pub uninterp spec fn url_parsed(text: Seq<char>) -> Result<Seq<char>, (bool, Seq<char>)>;

/// The scheme of a URL.
pub uninterp spec fn url_scheme(text: Seq<char>) -> Seq<char>;

/// The host of a URL.
pub uninterp spec fn url_host(text: Seq<char>) -> Option<Seq<char>>;

/// Whether the host of a URL is an IPv6 address.
pub uninterp spec fn url_host_is_ipv6(text: Seq<char>) -> bool;

/// The port of a URL: the one it names, else the one of its scheme.
pub uninterp spec fn url_port(text: Seq<char>) -> Option<u16>;

/// The serialization of the URL that a reference stands for at a base, or why
/// it stands for none.
pub uninterp spec fn url_joined(base: Seq<char>, reference: Seq<char>) -> Result<
    Seq<char>,
    Seq<char>,
>;

/// A URL without its fragment.
pub uninterp spec fn url_without_fragment(text: Seq<char>) -> Seq<char>;

/// A URL without its user name.
pub uninterp spec fn url_without_user(text: Seq<char>) -> Seq<char>;

/// A URL without its password.
pub uninterp spec fn url_without_password(text: Seq<char>) -> Seq<char>;

/// The pairs of a form-encoded text.
pub uninterp spec fn form_pairs(text: Seq<char>) -> Seq<(Seq<char>, Seq<char>)>;

/// The form-encoded text of pairs.
pub uninterp spec fn form_text(pairs: Seq<(Seq<char>, Seq<char>)>) -> Seq<char>;

/// Why a text is no URL.
#[derive(Debug, PartialEq)]
pub struct UrlProblem {
    /// Whether it is a relative reference.
    pub relative: bool,
    pub message: String,
}

/// `url::Url::parse`: the URL that the text stands for, or why it stands for
/// none; `RelativeUrlWithoutBase` is told from the other errors. Which texts
/// are URLs, and how they are normalized, is left unsaid.
#[verifier::external_body]
pub(crate) fn parse_url(text: &str) -> (r: Result<url::Url, UrlProblem>)
    ensures
        match r {
            Ok(u) => url_parsed(text@) == Ok::<Seq<char>, (bool, Seq<char>)>(url_text(u)),
            Err(e) => url_parsed(text@) == Err::<Seq<char>, (bool, Seq<char>)>(
                (e.relative, e.message@),
            ),
        },
{
    url::Url::parse(text).map_err(
        |e|
            UrlProblem {
                relative: matches!(e, url::ParseError::RelativeUrlWithoutBase),
                message: e.to_string(),
            },
    )
}

/// `url::Url::as_str`: the serialization of the URL.
#[verifier::external_body]
pub(crate) fn text_of_url(u: &url::Url) -> (r: String)
    ensures
        r@ == url_text(*u),
{
    u.as_str().to_owned()
}

/// `url::Url::clone`: the same URL.
#[verifier::external_body]
pub(crate) fn copy_url(u: &url::Url) -> (r: url::Url)
    ensures
        url_text(r) == url_text(*u),
{
    u.clone()
}

/// `url::Url::scheme`: the scheme of the URL, which its serialization starts
/// with.
#[verifier::external_body]
pub(crate) fn scheme_of_url(u: &url::Url) -> (r: String)
    ensures
        r@ == url_scheme(url_text(*u)),
{
    u.scheme().to_owned()
}

/// `url::Url::host_str`: the host of the URL as it is serialized.
#[verifier::external_body]
pub(crate) fn host_of_url(u: &url::Url) -> (r: Option<String>)
    ensures
        match r {
            Some(h) => url_host(url_text(*u)) == Some(h@),
            None => url_host(url_text(*u)) is None,
        },
{
    u.host_str().map(|h| h.to_owned())
}

/// `url::Url::host`: whether the host of the URL is an IPv6 address.
#[verifier::external_body]
pub(crate) fn host_is_ipv6(u: &url::Url) -> (r: bool)
    ensures
        r == url_host_is_ipv6(url_text(*u)),
{
    matches!(u.host(), Some(url::Host::Ipv6(_)))
}

/// `url::Url::port_or_known_default`: the port that the URL names, else the
/// default port of its scheme where that is known.
#[verifier::external_body]
pub(crate) fn port_of_url(u: &url::Url) -> (r: Option<u16>)
    ensures
        r == url_port(url_text(*u)),
{
    u.port_or_known_default()
}

/// `url::Url::join`: the URL that the reference stands for at the base, or
/// why it stands for none. The resolution itself is left unsaid.
#[verifier::external_body]
pub(crate) fn join_url(base: &url::Url, reference: &str) -> (r: Result<url::Url, String>)
    ensures
        match r {
            Ok(u) => url_joined(url_text(*base), reference@) == Ok::<Seq<char>, Seq<char>>(
                url_text(u),
            ),
            Err(e) => url_joined(url_text(*base), reference@) == Err::<Seq<char>, Seq<char>>(e@),
        },
{
    base.join(reference).map_err(|e| e.to_string())
}

/// `url::Url::set_fragment`: takes the fragment away.
#[verifier::external_body]
pub(crate) fn drop_fragment(u: &mut url::Url)
    ensures
        url_text(*final(u)) == url_without_fragment(url_text(*old(u))),
{
    u.set_fragment(None)
}

/// `url::Url::set_username`: takes the user name away, where there can be one.
#[verifier::external_body]
pub(crate) fn drop_user(u: &mut url::Url)
    ensures
        url_text(*final(u)) == url_without_user(url_text(*old(u))),
{
    let _ = u.set_username("");
}

/// `url::Url::set_password`: takes the password away, where there can be one.
#[verifier::external_body]
pub(crate) fn drop_password(u: &mut url::Url)
    ensures
        url_text(*final(u)) == url_without_password(url_text(*old(u))),
{
    let _ = u.set_password(None);
}

/// The contents of pairs of texts.
pub open spec fn pair_views(pairs: Seq<(String, String)>) -> Seq<(Seq<char>, Seq<char>)> {
    pairs.map_values(|p: (String, String)| (p.0@, p.1@))
}

/// `url::form_urlencoded::parse`: the decoded pairs of the text. How they are
/// decoded is left unsaid.
#[verifier::external_body]
pub(crate) fn parse_form(text: &str) -> (r: Vec<(String, String)>)
    ensures
        pair_views(r@) == form_pairs(text@),
{
    url::form_urlencoded::parse(text.as_bytes()).into_owned().collect()
}

/// `url::form_urlencoded::Serializer::extend_pairs`: the form-encoded text of
/// the pairs, which parsing turns back into them.
#[verifier::external_body]
pub(crate) fn encode_form(pairs: &Vec<(String, String)>) -> (r: String)
    ensures
        r@ == form_text(pair_views(pairs@)),
        form_pairs(r@) == pair_views(pairs@),
{
    url::form_urlencoded::Serializer::new(String::new()).extend_pairs(pairs).finish()
}

/// A URL that may be none, by its serialization.
pub open spec fn opt_url_text(u: Option<url::Url>) -> Option<Seq<char>> {
    match u {
        Some(x) => Some(url_text(x)),
        None => None,
    }
}

/// Whether a text is a relative reference.
pub open spec fn is_relative_reference(text: Seq<char>) -> bool {
    url_parsed(text) matches Err(e) && e.0
}

/// Whether a text is a relative reference.
pub fn relative_reference(text: &str) -> (r: bool)
    ensures
        r == is_relative_reference(text@),
{
    match parse_url(text) {
        Ok(_) => false,
        Err(e) => e.relative,
    }
}

} // verus!
