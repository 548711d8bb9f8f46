//! Target validation: which texts are accepted as targets, and the canonical
//! form under which an accepted target is stored.

use vstd::prelude::*;
use crate::failure::Failure;

verus! {

/// `url::ParseError`, the error of `url::Url::parse`. It is carried out of the
/// call and never read: every parse error makes the text invalid.
#[verifier::external_type_specification]
#[verifier::external_body]
pub struct ExParseError(url::ParseError);

/// What `url::Url::parse` makes of a text: `None` where it refuses the text,
/// else the serialization of the URL it read and whether that URL has a host.
pub uninterp spec fn parsed_url(raw: Seq<char>) -> Option<(Seq<char>, bool)>;

/// Parses `raw` with `url::Url::parse` and hands back the URL's serialization
/// (`Url::as_str`) and whether it has a host (`Url::has_host`).
///
/// Trusted: that the outcome depends on the text alone, the same text giving
/// the same outcome. It is therefore given the name `parsed_url`, and nothing
/// else is claimed of it: not what a serialization looks like, nor which
/// texts are refused.
#[verifier::external_body]
fn parse_absolute(raw: &str) -> (r: Result<(String, bool), url::ParseError>)
    ensures
        match r {
            Ok(found) => parsed_url(raw@) == Some((found.0@, found.1)),
            Err(_) => parsed_url(raw@) is None,
        },
{
    let url = url::Url::parse(raw)?;
    Ok((url.as_str().to_string(), url.has_host()))
}

/// Whether the text's first colon stands at `i` and opens an authority: it is
/// directly followed by two slashes.
pub open spec fn authority_opens_at(raw: Seq<char>, i: int) -> bool {
    &&& 0 <= i && i + 2 < raw.len()
    &&& raw[i] == ':' && raw[i + 1] == '/' && raw[i + 2] == '/'
    &&& forall|j: int| 0 <= j < i ==> raw[j] != ':'
}

/// Whether the text itself names an authority: its scheme is closed by `://`.
/// A text such as `ftp:bad`, which a lenient parser would complete to a URL
/// with a host, does not.
pub open spec fn names_authority(raw: Seq<char>) -> bool {
    exists|i: int| authority_opens_at(raw, i)
}

/// The canonical form of an accepted target, `None` for a text that is not
/// accepted. A text is accepted when it parses as an absolute URL, the URL has
/// a host, and the text names its authority.
pub open spec fn canonical_form(raw: Seq<char>) -> Option<Seq<char>> {
    match parsed_url(raw) {
        Some((text, true)) if names_authority(raw) => Some(text),
        _ => None,
    }
}

/// Whether `text` is the canonical form of some accepted target.
pub open spec fn is_target(text: Seq<char>) -> bool {
    exists|raw: Seq<char>| #[trigger] canonical_form(raw) == Some(text)
}

/// Executable test for `names_authority`, in one pass over the text.
pub fn has_authority(raw: &str) -> (b: bool)
    ensures
        b == names_authority(raw@),
{
    let mut matched: u8 = 0;
    for c in it: raw.chars()
        invariant
            it.seq() == raw@,
            matched <= 2,
            matched as int <= it.index(),
            forall|j: int| 0 <= j < it.index() - matched ==> raw@[j] != ':',
            matched >= 1 ==> raw@[it.index() - matched] == ':',
            matched == 2 ==> raw@[it.index() - 1] == '/',
    {
        if matched == 0 {
            if c == ':' {
                matched = 1;
            }
        } else if c != '/' {
            assert(forall|i: int| !authority_opens_at(raw@, i));
            return false;
        } else if matched == 1 {
            matched = 2;
        } else {
            assert(authority_opens_at(raw@, it.index() - 2));
            return true;
        }
    }
    assert(forall|i: int| !authority_opens_at(raw@, i));
    false
}

/// A validated target: the canonical form of an accepted text.
pub struct TargetUrl {
    text: String,
}

impl View for TargetUrl {
    type V = Seq<char>;

    closed spec fn view(&self) -> Seq<char> {
        self.text@
    }
}

impl TargetUrl {
    #[verifier::type_invariant]
    spec fn well_formed(&self) -> bool {
        is_target(self.text@)
    }

    /// The target as text.
    pub fn as_str(&self) -> (s: &str)
        ensures
            s@ == self@,
            is_target(self@),
    {
        proof {
            use_type_invariant(self);
        }
        self.text.as_str()
    }

    /// A second handle on the same target.
    pub fn duplicate(&self) -> (twin: TargetUrl)
        ensures
            twin@ == self@,
    {
        proof {
            use_type_invariant(self);
        }
        TargetUrl { text: self.text.clone() }
    }
}

/// Accepts or rejects a candidate target. An accepted text comes back in its
/// canonical form, which is what gets stored; every other text is refused as
/// `InvalidUrl`.
pub fn validate(raw: &str) -> (r: Result<TargetUrl, Failure>)
    ensures
        match r {
            Ok(target) => canonical_form(raw@) == Some(target@),
            Err(e) => e == Failure::InvalidUrl && canonical_form(raw@) is None,
        },
{
    match parse_absolute(raw) {
        Ok((text, true)) => {
            if has_authority(raw) {
                Ok(TargetUrl { text })
            } else {
                Err(Failure::InvalidUrl)
            }
        },
        Ok((_, false)) => Err(Failure::InvalidUrl),
        Err(_) => Err(Failure::InvalidUrl),
    }
}

} // verus!
