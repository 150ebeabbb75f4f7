//! The four line shapes of a changelog and what each one captures.

use crate::pattern::{capture_groups, compile, regex_compiles, regex_groups, regex_source};
use crate::text::{trim, trimmed};
use crate::timestamp::{rfc2822_instant, Timestamp};
use regex::Regex;
use vstd::prelude::*;

verus! {

/// `PACKAGE (VERSION) DISTRIBUTION; urgency=URGENCY`
pub const HEADER_PATTERN: &'static str =
    r"^(?P<package>[\w-]+)\s\((?P<version>[\d\w\s\-_.=+:]+)\)\s(?P<distribution>[\w\s\d]+);\surgency=(?P<urgency>\w+)$";

/// `  * DETAIL`
pub const DETAIL_PATTERN: &'static str = r"^\s*\*\s*(?P<detail>.*)";

/// `  [ MANTAINER ]`
pub const MANTAINER_PATTERN: &'static str = r"^\s*\[\s(?P<mantainer>.*)\s\]";

/// ` -- NAME <EMAIL>  DATE`
pub const SIGNATURE_PATTERN: &'static str =
    r"^\s*--\s*(?P<mantainer_name>[\d\w\s\-_.=+:]+)<(?P<mantainer_email>.*)>\s*(?P<date>[\d\w\s\-_.=+:,]+)$";

/// Stands in for a package name that the header pattern did not capture.
pub const MISSING_PACKAGE: &'static str = "failed-to-find-package-name";

/// Stands in for a version that the header pattern did not capture.
pub const MISSING_VERSION: &'static str = "failed-to-find-package-version";

/// What a header line captures.
#[derive(Debug)]
pub struct Header {
    pub package: String,
    pub version: String,
    pub distribution: String,
    pub urgency: String,
}

/// The mathematical value of a [`Header`].
pub struct HeaderView {
    pub package: Seq<char>,
    pub version: Seq<char>,
    pub distribution: Seq<char>,
    pub urgency: Seq<char>,
}

impl View for Header {
    type V = HeaderView;

    open spec fn view(&self) -> HeaderView {
        HeaderView {
            package: self.package@,
            version: self.version@,
            distribution: self.distribution@,
            urgency: self.urgency@,
        }
    }
}

impl DeepView for Header {
    type V = HeaderView;

    open spec fn deep_view(&self) -> HeaderView {
        self@
    }
}

/// What a signature line captures. `date` is `None` where the date text is
/// not a readable RFC 2822 date.
#[derive(Debug)]
pub struct Signature {
    pub mantainer_name: String,
    pub mantainer_email: String,
    pub date: Option<Timestamp>,
}

/// The mathematical value of a [`Signature`].
pub struct SignatureView {
    pub mantainer_name: Seq<char>,
    pub mantainer_email: Seq<char>,
    pub date: Option<Timestamp>,
}

impl View for Signature {
    type V = SignatureView;

    open spec fn view(&self) -> SignatureView {
        SignatureView {
            mantainer_name: self.mantainer_name@,
            mantainer_email: self.mantainer_email@,
            date: self.date,
        }
    }
}

impl DeepView for Signature {
    type V = SignatureView;

    open spec fn deep_view(&self) -> SignatureView {
        self@
    }
}

/// The outcome of holding one line against each of the four shapes. The
/// shapes are tried independently: more than one field may be `Some`.
#[derive(Debug)]
pub struct LineMatch {
    pub header: Option<Header>,
    pub detail: Option<String>,
    pub mantainer: Option<String>,
    pub signature: Option<Signature>,
}

/// The mathematical value of a [`LineMatch`].
pub struct LineMatchView {
    pub header: Option<HeaderView>,
    pub detail: Option<Seq<char>>,
    pub mantainer: Option<Seq<char>>,
    pub signature: Option<SignatureView>,
}

impl View for LineMatch {
    type V = LineMatchView;

    open spec fn view(&self) -> LineMatchView {
        LineMatchView {
            header: self.header.deep_view(),
            detail: self.detail.deep_view(),
            mantainer: self.mantainer.deep_view(),
            signature: self.signature.deep_view(),
        }
    }
}

impl LineMatchView {
    /// A line that has none of the four shapes.
    pub open spec fn plain() -> LineMatchView {
        LineMatchView { header: None, detail: None, mantainer: None, signature: None }
    }
}

/// Group `index` of a match, `None` where there is no such group or it took
/// no part in the match.
pub open spec fn group_at(groups: Seq<Option<Seq<char>>>, index: int) -> Option<Seq<char>> {
    if 0 <= index < groups.len() {
        groups[index]
    } else {
        None
    }
}

/// Group `index` of a match, `fallback` in place of a group that is not there.
pub open spec fn group_or(groups: Seq<Option<Seq<char>>>, index: int, fallback: Seq<char>) -> Seq<
    char,
> {
    match group_at(groups, index) {
        Some(text) => text,
        None => fallback,
    }
}

/// The header that the groups of a header match stand for. A missing
/// package or version is replaced by its placeholder, a missing distribution
/// or urgency by the empty text.
pub open spec fn header_from(groups: Seq<Option<Seq<char>>>) -> HeaderView {
    HeaderView {
        package: group_or(groups, 1, MISSING_PACKAGE@),
        version: group_or(groups, 2, MISSING_VERSION@),
        distribution: group_or(groups, 3, Seq::empty()),
        urgency: group_or(groups, 4, Seq::empty()),
    }
}

/// The text that the groups of a detail or attribution match stand for:
/// the first group, empty where the group is not there.
pub open spec fn capture_from(groups: Seq<Option<Seq<char>>>) -> Seq<char> {
    group_or(groups, 1, Seq::empty())
}

/// The signature that the groups of a signature match stand for: the name
/// without the white space around it, the e-mail address as captured, and
/// the date as far as chrono reads it.
pub open spec fn signature_from(groups: Seq<Option<Seq<char>>>) -> SignatureView {
    SignatureView {
        mantainer_name: trimmed(group_or(groups, 1, Seq::empty())),
        mantainer_email: group_or(groups, 2, Seq::empty()),
        date: rfc2822_instant(group_or(groups, 3, Seq::empty())),
    }
}

/// What the four patterns make of `line`.
pub open spec fn line_match(line: Seq<char>) -> LineMatchView {
    LineMatchView {
        header: match regex_groups(HEADER_PATTERN@, line) {
            Some(groups) => Some(header_from(groups)),
            None => None,
        },
        detail: match regex_groups(DETAIL_PATTERN@, line) {
            Some(groups) => Some(capture_from(groups)),
            None => None,
        },
        mantainer: match regex_groups(MANTAINER_PATTERN@, line) {
            Some(groups) => Some(capture_from(groups)),
            None => None,
        },
        signature: match regex_groups(SIGNATURE_PATTERN@, line) {
            Some(groups) => Some(signature_from(groups)),
            None => None,
        },
    }
}

/// The first of the four patterns that the regex crate turned down.
#[derive(Clone, Copy, Debug, PartialEq, Eq, Structural)]
pub enum GrammarError {
    Header,
    Detail,
    Mantainer,
    Signature,
}

/// The first of the four patterns that the regex crate turns down, if it
/// turns one down.
pub open spec fn refused_pattern() -> Option<GrammarError> {
    if !regex_compiles(HEADER_PATTERN@) {
        Some(GrammarError::Header)
    } else if !regex_compiles(DETAIL_PATTERN@) {
        Some(GrammarError::Detail)
    } else if !regex_compiles(MANTAINER_PATTERN@) {
        Some(GrammarError::Mantainer)
    } else if !regex_compiles(SIGNATURE_PATTERN@) {
        Some(GrammarError::Signature)
    } else {
        None
    }
}

/// The four patterns, compiled once and applied to many lines.
pub struct LineGrammar {
    header: Regex,
    detail: Regex,
    mantainer: Regex,
    signature: Regex,
}

/// A copy of group `index`, `fallback` in place of a group that is not there.
pub fn group_text(groups: &Vec<Option<String>>, index: usize, fallback: &str) -> (text: String)
    ensures
        text@ == group_or(groups.deep_view(), index as int, fallback@),
{
    if index < groups.len() {
        match &groups[index] {
            Some(text) => text.clone(),
            None => fallback.to_owned(),
        }
    } else {
        fallback.to_owned()
    }
}

impl Header {
    /// The header that the groups of a header match stand for.
    pub fn from_groups(groups: &Vec<Option<String>>) -> (header: Header)
        ensures
            header@ == header_from(groups.deep_view()),
    {
        proof {
            reveal_strlit("");
            assert(""@ =~= Seq::<char>::empty());
        }
        Header {
            package: group_text(groups, 1, MISSING_PACKAGE),
            version: group_text(groups, 2, MISSING_VERSION),
            distribution: group_text(groups, 3, ""),
            urgency: group_text(groups, 4, ""),
        }
    }
}

impl Signature {
    /// The signature that the groups of a signature match stand for.
    pub fn from_groups(groups: &Vec<Option<String>>) -> (signature: Signature)
        ensures
            signature@ == signature_from(groups.deep_view()),
    {
        proof {
            reveal_strlit("");
            assert(""@ =~= Seq::<char>::empty());
        }
        let name = group_text(groups, 1, "");
        let date_text = group_text(groups, 3, "");
        Signature {
            mantainer_name: trim(name.as_str()),
            mantainer_email: group_text(groups, 2, ""),
            date: Timestamp::parse(date_text.as_str()),
        }
    }
}

/// The text that the groups of a detail or attribution match stand for.
pub fn capture_text(groups: &Vec<Option<String>>) -> (text: String)
    ensures
        text@ == capture_from(groups.deep_view()),
{
    proof {
        reveal_strlit("");
    }
    group_text(groups, 1, "")
}

impl LineGrammar {
    #[verifier::type_invariant]
    spec fn compiled_from_the_patterns(&self) -> bool {
        &&& regex_source(&self.header) == HEADER_PATTERN@
        &&& regex_source(&self.detail) == DETAIL_PATTERN@
        &&& regex_source(&self.mantainer) == MANTAINER_PATTERN@
        &&& regex_source(&self.signature) == SIGNATURE_PATTERN@
    }

    /// Compiles the four patterns. Fails only where the regex crate turns
    /// one of them down, and then names the first such pattern.
    pub fn new() -> (made: Result<LineGrammar, GrammarError>)
        ensures
            match refused_pattern() {
                Some(which) => made == Err::<LineGrammar, GrammarError>(which),
                None => made is Ok,
            },
    {
        let header = match compile(HEADER_PATTERN) {
            Some(re) => re,
            None => { return Err(GrammarError::Header); },
        };
        let detail = match compile(DETAIL_PATTERN) {
            Some(re) => re,
            None => { return Err(GrammarError::Detail); },
        };
        let mantainer = match compile(MANTAINER_PATTERN) {
            Some(re) => re,
            None => { return Err(GrammarError::Mantainer); },
        };
        let signature = match compile(SIGNATURE_PATTERN) {
            Some(re) => re,
            None => { return Err(GrammarError::Signature); },
        };
        Ok(LineGrammar { header, detail, mantainer, signature })
    }

    /// Holds `line` against each of the four shapes.
    pub fn classify(&self, line: &str) -> (found: LineMatch)
        ensures
            found@ == line_match(line@),
    {
        proof {
            use_type_invariant(self);
        }
        let header = match capture_groups(&self.header, line) {
            Some(groups) => Some(Header::from_groups(&groups)),
            None => None,
        };
        let detail = match capture_groups(&self.detail, line) {
            Some(groups) => Some(capture_text(&groups)),
            None => None,
        };
        let mantainer = match capture_groups(&self.mantainer, line) {
            Some(groups) => Some(capture_text(&groups)),
            None => None,
        };
        let signature = match capture_groups(&self.signature, line) {
            Some(groups) => Some(Signature::from_groups(&groups)),
            None => None,
        };
        LineMatch { header, detail, mantainer, signature }
    }
}

} // verus!
