//! The release descriptor of a package: what the next release is called.

use vstd::prelude::*;

verus! {

/// The distribution of a release whose descriptor names none.
pub const DEFAULT_DISTRIBUTION: &'static str = "stable";

/// The urgency of a release whose descriptor names none.
pub const DEFAULT_URGENCY: &'static str = "medium";

/// The next release of a package.
#[derive(Debug)]
pub struct DCHFile {
    pub package: String,
    pub version: String,
    pub distribution: String,
    pub urgency: String,
    /// The detail lines of the release.
    pub details: Vec<String>,
    /// Commands to run before the release is recorded.
    pub before: Vec<Vec<String>>,
    /// Commands to run after the release is recorded.
    pub after: Vec<Vec<String>>,
}

/// The mathematical value of a [`DCHFile`].
pub struct DCHFileView {
    pub package: Seq<char>,
    pub version: Seq<char>,
    pub distribution: Seq<char>,
    pub urgency: Seq<char>,
    pub details: Seq<Seq<char>>,
    pub before: Seq<Seq<Seq<char>>>,
    pub after: Seq<Seq<Seq<char>>>,
}

impl View for DCHFile {
    type V = DCHFileView;

    open spec fn view(&self) -> DCHFileView {
        DCHFileView {
            package: self.package@,
            version: self.version@,
            distribution: self.distribution@,
            urgency: self.urgency@,
            details: self.details.deep_view(),
            before: self.before.deep_view(),
            after: self.after.deep_view(),
        }
    }
}

impl DCHFileView {
    /// The four header fields, one per line.
    pub open spec fn render(self) -> Seq<char> {
        "package: "@ + self.package + "\n"@ + "version: "@ + self.version + "\n"@
            + "distribution: "@ + self.distribution + "\n"@ + "urgency: "@ + self.urgency + "\n"@
    }
}

impl DCHFile {
    /// The release that a descriptor stands for. A descriptor that names
    /// no package means the package called `name`; one that names no
    /// distribution or urgency means `stable` and `medium`. There are no
    /// details and no commands yet.
    pub fn new(
        name: &str,
        package: Option<String>,
        version: String,
        distribution: Option<String>,
        urgency: Option<String>,
    ) -> (file: DCHFile)
        ensures
            file@ == (DCHFileView {
                package: match package {
                    Some(package) => package@,
                    None => name@,
                },
                version: version@,
                distribution: match distribution {
                    Some(distribution) => distribution@,
                    None => DEFAULT_DISTRIBUTION@,
                },
                urgency: match urgency {
                    Some(urgency) => urgency@,
                    None => DEFAULT_URGENCY@,
                },
                details: Seq::empty(),
                before: Seq::empty(),
                after: Seq::empty(),
            }),
    {
        let file = DCHFile {
            package: match package {
                Some(package) => package,
                None => name.to_owned(),
            },
            version,
            distribution: match distribution {
                Some(distribution) => distribution,
                None => DEFAULT_DISTRIBUTION.to_owned(),
            },
            urgency: match urgency {
                Some(urgency) => urgency,
                None => DEFAULT_URGENCY.to_owned(),
            },
            details: Vec::new(),
            before: Vec::new(),
            after: Vec::new(),
        };
        proof {
            assert(file.details.deep_view() =~= Seq::<Seq<char>>::empty());
            assert(file.before.deep_view() =~= Seq::<Seq<Seq<char>>>::empty());
        }
        file
    }

    /// The four header fields, one per line.
    pub fn to_string(&self) -> (text: String)
        ensures
            text@ == self@.render(),
    {
        let mut text = String::new();
        text.append("package: ");
        text.append(self.package.as_str());
        text.append("\n");
        text.append("version: ");
        text.append(self.version.as_str());
        text.append("\n");
        text.append("distribution: ");
        text.append(self.distribution.as_str());
        text.append("\n");
        text.append("urgency: ");
        text.append(self.urgency.as_str());
        text.append("\n");
        text
    }
}

} // verus!
