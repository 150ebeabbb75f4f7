//! One release record and the groups of detail lines it holds.

use crate::timestamp::Timestamp;
use vstd::prelude::*;

verus! {

/// A run of detail lines, optionally attributed to one contributor.
#[derive(Clone, Debug)]
pub struct MantainerDetails {
    /// The contributor named on the `[ NAME ]` line; `None` for an ungrouped run.
    pub mantainer: Option<String>,
    /// One element per bullet; a wrapped bullet keeps its line breaks.
    pub details: Vec<String>,
}

/// The mathematical value of a [`MantainerDetails`].
pub struct MantainerDetailsView {
    pub mantainer: Option<Seq<char>>,
    pub details: Seq<Seq<char>>,
}

impl View for MantainerDetails {
    type V = MantainerDetailsView;

    open spec fn view(&self) -> MantainerDetailsView {
        MantainerDetailsView {
            mantainer: self.mantainer.deep_view(),
            details: self.details.deep_view(),
        }
    }
}

impl DeepView for MantainerDetails {
    type V = MantainerDetailsView;

    open spec fn deep_view(&self) -> MantainerDetailsView {
        self@
    }
}

impl MantainerDetailsView {
    /// The group a record starts with: no contributor, no lines.
    pub open spec fn fresh() -> MantainerDetailsView {
        MantainerDetailsView { mantainer: None, details: Seq::empty() }
    }

    /// The text of the group: the `[ NAME ]` line if it is attributed, one
    /// bullet per detail, then a blank line.
    pub open spec fn render(self) -> Seq<char> {
        let marker = match self.mantainer {
            Some(name) => "  [ "@ + name + " ]\n"@,
            None => Seq::empty(),
        };
        marker + render_details(self.details) + "\n"@
    }
}

/// The bullets of a group, each on a line of its own behind `  * `.
pub open spec fn render_details(details: Seq<Seq<char>>) -> Seq<char>
    decreases details.len(),
{
    if details.len() == 0 {
        Seq::empty()
    } else {
        render_details(details.drop_last()) + "  * "@ + details.last() + "\n"@
    }
}

/// The groups of a record, one after the other.
pub open spec fn render_groups(groups: Seq<MantainerDetailsView>) -> Seq<char>
    decreases groups.len(),
{
    if groups.len() == 0 {
        Seq::empty()
    } else {
        render_groups(groups.drop_last()) + groups.last().render()
    }
}

impl MantainerDetails {
    /// An ungrouped run without lines.
    pub fn new() -> (group: MantainerDetails)
        ensures
            group@ == MantainerDetailsView::fresh(),
    {
        let group = MantainerDetails { mantainer: None, details: Vec::new() };
        assert(group.details.deep_view() =~= Seq::<Seq<char>>::empty());
        group
    }

    /// A copy that shares nothing with `self`.
    pub fn copy(&self) -> (group: MantainerDetails)
        ensures
            group@ == self@,
    {
        let mantainer = match &self.mantainer {
            Some(name) => Some(name.clone()),
            None => None,
        };
        let details = copy_lines(&self.details);
        MantainerDetails { mantainer, details }
    }

    /// Appends the text of the group to `out`.
    pub fn write_to(&self, out: &mut String)
        ensures
            final(out)@ == old(out)@ + self@.render(),
    {
        match &self.mantainer {
            Some(name) => {
                out.append("  [ ");
                out.append(name.as_str());
                out.append(" ]\n");
            },
            None => {},
        }
        let ghost marked = out@;
        let mut i: usize = 0;
        while i < self.details.len()
            invariant
                i <= self.details.len(),
                out@ == marked + render_details(self.details.deep_view().take(i as int)),
            decreases self.details.len() - i,
        {
            proof {
                let lines = self.details.deep_view();
                assert(lines.take(i + 1).drop_last() =~= lines.take(i as int));
            }
            out.append("  * ");
            out.append(self.details[i].as_str());
            out.append("\n");
            i += 1;
        }
        proof {
            let lines = self.details.deep_view();
            assert(lines.take(i as int) =~= lines);
        }
        out.append("\n");
    }
}

/// A copy of `lines` that shares nothing with it.
pub fn copy_lines(lines: &Vec<String>) -> (copy: Vec<String>)
    ensures
        copy.deep_view() == lines.deep_view(),
{
    let mut copy: Vec<String> = Vec::new();
    let mut i: usize = 0;
    while i < lines.len()
        invariant
            i <= lines.len(),
            copy.len() == i,
            forall|k: int| 0 <= k < i ==> copy[k]@ == lines[k]@,
        decreases lines.len() - i,
    {
        copy.push(lines[i].clone());
        i += 1;
    }
    copy
}

/// One release: the header fields, the groups of detail lines, and the
/// signature that closes it.
#[derive(Debug)]
pub struct Record {
    pub package: String,
    pub version: String,
    pub distribution: String,
    pub urgency: String,
    /// Never empty in a well-formed record; the last group is the one being filled.
    pub mantainer_details: Vec<MantainerDetails>,
    pub mantainer_name: String,
    pub mantainer_email: String,
    pub date: Timestamp,
}

/// The mathematical value of a [`Record`].
pub struct RecordView {
    pub package: Seq<char>,
    pub version: Seq<char>,
    pub distribution: Seq<char>,
    pub urgency: Seq<char>,
    pub mantainer_details: Seq<MantainerDetailsView>,
    pub mantainer_name: Seq<char>,
    pub mantainer_email: Seq<char>,
    pub date: Timestamp,
}

impl View for Record {
    type V = RecordView;

    open spec fn view(&self) -> RecordView {
        RecordView {
            package: self.package@,
            version: self.version@,
            distribution: self.distribution@,
            urgency: self.urgency@,
            mantainer_details: self.mantainer_details.deep_view(),
            mantainer_name: self.mantainer_name@,
            mantainer_email: self.mantainer_email@,
            date: self.date,
        }
    }
}

impl DeepView for Record {
    type V = RecordView;

    open spec fn deep_view(&self) -> RecordView {
        self@
    }
}

impl RecordView {
    /// A record always has a group to put the next detail into.
    pub open spec fn wf(self) -> bool {
        self.mantainer_details.len() >= 1
    }

    /// The record every parse and every release starts from: empty fields
    /// and one ungrouped run without lines.
    pub open spec fn blank(date: Timestamp) -> RecordView {
        RecordView {
            package: Seq::empty(),
            version: Seq::empty(),
            distribution: Seq::empty(),
            urgency: Seq::empty(),
            mantainer_details: seq![MantainerDetailsView::fresh()],
            mantainer_name: Seq::empty(),
            mantainer_email: Seq::empty(),
            date,
        }
    }

    /// `PACKAGE (VERSION) DISTRIBUTION; urgency=URGENCY`
    pub open spec fn header_line(self) -> Seq<char> {
        self.package + " ("@ + self.version + ") "@ + self.distribution + "; urgency="@
            + self.urgency + "\n"@
    }

    /// ` -- NAME <EMAIL>  DATE`, with the date text given.
    pub open spec fn signature_line(self, date_text: Seq<char>) -> Seq<char> {
        " -- "@ + self.mantainer_name + " <"@ + self.mantainer_email + ">  "@ + date_text + "\n"@
    }

    /// The canonical text of the record around a given date text: header
    /// line, blank line, the groups, signature line.
    pub open spec fn render_with(self, date_text: Seq<char>) -> Seq<char> {
        self.header_line() + "\n"@ + render_groups(self.mantainer_details)
            + self.signature_line(date_text)
    }

    /// The canonical text of the record.
    pub open spec fn render(self) -> Seq<char> {
        self.render_with(self.date.text())
    }
}

impl Record {
    /// A blank record: empty fields, one ungrouped run without lines, and
    /// the given date, which is the current time where the record is to be
    /// filled from a file.
    pub fn new(date: Timestamp) -> (record: Record)
        ensures
            record@ == RecordView::blank(date),
    {
        let mut mantainer_details: Vec<MantainerDetails> = Vec::new();
        mantainer_details.push(MantainerDetails::new());
        let record = Record {
            package: String::new(),
            version: String::new(),
            distribution: String::new(),
            urgency: String::new(),
            mantainer_details,
            mantainer_name: String::new(),
            mantainer_email: String::new(),
            date,
        };
        assert(record.mantainer_details.deep_view() =~= seq![MantainerDetailsView::fresh()]);
        record
    }

    /// A copy that shares nothing with `self`.
    pub fn copy(&self) -> (record: Record)
        ensures
            record@ == self@,
    {
        Record {
            package: self.package.clone(),
            version: self.version.clone(),
            distribution: self.distribution.clone(),
            urgency: self.urgency.clone(),
            mantainer_details: copy_groups(&self.mantainer_details),
            mantainer_name: self.mantainer_name.clone(),
            mantainer_email: self.mantainer_email.clone(),
            date: self.date,
        }
    }

    /// The canonical text of the record, with `date_text` where the date goes.
    pub fn render_with(&self, date_text: &str) -> (text: String)
        ensures
            text@ == self@.render_with(date_text@),
    {
        let mut text = String::new();
        text.append(self.package.as_str());
        text.append(" (");
        text.append(self.version.as_str());
        text.append(") ");
        text.append(self.distribution.as_str());
        text.append("; urgency=");
        text.append(self.urgency.as_str());
        text.append("\n");
        text.append("\n");
        let ghost head = text@;
        let mut i: usize = 0;
        while i < self.mantainer_details.len()
            invariant
                i <= self.mantainer_details.len(),
                text@ == head + render_groups(self.mantainer_details.deep_view().take(i as int)),
            decreases self.mantainer_details.len() - i,
        {
            proof {
                let groups = self.mantainer_details.deep_view();
                assert(groups.take(i + 1).drop_last() =~= groups.take(i as int));
            }
            self.mantainer_details[i].write_to(&mut text);
            i += 1;
        }
        proof {
            let groups = self.mantainer_details.deep_view();
            assert(groups.take(i as int) =~= groups);
        }
        text.append(" -- ");
        text.append(self.mantainer_name.as_str());
        text.append(" <");
        text.append(self.mantainer_email.as_str());
        text.append(">  ");
        text.append(date_text);
        text.append("\n");
        text
    }

    /// The canonical text of the record.
    pub fn to_string(&self) -> (text: String)
        ensures
            text@ == self@.render(),
    {
        let date_text = self.date.to_string();
        self.render_with(date_text.as_str())
    }
}

/// A copy of `groups` that shares nothing with it.
pub fn copy_groups(groups: &Vec<MantainerDetails>) -> (copy: Vec<MantainerDetails>)
    ensures
        copy.deep_view() == groups.deep_view(),
{
    let mut copy: Vec<MantainerDetails> = Vec::new();
    let mut i: usize = 0;
    while i < groups.len()
        invariant
            i <= groups.len(),
            copy.len() == i,
            forall|k: int| 0 <= k < i ==> copy[k]@ == groups[k]@,
        decreases groups.len() - i,
    {
        copy.push(groups[i].copy());
        i += 1;
    }
    copy
}

} // verus!
