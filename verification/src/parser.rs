//! The state machine that turns classified lines into records.
//!
//! A record is open from its first line on and closes at the first line by
//! which a header, a detail and a signature have all been seen. Attribution
//! lines split the details of a record into groups but play no part in
//! closing it.

use crate::grammar::{Header, HeaderView, LineMatch, LineMatchView, Signature, SignatureView};
use crate::record::{MantainerDetails, MantainerDetailsView, Record, RecordView};
use crate::timestamp::Timestamp;
use vstd::prelude::*;

verus! {

/// `groups` with `detail` added behind the lines of its last group.
pub open spec fn with_detail(groups: Seq<MantainerDetailsView>, detail: Seq<char>) -> Seq<
    MantainerDetailsView,
>
    recommends
        groups.len() >= 1,
{
    let last = groups.last();
    groups.update(
        groups.len() - 1,
        MantainerDetailsView { mantainer: last.mantainer, details: last.details.push(detail) },
    )
}

/// `groups` after an attribution line: the name goes to the last group if
/// that has none yet, and opens a new group otherwise.
pub open spec fn with_mantainer(groups: Seq<MantainerDetailsView>, name: Seq<char>) -> Seq<
    MantainerDetailsView,
>
    recommends
        groups.len() >= 1,
{
    let last = groups.last();
    if last.mantainer is None {
        groups.update(
            groups.len() - 1,
            MantainerDetailsView { mantainer: Some(name), details: last.details },
        )
    } else {
        groups.push(MantainerDetailsView { mantainer: Some(name), details: Seq::empty() })
    }
}

/// `groups` with a line break and `line` added to the last detail of its
/// last group; unchanged where that group has no detail yet.
pub open spec fn with_continuation(groups: Seq<MantainerDetailsView>, line: Seq<char>) -> Seq<
    MantainerDetailsView,
>
    recommends
        groups.len() >= 1,
{
    let last = groups.last();
    if last.details.len() > 0 {
        let wrapped = last.details.last() + "\n"@ + line;
        groups.update(
            groups.len() - 1,
            MantainerDetailsView {
                mantainer: last.mantainer,
                details: last.details.update(last.details.len() - 1, wrapped),
            },
        )
    } else {
        groups
    }
}

/// The record being read and what has been seen of it so far.
#[derive(Debug)]
pub struct Parser {
    /// A header line was seen since the last record closed.
    pub seen_header: bool,
    /// A detail line was seen since the last record closed.
    pub seen_detail: bool,
    /// A signature line was seen since the last record closed.
    pub seen_signature: bool,
    /// The record that the lines are collected into.
    pub accumulator: Record,
}

/// The mathematical value of a [`Parser`].
pub struct ParserView {
    pub seen_header: bool,
    pub seen_detail: bool,
    pub seen_signature: bool,
    pub accumulator: RecordView,
}

impl View for Parser {
    type V = ParserView;

    open spec fn view(&self) -> ParserView {
        ParserView {
            seen_header: self.seen_header,
            seen_detail: self.seen_detail,
            seen_signature: self.seen_signature,
            accumulator: self.accumulator@,
        }
    }
}

impl ParserView {
    /// The accumulator has a group to put the next detail into.
    pub open spec fn wf(self) -> bool {
        self.accumulator.wf()
    }

    /// The state before the first line: nothing seen, a blank accumulator.
    pub open spec fn start(date: Timestamp) -> ParserView {
        ParserView {
            seen_header: false,
            seen_detail: false,
            seen_signature: false,
            accumulator: RecordView::blank(date),
        }
    }

    /// A header overwrites the four header fields.
    pub open spec fn take_header(self, header: Option<HeaderView>) -> ParserView {
        match header {
            Some(header) => ParserView {
                seen_header: true,
                accumulator: RecordView {
                    package: header.package,
                    version: header.version,
                    distribution: header.distribution,
                    urgency: header.urgency,
                    ..self.accumulator
                },
                ..self
            },
            None => self,
        }
    }

    /// A detail becomes a new line of the last group.
    pub open spec fn take_detail(self, detail: Option<Seq<char>>) -> ParserView {
        match detail {
            Some(detail) => ParserView {
                seen_detail: true,
                accumulator: RecordView {
                    mantainer_details: with_detail(self.accumulator.mantainer_details, detail),
                    ..self.accumulator
                },
                ..self
            },
            None => self,
        }
    }

    /// An attribution names the last group or opens a new one.
    pub open spec fn take_mantainer(self, mantainer: Option<Seq<char>>) -> ParserView {
        match mantainer {
            Some(name) => ParserView {
                accumulator: RecordView {
                    mantainer_details: with_mantainer(self.accumulator.mantainer_details, name),
                    ..self.accumulator
                },
                ..self
            },
            None => self,
        }
    }

    /// A signature overwrites name and e-mail address, and the date where
    /// it could be read; an unreadable date leaves the one that was there.
    pub open spec fn take_signature(self, signature: Option<SignatureView>) -> ParserView {
        match signature {
            Some(signature) => ParserView {
                seen_signature: true,
                accumulator: RecordView {
                    mantainer_name: signature.mantainer_name,
                    mantainer_email: signature.mantainer_email,
                    date: match signature.date {
                        Some(date) => date,
                        None => self.accumulator.date,
                    },
                    ..self.accumulator
                },
                ..self
            },
            None => self,
        }
    }

    /// Whether `found` makes its line a continuation of the detail before
    /// it: the line is neither detail, attribution nor signature, and the
    /// record has had its header and a detail.
    pub open spec fn continues(self, found: LineMatchView) -> bool {
        &&& self.seen_header
        &&& self.seen_detail
        &&& found.detail is None
        &&& found.mantainer is None
        &&& found.signature is None
    }

    /// A continuation line is added, as it stands, to the detail before it.
    pub open spec fn take_continuation(self, line: Seq<char>, found: LineMatchView) -> ParserView {
        if self.continues(found) {
            ParserView {
                accumulator: RecordView {
                    mantainer_details: with_continuation(self.accumulator.mantainer_details, line),
                    ..self.accumulator
                },
                ..self
            }
        } else {
            self
        }
    }

    /// Whether header, detail and signature have all been seen.
    pub open spec fn complete(self) -> bool {
        self.seen_header && self.seen_detail && self.seen_signature
    }

    /// A complete record leaves the parser: the accumulator is handed out,
    /// nothing counts as seen any more, and the accumulator keeps its fields
    /// but starts over with one ungrouped run without lines.
    pub open spec fn close(self) -> (ParserView, Option<RecordView>) {
        if self.complete() {
            (
                ParserView {
                    seen_header: false,
                    seen_detail: false,
                    seen_signature: false,
                    accumulator: RecordView {
                        mantainer_details: seq![MantainerDetailsView::fresh()],
                        ..self.accumulator
                    },
                },
                Some(self.accumulator),
            )
        } else {
            (self, None)
        }
    }

    /// The state after one line and the record that the line closed, if
    /// any. An empty line changes nothing. Any other line is taken as
    /// header, detail, attribution and signature, in this order and each as
    /// far as `found` says, then as a continuation, and last the record is
    /// closed if it is complete.
    pub open spec fn step(self, line: Seq<char>, found: LineMatchView) -> (
        ParserView,
        Option<RecordView>,
    ) {
        if line.len() == 0 {
            (self, None)
        } else {
            self.take_header(found.header).take_detail(found.detail).take_mantainer(
                found.mantainer,
            ).take_signature(found.signature).take_continuation(line, found).close()
        }
    }
}

/// A classified line: its text and what the four shapes made of it.
pub struct Event {
    pub line: Seq<char>,
    pub found: LineMatchView,
}

/// The state after a run of lines and the records that they closed, oldest
/// closing first.
pub open spec fn feed(state: ParserView, events: Seq<Event>) -> (ParserView, Seq<RecordView>)
    decreases events.len(),
{
    if events.len() == 0 {
        (state, Seq::empty())
    } else {
        let (before, records) = feed(state, events.drop_last());
        let (after, done) = before.step(events.last().line, events.last().found);
        (
            after,
            match done {
                Some(record) => records.push(record),
                None => records,
            },
        )
    }
}

fn push_detail(groups: &mut Vec<MantainerDetails>, detail: String)
    requires
        old(groups).len() >= 1,
    ensures
        final(groups).deep_view() == with_detail(old(groups).deep_view(), detail@),
{
    let last = groups.len() - 1;
    groups[last].details.push(detail);
    proof {
        let before = old(groups).deep_view()[last as int].details;
        assert(groups.deep_view()[last as int].details =~= before.push(detail@));
    }
}

fn push_mantainer(groups: &mut Vec<MantainerDetails>, name: String)
    requires
        old(groups).len() >= 1,
    ensures
        final(groups).deep_view() == with_mantainer(old(groups).deep_view(), name@),
{
    let last = groups.len() - 1;
    if groups[last].mantainer.is_none() {
        groups[last].mantainer = Some(name);
    } else {
        let group = MantainerDetails { mantainer: Some(name), details: Vec::new() };
        assert(group.details.deep_view() =~= Seq::<Seq<char>>::empty());
        groups.push(group);
    }
}

fn push_continuation(groups: &mut Vec<MantainerDetails>, line: &str)
    requires
        old(groups).len() >= 1,
    ensures
        final(groups).deep_view() == with_continuation(old(groups).deep_view(), line@),
{
    let last = groups.len() - 1;
    let count = groups[last].details.len();
    if count > 0 {
        groups[last].details[count - 1].append("\n");
        groups[last].details[count - 1].append(line);
        proof {
            let before = old(groups).deep_view()[last as int].details;
            assert(groups.deep_view()[last as int].details =~= before.update(
                count - 1,
                before.last() + "\n"@ + line@,
            ));
        }
    }
}

impl Parser {
    /// The parser before the first line. `date` is what a record is dated
    /// with as long as no signature with a readable date has come by.
    pub fn new(date: Timestamp) -> (parser: Parser)
        ensures
            parser@ == ParserView::start(date),
            parser@.wf(),
    {
        Parser {
            seen_header: false,
            seen_detail: false,
            seen_signature: false,
            accumulator: Record::new(date),
        }
    }

    fn take_header(&mut self, header: Option<Header>)
        ensures
            final(self)@ == old(self)@.take_header(header.deep_view()),
    {
        match header {
            Some(header) => {
                self.seen_header = true;
                self.accumulator.package = header.package;
                self.accumulator.version = header.version;
                self.accumulator.distribution = header.distribution;
                self.accumulator.urgency = header.urgency;
            },
            None => {},
        }
    }

    fn take_detail(&mut self, detail: Option<String>)
        requires
            old(self)@.wf(),
        ensures
            final(self)@ == old(self)@.take_detail(detail.deep_view()),
    {
        match detail {
            Some(detail) => {
                self.seen_detail = true;
                push_detail(&mut self.accumulator.mantainer_details, detail);
            },
            None => {},
        }
    }

    fn take_mantainer(&mut self, mantainer: Option<String>)
        requires
            old(self)@.wf(),
        ensures
            final(self)@ == old(self)@.take_mantainer(mantainer.deep_view()),
    {
        match mantainer {
            Some(name) => {
                push_mantainer(&mut self.accumulator.mantainer_details, name);
            },
            None => {},
        }
    }

    fn take_signature(&mut self, signature: Option<Signature>)
        ensures
            final(self)@ == old(self)@.take_signature(signature.deep_view()),
    {
        match signature {
            Some(signature) => {
                self.seen_signature = true;
                self.accumulator.mantainer_name = signature.mantainer_name;
                self.accumulator.mantainer_email = signature.mantainer_email;
                match signature.date {
                    Some(date) => {
                        self.accumulator.date = date;
                    },
                    None => {},
                }
            },
            None => {},
        }
    }

    fn close(&mut self) -> (done: Option<Record>)
        ensures
            (final(self)@, done.deep_view()) == old(self)@.close(),
    {
        if self.seen_header && self.seen_detail && self.seen_signature {
            let done = self.accumulator.copy();
            self.seen_header = false;
            self.seen_detail = false;
            self.seen_signature = false;
            let mut groups: Vec<MantainerDetails> = Vec::new();
            groups.push(MantainerDetails::new());
            assert(groups.deep_view() =~= seq![MantainerDetailsView::fresh()]);
            self.accumulator.mantainer_details = groups;
            Some(done)
        } else {
            None
        }
    }

    /// Takes one line with what the four shapes made of it, and hands out
    /// the record that the line closed, if any.
    pub fn step(&mut self, line: &str, found: LineMatch) -> (done: Option<Record>)
        requires
            old(self)@.wf(),
        ensures
            (final(self)@, done.deep_view()) == old(self)@.step(line@, found@),
            final(self)@.wf(),
    {
        if line.is_empty() {
            return None;
        }
        let continues = found.detail.is_none() && found.mantainer.is_none()
            && found.signature.is_none();
        self.take_header(found.header);
        self.take_detail(found.detail);
        self.take_mantainer(found.mantainer);
        self.take_signature(found.signature);
        if continues && self.seen_header && self.seen_detail {
            push_continuation(&mut self.accumulator.mantainer_details, line);
        }
        self.close()
    }
}

} // verus!
