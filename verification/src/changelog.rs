//! A changelog: release records, newest first.

use crate::grammar::{line_match, refused_pattern, GrammarError, LineGrammar};
use crate::parser::{feed, Event, Parser, ParserView};
use crate::record::{MantainerDetails, MantainerDetailsView, Record, RecordView};
use crate::text::{lines_in, split_lines};
use crate::timestamp::Timestamp;
use vstd::prelude::*;

verus! {

/// The records of a changelog file, the newest release first.
#[derive(Debug)]
pub struct Changelog {
    pub records: Vec<Record>,
}

impl View for Changelog {
    type V = Seq<RecordView>;

    open spec fn view(&self) -> Seq<RecordView> {
        self.records.deep_view()
    }
}

/// The text of a changelog: every record followed by a blank line.
pub open spec fn render_records(records: Seq<RecordView>) -> Seq<char>
    decreases records.len(),
{
    if records.len() == 0 {
        Seq::empty()
    } else {
        render_records(records.drop_last()) + records.last().render() + "\n"@
    }
}

/// The record of a new release: the given fields and one ungrouped run
/// holding the given details.
pub open spec fn released(
    package: Seq<char>,
    version: Seq<char>,
    distribution: Seq<char>,
    urgency: Seq<char>,
    details: Seq<Seq<char>>,
    mantainer_name: Seq<char>,
    mantainer_email: Seq<char>,
    date: Timestamp,
) -> RecordView {
    RecordView {
        package,
        version,
        distribution,
        urgency,
        mantainer_details: seq![MantainerDetailsView { mantainer: None, details }],
        mantainer_name,
        mantainer_email,
        date,
    }
}

/// The lines of a file, each with what the four patterns make of it.
pub open spec fn classified(lines: Seq<Seq<char>>) -> Seq<Event> {
    Seq::new(lines.len(), |i: int| Event { line: lines[i], found: line_match(lines[i]) })
}

/// The records that the lines of a file hold, in the order of the file.
/// `start` dates a record for which no readable date has been seen.
pub open spec fn parsed(lines: Seq<Seq<char>>, start: Timestamp) -> Seq<RecordView> {
    feed(ParserView::start(start), classified(lines)).1
}

/// Whether `line` is a signature line with a date that could not be read.
pub open spec fn date_unread(line: Seq<char>) -> bool {
    line.len() > 0 && match line_match(line).signature {
        Some(signature) => signature.date is None,
        None => false,
    }
}

/// The positions of the signature lines whose date could not be read, in
/// rising order.
pub open spec fn unread_dates(lines: Seq<Seq<char>>) -> Seq<usize>
    decreases lines.len(),
{
    if lines.len() == 0 {
        Seq::empty()
    } else if date_unread(lines.last()) {
        unread_dates(lines.drop_last()).push((lines.len() - 1) as usize)
    } else {
        unread_dates(lines.drop_last())
    }
}

impl Changelog {
    /// A changelog without records.
    pub fn new() -> (changelog: Changelog)
        ensures
            changelog@ == Seq::<RecordView>::empty(),
    {
        let changelog = Changelog { records: Vec::new() };
        changelog
    }

    /// The text of the changelog: every record followed by a blank line.
    pub fn to_string(&self) -> (text: String)
        ensures
            text@ == render_records(self@),
    {
        let mut text = String::new();
        let mut i: usize = 0;
        while i < self.records.len()
            invariant
                i <= self.records.len(),
                text@ == render_records(self@.take(i as int)),
            decreases self.records.len() - i,
        {
            assert(self@.take(i + 1).drop_last() =~= self@.take(i as int));
            let record = self.records[i].to_string();
            text.append(record.as_str());
            text.append("\n");
            i += 1;
        }
        assert(self@.take(i as int) =~= self@);
        text
    }

    /// Records a release: the new record, dated `date`, goes in front of
    /// all others, which keep their order.
    pub fn dch(
        &mut self,
        package: String,
        version: String,
        distribution: String,
        urgency: String,
        details: Vec<String>,
        mantainer_name: String,
        mantainer_email: String,
        date: Timestamp,
    )
        ensures
            final(self)@ == seq![
                released(
                    package@,
                    version@,
                    distribution@,
                    urgency@,
                    details.deep_view(),
                    mantainer_name@,
                    mantainer_email@,
                    date,
                ),
            ] + old(self)@,
            final(self)@.len() == old(self)@.len() + 1,
            forall|i: int|
                0 <= i < old(self)@.len() ==> final(self)@[i + 1] == (#[trigger] old(self)@[i]),
    {
        let mut groups: Vec<MantainerDetails> = Vec::new();
        groups.push(MantainerDetails { mantainer: None, details });
        let record = Record {
            package,
            version,
            distribution,
            urgency,
            mantainer_details: groups,
            mantainer_name,
            mantainer_email,
            date,
        };
        proof {
            assert(record.mantainer_details.deep_view() =~= seq![
                MantainerDetailsView { mantainer: None, details: details.deep_view() },
            ]);
        }
        self.records.insert(0, record);
    }

    /// Reads the records that `lines` hold and adds them behind those
    /// that are there, in the order of the file. Hands back the positions of
    /// the signature lines whose date could not be read; such a record keeps
    /// the date that the accumulator held, which is `start` as long as no
    /// date has been read.
    pub fn parse_lines(
        &mut self,
        grammar: &LineGrammar,
        lines: &Vec<String>,
        start: Timestamp,
    ) -> (unread: Vec<usize>)
        ensures
            final(self)@ == old(self)@ + parsed(lines.deep_view(), start),
            unread@ == unread_dates(lines.deep_view()),
    {
        let mut parser = Parser::new(start);
        let mut unread: Vec<usize> = Vec::new();
        let ghost all = lines.deep_view();
        let mut i: usize = 0;
        while i < lines.len()
            invariant
                i <= lines.len(),
                all == lines.deep_view(),
                parser@.wf(),
                parser@ == feed(ParserView::start(start), classified(all.take(i as int))).0,
                self@ == old(self)@ + feed(
                    ParserView::start(start),
                    classified(all.take(i as int)),
                ).1,
                unread@ == unread_dates(all.take(i as int)),
            decreases lines.len() - i,
        {
            let line = lines[i].as_str();
            proof {
                assert(all.take(i + 1).drop_last() =~= all.take(i as int));
                assert(classified(all.take(i + 1)).drop_last() =~= classified(all.take(i as int)));
            }
            if !line.is_empty() {
                let found = grammar.classify(line);
                let date_unread = match &found.signature {
                    Some(signature) => signature.date.is_none(),
                    None => false,
                };
                if date_unread {
                    unread.push(i);
                }
                let ghost before = self@;
                match parser.step(line, found) {
                    Some(record) => {
                        self.records.push(record);
                        assert(self@ =~= before.push(record@));
                    },
                    None => {},
                }
            }
            i += 1;
        }
        assert(all.take(i as int) =~= all);
        unread
    }

    /// Compiles the four patterns and reads `lines` as
    /// [`Changelog::parse_lines`] does. Fails, and leaves the changelog as
    /// it was, only where the regex crate turns down one of the patterns.
    pub fn from_lines(&mut self, lines: &Vec<String>, start: Timestamp) -> (unread: Result<
        Vec<usize>,
        GrammarError,
    >)
        ensures
            match refused_pattern() {
                Some(which) => unread == Err::<Vec<usize>, GrammarError>(which) && final(self)@
                    == old(self)@,
                None => unread is Ok && unread.unwrap()@ == unread_dates(lines.deep_view())
                    && final(self)@ == old(self)@ + parsed(lines.deep_view(), start),
            },
    {
        match LineGrammar::new() {
            Ok(grammar) => Ok(self.parse_lines(&grammar, lines, start)),
            Err(error) => Err(error),
        }
    }

    /// Splits `text` into its lines and reads them as
    /// [`Changelog::from_lines`] does.
    pub fn from(&mut self, text: &str, start: Timestamp) -> (unread: Result<
        Vec<usize>,
        GrammarError,
    >)
        ensures
            match refused_pattern() {
                Some(which) => unread == Err::<Vec<usize>, GrammarError>(which) && final(self)@
                    == old(self)@,
                None => unread is Ok && unread.unwrap()@ == unread_dates(lines_in(text@))
                    && final(self)@ == old(self)@ + parsed(lines_in(text@), start),
            },
    {
        let lines = split_lines(text);
        self.from_lines(&lines, start)
    }
}

} // verus!
