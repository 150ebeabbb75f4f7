//! What holds of the parser whatever the lines are.

use crate::changelog::{classified, parsed};
use crate::grammar::{line_match, LineMatchView};
use crate::parser::{feed, with_continuation, with_detail, with_mantainer, Event, ParserView};
use crate::record::{MantainerDetailsView, RecordView};
use crate::timestamp::Timestamp;
use vstd::prelude::*;

verus! {

impl Event {
    /// A line that is a header and nothing else.
    pub open spec fn is_header(self) -> bool {
        &&& self.line.len() > 0
        &&& self.found.header is Some
        &&& self.found.detail is None
        &&& self.found.mantainer is None
        &&& self.found.signature is None
    }

    /// A line that is a detail and nothing else.
    pub open spec fn is_detail(self) -> bool {
        &&& self.line.len() > 0
        &&& self.found.header is None
        &&& self.found.detail is Some
        &&& self.found.mantainer is None
        &&& self.found.signature is None
    }

    /// A line that is an attribution and nothing else.
    pub open spec fn is_mantainer(self) -> bool {
        &&& self.line.len() > 0
        &&& self.found.header is None
        &&& self.found.detail is None
        &&& self.found.mantainer is Some
        &&& self.found.signature is None
    }

    /// A line that is a signature and nothing else.
    pub open spec fn is_signature(self) -> bool {
        &&& self.line.len() > 0
        &&& self.found.header is None
        &&& self.found.detail is None
        &&& self.found.mantainer is None
        &&& self.found.signature is Some
    }

    /// A line that is not empty and has none of the four shapes.
    pub open spec fn is_plain(self) -> bool {
        &&& self.line.len() > 0
        &&& self.found == LineMatchView::plain()
    }
}

/// Every event of the run is a detail and nothing else.
pub open spec fn all_details(events: Seq<Event>) -> bool {
    forall|i: int| 0 <= i < events.len() ==> (#[trigger] events[i]).is_detail()
}

/// Every event of the run is a line without any of the four shapes.
pub open spec fn all_plain(events: Seq<Event>) -> bool {
    forall|i: int| 0 <= i < events.len() ==> (#[trigger] events[i]).is_plain()
}

/// The texts that a run of detail lines captured.
pub open spec fn details_of(events: Seq<Event>) -> Seq<Seq<char>> {
    Seq::new(events.len(), |i: int| events[i].found.detail.unwrap())
}

/// The texts of a run of lines.
pub open spec fn lines_of(events: Seq<Event>) -> Seq<Seq<char>> {
    Seq::new(events.len(), |i: int| events[i].line)
}

/// `first` with each of `more` added behind a line break.
pub open spec fn wrapped(first: Seq<char>, more: Seq<Seq<char>>) -> Seq<char>
    decreases more.len(),
{
    if more.len() == 0 {
        first
    } else {
        wrapped(first, more.drop_last()) + "\n"@ + more.last()
    }
}

/// `groups` with `details` added behind the lines of its last group.
pub open spec fn with_details(groups: Seq<MantainerDetailsView>, details: Seq<Seq<char>>) -> Seq<
    MantainerDetailsView,
>
    recommends
        groups.len() >= 1,
{
    let last = groups.last();
    groups.update(
        groups.len() - 1,
        MantainerDetailsView { mantainer: last.mantainer, details: last.details + details },
    )
}

/// Feeding two runs of lines one after the other is feeding them as one.
pub proof fn lemma_feed_concat(state: ParserView, first: Seq<Event>, second: Seq<Event>)
    ensures
        feed(state, first + second) == ({
            let (middle, early) = feed(state, first);
            let (end, late) = feed(middle, second);
            (end, early + late)
        }),
    decreases second.len(),
{
    if second.len() > 0 {
        assert((first + second).drop_last() =~= first + second.drop_last());
        lemma_feed_concat(state, first, second.drop_last());
    }
}

/// Feeding a single line is one step.
pub proof fn lemma_feed_one(state: ParserView, event: Event)
    ensures
        feed(state, seq![event]) == ({
            let (after, done) = state.step(event.line, event.found);
            (
                after,
                match done {
                    Some(record) => seq![record],
                    None => Seq::empty(),
                },
            )
        }),
{
    assert(feed(state, seq![event].drop_last()) == (state, Seq::<RecordView>::empty()));
}

/// A run of detail lines goes to the last group, line by line, and closes
/// no record as long as header and signature have not both been seen.
pub proof fn lemma_feed_details(state: ParserView, events: Seq<Event>)
    requires
        state.wf(),
        !(state.seen_header && state.seen_signature),
        all_details(events),
    ensures
        feed(state, events) == (
            ParserView {
                seen_detail: state.seen_detail || events.len() > 0,
                accumulator: RecordView {
                    mantainer_details: with_details(
                        state.accumulator.mantainer_details,
                        details_of(events),
                    ),
                    ..state.accumulator
                },
                ..state
            },
            Seq::<RecordView>::empty(),
        ),
    decreases events.len(),
{
    let groups = state.accumulator.mantainer_details;
    if events.len() == 0 {
        assert(with_details(groups, details_of(events)) =~= groups);
    } else {
        let early = events.drop_last();
        lemma_feed_details(state, early);
        let before = feed(state, early).0;
        let detail = events.last().found.detail.unwrap();
        assert(details_of(events) =~= details_of(early).push(detail));
        assert(with_detail(before.accumulator.mantainer_details, detail) =~= with_details(
            groups,
            details_of(events),
        ));
    }
}

/// A run of lines without any shape, behind a detail of a record whose
/// header has been seen, is added to that detail line by line, and closes
/// no record.
pub proof fn lemma_feed_plain(state: ParserView, events: Seq<Event>)
    requires
        state.wf(),
        state.seen_header,
        state.seen_detail,
        !state.seen_signature,
        state.accumulator.mantainer_details.last().details.len() > 0,
        all_plain(events),
    ensures
        feed(state, events) == (
            ParserView {
                accumulator: RecordView {
                    mantainer_details: ({
                        let groups = state.accumulator.mantainer_details;
                        let last = groups.last();
                        groups.update(
                            groups.len() - 1,
                            MantainerDetailsView {
                                mantainer: last.mantainer,
                                details: last.details.update(
                                    last.details.len() - 1,
                                    wrapped(last.details.last(), lines_of(events)),
                                ),
                            },
                        )
                    }),
                    ..state.accumulator
                },
                ..state
            },
            Seq::<RecordView>::empty(),
        ),
    decreases events.len(),
{
    let groups = state.accumulator.mantainer_details;
    let last = groups.last();
    if events.len() == 0 {
        assert(last.details.update(last.details.len() - 1, last.details.last())
            =~= last.details);
        assert(groups.update(
            groups.len() - 1,
            MantainerDetailsView { mantainer: last.mantainer, details: last.details },
        ) =~= groups);
    } else {
        let early = events.drop_last();
        let event = events.last();
        lemma_feed_plain(state, early);
        let before = feed(state, early).0;
        assert(lines_of(events).drop_last() =~= lines_of(early));
        let fed = with_continuation(before.accumulator.mantainer_details, event.line);
        let folded = wrapped(last.details.last(), lines_of(events));
        assert(fed =~= groups.update(
            groups.len() - 1,
            MantainerDetailsView {
                mantainer: last.mantainer,
                details: last.details.update(last.details.len() - 1, folded),
            },
        )) by {
            let now = before.accumulator.mantainer_details.last();
            assert(now.details.update(now.details.len() - 1, folded) =~= last.details.update(
                last.details.len() - 1,
                folded,
            ));
        }
    }
}

/// Continuation folding: a detail line followed by lines without any shape
/// yields one detail, the text of the detail line and then each of the
/// other lines behind a line break, in order. This holds once the header of
/// the record has been seen and as long as its signature has not.
pub proof fn lemma_continuation_folding(state: ParserView, detail: Event, more: Seq<Event>)
    requires
        state.wf(),
        state.seen_header,
        !state.seen_signature,
        detail.is_detail(),
        all_plain(more),
    ensures
        feed(state, seq![detail] + more) == (
            ParserView {
                seen_detail: true,
                accumulator: RecordView {
                    mantainer_details: with_detail(
                        state.accumulator.mantainer_details,
                        wrapped(detail.found.detail.unwrap(), lines_of(more)),
                    ),
                    ..state.accumulator
                },
                ..state
            },
            Seq::<RecordView>::empty(),
        ),
{
    lemma_feed_concat(state, seq![detail], more);
    lemma_feed_one(state, detail);
    let middle = feed(state, seq![detail]).0;
    lemma_feed_plain(middle, more);
    let groups = state.accumulator.mantainer_details;
    let text = detail.found.detail.unwrap();
    let folded = wrapped(text, lines_of(more));
    assert(groups.last().details.push(text).update(groups.last().details.len() as int, folded)
        =~= groups.last().details.push(folded));
    assert(feed(state, seq![detail] + more).0.accumulator.mantainer_details =~= with_detail(
        groups,
        folded,
    ));
}

/// Two attributions: an attribution line, detail lines, a second
/// attribution line and more detail lines, read into a record whose last
/// group has no contributor yet, give that group the first name and the
/// first details, and open one new group with the second name and the
/// second details.
pub proof fn lemma_two_attributions(
    state: ParserView,
    first: Event,
    first_details: Seq<Event>,
    second: Event,
    second_details: Seq<Event>,
)
    requires
        state.wf(),
        !(state.seen_header && state.seen_signature),
        state.accumulator.mantainer_details.last().mantainer is None,
        first.is_mantainer(),
        all_details(first_details),
        second.is_mantainer(),
        all_details(second_details),
    ensures
        feed(
            state,
            seq![first] + first_details + seq![second] + second_details,
        ).1 == Seq::<RecordView>::empty(),
        feed(
            state,
            seq![first] + first_details + seq![second] + second_details,
        ).0.accumulator.mantainer_details == state.accumulator.mantainer_details.drop_last() + seq![
            MantainerDetailsView {
                mantainer: first.found.mantainer,
                details: state.accumulator.mantainer_details.last().details + details_of(
                    first_details,
                ),
            },
            MantainerDetailsView {
                mantainer: second.found.mantainer,
                details: details_of(second_details),
            },
        ],
{
    let a = seq![first];
    let b = seq![second];
    lemma_feed_concat(state, a + first_details + b, second_details);
    lemma_feed_concat(state, a + first_details, b);
    lemma_feed_concat(state, a, first_details);
    lemma_feed_one(state, first);
    let named = feed(state, a).0;
    lemma_feed_details(named, first_details);
    let filled = feed(named, first_details).0;
    lemma_feed_one(filled, second);
    let opened = feed(filled, b).0;
    lemma_feed_details(opened, second_details);
    assert(Seq::<Seq<char>>::empty() + details_of(second_details) =~= details_of(second_details));
}

/// Boundary: read from a state in which nothing has been seen and the
/// accumulator holds one ungrouped run without lines, a header line, one or
/// more detail lines and a signature line close exactly one record, at the
/// signature line and not before. The record has the fields of the header
/// and the signature and a single ungrouped run with the details, and the
/// parser is left as it began but for the fields that it keeps.
pub proof fn lemma_record_without_attribution(
    state: ParserView,
    header: Event,
    details: Seq<Event>,
    signature: Event,
)
    requires
        !state.seen_header,
        !state.seen_detail,
        !state.seen_signature,
        state.accumulator.mantainer_details == seq![MantainerDetailsView::fresh()],
        header.is_header(),
        details.len() >= 1,
        all_details(details),
        signature.is_signature(),
    ensures
        feed(state, seq![header] + details).1 == Seq::<RecordView>::empty(),
        feed(state, seq![header] + details + seq![signature]) == ({
            let named = header.found.header.unwrap();
            let signed = signature.found.signature.unwrap();
            let record = RecordView {
                package: named.package,
                version: named.version,
                distribution: named.distribution,
                urgency: named.urgency,
                mantainer_details: seq![
                    MantainerDetailsView { mantainer: None, details: details_of(details) },
                ],
                mantainer_name: signed.mantainer_name,
                mantainer_email: signed.mantainer_email,
                date: match signed.date {
                    Some(date) => date,
                    None => state.accumulator.date,
                },
            };
            (
                ParserView {
                    seen_header: false,
                    seen_detail: false,
                    seen_signature: false,
                    accumulator: RecordView {
                        mantainer_details: seq![MantainerDetailsView::fresh()],
                        ..record
                    },
                },
                seq![record],
            )
        }),
{
    let a = seq![header];
    let c = seq![signature];
    lemma_feed_concat(state, a + details, c);
    lemma_feed_concat(state, a, details);
    lemma_feed_one(state, header);
    let named = feed(state, a).0;
    lemma_feed_details(named, details);
    let filled = feed(named, details).0;
    assert(feed(state, a + details).1 =~= Seq::<RecordView>::empty());
    lemma_feed_one(filled, signature);
    assert(filled.accumulator.mantainer_details =~= seq![
        MantainerDetailsView { mantainer: None, details: details_of(details) },
    ]);
}

/// The groups are a single run without contributor.
pub open spec fn ungrouped(groups: Seq<MantainerDetailsView>) -> bool {
    groups.len() == 1 && groups[0].mantainer is None
}

/// No line of the run is an attribution.
pub open spec fn no_mantainer(events: Seq<Event>) -> bool {
    forall|i: int|
        0 <= i < events.len() && (#[trigger] events[i]).line.len() > 0
            ==> events[i].found.mantainer is None
}

/// Without attribution lines there is no grouping: read from a state whose
/// accumulator holds a single run without contributor, lines none of which
/// is an attribution leave such a state behind, and every record that they
/// close holds exactly one run, without contributor.
pub proof fn lemma_feed_ungrouped(state: ParserView, events: Seq<Event>)
    requires
        ungrouped(state.accumulator.mantainer_details),
        no_mantainer(events),
    ensures
        ungrouped(feed(state, events).0.accumulator.mantainer_details),
        forall|i: int|
            0 <= i < feed(state, events).1.len() ==> ungrouped(
                (#[trigger] feed(state, events).1[i]).mantainer_details,
            ),
    decreases events.len(),
{
    if events.len() > 0 {
        let early = events.drop_last();
        assert(no_mantainer(early)) by {
            assert forall|i: int| 0 <= i < early.len() && (#[trigger] early[i]).line.len() > 0
                implies early[i].found.mantainer is None by {
                assert(early[i] == events[i]);
            }
        }
        lemma_feed_ungrouped(state, early);
        assert(events.last() == events[events.len() - 1]);
    }
}

/// There is a group, and where there are several each has its contributor.
pub open spec fn grouped(groups: Seq<MantainerDetailsView>) -> bool {
    &&& groups.len() >= 1
    &&& groups.len() >= 2 ==> forall|i: int|
        0 <= i < groups.len() ==> (#[trigger] groups[i]).mantainer is Some
}

/// Some group holds a detail.
pub open spec fn detailed(groups: Seq<MantainerDetailsView>) -> bool {
    exists|i: int| 0 <= i < groups.len() && (#[trigger] groups[i]).details.len() > 0
}

impl RecordView {
    /// What holds of every record that the parser closes: it has a group,
    /// several groups all have their contributor, and there is a detail.
    pub open spec fn closed(self) -> bool {
        grouped(self.mantainer_details) && detailed(self.mantainer_details)
    }
}

impl ParserView {
    /// What holds of the parser between any two lines: the accumulator has
    /// a group, several groups all have their contributor, and a detail that
    /// was seen is there.
    pub open spec fn steady(self) -> bool {
        &&& grouped(self.accumulator.mantainer_details)
        &&& self.seen_detail ==> detailed(self.accumulator.mantainer_details)
    }
}

/// One line keeps the parser steady, and the record it closes is closed
/// in the sense above.
pub proof fn lemma_step_steady(state: ParserView, line: Seq<char>, found: LineMatchView)
    requires
        state.steady(),
    ensures
        state.step(line, found).0.steady(),
        state.step(line, found).1 matches Some(record) ==> record.closed(),
{
    if line.len() > 0 {
        let detailed = state.take_header(found.header).take_detail(found.detail);
        let named = detailed.take_mantainer(found.mantainer);
        let signed = named.take_signature(found.signature);
        let before = detailed.accumulator.mantainer_details;
        let after = named.accumulator.mantainer_details;
        assert(named.steady()) by {
            if found.mantainer is Some && detailed.seen_detail {
                let at = choose|i: int|
                    0 <= i < before.len() && (#[trigger] before[i]).details.len() > 0;
                assert(after[at].details.len() > 0);
            }
        }
        let folded = signed.take_continuation(line, found);
        assert(folded.steady()) by {
            if signed.continues(found) {
                let at = choose|i: int|
                    0 <= i < after.len() && (#[trigger] after[i]).details.len() > 0;
                assert(folded.accumulator.mantainer_details[at].details.len() > 0);
            }
        }
    }
}

/// Any run of lines keeps the parser steady, and every record it closes
/// is closed in the sense above.
pub proof fn lemma_feed_steady(state: ParserView, events: Seq<Event>)
    requires
        state.steady(),
    ensures
        feed(state, events).0.steady(),
        forall|i: int|
            0 <= i < feed(state, events).1.len() ==> (#[trigger] feed(state, events).1[i]).closed(),
    decreases events.len(),
{
    if events.len() > 0 {
        lemma_feed_steady(state, events.drop_last());
        lemma_step_steady(
            feed(state, events.drop_last()).0,
            events.last().line,
            events.last().found,
        );
    }
}

/// Every record read from lines has a group, several groups all have
/// their contributor, and there is a detail.
pub proof fn lemma_parsed_closed(lines: Seq<Seq<char>>, start: Timestamp)
    ensures
        forall|i: int|
            0 <= i < parsed(lines, start).len() ==> (#[trigger] parsed(lines, start)[i]).closed(),
{
    lemma_feed_steady(ParserView::start(start), classified(lines));
}

/// Every record read from lines none of which is an attribution holds
/// exactly one run, without contributor.
pub proof fn lemma_parsed_ungrouped(lines: Seq<Seq<char>>, start: Timestamp)
    requires
        forall|i: int|
            0 <= i < lines.len() && (#[trigger] lines[i]).len() > 0 ==> line_match(
                lines[i],
            ).mantainer is None,
    ensures
        forall|i: int|
            0 <= i < parsed(lines, start).len() ==> ungrouped(
                (#[trigger] parsed(lines, start)[i]).mantainer_details,
            ),
{
    lemma_feed_ungrouped(ParserView::start(start), classified(lines));
}

} // verus!
