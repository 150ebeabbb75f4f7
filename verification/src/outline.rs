//! The lines that the serializer writes, and what reading them back gives.
//!
//! An outline describes a record by the lines it is written as: which line
//! is the header, which lines are details and which continue the detail
//! before them, where a group begins, and what the signature says. The
//! record of an outline is what the serializer renders; the events of an
//! outline are those lines, each classified as what it was written for.

use crate::changelog::{classified, parsed, render_records};
use crate::grammar::{line_match, HeaderView, LineMatchView, SignatureView};
use crate::laws::{
    all_plain, lemma_continuation_folding, lemma_feed_concat, lemma_feed_one, lines_of,
    with_details, wrapped,
};
use crate::parser::{feed, with_detail, with_mantainer, Event, ParserView};
use crate::text::{clean_lines, joined_lines, lemma_lines_in_joined, lines_in};
use crate::record::{render_details, render_groups, MantainerDetailsView, RecordView};
use crate::timestamp::Timestamp;
use vstd::prelude::*;

verus! {

impl Event {
    /// An empty line.
    pub open spec fn blank() -> Event {
        Event { line: Seq::empty(), found: LineMatchView::plain() }
    }

    /// A line that continues a detail, read as having no shape.
    pub open spec fn plain(line: Seq<char>) -> Event {
        Event { line, found: LineMatchView::plain() }
    }

    /// The header line of `header`, read as that header.
    pub open spec fn header(header: HeaderView) -> Event {
        Event {
            line: header.package + " ("@ + header.version + ") "@ + header.distribution
                + "; urgency="@ + header.urgency,
            found: LineMatchView { header: Some(header), ..LineMatchView::plain() },
        }
    }

    /// The bullet line of `text`, read as that detail.
    pub open spec fn detail(text: Seq<char>) -> Event {
        Event {
            line: "  * "@ + text,
            found: LineMatchView { detail: Some(text), ..LineMatchView::plain() },
        }
    }

    /// The attribution line of `name`, read as that attribution.
    pub open spec fn mantainer(name: Seq<char>) -> Event {
        Event {
            line: "  [ "@ + name + " ]"@,
            found: LineMatchView { mantainer: Some(name), ..LineMatchView::plain() },
        }
    }

    /// The signature line of `name`, `email` and `date`, read as that
    /// signature with that date.
    pub open spec fn signature(name: Seq<char>, email: Seq<char>, date: Timestamp) -> Event {
        Event {
            line: " -- "@ + name + " <"@ + email + ">  "@ + date.text(),
            found: LineMatchView {
                signature: Some(
                    SignatureView {
                        mantainer_name: name,
                        mantainer_email: email,
                        date: Some(date),
                    },
                ),
                ..LineMatchView::plain()
            },
        }
    }
}

/// Lines that continue a detail, each read as having no shape.
pub open spec fn plain_events(lines: Seq<Seq<char>>) -> Seq<Event> {
    Seq::new(lines.len(), |i: int| Event::plain(lines[i]))
}

/// A detail as it is written: the bullet line and the lines that continue it.
pub struct DetailOutline {
    pub first: Seq<char>,
    pub more: Seq<Seq<char>>,
}

impl DetailOutline {
    /// No continuing line is empty.
    pub open spec fn shaped(self) -> bool {
        forall|i: int| 0 <= i < self.more.len() ==> (#[trigger] self.more[i]).len() > 0
    }

    /// The detail as a record holds it.
    pub open spec fn text(self) -> Seq<char> {
        wrapped(self.first, self.more)
    }

    /// The lines of the detail.
    pub open spec fn events(self) -> Seq<Event> {
        seq![Event::detail(self.first)] + plain_events(self.more)
    }
}

/// The details as a group holds them.
pub open spec fn texts_of(details: Seq<DetailOutline>) -> Seq<Seq<char>> {
    Seq::new(details.len(), |i: int| details[i].text())
}

/// The lines of a run of details.
pub open spec fn details_events(details: Seq<DetailOutline>) -> Seq<Event>
    decreases details.len(),
{
    if details.len() == 0 {
        Seq::empty()
    } else {
        details_events(details.drop_last()) + details.last().events()
    }
}

/// A group as it is written.
pub struct GroupOutline {
    pub mantainer: Option<Seq<char>>,
    pub details: Seq<DetailOutline>,
}

impl GroupOutline {
    /// Every detail of the group is shaped.
    pub open spec fn shaped(self) -> bool {
        forall|i: int| 0 <= i < self.details.len() ==> (#[trigger] self.details[i]).shaped()
    }

    /// The group as a record holds it.
    pub open spec fn group(self) -> MantainerDetailsView {
        MantainerDetailsView { mantainer: self.mantainer, details: texts_of(self.details) }
    }

    /// The lines of the group: the attribution if there is one, the
    /// details, and an empty line.
    pub open spec fn events(self) -> Seq<Event> {
        (match self.mantainer {
            Some(name) => seq![Event::mantainer(name)],
            None => Seq::empty(),
        }) + details_events(self.details) + seq![Event::blank()]
    }
}

/// The groups as a record holds them.
pub open spec fn groups_of(groups: Seq<GroupOutline>) -> Seq<MantainerDetailsView> {
    Seq::new(groups.len(), |i: int| groups[i].group())
}

/// The lines of a run of groups.
pub open spec fn groups_events(groups: Seq<GroupOutline>) -> Seq<Event>
    decreases groups.len(),
{
    if groups.len() == 0 {
        Seq::empty()
    } else {
        groups_events(groups.drop_last()) + groups.last().events()
    }
}

/// How many details a run of groups holds.
pub open spec fn detail_count(groups: Seq<GroupOutline>) -> nat
    decreases groups.len(),
{
    if groups.len() == 0 {
        0
    } else {
        detail_count(groups.drop_last()) + groups.last().details.len()
    }
}

/// There is a group, every group is shaped, and where there are several
/// each has its contributor.
pub open spec fn shaped_groups(groups: Seq<GroupOutline>) -> bool {
    &&& groups.len() >= 1
    &&& forall|i: int| 0 <= i < groups.len() ==> (#[trigger] groups[i]).shaped()
    &&& groups.len() >= 2 ==> forall|i: int|
        0 <= i < groups.len() ==> (#[trigger] groups[i]).mantainer is Some
}

/// A record as it is written.
pub struct RecordOutline {
    pub header: HeaderView,
    pub groups: Seq<GroupOutline>,
    pub mantainer_name: Seq<char>,
    pub mantainer_email: Seq<char>,
    pub date: Timestamp,
}

impl RecordOutline {
    /// The groups are shaped and hold a detail.
    pub open spec fn shaped(self) -> bool {
        shaped_groups(self.groups) && detail_count(self.groups) > 0
    }

    /// The record that the outline describes.
    pub open spec fn record(self) -> RecordView {
        RecordView {
            package: self.header.package,
            version: self.header.version,
            distribution: self.header.distribution,
            urgency: self.header.urgency,
            mantainer_details: groups_of(self.groups),
            mantainer_name: self.mantainer_name,
            mantainer_email: self.mantainer_email,
            date: self.date,
        }
    }

    /// The lines of the record: header, an empty line, the groups, signature.
    pub open spec fn events(self) -> Seq<Event> {
        seq![Event::header(self.header), Event::blank()] + groups_events(self.groups) + seq![
            Event::signature(self.mantainer_name, self.mantainer_email, self.date),
        ]
    }
}

/// The records that the outlines describe.
pub open spec fn records_of(outlines: Seq<RecordOutline>) -> Seq<RecordView> {
    Seq::new(outlines.len(), |i: int| outlines[i].record())
}

/// The lines of a changelog: every record followed by an empty line.
pub open spec fn changelog_events(outlines: Seq<RecordOutline>) -> Seq<Event>
    decreases outlines.len(),
{
    if outlines.len() == 0 {
        Seq::empty()
    } else {
        changelog_events(outlines.drop_last()) + outlines.last().events() + seq![Event::blank()]
    }
}

/// Every outline of the run is shaped.
pub open spec fn all_shaped(outlines: Seq<RecordOutline>) -> bool {
    forall|i: int| 0 <= i < outlines.len() ==> (#[trigger] outlines[i]).shaped()
}

/// The lines of a detail are read back as that detail.
pub proof fn lemma_replay_detail(state: ParserView, detail: DetailOutline)
    requires
        state.wf(),
        state.seen_header,
        !state.seen_signature,
        detail.shaped(),
    ensures
        feed(state, detail.events()) == (
            ParserView {
                seen_detail: true,
                accumulator: RecordView {
                    mantainer_details: with_detail(
                        state.accumulator.mantainer_details,
                        detail.text(),
                    ),
                    ..state.accumulator
                },
                ..state
            },
            Seq::<RecordView>::empty(),
        ),
{
    reveal_strlit("  * ");
    let more = plain_events(detail.more);
    assert(lines_of(more) =~= detail.more);
    lemma_continuation_folding(state, Event::detail(detail.first), more);
}

/// The lines of a run of details are read back as those details.
pub proof fn lemma_replay_details(state: ParserView, details: Seq<DetailOutline>)
    requires
        state.wf(),
        state.seen_header,
        !state.seen_signature,
        forall|i: int| 0 <= i < details.len() ==> (#[trigger] details[i]).shaped(),
    ensures
        feed(state, details_events(details)) == (
            ParserView {
                seen_detail: state.seen_detail || details.len() > 0,
                accumulator: RecordView {
                    mantainer_details: with_details(
                        state.accumulator.mantainer_details,
                        texts_of(details),
                    ),
                    ..state.accumulator
                },
                ..state
            },
            Seq::<RecordView>::empty(),
        ),
    decreases details.len(),
{
    let groups = state.accumulator.mantainer_details;
    if details.len() == 0 {
        assert(with_details(groups, texts_of(details)) =~= groups);
    } else {
        let early = details.drop_last();
        let last = details.last();
        lemma_replay_details(state, early);
        let before = feed(state, details_events(early)).0;
        lemma_replay_detail(before, last);
        lemma_feed_concat(state, details_events(early), last.events());
        assert(texts_of(details) =~= texts_of(early).push(last.text()));
        assert(with_detail(before.accumulator.mantainer_details, last.text()) =~= with_details(
            groups,
            texts_of(details),
        ));
    }
}

/// An empty line is read as nothing.
pub proof fn lemma_replay_blank(state: ParserView)
    ensures
        feed(state, seq![Event::blank()]) == (state, Seq::<RecordView>::empty()),
{
    lemma_feed_one(state, Event::blank());
}

/// The lines of a group are read back as that group. It takes the place
/// of the last group where that is still without contributor and lines, and
/// comes behind it where both have a contributor.
pub proof fn lemma_replay_group(state: ParserView, group: GroupOutline)
    requires
        state.wf(),
        state.seen_header,
        !state.seen_signature,
        group.shaped(),
        state.accumulator.mantainer_details.last() == MantainerDetailsView::fresh() || (
        state.accumulator.mantainer_details.last().mantainer is Some && group.mantainer is Some),
    ensures
        feed(state, group.events()) == (
            ParserView {
                seen_detail: state.seen_detail || group.details.len() > 0,
                accumulator: RecordView {
                    mantainer_details: if state.accumulator.mantainer_details.last().mantainer
                        is None {
                        state.accumulator.mantainer_details.drop_last().push(group.group())
                    } else {
                        state.accumulator.mantainer_details.push(group.group())
                    },
                    ..state.accumulator
                },
                ..state
            },
            Seq::<RecordView>::empty(),
        ),
{
    reveal_strlit("  [ ");
    let groups = state.accumulator.mantainer_details;
    let marker = match group.mantainer {
        Some(name) => seq![Event::mantainer(name)],
        None => Seq::<Event>::empty(),
    };
    let named = feed(state, marker).0;
    match group.mantainer {
        Some(name) => {
            lemma_feed_one(state, Event::mantainer(name));
        },
        None => {},
    }
    lemma_replay_details(named, group.details);
    let filled = feed(named, details_events(group.details)).0;
    lemma_replay_blank(filled);
    lemma_feed_concat(state, marker, details_events(group.details));
    lemma_feed_concat(state, marker + details_events(group.details), seq![Event::blank()]);
    if groups.last().mantainer is None {
        assert(filled.accumulator.mantainer_details =~= groups.drop_last().push(group.group()));
    } else {
        assert(filled.accumulator.mantainer_details =~= groups.push(group.group()));
    }
}

/// The lines of the groups of a record are read back as those groups.
pub proof fn lemma_replay_groups(state: ParserView, groups: Seq<GroupOutline>)
    requires
        state.seen_header,
        !state.seen_signature,
        state.accumulator.mantainer_details == seq![MantainerDetailsView::fresh()],
        shaped_groups(groups),
    ensures
        feed(state, groups_events(groups)) == (
            ParserView {
                seen_detail: state.seen_detail || detail_count(groups) > 0,
                accumulator: RecordView {
                    mantainer_details: groups_of(groups),
                    ..state.accumulator
                },
                ..state
            },
            Seq::<RecordView>::empty(),
        ),
    decreases groups.len(),
{
    let early = groups.drop_last();
    let last = groups.last();
    if groups.len() == 1 {
        lemma_replay_group(state, last);
        assert(state.accumulator.mantainer_details.drop_last().push(last.group()) =~= groups_of(
            groups,
        ));
    } else {
        lemma_replay_groups(state, early);
        let before = feed(state, groups_events(early)).0;
        lemma_replay_group(before, last);
        lemma_feed_concat(state, groups_events(early), last.events());
        assert(groups_of(early).push(last.group()) =~= groups_of(groups));
    }
}

/// The lines of a record, read from a state in which nothing has been
/// seen and the accumulator holds one ungrouped run without lines, close
/// that record and no other, and leave such a state behind.
pub proof fn lemma_replay_record(state: ParserView, outline: RecordOutline)
    requires
        !state.seen_header,
        !state.seen_detail,
        !state.seen_signature,
        state.accumulator.mantainer_details == seq![MantainerDetailsView::fresh()],
        outline.shaped(),
    ensures
        feed(state, outline.events()) == (
            ParserView {
                seen_header: false,
                seen_detail: false,
                seen_signature: false,
                accumulator: RecordView {
                    mantainer_details: seq![MantainerDetailsView::fresh()],
                    ..outline.record()
                },
            },
            seq![outline.record()],
        ),
{
    reveal_strlit(" (");
    reveal_strlit(" -- ");
    let header = Event::header(outline.header);
    let signature = Event::signature(outline.mantainer_name, outline.mantainer_email, outline.date);
    let head = seq![header, Event::blank()];
    assert(head =~= seq![header] + seq![Event::blank()]);
    lemma_feed_one(state, header);
    let named = feed(state, seq![header]).0;
    lemma_replay_blank(named);
    lemma_feed_concat(state, seq![header], seq![Event::blank()]);
    lemma_replay_groups(named, outline.groups);
    let filled = feed(named, groups_events(outline.groups)).0;
    lemma_feed_concat(state, head, groups_events(outline.groups));
    lemma_feed_one(filled, signature);
    lemma_feed_concat(state, head + groups_events(outline.groups), seq![signature]);
}

/// The lines of a changelog are read back as its records, in their order.
pub proof fn lemma_replay_changelog(state: ParserView, outlines: Seq<RecordOutline>)
    requires
        !state.seen_header,
        !state.seen_detail,
        !state.seen_signature,
        state.accumulator.mantainer_details == seq![MantainerDetailsView::fresh()],
        all_shaped(outlines),
    ensures
        feed(state, changelog_events(outlines)).1 == records_of(outlines),
        !feed(state, changelog_events(outlines)).0.seen_header,
        !feed(state, changelog_events(outlines)).0.seen_detail,
        !feed(state, changelog_events(outlines)).0.seen_signature,
        feed(state, changelog_events(outlines)).0.accumulator.mantainer_details == seq![
            MantainerDetailsView::fresh(),
        ],
    decreases outlines.len(),
{
    if outlines.len() > 0 {
        let early = outlines.drop_last();
        let last = outlines.last();
        lemma_replay_changelog(state, early);
        let before = feed(state, changelog_events(early)).0;
        lemma_replay_record(before, last);
        let after = feed(before, last.events()).0;
        lemma_replay_blank(after);
        lemma_feed_concat(state, changelog_events(early), last.events());
        lemma_feed_concat(
            state,
            changelog_events(early) + last.events(),
            seq![Event::blank()],
        );
    }
}

/// The text of a run of events: their lines, each followed by a line break.
pub open spec fn text_of(events: Seq<Event>) -> Seq<char> {
    joined_lines(lines_of(events))
}

/// The text of two runs of lines is the text of the first and then the
/// text of the second.
pub proof fn lemma_joined_concat(first: Seq<Seq<char>>, second: Seq<Seq<char>>)
    ensures
        joined_lines(first + second) == joined_lines(first) + joined_lines(second),
    decreases second.len(),
{
    if second.len() > 0 {
        assert((first + second).drop_last() =~= first + second.drop_last());
        lemma_joined_concat(first, second.drop_last());
    }
}

/// The text of two runs of events is the text of the first and then the
/// text of the second.
pub proof fn lemma_text_concat(first: Seq<Event>, second: Seq<Event>)
    ensures
        text_of(first + second) == text_of(first) + text_of(second),
{
    assert(lines_of(first + second) =~= lines_of(first) + lines_of(second));
    lemma_joined_concat(lines_of(first), lines_of(second));
}

/// The text of a single event is its line and a line break.
pub proof fn lemma_text_one(event: Event)
    ensures
        text_of(seq![event]) == event.line + "\n"@,
{
    let lines = lines_of(seq![event]);
    assert(joined_lines(lines.drop_last()) == Seq::<char>::empty());
}

/// A wrapped detail ends its first line where the lines that continue it begin.
pub proof fn lemma_wrapped_lines(first: Seq<char>, more: Seq<Seq<char>>)
    ensures
        wrapped(first, more) + "\n"@ == first + "\n"@ + joined_lines(more),
    decreases more.len(),
{
    if more.len() > 0 {
        lemma_wrapped_lines(first, more.drop_last());
    }
}

/// The lines of a run of details are what the serializer writes for them.
pub proof fn lemma_text_of_details(details: Seq<DetailOutline>)
    ensures
        text_of(details_events(details)) == render_details(texts_of(details)),
    decreases details.len(),
{
    if details.len() > 0 {
        let early = details.drop_last();
        let last = details.last();
        lemma_text_of_details(early);
        lemma_text_concat(details_events(early), last.events());
        lemma_text_concat(seq![Event::detail(last.first)], plain_events(last.more));
        lemma_text_one(Event::detail(last.first));
        assert(lines_of(plain_events(last.more)) =~= last.more);
        lemma_wrapped_lines(last.first, last.more);
        assert(texts_of(details).drop_last() =~= texts_of(early));
        assert(text_of(last.events()) =~= "  * "@ + (last.first + "\n"@ + joined_lines(last.more)));
    }
}

/// The lines of a group are what the serializer writes for it.
pub proof fn lemma_text_of_group(group: GroupOutline)
    ensures
        text_of(group.events()) == group.group().render(),
{
    reveal_strlit(" ]\n");
    reveal_strlit(" ]");
    reveal_strlit("\n");
    let marker = match group.mantainer {
        Some(name) => seq![Event::mantainer(name)],
        None => Seq::<Event>::empty(),
    };
    let shown = match group.mantainer {
        Some(name) => "  [ "@ + name + " ]\n"@,
        None => Seq::<char>::empty(),
    };
    assert(text_of(marker) == shown) by {
        match group.mantainer {
            Some(name) => {
                lemma_text_one(Event::mantainer(name));
                assert(" ]\n"@ =~= " ]"@ + "\n"@);
            },
            None => {},
        }
    }
    lemma_text_of_details(group.details);
    lemma_text_one(Event::blank());
    lemma_text_concat(marker, details_events(group.details));
    lemma_text_concat(marker + details_events(group.details), seq![Event::blank()]);
}

/// The lines of a run of groups are what the serializer writes for them.
pub proof fn lemma_text_of_groups(groups: Seq<GroupOutline>)
    ensures
        text_of(groups_events(groups)) == render_groups(groups_of(groups)),
    decreases groups.len(),
{
    if groups.len() > 0 {
        let early = groups.drop_last();
        let last = groups.last();
        lemma_text_of_groups(early);
        lemma_text_of_group(last);
        lemma_text_concat(groups_events(early), last.events());
        assert(groups_of(groups).drop_last() =~= groups_of(early));
    }
}

/// The lines of a record are what the serializer writes for it.
pub proof fn lemma_text_of_record(outline: RecordOutline)
    ensures
        text_of(outline.events()) == outline.record().render(),
{
    let header = Event::header(outline.header);
    let signature = Event::signature(outline.mantainer_name, outline.mantainer_email, outline.date);
    let head = seq![header, Event::blank()];
    assert(head =~= seq![header] + seq![Event::blank()]);
    lemma_text_one(header);
    lemma_text_one(Event::blank());
    lemma_text_one(signature);
    lemma_text_concat(seq![header], seq![Event::blank()]);
    lemma_text_of_groups(outline.groups);
    lemma_text_concat(head, groups_events(outline.groups));
    lemma_text_concat(head + groups_events(outline.groups), seq![signature]);
}

/// The lines of a changelog are what the serializer writes for it.
pub proof fn lemma_text_of_changelog(outlines: Seq<RecordOutline>)
    ensures
        text_of(changelog_events(outlines)) == render_records(
            records_of(outlines),
        ),
    decreases outlines.len(),
{
    if outlines.len() > 0 {
        let early = outlines.drop_last();
        let last = outlines.last();
        lemma_text_of_changelog(early);
        lemma_text_of_record(last);
        lemma_text_one(Event::blank());
        lemma_text_concat(changelog_events(early), last.events());
        lemma_text_concat(changelog_events(early) + last.events(), seq![Event::blank()]);
        assert(records_of(outlines).drop_last() =~= records_of(early));
    }
}

/// The lines of a changelog as the serializer writes them.
pub open spec fn changelog_lines(outlines: Seq<RecordOutline>) -> Seq<Seq<char>> {
    lines_of(changelog_events(outlines))
}

/// The four patterns read every line of the run, the empty ones aside, as
/// what it was written for.
pub open spec fn read_back(events: Seq<Event>) -> bool {
    forall|i: int|
        0 <= i < events.len() && (#[trigger] events[i]).line.len() > 0 ==> line_match(
            events[i].line,
        ) == events[i].found
}

/// What is made of an empty line plays no part in what the parser does.
pub proof fn lemma_feed_agrees(state: ParserView, first: Seq<Event>, second: Seq<Event>)
    requires
        first.len() == second.len(),
        forall|i: int| 0 <= i < first.len() ==> (#[trigger] first[i]).line == second[i].line,
        forall|i: int|
            0 <= i < first.len() && (#[trigger] first[i]).line.len() > 0 ==> first[i].found
                == second[i].found,
    ensures
        feed(state, first) == feed(state, second),
    decreases first.len(),
{
    if first.len() > 0 {
        let a = first.drop_last();
        let b = second.drop_last();
        lemma_feed_agrees(state, a, b);
    }
}

/// Round trip. Take records that are shaped as the parser makes them, and
/// suppose that the four patterns read every line that the serializer
/// writes for them as what it was written for. Then the text of the
/// changelog is those lines, each followed by a line break, and reading
/// the lines gives the records back: reading and writing once more changes
/// nothing.
pub proof fn lemma_round_trip(outlines: Seq<RecordOutline>, start: Timestamp)
    requires
        all_shaped(outlines),
        read_back(changelog_events(outlines)),
    ensures
        joined_lines(changelog_lines(outlines)) == render_records(records_of(outlines)),
        parsed(changelog_lines(outlines), start) == records_of(outlines),
        render_records(parsed(changelog_lines(outlines), start)) == joined_lines(
            changelog_lines(outlines),
        ),
{
    let events = changelog_events(outlines);
    lemma_text_of_changelog(outlines);
    lemma_replay_changelog(ParserView::start(start), outlines);
    lemma_feed_agrees(ParserView::start(start), classified(changelog_lines(outlines)), events);
}

/// Round trip, on text. Suppose in addition that no line that the
/// serializer writes for the records holds a line feed or ends in a
/// carriage return. Then reading the text of the changelog gives the
/// records back, and writing them again gives the same text.
pub proof fn lemma_round_trip_text(outlines: Seq<RecordOutline>, start: Timestamp)
    requires
        all_shaped(outlines),
        read_back(changelog_events(outlines)),
        clean_lines(changelog_lines(outlines)),
    ensures
        parsed(lines_in(render_records(records_of(outlines))), start) == records_of(outlines),
        render_records(parsed(lines_in(render_records(records_of(outlines))), start))
            == render_records(records_of(outlines)),
{
    lemma_round_trip(outlines, start);
    lemma_lines_in_joined(changelog_lines(outlines));
}

/// Writing what was read is idempotent. Let `text` be read into records
/// that some shaped outlines describe, whose lines the four patterns read
/// as what they were written for, and none of which holds a line feed or
/// ends in a carriage return. Then reading the text, writing the records,
/// reading that and writing once more gives the text of the first writing,
/// character by character.
pub proof fn lemma_rendering_settles(
    text: Seq<char>,
    start: Timestamp,
    again: Timestamp,
    outlines: Seq<RecordOutline>,
)
    requires
        parsed(lines_in(text), start) == records_of(outlines),
        all_shaped(outlines),
        read_back(changelog_events(outlines)),
        clean_lines(changelog_lines(outlines)),
    ensures
        render_records(
            parsed(lines_in(render_records(parsed(lines_in(text), start))), again),
        ) == render_records(parsed(lines_in(text), start)),
{
    lemma_round_trip_text(outlines, again);
}

} // verus!
