//! What holds of every text that is read: laws of `monitors_of`, which
//! `parse_niri_outputs` computes.

use crate::error::{ErrorKind, ParseError, ParseErrorView};
use crate::fields::{
    available_mode_of, header_of, label_value, parenthesized, quoted, transform_of,
};
use crate::monitor::{ModeView, Monitor, MonitorView, Transform};
use crate::number::{is_digit, is_number_literal, leading_digits};
use crate::outputs::{
    kind_of, monitors_of, outcome, value_of, LineKind, LineValueView, OpenBlockView, ParserView,
};
use crate::text::{
    has_prefix, lemma_first_occurrence_iff, lemma_occurrence_has_first, lines_of, occurs_at,
    occurs_in, trimmed,
};
use vstd::prelude::*;
use vstd::seq_lib::lemma_flatten_concat;

verus! {

/// The block that is open, as a list of one block or of none.
pub open spec fn open_block(open: Option<Seq<Seq<char>>>) -> Seq<Seq<Seq<char>>> {
    match open {
        Some(block) => seq![block],
        None => Seq::empty(),
    }
}

/// The blocks that the lines fall into, given the lines of the block that is
/// open before them. A block begins with a header line and holds the lines up
/// to the next header line. Lines that stand before any header line are in no
/// block.
pub open spec fn blocks_after(open: Option<Seq<Seq<char>>>, lines: Seq<Seq<char>>) -> Seq<
    Seq<Seq<char>>,
>
    decreases lines.len(),
{
    if lines.len() == 0 {
        open_block(open)
    } else if kind_of(lines[0]) is Header {
        open_block(open) + blocks_after(Some(seq![lines[0]]), lines.drop_first())
    } else {
        blocks_after(
            match open {
                Some(block) => Some(block.push(lines[0])),
                None => None,
            },
            lines.drop_first(),
        )
    }
}

/// The blocks of a text, given by its lines.
pub open spec fn blocks_of(lines: Seq<Seq<char>>) -> Seq<Seq<Seq<char>>> {
    blocks_after(None, lines)
}

/// How many of the lines are header lines.
pub open spec fn header_count(lines: Seq<Seq<char>>) -> nat
    decreases lines.len(),
{
    if lines.len() == 0 {
        0
    } else if kind_of(lines[0]) is Header {
        1 + header_count(lines.drop_first())
    } else {
        header_count(lines.drop_first())
    }
}

/// The block that a header line opens: the monitor with its two names, and
/// no mode in the list yet.
pub open spec fn opened_by(header: Seq<char>) -> OpenBlockView {
    OpenBlockView { monitor: header_of(trimmed(header))->Ok_0, modes: Seq::empty() }
}

/// The block after it has taken in the lines, one after the other. A line
/// that cannot be read leaves the block as it is.
pub open spec fn block_after_lines(start: OpenBlockView, lines: Seq<Seq<char>>) -> OpenBlockView
    decreases lines.len(),
{
    if lines.len() == 0 {
        start
    } else {
        let before = block_after_lines(start, lines.drop_last());
        match value_of(kind_of(lines.last()), lines.last()) {
            Ok(value) => before.with(value),
            Err(_) => before,
        }
    }
}

/// The monitor that a block describes: the one that its header line opens,
/// with what the lines behind the header line say, taken in order.
pub open spec fn monitor_of_block(block: Seq<Seq<char>>) -> MonitorView {
    block_after_lines(opened_by(block[0]), block.skip(1)).closed()
}

/// The mode that a line lists, where the line is an entry of the list of
/// modes that can be read.
pub open spec fn entry_of(raw: Seq<char>) -> Option<ModeView> {
    match available_mode_of(trimmed(raw)) {
        Ok(mode) if kind_of(raw) is ModeEntry => Some(mode),
        _ => None,
    }
}

/// The modes that the lines list: what each entry of the list of modes says,
/// in the order of the lines.
pub open spec fn mode_entries(lines: Seq<Seq<char>>) -> Seq<ModeView>
    decreases lines.len(),
{
    if lines.len() == 0 {
        Seq::empty()
    } else {
        match entry_of(lines.last()) {
            Some(mode) => mode_entries(lines.drop_last()).push(mode),
            None => mode_entries(lines.drop_last()),
        }
    }
}

/// The monitor is the one that the block describes, and the header line of
/// the block can be read.
pub open spec fn describes(block: Seq<Seq<char>>, monitor: MonitorView) -> bool {
    &&& block.len() > 0
    &&& header_of(trimmed(block[0])) is Ok
    &&& monitor == monitor_of_block(block)
}

/// The monitors are those in `before` and then one for each block, in order.
pub open spec fn follows(
    monitors: Seq<MonitorView>,
    before: Seq<MonitorView>,
    blocks: Seq<Seq<Seq<char>>>,
) -> bool {
    &&& monitors.len() == before.len() + blocks.len()
    &&& forall|k: int| 0 <= k < before.len() ==> monitors[k] == before[k]
    &&& forall|k: int|
        0 <= k < blocks.len() ==> describes(#[trigger] blocks[k], monitors[before.len() + k])
}

/// The state of the parser goes with the lines of the block that is open.
pub open spec fn agrees(p: ParserView, open: Option<Seq<Seq<char>>>) -> bool {
    match (p.block, open) {
        (Some(b), Some(block)) => {
            &&& block.len() > 0
            &&& header_of(trimmed(block[0])) is Ok
            &&& b == block_after_lines(opened_by(block[0]), block.skip(1))
        },
        (None, None) => true,
        _ => false,
    }
}

/// Only an entry of the list of modes that can be read says a mode for the
/// list.
proof fn lemma_value_is_entry(raw: Seq<char>)
    ensures
        match value_of(kind_of(raw), raw) {
            Ok(LineValueView::ModeEntry(mode)) => entry_of(raw) == Some(mode),
            _ => entry_of(raw) is None,
        },
{
    reveal(value_of);
}

/// The lines behind the header line leave the names of the block as they
/// are, and add to its list the modes that they list.
proof fn lemma_block_after_lines(start: OpenBlockView, lines: Seq<Seq<char>>)
    ensures
        block_after_lines(start, lines).monitor.name == start.monitor.name,
        block_after_lines(start, lines).monitor.output_name == start.monitor.output_name,
        block_after_lines(start, lines).modes == start.modes + mode_entries(lines),
    decreases lines.len(),
{
    if lines.len() == 0 {
        assert(start.modes + Seq::<ModeView>::empty() == start.modes);
    } else {
        lemma_block_after_lines(start, lines.drop_last());
        lemma_value_is_entry(lines.last());
        let before = block_after_lines(start, lines.drop_last());
        match entry_of(lines.last()) {
            Some(mode) => {
                assert((start.modes + mode_entries(lines.drop_last())).push(mode) == start.modes
                    + mode_entries(lines.drop_last()).push(mode));
            },
            None => {},
        }
    }
}

/// The monitor that a block describes has its name and its connector from
/// the header line of the block, and its available modes are the modes that
/// the lines behind the header line list, in their order.
pub proof fn lemma_monitor_of_block(block: Seq<Seq<char>>)
    requires
        block.len() > 0,
        header_of(trimmed(block[0])) is Ok,
    ensures
        monitor_of_block(block).name == quoted(trimmed(block[0])),
        Some(monitor_of_block(block).output_name) == parenthesized(trimmed(block[0])),
        monitor_of_block(block).available_modes == mode_entries(block.skip(1)),
{
    lemma_block_after_lines(opened_by(block[0]), block.skip(1));
    assert(Seq::<ModeView>::empty() + mode_entries(block.skip(1)) == mode_entries(block.skip(1)));
}

/// A line that is no header is taken in by the open block.
proof fn lemma_block_after(b: OpenBlockView, block: Seq<Seq<char>>, raw: Seq<char>)
    requires
        block.len() > 0,
        b == block_after_lines(opened_by(block[0]), block.skip(1)),
        b.after(kind_of(raw), raw) is Ok,
    ensures
        b.after(kind_of(raw), raw)->Ok_0 == block_after_lines(
            opened_by(block.push(raw)[0]),
            block.push(raw).skip(1),
        ),
{
    let longer = block.push(raw);
    assert(longer.skip(1).drop_last() == block.skip(1));
    assert(longer.skip(1).last() == raw);
    assert(longer[0] == block[0]);
}

/// A header line closes the open block and opens a block of its own.
proof fn lemma_header_step(p: ParserView, open: Option<Seq<Seq<char>>>, raw: Seq<char>)
    requires
        agrees(p, open),
        kind_of(raw) is Header,
        p.after(raw) is Ok,
    ensures
        agrees(p.after(raw)->Ok_0, Some(seq![raw])),
        follows(p.after(raw)->Ok_0.monitors, p.monitors, open_block(open)),
{
    let opened = seq![raw];
    assert(opened.skip(1) == Seq::<Seq<char>>::empty());
}

/// A line that is no header goes to the open block, where one is open.
proof fn lemma_other_step(p: ParserView, open: Option<Seq<Seq<char>>>, raw: Seq<char>)
    requires
        agrees(p, open),
        !(kind_of(raw) is Header),
        p.after(raw) is Ok,
    ensures
        p.after(raw)->Ok_0.monitors == p.monitors,
        agrees(
            p.after(raw)->Ok_0,
            match open {
                Some(block) => Some(block.push(raw)),
                None => None,
            },
        ),
{
    match p.block {
        Some(b) => {
            lemma_block_after(b, open.unwrap(), raw);
        },
        None => {},
    }
}

/// Monitors that follow blocks, followed by monitors for later blocks.
proof fn lemma_follows_both(
    end: Seq<MonitorView>,
    middle: Seq<MonitorView>,
    before: Seq<MonitorView>,
    first: Seq<Seq<Seq<char>>>,
    later: Seq<Seq<Seq<char>>>,
)
    requires
        follows(middle, before, first),
        follows(end, middle, later),
    ensures
        follows(end, before, first + later),
{
    let all = first + later;
    assert forall|k: int| 0 <= k < all.len() implies describes(
        #[trigger] all[k],
        end[before.len() + k],
    ) by {
        if k < first.len() {
            assert(all[k] == first[k]);
            assert(end[before.len() + k] == middle[before.len() + k]);
        } else {
            let j = k - first.len();
            assert(all[k] == later[j]);
            assert(describes(later[j], end[middle.len() + j]));
        }
    }
    assert forall|k: int| 0 <= k < before.len() implies end[k] == before[k] by {
        assert(end[k] == middle[k]);
    }
}

/// Reading lines gives one monitor for each block of the lines.
proof fn lemma_after_all_follows(p: ParserView, open: Option<Seq<Seq<char>>>, lines: Seq<Seq<char>>)
    requires
        agrees(p, open),
        p.after_all(lines) is Ok,
    ensures
        follows(p.after_all(lines)->Ok_0.finished(), p.monitors, blocks_after(open, lines)),
    decreases lines.len(),
{
    if lines.len() == 0 {
        lemma_finished_follows(p, open);
    } else {
        let raw = lines[0];
        let rest = lines.drop_first();
        let next = p.after(raw)->Ok_0;
        let end = p.after_all(lines)->Ok_0.finished();
        assert(p.after_all(lines) == next.after_all(rest));
        if kind_of(raw) is Header {
            lemma_header_step(p, open, raw);
            lemma_after_all_follows(next, Some(seq![raw]), rest);
            lemma_follows_both(
                end,
                next.monitors,
                p.monitors,
                open_block(open),
                blocks_after(Some(seq![raw]), rest),
            );
        } else {
            lemma_other_step(p, open, raw);
            lemma_after_all_follows(
                next,
                match open {
                    Some(block) => Some(block.push(raw)),
                    None => None,
                },
                rest,
            );
        }
    }
}

/// At the end of the text the open block gives the last monitor.
proof fn lemma_finished_follows(p: ParserView, open: Option<Seq<Seq<char>>>)
    requires
        agrees(p, open),
    ensures
        follows(p.finished(), p.monitors, open_block(open)),
{
}

/// There is one block for each header line.
pub proof fn lemma_one_block_for_each_header(open: Option<Seq<Seq<char>>>, lines: Seq<Seq<char>>)
    ensures
        blocks_after(open, lines).len() == open_block(open).len() + header_count(lines),
    decreases lines.len(),
{
    if lines.len() == 0 {
    } else if kind_of(lines[0]) is Header {
        lemma_one_block_for_each_header(Some(seq![lines[0]]), lines.drop_first());
    } else {
        lemma_one_block_for_each_header(
            match open {
                Some(block) => Some(block.push(lines[0])),
                None => None,
            },
            lines.drop_first(),
        );
    }
}

/// A block begins with a header line and holds no other header line.
pub open spec fn is_block(block: Seq<Seq<char>>) -> bool {
    &&& block.len() > 0
    &&& kind_of(block[0]) is Header
    &&& forall|i: int| 0 < i < block.len() ==> !(kind_of(#[trigger] block[i]) is Header)
}

/// The lines from the first header line on.
pub open spec fn from_first_header(lines: Seq<Seq<char>>) -> Seq<Seq<char>>
    decreases lines.len(),
{
    if lines.len() == 0 || kind_of(lines[0]) is Header {
        lines
    } else {
        from_first_header(lines.drop_first())
    }
}

/// Each of the blocks begins with a header line and holds no other, and the
/// blocks, one after the other, are the lines of the open block and then the
/// given lines; where no block is open, the given lines from their first
/// header line on.
pub proof fn lemma_blocks_are_the_lines(open: Option<Seq<Seq<char>>>, lines: Seq<Seq<char>>)
    requires
        open matches Some(block) ==> is_block(block),
    ensures
        forall|k: int|
            0 <= k < blocks_after(open, lines).len() ==> is_block(
                #[trigger] blocks_after(open, lines)[k],
            ),
        blocks_after(open, lines).flatten() == match open {
            Some(block) => block + lines,
            None => from_first_header(lines),
        },
    decreases lines.len(),
{
    let empty = Seq::<Seq<Seq<char>>>::empty();
    assert(empty.flatten() == Seq::<Seq<char>>::empty());
    if let Some(block) = open {
        seq![block].lemma_flatten_one_element();
    }
    if lines.len() == 0 {
        if let Some(block) = open {
            assert(block + lines == block);
        }
    } else if kind_of(lines[0]) is Header {
        let opened = seq![lines[0]];
        lemma_blocks_are_the_lines(Some(opened), lines.drop_first());
        let later = blocks_after(Some(opened), lines.drop_first());
        lemma_flatten_concat(open_block(open), later);
        assert(opened + lines.drop_first() == lines);
        let all = open_block(open) + later;
        assert forall|k: int| 0 <= k < all.len() implies is_block(#[trigger] all[k]) by {
            if k >= open_block(open).len() {
                assert(all[k] == later[k - open_block(open).len()]);
            }
        }
        if let Some(block) = open {
            assert(block + lines == block + (opened + lines.drop_first()));
        } else {
            assert(empty + later == later);
        }
    } else {
        match open {
            Some(block) => {
                let longer = block.push(lines[0]);
                lemma_blocks_are_the_lines(Some(longer), lines.drop_first());
                assert(longer + lines.drop_first() == block + lines);
            },
            None => {
                lemma_blocks_are_the_lines(None, lines.drop_first());
            },
        }
    }
}

/// A text that is read gives exactly one monitor for each of its header
/// lines, in the order of the header lines. The blocks of the text are its
/// lines from the first header line on, cut before each header line, and the
/// monitor of each block is the one that the block describes: nothing outside
/// the block has a part in it.
pub proof fn lemma_one_monitor_for_each_header(text: Seq<char>)
    requires
        monitors_of(text) is Ok,
    ensures
        monitors_of(text)->Ok_0.len() == header_count(lines_of(text)),
        follows(monitors_of(text)->Ok_0, Seq::empty(), blocks_of(lines_of(text))),
        forall|k: int|
            0 <= k < blocks_of(lines_of(text)).len() ==> is_block(
                #[trigger] blocks_of(lines_of(text))[k],
            ),
        blocks_of(lines_of(text)).flatten() == from_first_header(lines_of(text)),
{
    lemma_after_all_follows(ParserView::start(), None, lines_of(text));
    lemma_one_block_for_each_header(None, lines_of(text));
    lemma_blocks_are_the_lines(None, lines_of(text));
}

/// Lines of which none is an entry of the list of modes list no mode.
pub proof fn lemma_no_entries_no_modes(lines: Seq<Seq<char>>)
    requires
        forall|i: int| 0 <= i < lines.len() ==> !(kind_of(#[trigger] lines[i]) is ModeEntry),
    ensures
        mode_entries(lines) == Seq::<ModeView>::empty(),
    decreases lines.len(),
{
    if lines.len() > 0 {
        lemma_no_entries_no_modes(lines.drop_last());
    }
}

/// The monitor of a block in which no line is an entry of the list of modes
/// has no available modes.
pub proof fn lemma_block_without_entries(text: Seq<char>, k: int)
    requires
        monitors_of(text) is Ok,
        0 <= k < blocks_of(lines_of(text)).len(),
        forall|i: int|
            0 < i < blocks_of(lines_of(text))[k].len() ==> !(kind_of(
                #[trigger] blocks_of(lines_of(text))[k][i],
            ) is ModeEntry),
    ensures
        k < monitors_of(text)->Ok_0.len(),
        monitors_of(text)->Ok_0[k].available_modes == Seq::<ModeView>::empty(),
{
    lemma_one_monitor_for_each_header(text);
    let block = blocks_of(lines_of(text))[k];
    assert(describes(block, monitors_of(text)->Ok_0[k]));
    lemma_monitor_of_block(block);
    assert forall|i: int| 0 <= i < block.skip(1).len() implies !(kind_of(
        #[trigger] block.skip(1)[i],
    ) is ModeEntry) by {
        assert(block.skip(1)[i] == block[i + 1]);
    }
    lemma_no_entries_no_modes(block.skip(1));
}

/// `r` is an outcome that reading `text` may have.
pub open spec fn is_outcome_of(text: Seq<char>, r: Result<Vec<Monitor>, ParseError>) -> bool {
    outcome(r) == monitors_of(text)
}

/// Reading the same text twice gives the same: two outcomes of one text hold
/// equal monitors in the same order, or are the same failure.
pub proof fn lemma_same_text_same_outcome(
    text: Seq<char>,
    first: Result<Vec<Monitor>, ParseError>,
    second: Result<Vec<Monitor>, ParseError>,
)
    requires
        is_outcome_of(text, first),
        is_outcome_of(text, second),
    ensures
        outcome(first) == outcome(second),
        first is Ok <==> second is Ok,
{
}

/// The eight names of a transform.
pub open spec fn is_transform_name(name: Seq<char>) -> bool {
    ||| name == "normal"@
    ||| name == "Rotated 90"@
    ||| name == "Rotated 180"@
    ||| name == "Rotated 270"@
    ||| name == "Flipped"@
    ||| name == "Flipped 90"@
    ||| name == "Flipped 180"@
    ||| name == "Flipped 270"@
}

/// A line that begins with `Transform: ` has a value.
proof fn lemma_transform_line_has_value(line: Seq<char>)
    requires
        has_prefix(line, "Transform: "@),
    ensures
        label_value(line) is Some,
{
    reveal_strlit("Transform: ");
    reveal_strlit(": ");
    let label = "Transform: "@;
    let separator = ": "@;
    assert(line.skip(9).take(2) == separator) by {
        assert(line.take(11)[9] == label[9]);
        assert(line.take(11)[10] == label[10]);
        assert(line.skip(9).take(2) =~= separator);
    }
    assert(occurs_at(line, separator, 9));
    lemma_occurrence_has_first(line, separator, 9);
}

/// A transform of a name that is none of the eight is read as no turn at
/// all, and a transform line never fails the text: whatever the value of the
/// line is, the parser goes on.
pub proof fn lemma_unknown_transform(p: ParserView, raw: Seq<char>)
    requires
        kind_of(raw) is Transform,
    ensures
        p.after(raw) is Ok,
        transform_of(trimmed(raw)) is Ok,
        label_value(trimmed(raw)) matches Some(name) && (!is_transform_name(name)
            ==> transform_of(trimmed(raw)) == Ok::<Transform, ParseErrorView>(Transform::Normal)),
{
    reveal(kind_of);
    reveal(value_of);
    lemma_transform_line_has_value(trimmed(raw));
}

/// A header line without `(` fails with a failure of structure.
pub proof fn lemma_header_without_parentheses(p: ParserView, raw: Seq<char>)
    requires
        kind_of(raw) is Header,
        !occurs_in(trimmed(raw), "("@),
    ensures
        p.after(raw) matches Err(e) && e.kind == ErrorKind::Structure && e.text == trimmed(raw),
{
    lemma_first_occurrence_iff(trimmed(raw), "("@);
}

/// Where a line cannot be read, the lines cannot be read.
proof fn lemma_failing_line(p: ParserView, lines: Seq<Seq<char>>, i: int)
    requires
        0 <= i < lines.len(),
        forall|q: ParserView| (#[trigger] q.after(lines[i])) is Err,
    ensures
        p.after_all(lines) is Err,
    decreases lines.len(),
{
    if i > 0 {
        match p.after(lines[0]) {
            Ok(next) => {
                assert(lines.drop_first()[i - 1] == lines[i]);
                lemma_failing_line(next, lines.drop_first(), i - 1);
            },
            Err(_) => {},
        }
    }
}

/// A text with a header line that has no `(` is not read: its monitors are
/// not handed out, neither those before that line nor those after it.
pub proof fn lemma_malformed_header_fails_text(text: Seq<char>, i: int)
    requires
        0 <= i < lines_of(text).len(),
        kind_of(lines_of(text)[i]) is Header,
        !occurs_in(trimmed(lines_of(text)[i]), "("@),
    ensures
        monitors_of(text) is Err,
{
    let lines = lines_of(text);
    assert forall|q: ParserView| (#[trigger] q.after(lines[i])) is Err by {
        lemma_header_without_parentheses(q, lines[i]);
    }
    lemma_failing_line(ParserView::start(), lines, i);
}

/// The failure of the first line that cannot be read is the failure of the
/// lines.
proof fn lemma_first_failure(p: ParserView, lines: Seq<Seq<char>>, i: int)
    requires
        0 <= i < lines.len(),
        p.after_all(lines.take(i)) is Ok,
        p.after_all(lines.take(i))->Ok_0.after(lines[i]) is Err,
    ensures
        p.after_all(lines) is Err,
        p.after_all(lines)->Err_0 == p.after_all(lines.take(i))->Ok_0.after(lines[i])->Err_0,
    decreases i,
{
    if i > 0 {
        assert(lines.take(i)[0] == lines[0]);
        assert(lines.take(i).drop_first() == lines.drop_first().take(i - 1));
        assert(lines.drop_first()[i - 1] == lines[i]);
        lemma_first_failure(p.after(lines[0])->Ok_0, lines.drop_first(), i - 1);
    }
}

/// Where the lines before a header line without `(` can be read, the text
/// fails with the failure of structure of that header line.
pub proof fn lemma_malformed_header_is_the_failure(text: Seq<char>, i: int)
    requires
        0 <= i < lines_of(text).len(),
        kind_of(lines_of(text)[i]) is Header,
        !occurs_in(trimmed(lines_of(text)[i]), "("@),
        ParserView::start().after_all(lines_of(text).take(i)) is Ok,
    ensures
        monitors_of(text) matches Err(e) && e.kind == ErrorKind::Structure && e.text == trimmed(
            lines_of(text)[i],
        ),
{
    let lines = lines_of(text);
    let before = ParserView::start().after_all(lines.take(i))->Ok_0;
    lemma_header_without_parentheses(before, lines[i]);
    lemma_first_failure(ParserView::start(), lines, i);
}

/// Every number that the state holds as text is a number literal.
pub open spec fn holds_numbers(p: ParserView) -> bool {
    &&& forall|k: int| 0 <= k < p.monitors.len() ==> (#[trigger] p.monitors[k]).well_formed()
    &&& p.block matches Some(b) ==> b.closed().well_formed()
}

/// The digit `d` alone is a number literal.
proof fn lemma_digit_is_number(s: Seq<char>)
    requires
        s.len() == 1,
        is_digit(s[0]),
    ensures
        is_number_literal(s),
{
    assert(leading_digits(s.skip(1)) == 0);
    assert(leading_digits(s) == 1);
    assert(s.skip(1).len() == 0);
}

/// The current mode that a line says has a number literal for its rate.
proof fn lemma_current_mode_holds_number(raw: Seq<char>)
    requires
        value_of(LineKind::CurrentMode, raw) is Ok,
    ensures
        value_of(LineKind::CurrentMode, raw)->Ok_0 matches LineValueView::CurrentMode(mode)
            && mode.well_formed(),
{
    reveal(value_of);
}

/// The mode that an entry of the list says has a number literal for its rate.
proof fn lemma_mode_entry_holds_number(raw: Seq<char>)
    requires
        value_of(LineKind::ModeEntry, raw) is Ok,
    ensures
        value_of(LineKind::ModeEntry, raw)->Ok_0 matches LineValueView::ModeEntry(mode)
            && mode.well_formed(),
{
    reveal(value_of);
}

/// The scale that a line says is a number literal.
proof fn lemma_scale_holds_number(raw: Seq<char>)
    requires
        value_of(LineKind::Scale, raw) is Ok,
    ensures
        value_of(LineKind::Scale, raw)->Ok_0 matches LineValueView::Scale(scale) && is_number_literal(
            scale,
        ),
{
    reveal(value_of);
}

/// A line of another kind says no number that is kept as text.
proof fn lemma_other_kinds_hold_no_number(kind: LineKind, raw: Seq<char>)
    requires
        !(kind is CurrentMode),
        !(kind is ModeEntry),
        !(kind is Scale),
        value_of(kind, raw) is Ok,
    ensures
        !(value_of(kind, raw)->Ok_0 is CurrentMode),
        !(value_of(kind, raw)->Ok_0 is ModeEntry),
        !(value_of(kind, raw)->Ok_0 is Scale),
{
    reveal(value_of);
}

/// The numbers that a line says are number literals.
proof fn lemma_value_holds_numbers(kind: LineKind, raw: Seq<char>)
    requires
        value_of(kind, raw) is Ok,
    ensures
        match value_of(kind, raw)->Ok_0 {
            LineValueView::CurrentMode(mode) => mode.well_formed(),
            LineValueView::ModeEntry(mode) => mode.well_formed(),
            LineValueView::Scale(scale) => is_number_literal(scale),
            _ => true,
        },
{
    match kind {
        LineKind::CurrentMode => lemma_current_mode_holds_number(raw),
        LineKind::ModeEntry => lemma_mode_entry_holds_number(raw),
        LineKind::Scale => lemma_scale_holds_number(raw),
        _ => lemma_other_kinds_hold_no_number(kind, raw),
    }
}

/// A line leaves the numbers of an open block number literals.
proof fn lemma_block_holds_numbers(b: OpenBlockView, kind: LineKind, raw: Seq<char>)
    requires
        b.closed().well_formed(),
        b.after(kind, raw) is Ok,
    ensures
        b.after(kind, raw)->Ok_0.closed().well_formed(),
{
    let after = b.after(kind, raw)->Ok_0;
    lemma_value_holds_numbers(kind, raw);
    assert forall|i: int| 0 <= i < after.modes.len() implies (
    #[trigger] after.modes[i]).well_formed() by {
        if i < b.modes.len() {
            assert(after.modes[i] == b.closed().available_modes[i]);
        }
    }
}

/// A header line opens a block whose numbers are number literals.
proof fn lemma_new_block_holds_numbers(line: Seq<char>)
    requires
        header_of(line) is Ok,
    ensures
        (OpenBlockView { monitor: header_of(line)->Ok_0, modes: Seq::empty() }).closed().well_formed(),
{
    reveal_strlit("0");
    reveal_strlit("1");
    lemma_digit_is_number("0"@);
    lemma_digit_is_number("1"@);
}

/// A line takes a state that holds numbers to a state that holds numbers.
proof fn lemma_after_holds_numbers(p: ParserView, raw: Seq<char>)
    requires
        holds_numbers(p),
        p.after(raw) is Ok,
    ensures
        holds_numbers(p.after(raw)->Ok_0),
{
    let next = p.after(raw)->Ok_0;
    if kind_of(raw) is Header {
        lemma_new_block_holds_numbers(trimmed(raw));
        assert(next.monitors == p.finished());
        assert forall|k: int| 0 <= k < next.monitors.len() implies (
        #[trigger] next.monitors[k]).well_formed() by {
            if k < p.monitors.len() {
                assert(next.monitors[k] == p.monitors[k]);
            }
        }
    } else {
        match p.block {
            Some(b) => {
                lemma_block_holds_numbers(b, kind_of(raw), raw);
                assert(next.monitors == p.monitors);
            },
            None => {},
        }
    }
}

/// Lines take a state that holds numbers to a state that holds numbers.
proof fn lemma_after_all_holds_numbers(p: ParserView, lines: Seq<Seq<char>>)
    requires
        holds_numbers(p),
        p.after_all(lines) is Ok,
    ensures
        holds_numbers(p.after_all(lines)->Ok_0),
    decreases lines.len(),
{
    if lines.len() > 0 {
        lemma_after_holds_numbers(p, lines[0]);
        lemma_after_all_holds_numbers(p.after(lines[0])->Ok_0, lines.drop_first());
    }
}

/// In every monitor that is read, the scale and the refresh rate of each
/// mode are number literals.
pub proof fn lemma_monitors_hold_numbers(text: Seq<char>)
    requires
        monitors_of(text) is Ok,
    ensures
        forall|k: int|
            0 <= k < monitors_of(text)->Ok_0.len() ==> (#[trigger] monitors_of(
                text,
            )->Ok_0[k]).well_formed(),
{
    lemma_after_all_holds_numbers(ParserView::start(), lines_of(text));
}

} // verus!
