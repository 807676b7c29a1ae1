//! Properties of the accumulator and the read loop, over several calls.
use vstd::prelude::*;
use crate::numbers::{float_text, u64_value};
use crate::progress::{
    ConversionError, ErrorView, FedView, ProgressView, Status, empty_progress, fed, key_drop_frames,
    key_dup_frames, key_fps, key_frame, key_out_time_us, key_progress, key_speed, key_total_size,
    speed_number, word_continue, word_end,
};
use crate::session::{LoopState, StepView, line_step};
use crate::protocol::split_line;

verus! {

/// The keys whose values are unsigned integers.
pub open spec fn integer_key(k: Seq<char>) -> bool {
    k == key_frame() || k == key_total_size() || k == key_out_time_us() || k == key_dup_frames()
        || k == key_drop_frames()
}

/// A pair of a known field key whose value converts.
pub open spec fn field_pair_ok(k: Seq<char>, v: Seq<char>) -> bool {
    (integer_key(k) && u64_value(v) is Some) || (k == key_fps() && float_text(v)) || (k
        == key_speed() && v.len() > 0 && float_text(speed_number(v)))
}

/// A pair of a known numeric key whose value does not convert.
pub open spec fn numeric_pair_bad(k: Seq<char>, v: Seq<char>) -> bool {
    (integer_key(k) && u64_value(v) is None) || (k == key_fps() && !float_text(v)) || (k
        == key_speed() && !(v.len() > 0 && float_text(speed_number(v))))
}

/// The record after feeding `pairs` in order, starting from `cur`.
pub open spec fn absorb_all(cur: ProgressView, pairs: Seq<(Seq<char>, Seq<char>)>) -> ProgressView
    decreases pairs.len(),
{
    if pairs.len() == 0 {
        cur
    } else {
        fed(absorb_all(cur, pairs.drop_last()), pairs.last().0, pairs.last().1).0
    }
}

/// Whether some pair has key `k`.
pub open spec fn touched(pairs: Seq<(Seq<char>, Seq<char>)>, k: Seq<char>) -> bool {
    exists|i: int| 0 <= i < pairs.len() && (#[trigger] pairs[i]).0 == k
}

/// The status that a `progress` value stands for.
pub open spec fn status_of(v: Seq<char>) -> Status {
    if v == word_end() {
        Status::End
    } else {
        Status::Continue
    }
}

proof fn lemma_keys_distinct()
    ensures
        key_frame() != key_fps(),
        key_frame() != key_total_size(),
        key_frame() != key_out_time_us(),
        key_frame() != key_dup_frames(),
        key_frame() != key_drop_frames(),
        key_frame() != key_speed(),
        key_frame() != key_progress(),
        key_fps() != key_total_size(),
        key_fps() != key_out_time_us(),
        key_fps() != key_dup_frames(),
        key_fps() != key_drop_frames(),
        key_fps() != key_speed(),
        key_fps() != key_progress(),
        key_total_size() != key_out_time_us(),
        key_total_size() != key_dup_frames(),
        key_total_size() != key_drop_frames(),
        key_total_size() != key_speed(),
        key_total_size() != key_progress(),
        key_out_time_us() != key_dup_frames(),
        key_out_time_us() != key_drop_frames(),
        key_out_time_us() != key_speed(),
        key_out_time_us() != key_progress(),
        key_dup_frames() != key_drop_frames(),
        key_dup_frames() != key_speed(),
        key_dup_frames() != key_progress(),
        key_drop_frames() != key_speed(),
        key_drop_frames() != key_progress(),
        key_speed() != key_progress(),
        word_continue() != word_end(),
{
    assert(key_frame().len() != key_fps().len());
    assert(key_frame()[0] != key_total_size()[0]);
    assert(key_frame().len() != key_out_time_us().len());
    assert(key_frame()[0] != key_dup_frames()[0]);
    assert(key_frame().len() != key_drop_frames().len());
    assert(key_frame()[0] != key_speed()[0]);
    assert(key_frame().len() != key_progress().len());
    assert(key_fps().len() != key_total_size().len());
    assert(key_fps().len() != key_out_time_us().len());
    assert(key_fps().len() != key_dup_frames().len());
    assert(key_fps().len() != key_drop_frames().len());
    assert(key_fps().len() != key_speed().len());
    assert(key_fps().len() != key_progress().len());
    assert(key_total_size().len() != key_out_time_us().len());
    assert(key_total_size()[0] != key_dup_frames()[0]);
    assert(key_total_size().len() != key_drop_frames().len());
    assert(key_total_size().len() != key_speed().len());
    assert(key_total_size().len() != key_progress().len());
    assert(key_out_time_us().len() != key_dup_frames().len());
    assert(key_out_time_us()[0] != key_drop_frames()[0]);
    assert(key_out_time_us().len() != key_speed().len());
    assert(key_out_time_us().len() != key_progress().len());
    assert(key_dup_frames()[1] != key_drop_frames()[1]);
    assert(key_dup_frames().len() != key_speed().len());
    assert(key_dup_frames().len() != key_progress().len());
    assert(key_drop_frames().len() != key_speed().len());
    assert(key_drop_frames().len() != key_progress().len());
    assert(key_speed().len() != key_progress().len());
    assert(word_continue().len() != word_end().len());
}

/// A pair of a known field key whose value converts is stored, whatever
/// the record held before.
pub proof fn law_valid_field_is_absorbed(cur: ProgressView, k: Seq<char>, v: Seq<char>)
    requires
        field_pair_ok(k, v),
    ensures
        fed(cur, k, v).1 == FedView::Absorbed,
{
    lemma_keys_distinct();
}

proof fn lemma_touched_step(pairs: Seq<(Seq<char>, Seq<char>)>, k: Seq<char>)
    requires
        pairs.len() > 0,
    ensures
        touched(pairs, k) <==> (touched(pairs.drop_last(), k) || pairs.last().0 == k),
{
    let q = pairs.drop_last();
    if touched(pairs, k) {
        let i = choose|i: int| 0 <= i < pairs.len() && (#[trigger] pairs[i]).0 == k;
        if i < q.len() {
            assert(q[i] == pairs[i]);
        }
    }
    if touched(q, k) {
        let i = choose|i: int| 0 <= i < q.len() && (#[trigger] q[i]).0 == k;
        assert(q[i] == pairs[i]);
    }
    if pairs.last().0 == k {
        assert(pairs[pairs.len() - 1].0 == k);
    }
}

/// Feeding the fields of a report, each of a known key with a value that
/// converts, from an empty record, sets exactly the fields whose keys occur
/// and leaves the others absent; the status is not touched.
pub proof fn law_fields_set_iff_touched(pairs: Seq<(Seq<char>, Seq<char>)>)
    requires
        forall|i: int| 0 <= i < pairs.len() ==> field_pair_ok(#[trigger] pairs[i].0, pairs[i].1),
    ensures
        ({
            let p = absorb_all(empty_progress(), pairs);
            &&& (p.frame is Some <==> touched(pairs, key_frame()))
            &&& (p.fps is Some <==> touched(pairs, key_fps()))
            &&& (p.total_size is Some <==> touched(pairs, key_total_size()))
            &&& (p.out_time is Some <==> touched(pairs, key_out_time_us()))
            &&& (p.dup_frames is Some <==> touched(pairs, key_dup_frames()))
            &&& (p.drop_frames is Some <==> touched(pairs, key_drop_frames()))
            &&& (p.speed is Some <==> touched(pairs, key_speed()))
            &&& p.status == Status::Continue
        }),
    decreases pairs.len(),
{
    lemma_keys_distinct();
    if pairs.len() > 0 {
        let q = pairs.drop_last();
        assert forall|i: int| 0 <= i < q.len() implies field_pair_ok(
            #[trigger] q[i].0,
            q[i].1,
        ) by {
            assert(q[i] == pairs[i]);
        }
        law_fields_set_iff_touched(q);
        assert(field_pair_ok(pairs[pairs.len() - 1].0, pairs[pairs.len() - 1].1));
        lemma_touched_step(pairs, key_frame());
        lemma_touched_step(pairs, key_fps());
        lemma_touched_step(pairs, key_total_size());
        lemma_touched_step(pairs, key_out_time_us());
        lemma_touched_step(pairs, key_dup_frames());
        lemma_touched_step(pairs, key_drop_frames());
        lemma_touched_step(pairs, key_speed());
    }
}

/// A report made of fields of known keys whose values convert, followed by
/// `progress=continue` or `progress=end`, fed to an empty accumulator: every
/// field is stored without a snapshot, the status line hands out exactly one
/// snapshot, in which exactly the fields whose keys occur are set, with that
/// status, and the accumulator starts again from an empty record.
pub proof fn law_report_yields_one_snapshot(pairs: Seq<(Seq<char>, Seq<char>)>, v: Seq<char>)
    requires
        forall|i: int| 0 <= i < pairs.len() ==> field_pair_ok(#[trigger] pairs[i].0, pairs[i].1),
        v == word_continue() || v == word_end(),
    ensures
        forall|i: int|
            0 <= i < pairs.len() ==> (#[trigger] fed(
                absorb_all(empty_progress(), pairs.take(i)),
                pairs[i].0,
                pairs[i].1,
            )).1 == FedView::Absorbed,
        ({
            let p = absorb_all(empty_progress(), pairs);
            &&& fed(p, key_progress(), v) == (
                empty_progress(),
                FedView::Snapshot(ProgressView { status: status_of(v), ..p }),
            )
            &&& (p.frame is Some <==> touched(pairs, key_frame()))
            &&& (p.fps is Some <==> touched(pairs, key_fps()))
            &&& (p.total_size is Some <==> touched(pairs, key_total_size()))
            &&& (p.out_time is Some <==> touched(pairs, key_out_time_us()))
            &&& (p.dup_frames is Some <==> touched(pairs, key_dup_frames()))
            &&& (p.drop_frames is Some <==> touched(pairs, key_drop_frames()))
            &&& (p.speed is Some <==> touched(pairs, key_speed()))
        }),
{
    lemma_keys_distinct();
    law_fields_set_iff_touched(pairs);
    assert forall|i: int| 0 <= i < pairs.len() implies (#[trigger] fed(
        absorb_all(empty_progress(), pairs.take(i)),
        pairs[i].0,
        pairs[i].1,
    )).1 == FedView::Absorbed by {
        law_valid_field_is_absorbed(absorb_all(empty_progress(), pairs.take(i)), pairs[i].0, pairs[i].1);
    }
}

/// A status line completes a report and leaves an empty record, whatever the
/// record held: the next report starts from no field set.
pub proof fn law_status_resets(a: ProgressView, b: ProgressView, v: Seq<char>)
    requires
        v == word_continue() || v == word_end(),
    ensures
        fed(a, key_progress(), v).0 == empty_progress(),
        fed(a, key_progress(), v).0 == fed(b, key_progress(), v).0,
        fed(a, key_progress(), v).1 is Snapshot,
{
    lemma_keys_distinct();
}

/// A stopped loop publishes nothing more and stays stopped, whatever it reads.
pub proof fn law_stopped_stays_silent(s: LoopState, line: Seq<char>)
    requires
        s.finished,
    ensures
        line_step(s, line) == (s, StepView::Close),
{
}

/// A line of a known numeric key whose value does not convert publishes one
/// conversion error that holds the text that failed, and stops the loop.
pub proof fn law_bad_number_stops(s: LoopState, line: Seq<char>, k: Seq<char>, v: Seq<char>)
    requires
        !s.finished,
        split_line(line) == Some((k, v)),
        numeric_pair_bad(k, v),
    ensures
        line_step(s, line).1 == StepView::PublishLast(
            Err(
                ErrorView::Conversion(
                    if integer_key(k) {
                        ConversionError::InvalidInteger
                    } else {
                        ConversionError::InvalidFloat
                    },
                    if k == key_speed() {
                        speed_number(v)
                    } else {
                        v
                    },
                ),
            ),
        ),
        line_step(s, line).0.finished,
        forall|l: Seq<char>| #[trigger]
            line_step(line_step(s, line).0, l) == (line_step(s, line).0, StepView::Close),
{
    lemma_keys_distinct();
}

/// A `progress` line whose value is neither `continue` nor `end` publishes
/// one unknown-status error that holds the value, and stops the loop.
pub proof fn law_unknown_status_stops(s: LoopState, line: Seq<char>, v: Seq<char>)
    requires
        !s.finished,
        split_line(line) == Some((key_progress(), v)),
        v != word_continue(),
        v != word_end(),
    ensures
        line_step(s, line).1 == StepView::PublishLast(Err(ErrorView::UnknownStatus(v))),
        line_step(s, line).0.finished,
        forall|l: Seq<char>| #[trigger]
            line_step(line_step(s, line).0, l) == (line_step(s, line).0, StepView::Close),
{
    lemma_keys_distinct();
}

/// The state after reading `lines` in order from `s`, and the step of each line.
pub open spec fn run_lines(s: LoopState, lines: Seq<Seq<char>>) -> (LoopState, Seq<StepView>)
    decreases lines.len(),
{
    if lines.len() == 0 {
        (s, Seq::empty())
    } else {
        let (t, outs) = run_lines(s, lines.drop_last());
        let (u, o) = line_step(t, lines.last());
        (u, outs.push(o))
    }
}

/// Over any lines, a step that publishes a last item is followed only by
/// steps that close without publishing, and a loop that published one has
/// stopped.
pub proof fn law_one_terminal_item(s: LoopState, lines: Seq<Seq<char>>)
    ensures
        run_lines(s, lines).1.len() == lines.len(),
        forall|i: int, j: int|
            0 <= i < j < lines.len() && (#[trigger] run_lines(s, lines).1[i]) is PublishLast
                ==> #[trigger] run_lines(s, lines).1[j] == StepView::Close,
        forall|i: int|
            0 <= i < lines.len() && (#[trigger] run_lines(s, lines).1[i]) is PublishLast
                ==> run_lines(s, lines).0.finished,
        s.finished ==> run_lines(s, lines).0.finished,
    decreases lines.len(),
{
    if lines.len() > 0 {
        let q = lines.drop_last();
        law_one_terminal_item(s, q);
        let (t, outs) = run_lines(s, q);
        let (u, o) = line_step(t, lines.last());
        let all = outs.push(o);
        assert(run_lines(s, lines) == (u, all));
        assert forall|i: int, j: int|
            0 <= i < j < lines.len() && (#[trigger] all[i]) is PublishLast implies #[trigger] all[j]
            == StepView::Close by {
            assert(all[i] == outs[i]);
            if j < q.len() {
                assert(all[j] == outs[j]);
            }
        }
        assert forall|i: int| 0 <= i < lines.len() && (#[trigger] all[i]) is PublishLast implies u.finished by {
            if i < q.len() {
                assert(all[i] == outs[i]);
            }
        }
    }
}

} // verus!
