//! The report of a run: what the coordinator says of the stages that failed.
use crate::error::Error;
use crate::stats::texts;
use vstd::prelude::*;

verus! {

/// The messages of the failures among `outcomes`, in the order of the
/// outcomes.
pub open spec fn failure_messages(outcomes: Seq<Result<(), Error>>) -> Seq<Seq<char>>
    decreases outcomes.len(),
{
    if outcomes.len() == 0 {
        Seq::empty()
    } else {
        match outcomes.last() {
            Ok(_) => failure_messages(outcomes.drop_last()),
            Err(error) => failure_messages(outcomes.drop_last()).push(error.message@),
        }
    }
}

/// The line that introduces the failures of a run.
pub open spec fn report_header() -> Seq<char> {
    "App failed with error(s):"@
}

/// The lines reported for `outcomes`: nothing where every stage succeeded,
/// else a blank line, the header and the message of each failure.
pub open spec fn report_lines(outcomes: Seq<Result<(), Error>>) -> Seq<Seq<char>> {
    if failure_messages(outcomes).len() == 0 {
        Seq::empty()
    } else {
        seq![Seq::empty(), report_header()] + failure_messages(outcomes)
    }
}

/// No failure is dropped: the message of every stage that failed stands in
/// the report, and the report is empty only where no stage failed.
pub proof fn lemma_every_failure_is_reported(outcomes: Seq<Result<(), Error>>)
    ensures
        forall|i: int|
            0 <= i < outcomes.len() && (#[trigger] outcomes[i]) is Err ==> report_lines(
                outcomes,
            ).contains(outcomes[i]->Err_0.message@),
        report_lines(outcomes).len() == 0 <==> forall|i: int|
            0 <= i < outcomes.len() ==> (#[trigger] outcomes[i]) is Ok,
    decreases outcomes.len(),
{
    if outcomes.len() > 0 {
        let front = outcomes.drop_last();
        lemma_every_failure_is_reported(front);
        let messages = failure_messages(outcomes);
        let lines = report_lines(outcomes);
        assert forall|i: int| 0 <= i < outcomes.len() && (#[trigger] outcomes[i]) is Err implies lines.contains(
            outcomes[i]->Err_0.message@,
        ) by {
            let message = outcomes[i]->Err_0.message@;
            if i < front.len() {
                assert(front[i] == outcomes[i]);
                let before = report_lines(front);
                let k = choose|k: int| 0 <= k < before.len() && before[k] == message;
                assert(failure_messages(front).len() > 0);
                assert(lines[k] == message);
            } else {
                assert(lines[lines.len() - 1] == message);
            }
        }
        if lines.len() == 0 {
            assert(outcomes.last() is Ok);
            assert forall|i: int| 0 <= i < outcomes.len() implies (#[trigger] outcomes[i]) is Ok by {
                if i < front.len() {
                    assert(front[i] == outcomes[i]);
                }
            }
        } else if forall|i: int| 0 <= i < outcomes.len() ==> (#[trigger] outcomes[i]) is Ok {
            assert forall|i: int| 0 <= i < front.len() implies (#[trigger] front[i]) is Ok by {
                assert(front[i] == outcomes[i]);
            }
            assert(outcomes[outcomes.len() - 1] is Ok);
        }
    }
}

/// Gathers what is to be said of the outcomes of the stages: the lines of
/// the report, in the order of the stages.
pub fn failure_report(outcomes: Vec<Result<(), Error>>) -> (lines: Vec<String>)
    ensures
        texts(lines@) == report_lines(outcomes@),
{
    let mut messages: Vec<String> = Vec::new();
    let ghost all = outcomes@;
    assert(all.take(0) =~= Seq::empty());
    assert(texts(messages@) =~= Seq::empty());
    let mut i: usize = 0;
    while i < outcomes.len()
        invariant
            i <= outcomes.len(),
            outcomes@ == all,
            texts(messages@) == failure_messages(all.take(i as int)),
        decreases outcomes.len() - i,
    {
        proof {
            assert(all.take(i + 1).drop_last() =~= all.take(i as int));
            assert(all.take(i + 1).last() == all[i as int]);
        }
        match &outcomes[i] {
            Ok(_) => {},
            Err(error) => {
                let ghost before = messages@;
                messages.push(error.message.clone());
                assert(texts(messages@) =~= texts(before).push(error.message@));
            },
        }
        i = i + 1;
    }
    assert(all.take(i as int) =~= all);
    let mut lines: Vec<String> = Vec::new();
    if messages.len() == 0 {
        assert(texts(lines@) =~= report_lines(all));
        return lines;
    }
    lines.push(String::new());
    lines.push(String::from_str("App failed with error(s):"));
    let ghost head = lines@;
    let ghost tail = messages@;
    lines.append(&mut messages);
    assert(texts(lines@) =~= report_lines(all)) by {
        assert(lines@ =~= head + tail);
        assert(texts(head) =~= seq![Seq::empty(), report_header()]);
    }
    lines
}

} // verus!
