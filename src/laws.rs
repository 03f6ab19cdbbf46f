//! Properties of a whole run, stated over the models of `probe`, `report` and `run`.
use vstd::prelude::*;
use crate::probe::{classify, url_of, Outcome};
use crate::report::{error_stream, exists_entry, exists_stream};
use crate::run::{count_pending, lemma_pending_zero, RunState};

verus! {

/// `order` lists the units of a run of `n` units in the order they completed:
/// each entry names a unit, and every unit appears.
pub open spec fn is_completion_order(order: Seq<int>, n: int) -> bool {
    &&& order.len() == n
    &&& forall|k: int| 0 <= k < n ==> 0 <= #[trigger] order[k] < n
    &&& forall|i: int| 0 <= i < n ==> #[trigger] order.contains(i)
}

/// The outcomes of a run, in completion order, where unit `i` probed line `i`
/// and the target answered it with `responses[i]`.
pub open spec fn run_outcomes(
    base_url: Seq<char>,
    lines: Seq<Seq<char>>,
    responses: Seq<Result<u16, Seq<char>>>,
    order: Seq<int>,
) -> Seq<Outcome> {
    Seq::new(
        order.len(),
        |k: int| classify(url_of(base_url, lines[order[k]]), responses[order[k]]),
    )
}

/// Reading `n` lines spawns exactly `n` units, one per line and in file order,
/// each probing the base URL followed by its line, and none of them done yet.
pub proof fn lemma_one_unit_per_line(base_url: Seq<char>, lines: Seq<Seq<char>>)
    ensures
        RunState::start(base_url).after_lines(lines).wf(),
        RunState::start(base_url).after_lines(lines).urls.len() == lines.len(),
        count_pending(RunState::start(base_url).after_lines(lines).done) == lines.len(),
        forall|i: int|
            0 <= i < lines.len() ==> #[trigger] RunState::start(base_url).after_lines(lines).urls[i]
                == url_of(base_url, lines[i]),
        RunState::start(base_url).after_lines(lines).completed.len() == 0,
        RunState::start(base_url).after_lines(lines).base_url == base_url,
    decreases lines.len(),
{
    let s = RunState::start(base_url).after_lines(lines);
    if lines.len() == 0 {
        assert(s.urls =~= seq![]);
        assert(s.done =~= seq![]);
    } else {
        let prev = RunState::start(base_url).after_lines(lines.drop_last());
        lemma_one_unit_per_line(base_url, lines.drop_last());
        assert(s.done.drop_last() =~= prev.done);
        assert forall|i: int| 0 <= i < lines.len() implies #[trigger] s.urls[i] == url_of(
            base_url,
            lines[i],
        ) by {
            if i < lines.len() - 1 {
                assert(s.urls[i] == prev.urls[i]);
            }
        }
    }
}

/// A run is finished exactly when its input is closed and every spawned unit
/// has reported, whatever the mix of outcomes.
pub proof fn lemma_finished_iff_all_reported(s: RunState)
    requires
        s.wf(),
    ensures
        s.finished() <==> s.closed && s.completed.len() == s.urls.len(),
{
    lemma_pending_zero(s.done);
}

/// An empty input finishes at once, with nothing on either stream.
pub proof fn lemma_empty_input(base_url: Seq<char>)
    ensures
        RunState::start(base_url).after_lines(seq![]).after_close().finished(),
        exists_stream(RunState::start(base_url).after_lines(seq![]).after_close().completed)
            == Seq::<Seq<char>>::empty(),
        error_stream(RunState::start(base_url).after_lines(seq![]).after_close().completed)
            == Seq::<Seq<char>>::empty(),
{
    let s = RunState::start(base_url).after_lines(seq![]).after_close();
    assert(s.done.len() == 0);
    assert(s.completed.len() == 0);
}

/// A failed probe adds exactly one entry, its error text, to the "error"
/// stream, and nothing to the "exists" stream.
pub proof fn lemma_failure_one_error_entry(rs: Seq<Outcome>, e: Seq<char>)
    ensures
        error_stream(rs.push(Outcome::Failed(e))) == error_stream(rs).push(e),
        exists_stream(rs.push(Outcome::Failed(e))) == exists_stream(rs),
{
    assert(rs.push(Outcome::Failed(e)).drop_last() =~= rs);
}

proof fn lemma_exists_stream_members(rs: Seq<Outcome>)
    ensures
        forall|x: Seq<char>|
            #[trigger] exists_stream(rs).contains(x) <==> exists|k: int|
                0 <= k < rs.len() && (#[trigger] rs[k]) is Exists && x == exists_entry(
                    rs[k]->Exists_0,
                ),
    decreases rs.len(),
{
    if rs.len() > 0 {
        let prev = rs.drop_last();
        lemma_exists_stream_members(prev);
        let es = exists_stream(rs);
        let ep = exists_stream(prev);
        let last = rs.len() - 1;
        assert(rs[last] == rs.last());
        assert forall|x: Seq<char>| #[trigger]
            es.contains(x) <==> exists|k: int|
                0 <= k < rs.len() && (#[trigger] rs[k]) is Exists && x == exists_entry(
                    rs[k]->Exists_0,
                ) by {
            if es.contains(x) {
                let j = choose|j: int| 0 <= j < es.len() && es[j] == x;
                if j < ep.len() {
                    assert(ep[j] == es[j]);
                    assert(ep.contains(x));
                    let k = choose|k: int|
                        0 <= k < prev.len() && (#[trigger] prev[k]) is Exists && x == exists_entry(
                            prev[k]->Exists_0,
                        );
                    assert(rs[k] == prev[k]);
                } else {
                    assert(0 <= last < rs.len() && rs[last] is Exists && x == exists_entry(
                        rs[last]->Exists_0,
                    ));
                }
            }
            if exists|k: int|
                0 <= k < rs.len() && (#[trigger] rs[k]) is Exists && x == exists_entry(
                    rs[k]->Exists_0,
                ) {
                let k = choose|k: int|
                    0 <= k < rs.len() && (#[trigger] rs[k]) is Exists && x == exists_entry(
                        rs[k]->Exists_0,
                    );
                if k < last {
                    assert(prev[k] == rs[k]);
                    assert(ep.contains(x));
                    let j = choose|j: int| 0 <= j < ep.len() && ep[j] == x;
                    assert(es[j] == ep[j]);
                } else {
                    assert(es[es.len() - 1] == x);
                }
            }
        }
    }
}

/// Running again against an unchanged target and wordlist yields the same set
/// of "exists" entries, whatever order the probes complete in.
pub proof fn lemma_rerun_same_exists(
    base_url: Seq<char>,
    lines: Seq<Seq<char>>,
    responses: Seq<Result<u16, Seq<char>>>,
    first: Seq<int>,
    second: Seq<int>,
)
    requires
        responses.len() == lines.len(),
        is_completion_order(first, lines.len() as int),
        is_completion_order(second, lines.len() as int),
    ensures
        exists_stream(run_outcomes(base_url, lines, responses, first)).to_set() == exists_stream(
            run_outcomes(base_url, lines, responses, second),
        ).to_set(),
{
    let r1 = run_outcomes(base_url, lines, responses, first);
    let r2 = run_outcomes(base_url, lines, responses, second);
    let n = lines.len() as int;
    lemma_exists_stream_members(r1);
    lemma_exists_stream_members(r2);
    assert forall|x: Seq<char>|
        exists_stream(r1).contains(x) implies exists_stream(r2).contains(x) by {
        let k = choose|k: int|
            0 <= k < r1.len() && (#[trigger] r1[k]) is Exists && x == exists_entry(r1[k]->Exists_0);
        let i = first[k];
        assert(second.contains(i));
        let k2 = choose|k2: int| 0 <= k2 < n && #[trigger] second[k2] == i;
        assert(r2[k2] == r1[k]);
    }
    assert forall|x: Seq<char>|
        exists_stream(r2).contains(x) implies exists_stream(r1).contains(x) by {
        let k = choose|k: int|
            0 <= k < r2.len() && (#[trigger] r2[k]) is Exists && x == exists_entry(r2[k]->Exists_0);
        let i = second[k];
        assert(first.contains(i));
        let k1 = choose|k1: int| 0 <= k1 < n && #[trigger] first[k1] == i;
        assert(r1[k1] == r2[k]);
    }
    assert(exists_stream(r1).to_set() =~= exists_stream(r2).to_set());
}

proof fn lemma_all_exist_stream(rs: Seq<Outcome>)
    requires
        forall|k: int| 0 <= k < rs.len() ==> (#[trigger] rs[k]) is Exists,
    ensures
        exists_stream(rs) == rs.map_values(|o: Outcome| exists_entry(o->Exists_0)),
    decreases rs.len(),
{
    if rs.len() > 0 {
        let prev = rs.drop_last();
        assert forall|k: int| 0 <= k < prev.len() implies (#[trigger] prev[k]) is Exists by {
            assert(prev[k] == rs[k]);
        }
        lemma_all_exist_stream(prev);
        assert(rs[rs.len() - 1] == rs.last());
        assert(exists_stream(rs) =~= rs.map_values(|o: Outcome| exists_entry(o->Exists_0)));
    }
}

/// When the target answers every probe with a status other than "not found",
/// the "exists" stream holds exactly one entry per line, whatever order the
/// probes complete in, and its entries are those of the lines' URLs.
pub proof fn lemma_all_found(
    base_url: Seq<char>,
    lines: Seq<Seq<char>>,
    responses: Seq<Result<u16, Seq<char>>>,
    order: Seq<int>,
)
    requires
        responses.len() == lines.len(),
        is_completion_order(order, lines.len() as int),
        forall|i: int|
            0 <= i < responses.len() ==> (#[trigger] responses[i]) is Ok && responses[i]->Ok_0
                != crate::probe::NOT_FOUND,
    ensures
        exists_stream(run_outcomes(base_url, lines, responses, order)).len() == lines.len(),
        forall|x: Seq<char>|
            #[trigger] exists_stream(run_outcomes(base_url, lines, responses, order)).contains(x)
                <==> exists|i: int|
                0 <= i < lines.len() && x == exists_entry(url_of(base_url, #[trigger] lines[i])),
{
    let rs = run_outcomes(base_url, lines, responses, order);
    let n = lines.len() as int;
    assert forall|k: int| 0 <= k < rs.len() implies (#[trigger] rs[k]) is Exists by {
        assert(responses[order[k]] is Ok);
    }
    lemma_all_exist_stream(rs);
    lemma_exists_stream_members(rs);
    assert forall|x: Seq<char>| #[trigger] exists_stream(rs).contains(x) <==> exists|i: int|
        0 <= i < lines.len() && x == exists_entry(url_of(base_url, #[trigger] lines[i])) by {
        if exists_stream(rs).contains(x) {
            let k = choose|k: int|
                0 <= k < rs.len() && (#[trigger] rs[k]) is Exists && x == exists_entry(
                    rs[k]->Exists_0,
                );
            assert(responses[order[k]] is Ok);
            assert(0 <= order[k] < n && x == exists_entry(url_of(base_url, lines[order[k]])));
        }
        if exists|i: int| 0 <= i < lines.len() && x == exists_entry(url_of(base_url, #[trigger] lines[i])) {
            let i = choose|i: int|
                0 <= i < lines.len() && x == exists_entry(url_of(base_url, #[trigger] lines[i]));
            assert(order.contains(i));
            let k = choose|k: int| 0 <= k < n && order[k] == i;
            assert(responses[order[k]] is Ok);
            assert(rs[k] is Exists && x == exists_entry(rs[k]->Exists_0));
        }
    }
}

} // verus!
