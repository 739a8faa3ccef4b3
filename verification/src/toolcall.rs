//! Reconstruction of tool calls from streaming deltas.
//!
//! A completion stream delivers tool calls in fragments: one delta may set
//! only an id, only a name, or only append more argument text, at any index.
//! The accumulator keeps an index-addressed list, grown on demand to the
//! highest index seen, and folds every delta into it in arrival order.

use vstd::prelude::*;

verus! {

use crate::openai::ToolCallDelta;

/// One tool call as reconstructed so far: id and name are overwritten by
/// the latest delta that carries them, argument text is concatenated.
pub struct AccumulatedToolCall {
    pub id: String,
    pub name: String,
    pub arguments: String,
}

/// The mathematical model of an accumulated tool call.
pub struct ToolCallModel {
    pub id: Seq<char>,
    pub name: Seq<char>,
    pub arguments: Seq<char>,
}

impl View for AccumulatedToolCall {
    type V = ToolCallModel;

    open spec fn view(&self) -> ToolCallModel {
        ToolCallModel {
            id: self.id@,
            name: self.name@,
            arguments: self.arguments@,
        }
    }
}

/// The model of one delta: the index it addresses and whichever fields it carries.
pub struct DeltaModel {
    pub index: int,
    pub id: Option<Seq<char>>,
    pub name: Option<Seq<char>>,
    pub arguments: Option<Seq<char>>,
}

impl View for ToolCallDelta {
    type V = DeltaModel;

    open spec fn view(&self) -> DeltaModel {
        DeltaModel {
            index: self.index as int,
            id: match self.id {
                Some(ref s) => Some(s@),
                None => None,
            },
            name: match self.function {
                Some(ref f) => match f.name {
                    Some(ref n) => Some(n@),
                    None => None,
                },
                _ => None,
            },
            arguments: match self.function {
                Some(ref f) => match f.arguments {
                    Some(ref a) => Some(a@),
                    None => None,
                },
                _ => None,
            },
        }
    }
}

/// An accumulated tool call with nothing seen yet.
pub open spec fn empty_call() -> ToolCallModel {
    ToolCallModel { id: seq![], name: seq![], arguments: seq![] }
}

/// The list grown with empty entries until `index` is addressable.
pub open spec fn grown_to(calls: Seq<ToolCallModel>, index: int) -> Seq<ToolCallModel>
    decreases index + 1 - calls.len(),
{
    if calls.len() > index {
        calls
    } else {
        grown_to(calls.push(empty_call()), index)
    }
}

/// One delta folded into one accumulated call: id and name are replaced
/// when the delta carries them, argument text is appended.
pub open spec fn merged_call(call: ToolCallModel, d: DeltaModel) -> ToolCallModel {
    ToolCallModel {
        id: match d.id {
            Some(i) => i,
            None => call.id,
        },
        name: match d.name {
            Some(n) => n,
            None => call.name,
        },
        arguments: match d.arguments {
            Some(a) => call.arguments + a,
            None => call.arguments,
        },
    }
}

/// One delta folded into the list: grow to the delta's index, then merge
/// the delta into the entry at that index.
pub open spec fn applied_delta(calls: Seq<ToolCallModel>, d: DeltaModel) -> Seq<ToolCallModel>
    recommends d.index >= 0,
{
    let grown = grown_to(calls, d.index);
    grown.update(d.index, merged_call(grown[d.index], d))
}

/// A whole sequence of deltas folded in arrival order.
pub open spec fn accumulated(calls: Seq<ToolCallModel>, ds: Seq<DeltaModel>) -> Seq<ToolCallModel>
    decreases ds.len(),
{
    if ds.len() == 0 {
        calls
    } else {
        accumulated(applied_delta(calls, ds[0]), ds.subrange(1, ds.len() as int))
    }
}

proof fn lemma_grown_to_len(calls: Seq<ToolCallModel>, index: int)
    ensures
        grown_to(calls, index).len() == if calls.len() > index {
            calls.len() as int
        } else {
            index + 1
        },
        forall|i: int| 0 <= i < calls.len() ==> grown_to(calls, index)[i] == calls[i],
        forall|i: int|
            calls.len() <= i < grown_to(calls, index).len() ==> grown_to(calls, index)[i]
                == empty_call(),
    decreases index + 1 - calls.len(),
{
    if calls.len() > index {
    } else {
        let p = calls.push(empty_call());
        lemma_grown_to_len(p, index);
        assert(grown_to(calls, index) == grown_to(p, index));
        assert forall|i: int| 0 <= i < calls.len() implies grown_to(calls, index)[i]
            == calls[i] by {
            assert(grown_to(p, index)[i] == p[i]);
            assert(p[i] == calls[i]);
        }
        assert forall|i: int| calls.len() <= i < grown_to(calls, index).len() implies grown_to(
            calls,
            index,
        )[i] == empty_call() by {
            if i == calls.len() {
                assert(grown_to(p, index)[i] == p[i]);
                assert(p[i] == empty_call());
            } else {
                assert(grown_to(p, index)[i] == empty_call());
            }
        }
    }
}

/// Growing one step further appends exactly one empty entry.
proof fn lemma_grown_to_step(calls: Seq<ToolCallModel>, k: int)
    requires
        calls.len() <= k + 1,
    ensures
        grown_to(calls, k + 1) == grown_to(calls, k).push(empty_call()),
{
    lemma_grown_to_len(calls, k);
    lemma_grown_to_len(calls, k + 1);
    let a = grown_to(calls, k + 1);
    let b = grown_to(calls, k).push(empty_call());
    assert(a.len() == b.len());
    assert forall|i: int| 0 <= i < a.len() implies a[i] == b[i] by {
        if i < calls.len() {
            assert(a[i] == calls[i]);
            assert(grown_to(calls, k)[i] == calls[i]);
        } else if i < b.len() - 1 {
            assert(a[i] == empty_call());
            assert(grown_to(calls, k)[i] == empty_call());
        } else {
            assert(a[i] == empty_call());
        }
    }
    assert(a =~= b);
}

/// Folds one delta into the accumulated list, in place.
///
/// The list grows with empty entries until the delta's index exists; then
/// the delta's fields land in that entry: id and name overwrite, argument
/// text is appended. Entries at other indices are untouched.
pub fn apply_tool_call_delta(calls: &mut Vec<AccumulatedToolCall>, d: &ToolCallDelta)
    ensures
        final(calls)@.map_values(|c: AccumulatedToolCall| c@) == applied_delta(
            old(calls)@.map_values(|c: AccumulatedToolCall| c@),
            d@,
        ),
{
    let ghost calls0 = calls@.map_values(|c: AccumulatedToolCall| c@);
    while calls.len() <= d.index
        invariant
            calls.len() >= calls0.len(),
            calls.len() == calls0.len() ==> calls@.map_values(|c: AccumulatedToolCall| c@)
                == calls0,
            calls.len() > calls0.len() ==> calls@.map_values(|c: AccumulatedToolCall| c@)
                == grown_to(calls0, calls.len() as int - 1),
            calls0.len() > d.index ==> calls.len() == calls0.len(),
            calls0.len() <= d.index ==> calls.len() <= d.index + 1,
        decreases d.index + 1 - calls.len(),
    {
        let ghost before = calls@.map_values(|c: AccumulatedToolCall| c@);
        let ghost len0 = calls.len() as int;
        calls.push(AccumulatedToolCall {
            id: String::new(),
            name: String::new(),
            arguments: String::new(),
        });
        proof {
            assert(calls@.map_values(|c: AccumulatedToolCall| c@) =~= before.push(empty_call()));
            if len0 == calls0.len() {
                lemma_grown_to_len(calls0, len0 - 1);
                assert(grown_to(calls0, len0 - 1) =~= calls0);
                lemma_grown_to_step(calls0, len0 - 1);
            } else {
                lemma_grown_to_step(calls0, len0 - 1);
            }
        }
    }
    proof {
        if calls0.len() > d.index {
            assert(grown_to(calls0, d.index as int) == calls0);
        } else {
            assert(calls.len() == d.index + 1);
            assert(calls.len() > calls0.len());
        }
        assert(calls@.map_values(|c: AccumulatedToolCall| c@) == grown_to(calls0, d.index as int));
    }
    let entry = &mut calls[d.index];
    if let Some(ref id) = d.id {
        entry.id = id.clone();
    }
    if let Some(ref f) = d.function {
        if let Some(ref n) = f.name {
            entry.name = n.clone();
        }
        if let Some(ref a) = f.arguments {
            entry.arguments.append(a.as_str());
        }
    }
    proof {
        let grown = grown_to(calls0, d@.index);
        assert(final(calls)@.map_values(|c: AccumulatedToolCall| c@) =~= grown.update(
            d@.index,
            merged_call(grown[d@.index], d@),
        ));
    }
}

/// Reconstructs the tool-call list of one whole stream: every delta folded
/// into an initially empty list, in arrival order.
///
/// This pins the merge down to the sequential fold `accumulated`, so the
/// outcome depends only on the arrival order of the deltas, never on which
/// fields each delta happens to carry.
pub fn accumulate_tool_calls(ds: &Vec<ToolCallDelta>) -> (calls: Vec<AccumulatedToolCall>)
    ensures
        calls@.map_values(|c: AccumulatedToolCall| c@) == accumulated(
            seq![],
            ds@.map_values(|d: ToolCallDelta| d@),
        ),
{
    let mut calls: Vec<AccumulatedToolCall> = Vec::new();
    let ghost dms = ds@.map_values(|d: ToolCallDelta| d@);
    assert(calls@.map_values(|c: AccumulatedToolCall| c@) =~= Seq::<ToolCallModel>::empty());
    for i in 0..ds.len()
        invariant
            calls@.map_values(|c: AccumulatedToolCall| c@) == accumulated(
                seq![],
                dms.subrange(0, i as int),
            ),
            dms == ds@.map_values(|d: ToolCallDelta| d@),
    {
        let ghost pre = dms.subrange(0, i as int);
        apply_tool_call_delta(&mut calls, &ds[i]);
        proof {
            lemma_accumulated_snoc(seq![], pre, dms[i as int]);
            assert(pre.push(dms[i as int]) =~= dms.subrange(0, i as int + 1));
        }
    }
    proof {
        assert(dms.subrange(0, dms.len() as int) =~= dms);
    }
    calls
}

/// Folding `ds` and then one more delta equals folding `ds.push(d)`:
/// the fold composes delta by delta.
pub proof fn lemma_accumulated_snoc(calls: Seq<ToolCallModel>, ds: Seq<DeltaModel>, d: DeltaModel)
    ensures
        accumulated(calls, ds.push(d)) == applied_delta(accumulated(calls, ds), d),
    decreases ds.len(),
{
    let p = ds.push(d);
    if ds.len() == 0 {
        assert(p[0] == d);
        let rest = p.subrange(1, p.len() as int);
        assert(rest =~= Seq::<DeltaModel>::empty());
        assert(accumulated(calls, p) == accumulated(applied_delta(calls, d), rest));
        assert(accumulated(applied_delta(calls, d), rest) == applied_delta(calls, d));
        assert(accumulated(calls, ds) == calls);
    } else {
        assert(p[0] == ds[0]);
        let rest = p.subrange(1, p.len() as int);
        assert(rest =~= ds.subrange(1, ds.len() as int).push(d));
        assert(accumulated(calls, p) == accumulated(applied_delta(calls, ds[0]), rest));
        lemma_accumulated_snoc(applied_delta(calls, ds[0]), ds.subrange(1, ds.len() as int), d);
        assert(accumulated(calls, ds) == accumulated(
            applied_delta(calls, ds[0]),
            ds.subrange(1, ds.len() as int),
        ));
    }
}

/// Splitting one delta stream into two consecutive parts and folding the
/// second onto the result of the first gives the fold of the whole stream:
/// reconstruction does not depend on where the stream is cut, only on the
/// arrival order of the deltas.
pub proof fn lemma_accumulated_append(
    calls: Seq<ToolCallModel>,
    ds1: Seq<DeltaModel>,
    ds2: Seq<DeltaModel>,
)
    ensures
        accumulated(calls, ds1 + ds2) == accumulated(accumulated(calls, ds1), ds2),
    decreases ds2.len(),
{
    if ds2.len() == 0 {
        assert(ds1 + ds2 =~= ds1);
    } else {
        let front = ds2.subrange(0, ds2.len() - 1);
        let last = ds2[ds2.len() - 1];
        assert(ds2 =~= front.push(last));
        assert(ds1 + ds2 =~= (ds1 + front).push(last));
        lemma_accumulated_append(calls, ds1, front);
        lemma_accumulated_snoc(calls, ds1 + front, last);
        lemma_accumulated_snoc(accumulated(calls, ds1), front, last);
    }
}

} // verus!
