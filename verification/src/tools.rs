//! The tool-execution coordinator: the registry of callable tools, the
//! plan that splits a requested batch into resolvable calls and
//! missing-tool failures, and the reconciliation of execution outcomes
//! into per-call results.
//!
//! The calls themselves suspend on the caller's transport, so the caller
//! executes the planned calls and hands their outcomes back; everything
//! that decides — lookup, partition, message texts — is here.

use vstd::prelude::*;
use vstd::string::StringExecFns;

use crate::types::ToolCall;
use crate::types::ToolCalls;
use crate::types::ToolExecutionResult;

verus! {

// ---------------------------------------------------------------------------
// The registry
// ---------------------------------------------------------------------------

/// What the core knows of one registered tool: its unique name and the
/// metadata handed to the provider. The schema is kept as JSON text;
/// it is opaque to the core.
#[derive(Debug, PartialEq, Eq)]
pub struct ToolSpec {
    pub name: String,
    pub description: Option<String>,
    pub args_schema: Option<String>,
}

impl Clone for ToolSpec {
    fn clone(&self) -> (r: Self)
        ensures
            r == *self,
    {
        ToolSpec {
            name: self.name.clone(),
            description: match &self.description {
                Some(d) => Some(d.clone()),
                None => None,
            },
            args_schema: match &self.args_schema {
                Some(s) => Some(s.clone()),
                None => None,
            },
        }
    }
}

/// A registry is well formed when no two tools share a name.
pub open spec fn registry_wf(tools: Seq<ToolSpec>) -> bool {
    forall|i: int, j: int|
        0 <= i < tools.len() && 0 <= j < tools.len() && i != j ==> tools[i].name@ != tools[j].name@
}

/// Whether some registered tool bears this name.
pub open spec fn spec_has_tool(tools: Seq<ToolSpec>, name: Seq<char>) -> bool {
    exists|i: int| 0 <= i < tools.len() && tools[i].name@ == name
}

/// The predicate a batch entry must meet to be resolvable against a
/// registry.
pub open spec fn registered_pred(tools: Seq<ToolSpec>) -> spec_fn(ToolCall) -> bool {
    |c: ToolCall| spec_has_tool(tools, c.args.tool_name@)
}

/// Looks a name up in the registry.
pub fn tool_registered(tools: &Vec<ToolSpec>, name: &String) -> (r: bool)
    ensures
        r == spec_has_tool(tools@, name@),
{
    let mut i: usize = 0;
    while i < tools.len()
        invariant
            i <= tools.len(),
            forall|j: int| 0 <= j < i ==> tools@[j].name@ != name@,
        decreases tools.len() - i,
    {
        if tools[i].name == *name {
            return true;
        }
        i = i + 1;
    }
    false
}

/// Registers a tool: a tool of the same name is replaced, any other is
/// kept, and a well-formed registry stays well formed.
pub fn upsert_tool(tools: &mut Vec<ToolSpec>, tool: ToolSpec)
    ensures
        spec_has_tool(old(tools)@, tool.name@) ==> exists|i: int|
            0 <= i < old(tools)@.len() && old(tools)@[i].name@ == tool.name@ && final(tools)@
                == old(tools)@.update(i, tool),
        !spec_has_tool(old(tools)@, tool.name@) ==> final(tools)@ == old(tools)@.push(tool),
        registry_wf(old(tools)@) ==> registry_wf(final(tools)@),
{
    let n = tools.len();
    let mut i: usize = 0;
    while i < n
        invariant
            i <= n,
            n == tools@.len(),
            tools@ == old(tools)@,
            forall|j: int| 0 <= j < i ==> tools@[j].name@ != tool.name@,
        decreases n - i,
    {
        if tools[i].name == tool.name {
            let ghost before = tools@;
            let ghost pos = i as int;
            tools[i] = tool;
            proof {
                assert(before[pos].name@ == tool.name@);
                assert(final(tools)@ == before.update(pos, tool));
                if registry_wf(before) {
                    assert forall|a: int, b: int|
                        0 <= a < tools@.len() && 0 <= b < tools@.len() && a
                            != b implies tools@[a].name@ != tools@[b].name@ by {
                        if a != pos && b != pos {
                            assert(tools@[a] == before[a] && tools@[b] == before[b]);
                        } else if a == pos {
                            assert(tools@[b] == before[b] && before[b].name@ != before[pos].name@);
                        } else {
                            assert(tools@[a] == before[a] && before[a].name@ != before[pos].name@);
                        }
                    }
                }
            }
            return ;
        }
        i = i + 1;
    }
    let ghost before = tools@;
    tools.push(tool);
    proof {
        assert(!spec_has_tool(before, tool.name@));
        if registry_wf(before) {
            assert forall|a: int, b: int|
                0 <= a < tools@.len() && 0 <= b < tools@.len() && a != b implies tools@[a].name@
                != tools@[b].name@ by {
                if a < before.len() && b < before.len() {
                    assert(tools@[a] == before[a] && tools@[b] == before[b]);
                } else if a < before.len() {
                    assert(tools@[a] == before[a] && tools@[b] == tool);
                } else {
                    assert(tools@[a] == tool && tools@[b] == before[b]);
                }
            }
        }
    }
}

// ---------------------------------------------------------------------------
// Planning a batch
// ---------------------------------------------------------------------------

/// The calls of a batch whose tool is registered, in batch order. The
/// caller executes exactly these; the rest fail without aborting anything.
pub fn plan_tool_batch(batch: &ToolCalls, tools: &Vec<ToolSpec>) -> (runnable: ToolCalls)
    ensures
        runnable@ == batch@.filter(registered_pred(tools@)),
{
    let mut runnable: ToolCalls = Vec::new();
    let mut i: usize = 0;
    while i < batch.len()
        invariant
            i <= batch.len(),
            runnable@ == batch@.take(i as int).filter(registered_pred(tools@)),
        decreases batch.len() - i,
    {
        let ghost pred = registered_pred(tools@);
        let ghost taken = batch@.take(i as int);
        let ghost taken_next = batch@.take(i as int + 1);
        proof {
            reveal(Seq::filter);
            assert(taken_next.drop_last() =~= taken);
            assert(taken_next.last() == batch@[i as int]);
            assert(pred(batch@[i as int]) == spec_has_tool(tools@, batch@[i as int].args.tool_name@));
            assert(taken_next.filter(pred) == if pred(batch@[i as int]) {
                taken.filter(pred).push(batch@[i as int])
            } else {
                taken.filter(pred)
            });
        }
        if tool_registered(tools, &batch[i].args.tool_name) {
            runnable.push(batch[i].clone());
        }
        i = i + 1;
    }
    proof {
        assert(batch@.take(batch@.len() as int) =~= batch@);
    }
    runnable
}

// ---------------------------------------------------------------------------
// Reconciling outcomes
// ---------------------------------------------------------------------------

/// What the caller observed for one executed call: its id and either the
/// tool's output or the text of the error it failed with.
#[derive(Debug, PartialEq, Eq)]
pub struct ToolOutcome {
    pub call_id: String,
    pub outcome: Result<String, String>,
}

/// A batch is well formed when no two calls share an id.
pub open spec fn batch_wf(batch: Seq<ToolCall>) -> bool {
    forall|i: int, j: int|
        0 <= i < batch.len() && 0 <= j < batch.len() && i != j ==> batch[i].call_id@
            != batch[j].call_id@
}

/// The failure text recorded for a call whose tool is not registered.
pub open spec fn missing_tool_text(name: Seq<char>) -> Seq<char> {
    "Tool "@ + name + " does not exist!"@
}

/// Builds the failure text for a call whose tool is not registered.
pub fn missing_tool_message(name: &String) -> (r: String)
    ensures
        r@ == missing_tool_text(name@),
{
    let mut s = "Tool ".to_owned();
    s.append(name.as_str());
    s.append(" does not exist!");
    s
}

/// The outcomes the caller hands back line up, id for id, with the calls
/// the plan selected.
pub open spec fn outcomes_match(
    batch: Seq<ToolCall>,
    tools: Seq<ToolSpec>,
    outcomes: Seq<ToolOutcome>,
) -> bool {
    let runnable = batch.filter(registered_pred(tools));
    &&& outcomes.len() == runnable.len()
    &&& forall|k: int| 0 <= k < outcomes.len() ==> outcomes[k].call_id@ == runnable[k].call_id@
}

/// The `(call-id, output)` entries of the successful calls, in batch
/// order.
pub open spec fn spec_successes(
    batch: Seq<ToolCall>,
    tools: Seq<ToolSpec>,
    outcomes: Seq<ToolOutcome>,
) -> Seq<(Seq<char>, Seq<char>)>
    decreases batch.len(),
{
    if batch.len() == 0 {
        Seq::empty()
    } else {
        let c = batch.last();
        if !registered_pred(tools)(c) {
            spec_successes(batch.drop_last(), tools, outcomes)
        } else {
            let rest = spec_successes(batch.drop_last(), tools, outcomes.drop_last());
            match outcomes.last().outcome {
                Ok(out) => rest.push((c.call_id@, out@)),
                Err(_) => rest,
            }
        }
    }
}

/// The `(call-id, error text)` entries of the failed calls — missing
/// tools and execution errors — in batch order.
pub open spec fn spec_failures(
    batch: Seq<ToolCall>,
    tools: Seq<ToolSpec>,
    outcomes: Seq<ToolOutcome>,
) -> Seq<(Seq<char>, Seq<char>)>
    decreases batch.len(),
{
    if batch.len() == 0 {
        Seq::empty()
    } else {
        let c = batch.last();
        if !registered_pred(tools)(c) {
            spec_failures(batch.drop_last(), tools, outcomes).push(
                (c.call_id@, missing_tool_text(c.args.tool_name@)),
            )
        } else {
            let rest = spec_failures(batch.drop_last(), tools, outcomes.drop_last());
            match outcomes.last().outcome {
                Ok(_) => rest,
                Err(e) => rest.push((c.call_id@, e@)),
            }
        }
    }
}

/// The call of a batch that answers to this id, the last one winning.
pub open spec fn spec_find_call(batch: Seq<ToolCall>, id: Seq<char>) -> Option<ToolCall>
    decreases batch.len(),
{
    if batch.len() == 0 {
        None
    } else if batch.last().call_id@ == id {
        Some(batch.last())
    } else {
        spec_find_call(batch.drop_last(), id)
    }
}

/// The name a failure notice reports: the tool's name where the batch
/// knows the call, the bare call-id otherwise.
pub open spec fn notice_name(batch: Seq<ToolCall>, id: Seq<char>) -> Seq<char> {
    match spec_find_call(batch, id) {
        Some(c) => c.args.tool_name@,
        None => id,
    }
}

/// The notice appended to the history for a failed call: it names the
/// tool, carries the error, and says that the call is not retried.
pub open spec fn failure_notice_text(name: Seq<char>, error: Seq<char>) -> Seq<char> {
    "Tool "@ + name + " failed (error: "@ + error
        + "). The call will not be retried; solve the problem another way or give a suitable response."@
}

/// Builds the failure notice for one failed call of a batch.
pub fn failure_notice(batch: &ToolCalls, id: &String, error: &String) -> (r: String)
    ensures
        r@ == failure_notice_text(notice_name(batch@, id@), error@),
{
    let mut name: &String = id;
    let mut j: usize = batch.len();
    let mut found: bool = false;
    proof {
        assert(batch@.take(batch@.len() as int) =~= batch@);
    }
    while j > 0 && !found
        invariant
            j <= batch.len(),
            spec_find_call(batch@, id@) == spec_find_call(batch@.take(j as int), id@),
            found ==> j > 0 && spec_find_call(batch@, id@) == Some(batch@[j as int - 1])
                && name@ == batch@[j as int - 1].args.tool_name@,
            !found ==> name == id,
        decreases (j as int) + (if found { 0int } else { 1int }),
    {
        proof {
            assert(batch@.take(j as int).drop_last() =~= batch@.take(j as int - 1));
            assert(batch@.take(j as int).last() == batch@[j as int - 1]);
        }
        if batch[j - 1].call_id == *id {
            name = &batch[j - 1].args.tool_name;
            found = true;
        } else {
            j = j - 1;
        }
    }
    proof {
        assert(batch@.take(0) =~= Seq::<ToolCall>::empty());
        if !found {
            assert(spec_find_call(batch@, id@) is None);
        }
    }
    let mut s = "Tool ".to_owned();
    s.append(name.as_str());
    s.append(" failed (error: ");
    s.append(error.as_str());
    s.append(
        "). The call will not be retried; solve the problem another way or give a suitable response.",
    );
    s
}

/// Whether some entry carries this call-id.
pub open spec fn has_entry_id(entries: Seq<(Seq<char>, Seq<char>)>, id: Seq<char>) -> bool {
    exists|i: int| 0 <= i < entries.len() && entries[i].0 == id
}

/// Whether some call of the batch carries this id.
pub open spec fn has_call_id(batch: Seq<ToolCall>, id: Seq<char>) -> bool {
    exists|i: int| 0 <= i < batch.len() && batch[i].call_id@ == id
}

/// The set of call-ids named by a list of result entries.
pub open spec fn entry_id_set(entries: Seq<(Seq<char>, Seq<char>)>) -> Set<Seq<char>> {
    Set::new(|id: Seq<char>| has_entry_id(entries, id))
}

/// The set of call-ids named by a batch.
pub open spec fn call_id_set(batch: Seq<ToolCall>) -> Set<Seq<char>> {
    Set::new(|id: Seq<char>| has_call_id(batch, id))
}

proof fn lemma_has_entry_push(
    entries: Seq<(Seq<char>, Seq<char>)>,
    p: (Seq<char>, Seq<char>),
    id: Seq<char>,
)
    ensures
        has_entry_id(entries.push(p), id) <==> (has_entry_id(entries, id) || p.0 == id),
{
    if has_entry_id(entries, id) {
        let i = choose|i: int| 0 <= i < entries.len() && entries[i].0 == id;
        assert(entries.push(p)[i].0 == id);
    }
    if p.0 == id {
        assert(entries.push(p)[entries.len() as int].0 == id);
    }
    if has_entry_id(entries.push(p), id) {
        let i = choose|i: int| 0 <= i < entries.push(p).len() && entries.push(p)[i].0 == id;
        if i < entries.len() {
            assert(entries[i].0 == id);
        }
    }
}

proof fn lemma_has_call_drop_last(batch: Seq<ToolCall>, id: Seq<char>)
    requires
        batch.len() > 0,
    ensures
        has_call_id(batch, id) <==> (has_call_id(batch.drop_last(), id) || batch.last().call_id@
            == id),
{
    if has_call_id(batch.drop_last(), id) {
        let i = choose|i: int|
            0 <= i < batch.drop_last().len() && batch.drop_last()[i].call_id@ == id;
        assert(batch[i].call_id@ == id);
    }
    if has_call_id(batch, id) {
        let i = choose|i: int| 0 <= i < batch.len() && batch[i].call_id@ == id;
        if i < batch.len() - 1 {
            assert(batch.drop_last()[i].call_id@ == id);
        }
    }
}

proof fn lemma_collect_partition(
    batch: Seq<ToolCall>,
    tools: Seq<ToolSpec>,
    outcomes: Seq<ToolOutcome>,
)
    requires
        outcomes_match(batch, tools, outcomes),
    ensures
        forall|id: Seq<char>|
            has_call_id(batch, id) <==> (#[trigger] has_entry_id(
                spec_successes(batch, tools, outcomes),
                id,
            ) || has_entry_id(spec_failures(batch, tools, outcomes), id)),
        forall|id: Seq<char>|
            has_entry_id(#[trigger] spec_successes(batch, tools, outcomes), id) ==> has_call_id(
                batch,
                id,
            ),
        forall|id: Seq<char>|
            has_entry_id(#[trigger] spec_failures(batch, tools, outcomes), id) ==> has_call_id(
                batch,
                id,
            ),
        batch_wf(batch) ==> forall|id: Seq<char>|
            !(has_entry_id(#[trigger] spec_successes(batch, tools, outcomes), id) && has_entry_id(
                spec_failures(batch, tools, outcomes),
                id,
            )),
    decreases batch.len(),
{
    reveal(Seq::filter);
    let pred = registered_pred(tools);
    let succ = spec_successes(batch, tools, outcomes);
    let fail = spec_failures(batch, tools, outcomes);
    if batch.len() == 0 {
        assert(forall|id: Seq<char>| !has_call_id(batch, id));
        assert(forall|id: Seq<char>| !has_entry_id(succ, id));
        assert(forall|id: Seq<char>| !has_entry_id(fail, id));
    } else {
        let c = batch.last();
        let rest = batch.drop_last();
        assert(batch_wf(batch) ==> batch_wf(rest)) by {
            if batch_wf(batch) {
                assert forall|i: int, j: int|
                    0 <= i < rest.len() && 0 <= j < rest.len() && i != j implies rest[i].call_id@
                    != rest[j].call_id@ by {
                    assert(rest[i] == batch[i] && rest[j] == batch[j]);
                }
            }
        }
        assert(batch_wf(batch) ==> !has_call_id(rest, c.call_id@)) by {
            if batch_wf(batch) && has_call_id(rest, c.call_id@) {
                let i = choose|i: int| 0 <= i < rest.len() && rest[i].call_id@ == c.call_id@;
                assert(batch[i].call_id@ == batch[batch.len() - 1].call_id@);
            }
        }
        if !pred(c) {
            assert(batch.filter(pred) == rest.filter(pred));
            lemma_collect_partition(rest, tools, outcomes);
            let succ_r = spec_successes(rest, tools, outcomes);
            let fail_r = spec_failures(rest, tools, outcomes);
            assert(succ == succ_r);
            assert(fail == fail_r.push((c.call_id@, missing_tool_text(c.args.tool_name@))));
            assert forall|id: Seq<char>|
                has_call_id(batch, id) <==> (#[trigger] has_entry_id(succ, id) || has_entry_id(
                    fail,
                    id,
                )) by {
                lemma_has_entry_push(fail_r, (c.call_id@, missing_tool_text(c.args.tool_name@)), id);
                lemma_has_call_drop_last(batch, id);
            }
            assert forall|id: Seq<char>|
                has_entry_id(#[trigger] spec_failures(batch, tools, outcomes), id) implies
                has_call_id(batch, id) by {
                lemma_has_entry_push(fail_r, (c.call_id@, missing_tool_text(c.args.tool_name@)), id);
                lemma_has_call_drop_last(batch, id);
            }
            assert forall|id: Seq<char>|
                has_entry_id(#[trigger] spec_successes(batch, tools, outcomes), id) implies
                has_call_id(batch, id) by {
                lemma_has_call_drop_last(batch, id);
            }
            if batch_wf(batch) {
                assert forall|id: Seq<char>|
                    !(has_entry_id(#[trigger] spec_successes(batch, tools, outcomes), id)
                        && has_entry_id(spec_failures(batch, tools, outcomes), id)) by {
                    lemma_has_entry_push(
                        fail_r,
                        (c.call_id@, missing_tool_text(c.args.tool_name@)),
                        id,
                    );
                }
            }
        } else {
            let runnable = batch.filter(pred);
            assert(runnable == rest.filter(pred).push(c));
            assert(rest.filter(pred) =~= runnable.drop_last());
            assert(outcomes.len() == runnable.len() && runnable.len() > 0);
            let oc_rest = outcomes.drop_last();
            assert(outcomes_match(rest, tools, oc_rest)) by {
                assert forall|k: int| 0 <= k < oc_rest.len() implies oc_rest[k].call_id@
                    == rest.filter(pred)[k].call_id@ by {
                    assert(oc_rest[k] == outcomes[k]);
                    assert(rest.filter(pred)[k] == runnable[k]);
                }
            }
            lemma_collect_partition(rest, tools, oc_rest);
            let succ_r = spec_successes(rest, tools, oc_rest);
            let fail_r = spec_failures(rest, tools, oc_rest);
            let pushed: (Seq<char>, Seq<char>) = match outcomes.last().outcome {
                Ok(out) => (c.call_id@, out@),
                Err(e) => (c.call_id@, e@),
            };
            assert forall|id: Seq<char>|
                has_call_id(batch, id) <==> (#[trigger] has_entry_id(succ, id) || has_entry_id(
                    fail,
                    id,
                )) by {
                lemma_has_entry_push(succ_r, pushed, id);
                lemma_has_entry_push(fail_r, pushed, id);
                lemma_has_call_drop_last(batch, id);
            }
            assert forall|id: Seq<char>|
                has_entry_id(#[trigger] spec_successes(batch, tools, outcomes), id) implies
                has_call_id(batch, id) by {
                lemma_has_entry_push(succ_r, pushed, id);
                lemma_has_call_drop_last(batch, id);
            }
            assert forall|id: Seq<char>|
                has_entry_id(#[trigger] spec_failures(batch, tools, outcomes), id) implies
                has_call_id(batch, id) by {
                lemma_has_entry_push(fail_r, pushed, id);
                lemma_has_call_drop_last(batch, id);
            }
            if batch_wf(batch) {
                assert forall|id: Seq<char>|
                    !(has_entry_id(#[trigger] spec_successes(batch, tools, outcomes), id)
                        && has_entry_id(spec_failures(batch, tools, outcomes), id)) by {
                    lemma_has_entry_push(succ_r, pushed, id);
                    lemma_has_entry_push(fail_r, pushed, id);
                }
            }
        }
    }
}

/// Law: for every batch whose outcomes line up with the plan, the
/// success-keys and the failure-keys together are exactly the batch's
/// call-ids, and the two sets are disjoint.
pub proof fn lemma_tool_result_partition(
    batch: Seq<ToolCall>,
    tools: Seq<ToolSpec>,
    outcomes: Seq<ToolOutcome>,
)
    requires
        outcomes_match(batch, tools, outcomes),
        batch_wf(batch),
    ensures
        entry_id_set(spec_successes(batch, tools, outcomes)).union(
            entry_id_set(spec_failures(batch, tools, outcomes)),
        ) == call_id_set(batch),
        entry_id_set(spec_successes(batch, tools, outcomes)).intersect(
            entry_id_set(spec_failures(batch, tools, outcomes)),
        ) == Set::<Seq<char>>::empty(),
{
    lemma_collect_partition(batch, tools, outcomes);
    let succ = entry_id_set(spec_successes(batch, tools, outcomes));
    let fail = entry_id_set(spec_failures(batch, tools, outcomes));
    assert(succ.union(fail) =~= call_id_set(batch));
    assert(succ.intersect(fail) =~= Set::<Seq<char>>::empty());
}

proof fn lemma_entries_view_push(s: Seq<(String, String)>, p: (String, String))
    ensures
        crate::types::entries_view(s.push(p)) == crate::types::entries_view(s).push((p.0@, p.1@)),
{
    assert(crate::types::entries_view(s.push(p)) =~= crate::types::entries_view(s).push(
        (p.0@, p.1@),
    ));
}

/// Walks a requested batch against its execution outcomes and splits it
/// into per-call successes and failures. A call whose tool is missing
/// fails with a `missing_tool_text` entry; an execution error fails with
/// the error's text; nothing aborts the batch. The two sides partition
/// the batch's call-ids.
pub fn collect_tool_results(
    batch: &ToolCalls,
    tools: &Vec<ToolSpec>,
    outcomes: &Vec<ToolOutcome>,
) -> (r: ToolExecutionResult)
    requires
        outcomes_match(batch@, tools@, outcomes@),
    ensures
        crate::types::entries_view(r.success_result@) == spec_successes(batch@, tools@, outcomes@),
        crate::types::entries_view(r.failure_result@) == spec_failures(batch@, tools@, outcomes@),
        forall|id: Seq<char>|
            has_call_id(batch@, id) <==> (#[trigger] has_entry_id(
                crate::types::entries_view(r.success_result@),
                id,
            ) || has_entry_id(crate::types::entries_view(r.failure_result@), id)),
        batch_wf(batch@) ==> forall|id: Seq<char>|
            !(has_entry_id(#[trigger] crate::types::entries_view(r.success_result@), id)
                && has_entry_id(crate::types::entries_view(r.failure_result@), id)),
{
    let ghost pred = registered_pred(tools@);
    let mut success: Vec<(String, String)> = Vec::new();
    let mut failure: Vec<(String, String)> = Vec::new();
    let mut i: usize = 0;
    let mut k: usize = 0;
    while i < batch.len()
        invariant
            i <= batch.len(),
            k <= outcomes.len(),
            pred == registered_pred(tools@),
            outcomes_match(batch@, tools@, outcomes@),
            k == batch@.take(i as int).filter(pred).len(),
            crate::types::entries_view(success@) == spec_successes(
                batch@.take(i as int),
                tools@,
                outcomes@.take(k as int),
            ),
            crate::types::entries_view(failure@) == spec_failures(
                batch@.take(i as int),
                tools@,
                outcomes@.take(k as int),
            ),
        decreases batch.len() - i,
    {
        let ghost taken = batch@.take(i as int);
        let ghost taken_next = batch@.take(i as int + 1);
        proof {
            reveal(Seq::filter);
            assert(taken_next.drop_last() =~= taken);
            assert(taken_next.last() == batch@[i as int]);
            assert(pred(batch@[i as int]) == spec_has_tool(
                tools@,
                batch@[i as int].args.tool_name@,
            ));
            assert(taken_next.filter(pred) == if pred(batch@[i as int]) {
                taken.filter(pred).push(batch@[i as int])
            } else {
                taken.filter(pred)
            });
        }
        if tool_registered(tools, &batch[i].args.tool_name) {
            proof {
                reveal(Seq::filter);
                assert(batch@ =~= taken_next + batch@.skip(i as int + 1));
                Seq::filter_distributes_over_add(taken_next, batch@.skip(i as int + 1), pred);
                assert(outcomes@.len() >= taken_next.filter(pred).len());
                assert(outcomes@.take(k as int + 1).drop_last() =~= outcomes@.take(k as int));
                assert(outcomes@.take(k as int + 1).last() == outcomes@[k as int]);
            }
            match &outcomes[k].outcome {
                Ok(out) => {
                    let ghost prev = success@;
                    success.push((batch[i].call_id.clone(), out.clone()));
                    proof {
                        lemma_entries_view_push(prev, success@.last());
                    }
                },
                Err(e) => {
                    let ghost prev = failure@;
                    failure.push((batch[i].call_id.clone(), e.clone()));
                    proof {
                        lemma_entries_view_push(prev, failure@.last());
                    }
                },
            }
            k = k + 1;
        } else {
            let msg = missing_tool_message(&batch[i].args.tool_name);
            let ghost prev = failure@;
            failure.push((batch[i].call_id.clone(), msg));
            proof {
                lemma_entries_view_push(prev, failure@.last());
            }
        }
        i = i + 1;
    }
    proof {
        assert(batch@.take(batch@.len() as int) =~= batch@);
        assert(outcomes@.take(outcomes@.len() as int) =~= outcomes@);
        lemma_collect_partition(batch@, tools@, outcomes@);
    }
    ToolExecutionResult { success_result: success, failure_result: failure }
}

} // verus!
