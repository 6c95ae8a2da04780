//! Scanning: evaluating the condition of every rule of a source on the
//! data, and marking the rules whose condition holds.

use crate::compiler::ids::RuleId;
use crate::compiler::model::count_rules;
use crate::compiler::rules::Rules;
use crate::parser::ast::{Namespace, Rule, SourceFile};
use crate::scanner::eval::{holds, known_models, HostCall, Machine, Trace};
use crate::scanner::ScanContext;
use crate::types::Heap;
use crate::wasm::bitmap::{bit_at, bitmap_can_hold, bitmap_holds, lemma_with_bit_at, with_bit_at};
use crate::wasm::host::rule_match;
use crate::wasm::layout::MATCHING_RULES_BITMAP_BASE;
use vstd::prelude::*;

verus! {

/// For each of the first `n` rules of a namespace, its name and whether
/// its condition holds. A rule sees the rules before it.
pub open spec fn results(data: Seq<u8>, heap: Heap, root: usize, rules: Seq<Rule>, n: int) -> Seq<
    (Seq<char>, bool),
>
    decreases n,
{
    if n <= 0 || n > rules.len() {
        Seq::empty()
    } else {
        let before = results(data, heap, root, rules, n - 1);
        before.push(
            (
                rules[n - 1].identifier.name@,
                holds(data, heap, root, before, rules[n - 1].condition),
            ),
        )
    }
}

/// Whether each rule of a list of results matched.
pub open spec fn flags(results: Seq<(Seq<char>, bool)>) -> Seq<bool> {
    Seq::new(results.len(), |i: int| results[i].1)
}

/// Whether the condition of each rule of the first `n` namespaces holds,
/// in the order of the rules: the position of a rule is its number.
pub open spec fn verdicts(
    data: Seq<u8>,
    heap: Heap,
    root: usize,
    namespaces: Seq<Namespace>,
    n: int,
) -> Seq<bool>
    decreases n,
{
    if n <= 0 || n > namespaces.len() {
        Seq::empty()
    } else {
        verdicts(data, heap, root, namespaces, n - 1) + flags(
            results(
                data,
                heap,
                root,
                namespaces[n - 1].rules@,
                namespaces[n - 1].rules@.len() as int,
            ),
        )
    }
}

/// The memory after the rules among the first `n` whose condition holds
/// were marked in the bitmap of matching rules.
pub open spec fn marked(mem: Seq<u8>, verdicts: Seq<bool>, n: int) -> Seq<u8>
    decreases n,
{
    if n <= 0 || n > verdicts.len() {
        mem
    } else if verdicts[n - 1] {
        with_bit_at(marked(mem, verdicts, n - 1), MATCHING_RULES_BITMAP_BASE as int, n - 1)
    } else {
        marked(mem, verdicts, n - 1)
    }
}

/// The numbers of the rules among the first `n` whose condition holds, in
/// ascending order.
pub open spec fn matching(verdicts: Seq<bool>, n: int) -> Seq<RuleId>
    decreases n,
{
    if n <= 0 || n > verdicts.len() {
        Seq::empty()
    } else if verdicts[n - 1] {
        matching(verdicts, n - 1).push((n - 1) as i32)
    } else {
        matching(verdicts, n - 1)
    }
}

/// Marking rules does not change the size of the memory.
pub proof fn lemma_marked_len(mem: Seq<u8>, verdicts: Seq<bool>, n: int)
    requires
        0 <= n <= verdicts.len(),
        n > 0 ==> MATCHING_RULES_BITMAP_BASE + (n - 1) / 8 < mem.len(),
    ensures
        marked(mem, verdicts, n).len() == mem.len(),
    decreases n,
{
    if n > 0 {
        lemma_marked_len(mem, verdicts, n - 1);
    }
}

/// After a scan the bit of a rule is set exactly where it was set before
/// or the condition of the rule holds.
pub proof fn lemma_marked_bit(mem: Seq<u8>, verdicts: Seq<bool>, n: int, i: int)
    requires
        0 <= n <= verdicts.len(),
        0 <= i,
        MATCHING_RULES_BITMAP_BASE + i / 8 < mem.len(),
        n > 0 ==> MATCHING_RULES_BITMAP_BASE + (n - 1) / 8 < mem.len(),
    ensures
        bit_at(marked(mem, verdicts, n), MATCHING_RULES_BITMAP_BASE as int, i) == (bit_at(
            mem,
            MATCHING_RULES_BITMAP_BASE as int,
            i,
        ) || (i < n && verdicts[i])),
    decreases n,
{
    if n > 0 {
        lemma_marked_bit(mem, verdicts, n - 1, i);
        lemma_marked_len(mem, verdicts, n - 1);
        if verdicts[n - 1] {
            lemma_with_bit_at(
                marked(mem, verdicts, n - 1),
                MATCHING_RULES_BITMAP_BASE as int,
                n - 1,
                i,
            );
        }
    }
}

/// What a scan leaves behind, given the verdicts on the rules.
pub open spec fn scanned(
    before: ScanContext,
    after: ScanContext,
    mem_before: Seq<u8>,
    mem_after: Seq<u8>,
    verdicts: Seq<bool>,
) -> bool {
    &&& mem_after == marked(mem_before, verdicts, verdicts.len() as int)
    &&& after.rules_matching@ == before.rules_matching@ + matching(
        verdicts,
        verdicts.len() as int,
    )
    &&& after.scanned_data == before.scanned_data
    &&& after.heap == before.heap
    &&& after.root_struct == before.root_struct
    &&& after.current_struct == before.current_struct
    &&& after.vars_stack == before.vars_stack
    &&& after.string_pool == before.string_pool
}

/// Evaluates the condition of every rule of the source, in the order of
/// the rules, and reports each rule whose condition holds: its bit in the
/// bitmap of matching rules is set, and its number is added to the list of
/// the rules that matched. Returns the reads of the data that the
/// conditions made.
pub fn scan(src: &SourceFile, ctx: &mut ScanContext, main_memory: &mut [u8]) -> (calls: Vec<
    HostCall,
>)
    requires
        old(ctx).heap.wf(),
        crate::compiler::model::count_rules(src.namespaces@, 0) <= i32::MAX,
        crate::compiler::model::count_rules(src.namespaces@, 0) > 0 ==> bitmap_holds(
            old(main_memory)@,
            crate::compiler::model::count_rules(src.namespaces@, 0) - 1,
        ),
    ensures
        scanned(
            *old(ctx),
            *final(ctx),
            old(main_memory)@,
            final(main_memory)@,
            verdicts(
                old(ctx).scanned_data@,
                old(ctx).heap,
                old(ctx).root_struct,
                src.namespaces@,
                src.namespaces@.len() as int,
            ),
        ),
{
    let ghost data = ctx.scanned_data@;
    let ghost heap = ctx.heap;
    let ghost root = ctx.root_struct;
    let ghost mem0 = main_memory@;
    let ghost matched0 = ctx.rules_matching@;
    let ghost total = crate::compiler::model::count_rules(src.namespaces@, 0);
    let mut trace = Trace { vars: Vec::new(), calls: Vec::new() };
    let mut next: usize = 0;
    let mut n: usize = 0;
    proof {
        assert(matched0 + Seq::<RuleId>::empty() =~= matched0);
    }
    while n < src.namespaces.len()
        invariant
            n <= src.namespaces@.len(),
            data == old(ctx).scanned_data@,
            heap == old(ctx).heap,
            root == old(ctx).root_struct,
            mem0 == old(main_memory)@,
            matched0 == old(ctx).rules_matching@,
            total == crate::compiler::model::count_rules(src.namespaces@, 0),
            total <= i32::MAX,
            total > 0 ==> bitmap_holds(mem0, total - 1),
            heap.wf(),
            trace.vars@.len() == 0,
            next == verdicts(data, heap, root, src.namespaces@, n as int).len(),
            next + crate::compiler::model::count_rules(src.namespaces@, n as int) == total,
            main_memory@.len() == mem0.len(),
            scanned(
                *old(ctx),
                *ctx,
                mem0,
                main_memory@,
                verdicts(data, heap, root, src.namespaces@, n as int),
            ),
        decreases src.namespaces@.len() - n,
    {
        let rules = &src.namespaces[n].rules;
        let ghost seen = verdicts(data, heap, root, src.namespaces@, n as int);
        let mut known: Vec<(String, bool)> = Vec::new();
        let mut k: usize = 0;
        proof {
            assert(known_models(known@) =~= results(data, heap, root, rules@, 0));
            assert(seen + flags(results(data, heap, root, rules@, 0)) =~= seen);
            assert(crate::compiler::model::count_rules(src.namespaces@, n as int) == rules@.len()
                + crate::compiler::model::count_rules(src.namespaces@, n + 1));
            lemma_results_len(data, heap, root, rules@, rules@.len() as int);
        }
        while k < rules.len()
            invariant
                k <= rules@.len(),
                n < src.namespaces@.len(),
                *rules == src.namespaces@[n as int].rules,
                data == old(ctx).scanned_data@,
                heap == old(ctx).heap,
                root == old(ctx).root_struct,
                mem0 == old(main_memory)@,
                total <= i32::MAX,
                total > 0 ==> bitmap_holds(mem0, total - 1),
                heap.wf(),
                trace.vars@.len() == 0,
                seen == verdicts(data, heap, root, src.namespaces@, n as int),
                next == seen.len() + k,
                next + (rules@.len() - k) <= total,
                main_memory@.len() == mem0.len(),
                known_models(known@) == results(data, heap, root, rules@, k as int),
                scanned(
                    *old(ctx),
                    *ctx,
                    mem0,
                    main_memory@,
                    seen + flags(results(data, heap, root, rules@, k as int)),
                ),
            decreases rules@.len() - k,
        {
            let rule = &rules[k];
            let ghost before = results(data, heap, root, rules@, k as int);
            let ghost so_far = seen + flags(before);
            let ghost matched0 = old(ctx).rules_matching@;
            let matched = {
                let machine = Machine {
                    data: ctx.scanned_data.as_slice(),
                    heap: &ctx.heap,
                    root: ctx.root_struct,
                    known: &known,
                };
                proof {
                    assert(crate::scanner::eval::var_models(trace.vars@) =~= Seq::empty());
                }
                machine.matches(&mut trace, &rule.condition)
            };
            proof {
                assert(matched == holds(data, heap, root, before, rule.condition));
                assert(trace.vars@.len() == crate::scanner::eval::var_models(trace.vars@).len());
            }
            let ghost held = known@;
            known.push((rule.identifier.name.clone(), matched));
            let ghost now = results(data, heap, root, rules@, k + 1);
            let ghost mem_now = main_memory@;
            let ghost list_now = ctx.rules_matching@;
            proof {
                lemma_results_len(data, heap, root, rules@, k as int);
                assert(so_far.len() == next);
                assert(next < total);
                assert((next as int) / 8 <= (total - 1) / 8);
                assert(known_models(known@) =~= known_models(held).push(
                    (rule.identifier.name@, matched),
                ));
                assert(seen + flags(now) =~= so_far.push(matched));
                if next > 0 {
                    assert((next as int - 1) / 8 <= (total - 1) / 8);
                }
                lemma_marked_len(mem0, so_far, so_far.len() as int);
                lemma_marked_same(mem0, so_far, so_far.push(matched), so_far.len() as int);
                lemma_matching_same(so_far, so_far.push(matched), so_far.len() as int);
            }
            if matched {
                rule_match(ctx, main_memory, next as RuleId);
                proof {
                    let m = matching(so_far, so_far.len() as int);
                    assert((matched0 + m).push(next as i32) =~= matched0 + m.push(next as i32));
                }
            }
            next += 1;
            k += 1;
        }
        proof {
            lemma_results_len(data, heap, root, rules@, rules@.len() as int);
        }
        n += 1;
    }
    trace.calls
}

/// There is one result for each rule.
pub proof fn lemma_results_len(data: Seq<u8>, heap: Heap, root: usize, rules: Seq<Rule>, n: int)
    requires
        0 <= n <= rules.len(),
    ensures
        results(data, heap, root, rules, n).len() == n,
    decreases n,
{
    if n > 0 {
        lemma_results_len(data, heap, root, rules, n - 1);
    }
}

/// The marks of the first `n` rules depend on their verdicts only.
pub proof fn lemma_marked_same(mem: Seq<u8>, a: Seq<bool>, b: Seq<bool>, n: int)
    requires
        0 <= n <= a.len(),
        n <= b.len(),
        forall|i: int| 0 <= i < n ==> a[i] == b[i],
    ensures
        marked(mem, a, n) == marked(mem, b, n),
    decreases n,
{
    if n > 0 {
        lemma_marked_same(mem, a, b, n - 1);
    }
}

/// The matching rules among the first `n` depend on their verdicts only.
pub proof fn lemma_matching_same(a: Seq<bool>, b: Seq<bool>, n: int)
    requires
        0 <= n <= a.len(),
        n <= b.len(),
        forall|i: int| 0 <= i < n ==> a[i] == b[i],
    ensures
        matching(a, n) == matching(b, n),
    decreases n,
{
    if n > 0 {
        lemma_matching_same(a, b, n - 1);
    }
}

/// The namespaces from the one with number `k` on declare no fewer rules
/// than those from a later one on.
pub proof fn lemma_count_rules_grows(namespaces: Seq<Namespace>, k: int, j: int)
    requires
        0 <= k <= j,
    ensures
        count_rules(namespaces, j) <= count_rules(namespaces, k),
    decreases j - k,
{
    if k < j {
        lemma_count_rules_grows(namespaces, k + 1, j);
    }
}

/// How many rules the namespaces declare, where the rules can be numbered
/// with 32 bits.
pub fn rule_count(namespaces: &[Namespace]) -> (n: Option<i32>)
    ensures
        match n {
            Some(c) => c == count_rules(namespaces@, 0),
            None => count_rules(namespaces@, 0) > i32::MAX,
        },
{
    let mut count: usize = 0;
    let mut k: usize = namespaces.len();
    while k > 0
        invariant
            k <= namespaces@.len(),
            count == count_rules(namespaces@, k as int),
            count <= i32::MAX,
        decreases k,
    {
        k -= 1;
        let more = namespaces[k].rules.len();
        if more > 0x7fff_ffff - count {
            proof {
                lemma_count_rules_grows(namespaces@, 0, k as int);
            }
            return None;
        }
        count += more;
    }
    Some(count as i32)
}

/// The memory has a bit for each rule of the program, and the rules can be
/// numbered with 32 bits.
pub open spec fn can_scan(namespaces: Seq<Namespace>, mem: Seq<u8>) -> bool {
    &&& count_rules(namespaces, 0) <= i32::MAX
    &&& count_rules(namespaces, 0) > 0 ==> bitmap_holds(mem, count_rules(namespaces, 0) - 1)
}

/// Runs the program of compiled rules on the data of a scan: evaluates the
/// condition of every rule, in the order of the rules, and reports each
/// rule whose condition holds, as `scan` does. Returns the reads of the
/// data that the conditions made. Where the memory has no bit for each
/// rule, nothing is done and `None` is returned.
pub fn scan_rules(rules: &Rules, ctx: &mut ScanContext, main_memory: &mut [u8]) -> (calls: Option<
    Vec<HostCall>,
>)
    requires
        old(ctx).heap.wf(),
    ensures
        match calls {
            Some(_) => can_scan(rules.program_spec(), old(main_memory)@) && scanned(
                *old(ctx),
                *final(ctx),
                old(main_memory)@,
                final(main_memory)@,
                verdicts(
                    old(ctx).scanned_data@,
                    old(ctx).heap,
                    old(ctx).root_struct,
                    rules.program_spec(),
                    rules.program_spec().len() as int,
                ),
            ),
            None => !can_scan(rules.program_spec(), old(main_memory)@) && *final(ctx) == *old(ctx)
                && final(main_memory)@ == old(main_memory)@,
        },
{
    let program = rules.program();
    match rule_count(program.namespaces.as_slice()) {
        None => None,
        Some(count) => {
            if count > 0 && !bitmap_can_hold(main_memory, count - 1) {
                None
            } else {
                Some(scan(program, ctx, main_memory))
            }
        },
    }
}

} // verus!
