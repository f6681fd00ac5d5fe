//! What `suffix add` does once the account's shortcuts are known: edit the
//! shortcut that holds the tail, review shortcuts with the same target, or create.

use vstd::prelude::*;
use crate::json::{JsonValue, text_field};
use crate::records::{occupies, occupied_tail_index, shortcut_name, shortcut_name_of, target_text_of};
use crate::shortcuts::{same_target, same_target_spec};
use crate::text::{to_owned_string, push_str, push_decimal, decimal};

verus! {

/// Whether an existing shortcut points at the same target as a new one.
pub open spec fn same_target_as(e: JsonValue, payload: JsonValue) -> bool {
    same_target_spec(target_text_of(e), target_text_of(payload))
}

/// The positions of the existing shortcuts with the new one's target, in order.
pub open spec fn duplicate_indices(s: Seq<JsonValue>, payload: JsonValue) -> Seq<usize>
    decreases s.len(),
{
    if s.len() == 0 {
        Seq::empty()
    } else {
        duplicate_indices(s.drop_last(), payload) + if same_target_as(s.last(), payload) {
            seq![(s.len() - 1) as usize]
        } else {
            Seq::empty()
        }
    }
}

fn target_text(v: &JsonValue) -> (r: &str)
    ensures
        r@ == target_text_of(*v),
{
    match v.str_field("targetUrl") {
        Some(t) => t,
        None => {
            proof {
                reveal_strlit("");
            }
            ""
        },
    }
}

/// The positions of the existing shortcuts whose target is the new one's.
pub fn duplicate_targets(shortcuts: &[JsonValue], payload: &JsonValue) -> (r: Vec<usize>)
    ensures
        r@ == duplicate_indices(shortcuts@, *payload),
{
    let target = target_text(payload);
    let mut r: Vec<usize> = Vec::new();
    let mut i: usize = 0;
    while i < shortcuts.len()
        invariant
            i <= shortcuts@.len(),
            target@ == target_text_of(*payload),
            r@ == duplicate_indices(shortcuts@.take(i as int), *payload),
        decreases shortcuts.len() - i,
    {
        proof {
            let t = shortcuts@.take(i + 1);
            assert(t.drop_last() =~= shortcuts@.take(i as int));
            assert(t.last() == shortcuts@[i as int]);
        }
        if same_target(target_text(&shortcuts[i]), target) {
            r.push(i);
        } else {
            assert(r@ =~= r@ + Seq::<usize>::empty());
        }
        i = i + 1;
    }
    assert(shortcuts@.take(i as int) =~= shortcuts@);
    r
}

/// What `suffix add` does with the account's shortcuts.
#[derive(Debug, PartialEq, Eq)]
pub enum AddPlan {
    /// Edit the shortcut at this position, which holds the tail (`--edit-existing`).
    UpdateExisting(usize),
    /// The shortcut at this position holds the tail; ask before editing it.
    ConfirmEdit(usize),
    /// These shortcuts already have the target; show them and ask.
    ReviewDuplicates(Vec<usize>),
    /// Create the shortcut.
    Create,
}

/// Whether `i` is the first shortcut holding the tail the payload asks for.
pub open spec fn first_occupying(s: Seq<JsonValue>, payload: JsonValue, i: int) -> bool {
    0 <= i < s.len() && occupies(s[i], payload) && forall|j: int| 0 <= j < i ==> !occupies(#[trigger] s[j], payload)
}

/// The plan of `suffix add`: a taken tail is edited (at once with
/// `edit_existing`, else after asking); otherwise shortcuts with the same target
/// are reviewed unless `allow_duplicate_target`; otherwise the shortcut is created.
pub fn plan_add(shortcuts: &[JsonValue], payload: &JsonValue, edit_existing: bool, allow_duplicate_target: bool) -> (r: AddPlan)
    ensures
        r matches AddPlan::UpdateExisting(i) ==> edit_existing && first_occupying(shortcuts@, *payload, i as int),
        r matches AddPlan::ConfirmEdit(i) ==> !edit_existing && first_occupying(shortcuts@, *payload, i as int),
        (r is ReviewDuplicates || r is Create) ==> forall|i: int| 0 <= i < shortcuts@.len() ==> !occupies(#[trigger] shortcuts@[i], *payload),
        r matches AddPlan::ReviewDuplicates(d) ==> !allow_duplicate_target && d@ == duplicate_indices(shortcuts@, *payload) && d@.len() > 0,
        r is Create ==> allow_duplicate_target || duplicate_indices(shortcuts@, *payload).len() == 0,
{
    match occupied_tail_index(shortcuts, payload) {
        Some(i) => {
            if edit_existing {
                AddPlan::UpdateExisting(i)
            } else {
                AddPlan::ConfirmEdit(i)
            }
        },
        None => {
            if allow_duplicate_target {
                return AddPlan::Create;
            }
            let d = duplicate_targets(shortcuts, payload);
            if d.len() == 0 {
                AddPlan::Create
            } else {
                AddPlan::ReviewDuplicates(d)
            }
        },
    }
}

/// One shortcut as `NAME<TAB>TARGET`.
pub open spec fn name_and_target(v: JsonValue) -> Seq<char> {
    shortcut_name_of(v) + "\t"@ + target_text_of(v)
}

/// The line printed when an existing shortcut is reused.
pub fn reuse_line(existing: &JsonValue) -> (r: String)
    ensures
        r@ == name_and_target(*existing) + "\n"@,
{
    let mut r = shortcut_name(existing);
    push_str(&mut r, "\t");
    push_str(&mut r, target_text(existing));
    push_str(&mut r, "\n");
    r
}

/// The numbered lines listing the shortcuts at positions `d`.
pub open spec fn duplicate_lines(s: Seq<JsonValue>, d: Seq<usize>) -> Seq<char>
    decreases d.len(),
{
    if d.len() == 0 {
        Seq::empty()
    } else {
        duplicate_lines(s, d.drop_last()) + "  "@ + decimal(d.len()) + ". "@ + name_and_target(s[d.last() as int]) + "\n"@
    }
}

/// The report shown before asking whether to reuse a shortcut with the same target.
pub open spec fn duplicate_report_of(s: Seq<JsonValue>, d: Seq<usize>) -> Seq<char> {
    "That target already has "@ + decimal(d.len()) + " shortcut"@ + (if d.len() == 1 { Seq::empty() } else { "s"@ })
        + ":\n"@ + duplicate_lines(s, d)
}

pub fn duplicate_report(shortcuts: &[JsonValue], duplicates: &Vec<usize>) -> (r: String)
    requires
        forall|k: int| 0 <= k < duplicates@.len() ==> #[trigger] duplicates@[k] < shortcuts@.len(),
        duplicates@.len() < u64::MAX,
    ensures
        r@ == duplicate_report_of(shortcuts@, duplicates@),
{
    let n = duplicates.len();
    let mut head = to_owned_string("That target already has ");
    push_decimal(&mut head, n as u64);
    push_str(&mut head, " shortcut");
    if n != 1 {
        push_str(&mut head, "s");
    } else {
        assert(head@ =~= head@ + Seq::<char>::empty());
    }
    push_str(&mut head, ":\n");
    let mut lines = String::new();
    let mut k: usize = 0;
    while k < n
        invariant
            k <= n == duplicates@.len() < u64::MAX,
            forall|q: int| 0 <= q < duplicates@.len() ==> #[trigger] duplicates@[q] < shortcuts@.len(),
            lines@ == duplicate_lines(shortcuts@, duplicates@.take(k as int)),
        decreases n - k,
    {
        let e = &shortcuts[duplicates[k]];
        let mut line = to_owned_string("  ");
        push_decimal(&mut line, (k + 1) as u64);
        push_str(&mut line, ". ");
        let name = shortcut_name(e);
        push_str(&mut line, name.as_str());
        push_str(&mut line, "\t");
        push_str(&mut line, target_text(e));
        push_str(&mut line, "\n");
        proof {
            let t = duplicates@.take(k + 1);
            assert(t.drop_last() =~= duplicates@.take(k as int));
            assert(t.last() == duplicates@[k as int]);
            assert(t.len() == k + 1);
        }
        push_str(&mut lines, line.as_str());
        k = k + 1;
    }
    assert(duplicates@.take(k as int) =~= duplicates@);
    push_str(&mut head, lines.as_str());
    head
}

} // verus!
