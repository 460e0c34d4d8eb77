use vstd::prelude::*;
use vstd::string::*;
use crate::error::AppError;
use crate::json::{JsonValue, JsonTree, lemma_entries_map_small};
use crate::text::{hex_padded, push_hex_padded};

verus! {

/// Where a notification destination delivers.
pub enum DestinationKind {
    Ntfy,
    Discord,
    Webhook,
}

/// A configured notification destination: its identifier, its kind, and
/// the settings its kind needs.
pub struct NotificationDestination<S> {
    pub id: String,
    pub kind: DestinationKind,
    pub settings: S,
}

/// A random `u32` from `rand::thread_rng()`. Nothing is stated of it: it is chance.
#[verifier::external_body]
fn random_u32() -> u32 {
    rand::Rng::gen::<u32>(&mut rand::thread_rng())
}

/// A destination identifier: eight lowercase hexadecimal digits of `n`.
pub fn format_id(n: u32) -> (r: String)
    ensures
        r@ == hex_padded(n as nat, 8),
{
    let mut r = String::new();
    push_hex_padded(&mut r, n, 8);
    r
}

/// A fresh random destination identifier.
pub fn gen_id() -> (r: String)
    ensures
        exists|n: u32| r@ == hex_padded(n as nat, 8),
{
    let n = random_u32();
    format_id(n)
}

/// The answer `{"success": true}`.
pub open spec fn success_tree() -> JsonTree {
    JsonTree::Object(map!["success"@ => JsonTree::Bool(true)])
}

fn success_response() -> (r: JsonValue)
    ensures
        r.tree() == success_tree(),
{
    let mut entries: Vec<(String, JsonValue)> = Vec::new();
    entries.push((String::from_str("success"), JsonValue::Bool(true)));
    proof {
        lemma_entries_map_small(entries@);
    }
    JsonValue::Object(entries)
}

/// The refusal for an identifier that no destination has.
pub open spec fn not_found_text(id: Seq<char>) -> Seq<char> {
    "destination "@ + id + " not found"@
}

fn not_found(id: &str) -> (r: AppError)
    ensures
        r == AppError::Validation(r->Validation_0) && r->Validation_0@ == not_found_text(id@),
{
    let mut msg = String::from_str("destination ");
    msg.append(id);
    msg.append(" not found");
    AppError::Validation(msg)
}

/// Index of the first destination with identifier `id`.
pub fn find_destination<S>(destinations: &Vec<NotificationDestination<S>>, id: &str) -> (r: Option<
    usize,
>)
    ensures
        match r {
            Some(i) => i < destinations@.len() && destinations@[i as int].id@ == id@ && forall|j: int|
                0 <= j < i ==> destinations@[j].id@ != id@,
            None => forall|j: int| 0 <= j < destinations@.len() ==> destinations@[j].id@ != id@,
        },
{
    let n = destinations.len();
    let mut i: usize = 0;
    while i < n
        invariant
            n == destinations@.len(),
            i <= n,
            forall|j: int| 0 <= j < i ==> destinations@[j].id@ != id@,
        decreases n - i,
    {
        if crate::text::str_equal(destinations[i].id.as_str(), id) {
            return Some(i);
        }
        i = i + 1;
    }
    None
}

/// Adds a destination under a fresh identifier; answers
/// `{"success": true, "id": <identifier>}`.
pub fn create_destination<S>(
    destinations: &mut Vec<NotificationDestination<S>>,
    dest: NotificationDestination<S>,
) -> (r: JsonValue)
    ensures
        final(destinations)@.len() == old(destinations)@.len() + 1,
        final(destinations)@.drop_last() == old(destinations)@,
        ({
            let added = final(destinations)@.last();
            &&& added.kind == dest.kind
            &&& added.settings == dest.settings
            &&& exists|n: u32| added.id@ == hex_padded(n as nat, 8)
            &&& r.tree() == JsonTree::Object(
                map!["success"@ => JsonTree::Bool(true), "id"@ => JsonTree::Str(added.id@)],
            )
        }),
{
    let id = gen_id();
    let answer_id = id.clone();
    let added = NotificationDestination { id, kind: dest.kind, settings: dest.settings };
    destinations.push(added);
    let mut entries: Vec<(String, JsonValue)> = Vec::new();
    entries.push((String::from_str("success"), JsonValue::Bool(true)));
    entries.push((String::from_str("id"), JsonValue::Str(answer_id)));
    proof {
        lemma_entries_map_small(entries@);
        assert(final(destinations)@.drop_last() =~= old(destinations)@);
    }
    JsonValue::Object(entries)
}

/// Replaces the first destination with identifier `id` by `req`, keeping the
/// identifier; refused when no destination has it.
pub fn update_destination<S>(
    destinations: &mut Vec<NotificationDestination<S>>,
    id: &str,
    req: NotificationDestination<S>,
) -> (r: Result<JsonValue, AppError>)
    ensures
        match r {
            Ok(answer) => exists|i: int|
                0 <= i < old(destinations)@.len() && old(destinations)@[i].id@ == id@ && (forall|j: int|
                    0 <= j < i ==> old(destinations)@[j].id@ != id@) && final(destinations)@
                    == old(destinations)@.update(i, final(destinations)@[i]) && final(destinations)@[i].id@ == id@ && final(destinations)@[i].kind == req.kind && final(destinations)@[i].settings == req.settings && answer.tree() == success_tree(),
            Err(AppError::Validation(msg)) => (forall|j: int|
                0 <= j < old(destinations)@.len() ==> old(destinations)@[j].id@ != id@) && final(destinations)@ == old(destinations)@ && msg@ == not_found_text(id@),
        },
{
    match find_destination(destinations, id) {
        Some(i) => {
            let replacement = NotificationDestination {
                id: id.to_owned(),
                kind: req.kind,
                settings: req.settings,
            };
            let _ = destinations.remove(i);
            destinations.insert(i, replacement);
            assert(destinations@ =~= old(destinations)@.update(i as int, destinations@[i as int]));
            Ok(success_response())
        },
        None => Err(not_found(id)),
    }
}

/// Whether a destination's identifier differs from `id`.
pub open spec fn other_id<S>(id: Seq<char>) -> spec_fn(NotificationDestination<S>) -> bool {
    |d: NotificationDestination<S>| d.id@ != id
}

/// Removes every destination with identifier `id`; refused when none has it.
pub fn delete_destination<S>(destinations: &mut Vec<NotificationDestination<S>>, id: &str) -> (r:
    Result<JsonValue, AppError>)
    ensures
        final(destinations)@ == old(destinations)@.filter(other_id::<S>(id@)),
        match r {
            Ok(answer) => (exists|j: int|
                0 <= j < old(destinations)@.len() && old(destinations)@[j].id@ == id@)
                && answer.tree() == success_tree(),
            Err(AppError::Validation(msg)) => (forall|j: int|
                0 <= j < old(destinations)@.len() ==> old(destinations)@[j].id@ != id@) && msg@
                == not_found_text(id@),
        },
{
    let ghost listed = destinations@;
    let ghost keep = other_id::<S>(id@);
    let mut rest: Vec<NotificationDestination<S>> = Vec::new();
    std::mem::swap(&mut rest, destinations);
    let n = rest.len();
    let mut i: usize = 0;
    let mut removed = false;
    assert(rest@.skip(0) =~= listed);
    while i < n
        invariant
            n == listed.len(),
            i <= n,
            rest@ == listed.skip(i as int),
            keep == other_id::<S>(id@),
            destinations@ == listed.take(i as int).filter(keep),
            removed <==> exists|j: int| 0 <= j < i && listed[j].id@ == id@,
        decreases n - i,
    {
        let d = rest.remove(0);
        proof {
            assert(d == listed[i as int]);
            assert(rest@ =~= listed.skip(i + 1));
            assert(listed.take(i + 1).drop_last() =~= listed.take(i as int));
            reveal_with_fuel(Seq::filter, 1);
            assert(listed.take(i + 1).filter(keep) == if keep(d) {
                listed.take(i as int).filter(keep).push(d)
            } else {
                listed.take(i as int).filter(keep)
            });
        }
        if crate::text::str_equal(d.id.as_str(), id) {
            removed = true;
        } else {
            destinations.push(d);
        }
        i = i + 1;
    }
    assert(listed.take(n as int) =~= listed);
    if removed {
        Ok(success_response())
    } else {
        Err(not_found(id))
    }
}

/// After a deletion no destination with the deleted identifier is left.
pub proof fn law_delete_leaves_none<S>(before: Seq<NotificationDestination<S>>, id: Seq<char>)
    ensures
        forall|i: int|
            0 <= i < before.filter(other_id::<S>(id)).len() ==> #[trigger] before.filter(
                other_id::<S>(id),
            )[i].id@ != id,
{
    assert forall|i: int|
        0 <= i < before.filter(other_id::<S>(id)).len() implies #[trigger] before.filter(
            other_id::<S>(id),
        )[i].id@ != id by {
        before.lemma_filter_pred(other_id::<S>(id), i);
    }
}

/// The destination to send a test notification to: the first with
/// identifier `id`, unless it is a webhook, which has no test yet.
pub fn test_destination<S>(destinations: &Vec<NotificationDestination<S>>, id: &str) -> (r: Result<
    usize,
    AppError,
>)
    ensures
        match r {
            Ok(i) => i < destinations@.len() && destinations@[i as int].id@ == id@ && (forall|j: int|
                0 <= j < i ==> destinations@[j].id@ != id@) && !(destinations@[i as int].kind is Webhook),
            Err(AppError::Validation(msg)) => match find_first(destinations@, id@) {
                Some(i) => destinations@[i].kind is Webhook && msg@ == "webhook test not supported yet"@,
                None => msg@ == not_found_text(id@),
            },
        },
{
    match find_destination(destinations, id) {
        Some(i) => match destinations[i].kind {
            DestinationKind::Webhook => {
                proof {
                    lemma_find_first(destinations@, id@, i as int);
                }
                Err(AppError::Validation(String::from_str("webhook test not supported yet")))
            },
            _ => Ok(i),
        },
        None => {
            proof {
                lemma_find_first_none(destinations@, id@);
            }
            Err(not_found(id))
        },
    }
}

/// Index of the first destination with identifier `id`.
pub open spec fn find_first<S>(s: Seq<NotificationDestination<S>>, id: Seq<char>) -> Option<int> {
    if exists|i: int| 0 <= i < s.len() && s[i].id@ == id {
        Some(
            choose|i: int|
                0 <= i < s.len() && s[i].id@ == id && forall|j: int| 0 <= j < i ==> s[j].id@ != id,
        )
    } else {
        None
    }
}

proof fn lemma_find_first<S>(s: Seq<NotificationDestination<S>>, id: Seq<char>, i: int)
    requires
        0 <= i < s.len(),
        s[i].id@ == id,
        forall|j: int| 0 <= j < i ==> s[j].id@ != id,
    ensures
        find_first(s, id) == Some(i),
{
    let k = choose|k: int|
        0 <= k < s.len() && s[k].id@ == id && forall|j: int| 0 <= j < k ==> s[j].id@ != id;
    assert(0 <= k < s.len() && s[k].id@ == id && forall|j: int| 0 <= j < k ==> s[j].id@ != id);
    if k < i {
        assert(s[k].id@ != id);
    }
    if i < k {
        assert(s[i].id@ != id);
    }
}

proof fn lemma_find_first_none<S>(s: Seq<NotificationDestination<S>>, id: Seq<char>)
    requires
        forall|j: int| 0 <= j < s.len() ==> s[j].id@ != id,
    ensures
        find_first(s, id) is None,
{
}

} // verus!
