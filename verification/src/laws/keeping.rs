//! What recipes hold, how they are kept, and how a reference to one is resolved.

use vstd::prelude::*;

use crate::ids::{uuid_text, Uuid};
use crate::laws::resolution;
use crate::laws::resolve_run;
use crate::protocol::{ContextRecipeRef, Digest32};
use crate::recipe::{digest_or_zero, RecipeView};
use crate::store::{
    listed_recipes, loaded_recipes, recipe_file_name, recipe_temp_name, recipes_in,
    resolve_accepts, resolve_next, EntryView, RecipeErrorView, RecipeFileView, ResolveSessionView,
    ResolveStepView, StorageEntry, StoreCallView, StoreReplyView, StoreView,
};

verus! {

/// The tokens of a branch start with the whole root prompt. Where the recipe holds no delta of the
/// branch, they are the root prompt; else the delta follows it, and nothing more.
pub proof fn law_tokens_of_a_branch(recipe: RecipeView, id: Uuid)
    ensures
        recipe.root_prompt_tokens.is_prefix_of(recipe.full_tokens(id)),
        !recipe.branch_deltas.contains_key(id) ==> recipe.full_tokens(id)
            == recipe.root_prompt_tokens,
        recipe.branch_deltas.contains_key(id) ==> recipe.full_tokens(id).len()
            == recipe.root_prompt_tokens.len() + recipe.branch_deltas[id].len()
            && recipe.full_tokens(id).skip(recipe.root_prompt_tokens.len() as int)
            == recipe.branch_deltas[id],
{
    let n = recipe.root_prompt_tokens.len() as int;
    assert(recipe.full_tokens(id).take(n) =~= recipe.root_prompt_tokens);
    if recipe.branch_deltas.contains_key(id) {
        assert(recipe.full_tokens(id).skip(n) =~= recipe.branch_deltas[id]);
    }
}

/// Adding a delta sets that of its branch and changes nothing else of the recipe.
pub proof fn law_delta_is_added(recipe: RecipeView, id: Uuid, delta: Seq<u32>, other: Uuid)
    ensures
        ({
            let after = recipe.with_delta(id, delta);
            &&& after.recipe_id == recipe.recipe_id
            &&& after.root_prompt_tokens == recipe.root_prompt_tokens
            &&& after.branch_deltas.contains_key(id)
            &&& after.branch_deltas[id] == delta
            &&& other != id ==> (after.branch_deltas.contains_key(other)
                <==> recipe.branch_deltas.contains_key(other))
            &&& other != id && recipe.branch_deltas.contains_key(other)
                ==> after.branch_deltas[other] == recipe.branch_deltas[other]
        }),
{
}

/// A reference names the recipe's identifier and its digest.
pub proof fn law_reference_to_a_recipe(recipe: RecipeView, digest: Digest32)
    ensures
        recipe.reference(digest).recipe_id == recipe.recipe_id,
        recipe.reference(digest).recipe_digest == digest,
{
}

/// A recipe is kept in a file that is named by its identifier, and is first written under another
/// name.
pub proof fn law_names_of_files(id: Uuid)
    ensures
        recipe_file_name(id) == uuid_text(id) + ".json"@,
        recipe_temp_name(id) == uuid_text(id) + ".tmp"@,
{
}

/// A recipe that is kept stands under its own identifier as it is, and everything else stays.
pub proof fn law_recipe_is_kept(store: StoreView, recipe: RecipeView, other: Uuid)
    ensures
        ({
            let after = store.with_recipe(recipe);
            &&& after.durable == store.durable
            &&& after.recipes.contains_key(recipe.recipe_id)
            &&& after.recipes[recipe.recipe_id] == recipe
            &&& other != recipe.recipe_id ==> (after.recipes.contains_key(other)
                <==> store.recipes.contains_key(other))
            &&& other != recipe.recipe_id && store.recipes.contains_key(other)
                ==> after.recipes[other] == store.recipes[other]
        }),
{
}

/// How a reference starts to be resolved: the recipe that the store holds under the identifier is
/// digested; one that it does not hold is read from the file of that identifier, where the store has
/// a directory, and is not there where it has none.
pub proof fn law_resolving_starts(store: StoreView, recipe_ref: ContextRecipeRef)
    ensures
        ({
            let id = recipe_ref.recipe_id;
            let start = store.resolve_start(recipe_ref);
            &&& store.recipes.contains_key(id) ==> start == ResolveStepView::Call(
                StoreCallView::DigestRecipe { recipe: store.recipes[id] },
                ResolveSessionView { recipe_ref, recipe: Some(store.recipes[id]) },
            )
            &&& !store.recipes.contains_key(id) && store.durable ==> start == ResolveStepView::Call(
                StoreCallView::ReadFile { file_name: uuid_text(id) + ".json"@ },
                ResolveSessionView { recipe_ref, recipe: None },
            )
            &&& !store.recipes.contains_key(id) && !store.durable ==> start
                == ResolveStepView::Done(Err(RecipeErrorView::NotInStore(id)))
        }),
{
}

/// What becomes of the file of a recipe: one that could not be read is not there, one that could not
/// be parsed is an error, and a recipe that was read is kept as it is and digested.
pub proof fn law_file_is_read(store: StoreView, session: ResolveSessionView, file: RecipeFileView)
    requires
        session.recipe is None,
    ensures
        ({
            let reply = StoreReplyView::Read(file);
            let step = resolve_next(session, reply);
            let after = store.resolve_effect(reply);
            &&& resolve_accepts(session, reply)
            &&& !(file is Parsed) ==> after == store
            &&& file is Unreadable ==> step == ResolveStepView::Done(
                Err(RecipeErrorView::NotInStoreOrDisk(session.recipe_ref.recipe_id)),
            )
            &&& file matches RecipeFileView::Malformed(reason) ==> step == ResolveStepView::Done(
                Err(RecipeErrorView::Unparsable(reason)),
            )
            &&& file matches RecipeFileView::Parsed(recipe) ==> {
                &&& after == (StoreView {
                    recipes: store.recipes.insert(recipe.recipe_id, recipe),
                    ..store
                })
                &&& step == ResolveStepView::Call(
                    StoreCallView::DigestRecipe { recipe },
                    ResolveSessionView { recipe_ref: session.recipe_ref, recipe: Some(recipe) },
                )
            }
        }),
{
}

/// What becomes of the digest of a recipe: the recipe is handed out, as it was digested, if and only
/// if the digest is the one that the reference names; else both are given. Nothing changes.
pub proof fn law_recipe_is_held_against_its_reference(
    store: StoreView,
    session: ResolveSessionView,
    recipe: RecipeView,
    canonical: Option<Digest32>,
)
    requires
        session.recipe == Some(recipe),
    ensures
        ({
            let reply = StoreReplyView::Digested(canonical);
            let actual = digest_or_zero(canonical);
            let expected = session.recipe_ref.recipe_digest;
            let step = resolve_next(session, reply);
            &&& resolve_accepts(session, reply)
            &&& store.resolve_effect(reply) == store
            &&& actual == expected <==> step == ResolveStepView::Done(Ok(recipe))
            &&& actual != expected <==> step == ResolveStepView::Done(
                Err(RecipeErrorView::DigestMismatch { expected, actual }),
            )
        }),
{
}

/// A reply to another call than the one that is waited for is not taken.
pub proof fn law_other_store_replies_are_not_taken(
    session: ResolveSessionView,
    reply: StoreReplyView,
)
    requires
        resolve_accepts(session, reply),
    ensures
        session.recipe is None <==> reply is Read,
        session.recipe is Some <==> reply is Digested,
{
}

/// A recipe on disk is found. Where a durable store does not hold the recipe that is referred to,
/// and its file gives a recipe of the digest that the reference names, that recipe is handed out, as
/// it was read; and one of another digest is refused.
pub proof fn law_recipe_on_disk_is_found(
    store: StoreView,
    recipe_ref: ContextRecipeRef,
    recipe: RecipeView,
    canonical: spec_fn(RecipeView) -> Option<Digest32>,
)
    requires
        store.durable,
        !store.recipes.contains_key(recipe_ref.recipe_id),
    ensures
        ({
            let actual = digest_or_zero(canonical(recipe));
            let found = resolution(store, recipe_ref, RecipeFileView::Parsed(recipe), canonical);
            if actual == recipe_ref.recipe_digest {
                found == Ok::<RecipeView, RecipeErrorView>(recipe)
            } else {
                found == Err::<RecipeView, RecipeErrorView>(
                    RecipeErrorView::DigestMismatch { expected: recipe_ref.recipe_digest, actual },
                )
            }
        }),
{
    reveal_with_fuel(resolve_run, 3);
}

/// A recipe in memory is found, whatever the directory holds: it is handed out if it has the digest
/// that the reference names, and else refused.
pub proof fn law_recipe_in_memory_is_found(
    store: StoreView,
    recipe_ref: ContextRecipeRef,
    file: RecipeFileView,
    canonical: spec_fn(RecipeView) -> Option<Digest32>,
)
    requires
        store.recipes.contains_key(recipe_ref.recipe_id),
    ensures
        ({
            let recipe = store.recipes[recipe_ref.recipe_id];
            let actual = digest_or_zero(canonical(recipe));
            let found = resolution(store, recipe_ref, file, canonical);
            if actual == recipe_ref.recipe_digest {
                found == Ok::<RecipeView, RecipeErrorView>(recipe)
            } else {
                found == Err::<RecipeView, RecipeErrorView>(
                    RecipeErrorView::DigestMismatch { expected: recipe_ref.recipe_digest, actual },
                )
            }
        }),
{
    reveal_with_fuel(resolve_run, 3);
}

/// A recipe that is nowhere is not found: neither in a store without a directory, nor where its file
/// cannot be read or parsed.
pub proof fn law_missing_recipe_is_not_found(
    store: StoreView,
    recipe_ref: ContextRecipeRef,
    file: RecipeFileView,
    canonical: spec_fn(RecipeView) -> Option<Digest32>,
)
    requires
        !store.recipes.contains_key(recipe_ref.recipe_id),
    ensures
        ({
            let id = recipe_ref.recipe_id;
            let found = resolution(store, recipe_ref, file, canonical);
            &&& !store.durable ==> found == Err::<RecipeView, RecipeErrorView>(
                RecipeErrorView::NotInStore(id),
            )
            &&& store.durable && file is Unreadable ==> found == Err::<RecipeView, RecipeErrorView>(
                RecipeErrorView::NotInStoreOrDisk(id),
            )
            &&& store.durable && file is Malformed ==> found == Err::<RecipeView, RecipeErrorView>(
                RecipeErrorView::Unparsable(file->Malformed_0),
            )
        }),
{
    reveal_with_fuel(resolve_run, 3);
}

/// The texts of the errors.
pub proof fn law_texts_of_errors(
    id: Uuid,
    reason: Seq<char>,
    a: Digest32,
    b: Digest32,
    expected: Seq<char>,
    actual: Seq<char>,
)
    ensures
        RecipeErrorView::NotInStore(id).message(expected, actual) == "Recipe "@ + uuid_text(id)
            + " not found in store"@,
        RecipeErrorView::NotInStoreOrDisk(id).message(expected, actual) == "Recipe "@ + uuid_text(
            id,
        ) + " not found in store or disk"@,
        RecipeErrorView::Unparsable(reason).message(expected, actual)
            == "Failed to parse recipe file: "@ + reason,
        (RecipeErrorView::DigestMismatch { expected: a, actual: b }).message(expected, actual)
            == "Recipe digest mismatch: expected "@ + expected + ", actual "@ + actual,
{
}

/// Whether a file is that of a recipe, by the extension of its name, and gives this one.
pub open spec fn gives(entry: EntryView, recipe: RecipeView) -> bool {
    entry.extension == Some("json"@) && entry.file == RecipeFileView::Parsed(recipe)
}

/// One more file: where it gives a recipe, that stands under its identifier as it was read, in place
/// of what stood there; every other file changes nothing. Before the first there are none.
pub proof fn law_one_more_file(entries: Seq<EntryView>, entry: EntryView)
    ensures
        loaded_recipes(recipes_in(Seq::empty())) == Map::<Uuid, RecipeView>::empty(),
        forall|recipe: RecipeView| #[trigger]
            gives(entry, recipe) ==> loaded_recipes(recipes_in(entries.push(entry)))
                == loaded_recipes(recipes_in(entries)).insert(recipe.recipe_id, recipe),
        (forall|recipe: RecipeView| !#[trigger] gives(entry, recipe)) ==> loaded_recipes(
            recipes_in(entries.push(entry)),
        ) == loaded_recipes(recipes_in(entries)),
{
    let more = entries.push(entry);
    assert(more.drop_last() =~= entries);
    assert(more.last() == entry);
    if let RecipeFileView::Parsed(recipe) = entry.file {
        if entry.extension == Some("json"@) {
            assert(gives(entry, recipe));
            assert(recipes_in(more).drop_last() =~= recipes_in(entries));
            assert(recipes_in(more).last() == recipe);
        }
    }
}

/// A store that is opened over a directory holds each recipe that a file gives, with all its deltas,
/// just as it was read, unless a later file gives one of the same identifier.
pub proof fn law_opened_store_holds_recipes_as_read(
    entries: Seq<EntryView>,
    i: int,
    recipe: RecipeView,
)
    requires
        0 <= i < entries.len(),
        gives(entries[i], recipe),
        forall|j: int, later: RecipeView|
            i < j < entries.len() && #[trigger] gives(entries[j], later) ==> later.recipe_id
                != recipe.recipe_id,
    ensures
        loaded_recipes(recipes_in(entries)).contains_key(recipe.recipe_id),
        loaded_recipes(recipes_in(entries))[recipe.recipe_id] == recipe,
    decreases entries.len(),
{
    let earlier = entries.drop_last();
    let last = entries.last();
    let n = entries.len() - 1;
    law_one_more_file(earlier, last);
    assert(earlier.push(last) =~= entries);
    if i < n {
        assert(entries[n] == last);
        assert forall|j: int, later: RecipeView|
            i < j < earlier.len() && #[trigger] gives(earlier[j], later) implies later.recipe_id
            != recipe.recipe_id by {
            assert(gives(entries[j], later));
        }
        law_opened_store_holds_recipes_as_read(earlier, i, recipe);
        if let RecipeFileView::Parsed(later) = last.file {
            if last.extension == Some("json"@) {
                assert(gives(entries[n], later));
                assert(gives(last, later));
            }
        }
        if !(last.extension == Some("json"@) && last.file is Parsed) {
            assert(forall|r: RecipeView| !#[trigger] gives(last, r));
        }
    } else {
        assert(gives(last, recipe));
    }
}

/// A store that is opened over a directory holds nothing that no file gives.
pub proof fn law_opened_store_holds_only_what_files_give(entries: Seq<EntryView>, id: Uuid)
    requires
        loaded_recipes(recipes_in(entries)).contains_key(id),
    ensures
        ({
            let held = loaded_recipes(recipes_in(entries))[id];
            held.recipe_id == id && exists|i: int|
                0 <= i < entries.len() && #[trigger] gives(entries[i], held)
        }),
    decreases entries.len(),
{
    if entries.len() == 0 {
        law_one_more_file(entries, arbitrary());
        assert(entries =~= Seq::empty());
    } else {
        let earlier = entries.drop_last();
        let last = entries.last();
        let n = entries.len() - 1;
        let held = loaded_recipes(recipes_in(entries))[id];
        law_one_more_file(earlier, last);
        assert(earlier.push(last) =~= entries);
        assert(entries[n] == last);
        if last.extension == Some("json"@) && last.file is Parsed && last.file->Parsed_0.recipe_id
            == id {
            assert(gives(last, last.file->Parsed_0));
            assert(gives(entries[n], held));
        } else {
            if last.extension == Some("json"@) && last.file is Parsed {
                assert(gives(last, last.file->Parsed_0));
            } else {
                assert(forall|r: RecipeView| !#[trigger] gives(last, r));
            }
            law_opened_store_holds_only_what_files_give(earlier, id);
            let i = choose|i: int| 0 <= i < earlier.len() && #[trigger] gives(earlier[i], held);
            assert(gives(entries[i], held));
        }
    }
}

/// The files of a directory are taken as they are listed, and a directory that cannot be listed has
/// none.
pub proof fn law_listing_is_read(entries: Vec<StorageEntry>)
    ensures
        listed_recipes(None) == Map::<Uuid, RecipeView>::empty(),
        exists|views: Seq<EntryView>|
            {
                &&& views.len() == entries@.len()
                &&& forall|i: int| 0 <= i < views.len() ==> #[trigger] views[i] == entries@[i]@
                &&& listed_recipes(Some(entries)) == #[trigger] loaded_recipes(recipes_in(views))
            },
{
    let views = entries@.map_values(|e: StorageEntry| e@);
    assert(views.len() == entries@.len());
    assert(listed_recipes(Some(entries)) == loaded_recipes(recipes_in(views)));
}

} // verus!
