//! The store that keeps recipes, in memory and, where it is durable, in a directory.
//!
//! The directory is read and written outside: the store says under which names, and takes what came
//! of it.

use std::collections::BTreeMap;

use vstd::prelude::*;

use crate::ids::{uuid_text, uuid_to_text, Uuid};
use crate::protocol::{ContextRecipeRef, Digest32};
use crate::recipe::{digest_or_zero, ContextRecipe, RecipeView};
use crate::text::{joined, joined3};

verus! {

broadcast use vstd::std_specs::btree::group_btree_axioms;

/// Recipes by their identifiers.
#[derive(Debug)]
pub struct RecipeStore {
    durable: bool,
    recipes: BTreeMap<Uuid, ContextRecipe>,
}

#[verifier::ext_equal]
pub struct StoreView {
    pub durable: bool,
    pub recipes: Map<Uuid, RecipeView>,
}

impl StoreView {
    /// The store in which `recipe` stands under its identifier.
    pub open spec fn with_recipe(self, recipe: RecipeView) -> StoreView {
        StoreView { recipes: self.recipes.insert(recipe.recipe_id, recipe), ..self }
    }

    /// How a reference starts to be resolved: the recipe that the store holds is digested, one that
    /// it does not hold is read from the directory, if there is one.
    pub open spec fn resolve_start(self, recipe_ref: ContextRecipeRef) -> ResolveStepView {
        let recipe_id = recipe_ref.recipe_id;
        if self.recipes.contains_key(recipe_id) {
            digest_of(recipe_ref, self.recipes[recipe_id])
        } else if self.durable {
            ResolveStepView::Call(
                StoreCallView::ReadFile { file_name: recipe_file_name(recipe_id) },
                ResolveSessionView { recipe_ref, recipe: None },
            )
        } else {
            ResolveStepView::Done(Err(RecipeErrorView::NotInStore(recipe_id)))
        }
    }

    /// The store after a reply: a recipe that was read is kept.
    pub open spec fn resolve_effect(self, reply: StoreReplyView) -> StoreView {
        match reply {
            StoreReplyView::Read(RecipeFileView::Parsed(recipe)) => self.with_recipe(recipe),
            _ => self,
        }
    }
}

/// The step in which a recipe is digested to be held against a reference.
pub open spec fn digest_of(recipe_ref: ContextRecipeRef, recipe: RecipeView) -> ResolveStepView {
    ResolveStepView::Call(
        StoreCallView::DigestRecipe { recipe },
        ResolveSessionView { recipe_ref, recipe: Some(recipe) },
    )
}

/// How a reference goes on to be resolved after a reply.
pub open spec fn resolve_next(
    session: ResolveSessionView,
    reply: StoreReplyView,
) -> ResolveStepView {
    let recipe_ref = session.recipe_ref;
    match (session.recipe, reply) {
        (None, StoreReplyView::Read(RecipeFileView::Unreadable)) => ResolveStepView::Done(
            Err(RecipeErrorView::NotInStoreOrDisk(recipe_ref.recipe_id)),
        ),
        (None, StoreReplyView::Read(RecipeFileView::Malformed(reason))) => ResolveStepView::Done(
            Err(RecipeErrorView::Unparsable(reason)),
        ),
        (None, StoreReplyView::Read(RecipeFileView::Parsed(recipe))) => digest_of(
            recipe_ref,
            recipe,
        ),
        (Some(recipe), StoreReplyView::Digested(canonical)) => ResolveStepView::Done(
            verified(recipe_ref, recipe, digest_or_zero(canonical)),
        ),
        _ => arbitrary(),
    }
}

/// Whether a reply is one to the call that a session waits for.
pub open spec fn resolve_accepts(session: ResolveSessionView, reply: StoreReplyView) -> bool {
    match reply {
        StoreReplyView::Read(_) => session.recipe is None,
        StoreReplyView::Digested(_) => session.recipe is Some,
    }
}

/// The name of the file that holds a recipe.
pub open spec fn recipe_file_name(recipe_id: Uuid) -> Seq<char> {
    uuid_text(recipe_id) + ".json"@
}

/// The name under which a recipe is written before it takes the place of its file.
pub open spec fn recipe_temp_name(recipe_id: Uuid) -> Seq<char> {
    uuid_text(recipe_id) + ".tmp"@
}

/// The recipes that are left after each of `recipes` was put under its identifier in turn: of
/// those that share one, the last.
pub open spec fn loaded_recipes(recipes: Seq<RecipeView>) -> Map<Uuid, RecipeView>
    decreases recipes.len(),
{
    if recipes.len() == 0 {
        Map::empty()
    } else {
        loaded_recipes(recipes.drop_last()).insert(recipes.last().recipe_id, recipes.last())
    }
}

/// A file of a store's directory: the extension of its name, and what came of reading it.
#[derive(Debug, PartialEq, Eq)]
pub struct StorageEntry {
    pub extension: Option<String>,
    pub file: RecipeFile,
}

pub struct EntryView {
    pub extension: Option<Seq<char>>,
    pub file: RecipeFileView,
}

impl View for StorageEntry {
    type V = EntryView;

    open spec fn view(&self) -> EntryView {
        EntryView {
            extension: match self.extension {
                Some(e) => Some(e@),
                None => None,
            },
            file: self.file@,
        }
    }
}

impl EntryView {
    /// Whether this is the file of a recipe and could be read as one.
    pub open spec fn holds_recipe(self) -> bool {
        self.extension == Some("json"@) && self.file is Parsed
    }

    /// The recipe that this file holds.
    pub open spec fn recipe(self) -> RecipeView
        recommends
            self.holds_recipe(),
    {
        self.file->Parsed_0
    }
}

/// The recipes that the files of a directory hold, in the order of the files: those of the files
/// whose names end in `.json` and that could be read and parsed. The others are passed over.
pub open spec fn recipes_in(entries: Seq<EntryView>) -> Seq<RecipeView>
    decreases entries.len(),
{
    if entries.len() == 0 {
        Seq::empty()
    } else if entries.last().holds_recipe() {
        recipes_in(entries.drop_last()).push(entries.last().recipe())
    } else {
        recipes_in(entries.drop_last())
    }
}

/// The recipes that a store over a directory starts with: none where the directory cannot be
/// listed.
pub open spec fn listed_recipes(listing: Option<Vec<StorageEntry>>) -> Map<Uuid, RecipeView> {
    match listing {
        Some(entries) => loaded_recipes(recipes_in(entries@.map_values(|e: StorageEntry| e@))),
        None => Map::empty(),
    }
}

/// Why a recipe was not handed out.
#[derive(Debug, PartialEq, Eq)]
pub enum RecipeError {
    /// A store without a directory does not hold the recipe.
    NotInStore(Uuid),
    /// Neither the store nor its directory holds the recipe.
    NotInStoreOrDisk(Uuid),
    /// The file of the recipe could not be parsed, for the reason given.
    Unparsable(String),
    /// The recipe is not the one that was referred to.
    DigestMismatch { expected: Digest32, actual: Digest32 },
}

pub enum RecipeErrorView {
    NotInStore(Uuid),
    NotInStoreOrDisk(Uuid),
    Unparsable(Seq<char>),
    DigestMismatch { expected: Digest32, actual: Digest32 },
}

impl View for RecipeError {
    type V = RecipeErrorView;

    open spec fn view(&self) -> RecipeErrorView {
        match *self {
            RecipeError::NotInStore(id) => RecipeErrorView::NotInStore(id),
            RecipeError::NotInStoreOrDisk(id) => RecipeErrorView::NotInStoreOrDisk(id),
            RecipeError::Unparsable(reason) => RecipeErrorView::Unparsable(reason@),
            RecipeError::DigestMismatch { expected, actual } => RecipeErrorView::DigestMismatch {
                expected,
                actual,
            },
        }
    }
}

impl RecipeErrorView {
    /// The text of the error, where `expected` and `actual` are the texts of the digests of a
    /// mismatch.
    pub open spec fn message(self, expected: Seq<char>, actual: Seq<char>) -> Seq<char> {
        match self {
            RecipeErrorView::NotInStore(id) => "Recipe "@ + uuid_text(id) + " not found in store"@,
            RecipeErrorView::NotInStoreOrDisk(id) => "Recipe "@ + uuid_text(id)
                + " not found in store or disk"@,
            RecipeErrorView::Unparsable(reason) => "Failed to parse recipe file: "@ + reason,
            RecipeErrorView::DigestMismatch { .. } => "Recipe digest mismatch: expected "@
                + expected + ", actual "@ + actual,
        }
    }
}

impl RecipeError {
    /// The text of the error. How a digest is written is up to the caller: `expected` and `actual`
    /// are the texts of the digests of a mismatch, and are not used otherwise.
    pub fn message(&self, expected: &str, actual: &str) -> (text: String)
        ensures
            text@ == self@.message(expected@, actual@),
    {
        match self {
            RecipeError::NotInStore(id) => joined3(
                "Recipe ",
                uuid_to_text(*id).as_str(),
                " not found in store",
            ),
            RecipeError::NotInStoreOrDisk(id) => joined3(
                "Recipe ",
                uuid_to_text(*id).as_str(),
                " not found in store or disk",
            ),
            RecipeError::Unparsable(reason) => joined(
                "Failed to parse recipe file: ",
                reason.as_str(),
            ),
            RecipeError::DigestMismatch { expected: _, actual: _ } => {
                let head = joined3("Recipe digest mismatch: expected ", expected, ", actual ");
                joined(head.as_str(), actual)
            },
        }
    }
}

/// What came of reading the file of a recipe.
#[derive(Debug, PartialEq, Eq)]
pub enum RecipeFile {
    Unreadable,
    /// The text of the file is no recipe, for the reason given.
    Malformed(String),
    Parsed(ContextRecipe),
}

pub enum RecipeFileView {
    Unreadable,
    Malformed(Seq<char>),
    Parsed(RecipeView),
}

impl View for RecipeFile {
    type V = RecipeFileView;

    open spec fn view(&self) -> RecipeFileView {
        match *self {
            RecipeFile::Unreadable => RecipeFileView::Unreadable,
            RecipeFile::Malformed(reason) => RecipeFileView::Malformed(reason@),
            RecipeFile::Parsed(recipe) => RecipeFileView::Parsed(recipe@),
        }
    }
}

/// What is asked of the directory, or of the digest function, to resolve a reference.
#[derive(Debug, PartialEq, Eq)]
pub enum StoreCall {
    /// Read the file of this name in the store's directory.
    ReadFile { file_name: String },
    /// Digest the canonical JSON of a recipe.
    DigestRecipe { recipe: ContextRecipe },
}

pub enum StoreCallView {
    ReadFile { file_name: Seq<char> },
    DigestRecipe { recipe: RecipeView },
}

impl View for StoreCall {
    type V = StoreCallView;

    open spec fn view(&self) -> StoreCallView {
        match *self {
            StoreCall::ReadFile { file_name } => StoreCallView::ReadFile {
                file_name: file_name@,
            },
            StoreCall::DigestRecipe { recipe } => StoreCallView::DigestRecipe { recipe: recipe@ },
        }
    }
}

/// What came of a `StoreCall`, in the same order. A recipe without a canonical JSON has no digest.
#[derive(Debug, PartialEq, Eq)]
pub enum StoreReply {
    Read(RecipeFile),
    Digested(Option<Digest32>),
}

pub enum StoreReplyView {
    Read(RecipeFileView),
    Digested(Option<Digest32>),
}

impl View for StoreReply {
    type V = StoreReplyView;

    open spec fn view(&self) -> StoreReplyView {
        match *self {
            StoreReply::Read(file) => StoreReplyView::Read(file@),
            StoreReply::Digested(canonical) => StoreReplyView::Digested(canonical),
        }
    }
}

/// A reference that is being resolved, as `verify_and_get` and `resume_verify_and_get` hand it out:
/// to `recipe`, once that is there.
#[derive(Debug, PartialEq, Eq)]
pub struct ResolveSession {
    recipe_ref: ContextRecipeRef,
    recipe: Option<ContextRecipe>,
}

pub struct ResolveSessionView {
    pub recipe_ref: ContextRecipeRef,
    pub recipe: Option<RecipeView>,
}

impl View for ResolveSession {
    type V = ResolveSessionView;

    closed spec fn view(&self) -> ResolveSessionView {
        ResolveSessionView {
            recipe_ref: self.recipe_ref,
            recipe: match self.recipe {
                Some(recipe) => Some(recipe@),
                None => None,
            },
        }
    }
}

/// How a reference goes on to be resolved: with a call whose reply it waits for, or not at all.
#[derive(Debug, PartialEq, Eq)]
pub enum ResolveStep {
    Call(StoreCall, ResolveSession),
    Done(Result<ContextRecipe, RecipeError>),
}

pub enum ResolveStepView {
    Call(StoreCallView, ResolveSessionView),
    Done(Result<RecipeView, RecipeErrorView>),
}

impl View for ResolveStep {
    type V = ResolveStepView;

    open spec fn view(&self) -> ResolveStepView {
        match *self {
            ResolveStep::Call(call, session) => ResolveStepView::Call(call@, session@),
            ResolveStep::Done(Ok(recipe)) => ResolveStepView::Done(Ok(recipe@)),
            ResolveStep::Done(Err(error)) => ResolveStepView::Done(Err(error@)),
        }
    }
}

/// What a reference gives for a recipe whose digest is `actual`.
pub open spec fn verified(
    recipe_ref: ContextRecipeRef,
    recipe: RecipeView,
    actual: Digest32,
) -> Result<RecipeView, RecipeErrorView> {
    if actual == recipe_ref.recipe_digest {
        Ok(recipe)
    } else {
        Err(RecipeErrorView::DigestMismatch { expected: recipe_ref.recipe_digest, actual })
    }
}

/// The names under which a recipe is written: first under `temp_name`, which then takes the place
/// of `file_name`.
#[derive(Debug, PartialEq, Eq)]
pub struct RecipeFileNames {
    pub temp_name: String,
    pub file_name: String,
}

impl RecipeStore {
    pub closed spec fn view(&self) -> StoreView {
        StoreView {
            durable: self.durable,
            recipes: self.recipes@.map_values(|recipe: ContextRecipe| recipe@),
        }
    }

    /// An empty store without a directory.
    pub fn new() -> (store: RecipeStore)
        ensures
            store@ == (StoreView { durable: false, recipes: Map::empty() }),
    {
        RecipeStore { durable: false, recipes: BTreeMap::new() }
    }

    /// Whether a file of a store's directory is read for a recipe, by the extension of its name.
    pub fn is_recipe_extension(extension: Option<&str>) -> (r: bool)
        ensures
            r == (extension matches Some(e) && e@ == "json"@),
    {
        match extension {
            Some(e) => e.to_string() == "json".to_string(),
            None => false,
        }
    }

    /// A store over a directory. `created` is what came of creating the directory where it was not
    /// there: an error is handed back. `listing` gives the files of the directory, or `None` where
    /// it cannot be listed; files that are no recipes, or cannot be read or parsed, are passed over.
    /// A recipe stands under the identifier that its file gives it, whatever the file is called.
    pub fn with_storage_dir<E>(created: Result<(), E>, listing: Option<Vec<StorageEntry>>) -> (r:
        Result<RecipeStore, E>)
        ensures
            created matches Err(e) ==> r == Err::<RecipeStore, E>(e),
            created is Ok ==> r is Ok && r->Ok_0@ == (StoreView {
                durable: true,
                recipes: listed_recipes(listing),
            }),
    {
        if let Err(e) = created {
            return Err(e);
        }
        let mut store = RecipeStore { durable: true, recipes: BTreeMap::new() };
        assert(store@.recipes =~= Map::empty());
        if let Some(entries) = listing {
            let ghost views = entries@.map_values(|e: StorageEntry| e@);
            let mut i: usize = 0;
            assert(recipes_in(views.take(0)) =~= Seq::empty());
            while i < entries.len()
                invariant
                    i <= entries.len(),
                    views == entries@.map_values(|e: StorageEntry| e@),
                    store@.durable,
                    store@.recipes == loaded_recipes(recipes_in(views.take(i as int))),
                decreases entries.len() - i,
            {
                let entry = &entries[i];
                let ghost earlier = recipes_in(views.take(i as int));
                proof {
                    assert(views.take(i + 1).drop_last() =~= views.take(i as int));
                    assert(views.take(i + 1).last() == entry@);
                    if entry@.holds_recipe() {
                        assert(earlier.push(entry@.recipe()).drop_last() =~= earlier);
                    }
                }
                let extension: Option<&str> = match &entry.extension {
                    Some(e) => Some(e.as_str()),
                    None => None,
                };
                if RecipeStore::is_recipe_extension(extension) {
                    if let RecipeFile::Parsed(recipe) = &entry.file {
                        store.keep(recipe.clone());
                    }
                }
                i = i + 1;
            }
            assert(views.take(entries@.len() as int) =~= views);
        }
        Ok(store)
    }

    /// Puts a recipe under its identifier.
    fn keep(&mut self, recipe: ContextRecipe)
        ensures
            final(self)@ == old(self)@.with_recipe(recipe@),
    {
        let ghost before = self@;
        self.recipes.insert(recipe.recipe_id, recipe);
        assert(self@ =~= before.with_recipe(recipe@));
    }

    /// The names under which a recipe is to be written before it is inserted: `None` where the
    /// store has no directory.
    pub fn file_names(&self, recipe_id: Uuid) -> (names: Option<RecipeFileNames>)
        ensures
            names is Some <==> self@.durable,
            names matches Some(n) ==> n.file_name@ == recipe_file_name(recipe_id) && n.temp_name@
                == recipe_temp_name(recipe_id),
    {
        if self.durable {
            let id = uuid_to_text(recipe_id);
            Some(
                RecipeFileNames {
                    temp_name: joined(id.as_str(), ".tmp"),
                    file_name: joined(id.as_str(), ".json"),
                },
            )
        } else {
            None
        }
    }

    /// Puts a recipe under its identifier, in place of what stood there. A store with a directory
    /// first has the recipe written there: where that failed, the error is handed back and the
    /// store stays as it is.
    pub fn insert<E>(&mut self, recipe: ContextRecipe, written: Result<(), E>) -> (r: Result<
        (),
        E,
    >)
        ensures
            old(self)@.durable && written is Err ==> r == written && final(self)@ == old(self)@,
            !(old(self)@.durable && written is Err) ==> r is Ok && final(self)@ == old(
                self,
            )@.with_recipe(recipe@),
    {
        if self.durable {
            if let Err(e) = written {
                return Err(e);
            }
        }
        self.keep(recipe);
        Ok(())
    }

    /// Starts to resolve a reference. A recipe that the store does not hold is read from the
    /// directory, if there is one; every recipe is digested before it is handed out.
    pub fn verify_and_get(&self, recipe_ref: &ContextRecipeRef) -> (step: ResolveStep)
        ensures
            step@ == self@.resolve_start(*recipe_ref),
    {
        match self.recipes.get(&recipe_ref.recipe_id) {
            Some(recipe) => ask_for_digest(*recipe_ref, recipe.clone()),
            None => {
                if self.durable {
                    let id = uuid_to_text(recipe_ref.recipe_id);
                    ResolveStep::Call(
                        StoreCall::ReadFile { file_name: joined(id.as_str(), ".json") },
                        ResolveSession { recipe_ref: *recipe_ref, recipe: None },
                    )
                } else {
                    ResolveStep::Done(Err(RecipeError::NotInStore(recipe_ref.recipe_id)))
                }
            },
        }
    }

    /// Goes on to resolve a reference with the reply that it waits for. A recipe that was read is
    /// kept, under the identifier that its file gives it, and then digested. A recipe is handed out
    /// if and only if its digest is the one that the reference names.
    pub fn resume_verify_and_get(&mut self, session: ResolveSession, reply: StoreReply) -> (step:
        ResolveStep)
        requires
            resolve_accepts(session@, reply@),
        ensures
            step@ == resolve_next(session@, reply@),
            final(self)@ == old(self)@.resolve_effect(reply@),
    {
        let recipe_ref = session.recipe_ref;
        match (session.recipe, reply) {
            (None, StoreReply::Read(RecipeFile::Unreadable)) => ResolveStep::Done(
                Err(RecipeError::NotInStoreOrDisk(recipe_ref.recipe_id)),
            ),
            (None, StoreReply::Read(RecipeFile::Malformed(reason))) => ResolveStep::Done(
                Err(RecipeError::Unparsable(reason)),
            ),
            (None, StoreReply::Read(RecipeFile::Parsed(recipe))) => {
                self.keep(recipe.clone());
                ask_for_digest(recipe_ref, recipe)
            },
            (Some(recipe), StoreReply::Digested(canonical)) => {
                let actual = recipe.compute_digest(canonical);
                if actual != recipe_ref.recipe_digest {
                    return ResolveStep::Done(
                        Err(
                            RecipeError::DigestMismatch {
                                expected: recipe_ref.recipe_digest,
                                actual,
                            },
                        ),
                    );
                }
                ResolveStep::Done(Ok(recipe))
            },
            _ => vstd::pervasive::unreached(),
        }
    }
}

/// Asks for the digest of a recipe that a reference may be resolved to.
fn ask_for_digest(recipe_ref: ContextRecipeRef, recipe: ContextRecipe) -> (step: ResolveStep)
    ensures
        step@ == digest_of(recipe_ref, recipe@),
{
    ResolveStep::Call(
        StoreCall::DigestRecipe { recipe: recipe.clone() },
        ResolveSession { recipe_ref, recipe: Some(recipe) },
    )
}

impl ResolveSession {
    /// Whether `resume_verify_and_get` can take this session on with a reply.
    pub fn can_resume(&self, reply: &StoreReply) -> (r: bool)
        ensures
            r == resolve_accepts(self@, reply@),
    {
        match reply {
            StoreReply::Read(_) => self.recipe.is_none(),
            StoreReply::Digested(_) => self.recipe.is_some(),
        }
    }
}

impl Default for RecipeStore {
    fn default() -> (store: RecipeStore)
        ensures
            store@ == (StoreView { durable: false, recipes: Map::empty() }),
    {
        RecipeStore::new()
    }
}

} // verus!
