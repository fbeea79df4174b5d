use aien_local_stack::protocol::{ContextRecipeRef, Digest32};
use aien_local_stack::store::{
    RecipeError, RecipeFile, ResolveSession, ResolveStep, StorageEntry, StoreCall, StoreReply,
};
use aien_local_stack::{ContextRecipe, RecipeStore};

const ID: u128 = 0x0123_4567_89ab_4def_8123_4567_89ab_cdef;

fn digest(n: u8) -> Digest32 {
    Digest32([n; 32])
}

fn recipe(id: u128, token: u32) -> ContextRecipe {
    ContextRecipe::with_id(id, vec![token])
}

fn entry(extension: Option<&str>, file: RecipeFile) -> StorageEntry {
    StorageEntry { extension: extension.map(|e| e.to_string()), file }
}

fn opened(entries: Vec<StorageEntry>) -> RecipeStore {
    RecipeStore::with_storage_dir(Ok::<(), String>(()), Some(entries)).unwrap()
}

fn expect_call(step: ResolveStep) -> (StoreCall, ResolveSession) {
    match step {
        ResolveStep::Call(call, session) => (call, session),
        ResolveStep::Done(r) => panic!("{:?}", r),
    }
}

fn expect_done(step: ResolveStep) -> Result<ContextRecipe, RecipeError> {
    match step {
        ResolveStep::Done(r) => r,
        ResolveStep::Call(call, _) => panic!("{:?}", call),
    }
}

/// The recipe that a store holds under an identifier.
fn held(store: &RecipeStore, id: u128) -> Option<ContextRecipe> {
    match store.verify_and_get(&recipe(id, 0).to_ref(None)) {
        ResolveStep::Call(StoreCall::DigestRecipe { recipe }, _) => Some(recipe),
        _ => None,
    }
}

fn resolve(
    store: &mut RecipeStore,
    reference: &ContextRecipeRef,
    canonical: Option<Digest32>,
) -> Result<ContextRecipe, RecipeError> {
    let (call, session) = expect_call(store.verify_and_get(reference));
    assert!(matches!(call, StoreCall::DigestRecipe { .. }));
    expect_done(store.resume_verify_and_get(session, StoreReply::Digested(canonical)))
}

#[test]
fn an_inserted_recipe_is_returned_under_its_digest() {
    let mut store = RecipeStore::new();
    let r = recipe(ID, 5);
    let reference = r.to_ref(Some(digest(1)));
    assert_eq!(store.insert(r.clone(), Ok::<(), String>(())), Ok(()));
    let (call, session) = expect_call(store.verify_and_get(&reference));
    assert_eq!(call, StoreCall::DigestRecipe { recipe: r.clone() });
    let reply = StoreReply::Digested(Some(digest(1)));
    assert!(session.can_resume(&reply));
    assert!(!session.can_resume(&StoreReply::Read(RecipeFile::Unreadable)));
    assert_eq!(expect_done(store.resume_verify_and_get(session, reply)), Ok(r));
}

#[test]
fn an_altered_recipe_is_refused() {
    let mut store = RecipeStore::new();
    let reference = recipe(ID, 5).to_ref(Some(digest(1)));
    store.insert(recipe(ID, 6), Ok::<(), ()>(())).unwrap();
    let refused = resolve(&mut store, &reference, Some(digest(2)));
    assert_eq!(
        refused,
        Err(RecipeError::DigestMismatch { expected: digest(1), actual: digest(2) })
    );
    let undigested = resolve(&mut store, &reference, None);
    assert_eq!(
        undigested,
        Err(RecipeError::DigestMismatch { expected: digest(1), actual: Digest32::zero() })
    );
    assert_eq!(
        refused.unwrap_err().message("Digest32(a)", "Digest32(b)"),
        "Recipe digest mismatch: expected Digest32(a), actual Digest32(b)"
    );
}

#[test]
fn a_store_in_memory_says_what_it_lacks() {
    let store = RecipeStore::default();
    let reference = recipe(ID, 5).to_ref(None);
    let error = expect_done(store.verify_and_get(&reference)).unwrap_err();
    assert_eq!(error, RecipeError::NotInStore(ID));
    assert_eq!(
        error.message("", ""),
        "Recipe 01234567-89ab-4def-8123-456789abcdef not found in store"
    );
    assert_eq!(store.file_names(ID), None);
}

fn file_call() -> StoreCall {
    StoreCall::ReadFile { file_name: "01234567-89ab-4def-8123-456789abcdef.json".to_string() }
}

#[test]
fn a_durable_store_reads_what_it_lacks_from_its_directory() {
    let mut store = opened(vec![]);
    let r = recipe(ID, 5);
    let reference = r.to_ref(Some(digest(1)));

    let (call, session) = expect_call(store.verify_and_get(&reference));
    assert_eq!(call, file_call());
    assert!(!session.can_resume(&StoreReply::Digested(None)));
    let reply = StoreReply::Read(RecipeFile::Unreadable);
    assert!(session.can_resume(&reply));
    let missing = expect_done(store.resume_verify_and_get(session, reply)).unwrap_err();
    assert_eq!(missing, RecipeError::NotInStoreOrDisk(ID));
    assert_eq!(
        missing.message("", ""),
        "Recipe 01234567-89ab-4def-8123-456789abcdef not found in store or disk"
    );

    let (_, session) = expect_call(store.verify_and_get(&reference));
    let reply = StoreReply::Read(RecipeFile::Malformed("expected value".to_string()));
    let malformed = expect_done(store.resume_verify_and_get(session, reply)).unwrap_err();
    assert_eq!(malformed, RecipeError::Unparsable("expected value".to_string()));
    assert_eq!(malformed.message("", ""), "Failed to parse recipe file: expected value");

    let (_, session) = expect_call(store.verify_and_get(&reference));
    let reply = StoreReply::Read(RecipeFile::Parsed(r.clone()));
    let (call, session) = expect_call(store.resume_verify_and_get(session, reply));
    assert_eq!(call, StoreCall::DigestRecipe { recipe: r.clone() });
    let reply = StoreReply::Digested(Some(digest(1)));
    assert_eq!(expect_done(store.resume_verify_and_get(session, reply)), Ok(r.clone()));
    assert_eq!(held(&store, ID), Some(r));
}

#[test]
fn a_file_with_another_identifier_is_kept_under_that_one() {
    let mut store = opened(vec![]);
    let reference = recipe(ID, 5).to_ref(Some(digest(1)));
    let (_, session) = expect_call(store.verify_and_get(&reference));
    let reply = StoreReply::Read(RecipeFile::Parsed(recipe(2, 6)));
    let (_, session) = expect_call(store.resume_verify_and_get(session, reply));
    let reply = StoreReply::Digested(Some(digest(2)));
    assert_eq!(
        expect_done(store.resume_verify_and_get(session, reply)),
        Err(RecipeError::DigestMismatch { expected: digest(1), actual: digest(2) })
    );
    assert_eq!(held(&store, 2), Some(recipe(2, 6)));
    assert_eq!(expect_call(store.verify_and_get(&reference)).0, file_call());
}

#[test]
fn a_recipe_that_could_not_be_written_is_not_kept() {
    let mut store = opened(vec![]);
    let r = recipe(ID, 5);
    let names = store.file_names(ID).unwrap();
    assert_eq!(names.file_name, "01234567-89ab-4def-8123-456789abcdef.json");
    assert_eq!(names.temp_name, "01234567-89ab-4def-8123-456789abcdef.tmp");
    assert_eq!(store.insert(r.clone(), Err("disk full")), Err("disk full"));
    assert_eq!(expect_call(store.verify_and_get(&r.to_ref(None))).0, file_call());
    assert_eq!(store.insert(r.clone(), Ok::<(), &str>(())), Ok(()));
    assert_eq!(held(&store, ID), Some(r));
}

#[test]
fn inserting_leaves_other_recipes() {
    let mut store = RecipeStore::new();
    store.insert(recipe(1, 5), Ok::<(), ()>(())).unwrap();
    store.insert(recipe(2, 6), Ok::<(), ()>(())).unwrap();
    store.insert(recipe(2, 7), Ok::<(), ()>(())).unwrap();
    assert_eq!(held(&store, 1), Some(recipe(1, 5)));
    assert_eq!(held(&store, 2), Some(recipe(2, 7)));
}

#[test]
fn an_opened_store_holds_the_last_recipe_of_each_identifier() {
    let store = opened(vec![
        entry(Some("json"), RecipeFile::Parsed(recipe(1, 5))),
        entry(Some("json"), RecipeFile::Parsed(recipe(2, 6))),
        entry(Some("json"), RecipeFile::Parsed(recipe(1, 7))),
    ]);
    assert_eq!(held(&store, 1), Some(recipe(1, 7)));
    assert_eq!(held(&store, 2), Some(recipe(2, 6)));
}

#[test]
fn only_json_files_are_read() {
    assert!(RecipeStore::is_recipe_extension(Some("json")));
    assert!(!RecipeStore::is_recipe_extension(Some("tmp")));
    assert!(!RecipeStore::is_recipe_extension(Some("JSON")));
    assert!(!RecipeStore::is_recipe_extension(None));
}

#[test]
fn an_opened_store_passes_over_what_is_no_recipe() {
    let store = opened(vec![
        entry(Some("tmp"), RecipeFile::Parsed(recipe(1, 5))),
        entry(None, RecipeFile::Parsed(recipe(2, 5))),
        entry(Some("json"), RecipeFile::Unreadable),
        entry(Some("json"), RecipeFile::Malformed("expected value".to_string())),
        entry(Some("json"), RecipeFile::Parsed(recipe(3, 5))),
        entry(Some("tmp"), RecipeFile::Parsed(recipe(3, 6))),
    ]);
    assert_eq!(held(&store, 1), None);
    assert_eq!(held(&store, 2), None);
    assert_eq!(held(&store, 3), Some(recipe(3, 5)));
}

#[test]
fn a_directory_that_cannot_be_created_is_an_error() {
    let entries = vec![entry(Some("json"), RecipeFile::Parsed(recipe(1, 5)))];
    let failed = RecipeStore::with_storage_dir(Err("read-only"), Some(entries));
    assert_eq!(failed.err(), Some("read-only"));
}

#[test]
fn a_directory_that_cannot_be_listed_is_empty() {
    let store = RecipeStore::with_storage_dir(Ok::<(), String>(()), None).unwrap();
    assert!(store.file_names(ID).is_some());
    assert_eq!(held(&store, 1), None);
}
