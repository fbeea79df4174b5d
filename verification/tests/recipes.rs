use aien_local_stack::protocol::Digest32;
use aien_local_stack::ContextRecipe;

#[test]
fn a_branch_without_a_delta_has_the_root_prompt() {
    let recipe = ContextRecipe::with_id(7, vec![1, 2, 3]);
    assert_eq!(recipe.recipe_id, 7);
    assert_eq!(recipe.full_tokens_for_branch(&9), vec![1, 2, 3]);
}

#[test]
fn a_delta_follows_the_root_prompt_on_its_branch_only() {
    let recipe = ContextRecipe::with_id(7, vec![1, 2, 3]).with_branch_delta(9, vec![4, 5]);
    assert_eq!(recipe.full_tokens_for_branch(&9), vec![1, 2, 3, 4, 5]);
    assert_eq!(recipe.full_tokens_for_branch(&10), vec![1, 2, 3]);
}

#[test]
fn the_last_delta_of_a_branch_counts() {
    let recipe = ContextRecipe::with_id(7, vec![1])
        .with_branch_delta(9, vec![4])
        .with_branch_delta(9, vec![]);
    assert_eq!(recipe.full_tokens_for_branch(&9), vec![1]);
    let recipe = recipe.with_branch_delta(9, vec![6, 7]);
    assert_eq!(recipe.full_tokens_for_branch(&9), vec![1, 6, 7]);
}

#[test]
fn new_recipes_have_random_identifiers() {
    let a = ContextRecipe::new(vec![1]);
    let b = ContextRecipe::new(vec![1]);
    assert_ne!(a.recipe_id, b.recipe_id);
    for id in [a.recipe_id, b.recipe_id] {
        let uuid = uuid::Uuid::from_u128(id);
        assert_eq!(uuid.get_version_num(), 4);
        assert_eq!(uuid.get_variant(), uuid::Variant::RFC4122);
    }
    assert_eq!(a.root_prompt_tokens, vec![1]);
    assert!(a.branch_deltas.is_empty());
}

#[test]
fn a_reference_names_the_digest_or_zero() {
    let recipe = ContextRecipe::with_id(7, vec![1]);
    let digest = Digest32([3u8; 32]);
    assert_eq!(recipe.compute_digest(Some(digest)), digest);
    assert_eq!(recipe.compute_digest(None), Digest32([0u8; 32]));
    let r = recipe.to_ref(Some(digest));
    assert_eq!(r.recipe_id, 7);
    assert_eq!(r.recipe_digest, digest);
    assert_eq!(recipe.to_ref(None).recipe_digest, Digest32::zero());
}

#[test]
fn digests_differ_where_one_byte_does() {
    let mut bytes = [9u8; 32];
    let a = Digest32(bytes);
    bytes[31] = 8;
    assert_ne!(a, Digest32(bytes));
    bytes[31] = 9;
    assert_eq!(a, Digest32(bytes));
}

#[test]
fn the_order_of_deltas_does_not_matter() {
    let root = ContextRecipe::with_id(7, vec![1]);
    let one = root.clone().with_branch_delta(9, vec![4]).with_branch_delta(10, vec![5]);
    let other = root.clone().with_branch_delta(10, vec![5]).with_branch_delta(9, vec![4]);
    assert_eq!(one, other);
    assert_ne!(one, root.clone());
    assert_ne!(root.clone().with_branch_delta(9, vec![]), root);
}
