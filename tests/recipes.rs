use pyrsia::recipes::{
    create_new_recipe, next_recipe_id, parse_create_recipe, parse_list_recipes, parse_publish_recipe,
    public_recipes, publish_recipe, should_answer, ListMode, ListRecipes, Recipe, RecipeError,
};

fn recipe(id: usize, public: bool) -> Recipe {
    Recipe {
        id,
        name: format!("r{}", id),
        ingredients: "i".to_string(),
        instructions: "s".to_string(),
        public,
    }
}

#[test]
fn next_id_follows_largest() {
    assert_eq!(next_recipe_id(&vec![]), Ok(0));
    assert_eq!(next_recipe_id(&vec![recipe(3, false), recipe(7, true), recipe(1, false)]), Ok(8));
    assert_eq!(next_recipe_id(&vec![recipe(usize::MAX, false)]), Err(RecipeError::IdsExhausted));
}

#[test]
fn create_adds_private_recipe() {
    let mut book = vec![recipe(4, true)];
    assert_eq!(create_new_recipe(&mut book, "soup", "water", "boil"), Ok(5));
    assert_eq!(book.len(), 2);
    assert_eq!(book[1].id, 5);
    assert_eq!(book[1].name, "soup");
    assert_eq!(book[1].ingredients, "water");
    assert_eq!(book[1].instructions, "boil");
    assert!(!book[1].public);
    let mut full = vec![recipe(usize::MAX, false)];
    assert_eq!(create_new_recipe(&mut full, "a", "b", "c"), Err(RecipeError::IdsExhausted));
    assert_eq!(full.len(), 1);
}

#[test]
fn publish_and_share() {
    let mut book = vec![recipe(0, false), recipe(1, false), recipe(2, true)];
    publish_recipe(&mut book, 1);
    assert!(!book[0].public);
    assert!(book[1].public);
    assert!(book[2].public);
    let shared = public_recipes(&book);
    let ids: Vec<usize> = shared.iter().map(|r| r.id).collect();
    assert_eq!(ids, vec![1, 2]);
    publish_recipe(&mut book, 9);
    assert_eq!(public_recipes(&book).len(), 2);
}

#[test]
fn answer_listing_requests() {
    let me = "peer-a".to_string();
    assert!(should_answer(&ListMode::All, &me));
    assert!(should_answer(&ListMode::One("peer-a".to_string()), &me));
    assert!(!should_answer(&ListMode::One("peer-b".to_string()), &me));
}

#[test]
fn list_command() {
    assert!(matches!(parse_list_recipes("ls r all"), ListRecipes::All));
    match parse_list_recipes("ls r 12D3KooW") {
        ListRecipes::One(p) => assert_eq!(p, "12D3KooW"),
        other => panic!("unexpected {:?}", other),
    }
    assert!(matches!(parse_list_recipes("ls r"), ListRecipes::Local));
}

#[test]
fn create_command() {
    let r = parse_create_recipe("create r Soup|water, salt|boil it|extra").unwrap().unwrap();
    assert_eq!(r.name, " Soup");
    assert_eq!(r.ingredients, "water, salt");
    assert_eq!(r.instructions, "boil it");
    assert_eq!(parse_create_recipe("create r a|b").unwrap().unwrap_err(), RecipeError::TooFewArguments);
    assert!(parse_create_recipe("publish r 1").is_none());
}

#[test]
fn publish_command() {
    assert_eq!(parse_publish_recipe("publish r 12 "), Some(Ok(12)));
    assert_eq!(parse_publish_recipe("publish r +3"), Some(Ok(3)));
    assert_eq!(parse_publish_recipe("publish r x"), Some(Err(RecipeError::InvalidId)));
    assert_eq!(parse_publish_recipe("publish r -1"), Some(Err(RecipeError::InvalidId)));
    assert_eq!(parse_publish_recipe("ls r"), None);
}
