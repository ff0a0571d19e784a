use vstd::prelude::*;
use vstd::string::StringExecFns;
use vstd::pervasive::VecAdditionalExecFns;

verus! {

/// A recipe in the local recipe book, shared with peers once public.
#[derive(Clone, Debug)]
pub struct Recipe {
    pub id: usize,
    pub name: String,
    pub ingredients: String,
    pub instructions: String,
    pub public: bool,
}

pub struct RecipeView {
    pub id: usize,
    pub name: Seq<char>,
    pub ingredients: Seq<char>,
    pub instructions: Seq<char>,
    pub public: bool,
}

impl View for Recipe {
    type V = RecipeView;

    open spec fn view(&self) -> RecipeView {
        RecipeView {
            id: self.id,
            name: self.name@,
            ingredients: self.ingredients@,
            instructions: self.instructions@,
            public: self.public,
        }
    }
}

pub open spec fn recipe_views(s: Seq<Recipe>) -> Seq<RecipeView> {
    s.map_values(|r: Recipe| r@)
}

/// Whom a listing request asks: every peer, or the one with the given id.
#[derive(Clone, Debug)]
pub enum ListMode {
    All,
    One(String),
}

/// What went wrong with a recipe operation or command.
#[derive(Clone, Copy, Debug, PartialEq, Eq, Structural)]
pub enum RecipeError {
    /// Every recipe id is taken.
    IdsExhausted,
    /// `create r` needs `name|ingredients|instructions`.
    TooFewArguments,
    /// `publish r` needs a recipe id.
    InvalidId,
}

/// The largest id in the book, if it is not empty.
pub open spec fn max_id(s: Seq<RecipeView>) -> Option<usize>
    decreases s.len(),
{
    if s.len() == 0 {
        None
    } else {
        match max_id(s.drop_last()) {
            None => Some(s.last().id),
            Some(m) => Some(if s.last().id > m { s.last().id } else { m }),
        }
    }
}

/// The id a new recipe gets: one more than the largest, or 0 in an empty
/// book.
pub open spec fn new_id(s: Seq<RecipeView>) -> Option<usize> {
    match max_id(s) {
        None => Some(0),
        Some(m) => if m < usize::MAX { Some((m + 1) as usize) } else { None },
    }
}

/// The id for a new recipe, or `IdsExhausted` when the largest id is
/// `usize::MAX`.
pub fn next_recipe_id(recipes: &Vec<Recipe>) -> (r: Result<usize, RecipeError>)
    ensures
        match new_id(recipe_views(recipes@)) {
            Some(id) => r == Ok::<usize, RecipeError>(id),
            None => r == Err::<usize, RecipeError>(RecipeError::IdsExhausted),
        },
{
    let ghost v = recipe_views(recipes@);
    let mut best: Option<usize> = None;
    let mut i: usize = 0;
    while i < recipes.len()
        invariant
            0 <= i <= recipes@.len(),
            v == recipe_views(recipes@),
            best == max_id(v.take(i as int)),
        decreases recipes@.len() - i,
    {
        assert(v.take(i + 1).drop_last() =~= v.take(i as int));
        let id = recipes[i].id;
        best = match best {
            None => Some(id),
            Some(m) => Some(if id > m { id } else { m }),
        };
        i = i + 1;
    }
    assert(v.take(recipes@.len() as int) =~= v);
    match best {
        None => Ok(0),
        Some(m) => if m < usize::MAX { Ok(m + 1) } else { Err(RecipeError::IdsExhausted) },
    }
}

/// Adds a private recipe with the next id to the book, and returns that id.
pub fn create_new_recipe(recipes: &mut Vec<Recipe>, name: &str, ingredients: &str, instructions: &str) -> (r: Result<usize, RecipeError>)
    ensures
        match new_id(recipe_views(old(recipes)@)) {
            Some(id) => r == Ok::<usize, RecipeError>(id) && recipe_views(final(recipes)@) == recipe_views(
                old(recipes)@,
            ).push(
                RecipeView {
                    id,
                    name: name@,
                    ingredients: ingredients@,
                    instructions: instructions@,
                    public: false,
                },
            ),
            None => r == Err::<usize, RecipeError>(RecipeError::IdsExhausted) && final(recipes)@ == old(recipes)@,
        },
{
    let id = match next_recipe_id(recipes) {
        Ok(id) => id,
        Err(e) => return Err(e),
    };
    let ghost before = recipes@;
    recipes.push(
        Recipe {
            id,
            name: name.to_owned(),
            ingredients: ingredients.to_owned(),
            instructions: instructions.to_owned(),
            public: false,
        },
    );
    assert(recipe_views(recipes@) =~= recipe_views(before).push(recipes@[before.len() as int]@));
    Ok(id)
}

/// Makes every recipe with id `id` public; the rest of the book is unchanged.
pub fn publish_recipe(recipes: &mut Vec<Recipe>, id: usize)
    ensures
        final(recipes)@.len() == old(recipes)@.len(),
        forall|i: int|
            0 <= i < old(recipes)@.len() ==> #[trigger] final(recipes)@[i]@ == (RecipeView {
                public: old(recipes)@[i].public || old(recipes)@[i].id == id,
                ..old(recipes)@[i]@
            }),
{
    let mut i: usize = 0;
    while i < recipes.len()
        invariant
            0 <= i <= recipes@.len(),
            recipes@.len() == old(recipes)@.len(),
            forall|j: int|
                0 <= j < i ==> #[trigger] recipes@[j]@ == (RecipeView {
                    public: old(recipes)@[j].public || old(recipes)@[j].id == id,
                    ..old(recipes)@[j]@
                }),
            forall|j: int| i <= j < recipes@.len() ==> #[trigger] recipes@[j] == old(recipes)@[j],
        decreases recipes@.len() - i,
    {
        if recipes[i].id == id {
            let r = &recipes[i];
            let updated = Recipe {
                id: r.id,
                name: r.name.clone(),
                ingredients: r.ingredients.clone(),
                instructions: r.instructions.clone(),
                public: true,
            };
            recipes.set(i, updated);
        }
        i = i + 1;
    }
}

pub open spec fn is_public(r: RecipeView) -> bool {
    r.public
}

/// The public recipes of the book, in order: what is shared with peers.
pub fn public_recipes(recipes: &Vec<Recipe>) -> (r: Vec<Recipe>)
    ensures
        recipe_views(r@) == recipe_views(recipes@).filter(|x: RecipeView| is_public(x)),
{
    let ghost v = recipe_views(recipes@);
    let ghost pred = |x: RecipeView| is_public(x);
    let mut out: Vec<Recipe> = Vec::new();
    let mut i: usize = 0;
    while i < recipes.len()
        invariant
            0 <= i <= recipes@.len(),
            v == recipe_views(recipes@),
            pred == (|x: RecipeView| is_public(x)),
            recipe_views(out@) == v.take(i as int).filter(pred),
        decreases recipes@.len() - i,
    {
        let ghost before = out@;
        proof {
            assert(v.take(i + 1) =~= v.take(i as int).push(v[i as int]));
            v.take(i as int).lemma_filter_push(v[i as int], pred);
        }
        if recipes[i].public {
            let r = &recipes[i];
            out.push(
                Recipe {
                    id: r.id,
                    name: r.name.clone(),
                    ingredients: r.ingredients.clone(),
                    instructions: r.instructions.clone(),
                    public: true,
                },
            );
            assert(recipe_views(out@) =~= recipe_views(before).push(v[i as int]));
        }
        i = i + 1;
    }
    assert(v.take(recipes@.len() as int) =~= v);
    out
}

/// Whether this node, whose peer id is written `local`, answers a listing
/// request: one for all peers, or one addressed to it.
pub fn should_answer(mode: &ListMode, local: &String) -> (r: bool)
    ensures
        r == match mode {
            ListMode::All => true,
            ListMode::One(p) => p@ == local@,
        },
{
    match mode {
        ListMode::All => true,
        ListMode::One(p) => p.eq(local),
    }
}

/// The pieces of `s` between occurrences of `sep`; an empty text is one
/// empty piece.
pub open spec fn segments(s: Seq<char>, sep: char) -> Seq<Seq<char>>
    decreases s.len(),
{
    if s.len() == 0 {
        seq![Seq::empty()]
    } else {
        let rest = segments(s.drop_last(), sep);
        if s.last() == sep {
            rest.push(Seq::empty())
        } else {
            rest.update(rest.len() - 1, rest.last().push(s.last()))
        }
    }
}

pub open spec fn is_digit_char(c: char) -> bool {
    '0' <= c && c <= '9'
}

pub open spec fn digits_value(s: Seq<char>) -> nat
    decreases s.len(),
{
    if s.len() == 0 {
        0
    } else {
        digits_value(s.drop_last()) * 10 + (s.last() as nat - '0' as nat) as nat
    }
}

/// What `usize::from_str` accepts: an optional `+`, then one or more
/// decimal digits whose value fits.
pub open spec fn parsed_usize(s: Seq<char>) -> Option<usize> {
    let t = if s.len() > 0 && s[0] == '+' { s.drop_first() } else { s };
    if t.len() > 0 && (forall|i: int| 0 <= i < t.len() ==> is_digit_char(#[trigger] t[i])) && digits_value(t)
        <= usize::MAX {
        Some(digits_value(t) as usize)
    } else {
        None
    }
}

/// `s` without leading and trailing Unicode white space.
pub uninterp spec fn trimmed(s: Seq<char>) -> Seq<char>;

/// Relies on str::strip_prefix: the rest of `s` when it starts with `prefix`.
#[verifier::external_body]
fn strip_prefix<'a>(s: &'a str, prefix: &str) -> (r: Option<&'a str>)
    ensures
        r.is_some() == (prefix@.len() <= s@.len() && s@.take(prefix@.len() as int) == prefix@),
        r matches Some(rest) ==> rest@ == s@.skip(prefix@.len() as int),
{
    s.strip_prefix(prefix)
}

/// Relies on str::split with a char pattern: the pieces between the
/// separators, in order.
#[verifier::external_body]
fn split_on_bar<'a>(s: &'a str) -> (r: Vec<&'a str>)
    ensures
        r@.map_values(|p: &str| p@) == segments(s@, '|'),
{
    s.split('|').collect()
}

/// Relies on str::trim: the text without leading and trailing white space.
#[verifier::external_body]
fn trim(s: &str) -> (r: &str)
    ensures
        r@ == trimmed(s@),
{
    s.trim()
}

/// Relies on usize's FromStr: an optional `+` and decimal digits, within range.
#[verifier::external_body]
fn parse_usize(s: &str) -> (r: Option<usize>)
    ensures
        r == parsed_usize(s@),
{
    s.parse::<usize>().ok()
}

/// What `ls r` asks for.
#[derive(Clone, Debug)]
pub enum ListRecipes {
    /// The local recipe book.
    Local,
    /// The public recipes of every peer.
    All,
    /// The public recipes of one peer.
    One(String),
}

/// Reads an `ls r` command: `ls r all`, `ls r <peer id>`, or the local book
/// for anything else.
pub fn parse_list_recipes(cmd: &str) -> (r: ListRecipes)
    ensures
        ({
            let p = seq!['l', 's', ' ', 'r', ' '];
            if p.len() <= cmd@.len() && cmd@.take(p.len() as int) == p {
                let rest = cmd@.skip(p.len() as int);
                if rest == seq!['a', 'l', 'l'] {
                    r is All
                } else {
                    r matches ListRecipes::One(peer) && peer@ == rest
                }
            } else {
                r is Local
            }
        }),
{
    proof {
        reveal_strlit("ls r ");
        reveal_strlit("all");
        assert("ls r "@ == seq!['l', 's', ' ', 'r', ' ']);
        assert("all"@ == seq!['a', 'l', 'l']);
    }
    match strip_prefix(cmd, "ls r ") {
        Some(rest) => {
            let all = String::from_str("all");
            let owned = rest.to_owned();
            if owned.eq(&all) {
                ListRecipes::All
            } else {
                ListRecipes::One(owned)
            }
        },
        None => ListRecipes::Local,
    }
}

/// A recipe as a `create r` command gives it.
#[derive(Clone, Debug)]
pub struct NewRecipe {
    pub name: String,
    pub ingredients: String,
    pub instructions: String,
}

pub open spec fn create_prefix() -> Seq<char> {
    seq!['c', 'r', 'e', 'a', 't', 'e', ' ', 'r']
}

/// Reads a `create r name|ingredients|instructions` command: `None` for
/// another command, `TooFewArguments` for fewer than three pieces; pieces
/// after the third are ignored.
pub fn parse_create_recipe(cmd: &str) -> (r: Option<Result<NewRecipe, RecipeError>>)
    ensures
        ({
            let p = create_prefix();
            if p.len() <= cmd@.len() && cmd@.take(p.len() as int) == p {
                let parts = segments(cmd@.skip(p.len() as int), '|');
                if parts.len() < 3 {
                    r == Some(Err::<NewRecipe, RecipeError>(RecipeError::TooFewArguments))
                } else {
                    r matches Some(Ok(n)) && n.name@ == parts[0] && n.ingredients@ == parts[1]
                        && n.instructions@ == parts[2]
                }
            } else {
                r is None
            }
        }),
{
    proof {
        reveal_strlit("create r");
        assert("create r"@ == create_prefix());
    }
    match strip_prefix(cmd, "create r") {
        Some(rest) => {
            let elements = split_on_bar(rest);
            if elements.len() < 3 {
                Some(Err(RecipeError::TooFewArguments))
            } else {
                let ghost views = elements@.map_values(|p: &str| p@);
                assert(views[0] == elements@[0]@ && views[1] == elements@[1]@ && views[2] == elements@[2]@);
                Some(
                    Ok(
                        NewRecipe {
                            name: elements[0].to_owned(),
                            ingredients: elements[1].to_owned(),
                            instructions: elements[2].to_owned(),
                        },
                    ),
                )
            }
        },
        None => None,
    }
}

pub open spec fn publish_prefix() -> Seq<char> {
    seq!['p', 'u', 'b', 'l', 'i', 's', 'h', ' ', 'r']
}

/// Reads a `publish r <id>` command: `None` for another command, the id, or
/// `InvalidId` when the trimmed rest is not a `usize`.
pub fn parse_publish_recipe(cmd: &str) -> (r: Option<Result<usize, RecipeError>>)
    ensures
        ({
            let p = publish_prefix();
            if p.len() <= cmd@.len() && cmd@.take(p.len() as int) == p {
                match parsed_usize(trimmed(cmd@.skip(p.len() as int))) {
                    Some(id) => r == Some(Ok::<usize, RecipeError>(id)),
                    None => r == Some(Err::<usize, RecipeError>(RecipeError::InvalidId)),
                }
            } else {
                r is None
            }
        }),
{
    proof {
        reveal_strlit("publish r");
        assert("publish r"@ == publish_prefix());
    }
    match strip_prefix(cmd, "publish r") {
        Some(rest) => match parse_usize(trim(rest)) {
            Some(id) => Some(Ok(id)),
            None => Some(Err(RecipeError::InvalidId)),
        },
        None => None,
    }
}

} // verus!
