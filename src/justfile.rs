use vstd::prelude::*;

verus! {

/// The attribute key that puts a recipe in a group.
pub open spec fn group_key() -> Seq<char> {
    seq!['g', 'r', 'o', 'u', 'p']
}

/// One recipe of the recipe file: its name and its attributes, each a set of
/// key/value pairs with distinct keys.
#[derive(Clone, Debug)]
pub struct JustfileRecipe {
    pub name: String,
    pub attributes: Vec<Vec<(String, String)>>,
}

/// The recipes of the recipe file, as the recipe runner dumps them.
#[derive(Clone, Debug)]
pub struct Justfile {
    pub recipes: Vec<JustfileRecipe>,
}

/// The value of the first pair of `attr` whose key is `key`.
pub open spec fn attr_value(attr: Seq<(String, String)>, key: Seq<char>) -> Option<Seq<char>>
    decreases attr.len(),
{
    if attr.len() == 0 {
        None
    } else if attr[0].0@ == key {
        Some(attr[0].1@)
    } else {
        attr_value(attr.drop_first(), key)
    }
}

/// The recipe belongs to group `g`.
pub open spec fn in_group(r: JustfileRecipe, g: Seq<char>) -> bool {
    exists|j: int| 0 <= j < r.attributes@.len() && attr_value(#[trigger] r.attributes@[j]@, group_key()) == Some(g)
}

/// The names of the recipes of group `g`, in order.
pub open spec fn group_names(recipes: Seq<JustfileRecipe>, g: Seq<char>) -> Seq<Seq<char>>
    decreases recipes.len(),
{
    if recipes.len() == 0 {
        seq![]
    } else {
        let rest = group_names(recipes.drop_last(), g);
        if in_group(recipes.last(), g) {
            rest.push(recipes.last().name@)
        } else {
            rest
        }
    }
}

fn lookup<'a>(attr: &'a Vec<(String, String)>, key: &String) -> (r: Option<&'a String>)
    ensures
        r matches Some(v) ==> attr_value(attr@, key@) == Some(v@),
        r is None ==> attr_value(attr@, key@) is None,
{
    let mut i: usize = 0;
    assert(attr@.subrange(0, attr@.len() as int) =~= attr@);
    while i < attr.len()
        invariant
            i <= attr@.len(),
            attr_value(attr@, key@) == attr_value(attr@.subrange(i as int, attr@.len() as int), key@),
        decreases attr@.len() - i,
    {
        let ghost rest = attr@.subrange(i as int, attr@.len() as int);
        assert(rest[0] == attr@[i as int]);
        assert(rest.drop_first() =~= attr@.subrange(i as int + 1, attr@.len() as int));
        if attr[i].0 == *key {
            return Some(&attr[i].1);
        }
        i = i + 1;
    }
    None
}

impl Justfile {
    /// The names of the recipes of `group`, in the order of the recipes.
    pub fn group_recipes(&self, group: &str) -> (r: Vec<String>)
        ensures
            r@.map_values(|s: String| s@) == group_names(self.recipes@, group@),
    {
        let lit = "group";
        proof {
            reveal_strlit("group");
        }
        let key = lit.to_string();
        assert(key@ =~= group_key());
        let wanted = group.to_string();
        let mut r: Vec<String> = Vec::new();
        let mut i: usize = 0;
        while i < self.recipes.len()
            invariant
                i <= self.recipes@.len(),
                key@ == group_key(),
                wanted@ == group@,
                r@.map_values(|s: String| s@) == group_names(self.recipes@.subrange(0, i as int), group@),
            decreases self.recipes@.len() - i,
        {
            let recipe = &self.recipes[i];
            let mut found = false;
            let mut j: usize = 0;
            while j < recipe.attributes.len()
                invariant
                    j <= recipe.attributes@.len(),
                    key@ == group_key(),
                    wanted@ == group@,
                    found <==> exists|k: int| 0 <= k < j && attr_value(#[trigger] recipe.attributes@[k]@, group_key()) == Some(group@),
                decreases recipe.attributes@.len() - j,
            {
                match lookup(&recipe.attributes[j], &key) {
                    Some(v) => {
                        if *v == wanted {
                            found = true;
                        }
                    },
                    None => {},
                }
                j = j + 1;
            }
            proof {
                let p = self.recipes@.subrange(0, i as int + 1);
                assert(p.drop_last() =~= self.recipes@.subrange(0, i as int));
                assert(p.last() == self.recipes@[i as int]);
            }
            let ghost before = r@;
            if found {
                r.push(recipe.name.clone());
                assert(r@.map_values(|s: String| s@) =~= before.map_values(|s: String| s@).push(recipe.name@));
            }
            i = i + 1;
        }
        assert(self.recipes@.subrange(0, i as int) =~= self.recipes@);
        r
    }
}

} // verus!
