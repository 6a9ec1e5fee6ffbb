use vstd::prelude::*;

use crate::text::str_equal;

verus! {

/// The tags of an LDtk entity, as the entity instance lists them.
#[derive(Debug)]
pub struct LdtkTags {
    tags: Vec<String>,
}

impl View for LdtkTags {
    type V = Seq<Seq<char>>;

    closed spec fn view(&self) -> Seq<Seq<char>> {
        self.tags@.map_values(|t: String| t@)
    }
}

impl LdtkTags {
    /// Copies the given tags, in their order.
    pub fn new(tags: &[String]) -> (r: Self)
        ensures
            r@ == tags@.map_values(|t: String| t@),
    {
        let mut out: Vec<String> = Vec::new();
        let mut i: usize = 0;
        while i < tags.len()
            invariant
                i <= tags@.len(),
                out@.len() == i,
                forall|j: int| 0 <= j < i ==> out@[j]@ == tags@[j]@,
            decreases tags@.len() - i,
        {
            let t = tags[i].clone();
            out.push(t);
            i = i + 1;
        }
        let r = LdtkTags { tags: out };
        assert(r@ =~= tags@.map_values(|t: String| t@));
        r
    }

    /// Whether one of the tags is exactly `tag`.
    pub fn contains(&self, tag: &str) -> (r: bool)
        ensures
            r == self@.contains(tag@),
    {
        let mut i: usize = 0;
        while i < self.tags.len()
            invariant
                i <= self.tags@.len(),
                forall|j: int| 0 <= j < i ==> self.tags@[j]@ != tag@,
            decreases self.tags@.len() - i,
        {
            if str_equal(self.tags[i].as_str(), tag) {
                assert(self@[i as int] == tag@);
                return true;
            }
            i = i + 1;
        }
        assert forall|j: int| 0 <= j < self@.len() implies self@[j] != tag@ by {
            assert(self@[j] == self.tags@[j]@);
        }
        false
    }
}

/// Registers [`LdtkTags`] with an application.
pub struct TagsPlugin;

} // verus!
