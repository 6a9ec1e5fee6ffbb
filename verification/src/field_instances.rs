use vstd::prelude::*;

use crate::text::str_equal;
use crate::tile::Tile;

verus! {

/// The value of one field of an LDtk entity, as far as the library reads it.
#[derive(Debug)]
pub enum FieldValue {
    String(String),
    ArrayString(Vec<String>),
    Tile(Tile),
    ArrayTile(Vec<Tile>),
    /// A field of a kind the library does not read (a number, a color, a point, ...).
    Other,
}

/// The value of the first field of `fields` named `id`, if any.
pub open spec fn field_named(fields: Seq<(String, FieldValue)>, id: Seq<char>) -> Option<FieldValue>
    decreases fields.len(),
{
    if fields.len() == 0 {
        None
    } else if fields[0].0@ == id {
        Some(fields[0].1)
    } else {
        field_named(fields.drop_first(), id)
    }
}

/// Skipping fields that are not named `id` does not change which field is
/// named `id`.
proof fn lemma_field_named_skip(fields: Seq<(String, FieldValue)>, id: Seq<char>, i: int)
    requires
        0 <= i <= fields.len(),
        forall|j: int| 0 <= j < i ==> (#[trigger] fields[j]).0@ != id,
    ensures
        field_named(fields, id) == field_named(fields.subrange(i, fields.len() as int), id),
    decreases i,
{
    if i == 0 {
        assert(fields.subrange(0, fields.len() as int) =~= fields);
    } else {
        let rest = fields.drop_first();
        assert(fields[0].0@ != id);
        assert forall|j: int| 0 <= j < i - 1 implies (#[trigger] rest[j]).0@ != id by {
            assert(rest[j] == fields[j + 1]);
        }
        lemma_field_named_skip(rest, id, i - 1);
        assert(rest.subrange(i - 1, rest.len() as int) =~= fields.subrange(i, fields.len() as int));
    }
}

/// The fields of an LDtk entity, by name.
#[derive(Debug)]
pub struct LdtkFieldInstances {
    field_instances: Vec<(String, FieldValue)>,
}

/// No two fields share a name.
pub open spec fn names_distinct(fields: Seq<(String, FieldValue)>) -> bool {
    forall|a: int, b: int| 0 <= a < b < fields.len() ==> #[trigger] fields[a].0@ != #[trigger] fields[b].0@
}

impl LdtkFieldInstances {
    /// Each field is known by its own name.
    #[verifier::type_invariant]
    closed spec fn names_unique(&self) -> bool {
        names_distinct(self.field_instances@)
    }

    /// The fields, as (name, value).
    pub closed spec fn fields(&self) -> Seq<(String, FieldValue)> {
        self.field_instances@
    }

    /// The fields given, each by its own name.
    pub fn new(field_instances: Vec<(String, FieldValue)>) -> (r: Self)
        requires
            names_distinct(field_instances@),
        ensures
            r.fields() == field_instances@,
            names_distinct(r.fields()),
    {
        LdtkFieldInstances { field_instances }
    }

    /// The index of the first field named `identifier`, if any.
    fn position(&self, identifier: &str) -> (r: Option<usize>)
        ensures
            match r {
                Some(i) => i < self.fields().len() && field_named(self.fields(), identifier@)
                    == Some(self.fields()[i as int].1),
                None => field_named(self.fields(), identifier@) is None,
            },
    {
        let ghost fields = self.field_instances@;
        let mut i: usize = 0;
        while i < self.field_instances.len()
            invariant
                fields == self.field_instances@,
                i <= fields.len(),
                forall|j: int| 0 <= j < i ==> (#[trigger] fields[j]).0@ != identifier@,
            decreases fields.len() - i,
        {
            if str_equal(self.field_instances[i].0.as_str(), identifier) {
                proof {
                    lemma_field_named_skip(fields, identifier@, i as int);
                    assert(fields.subrange(i as int, fields.len() as int)[0] == fields[i as int]);
                }
                return Some(i);
            }
            i = i + 1;
        }
        proof {
            lemma_field_named_skip(fields, identifier@, i as int);
        }
        None
    }

    /// The tiles of the field named `identifier`, when it is an array of tiles.
    pub fn get_array_tile(&self, identifier: &str) -> (r: Option<Vec<Tile>>)
        ensures
            match field_named(self.fields(), identifier@) {
                Some(FieldValue::ArrayTile(tiles)) => r matches Some(v) && v@ == tiles@,
                _ => r is None,
            },
    {
        match self.position(identifier) {
            Some(i) => match &self.field_instances[i].1 {
                FieldValue::ArrayTile(tiles) => {
                    let mut out: Vec<Tile> = Vec::new();
                    let mut j: usize = 0;
                    while j < tiles.len()
                        invariant
                            j <= tiles@.len(),
                            out@ == tiles@.take(j as int),
                        decreases tiles@.len() - j,
                    {
                        out.push(tiles[j]);
                        j = j + 1;
                        assert(out@ =~= tiles@.take(j as int));
                    }
                    assert(tiles@.take(tiles@.len() as int) =~= tiles@);
                    Some(out)
                },
                _ => None,
            },
            None => None,
        }
    }

    /// The strings of the field named `identifier`, when it is an array of strings.
    pub fn get_array_string(&self, identifier: &str) -> (r: Option<&Vec<String>>)
        ensures
            match field_named(self.fields(), identifier@) {
                Some(FieldValue::ArrayString(strings)) => r == Some(&strings),
                _ => r is None,
            },
    {
        match self.position(identifier) {
            Some(i) => match &self.field_instances[i].1 {
                FieldValue::ArrayString(strings) => Some(strings),
                _ => None,
            },
            None => None,
        }
    }

    /// The text of the field named `identifier`, when it is a string.
    pub fn get_string(&self, identifier: &str) -> (r: Option<&str>)
        ensures
            match field_named(self.fields(), identifier@) {
                Some(FieldValue::String(s)) => r matches Some(t) && t@ == s@,
                _ => r is None,
            },
    {
        match self.position(identifier) {
            Some(i) => match &self.field_instances[i].1 {
                FieldValue::String(s) => Some(s.as_str()),
                _ => None,
            },
            None => None,
        }
    }

    /// The tile of the field named `identifier`, when it is a tile.
    pub fn get_tile(&self, identifier: &str) -> (r: Option<Tile>)
        ensures
            match field_named(self.fields(), identifier@) {
                Some(FieldValue::Tile(t)) => r == Some(t),
                _ => r is None,
            },
    {
        match self.position(identifier) {
            Some(i) => match &self.field_instances[i].1 {
                FieldValue::Tile(t) => Some(*t),
                _ => None,
            },
            None => None,
        }
    }
}

} // verus!
