//! Named text fields, as the tools print them: `name: value`.

use crate::chars::{
    chars_string, is_char, is_whitespace, non_white, split_once, split_once_char, trim_start,
    trim_start_chars, views,
};
use crate::seqs::lemma_first_index_is;
use crate::shared::write_text;
use vstd::hash_map::StringHashMap;
use vstd::prelude::*;

verus! {

/// The name and the value that one piece of text gives: what stands before
/// its first colon, and what stands behind it without leading white space.
/// A piece without a colon gives nothing.
pub open spec fn entry(part: Seq<char>) -> Option<(Seq<char>, Seq<char>)> {
    match split_once(part, ':') {
        Some((name, value)) => Some((name, trim_start(value))),
        None => None,
    }
}

/// The fields that a list of pieces gives. Where a name comes twice, the
/// later value stands.
pub open spec fn fields_of(parts: Seq<Seq<char>>) -> Map<Seq<char>, Seq<char>>
    decreases parts.len(),
{
    if parts.len() == 0 {
        Map::empty()
    } else {
        let before = fields_of(parts.drop_last());
        match entry(parts.last()) {
            Some((name, value)) => before.insert(name, value),
            None => before,
        }
    }
}

/// A name without a colon, a colon, white space and a value that does not
/// begin with white space give that name and that value.
pub proof fn lemma_entry_of_line(name: Seq<char>, pad: Seq<char>, value: Seq<char>)
    requires
        !name.contains(':'),
        forall|i: int| 0 <= i < pad.len() ==> is_whitespace(#[trigger] pad[i]),
        value.len() > 0 ==> !is_whitespace(value[0]),
    ensures
        entry(name + seq![':'] + pad + value) == Some((name, value)),
{
    let line = name + seq![':'] + pad + value;
    let n = name.len() as int;
    assert forall|k: int| 0 <= k < n implies !is_char(':')(#[trigger] line[k]) by {
        assert(line[k] == name[k]);
    }
    assert(line[n] == ':');
    lemma_first_index_is(line, is_char(':'), n);
    assert(line.take(n) =~= name);
    let rest = line.skip(n + 1);
    assert(rest =~= pad + value);
    assert forall|k: int| 0 <= k < pad.len() implies !non_white()(#[trigger] rest[k]) by {
        assert(rest[k] == pad[k]);
    }
    if value.len() > 0 {
        assert(rest[pad.len() as int] == value[0]);
    }
    lemma_first_index_is(rest, non_white(), pad.len() as int);
    assert(rest.skip(pad.len() as int) =~= value);
}

/// A name that no piece gives is not among the fields.
pub proof fn lemma_fields_of_absent(parts: Seq<Seq<char>>, name: Seq<char>)
    requires
        forall|k: int|
            0 <= k < parts.len() ==> !(entry(#[trigger] parts[k]) matches Some((n, _)) && n
                == name),
    ensures
        !fields_of(parts).contains_key(name),
    decreases parts.len(),
{
    if parts.len() > 0 {
        assert(!(entry(parts[parts.len() - 1]) matches Some((n, _)) && n == name));
        assert forall|k: int| 0 <= k < parts.drop_last().len() implies !(entry(
            #[trigger] parts.drop_last()[k],
        ) matches Some((n, _)) && n == name) by {
            assert(parts.drop_last()[k] == parts[k]);
        }
        lemma_fields_of_absent(parts.drop_last(), name);
    }
}

/// A field has the value that the last piece with its name gives.
pub proof fn lemma_fields_of_last(parts: Seq<Seq<char>>, i: int, name: Seq<char>, value: Seq<char>)
    requires
        0 <= i < parts.len(),
        entry(parts[i]) == Some((name, value)),
        forall|k: int|
            i < k < parts.len() ==> !(entry(#[trigger] parts[k]) matches Some((n, _)) && n
                == name),
    ensures
        fields_of(parts).contains_key(name),
        fields_of(parts)[name] == value,
    decreases parts.len(),
{
    if i == parts.len() - 1 {
    } else {
        assert(!(entry(parts[parts.len() - 1]) matches Some((n, _)) && n == name));
        assert forall|k: int| i < k < parts.drop_last().len() implies !(entry(
            #[trigger] parts.drop_last()[k],
        ) matches Some((n, _)) && n == name) by {
            assert(parts.drop_last()[k] == parts[k]);
        }
        assert(parts.drop_last()[i] == parts[i]);
        lemma_fields_of_last(parts.drop_last(), i, name, value);
    }
}

/// Fields by name: a hash map from names to values.
pub struct Fields {
    map: StringHashMap<String>,
}

impl std::fmt::Debug for Fields {
    /// Writes the name of the type; the fields themselves are not shown.
    fn fmt(&self, f: &mut std::fmt::Formatter<'_>) -> std::fmt::Result {
        write_text(f, "Fields { .. }")
    }
}

impl Fields {
    /// The fields as a map from name to value.
    pub closed spec fn view(&self) -> Map<Seq<char>, Seq<char>> {
        self.map@.map_values(|value: String| value@)
    }

    /// The value of the field `name`, if there is one.
    pub open spec fn value(&self, name: Seq<char>) -> Option<Seq<char>> {
        if self@.contains_key(name) {
            Some(self@[name])
        } else {
            None
        }
    }

    /// No fields.
    pub fn new() -> (r: Fields)
        ensures
            r@ == Map::<Seq<char>, Seq<char>>::empty(),
    {
        let r = Fields { map: StringHashMap::new() };
        assert(r@ =~= Map::<Seq<char>, Seq<char>>::empty());
        r
    }

    /// Sets the field `name` to `value`.
    pub fn insert(&mut self, name: String, value: String)
        ensures
            final(self)@ == old(self)@.insert(name@, value@),
    {
        self.map.insert(name, value);
        assert(self@ =~= old(self)@.insert(name@, value@));
    }

    /// Looks the field `name` up.
    pub fn get(&self, name: &str) -> (r: Option<&str>)
        ensures
            match r {
                Some(v) => self.value(name@) == Some(v@),
                None => self.value(name@) is None,
            },
    {
        match self.map.get(name) {
            Some(value) => Some(value.as_str()),
            None => None,
        }
    }

    /// Reads the fields that a list of pieces gives.
    pub fn from_parts(parts: &Vec<&[char]>) -> (r: Fields)
        ensures
            r@ == fields_of(views(parts@)),
    {
        let mut fields = Fields::new();
        let mut i: usize = 0;
        assert(views(parts@).take(0) =~= Seq::<Seq<char>>::empty());
        while i < parts.len()
            invariant
                0 <= i <= parts.len(),
                fields@ == fields_of(views(parts@).take(i as int)),
            decreases parts.len() - i,
        {
            let part: &[char] = parts[i];
            assert(views(parts@).take(i + 1).drop_last() =~= views(parts@).take(i as int));
            assert(views(parts@).take(i + 1).last() == part@);
            match split_once_char(part, ':') {
                Some((name, value)) => {
                    let value = trim_start_chars(value);
                    fields.insert(chars_string(name), chars_string(value));
                },
                None => {},
            }
            i += 1;
        }
        assert(views(parts@).take(i as int) =~= views(parts@));
        fields
    }
}

} // verus!
