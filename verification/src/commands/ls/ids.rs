//! Names of users and groups, read from `passwd`- and `group`-style lines
//! (`name:password:id:...`).
use std::collections::HashMap;
use vstd::prelude::*;
use crate::numbers::{decimal, decimal_string, parse_u32, parse_u32_spec};
use crate::text::{owned, split_char, split_on, views};

verus! {

/// The names of numeric ids.
pub struct IdTable {
    pub names: HashMap<u32, String>,
}

impl View for IdTable {
    type V = Map<u32, Seq<char>>;

    open spec fn view(&self) -> Map<u32, Seq<char>> {
        self.names@.map_values(|s: String| s@)
    }
}

/// What one line records: its first field named by its third, when the line
/// has at least three `:`-separated fields and the third is a `u32`.
pub open spec fn line_entry(line: Seq<char>) -> Option<(u32, Seq<char>)> {
    let fields = split_on(line, ':');
    if fields.len() >= 3 {
        match parse_u32_spec(fields[2]) {
            Some(id) => Some((id, fields[0])),
            None => None,
        }
    } else {
        None
    }
}

/// The names that the lines give, a later line overriding an earlier one.
pub open spec fn lines_map(lines: Seq<Seq<char>>) -> Map<u32, Seq<char>>
    decreases lines.len(),
{
    if lines.len() == 0 {
        Map::empty()
    } else {
        match line_entry(lines.last()) {
            Some((id, name)) => lines_map(lines.drop_last()).insert(id, name),
            None => lines_map(lines.drop_last()),
        }
    }
}

/// The name of `id` in `m`, or its decimal number when it has none.
pub open spec fn name_or_number_spec(m: Map<u32, Seq<char>>, id: u32) -> Seq<char> {
    if m.contains_key(id) {
        m[id]
    } else {
        decimal(id as nat)
    }
}

impl IdTable {
    /// A table with no names.
    pub fn new() -> (t: Self)
        ensures
            t@ == Map::<u32, Seq<char>>::empty(),
    {
        let t = IdTable { names: HashMap::new() };
        assert(t@ =~= Map::<u32, Seq<char>>::empty());
        t
    }

    /// Records `name` for `id`, replacing any earlier name.
    pub fn insert(&mut self, id: u32, name: String)
        ensures
            final(self)@ == old(self)@.insert(id, name@),
    {
        let ghost n = name@;
        self.names.insert(id, name);
        assert(self@ =~= old(self)@.insert(id, n));
    }

    /// The name recorded for `id`, if any.
    pub fn get(&self, id: u32) -> (r: Option<&String>)
        ensures
            r matches Some(n) ==> self@.contains_key(id) && self@[id] == n@,
            r is None ==> !self@.contains_key(id),
    {
        self.names.get(&id)
    }

    /// The name of `id`, or its decimal number when it has none.
    pub fn name_or_number(&self, id: u32) -> (s: String)
        ensures
            s@ == name_or_number_spec(self@, id),
    {
        match self.get(id) {
            Some(n) => n.clone(),
            None => decimal_string(id as u64),
        }
    }
}

/// Builds the table that `passwd`- or `group`-style lines give.
pub fn parse_id_lines(lines: &Vec<String>) -> (t: IdTable)
    ensures
        t@ == lines_map(views(lines@)),
{
    let mut t = IdTable::new();
    let mut i: usize = 0;
    while i < lines.len()
        invariant
            i <= lines@.len(),
            t@ == lines_map(views(lines@).take(i as int)),
        decreases lines@.len() - i,
    {
        proof {
            assert(views(lines@).take(i + 1).drop_last() == views(lines@).take(i as int));
            assert(views(lines@).take(i + 1).last() == lines@[i as int]@);
        }
        let fields = split_char(lines[i].as_str(), ':');
        if fields.len() >= 3 {
            assert(views(fields@)[2] == fields@[2]@);
            assert(views(fields@)[0] == fields@[0]@);
            if let Some(id) = parse_u32(fields[2].as_str()) {
                t.insert(id, owned(fields[0].as_str()));
            }
        }
        i = i + 1;
    }
    assert(views(lines@).take(lines@.len() as int) == views(lines@));
    t
}

} // verus!
