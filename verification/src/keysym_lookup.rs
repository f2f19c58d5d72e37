//! The tables that say which code a key name or a modifier name stands for.

use crate::config::command::form::same;
use vstd::prelude::*;

verus! {

/// One line of a table: a name and the code it stands for.
#[derive(Debug)]
pub struct Symbol {
    pub name: String,
    pub code: u32,
}

impl View for Symbol {
    type V = (Seq<char>, u32);

    open spec fn view(&self) -> (Seq<char>, u32) {
        (self.name@, self.code)
    }
}

impl DeepView for Symbol {
    type V = (Seq<char>, u32);

    open spec fn deep_view(&self) -> (Seq<char>, u32) {
        self@
    }
}

/// The two tables: one for plain keys, one for modifiers.
#[derive(Debug)]
pub struct Lookup {
    pub keys: Vec<Symbol>,
    pub modifiers: Vec<Symbol>,
}

pub ghost struct Tables {
    pub keys: Seq<(Seq<char>, u32)>,
    pub modifiers: Seq<(Seq<char>, u32)>,
}

impl View for Lookup {
    type V = Tables;

    open spec fn view(&self) -> Tables {
        Tables { keys: self.keys.deep_view(), modifiers: self.modifiers.deep_view() }
    }
}

/// The code of the first line of `table` that has this name.
pub open spec fn code_of(table: Seq<(Seq<char>, u32)>, name: Seq<char>) -> Option<u32>
    decreases table.len(),
{
    if table.len() == 0 {
        None
    } else if table[0].0 == name {
        Some(table[0].1)
    } else {
        code_of(table.drop_first(), name)
    }
}

/// The codes of all `names`, if the table knows every one of them.
pub open spec fn codes_of(table: Seq<(Seq<char>, u32)>, names: Seq<Seq<char>>) -> Option<
    Seq<u32>,
> {
    if forall|i: int| 0 <= i < names.len() ==> (#[trigger] code_of(table, names[i])) is Some {
        Some(Seq::new(names.len(), |i: int| code_of(table, names[i]).unwrap()))
    } else {
        None
    }
}

fn find(table: &Vec<Symbol>, name: &str) -> (r: Option<u32>)
    ensures
        r == code_of(table.deep_view(), name@),
{
    let mut i: usize = 0;
    assert(table.deep_view().skip(0) =~= table.deep_view());
    while i < table.len()
        invariant
            i <= table.len(),
            code_of(table.deep_view(), name@) == code_of(table.deep_view().skip(i as int), name@),
        decreases table.len() - i,
    {
        let ghost rest = table.deep_view().skip(i as int);
        assert(rest[0] == table[i as int]@);
        assert(rest.drop_first() =~= table.deep_view().skip(i + 1));
        if same(table[i].name.as_str(), name) {
            return Some(table[i].code);
        }
        i = i + 1;
    }
    None
}

impl Lookup {
    /// The code of a plain key, by its name.
    pub fn into_key(&self, name: &str) -> (r: Option<u32>)
        ensures
            r == code_of(self@.keys, name@),
    {
        find(&self.keys, name)
    }

    /// The code of a modifier, by its name.
    pub fn into_mod(&self, name: &str) -> (r: Option<u32>)
        ensures
            r == code_of(self@.modifiers, name@),
    {
        find(&self.modifiers, name)
    }

    /// The codes of a list of modifiers; nothing where a name is unknown.
    pub fn into_mods(&self, names: &Vec<String>) -> (r: Option<Vec<u32>>)
        ensures
            r matches Some(codes) ==> codes_of(self@.modifiers, names.deep_view()) == Some(codes@),
            r is None ==> codes_of(self@.modifiers, names.deep_view()) is None,
    {
        let mut out: Vec<u32> = Vec::new();
        let mut i: usize = 0;
        while i < names.len()
            invariant
                i <= names.len(),
                out.len() == i,
                forall|k: int|
                    0 <= k < i ==> (#[trigger] code_of(self@.modifiers, names.deep_view()[k]))
                        == Some(out[k]),
            decreases names.len() - i,
        {
            match self.into_mod(names[i].as_str()) {
                Some(code) => out.push(code),
                None => {
                    assert(code_of(self@.modifiers, names.deep_view()[i as int]) is None);
                    return None;
                },
            }
            i = i + 1;
        }
        assert(codes_of(self@.modifiers, names.deep_view()).unwrap() =~= out@);
        Some(out)
    }
}

} // verus!
