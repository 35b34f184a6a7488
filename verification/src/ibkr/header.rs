//! Section headers of an activity statement: each section announces its
//! column names in a `Header` row; `Data` rows are read through the most
//! recent header of their section.
use vstd::prelude::*;

use crate::text::{owned, same, trim, trim_spec};

verus! {

/// Column lookup of one section: `keys[i]` is the trimmed name of column `i`.
pub struct SectionHeader {
    pub keys: Vec<String>,
}

pub open spec fn key_views(keys: Seq<String>) -> Seq<Seq<char>> {
    keys.map_values(|k: String| k@)
}

/// Last column before `n` whose trimmed name is `name` (a non-empty name):
/// later columns with the same name shadow earlier ones.
pub open spec fn key_pos(keys: Seq<Seq<char>>, name: Seq<char>, n: int) -> Option<int>
    decreases n,
{
    if n <= 0 {
        None
    } else if keys[n - 1] == name && name.len() > 0 {
        Some(n - 1)
    } else {
        key_pos(keys, name, n - 1)
    }
}

pub open spec fn column_of(keys: Seq<Seq<char>>, name: Seq<char>) -> Option<int> {
    key_pos(keys, name, keys.len() as int)
}

/// The cell of `row` under column `name`, if the column exists and the row
/// is long enough.
pub open spec fn cell_spec(keys: Seq<Seq<char>>, row: Seq<Seq<char>>, name: Seq<char>) -> Option<
    Seq<char>,
> {
    match column_of(keys, name) {
        Some(i) => if i < row.len() {
            Some(row[i])
        } else {
            None
        },
        None => None,
    }
}

/// `header.get(row, name).unwrap_or("").trim()`.
pub open spec fn field_spec(keys: Seq<Seq<char>>, row: Seq<Seq<char>>, name: Seq<char>) -> Seq<
    char,
> {
    match cell_spec(keys, row, name) {
        Some(c) => trim_spec(c),
        None => trim_spec(Seq::empty()),
    }
}

pub open spec fn row_views(row: Seq<String>) -> Seq<Seq<char>> {
    row.map_values(|c: String| c@)
}

proof fn lemma_key_pos_bounds(keys: Seq<Seq<char>>, name: Seq<char>, n: int)
    requires
        n <= keys.len(),
    ensures
        key_pos(keys, name, n) matches Some(i) ==> 0 <= i < n,
    decreases n,
{
    if n > 0 {
        lemma_key_pos_bounds(keys, name, n - 1);
    }
}

impl SectionHeader {
    pub open spec fn keys_view(&self) -> Seq<Seq<char>> {
        key_views(self.keys@)
    }

    /// Header from the column names of a `Header` row; names are trimmed.
    pub fn new(cols: Vec<String>) -> (h: SectionHeader)
        ensures
            h.keys@.len() == cols@.len(),
            forall|i: int| 0 <= i < cols@.len() ==> #[trigger] h.keys@[i]@ == trim_spec(cols@[i]@),
    {
        let mut keys: Vec<String> = Vec::new();
        let mut i: usize = 0;
        while i < cols.len()
            invariant
                i <= cols.len(),
                keys@.len() == i,
                forall|j: int| 0 <= j < i ==> #[trigger] keys@[j]@ == trim_spec(cols@[j]@),
            decreases cols.len() - i,
        {
            keys.push(trim(cols[i].as_str()));
            i = i + 1;
        }
        SectionHeader { keys }
    }

    /// Index of the column called `name`.
    pub fn index_of(&self, name: &str) -> (r: Option<usize>)
        ensures
            match r {
                Some(i) => column_of(self.keys_view(), name@) == Some(i as int),
                None => column_of(self.keys_view(), name@) == None::<int>,
            },
    {
        let mut n: usize = self.keys.len();
        let nonempty = !name.is_empty();
        while n > 0
            invariant
                n <= self.keys.len(),
                nonempty == (name@.len() > 0),
                column_of(self.keys_view(), name@) == key_pos(self.keys_view(), name@, n as int),
            decreases n,
        {
            if nonempty && same(self.keys[n - 1].as_str(), name) {
                return Some(n - 1);
            }
            n = n - 1;
        }
        None
    }

    /// The cell of `row` under column `col`.
    pub fn get(&self, row: &Vec<String>, col: &str) -> (r: Option<String>)
        ensures
            match r {
                Some(c) => cell_spec(self.keys_view(), row_views(row@), col@) == Some(c@),
                None => cell_spec(self.keys_view(), row_views(row@), col@) == None::<Seq<char>>,
            },
    {
        proof {
            lemma_key_pos_bounds(self.keys_view(), col@, self.keys@.len() as int);
        }
        match self.index_of(col) {
            Some(i) => if i < row.len() {
                Some(row[i].clone())
            } else {
                None
            },
            None => None,
        }
    }

    /// `self.get(row, col).unwrap_or("").trim()`.
    pub fn field(&self, row: &Vec<String>, col: &str) -> (out: String)
        ensures
            out@ == field_spec(self.keys_view(), row_views(row@), col@),
    {
        match self.get(row, col) {
            Some(c) => trim(c.as_str()),
            None => {
                proof {
                    reveal_strlit("");
                }
                trim("")
            },
        }
    }
}

/// The headers seen so far, in order of appearance; a later header of a
/// section replaces an earlier one.
pub struct HeaderRegistry {
    pub entries: Vec<(String, SectionHeader)>,
}

pub open spec fn entry_views(e: Seq<(String, SectionHeader)>) -> Seq<(Seq<char>, Seq<Seq<char>>)> {
    e.map_values(|p: (String, SectionHeader)| (p.0@, p.1.keys_view()))
}

/// The most recent header of `section` among the first `n` entries.
pub open spec fn lookup_from(e: Seq<(Seq<char>, Seq<Seq<char>>)>, section: Seq<char>, n: int) -> Option<
    Seq<Seq<char>>,
>
    decreases n,
{
    if n <= 0 {
        None
    } else if e[n - 1].0 == section {
        Some(e[n - 1].1)
    } else {
        lookup_from(e, section, n - 1)
    }
}

pub open spec fn lookup_spec(e: Seq<(Seq<char>, Seq<Seq<char>>)>, section: Seq<char>) -> Option<
    Seq<Seq<char>>,
> {
    lookup_from(e, section, e.len() as int)
}

impl HeaderRegistry {
    pub open spec fn view_entries(&self) -> Seq<(Seq<char>, Seq<Seq<char>>)> {
        entry_views(self.entries@)
    }

    pub fn new() -> (r: HeaderRegistry)
        ensures
            r.view_entries() == Seq::<(Seq<char>, Seq<Seq<char>>)>::empty(),
    {
        let r = HeaderRegistry { entries: Vec::new() };
        assert(r.view_entries() =~= Seq::<(Seq<char>, Seq<Seq<char>>)>::empty());
        r
    }

    /// Records the header of `section`.
    pub fn insert(&mut self, section: &str, header: SectionHeader)
        ensures
            final(self).view_entries() == old(self).view_entries().push(
                (section@, header.keys_view()),
            ),
    {
        self.entries.push((owned(section), header));
        assert(final(self).view_entries() =~= old(self).view_entries().push(
            (section@, header.keys_view()),
        ));
    }

    /// Position of the most recent header of `section`.
    pub fn find(&self, section: &str) -> (r: Option<usize>)
        ensures
            match r {
                Some(i) => i < self.entries.len() && lookup_spec(self.view_entries(), section@)
                    == Some(self.entries@[i as int].1.keys_view()),
                None => lookup_spec(self.view_entries(), section@) == None::<Seq<Seq<char>>>,
            },
    {
        let mut n: usize = self.entries.len();
        while n > 0
            invariant
                n <= self.entries.len(),
                lookup_spec(self.view_entries(), section@) == lookup_from(
                    self.view_entries(),
                    section@,
                    n as int,
                ),
            decreases n,
        {
            if same(self.entries[n - 1].0.as_str(), section) {
                return Some(n - 1);
            }
            n = n - 1;
        }
        None
    }
}

} // verus!
