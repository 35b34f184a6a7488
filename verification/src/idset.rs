//! Lists of distinct names kept in order of first appearance (the role a
//! set of identifiers plays for the importers).
use vstd::prelude::*;

use crate::text::{same, views};

verus! {

/// `used` with `x` appended unless already listed.
pub open spec fn add_once(used: Seq<Seq<char>>, x: Seq<char>) -> Seq<Seq<char>> {
    if used.contains(x) {
        used
    } else {
        used.push(x)
    }
}

pub proof fn lemma_add_once(used: Seq<Seq<char>>, x: Seq<char>)
    requires
        used.no_duplicates(),
    ensures
        add_once(used, x).no_duplicates(),
        forall|y: Seq<char>| #[trigger] add_once(used, x).contains(y) <==> (used.contains(y) || y == x),
{
    let r = add_once(used, x);
    if !used.contains(x) {
        assert forall|i: int, j: int| 0 <= i < j < r.len() implies r[i] != r[j] by {
            if j == used.len() {
                assert(used.contains(used[i]));
            }
        }
        assert forall|y: Seq<char>| #[trigger] r.contains(y) <==> (used.contains(y) || y == x) by {
            if r.contains(y) {
                let k = choose|k: int| 0 <= k < r.len() && r[k] == y;
                if k < used.len() {
                    assert(used[k] == y);
                }
            }
            if used.contains(y) {
                let k = choose|k: int| 0 <= k < used.len() && used[k] == y;
                assert(r[k] == y);
            }
            if y == x {
                assert(r[used.len() as int] == x);
            }
        }
    }
}

/// Appends `id` unless it is already listed.
pub fn push_unique(used: &mut Vec<String>, id: &String)
    ensures
        views(final(used)@) == add_once(views(old(used)@), id@),
{
    let mut i: usize = 0;
    while i < used.len()
        invariant
            i <= used.len(),
            used@ == old(used)@,
            forall|j: int| 0 <= j < i ==> used@[j]@ != id@,
        decreases used.len() - i,
    {
        if same(used[i].as_str(), id.as_str()) {
            assert(views(used@)[i as int] == id@);
            return;
        }
        i = i + 1;
    }
    proof {
        if views(used@).contains(id@) {
            let k = choose|k: int|
                0 <= k < views(used@).len() && views(used@)[k] == id@;
            assert(used@[k]@ == id@);
        }
    }
    used.push(id.clone());
    assert(views(used@) =~= views(old(used)@).push(id@));
}

} // verus!
