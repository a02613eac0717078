//! Sets of names.
use crate::table::Table;
use vstd::prelude::*;

verus! {

/// A set of strings.
#[derive(Debug, Clone)]
pub struct NameSet {
    members: Table<()>,
}

impl View for NameSet {
    type V = Set<Seq<char>>;

    closed spec fn view(&self) -> Set<Seq<char>> {
        Set::new(|s: Seq<char>| self.members@.contains_key((s, Seq::<char>::empty())))
    }
}

impl NameSet {
    /// The empty set.
    pub fn new() -> (r: NameSet)
        ensures
            r@ == Set::<Seq<char>>::empty(),
    {
        let r = NameSet { members: Table::new() };
        assert(r@ =~= Set::<Seq<char>>::empty());
        r
    }

    /// Whether the set holds `s`.
    pub fn contains(&self, s: &str) -> (r: bool)
        ensures
            r == self@.contains(s@),
    {
        proof {
            reveal_strlit("");
            assert(""@ =~= Seq::<char>::empty());
        }
        self.members.get(s, "").is_some()
    }

    /// Puts `s` into the set.
    pub fn insert(&mut self, s: &str)
        ensures
            final(self)@ == old(self)@.insert(s@),
    {
        self.members.put(String::from_str(s), String::new(), ());
        assert(self@ =~= old(self)@.insert(s@));
    }

    /// Takes `s` out of the set.
    pub fn remove(&mut self, s: &str)
        ensures
            final(self)@ == old(self)@.remove(s@),
    {
        proof {
            reveal_strlit("");
            assert(""@ =~= Seq::<char>::empty());
        }
        self.members.remove(s, "");
        assert(self@ =~= old(self)@.remove(s@));
    }

    /// The members of the set, each once.
    pub fn to_vec(&self) -> (r: Vec<String>)
        ensures
            crate::models::texts(r@).no_duplicates(),
            forall|s: Seq<char>| crate::models::texts(r@).contains(s) <==> self@.contains(s),
    {
        let keys = self.members.keys();
        let ghost kv = crate::table::key_views(keys@);
        let mut r: Vec<String> = Vec::new();
        let mut i: usize = 0;
        proof {
            reveal_strlit("");
            assert(""@ =~= Seq::<char>::empty());
        }
        while i < keys.len()
            invariant
                i <= keys.len(),
                kv == crate::table::key_views(keys@),
                kv.no_duplicates(),
                crate::models::texts(r@).no_duplicates(),
                forall|s: Seq<char>|
                    crate::models::texts(r@).contains(s) <==> exists|j: int|
                        0 <= j < i && #[trigger] kv[j] == (s, Seq::<char>::empty()),
            decreases keys.len() - i,
        {
            let ghost before = crate::models::texts(r@);
            if keys[i].b.as_str().unicode_len() == 0 {
                assert(keys@[i as int].b@ =~= Seq::<char>::empty());
                r.push(keys[i].a.clone());
                proof {
                    let after = crate::models::texts(r@);
                    assert(after =~= before.push(keys@[i as int].a@));
                    let name = keys@[i as int].a@;
                    assert(kv[i as int] == (name, Seq::<char>::empty()));
                    if before.contains(name) {
                        let j = choose|j: int|
                            0 <= j < i && #[trigger] kv[j] == (name, Seq::<char>::empty());
                        assert(kv[j] == kv[i as int]);
                    }
                    assert forall|s: Seq<char>| after.contains(s) <==> exists|j: int|
                        0 <= j < i + 1 && #[trigger] kv[j] == (s, Seq::<char>::empty()) by {
                        if before.contains(s) {
                            let q = choose|q: int| 0 <= q < before.len() && before[q] == s;
                            assert(after[q] == s);
                        }
                        if s == name {
                            assert(after[after.len() - 1] == s);
                        }
                        if after.contains(s) {
                            let q = choose|q: int| 0 <= q < after.len() && after[q] == s;
                            if q < before.len() {
                                assert(before[q] == s);
                            }
                        }
                    }
                }
            } else {
                proof {
                    assert forall|s: Seq<char>| before.contains(s) <==> exists|j: int|
                        0 <= j < i + 1 && #[trigger] kv[j] == (s, Seq::<char>::empty()) by {
                        assert(kv[i as int].1.len() > 0);
                    }
                }
            }
            i += 1;
        }
        proof {
            assert forall|s: Seq<char>| crate::models::texts(r@).contains(s)
                <==> self@.contains(s) by {
                let k = (s, Seq::<char>::empty());
                if kv.contains(k) {
                    let j = choose|j: int| 0 <= j < kv.len() && kv[j] == k;
                    assert(kv[j] == k);
                }
                if exists|j: int| 0 <= j < keys.len() && #[trigger] kv[j] == k {
                    let j = choose|j: int| 0 <= j < keys.len() && #[trigger] kv[j] == k;
                    assert(kv.contains(k));
                }
            }
        }
        r
    }
}

} // verus!
