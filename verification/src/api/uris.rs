//! Small rules on the URIs and pages of the providers.
use crate::models::{opt_text, texts};
use crate::reconcile::holds;
use crate::text::{
    chars_of, concat_text, has_prefix, last_index_of, lemma_last_index_of, rfind_char, slice_of,
    starts_with, string_of, trim, trimmed,
};
use vstd::prelude::*;

verus! {

/// The elements of `v`, each once, in the order in which they first appear.
pub open spec fn distinct(v: Seq<Seq<char>>) -> Seq<Seq<char>>
    decreases v.len(),
{
    if v.len() == 0 {
        Seq::empty()
    } else {
        let rest = distinct(v.drop_last());
        if rest.contains(v.last()) {
            rest
        } else {
            rest.push(v.last())
        }
    }
}

/// `distinct` holds what the list holds, and nothing twice.
pub proof fn lemma_distinct(v: Seq<Seq<char>>)
    ensures
        distinct(v).no_duplicates(),
        forall|x: Seq<char>| distinct(v).contains(x) <==> v.contains(x),
    decreases v.len(),
{
    if v.len() > 0 {
        let rest = v.drop_last();
        let l = v.last();
        lemma_distinct(rest);
        let d = distinct(rest);
        assert forall|x: Seq<char>| distinct(v).contains(x) <==> v.contains(x) by {
            if v.contains(x) {
                let i = choose|i: int| 0 <= i < v.len() && v[i] == x;
                if i < rest.len() {
                    assert(rest[i] == x);
                    assert(rest.contains(x));
                }
            }
            if rest.contains(x) {
                let i = choose|i: int| 0 <= i < rest.len() && rest[i] == x;
                assert(v[i] == x);
            }
            if x == l {
                assert(v[v.len() - 1] == x);
            }
            if !d.contains(l) {
                let full = d.push(l);
                if d.contains(x) {
                    let i = choose|i: int| 0 <= i < d.len() && d[i] == x;
                    assert(full[i] == x);
                }
                assert(full[full.len() - 1] == l);
                if full.contains(x) {
                    let i = choose|i: int| 0 <= i < full.len() && full[i] == x;
                    if i < d.len() {
                        assert(d[i] == x);
                    }
                }
            }
        }
        if !d.contains(l) {
            let full = d.push(l);
            assert forall|i: int, j: int| 0 <= i < j < full.len() implies full[i] != full[j] by {
                if j == d.len() {
                    assert(full[i] == d[i]);
                    assert(d.contains(d[i]));
                }
            }
        }
    }
}

/// Gives the elements of `v`, each once, in the order in which they first
/// appear.
pub fn dedupe(v: &Vec<String>) -> (r: Vec<String>)
    ensures
        texts(r@) == distinct(texts(v@)),
{
    let ghost vs = texts(v@);
    let mut r: Vec<String> = Vec::new();
    let mut i: usize = 0;
    assert(vs.take(0) =~= Seq::<Seq<char>>::empty());
    assert(texts(r@) =~= distinct(vs.take(0)));
    while i < v.len()
        invariant
            i <= v.len(),
            vs == texts(v@),
            texts(r@) == distinct(vs.take(i as int)),
        decreases v.len() - i,
    {
        proof {
            assert(vs.take(i + 1).drop_last() =~= vs.take(i as int));
            assert(vs.take(i + 1).last() == v@[i as int]@);
        }
        if !holds(&r, &v[i]) {
            let ghost before = texts(r@);
            r.push(v[i].clone());
            assert(texts(r@) =~= before.push(v@[i as int]@));
        }
        i += 1;
    }
    assert(vs.take(v.len() as int) =~= vs);
    r
}

/// What follows the last `:` of a URI; the URI itself where it holds none.
pub open spec fn after_last_colon(uri: Seq<char>) -> Seq<char> {
    match last_index_of(uri, ':') {
        Some(i) => uri.skip(i + 1),
        None => uri,
    }
}

/// Gives the id of a track from its URI: what follows the last `:`.
pub fn track_id_of(uri: &str) -> (r: String)
    ensures
        r@ == after_last_colon(uri@),
{
    let u = chars_of(uri);
    match rfind_char(&u, ':') {
        Some(i) => {
            proof {
                lemma_last_index_of(u@, ':');
            }
            assert(i + 1 <= u.len());
            string_of(&slice_of(&u, i + 1, u.len()))
        },
        None => String::from_str(uri),
    }
}

/// Gives the id of a track from its URI, without white space around it.
pub fn trimmed_track_id_of(uri: &str) -> (r: String)
    ensures
        r@ == trimmed(after_last_colon(uri@)),
{
    let id = track_id_of(uri);
    string_of(&trim(&chars_of(id.as_str())))
}

/// Gives the URI of the Tidal track with this id.
pub fn tidal_track_uri(id: &str) -> (r: String)
    ensures
        r@ == "tidal:track:"@ + id@,
{
    let mut r = String::from_str("tidal:track:");
    r.append(id);
    r
}

/// The address of the next page: none where the link is empty, the link
/// itself where it begins with `http`, else the link after the base.
pub open spec fn next_page_of(base: Seq<char>, next: Seq<char>) -> Option<Seq<char>> {
    if next.len() == 0 {
        None
    } else if has_prefix(next, "http"@) {
        Some(next)
    } else {
        Some(base + next)
    }
}

/// Gives the address of the next page.
pub fn next_page(base: &str, next: &str) -> (r: Option<String>)
    ensures
        opt_text(r) == next_page_of(base@, next@),
{
    let n = chars_of(next);
    if n.len() == 0 {
        None
    } else if starts_with(&n, &chars_of("http")) {
        Some(String::from_str(next))
    } else {
        Some(string_of(&concat_text(&chars_of(base), &n)))
    }
}

/// The name of the root folder that is configured: the name without white
/// space around it, if that is not empty.
pub open spec fn root_name_of(name: Option<Seq<char>>) -> Option<Seq<char>> {
    match name {
        Some(n) => if trimmed(n).len() > 0 {
            Some(trimmed(n))
        } else {
            None
        },
        None => None,
    }
}

/// Gives the name of the root folder that is configured.
pub fn configured_root(name: &Option<String>) -> (r: Option<String>)
    ensures
        opt_text(r) == root_name_of(opt_text(*name)),
{
    match name {
        Some(n) => {
            let t = trim(&chars_of(n.as_str()));
            if t.len() > 0 {
                Some(string_of(&t))
            } else {
                None
            }
        },
        None => None,
    }
}

} // verus!
