//! Matching texts against regular expressions.
use vstd::prelude::*;

verus! {

/// What `regex::Regex::new` and `Regex::is_match` give for a pattern and a
/// text: `None` where the pattern is not a regular expression that the crate
/// accepts, else whether the pattern matches somewhere in the text.
pub uninterp spec fn regex_matches(pattern: Seq<char>, text: Seq<char>) -> Option<bool>;

/// Compiles `pattern` with `regex::Regex::new` and tests `text` with
/// `Regex::is_match`. The contract names the result and claims that it
/// depends on the two texts alone; nothing more is claimed of it.
#[verifier::external_body]
pub(crate) fn pattern_matches(pattern: &str, text: &str) -> (r: Option<bool>)
    ensures
        r == regex_matches(pattern@, text@),
{
    match regex::Regex::new(pattern) {
        Ok(re) => Some(re.is_match(text)),
        Err(_) => None,
    }
}

/// A remote playlist: its id and its name.
#[derive(Debug, Clone, PartialEq, Eq)]
pub struct Named {
    pub id: String,
    pub name: String,
}

/// Playlists as contracts see them: id, then name.
pub open spec fn named_views(v: Seq<Named>) -> Seq<(Seq<char>, Seq<char>)> {
    v.map_values(|n: Named| (n.id@, n.name@))
}

/// The playlists whose result is a match, in order.
pub open spec fn picked(
    playlists: Seq<(Seq<char>, Seq<char>)>,
    results: Seq<Option<bool>>,
) -> Seq<(Seq<char>, Seq<char>)>
    decreases playlists.len(),
{
    if playlists.len() == 0 || results.len() < playlists.len() {
        Seq::empty()
    } else {
        let rest = picked(playlists.drop_last(), results.take(playlists.len() - 1));
        if results[playlists.len() - 1] == Some(true) {
            rest.push(playlists.last())
        } else {
            rest
        }
    }
}

/// Gives the playlists whose result is a match. The results are those of
/// matching each name, in order; where there are fewer results than
/// playlists, none is picked.
pub fn pick_matching(playlists: &Vec<Named>, results: &Vec<Option<bool>>) -> (r: Vec<Named>)
    ensures
        named_views(r@) == picked(named_views(playlists@), results@),
{
    let mut r: Vec<Named> = Vec::new();
    let ghost ps = named_views(playlists@);
    if results.len() < playlists.len() || playlists.len() == 0 {
        assert(named_views(r@) =~= Seq::<(Seq<char>, Seq<char>)>::empty());
        return r;
    }
    let mut i: usize = 0;
    assert(named_views(r@) =~= picked(ps.take(0), results@.take(0)));
    while i < playlists.len()
        invariant
            i <= playlists.len(),
            playlists.len() <= results.len(),
            ps == named_views(playlists@),
            named_views(r@) == picked(ps.take(i as int), results@.take(i as int)),
        decreases playlists.len() - i,
    {
        proof {
            let t = ps.take(i + 1);
            assert(t.drop_last() =~= ps.take(i as int));
            assert(t.last() == (playlists@[i as int].id@, playlists@[i as int].name@));
            assert(results@.take(i + 1).take(i as int) =~= results@.take(i as int));
            assert(results@.take(i + 1)[i as int] == results@[i as int]);
        }
        match results[i] {
            Some(true) => {
                let ghost before = named_views(r@);
                r.push(Named { id: playlists[i].id.clone(), name: playlists[i].name.clone() });
                assert(named_views(r@) =~= before.push(ps[i as int]));
            },
            _ => {},
        }
        i += 1;
    }
    proof {
        assert(ps.take(playlists.len() as int) =~= ps);
        lemma_picked_ignores_more(ps, results@, playlists.len() as int);
    }
    r
}

proof fn lemma_picked_ignores_more(
    playlists: Seq<(Seq<char>, Seq<char>)>,
    results: Seq<Option<bool>>,
    n: int,
)
    requires
        playlists.len() <= n <= results.len(),
    ensures
        picked(playlists, results.take(n)) == picked(playlists, results),
    decreases playlists.len(),
{
    if playlists.len() > 0 {
        let k = playlists.len() - 1;
        assert(results.take(n).take(k) =~= results.take(k));
        lemma_picked_ignores_more(playlists.drop_last(), results.take(k), k);
    }
}

/// The results of matching each name against the pattern.
pub open spec fn name_results(pattern: Seq<char>, playlists: Seq<(Seq<char>, Seq<char>)>) -> Seq<
    Option<bool>,
> {
    Seq::new(playlists.len(), |i: int| regex_matches(pattern, playlists[i].1))
}

/// Gives the playlists whose name the pattern matches, in order; `None` where
/// the pattern is not a regular expression.
pub fn select_by_name(playlists: &Vec<Named>, name_regex: &str) -> (r: Option<Vec<Named>>)
    ensures
        match r {
            Some(v) => regex_matches(name_regex@, Seq::empty()) is Some && named_views(v@)
                == picked(
                named_views(playlists@),
                name_results(name_regex@, named_views(playlists@)),
            ),
            None => regex_matches(name_regex@, Seq::empty()) is None,
        },
{
    proof {
        reveal_strlit("");
        assert(""@ =~= Seq::<char>::empty());
    }
    if pattern_matches(name_regex, "").is_none() {
        return None;
    }
    let mut results: Vec<Option<bool>> = Vec::new();
    let mut i: usize = 0;
    while i < playlists.len()
        invariant
            i <= playlists.len(),
            results@.len() == i,
            forall|j: int|
                0 <= j < i ==> #[trigger] results@[j] == regex_matches(
                    name_regex@,
                    playlists@[j].name@,
                ),
        decreases playlists.len() - i,
    {
        results.push(pattern_matches(name_regex, playlists[i].name.as_str()));
        i += 1;
    }
    assert(results@ =~= name_results(name_regex@, named_views(playlists@)));
    Some(pick_matching(playlists, &results))
}

} // verus!
