//! The scope filter: SQL `LIKE`-style pattern matching over
//! schema-qualified table names, and the includes/exclude visibility rule.

use vstd::prelude::*;

verus! {

/// Whether pattern `p` matches the whole of `s`.
///
/// `%` matches any run of characters (possibly empty), `_` matches any
/// single character, and every other character matches itself,
/// case-sensitively.
pub open spec fn like_matches(p: Seq<char>, s: Seq<char>) -> bool
    decreases p.len(), s.len(),
{
    if p.len() == 0 {
        s.len() == 0
    } else if p[0] == '%' {
        like_matches(p.skip(1), s) || (s.len() > 0 && like_matches(p, s.skip(1)))
    } else if p[0] == '_' {
        s.len() > 0 && like_matches(p.skip(1), s.skip(1))
    } else {
        s.len() > 0 && s[0] == p[0] && like_matches(p.skip(1), s.skip(1))
    }
}

/// Whether a qualified name is visible under the given pattern lists:
/// it matches at least one includes pattern and no exclude pattern.
/// An empty includes list therefore makes nothing visible.
pub open spec fn scope_matches(q: Seq<char>, includes: Seq<Seq<char>>, exclude: Seq<Seq<char>>) -> bool {
    (exists|i: int| 0 <= i < includes.len() && like_matches(includes[i], q)) && (forall|j: int|
        0 <= j < exclude.len() ==> !like_matches(exclude[j], q))
}

/// Matches the suffixes of `p` and `s` that start at character positions
/// `pi` and `si`.
fn like_match_at(p: &str, s: &str, pi: usize, si: usize) -> (r: bool)
    requires
        pi <= p@.len(),
        si <= s@.len(),
    ensures
        r == like_matches(p@.skip(pi as int), s@.skip(si as int)),
    decreases p@.len() - pi, s@.len() - si,
{
    let p_len = p.unicode_len();
    let s_len = s.unicode_len();
    if pi == p_len {
        si == s_len
    } else {
        let pc = p.get_char(pi);
        proof {
            assert(p@.skip(pi as int)[0] == p@[pi as int]);
        }
        if pc == '%' {
            proof {
                assert(p@.skip(pi as int).skip(1) =~= p@.skip(pi as int + 1));
            }
            if like_match_at(p, s, pi + 1, si) {
                true
            } else if si < s_len {
                proof {
                    assert(s@.skip(si as int).skip(1) =~= s@.skip(si as int + 1));
                }
                like_match_at(p, s, pi, si + 1)
            } else {
                false
            }
        } else if si == s_len {
            false
        } else {
            let sc = s.get_char(si);
            proof {
                assert(s@.skip(si as int)[0] == s@[si as int]);
                assert(p@.skip(pi as int).skip(1) =~= p@.skip(pi as int + 1));
                assert(s@.skip(si as int).skip(1) =~= s@.skip(si as int + 1));
            }
            if pc == '_' {
                like_match_at(p, s, pi + 1, si + 1)
            } else {
                sc == pc && like_match_at(p, s, pi + 1, si + 1)
            }
        }
    }
}

/// Whether `pattern` matches the whole of `name`, `LIKE`-style.
pub fn like_match(pattern: &str, name: &str) -> (r: bool)
    ensures
        r == like_matches(pattern@, name@),
{
    proof {
        assert(pattern@.skip(0) =~= pattern@);
        assert(name@.skip(0) =~= name@);
    }
    like_match_at(pattern, name, 0, 0)
}

/// Whether the qualified name `q` is visible under the scope's includes
/// and exclude pattern lists. Exclusion always wins over inclusion.
pub fn matches(q: &str, includes: &Vec<String>, exclude: &Vec<String>) -> (r: bool)
    ensures
        r == scope_matches(q@, includes.deep_view(), exclude.deep_view()),
{
    let mut excluded = false;
    let mut j: usize = 0;
    while j < exclude.len()
        invariant
            j <= exclude.len(),
            excluded == (exists|k: int| 0 <= k < j && like_matches(exclude.deep_view()[k], q@)),
        decreases exclude.len() - j,
    {
        proof {
            assert(exclude.deep_view()[j as int] == exclude@[j as int]@);
        }
        if like_match(exclude[j].as_str(), q) {
            excluded = true;
        }
        j += 1;
    }
    if excluded {
        return false;
    }
    let mut i: usize = 0;
    while i < includes.len()
        invariant
            i <= includes.len(),
            forall|k: int| 0 <= k < i ==> !like_matches(includes.deep_view()[k], q@),
            !(exists|k: int| 0 <= k < exclude.deep_view().len() && like_matches(
                exclude.deep_view()[k],
                q@,
            )),
        decreases includes.len() - i,
    {
        proof {
            assert(includes.deep_view()[i as int] == includes@[i as int]@);
        }
        if like_match(includes[i].as_str(), q) {
            return true;
        }
        i += 1;
    }
    false
}

/// Joins a schema name and a table name into the schema-qualified form
/// `schema.table` that the scope filter is applied to.
pub fn qualified_name(schema: &str, table: &str) -> (r: String)
    ensures
        r@ == schema@ + "."@ + table@,
{
    let mut out = schema.to_owned();
    out.append(".");
    out.append(table);
    out
}

} // verus!
