//! Comment directives that disable rules for one file
//! (`# lint-disable: rule-a, rule-b`).
use vstd::prelude::*;
use crate::assoc::StringSet;
use crate::text::{split_by_char, split_char, trim, trim_str, views};

verus! {

/// Whether `regex::Regex::new` accepts a pattern.
pub uninterp spec fn regex_accepts(pattern: Seq<char>) -> bool;

/// For each successive non-overlapping match of `pattern` in `text` (as
/// `Regex::captures_iter` yields them), the text of capture group 1 when it
/// took part in the match.
pub uninterp spec fn regex_group1(pattern: Seq<char>, text: Seq<char>) -> Seq<Option<Seq<char>>>;

pub open spec fn opt_views(v: Seq<Option<String>>) -> Seq<Option<Seq<char>>> {
    v.map_values(|o: Option<String>| match o {
        Some(s) => Some(s@),
        None => None,
    })
}

/// `Regex::new(pattern)` (its error dropped), then `Regex::captures_iter` on
/// `text`, each match taken to the text of its group 1.
#[verifier::external_body]
fn regex_group1_matches(pattern: &str, text: &str) -> (r: Option<Vec<Option<String>>>)
    ensures
        r is Some == regex_accepts(pattern@),
        r matches Some(v) ==> opt_views(v@) == regex_group1(pattern@, text@),
{
    regex::Regex::new(pattern)
        .ok()
        .map(|re| re.captures_iter(text).map(|caps| caps.get(1).map(|m| m.as_str().to_string())).collect())
}

/// `# lint-disable: rules` and `# lint-disable-file: rules`.
pub const DIRECTIVE_WITH_COLON: &'static str = "(?i)#[ \\t]*lint-disable(?:-file)?:[ \\t]*([\\w ,-]+)";

/// `# lint-disable rules` and `# lint-disable-file rules`.
pub const DIRECTIVE_WITH_SPACE: &'static str = "(?i)#[ \\t]*lint-disable(?:-file)?[ \\t]+([\\w ,-]+)";

/// The rule IDs a comma-separated list names: pieces trimmed, empty ones dropped.
pub open spec fn listed_rules(pieces: Seq<Seq<char>>) -> Set<Seq<char>>
    decreases pieces.len(),
{
    if pieces.len() == 0 {
        Set::empty()
    } else {
        let t = trim(pieces.last());
        if t.len() > 0 {
            listed_rules(pieces.drop_last()).insert(t)
        } else {
            listed_rules(pieces.drop_last())
        }
    }
}

/// The rule IDs named by a sequence of captured lists.
pub open spec fn captured_rules(caps: Seq<Option<Seq<char>>>) -> Set<Seq<char>>
    decreases caps.len(),
{
    if caps.len() == 0 {
        Set::empty()
    } else {
        match caps.last() {
            Some(c) => captured_rules(caps.drop_last()).union(listed_rules(split_char(c, ','))),
            None => captured_rules(caps.drop_last()),
        }
    }
}

/// Rules one directive pattern disables in a text.
pub open spec fn pattern_rules(pattern: Seq<char>, text: Seq<char>) -> Set<Seq<char>> {
    if regex_accepts(pattern) {
        captured_rules(regex_group1(pattern, text))
    } else {
        Set::empty()
    }
}

/// All rules the directives of a text disable.
pub open spec fn directive_rules(text: Seq<char>) -> Set<Seq<char>> {
    pattern_rules(DIRECTIVE_WITH_COLON@, text).union(pattern_rules(DIRECTIVE_WITH_SPACE@, text))
}

fn add_listed(list: &str, set: &mut StringSet)
    ensures
        final(set)@ == old(set)@.union(listed_rules(split_char(list@, ','))),
{
    let pieces = split_by_char(list, ',');
    let ghost ps = views(pieces@);
    let ghost start = set@;
    let mut i: usize = 0;
    assert(ps.take(0) =~= Seq::<Seq<char>>::empty());
    assert(start.union(listed_rules(ps.take(0))) =~= start);
    while i < pieces.len()
        invariant
            i <= pieces@.len(),
            ps == views(pieces@),
            set@ == start.union(listed_rules(ps.take(i as int))),
        decreases pieces.len() - i,
    {
        assert(ps.take(i + 1).drop_last() =~= ps.take(i as int));
        assert(ps.take(i + 1).last() == pieces@[i as int]@);
        let t = trim_str(pieces[i].as_str());
        let tc = crate::text::chars_of(t.as_str());
        if tc.len() > 0 {
            let ghost tv = t@;
            set.insert(t);
            assert(set@ =~= start.union(listed_rules(ps.take(i + 1))));
        }
        i += 1;
    }
    assert(ps.take(ps.len() as int) =~= ps);
}

fn add_captured(caps: &Vec<Option<String>>, set: &mut StringSet)
    ensures
        final(set)@ == old(set)@.union(captured_rules(opt_views(caps@))),
{
    let ghost start = set@;
    let ghost cs = opt_views(caps@);
    let mut i: usize = 0;
    assert(cs.take(0) =~= Seq::<Option<Seq<char>>>::empty());
    assert(start.union(captured_rules(cs.take(0))) =~= start);
    while i < caps.len()
        invariant
            i <= caps@.len(),
            cs == opt_views(caps@),
            set@ == start.union(captured_rules(cs.take(i as int))),
        decreases caps.len() - i,
    {
        assert(cs.take(i + 1).drop_last() =~= cs.take(i as int));
        match &caps[i] {
            Some(list) => {
                assert(cs.take(i + 1).last() == Some(list@));
                add_listed(list.as_str(), set);
                assert(set@ =~= start.union(captured_rules(cs.take(i + 1))));
            },
            None => {
                assert(cs.take(i + 1).last() == None::<Seq<char>>);
            },
        }
        i += 1;
    }
    assert(cs.take(cs.len() as int) =~= cs);
}

/// The rule IDs named by the group-1 captures of the directive matches in a
/// text (`None` for a match whose group took no part): each capture split at
/// commas, pieces trimmed, empty pieces dropped.
pub fn rules_in_captures(caps: &Vec<Option<String>>) -> (r: StringSet)
    ensures
        r@ == captured_rules(opt_views(caps@)),
{
    let mut set = StringSet::new();
    add_captured(caps, &mut set);
    assert(set@ =~= captured_rules(opt_views(caps@)));
    set
}

fn add_pattern(pattern: &str, text: &str, set: &mut StringSet)
    ensures
        final(set)@ == old(set)@.union(pattern_rules(pattern@, text@)),
{
    let ghost start = set@;
    match regex_group1_matches(pattern, text) {
        None => {
            assert(start.union(Set::<Seq<char>>::empty()) =~= start);
        },
        Some(caps) => {
            add_captured(&caps, set);
        },
    }
}

/// The rule IDs that comment directives in a text disable.
pub fn parse_lint_directives(text: &str) -> (r: StringSet)
    ensures
        r@ == directive_rules(text@),
{
    let mut disabled = StringSet::new();
    add_pattern(DIRECTIVE_WITH_COLON, text, &mut disabled);
    add_pattern(DIRECTIVE_WITH_SPACE, text, &mut disabled);
    assert(disabled@ =~= directive_rules(text@));
    disabled
}

} // verus!
