//! The redirect specification parser: newline-delimited text in the shape
//! `<alias><single space><absolute url>` becomes a map from alias to target
//! URL. Empty lines and lines whose first character is `#` are skipped, a
//! line without exactly two space-delimited tokens is skipped, and so is one
//! whose second token is not a valid absolute URL. A later line wins over an
//! earlier one with the same alias. Parsing is total: malformed input
//! degrades to partial output, never to an error.

use vstd::prelude::*;
use vstd::string::*;
use crate::strmap::StrMap;

verus! {

/// The map from alias to target URL that a redirect specification defines.
pub type Redirects = StrMap<String>;

/// Whether `url::Url::parse` accepts the text as an absolute URL. The
/// result depends on the characters alone.
pub uninterp spec fn url_ok(s: Seq<char>) -> bool;

/// Relies on url::Url::parse, a pure parser of its input string with no base
/// URL and no overrides: it returns `Ok` exactly when the text is a
/// syntactically well-formed absolute URL.
#[verifier::external_body]
fn is_valid_url(s: &str) -> (r: bool)
    ensures
        r == url_ok(s@),
{
    url::Url::parse(s).is_ok()
}

/// How many times a character occurs in a sequence.
pub open spec fn count_char(s: Seq<char>, c: char) -> nat
    decreases s.len(),
{
    if s.len() == 0 {
        0
    } else {
        count_char(s.drop_last(), c) + (if s.last() == c {
            1nat
        } else {
            0nat
        })
    }
}

/// The index of the first occurrence of a character, or -1 if absent.
pub open spec fn find_char(s: Seq<char>, c: char) -> int
    decreases s.len(),
{
    if s.len() == 0 {
        -1
    } else {
        let r = find_char(s.drop_last(), c);
        if r >= 0 {
            r
        } else if s.last() == c {
            s.len() - 1
        } else {
            -1
        }
    }
}

/// The segments of a sequence split on a separator character. Splitting
/// never drops anything: an empty input gives one empty segment, and a
/// trailing separator gives a trailing empty segment.
pub open spec fn split_on(s: Seq<char>, c: char) -> Seq<Seq<char>>
    decreases s.len(),
{
    if s.len() == 0 {
        seq![Seq::<char>::empty()]
    } else if s.last() == c {
        split_on(s.drop_last(), c).push(Seq::<char>::empty())
    } else {
        let r = split_on(s.drop_last(), c);
        r.update(r.len() - 1, r.last().push(s.last()))
    }
}

/// There is always at least one segment.
pub proof fn lemma_split_on_len(s: Seq<char>, c: char)
    ensures
        split_on(s, c).len() >= 1,
    decreases s.len(),
{
    if s.len() > 0 {
        lemma_split_on_len(s.drop_last(), c);
    }
}

/// Split a string into its lines: the segments around `\n` characters.
#[verifier::loop_isolation(false)]
pub fn split_lines(s: &str) -> (r: Vec<String>)
    ensures
        r@.map_values(|l: String| l@) == split_on(s@, '\n'),
{
    let n = s.unicode_len();
    let mut out: Vec<String> = Vec::new();
    let mut start: usize = 0;
    let mut i: usize = 0;
    while i < n
        invariant
            start <= i <= n,
            out@.map_values(|l: String| l@).push(s@.subrange(start as int, i as int))
                =~~= split_on(s@.take(i as int), '\n'),
        decreases n - i,
    {
        let ghost prev = out@.map_values(|l: String| l@);
        let ghost r = split_on(s@.take(i as int), '\n');
        proof {
            assert(s@.take(i + 1).drop_last() =~= s@.take(i as int));
            assert(s@.take(i + 1).last() == s@[i as int]);
            lemma_split_on_len(s@.take(i as int), '\n');
        }
        if s.get_char(i) == '\n' {
            let piece = s.substring_char(start, i).to_owned();
            out.push(piece);
            proof {
                assert(out@.map_values(|l: String| l@) =~~= prev.push(
                    s@.subrange(start as int, i as int),
                ));
                assert(split_on(s@.take(i + 1), '\n') == r.push(Seq::<char>::empty()));
                assert(out@.map_values(|l: String| l@).push(s@.subrange(i + 1, i + 1)) =~~= r.push(
                    Seq::<char>::empty(),
                ));
            }
            start = i + 1;
        } else {
            proof {
                assert(split_on(s@.take(i + 1), '\n') == r.update(
                    r.len() - 1,
                    r.last().push(s@[i as int]),
                ));
                assert(s@.subrange(start as int, i + 1) =~= s@.subrange(start as int, i as int)
                    .push(s@[i as int]));
                assert(prev.push(s@.subrange(start as int, i + 1)) =~~= r.update(
                    r.len() - 1,
                    r.last().push(s@[i as int]),
                ));
            }
        }
        i += 1;
    }
    proof {
        assert(s@.take(n as int) =~= s@);
    }
    let last_piece = s.substring_char(start, n).to_owned();
    out.push(last_piece);
    proof {
        assert(out@.map_values(|l: String| l@) =~~= split_on(s@, '\n'));
    }
    out
}

/// The entry a single line contributes, if any: `None` for an empty line, a
/// comment, a line without exactly one space, or a line whose second token
/// is not a valid URL; otherwise the (alias, url) pair around the space.
pub open spec fn entry_of_line(l: Seq<char>) -> Option<(Seq<char>, Seq<char>)> {
    if l.len() == 0 || l[0] == '#' {
        None
    } else if count_char(l, ' ') != 1 {
        None
    } else {
        let p = find_char(l, ' ');
        let alias = l.subrange(0, p);
        let url = l.subrange(p + 1, l.len() as int);
        if url_ok(url) {
            Some((alias, url))
        } else {
            None
        }
    }
}

/// Parse one line, returning the entry it contributes, if any.
#[verifier::loop_isolation(false)]
pub fn parse_line(l: &str) -> (r: Option<(String, String)>)
    ensures
        match r {
            Some(e) => entry_of_line(l@) == Some((e.0@, e.1@)),
            None => entry_of_line(l@) is None,
        },
{
    let n = l.unicode_len();
    if n == 0 {
        return None;
    }
    if l.get_char(0) == '#' {
        return None;
    }
    let mut i: usize = 0;
    let mut cnt: usize = 0;
    let mut first: usize = 0;
    while i < n
        invariant
            i <= n,
            cnt <= i,
            cnt == count_char(l@.take(i as int), ' '),
            cnt > 0 ==> first < i && find_char(l@.take(i as int), ' ') == first,
            cnt == 0 ==> find_char(l@.take(i as int), ' ') == -1,
        decreases n - i,
    {
        proof {
            assert(l@.take(i + 1).drop_last() =~= l@.take(i as int));
            assert(l@.take(i + 1).last() == l@[i as int]);
        }
        if l.get_char(i) == ' ' {
            if cnt == 0 {
                first = i;
            }
            cnt = cnt + 1;
        }
        i += 1;
    }
    proof {
        assert(l@.take(n as int) =~= l@);
    }
    if cnt != 1 {
        return None;
    }
    let alias = l.substring_char(0, first).to_owned();
    let url = l.substring_char(first + 1, n).to_owned();
    if is_valid_url(url.as_str()) {
        Some((alias, url))
    } else {
        None
    }
}

/// The map defined by a sequence of lines: entries in order, a later entry
/// overwriting an earlier one with the same alias.
pub open spec fn parse_lines(ls: Seq<Seq<char>>) -> Map<Seq<char>, Seq<char>>
    decreases ls.len(),
{
    if ls.len() == 0 {
        Map::empty()
    } else {
        let m = parse_lines(ls.drop_last());
        match entry_of_line(ls.last()) {
            Some(e) => m.insert(e.0, e.1),
            None => m,
        }
    }
}

/// The map a whole redirect specification text defines.
pub open spec fn parse_spec(s: Seq<char>) -> Map<Seq<char>, Seq<char>> {
    parse_lines(split_on(s, '\n'))
}

/// Parse the contents of a redirects file, returning the map from redirect
/// aliases to URLs.
#[verifier::loop_isolation(false)]
pub fn parse_redirects(contents: &str) -> (r: Redirects)
    ensures
        r@ == parse_spec(contents@),
        r.wf(),
{
    let lines = split_lines(contents);
    let ghost ls = lines@.map_values(|l: String| l@);
    let mut map: StrMap<String> = StrMap::new();
    let mut i: usize = 0;
    while i < lines.len()
        invariant
            i <= lines.len(),
            map@ == parse_lines(ls.take(i as int)),
            map.wf(),
        decreases lines.len() - i,
    {
        proof {
            assert(ls.take(i + 1).drop_last() =~= ls.take(i as int));
            assert(ls.take(i + 1).last() == ls[i as int]);
            assert(ls[i as int] == lines@[i as int]@);
        }
        match parse_line(lines[i].as_str()) {
            Some(e) => {
                map.insert(e.0, e.1);
            },
            None => {},
        }
        i += 1;
    }
    proof {
        assert(ls.take(lines@.len() as int) =~= ls);
    }
    map
}

/// Whether a line contributes an entry for the alias `k`.
pub open spec fn line_defines(l: Seq<char>, k: Seq<char>) -> bool {
    match entry_of_line(l) {
        Some(e) => e.0 == k,
        None => false,
    }
}

/// Among well-formed lines, the last occurrence of an alias wins: if line
/// `i` defines alias `k` and no later line defines it, the parsed map binds
/// `k` to exactly the URL of line `i`.
pub proof fn lemma_last_occurrence_wins(ls: Seq<Seq<char>>, i: int, k: Seq<char>, u: Seq<char>)
    requires
        0 <= i < ls.len(),
        entry_of_line(ls[i]) == Some((k, u)),
        forall|j: int| i < j < ls.len() ==> !line_defines(#[trigger] ls[j], k),
    ensures
        parse_lines(ls).contains_key(k),
        parse_lines(ls)[k] == u,
    decreases ls.len(),
{
    if i == ls.len() - 1 {
        assert(parse_lines(ls) == parse_lines(ls.drop_last()).insert(k, u));
    } else {
        assert(ls.drop_last()[i] == ls[i]);
        lemma_last_occurrence_wins(ls.drop_last(), i, k, u);
        assert(!line_defines(ls.last(), k));
    }
}

/// An alias is bound exactly when some line defines it: every skipped line —
/// empty, comment, wrong token count or invalid URL — contributes nothing,
/// and no alias appears out of nowhere.
pub proof fn lemma_parse_domain(ls: Seq<Seq<char>>, k: Seq<char>)
    ensures
        parse_lines(ls).contains_key(k) <==> exists|i: int|
            0 <= i < ls.len() && line_defines(#[trigger] ls[i], k),
    decreases ls.len(),
{
    if ls.len() > 0 {
        lemma_parse_domain(ls.drop_last(), k);
        if parse_lines(ls).contains_key(k) {
            if line_defines(ls.last(), k) {
                assert(line_defines(ls[ls.len() - 1], k));
            } else {
                let i = choose|i: int|
                    0 <= i < ls.drop_last().len() && line_defines(#[trigger] ls.drop_last()[i], k);
                assert(line_defines(ls[i], k));
            }
        }
        if exists|i: int| 0 <= i < ls.len() && line_defines(#[trigger] ls[i], k) {
            let i = choose|i: int| 0 <= i < ls.len() && line_defines(#[trigger] ls[i], k);
            if i < ls.len() - 1 {
                assert(line_defines(ls.drop_last()[i], k));
            }
        }
    }
}

/// A line that contributes no entry has no effect at all: parsing with it is
/// parsing without it, so a malformed line never disturbs its neighbours.
pub proof fn lemma_skipped_line_no_effect(ls: Seq<Seq<char>>, i: int)
    requires
        0 <= i < ls.len(),
        entry_of_line(ls[i]) is None,
    ensures
        parse_lines(ls) == parse_lines(ls.remove(i)),
    decreases ls.len(),
{
    if i == ls.len() - 1 {
        assert(ls.remove(i) =~= ls.drop_last());
    } else {
        assert(ls.remove(i).drop_last() =~= ls.drop_last().remove(i));
        assert(ls.remove(i).last() == ls.last());
        assert(ls.drop_last()[i] == ls[i]);
        lemma_skipped_line_no_effect(ls.drop_last(), i);
    }
}

} // verus!
