//! The search over published plugins: the SQL query and its parameters
//! that a search by text, tags and categories runs.

use vstd::prelude::*;
use crate::data::version::{parse_version, version_text, Version};
use crate::repo::resource::{folder_path, resource_name, PluginResource, PluginResourceType};
use crate::text::{
    append_str, chars_equal, chars_of, push_char, split_chars, split_on, string_of, trim, trimmed, views,
};

verus! {

/// The query that every search runs: plugins whose name or identifier
/// matches the text.
pub const BASE_QUERY: &'static str = r#"
        select distinct p.id, p.name, p.last_version
        from plugin p
        left join plugin_tag t on p.id = t.plugin_id
        left join plugin_category c on p.id = c.plugin_id
        where p.name like ? or p.id like ?
        "#;

/// The condition that a plugin carries a tag.
pub const TAG_CLAUSE: &'static str = "t.tag_name like ?";

/// The condition that a plugin belongs to a category.
pub const CATEGORY_CLAUSE: &'static str = "c.category_name like ?";

/// The terms of a comma-separated list, from its pieces: every non-empty
/// piece, trimmed, once, in the order of first appearance.
pub open spec fn search_terms(pieces: Seq<Seq<char>>) -> Seq<Seq<char>>
    decreases pieces.len(),
{
    if pieces.len() == 0 {
        Seq::empty()
    } else {
        let prev = search_terms(pieces.drop_last());
        let p = pieces.last();
        if p.len() == 0 || prev.contains(trim(p)) {
            prev
        } else {
            prev.push(trim(p))
        }
    }
}

/// The terms of a comma-separated list `s`.
pub open spec fn terms_of(s: Seq<char>) -> Seq<Seq<char>> {
    search_terms(split_on(s, ','))
}

/// The text of an optional parameter, empty where it is absent.
pub open spec fn or_empty(s: Option<&str>) -> Seq<char> {
    match s {
        Some(t) => t@,
        None => Seq::empty(),
    }
}

/// The `like` pattern that matches any text containing `s`.
pub open spec fn like_pattern(s: Seq<char>) -> Seq<char> {
    seq!['%'] + s + seq!['%']
}

/// `n` copies of `clause` joined by ` or `.
pub open spec fn alternatives(clause: Seq<char>, n: nat) -> Seq<char>
    decreases n,
{
    if n == 0 {
        Seq::empty()
    } else if n == 1 {
        clause
    } else {
        alternatives(clause, (n - 1) as nat) + " or "@ + clause
    }
}

/// The condition added for `n` terms: nothing for none, else ` or (`, the
/// alternatives and `)`.
pub open spec fn condition_group(clause: Seq<char>, n: nat) -> Seq<char> {
    if n == 0 {
        Seq::empty()
    } else {
        " or ("@ + alternatives(clause, n) + ")"@
    }
}

/// The SQL of a search with the given tag and category terms.
pub open spec fn search_sql(tags: Seq<Seq<char>>, cats: Seq<Seq<char>>) -> Seq<char> {
    BASE_QUERY@ + condition_group(TAG_CLAUSE@, tags.len()) + condition_group(
        CATEGORY_CLAUSE@,
        cats.len(),
    )
}

/// The parameters of a search for text `q` with the given tag and category
/// terms, in the order of the `?` in its SQL.
pub open spec fn search_params(q: Seq<char>, tags: Seq<Seq<char>>, cats: Seq<Seq<char>>) -> Seq<
    Seq<char>,
> {
    seq![like_pattern(q), like_pattern(q)] + tags.map_values(|t: Seq<char>| like_pattern(t))
        + cats.map_values(|t: Seq<char>| like_pattern(t))
}

/// The texts of a sequence of strings.
pub open spec fn string_views(v: Seq<String>) -> Seq<Seq<char>> {
    v.map_values(|s: String| s@)
}

/// A search's SQL and its parameters.
pub struct SearchQuery {
    pub sql: String,
    pub params: Vec<String>,
}

/// Whether `list` holds `x`.
fn contains_chars(list: &Vec<Vec<char>>, x: &Vec<char>) -> (res: bool)
    ensures
        res == views(list@).contains(x@),
{
    let mut i: usize = 0;
    while i < list.len()
        invariant
            i <= list.len(),
            forall|j: int| 0 <= j < i ==> #[trigger] views(list@)[j] != x@,
        decreases list.len() - i,
    {
        if chars_equal(&list[i], x) {
            assert(views(list@)[i as int] == x@);
            return true;
        }
        i = i + 1;
    }
    false
}

/// The terms of the comma-separated list `s`, by `terms_of`.
pub fn terms(s: &str) -> (res: Vec<String>)
    ensures
        string_views(res@) == terms_of(s@),
{
    let cs = chars_of(s);
    let pieces = split_chars(&cs, ',');
    let ghost all = views(pieces@);
    let mut found: Vec<Vec<char>> = Vec::new();
    let mut i: usize = 0;
    assert(all.take(0) =~= Seq::<Seq<char>>::empty());
    while i < pieces.len()
        invariant
            i <= pieces.len(),
            all == views(pieces@),
            all == split_on(s@, ','),
            views(found@) == search_terms(all.take(i as int)),
        decreases pieces.len() - i,
    {
        let p = &pieces[i];
        assert(all[i as int] == p@);
        assert(all.take(i + 1).drop_last() == all.take(i as int));
        assert(all.take(i + 1).last() == p@);
        if p.len() > 0 {
            let t = trimmed(p);
            if !contains_chars(&found, &t) {
                found.push(t);
                assert(views(found@) =~= search_terms(all.take(i as int)).push(trim(p@)));
            }
        }
        i = i + 1;
    }
    assert(all.take(pieces.len() as int) == all);
    let mut res: Vec<String> = Vec::new();
    let mut k: usize = 0;
    while k < found.len()
        invariant
            k <= found.len(),
            string_views(res@) == views(found@).take(k as int),
        decreases found.len() - k,
    {
        let ghost before = res@;
        let t = string_of(&found[k]);
        assert(views(found@)[k as int] == found@[k as int]@);
        res.push(t);
        assert(res@ == before.push(t));
        assert(string_views(res@) =~= string_views(before).push(t@));
        assert(views(found@).take(k + 1) =~= views(found@).take(k as int).push(found@[k as int]@));
        k = k + 1;
    }
    assert(views(found@).take(found.len() as int) == views(found@));
    res
}

/// Appends the condition for `n` terms to `sql`.
fn push_condition_group(sql: &mut String, clause: &str, n: usize)
    ensures
        final(sql)@ == old(sql)@ + condition_group(clause@, n as nat),
{
    if n == 0 {
        assert(old(sql)@ + condition_group(clause@, 0) == old(sql)@);
        return;
    }
    append_str(sql, " or (");
    let ghost start = sql@;
    let mut k: usize = 0;
    while k < n
        invariant
            k <= n,
            sql@ == start + alternatives(clause@, k as nat),
        decreases n - k,
    {
        if k > 0 {
            append_str(sql, " or ");
        }
        append_str(sql, clause);
        assert(sql@ =~= start + alternatives(clause@, (k + 1) as nat));
        k = k + 1;
    }
    append_str(sql, ")");
    assert(sql@ =~= old(sql)@ + condition_group(clause@, n as nat));
}

/// The `like` pattern for `s`.
fn like_of(s: &str) -> (res: String)
    ensures
        res@ == like_pattern(s@),
{
    let mut p = String::new();
    push_char(&mut p, '%');
    append_str(&mut p, s);
    push_char(&mut p, '%');
    assert(p@ =~= like_pattern(s@));
    p
}

/// Appends the `like` pattern of every term to `params`.
fn push_patterns(params: &mut Vec<String>, terms: &Vec<String>)
    ensures
        string_views(final(params)@) == string_views(old(params)@) + string_views(terms@).map_values(
            |t: Seq<char>| like_pattern(t),
        ),
{
    let mut k: usize = 0;
    while k < terms.len()
        invariant
            k <= terms.len(),
            string_views(params@) == string_views(old(params)@) + string_views(
                terms@.take(k as int),
            ).map_values(|t: Seq<char>| like_pattern(t)),
        decreases terms.len() - k,
    {
        let ghost before = params@;
        let p = like_of(terms[k].as_str());
        params.push(p);
        assert(params@ == before.push(p));
        assert(string_views(params@) =~= string_views(before).push(p@));
        assert(string_views(terms@.take(k + 1)) =~= string_views(terms@.take(k as int)).push(
            terms@[k as int]@,
        ));
        assert(string_views(terms@.take(k + 1)).map_values(|t: Seq<char>| like_pattern(t))
            =~= string_views(terms@.take(k as int)).map_values(|t: Seq<char>| like_pattern(t)).push(
            like_pattern(terms@[k as int]@),
        ));
        assert(string_views(params@) =~= string_views(old(params)@) + string_views(
            terms@.take(k + 1),
        ).map_values(|t: Seq<char>| like_pattern(t)));
        k = k + 1;
    }
    assert(terms@.take(terms.len() as int) == terms@);
}

/// The query of a search for text `q`, tags `tags` and categories `cat`
/// (comma-separated lists), each absent one counting as empty.
pub fn search_query(q: Option<&str>, tags: Option<&str>, cat: Option<&str>) -> (res: SearchQuery)
    ensures
        ({
            let tag_terms = terms_of(or_empty(tags));
            let cat_terms = terms_of(or_empty(cat));
            &&& res.sql@ == search_sql(tag_terms, cat_terms)
            &&& string_views(res.params@) == search_params(
                or_empty(q),
                tag_terms,
                cat_terms,
            )
        }),
{
    let tag_list = terms(match tags {
        Some(t) => t,
        None => "",
    });
    let cat_list = terms(match cat {
        Some(t) => t,
        None => "",
    });
    let text = match q {
        Some(t) => t,
        None => "",
    };
    proof {
        reveal_strlit("");
    }
    assert(or_empty(tags) == (match tags { Some(t) => t, None => "" })@);
    assert(or_empty(cat) == (match cat { Some(t) => t, None => "" })@);
    assert(or_empty(q) == text@);
    let mut sql = BASE_QUERY.to_owned();
    push_condition_group(&mut sql, TAG_CLAUSE, tag_list.len());
    push_condition_group(&mut sql, CATEGORY_CLAUSE, cat_list.len());
    let mut params: Vec<String> = Vec::new();
    params.push(like_of(text));
    params.push(like_of(text));
    assert(string_views(params@) =~= seq![like_pattern(text@), like_pattern(text@)]);
    push_patterns(&mut params, &tag_list);
    push_patterns(&mut params, &cat_list);
    SearchQuery { sql, params }
}

/// Where the data file of a found plugin lies in the repository folder
/// `dir`, given its identifier and the stored text of its latest version;
/// `None` where that text is no valid version.
pub fn plugin_data_path(dir: &str, id: &str, last_version: &str) -> (res: Option<String>)
    ensures
        res matches Some(p) ==> parse_version(last_version@) is Ok && p@ == folder_path(
            dir@,
            id@,
            version_text(parse_version(last_version@).unwrap()),
        ) + seq!['/'] + resource_name(PluginResourceType::Data),
        res is None ==> parse_version(last_version@) is Err,
{
    let version = match Version::parse(last_version) {
        Ok(v) => v,
        Err(_) => return None,
    };
    let data = PluginResource::new(id, &version, &PluginResourceType::Data);
    Some(data.get_path(dir))
}


/// The piece `k` of `pieces` is non-empty and trims to `t`.
pub open spec fn trims_to(pieces: Seq<Seq<char>>, k: int, t: Seq<char>) -> bool {
    0 <= k < pieces.len() && pieces[k].len() > 0 && trim(pieces[k]) == t
}

/// The terms of a list are the trimmed non-empty pieces, as a set: each
/// appears once, and a text is a term exactly when some non-empty piece
/// trims to it.
pub proof fn lemma_search_terms_set(pieces: Seq<Seq<char>>)
    ensures
        forall|i: int, j: int|
            0 <= i < j < search_terms(pieces).len() ==> search_terms(pieces)[i] != search_terms(
                pieces,
            )[j],
        forall|t: Seq<char>|
            search_terms(pieces).contains(t) <==> exists|k: int| #[trigger] trims_to(pieces, k, t),
    decreases pieces.len(),
{
    if pieces.len() > 0 {
        let rest = pieces.drop_last();
        lemma_search_terms_set(rest);
        let prev = search_terms(rest);
        let p = pieces.last();
        let n = pieces.len() - 1;
        assert forall|t: Seq<char>|
            search_terms(pieces).contains(t) <==> exists|k: int| #[trigger] trims_to(pieces, k, t) by {
            if search_terms(pieces).contains(t) {
                if prev.contains(t) {
                    let k = choose|k: int| #[trigger] trims_to(rest, k, t);
                    assert(pieces[k] == rest[k]);
                    assert(trims_to(pieces, k, t));
                } else {
                    assert(trims_to(pieces, n, t));
                }
            }
            if exists|k: int| #[trigger] trims_to(pieces, k, t) {
                let k = choose|k: int| #[trigger] trims_to(pieces, k, t);
                if k < n {
                    assert(rest[k] == pieces[k]);
                    assert(trims_to(rest, k, t));
                    assert(prev.contains(t));
                    if !(p.len() == 0 || prev.contains(trim(p))) {
                        let i = choose|i: int| 0 <= i < prev.len() && prev[i] == t;
                        assert(search_terms(pieces)[i] == t);
                    }
                } else {
                    if !prev.contains(trim(p)) {
                        assert(search_terms(pieces)[prev.len() as int] == t);
                    }
                }
            }
        }
    }
}


/// The number of times `c` occurs in `s`.
pub open spec fn occurrences(s: Seq<char>, c: char) -> nat
    decreases s.len(),
{
    if s.len() == 0 {
        0
    } else {
        occurrences(s.drop_last(), c) + if s.last() == c { 1nat } else { 0nat }
    }
}

/// Occurrences add up over concatenation.
pub proof fn lemma_occurrences_concat(a: Seq<char>, b: Seq<char>, c: char)
    ensures
        occurrences(a + b, c) == occurrences(a, c) + occurrences(b, c),
    decreases b.len(),
{
    if b.len() == 0 {
        assert(a + b == a);
    } else {
        lemma_occurrences_concat(a, b.drop_last(), c);
        assert((a + b).drop_last() == a + b.drop_last());
        assert((a + b).last() == b.last());
    }
}

/// `n` alternatives of a clause with one `?` hold `n` of them.
pub proof fn lemma_alternatives_placeholders(clause: Seq<char>, n: nat)
    requires
        occurrences(clause, '?') == 1,
    ensures
        occurrences(alternatives(clause, n), '?') == n,
    decreases n,
{
    reveal_strlit(" or ");
    reveal_with_fuel(occurrences, 5);
    assert(occurrences(" or "@, '?') == 0);
    if n > 1 {
        lemma_alternatives_placeholders(clause, (n - 1) as nat);
        lemma_occurrences_concat(alternatives(clause, (n - 1) as nat), " or "@, '?');
        lemma_occurrences_concat(alternatives(clause, (n - 1) as nat) + " or "@, clause, '?');
    }
}

/// The group of conditions for `n` terms holds `n` placeholders.
pub proof fn lemma_condition_group_placeholders(clause: Seq<char>, n: nat)
    requires
        occurrences(clause, '?') == 1,
    ensures
        occurrences(condition_group(clause, n), '?') == n,
{
    if n > 0 {
        reveal_strlit(" or (");
        reveal_strlit(")");
        reveal_with_fuel(occurrences, 6);
        assert(occurrences(" or ("@, '?') == 0);
        assert(occurrences(")"@, '?') == 0);
        lemma_alternatives_placeholders(clause, n);
        lemma_occurrences_concat(" or ("@, alternatives(clause, n), '?');
        lemma_occurrences_concat(" or ("@ + alternatives(clause, n), ")"@, '?');
    } else {
        assert(occurrences(Seq::<char>::empty(), '?') == 0);
    }
}

/// The SQL of a search holds, beyond the placeholders of the base query
/// (the two for the text), one placeholder for each tag and category term,
/// as its parameters hold, beyond the two text patterns, one pattern for
/// each term.
pub proof fn lemma_search_placeholders(q: Seq<char>, tags: Seq<Seq<char>>, cats: Seq<Seq<char>>)
    ensures
        occurrences(search_sql(tags, cats), '?') == occurrences(BASE_QUERY@, '?') + tags.len()
            + cats.len(),
        search_params(q, tags, cats).len() == 2 + tags.len() + cats.len(),
{
    lemma_clause_placeholder();
    lemma_condition_group_placeholders(TAG_CLAUSE@, tags.len());
    lemma_condition_group_placeholders(CATEGORY_CLAUSE@, cats.len());
    lemma_occurrences_concat(BASE_QUERY@, condition_group(TAG_CLAUSE@, tags.len()), '?');
    lemma_occurrences_concat(
        BASE_QUERY@ + condition_group(TAG_CLAUSE@, tags.len()),
        condition_group(CATEGORY_CLAUSE@, cats.len()),
        '?',
    );
}

/// Each clause holds one placeholder.
proof fn lemma_clause_placeholder()
    ensures
        occurrences(TAG_CLAUSE@, '?') == 1,
        occurrences(CATEGORY_CLAUSE@, '?') == 1,
{
    reveal_strlit("t.tag_name like ?");
    reveal_strlit("c.category_name like ?");
    reveal_with_fuel(occurrences, 24);
}

} // verus!
