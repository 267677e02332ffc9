//! Listings from JSON APIs: the array at the items path becomes the items, and
//! each configured path inside an element becomes a field.
use vstd::prelude::*;
use crate::config::source::JsonPathsConfig;
use crate::dict::{Dict, text_entries, inserted};
use crate::text::{split, contains, index_of, after_first, before_char, trim_suffixes, parsed_usize, views,
    str_split, str_eq, str_is_empty, str_has_char, str_before_char, str_after_first, concat, chars_of,
    strip_suffixes, string_from_chars, slice_to_vec, parse_usize};
use crate::json::{JsonStep, JsonKind, JsonLeaf, json_queried, json_query, query_view, leaf_view};
use crate::engine::navigator::{key_step, index_step};

verus! {

/// The steps of one dotted part: `key` or `key[index]`; `None` when the
/// index does not parse.
pub open spec fn part_steps(p: Seq<char>) -> Option<Seq<(bool, Seq<char>, nat)>> {
    if contains(p, "["@) && contains(p, "]"@) {
        let key = before_char(p, '[');
        let rest = p.skip(index_of(p, "["@) + 1);
        match parsed_usize(trim_suffixes(rest, "]"@)) {
            Some(n) => Some(seq![key_step(key), index_step(n)]),
            None => None,
        }
    } else {
        Some(seq![key_step(p)])
    }
}

/// The steps of the dotted parts, in order; `None` when an index does not parse.
pub open spec fn parts_steps(parts: Seq<Seq<char>>) -> Option<Seq<(bool, Seq<char>, nat)>>
    decreases parts.len(),
{
    if parts.len() == 0 {
        Some(Seq::empty())
    } else {
        match (parts_steps(parts.drop_last()), part_steps(parts.last())) {
            (Some(a), Some(b)) => Some(a + b),
            _ => None,
        }
    }
}

/// The steps a JSON path stands for: none for `""` or `"$"`, else those of its
/// dotted parts.
pub open spec fn path_steps(path: Seq<char>) -> Option<Seq<(bool, Seq<char>, nat)>> {
    if path.len() == 0 || path == "$"@ {
        Some(Seq::empty())
    } else {
        parts_steps(split(path, "."@))
    }
}

/// The query for field `j` of element `i` (the empty query when the field's
/// path has a bad index; its answer is then not used).
pub open spec fn field_query(items: Seq<(bool, Seq<char>, nat)>, i: nat, fields: Seq<(Seq<char>, String)>, j: int) -> Seq<(bool, Seq<char>, nat)> {
    match path_steps(fields[j].1@) {
        Some(s) => items.push(index_step(i)) + s,
        None => Seq::empty(),
    }
}

/// The item read from element `i` given the answers to its queries.
pub open spec fn element_item(fields: Seq<(Seq<char>, String)>, answers: Seq<Option<(JsonKind, Seq<char>, nat)>>, n: int) -> Seq<(Seq<char>, Seq<char>)>
    decreases n,
{
    if n <= 0 || n > fields.len() {
        Seq::empty()
    } else {
        let pre = element_item(fields, answers, n - 1);
        let j = n - 1;
        if path_steps(fields[j].1@) is Some && j < answers.len() && answers[j] is Some {
            inserted(pre, fields[j].0, (answers[j]->0).1)
        } else {
            pre
        }
    }
}

/// The item read from element `i` of the items array.
pub open spec fn json_item(text: Seq<char>, items: Seq<(bool, Seq<char>, nat)>, i: nat, fields: Seq<(Seq<char>, String)>) -> Seq<(Seq<char>, Seq<char>)> {
    match json_queried(text, Seq::new(fields.len(), |j: int| field_query(items, i, fields, j))) {
        Ok(answers) => element_item(fields, answers, fields.len() as int),
        Err(_) => Seq::empty(),
    }
}

/// The items of the first `n` elements, dropping empty ones.
pub open spec fn json_items(text: Seq<char>, items: Seq<(bool, Seq<char>, nat)>, fields: Seq<(Seq<char>, String)>, n: nat) -> Seq<Seq<(Seq<char>, Seq<char>)>>
    decreases n,
{
    if n == 0 {
        Seq::empty()
    } else {
        let pre = json_items(text, items, fields, (n - 1) as nat);
        let item = json_item(text, items, (n - 1) as nat, fields);
        if item.len() > 0 { pre.push(item) } else { pre }
    }
}

/// What `parse` gives for a JSON text.
pub open spec fn parsed_json(text: Seq<char>, config: JsonPathsConfig) -> Result<Seq<Seq<(Seq<char>, Seq<char>)>>, Seq<char>> {
    let not_found = "Could not find array at path: "@ + config.items@;
    match json_queried(text, Seq::empty()) {
        Err(e) => Err("Invalid JSON: "@ + e),
        Ok(_) => match path_steps(config.items@) {
            None => Err(not_found),
            Some(items) => match json_queried(text, seq![items]) {
                Ok(found) => if found.len() == 1 && (found[0] matches Some(l) && l.0 == JsonKind::Array) {
                    Ok(json_items(text, items, config.fields.view(), (found[0]->0).2))
                } else {
                    Err(not_found)
                },
                Err(_) => Err(not_found),
            },
        },
    }
}

/// The steps of one dotted part.
fn steps_of_part(p: &str) -> (r: Option<Vec<JsonStep>>)
    ensures
        match r {
            Some(v) => part_steps(p@) == Some(query_view(v)),
            None => part_steps(p@) is None,
        },
{
    if str_has_char(p, '[') && str_has_char(p, ']') {
        proof {
            reveal_strlit("[");
            reveal_strlit("]");
            assert("["@ =~= seq!['[']);
            assert("]"@ =~= seq![']']);
            lemma_has_char_contains(p@, '[');
            lemma_has_char_contains(p@, ']');
        }
        let key = str_before_char(p, '[');
        let rest = match str_after_first(p, "[") {
            Some(r) => r,
            None => return None,
        };
        let rv = chars_of(rest.as_str());
        let close = chars_of("]");
        let n = strip_suffixes(rv.as_slice(), rv.len(), close.as_slice());
        assert(rv@.take(rv.len() as int) =~= rv@);
        let idx = string_from_chars(slice_to_vec(rv.as_slice(), 0, n));
        match parse_usize(idx.as_str()) {
            Some(i) => {
                let v = vec![JsonStep::Key(key), JsonStep::Index(i)];
                assert(query_view(v) =~= seq![key_step(before_char(p@, '[')), index_step(i as nat)]);
                Some(v)
            },
            None => None,
        }
    } else {
        proof {
            reveal_strlit("[");
            reveal_strlit("]");
            assert("["@ =~= seq!['[']);
            assert("]"@ =~= seq![']']);
            if contains(p@, "["@) && contains(p@, "]"@) {
                lemma_contains_has_char(p@, '[');
                lemma_contains_has_char(p@, ']');
            }
        }
        let v = vec![JsonStep::Key(p.to_string())];
        assert(query_view(v) =~= seq![key_step(p@)]);
        Some(v)
    }
}

/// A character occurring means the one-character pattern occurs.
proof fn lemma_has_char_contains(s: Seq<char>, c: char)
    requires
        s.contains(c),
    ensures
        contains(s, seq![c]),
{
    let i = choose|i: int| 0 <= i < s.len() && s[i] == c;
    assert(s.subrange(i, i + 1) =~= seq![c]);
    assert(crate::text::occurs_at(s, seq![c], i));
}

/// The one-character pattern occurring means the character occurs.
proof fn lemma_contains_has_char(s: Seq<char>, c: char)
    requires
        contains(s, seq![c]),
    ensures
        s.contains(c),
{
    let i = choose|i: int| #[trigger] crate::text::occurs_at(s, seq![c], i);
    assert(s.subrange(i, i + 1)[0] == s[i]);
}

proof fn lemma_parts_steps_none(parts: Seq<Seq<char>>, i: int)
    requires
        0 <= i < parts.len(),
        part_steps(parts[i]) is None,
    ensures
        parts_steps(parts) is None,
    decreases parts.len(),
{
    if i + 1 < parts.len() {
        lemma_parts_steps_none(parts.drop_last(), i);
    }
}

/// The steps a JSON path stands for.
fn steps_of_path(path: &str) -> (r: Option<Vec<JsonStep>>)
    ensures
        match r {
            Some(v) => path_steps(path@) == Some(query_view(v)),
            None => path_steps(path@) is None,
        },
{
    if str_is_empty(path) || str_eq(path, "$") {
        let v: Vec<JsonStep> = Vec::new();
        assert(query_view(v) =~= Seq::<(bool, Seq<char>, nat)>::empty());
        return Some(v);
    }
    let parts = str_split(path, ".");
    let ghost pv = views(parts@);
    let mut steps: Vec<JsonStep> = Vec::new();
    let mut i: usize = 0;
    assert(pv.take(0) =~= Seq::<Seq<char>>::empty());
    assert(query_view(steps) =~= Seq::<(bool, Seq<char>, nat)>::empty());
    while i < parts.len()
        invariant
            i <= parts.len(),
            pv == views(parts@),
            pv == split(path@, "."@),
            path_steps(path@) == parts_steps(pv),
            parts_steps(pv.take(i as int)) == Some(query_view(steps)),
        decreases parts.len() - i,
    {
        proof {
            assert(pv.take(i + 1).drop_last() =~= pv.take(i as int));
            assert(pv.take(i + 1).last() == parts@[i as int]@);
        }
        match steps_of_part(parts[i].as_str()) {
            Some(more) => {
                let ghost before = query_view(steps);
                let mut more = more;
                let ghost mv = query_view(more);
                steps.append(&mut more);
                assert(query_view(steps) =~= before + mv);
            },
            None => {
                proof { lemma_parts_steps_none(pv, i as int); }
                return None;
            },
        }
        i = i + 1;
    }
    assert(pv.take(parts.len() as int) =~= pv);
    Some(steps)
}

/// A copy of a list of steps.
fn copy_steps(s: &Vec<JsonStep>) -> (r: Vec<JsonStep>)
    ensures
        query_view(r) == query_view(*s),
{
    let c = s.clone();
    assert(query_view(c) =~= query_view(*s)) by {
        assert forall|i: int| 0 <= i < s@.len() implies #[trigger] c@[i] == s@[i] by {
            assert(cloned::<JsonStep>(s@[i], c@[i]));
        }
    }
    c
}

/// The items of a JSON listing.
pub fn parse(json_str: &str, config: &JsonPathsConfig) -> (r: Result<Vec<Dict<String>>, String>)
    ensures
        match r {
            Ok(items) => parsed_json(json_str@, *config)
                == Ok::<Seq<Seq<(Seq<char>, Seq<char>)>>, Seq<char>>(items@.map_values(|d: Dict<String>| text_entries(d.view()))),
            Err(e) => parsed_json(json_str@, *config) == Err::<Seq<Seq<(Seq<char>, Seq<char>)>>, Seq<char>>(e@),
        },
{
    let no_queries: Vec<Vec<JsonStep>> = Vec::new();
    assert(no_queries@.map_values(|q: Vec<JsonStep>| query_view(q)) =~= Seq::<Seq<(bool, Seq<char>, nat)>>::empty());
    match json_query(json_str, no_queries.as_slice()) {
        Err(e) => return Err(concat("Invalid JSON: ", e.as_str())),
        Ok(_) => {},
    }
    let not_found = concat("Could not find array at path: ", config.items.as_str());
    let items_steps = match steps_of_path(config.items.as_str()) {
        Some(s) => s,
        None => return Err(not_found),
    };
    let qs = vec![copy_steps(&items_steps)];
    assert(qs@.map_values(|q: Vec<JsonStep>| query_view(q)) =~= seq![query_view(items_steps)]);
    let n = match json_query(json_str, qs.as_slice()) {
        Ok(found) => {
            if found.len() == 1 {
                match &found[0] {
                    Some(l) => {
                        if l.kind == JsonKind::Array {
                            l.len
                        } else {
                            return Err(not_found);
                        }
                    },
                    None => return Err(not_found),
                }
            } else {
                return Err(not_found);
            }
        },
        Err(_) => return Err(not_found),
    };
    let ghost iv = query_view(items_steps);
    let ghost fields = config.fields.view();
    let m = config.fields.len();
    // The steps of each field's path.
    let mut field_steps: Vec<Option<Vec<JsonStep>>> = Vec::new();
    let mut j: usize = 0;
    while j < m
        invariant
            j <= m,
            m == fields.len(),
            fields == config.fields.view(),
            field_steps@.len() == j,
            forall|k: int| 0 <= k < j ==> match #[trigger] field_steps@[k] {
                Some(v) => path_steps(fields[k].1@) == Some(query_view(v)),
                None => path_steps(fields[k].1@) is None,
            },
        decreases m - j,
    {
        field_steps.push(steps_of_path(config.fields.value_at(j).as_str()));
        j = j + 1;
    }
    let mut items: Vec<Dict<String>> = Vec::new();
    let mut i: usize = 0;
    while i < n
        invariant
            i <= n,
            m == fields.len(),
            fields == config.fields.view(),
            iv == query_view(items_steps),
            field_steps@.len() == m,
            forall|k: int| 0 <= k < m ==> match #[trigger] field_steps@[k] {
                Some(v) => path_steps(fields[k].1@) == Some(query_view(v)),
                None => path_steps(fields[k].1@) is None,
            },
            items@.map_values(|d: Dict<String>| text_entries(d.view())) == json_items(json_str@, iv, fields, i as nat),
        decreases n - i,
    {
        // One query per field for element i.
        let mut queries: Vec<Vec<JsonStep>> = Vec::new();
        let mut j: usize = 0;
        while j < m
            invariant
                j <= m,
                m == fields.len(),
                fields == config.fields.view(),
                iv == query_view(items_steps),
                field_steps@.len() == m,
                forall|k: int| 0 <= k < m ==> match #[trigger] field_steps@[k] {
                    Some(v) => path_steps(fields[k].1@) == Some(query_view(v)),
                    None => path_steps(fields[k].1@) is None,
                },
                queries@.len() == j,
                forall|k: int| 0 <= k < j ==> query_view(#[trigger] queries@[k]) == field_query(iv, i as nat, fields, k),
            decreases m - j,
        {
            let q = match &field_steps[j] {
                Some(fs) => {
                    let mut q = copy_steps(&items_steps);
                    let ghost q0 = query_view(q);
                    q.push(JsonStep::Index(i));
                    let mut rest = copy_steps(fs);
                    let ghost rv = query_view(rest);
                    q.append(&mut rest);
                    assert(query_view(q) =~= q0.push(index_step(i as nat)) + rv);
                    q
                },
                None => {
                    let q: Vec<JsonStep> = Vec::new();
                    assert(query_view(q) =~= Seq::<(bool, Seq<char>, nat)>::empty());
                    q
                },
            };
            queries.push(q);
            j = j + 1;
        }
        assert(queries@.map_values(|q: Vec<JsonStep>| query_view(q))
            =~= Seq::new(fields.len(), |k: int| field_query(iv, i as nat, fields, k)));
        let answers = json_query(json_str, queries.as_slice());
        let mut item: Dict<String> = Dict::new();
        match answers {
            Ok(ans) => {
                let ghost av = ans@.map_values(|o: Option<JsonLeaf>| match o { Some(l) => Some(leaf_view(l)), None => None });
                let mut j: usize = 0;
                while j < m
                    invariant
                        j <= m,
                        m == fields.len(),
                        fields == config.fields.view(),
                        field_steps@.len() == m,
                        forall|k: int| 0 <= k < m ==> match #[trigger] field_steps@[k] {
                            Some(v) => path_steps(fields[k].1@) == Some(query_view(v)),
                            None => path_steps(fields[k].1@) is None,
                        },
                        av == ans@.map_values(|o: Option<JsonLeaf>| match o { Some(l) => Some(leaf_view(l)), None => None }),
                        text_entries(item.view()) == element_item(fields, av, j as int),
                    decreases m - j,
                {
                    if field_steps[j].is_some() && j < ans.len() {
                        match &ans[j] {
                            Some(l) => {
                                let v = l.text.clone();
                                item.assert_unique();
                                proof { crate::dict::lemma_text_entries_inserted(item.view(), fields[j as int].0, v); }
                                item.insert(config.fields.key_at(j).clone(), v);
                            },
                            None => {},
                        }
                    }
                    j = j + 1;
                }
            },
            Err(_) => {
                assert(text_entries(item.view()) =~= Seq::<(Seq<char>, Seq<char>)>::empty());
            },
        }
        let ghost before = items@;
        if item.len() > 0 {
            items.push(item);
            assert(items@.map_values(|d: Dict<String>| text_entries(d.view()))
                =~= before.map_values(|d: Dict<String>| text_entries(d.view())).push(text_entries(items@.last().view())));
        }
        i = i + 1;
    }
    Ok(items)
}

} // verus!
