//! Tags on game cards: which configured tags an item earns, their labels, and
//! their order.
use vstd::prelude::*;
use crate::config::source::SourceConfig;
use crate::config::tags::{TagConfig, TagStyle, ValueExtraction};
use crate::config::transformations::Condition;
use crate::dict::{Dict, text_entries, text_lookup, get_text};
use crate::text::{contains, trim, replace_all, concat, str_contains, str_eq, str_trim, str_is_empty, str_replace};
use crate::regex_ext::{regex_valid, regex_matches, regex_is_match};
use crate::order::chained;

verus! {

/// A tag earned by a game card.
#[derive(Debug, Clone)]
pub struct GameTag {
    pub id: String,
    pub label: String,
    pub color: Option<String>,
    pub background: Option<String>,
    pub icon: Option<String>,
    pub priority: i32,
    pub style: Option<String>,
}

/// The lower-case name of a tag style.
pub open spec fn style_name(s: TagStyle) -> Seq<char> {
    match s {
        TagStyle::Badge => "badge"@,
        TagStyle::Chip => "chip"@,
        TagStyle::Outline => "outline"@,
        TagStyle::Solid => "solid"@,
        TagStyle::Glow => "glow"@,
    }
}

/// The lower-case name of a tag style.
pub fn style_text(s: TagStyle) -> (r: String)
    ensures
        r@ == style_name(s),
{
    match s {
        TagStyle::Badge => "badge".to_string(),
        TagStyle::Chip => "chip".to_string(),
        TagStyle::Outline => "outline".to_string(),
        TagStyle::Solid => "solid".to_string(),
        TagStyle::Glow => "glow".to_string(),
    }
}

/// The text of field `f` of an item, empty when the item lacks it.
pub open spec fn field_or_empty(item: Seq<(Seq<char>, Seq<char>)>, f: Seq<char>) -> Seq<char> {
    match crate::dict::lookup(item, f) {
        Some(v) => v,
        None => Seq::empty(),
    }
}

/// Whether a condition holds of an item.
pub open spec fn condition_holds(item: Seq<(Seq<char>, Seq<char>)>, c: Condition) -> bool
    decreases c, 0nat,
{
    match c {
        Condition::Contains { field, contains: s } => match crate::dict::lookup(item, field@) {
            Some(v) => contains(v, s@),
            None => false,
        },
        Condition::Regex { field, pattern } => match crate::dict::lookup(item, field@) {
            Some(v) => regex_valid(pattern@) && regex_matches(pattern@, v),
            None => false,
        },
        Condition::Equals { field, equals } => match crate::dict::lookup(item, field@) {
            Some(v) => v == equals@,
            None => false,
        },
        Condition::NotEmpty { field } => match crate::dict::lookup(item, field@) {
            Some(v) => trim(v).len() > 0,
            None => false,
        },
        Condition::And { conditions } => all_hold(item, conditions@, conditions@.len() as int),
        Condition::Or { conditions } => any_holds(item, conditions@, conditions@.len() as int),
    }
}

/// Whether the first `n` conditions all hold.
pub open spec fn all_hold(item: Seq<(Seq<char>, Seq<char>)>, cs: Seq<Condition>, n: int) -> bool
    decreases cs, n,
{
    if n <= 0 || n > cs.len() {
        true
    } else {
        all_hold(item, cs, n - 1) && condition_holds(item, cs[n - 1])
    }
}

/// Whether one of the first `n` conditions holds.
pub open spec fn any_holds(item: Seq<(Seq<char>, Seq<char>)>, cs: Seq<Condition>, n: int) -> bool
    decreases cs, n,
{
    if n <= 0 || n > cs.len() {
        false
    } else {
        any_holds(item, cs, n - 1) || condition_holds(item, cs[n - 1])
    }
}

/// Whether a condition holds of an item.
pub fn check_condition(item: &Dict<String>, condition: &Condition) -> (b: bool)
    ensures
        b == condition_holds(text_entries(item.view()), *condition),
    decreases condition,
{
    match condition {
        Condition::Contains { field, contains: s } => match get_text(item, field.as_str()) {
            Some(v) => str_contains(v.as_str(), s.as_str()),
            None => false,
        },
        Condition::Regex { field, pattern } => match get_text(item, field.as_str()) {
            Some(v) => match regex_is_match(pattern.as_str(), v.as_str()) {
                Some(m) => m,
                None => false,
            },
            None => false,
        },
        Condition::Equals { field, equals } => match get_text(item, field.as_str()) {
            Some(v) => str_eq(v.as_str(), equals.as_str()),
            None => false,
        },
        Condition::NotEmpty { field } => match get_text(item, field.as_str()) {
            Some(v) => {
                let t = str_trim(v.as_str());
                !str_is_empty(t.as_str())
            },
            None => false,
        },
        Condition::And { conditions } => {
            let mut i: usize = 0;
            while i < conditions.len()
                invariant
                    i <= conditions.len(),
                    all_hold(text_entries(item.view()), conditions@, i as int),
                    condition_holds(text_entries(item.view()), *condition)
                        == all_hold(text_entries(item.view()), conditions@, conditions@.len() as int),
                    decreases_to!(*condition => *conditions),
                decreases conditions.len() - i,
            {
                assert(decreases_to!(*conditions => conditions@));
                assert(decreases_to!(conditions@ => conditions@[i as int]));
                if !check_condition(item, &conditions[i]) {
                    proof { lemma_all_hold_fails(text_entries(item.view()), conditions@, i as int, conditions@.len() as int); }
                    return false;
                }
                i = i + 1;
            }
            true
        },
        Condition::Or { conditions } => {
            let mut i: usize = 0;
            while i < conditions.len()
                invariant
                    i <= conditions.len(),
                    !any_holds(text_entries(item.view()), conditions@, i as int),
                    condition_holds(text_entries(item.view()), *condition)
                        == any_holds(text_entries(item.view()), conditions@, conditions@.len() as int),
                    decreases_to!(*condition => *conditions),
                decreases conditions.len() - i,
            {
                assert(decreases_to!(*conditions => conditions@));
                assert(decreases_to!(conditions@ => conditions@[i as int]));
                if check_condition(item, &conditions[i]) {
                    proof { lemma_any_holds_found(text_entries(item.view()), conditions@, i as int, conditions@.len() as int); }
                    return true;
                }
                i = i + 1;
            }
            false
        },
    }
}

proof fn lemma_all_hold_fails(item: Seq<(Seq<char>, Seq<char>)>, cs: Seq<Condition>, i: int, n: int)
    requires
        0 <= i < n <= cs.len(),
        !condition_holds(item, cs[i]),
    ensures
        !all_hold(item, cs, n),
    decreases n,
{
    if n > i + 1 {
        lemma_all_hold_fails(item, cs, i, n - 1);
    }
}

proof fn lemma_any_holds_found(item: Seq<(Seq<char>, Seq<char>)>, cs: Seq<Condition>, i: int, n: int)
    requires
        0 <= i < n <= cs.len(),
        condition_holds(item, cs[i]),
    ensures
        any_holds(item, cs, n),
    decreases n,
{
    if n > i + 1 {
        lemma_any_holds_found(item, cs, i, n - 1);
    }
}

/// Whether every listed field of an item is non-empty.
pub open spec fn all_fields_present(item: Seq<(Seq<char>, Seq<char>)>, fields: Seq<String>) -> bool {
    forall|i: int| 0 <= i < fields.len() ==> field_or_empty(item, #[trigger] fields[i]@).len() > 0
}

/// A template with each listed field's `{field}` replaced in turn by its
/// text (empty when the item lacks it).
pub open spec fn fields_filled(t: Seq<char>, item: Seq<(Seq<char>, Seq<char>)>, fields: Seq<String>) -> Seq<char>
    decreases fields.len(),
{
    if fields.len() == 0 {
        t
    } else {
        replace_all(
            fields_filled(t, item, fields.drop_last()),
            "{"@ + fields.last()@ + "}"@,
            field_or_empty(item, fields.last()@),
        )
    }
}

/// The label a tag gets on an item (empty: no tag).
pub open spec fn tag_label(item: Seq<(Seq<char>, Seq<char>)>, tc: TagConfig) -> Seq<char> {
    match tc.value_from {
        Some(ValueExtraction::Static(text)) => text@,
        Some(ValueExtraction::FromField { field, prefix, suffix }) => {
            let v = field_or_empty(item, field@);
            if v.len() == 0 {
                Seq::empty()
            } else {
                (match prefix { Some(p) => p@, None => Seq::empty() }) + v
                    + (match suffix { Some(s) => s@, None => Seq::empty() })
            }
        },
        Some(ValueExtraction::Template { template, fields }) => {
            if all_fields_present(item, fields@) {
                fields_filled(template@, item, fields@)
            } else {
                Seq::empty()
            }
        },
        None => tc.label@,
    }
}

/// The label a tag gets on an item; empty when the tag does not apply.
pub fn extract_tag_label(item: &Dict<String>, tag_config: &TagConfig) -> (r: String)
    ensures
        r@ == tag_label(text_entries(item.view()), *tag_config),
{
    let ghost te = text_entries(item.view());
    match &tag_config.value_from {
        Some(ValueExtraction::Static(text)) => text.clone(),
        Some(ValueExtraction::FromField { field, prefix, suffix }) => {
            let value = match get_text(item, field.as_str()) {
                Some(v) => v.clone(),
                None => String::new(),
            };
            if str_is_empty(value.as_str()) {
                return String::new();
            }
            let mut result = value;
            if let Some(pre) = prefix {
                result = concat(pre.as_str(), result.as_str());
            }
            if let Some(suf) = suffix {
                result = concat(result.as_str(), suf.as_str());
            }
            proof {
                assert(Seq::<char>::empty() + field_or_empty(te, field@) =~= field_or_empty(te, field@));
                assert(field_or_empty(te, field@) + Seq::<char>::empty() =~= field_or_empty(te, field@));
            }
            result
        },
        Some(ValueExtraction::Template { template, fields }) => {
            let mut result = template.clone();
            let mut has_empty = false;
            let mut i: usize = 0;
            while i < fields.len()
                invariant
                    i <= fields.len(),
                    te == text_entries(item.view()),
                    result@ == fields_filled(template@, te, fields@.take(i as int)),
                    has_empty == !all_fields_present(te, fields@.take(i as int)),
                decreases fields.len() - i,
            {
                proof {
                    assert(fields@.take(i + 1).drop_last() =~= fields@.take(i as int));
                    assert(fields@.take(0) =~= Seq::<String>::empty());
                }
                let placeholder = crate::text::concat3("{", fields[i].as_str(), "}");
                let field_value = match get_text(item, fields[i].as_str()) {
                    Some(v) => v.clone(),
                    None => String::new(),
                };
                if str_is_empty(field_value.as_str()) {
                    has_empty = true;
                }
                result = str_replace(result.as_str(), placeholder.as_str(), field_value.as_str());
                proof {
                    let pre = fields@.take(i as int);
                    let nxt = fields@.take(i + 1);
                    if has_empty {
                        if field_or_empty(te, fields@[i as int]@).len() == 0 {
                            assert(!all_fields_present(te, nxt)) by {
                                assert(nxt[i as int] == fields@[i as int]);
                            }
                        } else {
                            assert(!all_fields_present(te, pre));
                            let j = choose|j: int| 0 <= j < pre.len() && !(field_or_empty(te, #[trigger] pre[j]@).len() > 0);
                            assert(nxt[j] == pre[j]);
                        }
                    } else {
                        assert forall|j: int| 0 <= j < nxt.len() implies field_or_empty(te, #[trigger] nxt[j]@).len() > 0 by {
                            if j < i {
                                assert(nxt[j] == pre[j]);
                            }
                        }
                    }
                }
                i = i + 1;
            }
            assert(fields@.take(fields.len() as int) =~= fields@);
            if has_empty {
                return String::new();
            }
            result
        },
        None => tag_config.label.clone(),
    }
}

/// The tag an item earns from tag `id`, if its condition holds and its label
/// is non-empty.
pub open spec fn earned(item: Seq<(Seq<char>, Seq<char>)>, id: Seq<char>, tc: TagConfig) -> bool {
    (match tc.condition {
        Some(c) => condition_holds(item, c),
        None => true,
    }) && tag_label(item, tc).len() > 0
}

/// Whether tag `t` is what tag configuration `(id, tc)` gives on the item.
pub open spec fn tag_of(item: Seq<(Seq<char>, Seq<char>)>, id: Seq<char>, tc: TagConfig, t: GameTag) -> bool {
    &&& t.id@ == id
    &&& t.label@ == tag_label(item, tc)
    &&& t.color == tc.color
    &&& t.background == tc.background
    &&& t.icon == tc.icon
    &&& t.priority == tc.priority
    &&& (match tc.style {
        Some(s) => t.style matches Some(n) && n@ == style_name(s),
        None => t.style is None,
    })
}

/// Tags in priority order: higher priority first.
pub open spec fn by_priority() -> spec_fn(GameTag, GameTag) -> bool {
    |a: GameTag, b: GameTag| a.priority >= b.priority
}

/// Whether `r` is `all` rearranged by `idx` (item `j` of `r` is item
/// `idx[j]` of `all`, each taken once) with items of equal priority left in
/// their order.
pub open spec fn stably_rearranged(r: Seq<GameTag>, all: Seq<GameTag>, idx: Seq<int>) -> bool {
    &&& idx.len() == r.len()
    &&& r.len() == all.len()
    &&& forall|j: int| 0 <= j < r.len() ==> 0 <= #[trigger] idx[j] < all.len() && r[j] == all[idx[j]]
    &&& forall|j: int, k: int| 0 <= j < k < r.len() ==> #[trigger] idx[j] != #[trigger] idx[k]
    &&& forall|j: int, k: int| 0 <= j < k < r.len() && (#[trigger] r[j]).priority == (#[trigger] r[k]).priority
        ==> idx[j] < idx[k]
}

/// Sort tags by priority, highest first; equal priorities keep their order.
pub fn sort_by_priority(tags: Vec<GameTag>) -> (r: Vec<GameTag>)
    ensures
        chained(r@, by_priority()),
        r@.to_multiset() == tags@.to_multiset(),
        exists|idx: Seq<int>| #[trigger] stably_rearranged(r@, tags@, idx),
{
    let mut out: Vec<GameTag> = Vec::new();
    let mut rest = tags;
    let ghost all = rest@;
    let ghost mut idx: Seq<int> = Seq::empty();
    proof {
        crate::order::lemma_empty_plus(out@, rest@);
        assert(all.skip(0) =~= all);
    }
    while rest.len() > 0
        invariant
            chained(out@, by_priority()),
            out@.to_multiset().add(rest@.to_multiset()) == all.to_multiset(),
            rest@ == all.skip(all.len() - rest.len()),
            rest.len() <= all.len(),
            idx.len() == out.len(),
            out.len() == all.len() - rest.len(),
            forall|j: int| 0 <= j < out.len() ==> 0 <= #[trigger] idx[j] < all.len() - rest.len() && out@[j] == all[idx[j]],
            forall|j: int, k: int| 0 <= j < k < out.len() ==> #[trigger] idx[j] != #[trigger] idx[k],
            forall|j: int, k: int| 0 <= j < k < out.len() && (#[trigger] out@[j]).priority == (#[trigger] out@[k]).priority
                ==> idx[j] < idx[k],
        decreases rest.len(),
    {
        let ghost before = rest@;
        let ghost old_out = out@;
        let ghost old_idx = idx;
        let ghost k = all.len() - rest.len();
        let x = rest.remove(0);
        proof {
            crate::order::lemma_take_first(before, old_out.to_multiset());
            assert(x == all[k]);
            assert(rest@ =~= all.skip(k + 1));
        }
        let mut p = out.len();
        while p > 0 && out[p - 1].priority < x.priority
            invariant
                p <= out.len(),
                out@ == old_out,
                forall|q: int| p <= q < out@.len() ==> #[trigger] out@[q].priority < x.priority,
            decreases p,
        {
            p = p - 1;
        }
        proof {
            crate::order::lemma_insert_keeps_chain(old_out, p as int, x, by_priority());
            crate::order::lemma_insert_multiset(old_out, p as int, x);
        }
        out.insert(p, x);
        proof {
            idx = old_idx.insert(p as int, k);
            assert(out@ == old_out.insert(p as int, x));
            assert forall|j: int| 0 <= j < out.len() implies 0 <= #[trigger] idx[j] < k + 1 && out@[j] == all[idx[j]] by {
                if j < p {
                    assert(idx[j] == old_idx[j]);
                    assert(out@[j] == old_out[j]);
                } else if j > p {
                    assert(idx[j] == old_idx[j - 1]);
                    assert(out@[j] == old_out[j - 1]);
                }
            }
            assert forall|j: int, m: int| 0 <= j < m < out.len() implies #[trigger] idx[j] != #[trigger] idx[m] by {
                if j != p && m != p {
                    let oj = if j < p { j } else { j - 1 };
                    let om = if m < p { m } else { m - 1 };
                    assert(idx[j] == old_idx[oj]);
                    assert(idx[m] == old_idx[om]);
                } else if j == p {
                    assert(idx[m] == old_idx[m - 1]);
                } else {
                    assert(idx[j] == old_idx[j]);
                }
            }
            assert forall|j: int, m: int| 0 <= j < m < out.len() && (#[trigger] out@[j]).priority == (#[trigger] out@[m]).priority
                implies idx[j] < idx[m] by {
                if j != p && m != p {
                    let oj = if j < p { j } else { j - 1 };
                    let om = if m < p { m } else { m - 1 };
                    assert(out@[j] == old_out[oj]);
                    assert(out@[m] == old_out[om]);
                    assert(idx[j] == old_idx[oj]);
                    assert(idx[m] == old_idx[om]);
                } else if j == p {
                    assert(out@[m] == old_out[m - 1]);
                } else {
                    assert(out@[j] == old_out[j]);
                    assert(idx[j] == old_idx[j]);
                }
            }
        }
    }
    proof {
        crate::order::lemma_empty_plus(rest@, out@);
        assert(stably_rearranged(out@, all, idx));
    }
    out
}

/// The tags an item earns, one per configured tag whose condition holds and
/// whose label is non-empty, highest priority first (tags of equal priority
/// in the configured order).
pub fn extract_tags(item: &Dict<String>, config: &SourceConfig) -> (r: Vec<GameTag>)
    ensures
        chained(r@, by_priority()),
        exists|earned_tags: Seq<GameTag>| {
            &&& #[trigger] r@.to_multiset() == earned_tags.to_multiset()
            &&& exists|idx: Seq<int>| stably_rearranged(r@, earned_tags, idx)
            &&& earned_tags.len() == (match config.tags {
                Some(d) => d.view().filter(|p: (Seq<char>, TagConfig)| earned(text_entries(item.view()), p.0, p.1)).len(),
                None => 0,
            })
            &&& (match config.tags {
                Some(d) => forall|i: int| 0 <= i < earned_tags.len() ==> {
                    let p = d.view().filter(|p: (Seq<char>, TagConfig)| earned(text_entries(item.view()), p.0, p.1))[i];
                    tag_of(text_entries(item.view()), p.0, p.1, #[trigger] earned_tags[i])
                },
                None => true,
            })
        },
{
    let ghost te = text_entries(item.view());
    let mut tags: Vec<GameTag> = Vec::new();
    match &config.tags {
        Some(tags_config) => {
            let ghost f = |p: (Seq<char>, TagConfig)| earned(te, p.0, p.1);
            let ghost cv = tags_config.view();
            let n = tags_config.len();
            let mut i: usize = 0;
            assert(cv.take(0).filter(f) =~= Seq::<(Seq<char>, TagConfig)>::empty());
            while i < n
                invariant
                    i <= n,
                    n == cv.len(),
                    cv == tags_config.view(),
                    te == text_entries(item.view()),
                    f == (|p: (Seq<char>, TagConfig)| earned(te, p.0, p.1)),
                    tags@.len() == cv.take(i as int).filter(f).len(),
                    forall|j: int| 0 <= j < tags@.len() ==> {
                        let p = #[trigger] cv.take(i as int).filter(f)[j];
                        tag_of(te, p.0, p.1, tags@[j])
                    },
                decreases n - i,
            {
                let ghost pre = cv.take(i as int);
                proof {
                    assert(cv.take(i + 1) =~= pre.push(cv[i as int]));
                    pre.lemma_filter_push(cv[i as int], f);
                }
                let tag_id = tags_config.key_at(i);
                let tag_config = tags_config.value_at(i);
                let passes = match &tag_config.condition {
                    Some(c) => check_condition(item, c),
                    None => true,
                };
                if passes {
                    let label = extract_tag_label(item, tag_config);
                    if !str_is_empty(label.as_str()) {
                        let style = match tag_config.style {
                            Some(s) => Some(style_text(s)),
                            None => None,
                        };
                        let tag = GameTag {
                            id: tag_id.clone(),
                            label,
                            color: crate::text::clone_opt(&tag_config.color),
                            background: crate::text::clone_opt(&tag_config.background),
                            icon: crate::text::clone_opt(&tag_config.icon),
                            priority: tag_config.priority,
                            style,
                        };
                        assert(f(cv[i as int]));
                        tags.push(tag);
                    } else {
                        assert(!f(cv[i as int]));
                    }
                } else {
                    assert(!f(cv[i as int]));
                }
                i = i + 1;
            }
            assert(cv.take(n as int) =~= cv);
            let ghost made = tags@;
            let r = sort_by_priority(tags);
            assert(made.len() == cv.filter(f).len());
            r
        },
        None => {
            let ghost made = tags@;
            let r = sort_by_priority(tags);
            assert(made.len() == 0);
            r
        },
    }
}

} // verus!
