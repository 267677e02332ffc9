//! Listing pages in HTML: each element the container selector picks becomes an
//! item whose fields the field selectors read.
use vstd::prelude::*;
use crate::config::source::{PageSelectors, FieldSelector};
use crate::dict::{Dict, text_entries, inserted, lookup};
use crate::text::{trim, join, views, str_trim, str_join, str_eq, str_is_empty, concat};
use crate::html::{html_picked, html_pick, ElementView, HtmlElement, Picked, element_view, picked_view, elements_view};

verus! {

/// Whether a field selector reads the container itself.
pub open spec fn is_self(sel: Seq<char>) -> bool {
    sel == "self"@ || sel.len() == 0
}

/// The attribute names a field may read, in the order it tries them.
pub open spec fn field_attrs(fs: FieldSelector, cfg: Option<Seq<(Seq<char>, Vec<String>)>>) -> Seq<Seq<char>> {
    match fs {
        FieldSelector::WithAttribute { selector, attribute, multiple } => match attribute {
            Some(a) => if is_self(selector@) || multiple {
                seq![a@]
            } else {
                match cfg {
                    Some(c) => match lookup(c, a@) {
                        Some(list) => views(list@),
                        None => seq![a@],
                    },
                    None => seq![a@],
                }
            },
            None => Seq::empty(),
        },
        _ => Seq::empty(),
    }
}

/// The attribute names all fields may read, field after field.
pub open spec fn all_attrs(fields: Seq<(Seq<char>, FieldSelector)>, cfg: Option<Seq<(Seq<char>, Vec<String>)>>) -> Seq<Seq<char>>
    decreases fields.len(),
{
    if fields.len() == 0 {
        Seq::empty()
    } else {
        all_attrs(fields.drop_last(), cfg) + field_attrs(fields.last().1, cfg)
    }
}

/// The selector a field reads below the container (empty when it reads none).
pub open spec fn field_selector_text(fs: FieldSelector) -> Seq<char> {
    match fs {
        FieldSelector::Simple(s) => s@,
        FieldSelector::WithAttribute { selector, .. } => selector@,
        FieldSelector::Static { .. } => Seq::empty(),
    }
}

/// The inner selectors of all fields, in order.
pub open spec fn inner_selectors(fields: Seq<(Seq<char>, FieldSelector)>) -> Seq<Seq<char>> {
    fields.map_values(|p: (Seq<char>, FieldSelector)| field_selector_text(p.1))
}

/// The first of `n` attribute values from position `off` that is present.
pub open spec fn first_present(attrs: Seq<Option<Seq<char>>>, off: int, n: int) -> Option<Seq<char>>
    decreases n,
{
    if n <= 0 {
        None
    } else {
        match first_present(attrs, off, n - 1) {
            Some(x) => Some(x),
            None => if 0 <= off + n - 1 < attrs.len() { attrs[off + n - 1] } else { None },
        }
    }
}

/// The attribute at `off`, if requested and present.
pub open spec fn attr_at(attrs: Seq<Option<Seq<char>>>, off: int) -> Option<Seq<char>> {
    if 0 <= off < attrs.len() { attrs[off] } else { None }
}

/// The values of several elements: the attribute at `off` where present (when
/// an attribute is read), else each element's trimmed text.
pub open spec fn multi_values(els: Seq<ElementView>, reads_attr: bool, off: int) -> Seq<Seq<char>>
    decreases els.len(),
{
    if els.len() == 0 {
        Seq::empty()
    } else {
        let pre = multi_values(els.drop_last(), reads_attr, off);
        if reads_attr {
            match attr_at(els.last().1, off) {
                Some(v) => pre.push(v),
                None => pre,
            }
        } else {
            pre.push(trim(els.last().0))
        }
    }
}

/// The value a field takes on a container, given what its selector picked
/// below it and where its attributes start among the requested ones.
pub open spec fn field_value(fs: FieldSelector, c: ElementView, inner: Option<Seq<ElementView>>, off: int, cfg: Option<Seq<(Seq<char>, Vec<String>)>>) -> Option<Seq<char>> {
    match fs {
        FieldSelector::Simple(_) => match inner {
            Some(els) => if els.len() > 0 { Some(trim(els[0].0)) } else { None },
            None => None,
        },
        FieldSelector::WithAttribute { selector, attribute, multiple } => if is_self(selector@) {
            match attribute {
                Some(_) => attr_at(c.1, off),
                None => Some(trim(c.0)),
            }
        } else {
            match inner {
                None => None,
                Some(els) => if multiple {
                    let vals = multi_values(els, attribute is Some, off);
                    if vals.len() == 0 { None } else { Some(join(vals, ", "@)) }
                } else if els.len() == 0 {
                    None
                } else {
                    match attribute {
                        Some(_) => first_present(els[0].1, off, field_attrs(fs, cfg).len() as int),
                        None => Some(trim(els[0].0)),
                    }
                },
            }
        },
        FieldSelector::Static { value } => Some(value@),
    }
}

/// The item read from a container: each field, in order, that has a value.
pub open spec fn container_item(fields: Seq<(Seq<char>, FieldSelector)>, cfg: Option<Seq<(Seq<char>, Vec<String>)>>, c: ElementView, inners: Seq<Option<Seq<ElementView>>>) -> Seq<(Seq<char>, Seq<char>)>
    decreases fields.len(),
{
    if fields.len() == 0 {
        Seq::empty()
    } else {
        let n = fields.len() - 1;
        let pre = container_item(fields.drop_last(), cfg, c, inners);
        let inner = if n < inners.len() { inners[n] } else { None };
        match field_value(fields.last().1, c, inner, all_attrs(fields.drop_last(), cfg).len() as int, cfg) {
            Some(v) => inserted(pre, fields.last().0, v),
            None => pre,
        }
    }
}

/// The items of a page: one per container, in document order, dropping
/// containers where no field has a value.
pub open spec fn page_items(containers: Seq<(ElementView, Seq<Option<Seq<ElementView>>>)>, fields: Seq<(Seq<char>, FieldSelector)>, cfg: Option<Seq<(Seq<char>, Vec<String>)>>) -> Seq<Seq<(Seq<char>, Seq<char>)>>
    decreases containers.len(),
{
    if containers.len() == 0 {
        Seq::empty()
    } else {
        let pre = page_items(containers.drop_last(), fields, cfg);
        let item = container_item(fields, cfg, containers.last().0, containers.last().1);
        if item.len() > 0 { pre.push(item) } else { pre }
    }
}

/// The attribute configuration as plain values.
pub open spec fn attrs_cfg(a: Option<Dict<Vec<String>>>) -> Option<Seq<(Seq<char>, Vec<String>)>> {
    match a {
        Some(d) => Some(d.view()),
        None => None,
    }
}

/// The page configuration a listing uses: the search page's on a search
/// (when there is one), else the main page's.
pub open spec fn page_config(sel: Seq<(Seq<char>, PageSelectors)>, is_search: bool) -> Option<PageSelectors> {
    let key = if is_search { "search_page"@ } else { "main_page"@ };
    match lookup(sel, key) {
        Some(p) => Some(p),
        None => lookup(sel, "main_page"@),
    }
}

/// What `parse` gives: the items, or why there are none.
pub open spec fn parsed_page(html: Seq<char>, sel: Seq<(Seq<char>, PageSelectors)>, cfg: Option<Seq<(Seq<char>, Vec<String>)>>, is_search: bool) -> Result<Seq<Seq<(Seq<char>, Seq<char>)>>, Seq<char>> {
    match page_config(sel, is_search) {
        None => Err("No selectors found for this page type"@),
        Some(page) => {
            let fields = page.fields.view();
            match html_picked(html, page.container@, all_attrs(fields, cfg), inner_selectors(fields)) {
                Err(e) => Err("Invalid container selector: "@ + e),
                Ok(cs) => Ok(page_items(cs, fields, cfg)),
            }
        },
    }
}

/// The attribute names a field may read, in the order it tries them.
fn field_attr_names(fs: &FieldSelector, attributes_config: &Option<Dict<Vec<String>>>) -> (r: Vec<String>)
    ensures
        views(r@) == field_attrs(*fs, attrs_cfg(*attributes_config)),
{
    match fs {
        FieldSelector::WithAttribute { selector, attribute, multiple } => match attribute {
            Some(a) => {
                if str_eq(selector.as_str(), "self") || str_is_empty(selector.as_str()) || *multiple {
                    let v = vec![a.clone()];
                    assert(views(v@) =~= seq![a@]);
                    v
                } else {
                    match attributes_config {
                        Some(c) => match c.get(a.as_str()) {
                            Some(list) => crate::dict::copy_strings(list),
                            None => {
                                let v = vec![a.clone()];
                                assert(views(v@) =~= seq![a@]);
                                v
                            },
                        },
                        None => {
                            let v = vec![a.clone()];
                            assert(views(v@) =~= seq![a@]);
                            v
                        },
                    }
                }
            },
            None => {
                let v: Vec<String> = Vec::new();
                assert(views(v@) =~= Seq::<Seq<char>>::empty());
                v
            },
        },
        _ => {
            let v: Vec<String> = Vec::new();
            assert(views(v@) =~= Seq::<Seq<char>>::empty());
            v
        },
    }
}

/// The first present value among `n` attributes from `off`.
fn first_present_value(attrs: &Vec<Option<String>>, off: usize, n: usize) -> (r: Option<String>)
    ensures
        crate::engine::navigator::opt_text(r) == first_present(crate::regex_ext::opt_views(attrs@), off as int, n as int),
{
    let ghost av = crate::regex_ext::opt_views(attrs@);
    let mut k: usize = 0;
    while k < n
        invariant
            k <= n,
            av == crate::regex_ext::opt_views(attrs@),
            first_present(av, off as int, k as int) is None,
        decreases n - k,
    {
        if off <= attrs.len() && k < attrs.len() - off {
            match &attrs[off + k] {
                Some(v) => {
                    proof { lemma_first_present_stays(av, off as int, k + 1, n as int); }
                    return Some(v.clone());
                },
                None => {},
            }
        }
        k = k + 1;
    }
    None
}

proof fn lemma_first_present_stays(attrs: Seq<Option<Seq<char>>>, off: int, m: int, n: int)
    requires
        0 < m <= n,
        first_present(attrs, off, m) is Some,
    ensures
        first_present(attrs, off, n) == first_present(attrs, off, m),
    decreases n - m,
{
    if n > m {
        lemma_first_present_stays(attrs, off, m, n - 1);
    }
}

/// The attribute at `off` of an element, if requested and present.
fn attr_value(attrs: &Vec<Option<String>>, off: usize) -> (r: Option<String>)
    ensures
        crate::engine::navigator::opt_text(r) == attr_at(crate::regex_ext::opt_views(attrs@), off as int),
{
    if off < attrs.len() {
        crate::text::clone_opt(&attrs[off])
    } else {
        None
    }
}

/// The value a field takes on a container.
fn extract_field(
    fs: &FieldSelector,
    container: &HtmlElement,
    inner: &Option<Vec<HtmlElement>>,
    off: usize,
    attributes_config: &Option<Dict<Vec<String>>>,
) -> (r: Option<String>)
    ensures
        crate::engine::navigator::opt_text(r) == field_value(*fs, element_view(*container),
            match *inner { Some(v) => Some(elements_view(v@)), None => None }, off as int, attrs_cfg(*attributes_config)),
{
    match fs {
        FieldSelector::Simple(_) => match inner {
            Some(els) => {
                if els.len() > 0 {
                    Some(str_trim(els[0].text.as_str()))
                } else {
                    None
                }
            },
            None => None,
        },
        FieldSelector::WithAttribute { selector, attribute, multiple } => {
            if str_eq(selector.as_str(), "self") || str_is_empty(selector.as_str()) {
                return match attribute {
                    Some(_) => attr_value(&container.attrs, off),
                    None => Some(str_trim(container.text.as_str())),
                };
            }
            match inner {
                None => None,
                Some(els) => {
                    if *multiple {
                        let ghost ev = elements_view(els@);
                        let mut vals: Vec<String> = Vec::new();
                        let mut i: usize = 0;
                        while i < els.len()
                            invariant
                                i <= els.len(),
                                ev == elements_view(els@),
                                views(vals@) == multi_values(ev.take(i as int), attribute is Some, off as int),
                            decreases els.len() - i,
                        {
                            proof {
                                assert(ev.take(i + 1).drop_last() =~= ev.take(i as int));
                                assert(ev.take(i + 1).last() == element_view(els@[i as int]));
                            }
                            match attribute {
                                Some(_) => {
                                    match attr_value(&els[i].attrs, off) {
                                        Some(v) => {
                                            proof { crate::text::lemma_views_push(vals@, v); }
                                            vals.push(v);
                                        },
                                        None => {},
                                    }
                                },
                                None => {
                                    let t = str_trim(els[i].text.as_str());
                                    proof { crate::text::lemma_views_push(vals@, t); }
                                    vals.push(t);
                                },
                            }
                            i = i + 1;
                        }
                        assert(ev.take(els.len() as int) =~= ev);
                        if vals.len() == 0 {
                            None
                        } else {
                            Some(str_join(vals.as_slice(), ", "))
                        }
                    } else if els.len() == 0 {
                        None
                    } else {
                        match attribute {
                            Some(_) => {
                                let names = field_attr_names(fs, attributes_config);
                                first_present_value(&els[0].attrs, off, names.len())
                            },
                            None => Some(str_trim(els[0].text.as_str())),
                        }
                    }
                },
            }
        },
        FieldSelector::Static { value } => Some(value.clone()),
    }
}

/// The items of a listing page.
pub fn parse(
    html: &str,
    selectors_config: &Dict<PageSelectors>,
    attributes_config: &Option<Dict<Vec<String>>>,
    is_search: bool,
) -> (r: Result<Vec<Dict<String>>, String>)
    ensures
        match r {
            Ok(items) => parsed_page(html@, selectors_config.view(), attrs_cfg(*attributes_config), is_search)
                == Ok::<Seq<Seq<(Seq<char>, Seq<char>)>>, Seq<char>>(items@.map_values(|d: Dict<String>| text_entries(d.view()))),
            Err(e) => parsed_page(html@, selectors_config.view(), attrs_cfg(*attributes_config), is_search)
                == Err::<Seq<Seq<(Seq<char>, Seq<char>)>>, Seq<char>>(e@),
        },
{
    let key = if is_search { "search_page" } else { "main_page" };
    let page = match selectors_config.get(key) {
        Some(p) => p,
        None => match selectors_config.get("main_page") {
            Some(p) => p,
            None => return Err("No selectors found for this page type".to_string()),
        },
    };
    let ghost cfg = attrs_cfg(*attributes_config);
    let ghost fields = page.fields.view();
    let nf = page.fields.len();
    // The attribute names and inner selectors of all fields.
    let mut names: Vec<String> = Vec::new();
    let mut offsets: Vec<usize> = Vec::new();
    let mut inner: Vec<String> = Vec::new();
    let mut j: usize = 0;
    assert(fields.take(0) =~= Seq::<(Seq<char>, FieldSelector)>::empty());
    while j < nf
        invariant
            j <= nf,
            nf == fields.len(),
            fields == page.fields.view(),
            cfg == attrs_cfg(*attributes_config),
            views(names@) == all_attrs(fields.take(j as int), cfg),
            offsets@.len() == j,
            forall|k: int| 0 <= k < j ==> #[trigger] offsets@[k] == all_attrs(fields.take(k), cfg).len(),
            views(inner@) == inner_selectors(fields.take(j as int)),
        decreases nf - j,
    {
        proof {
            assert(fields.take(j + 1).drop_last() =~= fields.take(j as int));
        }
        let fs = page.fields.value_at(j);
        let more = field_attr_names(fs, attributes_config);
        offsets.push(names.len());
        let sel = match fs {
            FieldSelector::Simple(s) => s.clone(),
            FieldSelector::WithAttribute { selector, .. } => selector.clone(),
            FieldSelector::Static { .. } => String::new(),
        };
        let ghost before = names@;
        let mut more = more;
        names.append(&mut more);
        proof {
            assert(views(names@) =~= views(before) + field_attrs(fields[j as int].1, cfg));
            crate::text::lemma_views_push(inner@, sel);
            assert(inner_selectors(fields.take(j + 1)) =~= inner_selectors(fields.take(j as int)).push(field_selector_text(fields[j as int].1)));
        }
        inner.push(sel);
        j = j + 1;
    }
    assert(fields.take(nf as int) =~= fields);
    let containers = match html_pick(html, page.container.as_str(), names.as_slice(), inner.as_slice()) {
        Err(e) => return Err(concat("Invalid container selector: ", e.as_str())),
        Ok(v) => v,
    };
    let ghost cv = containers@.map_values(|p: Picked| picked_view(p));
    let mut items: Vec<Dict<String>> = Vec::new();
    let mut c: usize = 0;
    assert(cv.take(0) =~= Seq::<(ElementView, Seq<Option<Seq<ElementView>>>)>::empty());
    while c < containers.len()
        invariant
            c <= containers.len(),
            cv == containers@.map_values(|p: Picked| picked_view(p)),
            nf == fields.len(),
            fields == page.fields.view(),
            cfg == attrs_cfg(*attributes_config),
            offsets@.len() == nf,
            forall|k: int| 0 <= k < nf ==> #[trigger] offsets@[k] == all_attrs(fields.take(k), cfg).len(),
            items@.map_values(|d: Dict<String>| text_entries(d.view())) == page_items(cv.take(c as int), fields, cfg),
        decreases containers.len() - c,
    {
        let p = &containers[c];
        let ghost pv = picked_view(*p);
        let mut item: Dict<String> = Dict::new();
        let mut j: usize = 0;
        assert(fields.take(0) =~= Seq::<(Seq<char>, FieldSelector)>::empty());
        while j < nf
            invariant
                j <= nf,
                nf == fields.len(),
                fields == page.fields.view(),
                cfg == attrs_cfg(*attributes_config),
                offsets@.len() == nf,
                forall|k: int| 0 <= k < nf ==> #[trigger] offsets@[k] == all_attrs(fields.take(k), cfg).len(),
                pv == picked_view(*p),
                text_entries(item.view()) == container_item(fields.take(j as int), cfg, pv.0, pv.1),
            decreases nf - j,
        {
            proof {
                assert(fields.take(j + 1).drop_last() =~= fields.take(j as int));
                assert(fields.take(j as int) == fields.take(j + 1).drop_last());
            }
            let none: Option<Vec<HtmlElement>> = None;
            let inner_j = if j < p.inner.len() { &p.inner[j] } else { &none };
            let v = extract_field(page.fields.value_at(j), &p.element, inner_j, offsets[j], attributes_config);
            match v {
                Some(v) => {
                    item.assert_unique();
                    proof { crate::dict::lemma_text_entries_inserted(item.view(), fields[j as int].0, v); }
                    item.insert(page.fields.key_at(j).clone(), v);
                },
                None => {},
            }
            j = j + 1;
        }
        assert(fields.take(nf as int) =~= fields);
        proof {
            assert(cv.take(c + 1).drop_last() =~= cv.take(c as int));
            assert(cv.take(c + 1).last() == pv);
        }
        let ghost before = items@;
        if item.len() > 0 {
            items.push(item);
            assert(items@.map_values(|d: Dict<String>| text_entries(d.view()))
                =~= before.map_values(|d: Dict<String>| text_entries(d.view())).push(text_entries(items@.last().view())));
        }
        c = c + 1;
    }
    assert(cv.take(containers.len() as int) =~= cv);
    Ok(items)
}

} // verus!
