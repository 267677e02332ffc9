//! The sections of a game's detail page, read from its HTML as the source's
//! configuration describes them.
use vstd::prelude::*;
use crate::html::{Picked, ElementView, element_view, elements_view, picked_view, html_picked, html_pick};
use crate::engine::html_parser::attr_at;
use crate::text::{
    contains, trim, split, join, views, replace_all, dec_of, parsed_u64, str_contains, str_trim, str_split,
    str_join, str_replace, str_eq, str_is_empty, concat, chars_of, slice_to_vec, string_from_chars,
    lemma_views_push, parse_u64,
};
use crate::types::detail_section::{
    SelectorConfig, BadgeConfig, VideoConfig, TextContentConfig, MetadataGridConfig, MetadataItem,
    NumberedStepsConfig, AlertBoxConfig, GridItem, Step, DownloadButtonsConfig, DownloadButtonConfig, Button,
    FieldExtraction, FieldData, HeroConfig, Badge, DetailSection, ExtractedSection, SectionData,
    DynamicSectionConfig, DynamicStyle,
};
use crate::regex_ext::{regex_valid, regex_groups, regex_captures, loose_tag_pattern, regex_replaced, remove_loose_tags};
use crate::unicode::{lowercase, uppercase, to_lower, to_upper};
use crate::html::HtmlElement;
use crate::text::{after_first, before_char, str_after_first, str_before_char, clone_opt, parsed_usize, parse_usize};
use crate::unicode::{numeric, is_numeric};

verus! {

/// The elements `selector` picks in `doc`, each with the attributes `attrs`
/// read; `None` when the selector is rejected.
pub open spec fn picked_elements(doc: Seq<char>, selector: Seq<char>, attrs: Seq<Seq<char>>) -> Option<Seq<ElementView>> {
    match html_picked(doc, selector, attrs, Seq::empty()) {
        Ok(ps) => Some(ps.map_values(|p: (ElementView, Seq<Option<Seq<ElementView>>>)| p.0)),
        Err(_) => None,
    }
}

/// The elements of a pick, as plain values.
pub open spec fn picks_view(v: Seq<Picked>) -> Seq<ElementView> {
    v.map_values(|p: Picked| element_view(p.element))
}

/// The elements `selector` picks in `doc`, with the attributes `attrs` read.
fn select(doc: &str, selector: &str, attrs: &Vec<String>) -> (r: Option<Vec<Picked>>)
    ensures
        match r {
            Some(v) => picked_elements(doc@, selector@, views(attrs@)) == Some(picks_view(v@)),
            None => picked_elements(doc@, selector@, views(attrs@)) is None,
        },
{
    let none: Vec<String> = Vec::new();
    assert(views(none@) =~= Seq::<Seq<char>>::empty());
    match html_pick(doc, selector, attrs.as_slice(), none.as_slice()) {
        Ok(v) => {
            proof {
                let ps = v@.map_values(|p: Picked| picked_view(p));
                assert(ps.map_values(|p: (ElementView, Seq<Option<Seq<ElementView>>>)| p.0) =~= picks_view(v@));
            }
            Some(v)
        },
        Err(_) => None,
    }
}

/// The one attribute to read, if any.
pub open spec fn attr_list(a: Option<String>) -> Seq<Seq<char>> {
    match a {
        Some(x) => seq![x@],
        None => Seq::empty(),
    }
}

/// An element's first requested attribute, empty when it is missing.
pub open spec fn first_attr_or_empty(e: ElementView) -> Seq<char> {
    match attr_at(e.1, 0) {
        Some(v) => v,
        None => Seq::empty(),
    }
}

/// A one-element list of names.
fn one_name(a: &Option<String>) -> (r: Vec<String>)
    ensures
        views(r@) == attr_list(*a),
{
    let mut v: Vec<String> = Vec::new();
    if let Some(x) = a {
        v.push(x.clone());
        assert(views(v@) =~= seq![x@]);
    } else {
        assert(views(v@) =~= Seq::<Seq<char>>::empty());
    }
    v
}

/// The first requested attribute of a picked element, empty when missing.
fn first_attr(p: &Picked) -> (r: String)
    ensures
        r@ == first_attr_or_empty(element_view(p.element)),
{
    if p.element.attrs.len() > 0 {
        match &p.element.attrs[0] {
            Some(v) => v.clone(),
            None => String::new(),
        }
    } else {
        String::new()
    }
}

/// What a selector configuration reads: from the first element it picks, the
/// configured attribute (empty when missing) or else the trimmed text.
pub open spec fn selector_value(doc: Seq<char>, c: SelectorConfig) -> Option<Seq<char>> {
    match picked_elements(doc, c.selector@, attr_list(c.attribute)) {
        Some(els) => if els.len() > 0 {
            Some(match c.attribute {
                Some(_) => first_attr_or_empty(els[0]),
                None => trim(els[0].0),
            })
        } else {
            None
        },
        None => None,
    }
}

/// What a selector configuration reads from `doc`.
pub fn extract_by_selector(doc: &str, c: &SelectorConfig) -> (r: Option<String>)
    ensures
        match r {
            Some(v) => selector_value(doc@, *c) == Some(v@),
            None => selector_value(doc@, *c) is None,
        },
{
    let names = one_name(&c.attribute);
    let els = match select(doc, c.selector.as_str(), &names) {
        Some(v) => v,
        None => return None,
    };
    if els.len() == 0 {
        return None;
    }
    proof { assert(picks_view(els@)[0] == element_view(els@[0].element)); }
    match &c.attribute {
        Some(_) => Some(first_attr(&els[0])),
        None => Some(str_trim(els[0].element.text.as_str())),
    }
}

/// What `str::parse::<u32>` gives.
pub open spec fn parsed_u32(s: Seq<char>) -> Option<nat> {
    match parsed_u64(s) {
        Some(n) => if n <= u32::MAX { Some(n) } else { None },
        None => None,
    }
}

/// `str::parse::<u32>`.
fn parse_u32(s: &str) -> (r: Option<u32>)
    ensures
        match r {
            Some(n) => parsed_u32(s@) == Some(n as nat),
            None => parsed_u32(s@) is None,
        },
{
    match parse_u64(s) {
        Some(n) => if n <= 0xffff_ffffu64 { Some(n as u32) } else { None },
        None => None,
    }
}

/// The second piece of `text` split at `sep`, if there is one.
pub open spec fn second_piece(text: Seq<char>, sep: Seq<char>) -> Option<Seq<char>> {
    let parts = split(text, sep);
    if parts.len() > 1 { Some(parts[1]) } else { None }
}

/// The second piece of `text` split at `sep`, if there is one.
fn str_second_piece(text: &str, sep: &str) -> (r: Option<String>)
    ensures
        match r {
            Some(v) => second_piece(text@, sep@) == Some(v@),
            None => second_piece(text@, sep@) is None,
        },
{
    let mut parts = str_split(text, sep);
    if parts.len() > 1 {
        assert(views(parts@)[1] == parts@[1]@);
        Some(parts.swap_remove(1))
    } else {
        None
    }
}

/// The value of a badge from the text of the element it reads: the trimmed
/// part after `extract_after` when that occurs; else, when asked for a
/// number, the number after the first `:` with the suffix; else the trimmed
/// text.
pub open spec fn badge_text(text: Seq<char>, c: BadgeConfig) -> Seq<char> {
    let after = match c.extract_after {
        Some(ea) => match second_piece(text, ea@) {
            Some(v) => Some(trim(v)),
            None => None,
        },
        None => None,
    };
    match after {
        Some(v) => v,
        None => {
            let num = if c.extract_number == Some(true) {
                match second_piece(text, ":"@) {
                    Some(v) => parsed_u32(trim(v)),
                    None => None,
                }
            } else {
                None
            };
            match num {
                Some(n) => dec_of(n) + match c.suffix { Some(s) => s@, None => Seq::empty() },
                None => trim(text),
            }
        },
    }
}

/// The badge value of the first element, from `i` on, whose text holds the
/// configured text.
pub open spec fn badge_from(els: Seq<ElementView>, c: BadgeConfig, i: int) -> Option<Seq<char>>
    decreases els.len() - i,
{
    if i < 0 || i >= els.len() {
        None
    } else if c.contains matches Some(k) && !contains(els[i].0, k@) {
        badge_from(els, c, i + 1)
    } else {
        Some(badge_text(els[i].0, c))
    }
}

/// The value of a badge on the page, if an element gives one.
pub open spec fn badge_value(doc: Seq<char>, c: BadgeConfig) -> Option<Seq<char>> {
    match picked_elements(doc, c.selector@, Seq::empty()) {
        Some(els) => badge_from(els, c, 0),
        None => None,
    }
}

/// The value of a badge from an element's text.
fn badge_of_text(text: &str, c: &BadgeConfig) -> (r: String)
    ensures
        r@ == badge_text(text@, *c),
{
    if let Some(ea) = &c.extract_after {
        if let Some(v) = str_second_piece(text, ea.as_str()) {
            return str_trim(v.as_str());
        }
    }
    if c.extract_number == Some(true) {
        if let Some(v) = str_second_piece(text, ":") {
            if let Some(n) = parse_u32(str_trim(v.as_str()).as_str()) {
                let digits = crate::text::to_decimal(n as u128);
                return match &c.suffix {
                    Some(s) => concat(digits.as_str(), s.as_str()),
                    None => {
                        assert(digits@ + Seq::<char>::empty() =~= digits@);
                        digits
                    },
                };
            }
        }
    }
    str_trim(text)
}

/// The value of a badge on the page, if an element gives one.
pub fn extract_badge_value(doc: &str, c: &BadgeConfig) -> (r: Option<String>)
    ensures
        match r {
            Some(v) => badge_value(doc@, *c) == Some(v@),
            None => badge_value(doc@, *c) is None,
        },
{
    let none: Vec<String> = Vec::new();
    assert(views(none@) =~= Seq::<Seq<char>>::empty());
    let els = match select(doc, c.selector.as_str(), &none) {
        Some(v) => v,
        None => return None,
    };
    let ghost ev = picks_view(els@);
    let mut i: usize = 0;
    while i < els.len()
        invariant
            i <= els.len(),
            ev == picks_view(els@),
            badge_value(doc@, *c) == badge_from(ev, *c, 0),
            badge_from(ev, *c, 0) == badge_from(ev, *c, i as int),
        decreases els.len() - i,
    {
        let text = &els[i].element.text;
        assert(ev[i as int].0 == text@);
        if let Some(k) = &c.contains {
            if !str_contains(text.as_str(), k.as_str()) {
                i = i + 1;
                continue;
            }
        }
        let v = badge_of_text(text.as_str(), c);
        assert(badge_from(ev, *c, i as int) == Some(badge_text(ev[i as int].0, *c)));
        return Some(v);
    }
    None
}

/// The embedded video's URL: the configured attribute of the first element
/// picked, with `youtube-nocookie.com` embeds rewritten to `youtube.com`
/// when the `youtube_embed` transform is configured; `None` when empty.
pub open spec fn video_url(doc: Seq<char>, c: VideoConfig) -> Option<Seq<char>> {
    match picked_elements(doc, c.selector@, seq![c.attribute@]) {
        Some(els) => if els.len() > 0 {
            let u0 = first_attr_or_empty(els[0]);
            let u = if c.transform matches Some(t) && t@ == "youtube_embed"@
                && (contains(u0, "youtube-nocookie.com/embed/"@) || contains(u0, "youtube.com/embed/"@)) {
                replace_all(u0, "youtube-nocookie.com"@, "youtube.com"@)
            } else {
                u0
            };
            if u.len() > 0 { Some(u) } else { None }
        } else {
            None
        },
        None => None,
    }
}

/// The embedded video's URL, if the page has one.
pub fn extract_video_url(doc: &str, c: &VideoConfig) -> (r: Option<String>)
    ensures
        match r {
            Some(v) => video_url(doc@, *c) == Some(v@),
            None => video_url(doc@, *c) is None,
        },
{
    let mut names: Vec<String> = Vec::new();
    names.push(c.attribute.clone());
    assert(views(names@) =~= seq![c.attribute@]);
    let els = match select(doc, c.selector.as_str(), &names) {
        Some(v) => v,
        None => return None,
    };
    if els.len() == 0 {
        return None;
    }
    proof { assert(picks_view(els@)[0] == element_view(els@[0].element)); }
    let u0 = first_attr(&els[0]);
    let is_embed = match &c.transform {
        Some(t) => str_eq(t.as_str(), "youtube_embed"),
        None => false,
    };
    let u = if is_embed && (str_contains(u0.as_str(), "youtube-nocookie.com/embed/") || str_contains(u0.as_str(), "youtube.com/embed/")) {
        str_replace(u0.as_str(), "youtube-nocookie.com", "youtube.com")
    } else {
        u0
    };
    if str_is_empty(u.as_str()) { None } else { Some(u) }
}

/// The non-empty lines of a text, each trimmed.
pub open spec fn kept_lines(parts: Seq<Seq<char>>) -> Seq<Seq<char>>
    decreases parts.len(),
{
    if parts.len() == 0 {
        Seq::empty()
    } else {
        let rest = kept_lines(parts.drop_last());
        let t = trim(parts.last());
        if t.len() > 0 { rest.push(t) } else { rest }
    }
}

/// A text with each line trimmed and the empty lines dropped.
pub open spec fn clean_lines(s: Seq<char>) -> Seq<char> {
    join(kept_lines(split(s, "\n"@)), "\n"@)
}

/// A text with each line trimmed and the empty lines dropped.
fn clean_text_lines(s: &str) -> (r: String)
    ensures
        r@ == clean_lines(s@),
{
    let parts = str_split(s, "\n");
    let ghost pv = views(parts@);
    let mut kept: Vec<String> = Vec::new();
    let mut i: usize = 0;
    assert(pv.take(0) =~= Seq::<Seq<char>>::empty());
    assert(views(kept@) =~= Seq::<Seq<char>>::empty());
    while i < parts.len()
        invariant
            i <= parts.len(),
            pv == views(parts@),
            views(kept@) == kept_lines(pv.take(i as int)),
        decreases parts.len() - i,
    {
        let t = str_trim(parts[i].as_str());
        proof {
            assert(pv.take(i + 1).drop_last() =~= pv.take(i as int));
            assert(pv.take(i + 1).last() == parts@[i as int]@);
        }
        if !str_is_empty(t.as_str()) {
            proof { lemma_views_push(kept@, t); }
            kept.push(t);
        }
        i = i + 1;
    }
    assert(pv.take(i as int) =~= pv);
    str_join(kept.as_slice(), "\n")
}

/// The text of a text-content section: from the first element picked, its
/// HTML (when `extract` is `html`) or its text, trimmed and cleaned line by
/// line, cut to `max_length` characters followed by `...` when longer;
/// `None` when empty.
pub open spec fn text_content(doc: Seq<char>, c: TextContentConfig) -> Option<Seq<char>> {
    match picked_elements(doc, c.selector@, Seq::empty()) {
        Some(els) => if els.len() > 0 {
            let raw = if c.extract@ == "html"@ { els[0].2 } else { els[0].0 };
            let content = clean_lines(trim(raw));
            let capped = match c.max_length {
                Some(m) => if content.len() > m { content.take(m as int) + "..."@ } else { content },
                None => content,
            };
            if capped.len() > 0 { Some(capped) } else { None }
        } else {
            None
        },
        None => None,
    }
}

/// The text of a text-content section, if the page has one.
pub fn extract_text_content(doc: &str, c: &TextContentConfig) -> (r: Option<String>)
    ensures
        match r {
            Some(v) => text_content(doc@, *c) == Some(v@),
            None => text_content(doc@, *c) is None,
        },
{
    let none: Vec<String> = Vec::new();
    assert(views(none@) =~= Seq::<Seq<char>>::empty());
    let els = match select(doc, c.selector.as_str(), &none) {
        Some(v) => v,
        None => return None,
    };
    if els.len() == 0 {
        return None;
    }
    proof { assert(picks_view(els@)[0] == element_view(els@[0].element)); }
    let raw: &str = if str_eq(c.extract.as_str(), "html") {
        els[0].element.html.as_str()
    } else {
        els[0].element.text.as_str()
    };
    let content = clean_text_lines(str_trim(raw).as_str());
    let capped = match c.max_length {
        Some(m) => {
            let cv = chars_of(content.as_str());
            if cv.len() > m {
                let head = string_from_chars(slice_to_vec(cv.as_slice(), 0, m));
                assert(head@ =~= content@.take(m as int));
                concat(head.as_str(), "...")
            } else {
                content
            }
        },
        None => content,
    };
    if str_is_empty(capped.as_str()) { None } else { Some(capped) }
}

/// The value an element gives a grid item: the configured attribute (empty
/// when missing) or the text, then the trimmed part after `extract_after`
/// when that occurs.
pub open spec fn grid_value(e: ElementView, c: MetadataItem) -> Seq<char> {
    let v = match c.attribute {
        Some(_) => first_attr_or_empty(e),
        None => e.0,
    };
    match c.extract_after {
        Some(ea) => match second_piece(v, ea@) {
            Some(x) => trim(x),
            None => v,
        },
        None => v,
    }
}

/// The value of the first element, from `i` on, whose text holds the
/// configured text and whose value is not empty.
pub open spec fn grid_from(els: Seq<ElementView>, c: MetadataItem, i: int) -> Option<Seq<char>>
    decreases els.len() - i,
{
    if i < 0 || i >= els.len() {
        None
    } else if c.contains matches Some(k) && !contains(els[i].0, k@) {
        grid_from(els, c, i + 1)
    } else if grid_value(els[i], c).len() > 0 {
        Some(grid_value(els[i], c))
    } else {
        grid_from(els, c, i + 1)
    }
}

/// A grid item as plain values.
pub open spec fn grid_item_view(g: GridItem) -> (Seq<char>, Seq<char>, Seq<char>, Option<String>, Option<String>) {
    (g.label@, g.icon@, g.value@, g.render_as, g.style)
}

/// The items of a metadata grid, in the configured order, one for each item
/// that finds a value; `None` when a selector is rejected.
pub open spec fn grid_items(doc: Seq<char>, items: Seq<MetadataItem>) -> Option<Seq<(Seq<char>, Seq<char>, Seq<char>, Option<String>, Option<String>)>>
    decreases items.len(),
{
    if items.len() == 0 {
        Some(Seq::empty())
    } else {
        match grid_items(doc, items.drop_last()) {
            Some(done) => {
                let c = items.last();
                match picked_elements(doc, c.selector@, attr_list(c.attribute)) {
                    Some(els) => match grid_from(els, c, 0) {
                        Some(v) => Some(done.push((c.label@, c.icon@, v, c.render_as, c.style))),
                        None => Some(done),
                    },
                    None => None,
                }
            },
            None => None,
        }
    }
}

proof fn lemma_grid_stops(doc: Seq<char>, items: Seq<MetadataItem>, i: int)
    requires
        0 <= i < items.len(),
        grid_items(doc, items.take(i + 1)) is None,
    ensures
        grid_items(doc, items) is None,
    decreases items.len() - i,
{
    if i + 1 < items.len() {
        assert(items.drop_last().take(i + 1) =~= items.take(i + 1));
        lemma_grid_stops(doc, items.drop_last(), i);
    } else {
        assert(items.take(i + 1) =~= items);
    }
}

/// The value an element gives a grid item.
fn grid_value_of(p: &Picked, c: &MetadataItem) -> (r: String)
    ensures
        r@ == grid_value(element_view(p.element), *c),
{
    let v = match &c.attribute {
        Some(_) => first_attr(p),
        None => p.element.text.clone(),
    };
    match &c.extract_after {
        Some(ea) => match str_second_piece(v.as_str(), ea.as_str()) {
            Some(x) => str_trim(x.as_str()),
            None => v,
        },
        None => v,
    }
}

/// The grid value of the first element that gives one.
fn first_grid_value(els: &Vec<Picked>, item: &MetadataItem) -> (r: Option<String>)
    ensures
        match r {
            Some(v) => grid_from(picks_view(els@), *item, 0) == Some(v@),
            None => grid_from(picks_view(els@), *item, 0) is None,
        },
{
    let ghost ev = picks_view(els@);
    let mut i: usize = 0;
    while i < els.len()
        invariant
            i <= els.len(),
            ev == picks_view(els@),
            grid_from(ev, *item, 0) == grid_from(ev, *item, i as int),
        decreases els.len() - i,
    {
        let text = &els[i].element.text;
        assert(ev[i as int] == element_view(els@[i as int].element));
        if let Some(want) = &item.contains {
            if !str_contains(text.as_str(), want.as_str()) {
                i = i + 1;
                continue;
            }
        }
        let v = grid_value_of(&els[i], item);
        if !str_is_empty(v.as_str()) {
            return Some(v);
        }
        i = i + 1;
    }
    None
}

/// The items of a metadata grid; `None` when a selector is rejected.
pub fn extract_metadata_grid(doc: &str, c: &MetadataGridConfig) -> (r: Option<Vec<GridItem>>)
    ensures
        match r {
            Some(v) => grid_items(doc@, c.items@) == Some(v@.map_values(|g: GridItem| grid_item_view(g))),
            None => grid_items(doc@, c.items@) is None,
        },
{
    let mut out: Vec<GridItem> = Vec::new();
    let mut k: usize = 0;
    assert(c.items@.take(0) =~= Seq::<MetadataItem>::empty());
    assert(out@.map_values(|g: GridItem| grid_item_view(g)) =~= Seq::<(Seq<char>, Seq<char>, Seq<char>, Option<String>, Option<String>)>::empty());
    while k < c.items.len()
        invariant
            k <= c.items.len(),
            grid_items(doc@, c.items@.take(k as int)) == Some(out@.map_values(|g: GridItem| grid_item_view(g))),
        decreases c.items.len() - k,
    {
        let item = &c.items[k];
        proof {
            assert(c.items@.take(k + 1).drop_last() =~= c.items@.take(k as int));
            assert(c.items@.take(k + 1).last() == *item);
        }
        let names = one_name(&item.attribute);
        let els = match select(doc, item.selector.as_str(), &names) {
            Some(v) => v,
            None => {
                proof { lemma_grid_stops(doc@, c.items@, k as int); }
                return None;
            },
        };
        let found = first_grid_value(&els, item);
        if let Some(v) = found {
            let g = GridItem {
                label: item.label.clone(),
                icon: item.icon.clone(),
                value: v,
                render_as: clone_opt(&item.render_as),
                style: clone_opt(&item.style),
            };
            proof {
                assert(out@.push(g).map_values(|g: GridItem| grid_item_view(g))
                    =~= out@.map_values(|g: GridItem| grid_item_view(g)).push(grid_item_view(g)));
            }
            out.push(g);
        }
        k = k + 1;
    }
    assert(c.items@.take(k as int) =~= c.items@);
    Some(out)
}

/// The step a line gives: a line starting with a numeric character, split at
/// its first `.` into a number (trimmed, parsed) and an instruction (trimmed).
pub open spec fn step_of(line: Seq<char>) -> Option<(nat, Seq<char>)> {
    if line.len() > 0 && numeric(line[0]) {
        match after_first(line, "."@) {
            Some(instr) => match parsed_usize(trim(before_char(line, '.'))) {
                Some(n) => Some((n, trim(instr))),
                None => None,
            },
            None => None,
        }
    } else {
        None
    }
}

/// The steps from line `i` on, given whether the steps section has started:
/// a line holding `start_after` starts it (and is skipped), with no
/// `start_after` every line is in it; a line holding `end_before` ends the
/// scan.
pub open spec fn steps_from(lines: Seq<Seq<char>>, c: NumberedStepsConfig, i: int, in_section: bool) -> Seq<(nat, Seq<char>)>
    decreases lines.len() - i,
{
    if i < 0 || i >= lines.len() {
        Seq::empty()
    } else {
        let line = trim(lines[i]);
        let starts = c.start_after matches Some(sa) && contains(line, sa@);
        let ins = if c.start_after is None { true } else { in_section || starts };
        if starts {
            steps_from(lines, c, i + 1, true)
        } else if c.end_before matches Some(eb) && contains(line, eb@) {
            Seq::empty()
        } else {
            let rest = steps_from(lines, c, i + 1, ins);
            match step_of(line) {
                Some(st) => if ins { seq![st] + rest } else { rest },
                None => rest,
            }
        }
    }
}

/// The numbered steps of the first element picked (its text split into
/// lines); `None` when there are none.
pub open spec fn numbered_steps(doc: Seq<char>, c: NumberedStepsConfig) -> Option<Seq<(nat, Seq<char>)>> {
    match picked_elements(doc, c.selector@, Seq::empty()) {
        Some(els) => if els.len() > 0 {
            let steps = steps_from(split(els[0].0, "\n"@), c, 0, false);
            if steps.len() > 0 { Some(steps) } else { None }
        } else {
            None
        },
        None => None,
    }
}

/// A step as plain values.
pub open spec fn step_view(s: Step) -> (nat, Seq<char>) {
    (s.step_number as nat, s.instruction@)
}

/// The step a line gives.
fn line_step(line: &str) -> (r: Option<Step>)
    ensures
        match r {
            Some(st) => step_of(line@) == Some(step_view(st)),
            None => step_of(line@) is None,
        },
{
    let v = chars_of(line);
    if v.len() == 0 || !is_numeric(v[0]) {
        return None;
    }
    match str_after_first(line, ".") {
        Some(instr) => match parse_usize(str_trim(str_before_char(line, '.').as_str()).as_str()) {
            Some(n) => Some(Step { step_number: n, instruction: str_trim(instr.as_str()) }),
            None => None,
        },
        None => None,
    }
}

proof fn lemma_steps_stop(lines: Seq<Seq<char>>, c: NumberedStepsConfig, i: int, ins: bool)
    requires
        0 <= i <= lines.len(),
    ensures
        i == lines.len() ==> steps_from(lines, c, i, ins) == Seq::<(nat, Seq<char>)>::empty(),
{
}

/// The numbered steps of the first element picked; `None` when there are none.
pub fn extract_numbered_steps(doc: &str, c: &NumberedStepsConfig) -> (r: Option<Vec<Step>>)
    ensures
        match r {
            Some(v) => numbered_steps(doc@, *c) == Some(v@.map_values(|s: Step| step_view(s))),
            None => numbered_steps(doc@, *c) is None,
        },
{
    let none: Vec<String> = Vec::new();
    assert(views(none@) =~= Seq::<Seq<char>>::empty());
    let els = match select(doc, c.selector.as_str(), &none) {
        Some(v) => v,
        None => return None,
    };
    if els.len() == 0 {
        return None;
    }
    proof { assert(picks_view(els@)[0] == element_view(els@[0].element)); }
    let lines = str_split(els[0].element.text.as_str(), "\n");
    let ghost lv = views(lines@);
    let mut steps: Vec<Step> = Vec::new();
    let mut in_section = false;
    let mut i: usize = 0;
    let mut ended = false;
    assert(steps@.map_values(|s: Step| step_view(s)) =~= Seq::<(nat, Seq<char>)>::empty());
    while i < lines.len() && !ended
        invariant
            i <= lines.len(),
            lv == views(lines@),
            ended ==> steps_from(lv, *c, i - 1, in_section) == Seq::<(nat, Seq<char>)>::empty() && i >= 1
                && steps_from(lv, *c, 0, false) == steps@.map_values(|s: Step| step_view(s)) + steps_from(lv, *c, i - 1, in_section),
            !ended ==> steps_from(lv, *c, 0, false)
                == steps@.map_values(|s: Step| step_view(s)) + steps_from(lv, *c, i as int, in_section),
        decreases lines.len() - i,
    {
        let line = str_trim(lines[i].as_str());
        assert(lv[i as int] == lines@[i as int]@);
        let ghost before = steps@.map_values(|s: Step| step_view(s));
        let starts = match &c.start_after {
            Some(sa) => str_contains(line.as_str(), sa.as_str()),
            None => false,
        };
        if starts {
            in_section = true;
            i = i + 1;
            continue;
        }
        if c.start_after.is_none() {
            in_section = true;
        }
        let ends = match &c.end_before {
            Some(eb) => str_contains(line.as_str(), eb.as_str()),
            None => false,
        };
        if ends {
            assert(steps_from(lv, *c, i as int, in_section) == Seq::<(nat, Seq<char>)>::empty());
            ended = true;
            i = i + 1;
        } else {
        let ghost rest = steps_from(lv, *c, i + 1, in_section);
        if in_section {
            if let Some(st) = line_step(line.as_str()) {
                proof {
                    assert(steps@.push(st).map_values(|s: Step| step_view(s)) =~= before.push(step_view(st)));
                    assert(before + (seq![step_view(st)] + rest) =~= before.push(step_view(st)) + rest);
                }
                steps.push(st);
            }
        }
        i = i + 1;
        }
    }
    proof {
        if i == lines.len() || ended {
            assert(steps@.map_values(|s: Step| step_view(s)) + Seq::<(nat, Seq<char>)>::empty() =~= steps@.map_values(|s: Step| step_view(s)));
        }
    }
    if steps.len() > 0 { Some(steps) } else { None }
}

/// The trimmed, non-empty texts of some elements.
pub open spec fn kept_texts(els: Seq<ElementView>) -> Seq<Seq<char>>
    decreases els.len(),
{
    if els.len() == 0 {
        Seq::empty()
    } else {
        let rest = kept_texts(els.drop_last());
        let t = trim(els.last().0);
        if t.len() > 0 { rest.push(t) } else { rest }
    }
}

/// The first inner pick of an element (`None` when the inner selector was
/// rejected).
pub open spec fn first_inner(inner: Seq<Option<Seq<ElementView>>>) -> Option<Seq<ElementView>> {
    if inner.len() > 0 { inner[0] } else { None }
}

/// The alert items of the first container, from `i` on, whose text holds
/// `parent_contains` and that has non-empty items; `None` also when the
/// items selector is rejected.
pub open spec fn alert_from(ps: Seq<(ElementView, Seq<Option<Seq<ElementView>>>)>, c: AlertBoxConfig, i: int) -> Option<Seq<Seq<char>>>
    decreases ps.len() - i,
{
    if i < 0 || i >= ps.len() {
        None
    } else if c.parent_contains matches Some(pc) && !contains(ps[i].0.0, pc@) {
        alert_from(ps, c, i + 1)
    } else {
        match first_inner(ps[i].1) {
            None => None,
            Some(inner) => {
                let items = kept_texts(inner);
                if items.len() > 0 { Some(items) } else { alert_from(ps, c, i + 1) }
            },
        }
    }
}

/// The items of an alert box: the static items when there are some; else,
/// with both selectors configured, the texts the items selector picks in the
/// first container that has any.
pub open spec fn alert_items(doc: Seq<char>, c: AlertBoxConfig) -> Option<Seq<Seq<char>>> {
    if c.items is Some && c.items->0@.len() > 0 {
        Some(views(c.items->0@))
    } else {
        match (c.selector, c.items_selector) {
            (Some(sel), Some(isel)) => match html_picked(doc, sel@, Seq::empty(), seq![isel@]) {
                Ok(ps) => alert_from(ps, c, 0),
                Err(_) => None,
            },
            _ => None,
        }
    }
}

/// The trimmed, non-empty texts of some elements.
fn texts_kept(els: &Vec<HtmlElement>) -> (r: Vec<String>)
    ensures
        views(r@) == kept_texts(elements_view(els@)),
{
    let ghost ev = elements_view(els@);
    let mut out: Vec<String> = Vec::new();
    let mut i: usize = 0;
    assert(ev.take(0) =~= Seq::<ElementView>::empty());
    assert(views(out@) =~= Seq::<Seq<char>>::empty());
    while i < els.len()
        invariant
            i <= els.len(),
            ev == elements_view(els@),
            views(out@) == kept_texts(ev.take(i as int)),
        decreases els.len() - i,
    {
        let t = str_trim(els[i].text.as_str());
        proof {
            assert(ev.take(i + 1).drop_last() =~= ev.take(i as int));
            assert(ev.take(i + 1).last() == ev[i as int]);
        }
        if !str_is_empty(t.as_str()) {
            proof { lemma_views_push(out@, t); }
            out.push(t);
        }
        i = i + 1;
    }
    assert(ev.take(i as int) =~= ev);
    out
}

/// A copy of a list of strings.
fn copy_list(v: &Vec<String>) -> (r: Vec<String>)
    ensures
        views(r@) == views(v@),
{
    let mut out: Vec<String> = Vec::new();
    let mut i: usize = 0;
    while i < v.len()
        invariant
            i <= v.len(),
            views(out@) == views(v@.take(i as int)),
        decreases v.len() - i,
    {
        let x = v[i].clone();
        proof {
            lemma_views_push(out@, x);
            assert(v@.take(i + 1) =~= v@.take(i as int).push(v@[i as int]));
            assert(views(v@.take(i + 1)) =~= views(v@.take(i as int)).push(v@[i as int]@));
        }
        out.push(x);
        i = i + 1;
    }
    assert(v@.take(i as int) =~= v@);
    out
}

/// The items of an alert box, if the page (or the configuration) has some.
pub fn extract_alert_items(doc: &str, c: &AlertBoxConfig) -> (r: Option<Vec<String>>)
    ensures
        match r {
            Some(v) => alert_items(doc@, *c) == Some(views(v@)),
            None => alert_items(doc@, *c) is None,
        },
{
    if let Some(st) = &c.items {
        if st.len() > 0 {
            return Some(copy_list(st));
        }
    }
    let (sel, isel) = match (&c.selector, &c.items_selector) {
        (Some(a), Some(b)) => (a, b),
        _ => return None,
    };
    let none: Vec<String> = Vec::new();
    let mut inner: Vec<String> = Vec::new();
    inner.push(isel.clone());
    assert(views(none@) =~= Seq::<Seq<char>>::empty());
    assert(views(inner@) =~= seq![isel@]);
    let ps = match html_pick(doc, sel.as_str(), none.as_slice(), inner.as_slice()) {
        Ok(v) => v,
        Err(_) => return None,
    };
    let ghost pv = ps@.map_values(|p: Picked| picked_view(p));
    let mut i: usize = 0;
    while i < ps.len()
        invariant
            i <= ps.len(),
            pv == ps@.map_values(|p: Picked| picked_view(p)),
            alert_items(doc@, *c) == alert_from(pv, *c, 0),
            alert_from(pv, *c, 0) == alert_from(pv, *c, i as int),
        decreases ps.len() - i,
    {
        let p = &ps[i];
        assert(pv[i as int] == picked_view(*p));
        if let Some(pc) = &c.parent_contains {
            if !str_contains(p.element.text.as_str(), pc.as_str()) {
                i = i + 1;
                continue;
            }
        }
        if p.inner.len() == 0 {
            return None;
        }
        assert(pv[i as int].1[0] == match p.inner@[0] { Some(v) => Some(elements_view(v@)), None => None::<Seq<ElementView>> });
        match &p.inner[0] {
            None => return None,
            Some(els) => {
                let items = texts_kept(els);
                if items.len() > 0 {
                    return Some(items);
                }
            },
        }
        i = i + 1;
    }
    None
}

/// A button's label: the element's text when so configured and not empty,
/// else the configured label.
pub open spec fn button_label(t: Seq<char>, c: DownloadButtonConfig) -> Seq<char> {
    if c.use_text_as_label == Some(true) && t.len() > 0 { t } else { c.label@ }
}

/// A button's action: `smart_download` when enabled, else the configured one.
pub open spec fn button_action(c: DownloadButtonConfig) -> Seq<char> {
    if c.smart_download == Some(true) { "smart_download"@ } else { c.action@ }
}

/// The (label, URL) pairs of the elements that make buttons: those with a
/// non-empty `href` whose trimmed text holds the required text.
pub open spec fn element_buttons(els: Seq<ElementView>, c: DownloadButtonConfig) -> Seq<(Seq<char>, Seq<char>)>
    decreases els.len(),
{
    if els.len() == 0 {
        Seq::empty()
    } else {
        let rest = element_buttons(els.drop_last(), c);
        let e = els.last();
        let url = first_attr_or_empty(e);
        let t = trim(e.0);
        if (c.contains_text matches Some(req) && !contains(t, req@)) || url.len() == 0 {
            rest
        } else {
            rest.push((button_label(t, c), url))
        }
    }
}

/// The buttons of all button configurations, each with the index of its
/// configuration; a configuration whose selector is rejected gives none.
pub open spec fn all_buttons(doc: Seq<char>, cs: Seq<DownloadButtonConfig>) -> Seq<(int, Seq<char>, Seq<char>)>
    decreases cs.len(),
{
    if cs.len() == 0 {
        Seq::empty()
    } else {
        let k = cs.len() - 1;
        let mine = match picked_elements(doc, cs.last().selector@, seq!["href"@]) {
            Some(els) => element_buttons(els, cs.last()),
            None => Seq::empty(),
        };
        all_buttons(doc, cs.drop_last()) + mine.map_values(|p: (Seq<char>, Seq<char>)| (k, p.0, p.1))
    }
}

/// Whether button `b` is the one configuration `c` makes with this label and URL.
pub open spec fn button_is(b: Button, c: DownloadButtonConfig, label: Seq<char>, url: Seq<char>) -> bool {
    &&& b.label@ == label
    &&& b.url@ == url
    &&& b.icon@ == c.icon@
    &&& b.style@ == c.style@
    &&& b.action@ == button_action(c)
    &&& b.resolve_link == c.resolve_link
    &&& b.smart_download == c.smart_download
    &&& b.resolver == c.resolver
    &&& b.supported == match c.supported { Some(x) => x, None => true }
    &&& b.warning == c.warning
}

/// The button configuration `c` makes with this label and URL.
fn make_button(c: &DownloadButtonConfig, label: String, url: String) -> (b: Button)
    ensures
        button_is(b, *c, label@, url@),
{
    let action = if c.smart_download == Some(true) {
        String::from_str("smart_download")
    } else {
        c.action.clone()
    };
    Button {
        label,
        url,
        icon: c.icon.clone(),
        style: c.style.clone(),
        action,
        resolve_link: c.resolve_link,
        smart_download: c.smart_download,
        resolver: clone_opt(&c.resolver),
        supported: match c.supported { Some(x) => x, None => true },
        warning: clone_opt(&c.warning),
    }
}

/// The buttons one configuration makes from the elements it picked.
fn buttons_for(c: &DownloadButtonConfig, els: &Vec<Picked>) -> (r: Vec<Button>)
    ensures
        r.len() == element_buttons(picks_view(els@), *c).len(),
        forall|j: int| 0 <= j < r.len() ==> {
            let (label, url) = element_buttons(picks_view(els@), *c)[j];
            button_is(#[trigger] r@[j], *c, label, url)
        },
{
    let ghost ev = picks_view(els@);
    let mut out: Vec<Button> = Vec::new();
    let mut i: usize = 0;
    assert(ev.take(0) =~= Seq::<ElementView>::empty());
    while i < els.len()
        invariant
            i <= els.len(),
            ev == picks_view(els@),
            out.len() == element_buttons(ev.take(i as int), *c).len(),
            forall|j: int| 0 <= j < out.len() ==> {
                let (label, url) = element_buttons(ev.take(i as int), *c)[j];
                button_is(#[trigger] out@[j], *c, label, url)
            },
        decreases els.len() - i,
    {
        let p = &els[i];
        assert(ev[i as int] == element_view(p.element));
        proof {
            assert(ev.take(i + 1).drop_last() =~= ev.take(i as int));
            assert(ev.take(i + 1).last() == ev[i as int]);
        }
        let url = first_attr(p);
        let t = str_trim(p.element.text.as_str());
        let wanted = match &c.contains_text {
            Some(req) => str_contains(t.as_str(), req.as_str()),
            None => true,
        };
        if wanted && !str_is_empty(url.as_str()) {
            let label = if c.use_text_as_label == Some(true) && !str_is_empty(t.as_str()) {
                t
            } else {
                c.label.clone()
            };
            let b = make_button(c, label, url);
            out.push(b);
        }
        i = i + 1;
    }
    assert(ev.take(i as int) =~= ev);
    out
}

/// Whether `r` holds, in order, the buttons that `spec` describes (each by
/// its configuration's index, label and URL).
pub open spec fn buttons_match(r: Seq<Button>, spec: Seq<(int, Seq<char>, Seq<char>)>, cs: Seq<DownloadButtonConfig>) -> bool {
    &&& r.len() == spec.len()
    &&& forall|j: int| 0 <= j < r.len() ==> 0 <= (#[trigger] spec[j]).0 < cs.len()
            && button_is(r[j], cs[spec[j].0], spec[j].1, spec[j].2)
}

/// The download buttons of a page, configuration by configuration and
/// element by element.
pub fn extract_download_buttons(doc: &str, config: &DownloadButtonsConfig) -> (r: Vec<Button>)
    ensures
        buttons_match(r@, all_buttons(doc@, config.buttons@), config.buttons@),
{
    let cs = &config.buttons;
    let mut out: Vec<Button> = Vec::new();
    let mut k: usize = 0;
    let mut names: Vec<String> = Vec::new();
    names.push(String::from_str("href"));
    assert(views(names@) =~= seq!["href"@]);
    assert(cs@.take(0) =~= Seq::<DownloadButtonConfig>::empty());
    while k < cs.len()
        invariant
            k <= cs.len(),
            views(names@) == seq!["href"@],
            buttons_match(out@, all_buttons(doc@, cs@.take(k as int)), cs@),
            forall|j: int| 0 <= j < out.len() ==> (#[trigger] all_buttons(doc@, cs@.take(k as int))[j]).0 < k,
        decreases cs.len() - k,
    {
        let c = &cs[k];
        let ghost before = all_buttons(doc@, cs@.take(k as int));
        proof {
            assert(cs@.take(k + 1).drop_last() =~= cs@.take(k as int));
            assert(cs@.take(k + 1).last() == *c);
        }
        let ghost start = out.len();
        match select(doc, c.selector.as_str(), &names) {
            None => {
                proof {
                    let m = Seq::<(Seq<char>, Seq<char>)>::empty().map_values(|p: (Seq<char>, Seq<char>)| (k as int, p.0, p.1));
                    assert(m =~= Seq::<(int, Seq<char>, Seq<char>)>::empty());
                    assert(all_buttons(doc@, cs@.take(k + 1)) =~= before);
                }
            },
            Some(els) => {
                let mut mine = buttons_for(c, &els);
                let ghost m = element_buttons(picks_view(els@), *c).map_values(|p: (Seq<char>, Seq<char>)| (k as int, p.0, p.1));
                let ghost old_out = out@;
                let ghost mine_v = mine@;
                out.append(&mut mine);
                proof {
                    let after = all_buttons(doc@, cs@.take(k + 1));
                    assert(after == before + m);
                    assert forall|j: int| 0 <= j < out.len() implies 0 <= (#[trigger] after[j]).0 < cs@.len()
                        && button_is(out@[j], cs@[after[j].0], after[j].1, after[j].2) && after[j].0 < k + 1 by {
                        if j >= start {
                            assert(after[j] == m[j - start]);
                            assert(out@[j] == mine_v[j - start]);
                        } else {
                            assert(after[j] == before[j]);
                            assert(out@[j] == old_out[j]);
                        }
                    }
                }
            },
        }
        k = k + 1;
    }
    assert(cs@.take(k as int) =~= cs@);
    out
}

/// What a dynamic-field transform does: `trim`, `lowercase`, `uppercase`,
/// `strip_html` (tags removed, then trimmed); any other name leaves the value.
pub open spec fn transformed_value(v: Seq<char>, t: Seq<char>) -> Seq<char> {
    if t == "trim"@ {
        trim(v)
    } else if t == "lowercase"@ {
        lowercase(v)
    } else if t == "uppercase"@ {
        uppercase(v)
    } else if t == "strip_html"@ {
        trim(regex_replaced(loose_tag_pattern(), v, ""@))
    } else {
        v
    }
}

/// Apply a dynamic-field transform.
pub fn apply_transform(value: &str, transform: &str) -> (r: String)
    ensures
        r@ == transformed_value(value@, transform@),
{
    if str_eq(transform, "trim") {
        str_trim(value)
    } else if str_eq(transform, "lowercase") {
        to_lower(value)
    } else if str_eq(transform, "uppercase") {
        to_upper(value)
    } else if str_eq(transform, "strip_html") {
        let stripped = remove_loose_tags(value);
        str_trim(stripped.as_str())
    } else {
        String::from_str(value)
    }
}

/// A value narrowed by a pattern: its first group where that took part, else
/// the whole match; unchanged when the pattern is rejected or does not match.
pub open spec fn pattern_applied(v: Seq<char>, p: Seq<char>) -> Seq<char> {
    if !regex_valid(p) {
        v
    } else {
        match regex_groups(p, v) {
            Some(g) => if g.len() > 1 && g[1] is Some {
                g[1]->0
            } else if g.len() > 0 && g[0] is Some {
                g[0]->0
            } else {
                v
            },
            None => v,
        }
    }
}

/// The attribute a dynamic field reads (`href` unless configured), when it
/// reads one.
pub open spec fn field_attrs(f: FieldExtraction) -> Seq<Seq<char>> {
    if f.extract@ == "attribute"@ {
        seq![match f.attribute { Some(a) => a@, None => "href"@ }]
    } else {
        Seq::empty()
    }
}

/// The value an element gives a dynamic field: its HTML, the attribute (none
/// when missing) or its text, trimmed, narrowed by the pattern, transformed;
/// `None` when empty.
pub open spec fn element_value(e: ElementView, f: FieldExtraction) -> Option<Seq<char>> {
    let raw = if f.extract@ == "html"@ {
        Some(e.2)
    } else if f.extract@ == "attribute"@ {
        attr_at(e.1, 0)
    } else {
        Some(e.0)
    };
    match raw {
        None => None,
        Some(x) => {
            let v0 = trim(x);
            let v1 = match f.pattern { Some(p) => pattern_applied(v0, p@), None => v0 };
            let v2 = match f.transform { Some(t) => transformed_value(v1, t@), None => v1 };
            if v2.len() > 0 { Some(v2) } else { None }
        },
    }
}

/// The values the elements give, skipping those that give none.
pub open spec fn element_values(els: Seq<ElementView>, f: FieldExtraction) -> Seq<Seq<char>>
    decreases els.len(),
{
    if els.len() == 0 {
        Seq::empty()
    } else {
        let rest = element_values(els.drop_last(), f);
        match element_value(els.last(), f) {
            Some(v) => rest.push(v),
            None => rest,
        }
    }
}

/// A dynamic field's value: all the values (several elements) or the first
/// element's; `None` when the selector is rejected or nothing is found.
pub open spec fn dynamic_field(doc: Seq<char>, f: FieldExtraction) -> Option<(bool, Seq<Seq<char>>)> {
    match picked_elements(doc, f.selector@, field_attrs(f)) {
        None => None,
        Some(els) => if f.multiple {
            let vs = element_values(els, f);
            if vs.len() > 0 { Some((true, vs)) } else { None }
        } else if els.len() > 0 {
            match element_value(els[0], f) {
                Some(v) => Some((false, seq![v])),
                None => None,
            }
        } else {
            None
        },
    }
}

/// A field value as plain values.
pub open spec fn field_data_view(d: FieldData) -> (bool, Seq<Seq<char>>) {
    match d {
        FieldData::Single(s) => (false, seq![s@]),
        FieldData::Many(v) => (true, views(v@)),
    }
}

/// The value an element gives a dynamic field.
fn value_of_element(p: &Picked, f: &FieldExtraction) -> (r: Option<String>)
    ensures
        match r {
            Some(v) => element_value(element_view(p.element), *f) == Some(v@),
            None => element_value(element_view(p.element), *f) is None,
        },
{
    let raw: String = if str_eq(f.extract.as_str(), "html") {
        p.element.html.clone()
    } else if str_eq(f.extract.as_str(), "attribute") {
        if p.element.attrs.len() == 0 {
            return None;
        }
        match &p.element.attrs[0] {
            Some(v) => v.clone(),
            None => return None,
        }
    } else {
        p.element.text.clone()
    };
    let v0 = str_trim(raw.as_str());
    let v1 = match &f.pattern {
        Some(pat) => match regex_captures(pat.as_str(), v0.as_str()) {
            Ok(Some(g)) => {
                if g.len() > 1 && g[1].is_some() {
                    match &g[1] { Some(x) => x.clone(), None => v0 }
                } else if g.len() > 0 && g[0].is_some() {
                    match &g[0] { Some(x) => x.clone(), None => v0 }
                } else {
                    v0
                }
            },
            _ => v0,
        },
        None => v0,
    };
    let v2 = match &f.transform {
        Some(t) => apply_transform(v1.as_str(), t.as_str()),
        None => v1,
    };
    if str_is_empty(v2.as_str()) { None } else { Some(v2) }
}

/// A dynamic field's value; `None` when the selector is rejected or nothing
/// is found.
pub fn extract_dynamic_field(doc: &str, f: &FieldExtraction) -> (r: Option<FieldData>)
    ensures
        match r {
            Some(d) => dynamic_field(doc@, *f) == Some(field_data_view(d)),
            None => dynamic_field(doc@, *f) is None,
        },
{
    let mut names: Vec<String> = Vec::new();
    if str_eq(f.extract.as_str(), "attribute") {
        let a = match &f.attribute {
            Some(a) => a.clone(),
            None => String::from_str("href"),
        };
        names.push(a);
        assert(views(names@) =~= field_attrs(*f));
    } else {
        assert(views(names@) =~= field_attrs(*f));
    }
    let els = match select(doc, f.selector.as_str(), &names) {
        Some(v) => v,
        None => return None,
    };
    let ghost ev = picks_view(els@);
    if f.multiple {
        let mut vs: Vec<String> = Vec::new();
        let mut i: usize = 0;
        assert(ev.take(0) =~= Seq::<ElementView>::empty());
        assert(views(vs@) =~= Seq::<Seq<char>>::empty());
        while i < els.len()
            invariant
                i <= els.len(),
                ev == picks_view(els@),
                views(vs@) == element_values(ev.take(i as int), *f),
            decreases els.len() - i,
        {
            assert(ev[i as int] == element_view(els@[i as int].element));
            proof {
                assert(ev.take(i + 1).drop_last() =~= ev.take(i as int));
                assert(ev.take(i + 1).last() == ev[i as int]);
            }
            if let Some(v) = value_of_element(&els[i], f) {
                proof { lemma_views_push(vs@, v); }
                vs.push(v);
            }
            i = i + 1;
        }
        assert(ev.take(i as int) =~= ev);
        if vs.len() > 0 { Some(FieldData::Many(vs)) } else { None }
    } else {
        if els.len() == 0 {
            return None;
        }
        assert(ev[0] == element_view(els@[0].element));
        match value_of_element(&els[0], f) {
            Some(v) => Some(FieldData::Single(v)),
            None => None,
        }
    }
}

/// The fields of a dynamic section, in the configured order: each field's
/// value, else its default; fields with neither are left out.
pub open spec fn dynamic_entries(doc: Seq<char>, fields: Seq<(Seq<char>, FieldExtraction)>) -> Seq<(Seq<char>, (bool, Seq<Seq<char>>))>
    decreases fields.len(),
{
    if fields.len() == 0 {
        Seq::empty()
    } else {
        let rest = dynamic_entries(doc, fields.drop_last());
        let (name, f) = fields.last();
        match dynamic_field(doc, f) {
            Some(m) => rest.push((name, m)),
            None => match f.default {
                Some(d) => rest.push((name, (false, seq![d@]))),
                None => rest,
            },
        }
    }
}

/// An extracted field as plain values.
pub open spec fn entry_view(e: (String, FieldData)) -> (Seq<char>, (bool, Seq<Seq<char>>)) {
    (e.0@, field_data_view(e.1))
}

/// The fields of a dynamic section.
pub fn extract_dynamic_fields(doc: &str, fields: &crate::dict::Dict<FieldExtraction>) -> (r: Vec<(String, FieldData)>)
    ensures
        r@.map_values(|e: (String, FieldData)| entry_view(e)) == dynamic_entries(doc@, fields.view()),
{
    let ghost fv = fields.view();
    let mut out: Vec<(String, FieldData)> = Vec::new();
    let mut i: usize = 0;
    let n = fields.len();
    assert(fv.take(0) =~= Seq::<(Seq<char>, FieldExtraction)>::empty());
    assert(out@.map_values(|e: (String, FieldData)| entry_view(e)) =~= Seq::<(Seq<char>, (bool, Seq<Seq<char>>))>::empty());
    while i < n
        invariant
            i <= n,
            fv == fields.view(),
            fv.len() == n,
            out@.map_values(|e: (String, FieldData)| entry_view(e)) == dynamic_entries(doc@, fv.take(i as int)),
        decreases n - i,
    {
        let name = fields.key_at(i);
        let f = fields.value_at(i);
        proof {
            assert(fv.take(i + 1).drop_last() =~= fv.take(i as int));
            assert(fv.take(i + 1).last() == fv[i as int]);
        }
        let ghost before = out@.map_values(|e: (String, FieldData)| entry_view(e));
        match extract_dynamic_field(doc, f) {
            Some(d) => {
                let e = (name.clone(), d);
                out.push(e);
                assert(out@.map_values(|e: (String, FieldData)| entry_view(e)) =~= before.push(entry_view(e)));
            },
            None => {
                if let Some(dflt) = &f.default {
                    let e = (name.clone(), FieldData::Single(dflt.clone()));
                    out.push(e);
                    assert(out@.map_values(|e: (String, FieldData)| entry_view(e)) =~= before.push(entry_view(e)));
                }
            },
        }
        i = i + 1;
    }
    assert(fv.take(i as int) =~= fv);
    out
}

/// The badges of a banner, each with the index of its configuration.
pub open spec fn hero_badges(doc: Seq<char>, bs: Seq<BadgeConfig>) -> Seq<(int, Seq<char>)>
    decreases bs.len(),
{
    if bs.len() == 0 {
        Seq::empty()
    } else {
        let rest = hero_badges(doc, bs.drop_last());
        match badge_value(doc, bs.last()) {
            Some(v) => rest.push((bs.len() - 1, v)),
            None => rest,
        }
    }
}

/// Whether `b` is the badge configuration `c` makes with value `v`.
pub open spec fn badge_is(b: Badge, c: BadgeConfig, v: Seq<char>) -> bool {
    b.label@ == c.label@ && b.icon@ == c.icon@ && b.value@ == v && b.style@ == c.style@
}

/// Whether `r` holds, in order, the badges that `spec` describes.
pub open spec fn badges_match(r: Seq<Badge>, spec: Seq<(int, Seq<char>)>, cs: Seq<BadgeConfig>) -> bool {
    &&& r.len() == spec.len()
    &&& forall|j: int| 0 <= j < r.len() ==> 0 <= (#[trigger] spec[j]).0 < cs.len() && badge_is(r[j], cs[spec[j].0], spec[j].1)
}

/// The badges of a banner.
fn extract_badges(doc: &str, bs: &Vec<BadgeConfig>) -> (r: Vec<Badge>)
    ensures
        badges_match(r@, hero_badges(doc@, bs@), bs@),
{
    let mut out: Vec<Badge> = Vec::new();
    let mut k: usize = 0;
    assert(bs@.take(0) =~= Seq::<BadgeConfig>::empty());
    while k < bs.len()
        invariant
            k <= bs.len(),
            badges_match(out@, hero_badges(doc@, bs@.take(k as int)), bs@),
            forall|j: int| 0 <= j < out.len() ==> (#[trigger] hero_badges(doc@, bs@.take(k as int))[j]).0 < k,
        decreases bs.len() - k,
    {
        let c = &bs[k];
        let ghost before = hero_badges(doc@, bs@.take(k as int));
        proof {
            assert(bs@.take(k + 1).drop_last() =~= bs@.take(k as int));
            assert(bs@.take(k + 1).last() == *c);
        }
        if let Some(v) = extract_badge_value(doc, c) {
            let b = Badge { label: c.label.clone(), icon: c.icon.clone(), value: v, style: c.style.clone() };
            let ghost old_out = out@;
            out.push(b);
            proof {
                let after = hero_badges(doc@, bs@.take(k + 1));
                assert(after == before.push((k as int, b.value@)));
                assert forall|j: int| 0 <= j < out.len() implies 0 <= (#[trigger] after[j]).0 < bs@.len()
                    && badge_is(out@[j], bs@[after[j].0], after[j].1) && after[j].0 < k + 1 by {
                    if j < old_out.len() {
                        assert(after[j] == before[j]);
                        assert(out@[j] == old_out[j]);
                    }
                }
            }
        }
        k = k + 1;
    }
    assert(bs@.take(k as int) =~= bs@);
    out
}

/// An optional string's text.
pub open spec fn opt_text(o: Option<String>) -> Option<Seq<char>> {
    match o {
        Some(s) => Some(s@),
        None => None,
    }
}

/// Whether `x` is the banner section of `config` at `order`.
pub open spec fn hero_ok(x: ExtractedSection, doc: Seq<char>, order: u32, config: HeroConfig) -> bool {
    &&& x.section_type@ == "hero"@
    &&& x.order == order
    &&& x.title is None && x.icon is None && x.style is None
    &&& match x.data {
        SectionData::Hero { background_image, title, subtitle, badges } => {
            &&& opt_text(background_image) == selector_value(doc, config.background_image)
            &&& Some(title@) == selector_value(doc, config.title)
            &&& opt_text(subtitle) == match config.subtitle { Some(sc) => selector_value(doc, sc), None => None }
            &&& badges_match(badges@, hero_badges(doc, config.badges@), config.badges@)
        },
        _ => false,
    }
}

/// Whether `x` carries the common fields of a titled section.
pub open spec fn titled(x: ExtractedSection, kind: Seq<char>, order: u32, title: String, icon: String, style: Option<String>) -> bool {
    &&& x.section_type@ == kind
    &&& x.order == order
    &&& x.title == Some(title)
    &&& x.icon == Some(icon)
    &&& x.style == style
}

/// Whether section `s` shows on the page.
pub open spec fn section_present(doc: Seq<char>, s: DetailSection) -> bool {
    match s {
        DetailSection::Hero { config, .. } => selector_value(doc, config.title) is Some,
        DetailSection::Video { config, .. } => video_url(doc, config) is Some,
        DetailSection::TextContent { config, .. } => text_content(doc, config) is Some,
        DetailSection::MetadataGrid { config, .. } => grid_items(doc, config.items@) is Some,
        DetailSection::NumberedSteps { config, .. } => numbered_steps(doc, config) is Some,
        DetailSection::AlertBox { config, .. } => alert_items(doc, config) is Some,
        DetailSection::DownloadButtons { .. } => true,
        DetailSection::Dynamic { .. } => true,
    }
}

/// A dynamic section's styling hints, copied.
pub open spec fn style_copy(a: Option<DynamicStyle>, b: Option<DynamicStyle>) -> bool {
    match (a, b) {
        (None, None) => true,
        (Some(x), Some(y)) => x.variant == y.variant && x.columns == y.columns && x.compact == y.compact,
        _ => false,
    }
}

/// Whether `x` is what section `s` shows on the page.
pub open spec fn section_ok(x: ExtractedSection, doc: Seq<char>, s: DetailSection) -> bool {
    match s {
        DetailSection::Hero { order, config } => hero_ok(x, doc, order, config),
        DetailSection::Video { order, title, icon, config } => titled(x, "video"@, order, title, icon, None)
            && (x.data matches SectionData::Video { url } && Some(url@) == video_url(doc, config)),
        DetailSection::TextContent { order, title, icon, config } => titled(x, "text_content"@, order, title, icon, None)
            && (x.data matches SectionData::TextContent { content } && Some(content@) == text_content(doc, config)),
        DetailSection::MetadataGrid { order, title, icon, config } => titled(x, "metadata_grid"@, order, title, icon, None)
            && (x.data matches SectionData::MetadataGrid { items }
            && grid_items(doc, config.items@) == Some(items@.map_values(|g: GridItem| grid_item_view(g)))),
        DetailSection::NumberedSteps { order, title, icon, config } => titled(x, "numbered_steps"@, order, title, icon, None)
            && (x.data matches SectionData::NumberedSteps { steps }
            && numbered_steps(doc, config) == Some(steps@.map_values(|s: Step| step_view(s)))),
        DetailSection::AlertBox { order, title, icon, style, config } => titled(x, "alert_box"@, order, title, icon, Some(style))
            && (x.data matches SectionData::AlertBox { style: st, items }
            && st == style && alert_items(doc, config) == Some(views(items@))),
        DetailSection::DownloadButtons { order, title, icon, config } => titled(x, "download_buttons"@, order, title, icon, None)
            && (x.data matches SectionData::DownloadButtons { buttons }
            && buttons_match(buttons@, all_buttons(doc, config.buttons@), config.buttons@)),
        DetailSection::Dynamic { order, title, icon, style, config } => titled(x, "dynamic"@, order, title, icon, style)
            && (x.data matches SectionData::Dynamic { fields, renderer, style: st }
            && fields@.map_values(|e: (String, FieldData)| entry_view(e)) == dynamic_entries(doc, config.fields.view())
            && renderer == config.renderer && style_copy(st, config.style)),
    }
}

/// A copy of a dynamic section's styling hints.
fn copy_style(s: &Option<DynamicStyle>) -> (r: Option<DynamicStyle>)
    ensures
        style_copy(r, *s),
{
    match s {
        Some(x) => Some(DynamicStyle { variant: clone_opt(&x.variant), columns: x.columns, compact: x.compact }),
        None => None,
    }
}

/// What one configured section shows on the page, if it shows.
pub fn extract_section(doc: &str, s: &DetailSection) -> (r: Option<ExtractedSection>)
    ensures
        r is Some <==> section_present(doc@, *s),
        r matches Some(x) ==> section_ok(x, doc@, *s),
{
    match s {
        DetailSection::Hero { order, config } => {
            let title = match extract_by_selector(doc, &config.title) {
                Some(t) => t,
                None => return None,
            };
            let background_image = extract_by_selector(doc, &config.background_image);
            let subtitle = match &config.subtitle {
                Some(sc) => extract_by_selector(doc, sc),
                None => None,
            };
            let badges = extract_badges(doc, &config.badges);
            Some(ExtractedSection {
                section_type: String::from_str("hero"),
                order: *order,
                title: None,
                icon: None,
                style: None,
                data: SectionData::Hero { background_image, title, subtitle, badges },
            })
        },
        DetailSection::Video { order, title, icon, config } => match extract_video_url(doc, config) {
            Some(url) => Some(ExtractedSection {
                section_type: String::from_str("video"),
                order: *order,
                title: Some(title.clone()),
                icon: Some(icon.clone()),
                style: None,
                data: SectionData::Video { url },
            }),
            None => None,
        },
        DetailSection::TextContent { order, title, icon, config } => match extract_text_content(doc, config) {
            Some(content) => Some(ExtractedSection {
                section_type: String::from_str("text_content"),
                order: *order,
                title: Some(title.clone()),
                icon: Some(icon.clone()),
                style: None,
                data: SectionData::TextContent { content },
            }),
            None => None,
        },
        DetailSection::MetadataGrid { order, title, icon, config } => match extract_metadata_grid(doc, config) {
            Some(items) => Some(ExtractedSection {
                section_type: String::from_str("metadata_grid"),
                order: *order,
                title: Some(title.clone()),
                icon: Some(icon.clone()),
                style: None,
                data: SectionData::MetadataGrid { items },
            }),
            None => None,
        },
        DetailSection::NumberedSteps { order, title, icon, config } => match extract_numbered_steps(doc, config) {
            Some(steps) => Some(ExtractedSection {
                section_type: String::from_str("numbered_steps"),
                order: *order,
                title: Some(title.clone()),
                icon: Some(icon.clone()),
                style: None,
                data: SectionData::NumberedSteps { steps },
            }),
            None => None,
        },
        DetailSection::AlertBox { order, title, icon, style, config } => match extract_alert_items(doc, config) {
            Some(items) => Some(ExtractedSection {
                section_type: String::from_str("alert_box"),
                order: *order,
                title: Some(title.clone()),
                icon: Some(icon.clone()),
                style: Some(style.clone()),
                data: SectionData::AlertBox { style: style.clone(), items },
            }),
            None => None,
        },
        DetailSection::DownloadButtons { order, title, icon, config } => {
            let buttons = extract_download_buttons(doc, config);
            Some(ExtractedSection {
                section_type: String::from_str("download_buttons"),
                order: *order,
                title: Some(title.clone()),
                icon: Some(icon.clone()),
                style: None,
                data: SectionData::DownloadButtons { buttons },
            })
        },
        DetailSection::Dynamic { order, title, icon, style, config } => {
            let fields = extract_dynamic_fields(doc, &config.fields);
            Some(ExtractedSection {
                section_type: String::from_str("dynamic"),
                order: *order,
                title: Some(title.clone()),
                icon: Some(icon.clone()),
                style: clone_opt(style),
                data: SectionData::Dynamic { fields, renderer: config.renderer.clone(), style: copy_style(&config.style) },
            })
        },
    }
}

/// How many of the sections show on the page.
pub open spec fn present_count(doc: Seq<char>, ss: Seq<DetailSection>) -> nat
    decreases ss.len(),
{
    if ss.len() == 0 {
        0
    } else {
        present_count(doc, ss.drop_last()) + if section_present(doc, ss.last()) { 1nat } else { 0nat }
    }
}

/// Whether `v` is the page's sections placed for display: each is what a
/// configured section (at `idx`) shows, every showing section occurs once,
/// and they are ordered by `order`, configured order breaking ties.
pub open spec fn sections_placed(v: Seq<ExtractedSection>, idx: Seq<int>, doc: Seq<char>, ss: Seq<DetailSection>) -> bool {
    &&& idx.len() == v.len()
    &&& v.len() == present_count(doc, ss)
    &&& forall|j: int| 0 <= j < v.len() ==> 0 <= #[trigger] idx[j] < ss.len()
            && section_present(doc, ss[idx[j]]) && section_ok(v[j], doc, ss[idx[j]])
    &&& forall|j: int, k: int| 0 <= j < k < v.len() ==> #[trigger] idx[j] != #[trigger] idx[k]
    &&& forall|j: int, k: int| 0 <= j < k < v.len() ==> (#[trigger] v[j]).order <= (#[trigger] v[k]).order
    &&& forall|j: int, k: int| 0 <= j < k < v.len() && (#[trigger] v[j]).order == (#[trigger] v[k]).order ==> idx[j] < idx[k]
}

/// Whether extraction gave the page's sections placed for display.
pub open spec fn placed_result(r: Result<Vec<ExtractedSection>, String>, doc: Seq<char>, ss: Seq<DetailSection>) -> bool {
    match r {
        Ok(v) => exists|idx: Seq<int>| #[trigger] sections_placed(v@, idx, doc, ss),
        Err(_) => false,
    }
}

/// The position a section of order `o` goes to in a list ordered by order:
/// after every section of order at most `o`.
fn place_of(v: &Vec<ExtractedSection>, o: u32) -> (pos: usize)
    requires
        forall|j: int, k: int| 0 <= j < k < v.len() ==> (#[trigger] v@[j]).order <= (#[trigger] v@[k]).order,
    ensures
        pos <= v.len(),
        forall|j: int| 0 <= j < pos ==> (#[trigger] v@[j]).order <= o,
        forall|j: int| pos <= j < v.len() ==> (#[trigger] v@[j]).order > o,
{
    let mut i: usize = 0;
    while i < v.len() && v[i].order <= o
        invariant
            i <= v.len(),
            forall|j: int| 0 <= j < i ==> (#[trigger] v@[j]).order <= o,
        decreases v.len() - i,
    {
        i = i + 1;
    }
    proof {
        if i < v.len() {
            assert forall|j: int| i <= j < v.len() implies (#[trigger] v@[j]).order > o by {
                if j > i {
                    assert(v@[i as int].order <= v@[j].order);
                }
            }
        }
    }
    i
}

/// The sections a page shows, ordered for display: by their `order`, the
/// configured order breaking ties. A section that finds nothing on the page
/// is left out; extraction itself never fails.
pub fn extract_sections_from_html(html_content: &str, sections: &Vec<DetailSection>) -> (r: Result<Vec<ExtractedSection>, String>)
    ensures
        placed_result(r, html_content@, sections@),
{
    let ghost doc = html_content@;
    let mut out: Vec<ExtractedSection> = Vec::new();
    let ghost mut idx: Seq<int> = Seq::empty();
    let mut i: usize = 0;
    assert(sections@.take(0) =~= Seq::<DetailSection>::empty());
    while i < sections.len()
        invariant
            i <= sections.len(),
            doc == html_content@,
            sections_placed(out@, idx, doc, sections@.take(i as int)),
            forall|j: int| 0 <= j < idx.len() ==> #[trigger] idx[j] < i,
        decreases sections.len() - i,
    {
        let ghost ss = sections@.take(i as int);
        let ghost ss2 = sections@.take(i + 1);
        proof {
            assert(ss2.drop_last() =~= ss);
            assert(ss2.last() == sections@[i as int]);
            assert forall|j: int| 0 <= j < idx.len() implies ss2[#[trigger] idx[j]] == ss[idx[j]] by {}
        }
        match extract_section(html_content, &sections[i]) {
            Some(x) => {
                let pos = place_of(&out, x.order);
                let ghost old_out = out@;
                let ghost old_idx = idx;
                let ghost xv = x;
                out.insert(pos, x);
                proof {
                    idx = old_idx.insert(pos as int, i as int);
                    assert(out@ == old_out.insert(pos as int, xv));
                    assert forall|j: int| 0 <= j < out@.len() implies 0 <= #[trigger] idx[j] < ss2.len()
                        && section_present(doc, ss2[idx[j]]) && section_ok(out@[j], doc, ss2[idx[j]]) by {
                        if j < pos {
                            assert(idx[j] == old_idx[j]);
                            assert(out@[j] == old_out[j]);
                        } else if j > pos {
                            assert(idx[j] == old_idx[j - 1]);
                            assert(out@[j] == old_out[j - 1]);
                        }
                    }
                    assert forall|j: int, k: int| 0 <= j < k < out@.len() implies #[trigger] idx[j] != #[trigger] idx[k] by {
                        if j != pos && k != pos {
                            let oj = if j < pos { j } else { j - 1 };
                            let ok = if k < pos { k } else { k - 1 };
                            assert(idx[j] == old_idx[oj]);
                            assert(idx[k] == old_idx[ok]);
                        } else if j == pos {
                            assert(idx[k] == old_idx[k - 1]);
                        } else {
                            assert(idx[j] == old_idx[j]);
                        }
                    }
                    assert forall|j: int, k: int| 0 <= j < k < out@.len() implies (#[trigger] out@[j]).order <= (#[trigger] out@[k]).order by {
                        if j != pos && k != pos {
                            let oj = if j < pos { j } else { j - 1 };
                            let ok = if k < pos { k } else { k - 1 };
                            assert(out@[j] == old_out[oj]);
                            assert(out@[k] == old_out[ok]);
                        } else if j == pos {
                            assert(out@[k] == old_out[k - 1]);
                        } else {
                            assert(out@[j] == old_out[j]);
                        }
                    }
                    assert forall|j: int, k: int| 0 <= j < k < out@.len() && (#[trigger] out@[j]).order == (#[trigger] out@[k]).order
                        implies idx[j] < idx[k] by {
                        if j != pos && k != pos {
                            let oj = if j < pos { j } else { j - 1 };
                            let ok = if k < pos { k } else { k - 1 };
                            assert(out@[j] == old_out[oj]);
                            assert(out@[k] == old_out[ok]);
                            assert(idx[j] == old_idx[oj]);
                            assert(idx[k] == old_idx[ok]);
                        } else if j == pos {
                            assert(out@[k] == old_out[k - 1]);
                        } else {
                            assert(out@[j] == old_out[j]);
                            assert(idx[j] == old_idx[j]);
                        }
                    }
                    assert forall|j: int| 0 <= j < idx.len() implies #[trigger] idx[j] < i + 1 by {
                        if j < pos {
                            assert(idx[j] == old_idx[j]);
                        } else if j > pos {
                            assert(idx[j] == old_idx[j - 1]);
                        }
                    }
                }
            },
            None => {
                proof {
                    assert forall|j: int| 0 <= j < idx.len() implies #[trigger] idx[j] < i + 1 by {}
                }
            },
        }
        i = i + 1;
    }
    assert(sections@.take(i as int) =~= sections@);
    assert(sections_placed(out@, idx, html_content@, sections@));
    assert(exists|idx2: Seq<int>| #[trigger] sections_placed(out@, idx2, html_content@, sections@));
    let ghost ov = out@;
    let r: Result<Vec<ExtractedSection>, String> = Ok(out);
    assert(r matches Ok(v) && v@ == ov);
    assert(placed_result(r, html_content@, sections@));
    r
}

/// The characters before the first dot of `p`, a dot and `t`, when `p` has none, are `p`.
proof fn lemma_before_dot(p: Seq<char>, t: Seq<char>)
    requires
        !p.contains('.'),
    ensures
        before_char(p + seq!['.'] + t, '.') == p,
    decreases p.len(),
{
    let s = p + seq!['.'] + t;
    if p.len() == 0 {
        assert(s[0] == '.');
    } else {
        assert(s[0] == p[0]);
        assert(p[0] != '.');
        let q = p.drop_first();
        assert(!q.contains('.')) by {
            if q.contains('.') {
                let k = choose|k: int| 0 <= k < q.len() && q[k] == '.';
                assert(p[k + 1] == '.');
            }
        }
        lemma_before_dot(q, t);
        assert(s.drop_first() =~= q + seq!['.'] + t);
        assert(seq![p[0]] + q =~= p);
    }
}

/// What follows the first dot of `p`, a dot and `t`, when `p` has none, is `t`.
proof fn lemma_after_dot(p: Seq<char>, t: Seq<char>)
    requires
        !p.contains('.'),
    ensures
        after_first(p + "."@ + t, "."@) == Some(t),
{
    reveal_strlit(".");
    let s = p + "."@ + t;
    let i = p.len() as int;
    assert(s.subrange(i, i + 1) =~= "."@);
    assert forall|j: int| 0 <= j < i implies !#[trigger] crate::text::occurs_at(s, "."@, j) by {
        if crate::text::occurs_at(s, "."@, j) {
            assert(s.subrange(j, j + 1)[0] == '.');
            assert(p[j] == s[j]);
        }
    }
    assert(crate::text::is_first_occurrence(s, "."@, i));
    crate::text::lemma_first_occurrence_is_index_of(s, "."@, i);
    assert(s.skip(i + 1) =~= t);
}

/// A numbered line `N. text` (the part before its first dot reading as the
/// number `N`) is step `N` with the trimmed text after the dot as its
/// instruction: the instruction never repeats the number.
pub proof fn law_numbered_line(p: Seq<char>, t: Seq<char>, n: nat)
    requires
        p.len() > 0,
        numeric(p[0]),
        !p.contains('.'),
        parsed_usize(trim(p)) == Some(n),
    ensures
        step_of(p + "."@ + t) == Some((n, trim(t))),
{
    reveal_strlit(".");
    assert(p + "."@ + t == p + seq!['.'] + t);
    lemma_before_dot(p, t);
    lemma_after_dot(p, t);
    assert((p + "."@ + t)[0] == p[0]);
}

} // verus!
