//! The listing pipeline: read a page by the source's type, then run each
//! item through the configured transformations and custom fields.
use vstd::prelude::*;
use crate::config::source::{SourceConfig, SourceType, CustomFieldExtractor};
use crate::config::transformations::Transformation;
use crate::dict::{Dict, text_entries, copy_texts};
use crate::engine::html_parser::{self, parsed_page, attrs_cfg};
use crate::engine::json_parser::{self, parsed_json};
use crate::engine::transformer::{apply_transformations, item_transformed};
use crate::engine::extractor::{apply_custom_fields, customized};

verus! {

/// Listing items, each taken as its entries' texts.
pub open spec fn item_texts(items: Seq<Dict<String>>) -> Seq<Seq<(Seq<char>, Seq<char>)>> {
    items.map_values(|d: Dict<String>| text_entries(d.view()))
}

/// What reading a page gives, by the source's type.
pub open spec fn raw_items_of(config: SourceConfig, content: Seq<char>, is_search: bool) -> Result<Seq<Seq<(Seq<char>, Seq<char>)>>, Seq<char>> {
    match config.source_type {
        SourceType::HtmlScraper => match config.selectors {
            Some(s) => parsed_page(content, s.view(), attrs_cfg(config.attributes), is_search),
            None => Err("HTML scraper requires 'selectors' config"@),
        },
        SourceType::JsonApi | SourceType::GraphqlApi => match config.json_paths {
            Some(j) => parsed_json(content, j),
            None => Err("JSON API requires 'json_paths' config"@),
        },
        SourceType::XmlApi => Err("Source type XmlApi not yet implemented"@),
        SourceType::Custom => Err("Source type Custom not yet implemented"@),
    }
}

/// The configured transformation chains, by field.
pub open spec fn transform_fields(config: SourceConfig) -> Seq<(Seq<char>, Vec<Transformation>)> {
    match config.transformations {
        Some(t) => t.view(),
        None => Seq::empty(),
    }
}

/// The configured custom fields.
pub open spec fn custom_fields_of(config: SourceConfig) -> Seq<(Seq<char>, CustomFieldExtractor)> {
    match config.custom_fields {
        Some(c) => c.view(),
        None => Seq::empty(),
    }
}

/// Every item transformed in turn; the first error stops the run, and
/// `None` when a truncation would cut a character before that.
pub open spec fn all_transformed(items: Seq<Seq<(Seq<char>, String)>>, fields: Seq<(Seq<char>, Vec<Transformation>)>, base: Seq<char>) -> Option<Result<Seq<Seq<(Seq<char>, Seq<char>)>>, Seq<char>>>
    decreases items.len(),
{
    if items.len() == 0 {
        Some(Ok(Seq::empty()))
    } else {
        match all_transformed(items.drop_last(), fields, base) {
            Some(Ok(done)) => match item_transformed(items.last(), fields, base) {
                Some(Ok(t)) => Some(Ok(done.push(t))),
                Some(Err(e)) => Some(Err(e)),
                None => None,
            },
            other => other,
        }
    }
}

/// Every item given its custom fields in turn; the first error stops the run.
pub open spec fn all_customized(items: Seq<Seq<(Seq<char>, String)>>, fields: Seq<(Seq<char>, CustomFieldExtractor)>) -> Result<Seq<Seq<(Seq<char>, Seq<char>)>>, Seq<char>>
    decreases items.len(),
{
    if items.len() == 0 {
        Ok(Seq::empty())
    } else {
        match all_customized(items.drop_last(), fields) {
            Ok(done) => match customized(items.last(), fields) {
                Ok(t) => Ok(done.push(t)),
                Err(e) => Err(e),
            },
            Err(e) => Err(e),
        }
    }
}

proof fn lemma_transformed_stops(items: Seq<Seq<(Seq<char>, String)>>, fields: Seq<(Seq<char>, Vec<Transformation>)>, base: Seq<char>, i: int)
    requires
        0 <= i < items.len(),
        !(all_transformed(items.take(i + 1), fields, base) matches Some(Ok(_))),
    ensures
        all_transformed(items, fields, base) == all_transformed(items.take(i + 1), fields, base),
    decreases items.len() - i,
{
    if i + 1 < items.len() {
        assert(items.drop_last().take(i + 1) =~= items.take(i + 1));
        lemma_transformed_stops(items.drop_last(), fields, base, i);
    } else {
        assert(items.take(i + 1) =~= items);
    }
}

proof fn lemma_customized_stops(items: Seq<Seq<(Seq<char>, String)>>, fields: Seq<(Seq<char>, CustomFieldExtractor)>, i: int)
    requires
        0 <= i < items.len(),
        all_customized(items.take(i + 1), fields) is Err,
    ensures
        all_customized(items, fields) == all_customized(items.take(i + 1), fields),
    decreases items.len() - i,
{
    if i + 1 < items.len() {
        assert(items.drop_last().take(i + 1) =~= items.take(i + 1));
        lemma_customized_stops(items.drop_last(), fields, i);
    } else {
        assert(items.take(i + 1) =~= items);
    }
}

/// The scraper of configuration-driven sources.
pub struct UniversalScraper;

impl UniversalScraper {
    /// Read the items of a page as the source's type says: HTML through its
    /// selectors, JSON and GraphQL through its JSON paths; any other type, or
    /// a missing configuration, is an error.
    pub fn parse_content(config: &SourceConfig, content: &str, is_search: bool) -> (r: Result<Vec<Dict<String>>, String>)
        ensures
            match r {
                Ok(items) => raw_items_of(*config, content@, is_search) == Ok::<Seq<Seq<(Seq<char>, Seq<char>)>>, Seq<char>>(item_texts(items@)),
                Err(e) => raw_items_of(*config, content@, is_search) == Err::<Seq<Seq<(Seq<char>, Seq<char>)>>, Seq<char>>(e@),
            },
    {
        match config.source_type {
            SourceType::HtmlScraper => match &config.selectors {
                Some(selectors) => html_parser::parse(content, selectors, &config.attributes, is_search),
                None => Err(String::from_str("HTML scraper requires 'selectors' config")),
            },
            SourceType::JsonApi | SourceType::GraphqlApi => match &config.json_paths {
                Some(json_paths) => json_parser::parse(content, json_paths),
                None => Err(String::from_str("JSON API requires 'json_paths' config")),
            },
            SourceType::XmlApi => Err(String::from_str("Source type XmlApi not yet implemented")),
            SourceType::Custom => Err(String::from_str("Source type Custom not yet implemented")),
        }
    }

    /// Run the configured transformations on every item, in order; the first
    /// error is returned, and `None` when a truncation would cut a character.
    pub fn transform_items(items: &Vec<Dict<String>>, config: &SourceConfig) -> (r: Option<Result<Vec<Dict<String>>, String>>)
        ensures
            ({
                let views = items@.map_values(|d: Dict<String>| d.view());
                let want = all_transformed(views, transform_fields(*config), config.base_url@);
                match r {
                    Some(Ok(out)) => want == Some(Ok::<Seq<Seq<(Seq<char>, Seq<char>)>>, Seq<char>>(item_texts(out@))),
                    Some(Err(e)) => want == Some(Err::<Seq<Seq<(Seq<char>, Seq<char>)>>, Seq<char>>(e@)),
                    None => want is None,
                }
            }),
    {
        let ghost views = items@.map_values(|d: Dict<String>| d.view());
        let ghost fields = transform_fields(*config);
        let mut out: Vec<Dict<String>> = Vec::new();
        let mut i: usize = 0;
        proof {
            assert(views.take(0) =~= Seq::<Seq<(Seq<char>, String)>>::empty());
            assert(item_texts(out@) =~= Seq::<Seq<(Seq<char>, Seq<char>)>>::empty());
        }
        while i < items.len()
            invariant
                i <= items.len(),
                views == items@.map_values(|d: Dict<String>| d.view()),
                fields == transform_fields(*config),
                all_transformed(views.take(i as int), fields, config.base_url@) == Some(Ok::<Seq<Seq<(Seq<char>, Seq<char>)>>, Seq<char>>(item_texts(out@))),
            decreases items.len() - i,
        {
            let item = copy_texts(&items[i]);
            let res = apply_transformations(item, config);
            proof {
                assert(views.take(i + 1).drop_last() =~= views.take(i as int));
                assert(views.take(i + 1).last() == items@[i as int].view());
            }
            match res {
                Some(Ok(d)) => {
                    proof {
                        assert(item_texts(out@.push(d)) =~= item_texts(out@).push(text_entries(d.view())));
                    }
                    out.push(d);
                },
                Some(Err(e)) => {
                    proof { lemma_transformed_stops(views, fields, config.base_url@, i as int); }
                    return Some(Err(e));
                },
                None => {
                    proof { lemma_transformed_stops(views, fields, config.base_url@, i as int); }
                    return None;
                },
            }
            i = i + 1;
        }
        proof { assert(views.take(i as int) =~= views); }
        Some(Ok(out))
    }

    /// Give every item its configured custom fields, in order; the first error
    /// is returned.
    pub fn customize_items(items: &Vec<Dict<String>>, config: &SourceConfig) -> (r: Result<Vec<Dict<String>>, String>)
        ensures
            ({
                let views = items@.map_values(|d: Dict<String>| d.view());
                let want = all_customized(views, custom_fields_of(*config));
                match r {
                    Ok(out) => want == Ok::<Seq<Seq<(Seq<char>, Seq<char>)>>, Seq<char>>(item_texts(out@)),
                    Err(e) => want == Err::<Seq<Seq<(Seq<char>, Seq<char>)>>, Seq<char>>(e@),
                }
            }),
    {
        let ghost views = items@.map_values(|d: Dict<String>| d.view());
        let ghost fields = custom_fields_of(*config);
        let mut out: Vec<Dict<String>> = Vec::new();
        let mut i: usize = 0;
        proof {
            assert(views.take(0) =~= Seq::<Seq<(Seq<char>, String)>>::empty());
            assert(item_texts(out@) =~= Seq::<Seq<(Seq<char>, Seq<char>)>>::empty());
        }
        while i < items.len()
            invariant
                i <= items.len(),
                views == items@.map_values(|d: Dict<String>| d.view()),
                fields == custom_fields_of(*config),
                all_customized(views.take(i as int), fields) == Ok::<Seq<Seq<(Seq<char>, Seq<char>)>>, Seq<char>>(item_texts(out@)),
            decreases items.len() - i,
        {
            let item = copy_texts(&items[i]);
            let res = apply_custom_fields(item, config);
            proof {
                assert(views.take(i + 1).drop_last() =~= views.take(i as int));
                assert(views.take(i + 1).last() == items@[i as int].view());
            }
            match res {
                Ok(d) => {
                    proof {
                        assert(item_texts(out@.push(d)) =~= item_texts(out@).push(text_entries(d.view())));
                    }
                    out.push(d);
                },
                Err(e) => {
                    proof { lemma_customized_stops(views, fields, i as int); }
                    return Err(e);
                },
            }
            i = i + 1;
        }
        proof { assert(views.take(i as int) =~= views); }
        Ok(out)
    }
}

} // verus!
