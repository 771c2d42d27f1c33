use vstd::prelude::*;

use crate::json::{json_view, Json, JsonV};

verus! {

/// Model of a chapter: the fields of the host tool's chapter record, with
/// paths held as plain strings and the section number as its numeric path
/// segments.
#[verifier::ext_equal]
pub struct ChapterV {
    pub name: Seq<char>,
    pub content: Seq<char>,
    pub number: Option<Seq<u32>>,
    pub sub_items: Seq<ItemV>,
    pub path: Option<Seq<char>>,
    pub source_path: Option<Seq<char>>,
    pub parent_names: Seq<Seq<char>>,
}

/// Model of one entry of the document tree: a chapter or a separator marker.
#[verifier::ext_equal]
pub enum ItemV {
    Chapter(ChapterV),
    Separator,
}

/// Model of the document tree: an ordered sequence of items.
#[verifier::ext_equal]
pub struct BookV {
    pub sections: Seq<ItemV>,
}

/// Model of the invocation context decoded from the handshake.
#[verifier::ext_equal]
pub struct ContextV {
    pub root: Seq<char>,
    pub config: JsonV,
    pub renderer: Seq<char>,
    pub mdbook_version: Seq<char>,
}

/// One entry of the document tree: a chapter with its fields, or a separator
/// marker. Optional fields stay absent (`None`) rather than being defaulted,
/// so that a re-encoded tree matches the input.
pub enum Item {
    Chapter {
        name: String,
        content: String,
        number: Option<Vec<u32>>,
        sub_items: Vec<Item>,
        path: Option<String>,
        source_path: Option<String>,
        parent_names: Vec<String>,
    },
    Separator,
}

/// The document tree exchanged in the handshake.
pub struct Book {
    pub sections: Vec<Item>,
}

/// The invocation context: root directory, configuration mapping, renderer
/// name and the tool version the caller declared.
pub struct Context {
    pub root: String,
    pub config: Json,
    pub renderer: String,
    pub mdbook_version: String,
}

pub open spec fn strs_view(s: Seq<String>) -> Seq<Seq<char>> {
    Seq::new(s.len(), |i: int| s[i]@)
}

pub open spec fn opt_str_view(s: Option<String>) -> Option<Seq<char>> {
    match s {
        None => None,
        Some(t) => Some(t@),
    }
}

pub open spec fn opt_nums_view(n: Option<Vec<u32>>) -> Option<Seq<u32>> {
    match n {
        None => None,
        Some(v) => Some(v@),
    }
}

pub open spec fn item_view(it: Item) -> ItemV
    decreases it,
{
    match it {
        Item::Chapter { name, content, number, sub_items, path, source_path, parent_names } => ItemV::Chapter(
            ChapterV {
                name: name@,
                content: content@,
                number: opt_nums_view(number),
                sub_items: items_view(sub_items@),
                path: opt_str_view(path),
                source_path: opt_str_view(source_path),
                parent_names: strs_view(parent_names@),
            },
        ),
        Item::Separator => ItemV::Separator,
    }
}

pub open spec fn items_view(s: Seq<Item>) -> Seq<ItemV>
    decreases s,
{
    Seq::new(
        s.len(),
        |i: int| if 0 <= i < s.len() {
            item_view(s[i])
        } else {
            ItemV::Separator
        },
    )
}

impl vstd::view::DeepView for Item {
    type V = ItemV;

    open spec fn deep_view(&self) -> ItemV {
        item_view(*self)
    }
}

impl vstd::view::DeepView for Book {
    type V = BookV;

    open spec fn deep_view(&self) -> BookV {
        BookV { sections: items_view(self.sections@) }
    }
}

impl vstd::view::DeepView for Context {
    type V = ContextV;

    open spec fn deep_view(&self) -> ContextV {
        ContextV {
            root: self.root@,
            config: json_view(self.config),
            renderer: self.renderer@,
            mdbook_version: self.mdbook_version@,
        }
    }
}

} // verus!
