use vstd::prelude::*;

use crate::book::{
    item_view, items_view, opt_nums_view, opt_str_view, strs_view, Book, BookV, ChapterV, Context,
    ContextV, Item, ItemV,
};
use crate::error::MdBookRFCError;
use crate::json::{json_view, jsons_view, pairs_view, Json, JsonV};

verus! {

// The handshake payload is the JSON array `[context, book]`. The spec
// functions below define, value by value, which JSON trees are well-formed
// payloads and what they decode to; `enc_*` are their inverses. Field order
// is the canonical one the host tool emits, so that a decoded payload can be
// re-encoded without loss.

pub open spec fn dec_u32(j: JsonV) -> Option<u32> {
    match j {
        JsonV::Int(n) => if 0 <= n <= u32::MAX as i64 {
            Some(n as u32)
        } else {
            None
        },
        _ => None,
    }
}

pub open spec fn dec_numbers(s: Seq<JsonV>) -> Option<Seq<u32>> {
    if forall|i: int| 0 <= i < s.len() ==> (#[trigger] dec_u32(s[i])) is Some {
        Some(Seq::new(s.len(), |i: int| dec_u32(s[i]).unwrap()))
    } else {
        None
    }
}

/// The `number` field: absent (`null`) or the numeric path segments.
pub open spec fn dec_number(j: JsonV) -> Option<Option<Seq<u32>>> {
    match j {
        JsonV::Null => Some(None),
        JsonV::Arr(s) => match dec_numbers(s) {
            Some(ns) => Some(Some(ns)),
            None => None,
        },
        _ => None,
    }
}

/// An optional string field: absent (`null`) or a string.
pub open spec fn dec_opt_str(j: JsonV) -> Option<Option<Seq<char>>> {
    match j {
        JsonV::Null => Some(None),
        JsonV::Str(s) => Some(Some(s)),
        _ => None,
    }
}

pub open spec fn dec_names(s: Seq<JsonV>) -> Option<Seq<Seq<char>>> {
    if forall|i: int| 0 <= i < s.len() ==> (#[trigger] s[i]) is Str {
        Some(Seq::new(s.len(), |i: int| s[i]->Str_0))
    } else {
        None
    }
}

pub open spec fn dec_items(s: Seq<JsonV>) -> Option<Seq<ItemV>>
    decreases s,
{
    if forall|i: int| 0 <= i < s.len() ==> dec_item(#[trigger] s[i]) is Some {
        Some(
            Seq::new(
                s.len(),
                |i: int| if 0 <= i < s.len() {
                    dec_item(s[i]).unwrap()
                } else {
                    ItemV::Separator
                },
            ),
        )
    } else {
        None
    }
}

/// An item is either the string tag of a separator or an object with the
/// single key `Chapter`.
pub open spec fn dec_item(j: JsonV) -> Option<ItemV>
    decreases j,
{
    match j {
        JsonV::Str(s) => if s == "Separator"@ {
            Some(ItemV::Separator)
        } else {
            None
        },
        JsonV::Obj(ps) => if ps.len() == 1 && ps[0].0 == "Chapter"@ {
            match dec_chapter(ps[0].1) {
                Some(c) => Some(ItemV::Chapter(c)),
                None => None,
            }
        } else {
            None
        },
        _ => None,
    }
}

pub open spec fn dec_chapter(j: JsonV) -> Option<ChapterV>
    decreases j,
{
    match j {
        JsonV::Obj(ps) => if ps.len() == 7 && ps[0].0 == "name"@ && ps[0].1 is Str && ps[1].0
            == "content"@ && ps[1].1 is Str && ps[2].0 == "number"@ && ps[3].0 == "sub_items"@
            && ps[3].1 is Arr && ps[4].0 == "path"@ && ps[5].0 == "source_path"@ && ps[6].0
            == "parent_names"@ && ps[6].1 is Arr {
            match (dec_number(ps[2].1), dec_items(ps[3].1->Arr_0)) {
                (Some(number), Some(sub_items)) => match (
                    dec_opt_str(ps[4].1),
                    dec_opt_str(ps[5].1),
                    dec_names(ps[6].1->Arr_0),
                ) {
                    (Some(path), Some(source_path), Some(parent_names)) => Some(
                        ChapterV {
                            name: ps[0].1->Str_0,
                            content: ps[1].1->Str_0,
                            number,
                            sub_items,
                            path,
                            source_path,
                            parent_names,
                        },
                    ),
                    _ => None,
                },
                _ => None,
            }
        } else {
            None
        },
        _ => None,
    }
}

/// The document tree: an object with the item sequence under `sections` and
/// the host tool's `__non_exhaustive` marker.
pub open spec fn dec_book(j: JsonV) -> Option<BookV> {
    match j {
        JsonV::Obj(ps) => if ps.len() == 2 && ps[0].0 == "sections"@ && ps[0].1 is Arr && ps[1].0
            == "__non_exhaustive"@ && ps[1].1 is Null {
            match dec_items(ps[0].1->Arr_0) {
                Some(items) => Some(BookV { sections: items }),
                None => None,
            }
        } else {
            None
        },
        _ => None,
    }
}

/// The context record. The configuration mapping is kept as the JSON value it
/// arrived as; the other fields must be strings.
pub open spec fn dec_context(j: JsonV) -> Option<ContextV> {
    match j {
        JsonV::Obj(ps) => if ps.len() == 4 && ps[0].0 == "root"@ && ps[0].1 is Str && ps[1].0
            == "config"@ && ps[2].0 == "renderer"@ && ps[2].1 is Str && ps[3].0
            == "mdbook_version"@ && ps[3].1 is Str {
            Some(
                ContextV {
                    root: ps[0].1->Str_0,
                    config: ps[1].1,
                    renderer: ps[2].1->Str_0,
                    mdbook_version: ps[3].1->Str_0,
                },
            )
        } else {
            None
        },
        _ => None,
    }
}

/// A payload decodes exactly when it is a two-element array whose first
/// element is a context and whose second is a document tree.
pub open spec fn dec_payload(j: JsonV) -> Option<(ContextV, BookV)> {
    match j {
        JsonV::Arr(es) => if es.len() == 2 {
            match (dec_context(es[0]), dec_book(es[1])) {
                (Some(c), Some(b)) => Some((c, b)),
                _ => None,
            }
        } else {
            None
        },
        _ => None,
    }
}

pub open spec fn enc_numbers(ns: Seq<u32>) -> Seq<JsonV> {
    Seq::new(ns.len(), |i: int| JsonV::Int(ns[i] as i64))
}

pub open spec fn enc_number(n: Option<Seq<u32>>) -> JsonV {
    match n {
        None => JsonV::Null,
        Some(ns) => JsonV::Arr(enc_numbers(ns)),
    }
}

pub open spec fn enc_opt_str(s: Option<Seq<char>>) -> JsonV {
    match s {
        None => JsonV::Null,
        Some(t) => JsonV::Str(t),
    }
}

pub open spec fn enc_names(ss: Seq<Seq<char>>) -> Seq<JsonV> {
    Seq::new(ss.len(), |i: int| JsonV::Str(ss[i]))
}

pub open spec fn enc_items(its: Seq<ItemV>) -> Seq<JsonV>
    decreases its,
{
    Seq::new(
        its.len(),
        |i: int| if 0 <= i < its.len() {
            enc_item(its[i])
        } else {
            JsonV::Null
        },
    )
}

pub open spec fn enc_item(it: ItemV) -> JsonV
    decreases it,
{
    match it {
        ItemV::Separator => JsonV::Str("Separator"@),
        ItemV::Chapter(c) => JsonV::Obj(
            seq![
                ("Chapter"@, JsonV::Obj(
                    seq![
                        ("name"@, JsonV::Str(c.name)),
                        ("content"@, JsonV::Str(c.content)),
                        ("number"@, enc_number(c.number)),
                        ("sub_items"@, JsonV::Arr(enc_items(c.sub_items))),
                        ("path"@, enc_opt_str(c.path)),
                        ("source_path"@, enc_opt_str(c.source_path)),
                        ("parent_names"@, JsonV::Arr(enc_names(c.parent_names))),
                    ],
                )),
            ],
        ),
    }
}

pub open spec fn enc_book(b: BookV) -> JsonV {
    JsonV::Obj(
        seq![
            ("sections"@, JsonV::Arr(enc_items(b.sections))),
            ("__non_exhaustive"@, JsonV::Null),
        ],
    )
}

pub open spec fn enc_context(c: ContextV) -> JsonV {
    JsonV::Obj(
        seq![
            ("root"@, JsonV::Str(c.root)),
            ("config"@, c.config),
            ("renderer"@, JsonV::Str(c.renderer)),
            ("mdbook_version"@, JsonV::Str(c.mdbook_version)),
        ],
    )
}

pub open spec fn enc_payload(c: ContextV, b: BookV) -> JsonV {
    JsonV::Arr(seq![enc_context(c), enc_book(b)])
}

/// Re-encoding a decoded item reproduces the JSON it came from.
pub proof fn lemma_item_roundtrip(j: JsonV)
    requires
        dec_item(j) is Some,
    ensures
        enc_item(dec_item(j).unwrap()) == j,
    decreases j,
{
    match j {
        JsonV::Str(s) => {
            assert(j == JsonV::Str("Separator"@));
            assert(enc_item(dec_item(j).unwrap()) == j);
        },
        JsonV::Obj(ps) => {
            lemma_chapter_roundtrip(ps[0].1);
            assert(seq![("Chapter"@, ps[0].1)] =~= ps);
            assert(enc_item(dec_item(j).unwrap()) == j);
        },
        _ => {},
    }
}

/// Re-encoding a decoded chapter reproduces the JSON it came from.
pub proof fn lemma_chapter_roundtrip(j: JsonV)
    requires
        dec_chapter(j) is Some,
    ensures
        enc_item(ItemV::Chapter(dec_chapter(j).unwrap())) == JsonV::Obj(
            seq![("Chapter"@, j)],
        ),
    decreases j,
{
    let ps = j->Obj_0;
    let c = dec_chapter(j).unwrap();
    match ps[2].1 {
        JsonV::Arr(ns) => {
            assert(enc_numbers(c.number.unwrap()) =~= ns);
            assert(enc_number(c.number) == ps[2].1);
        },
        _ => {
            assert(enc_number(c.number) == ps[2].1);
        },
    }
    let subs = ps[3].1->Arr_0;
    assert(dec_items(subs) is Some);
    assert(forall|k: int| 0 <= k < subs.len() ==> dec_item(#[trigger] subs[k]) is Some);
    assert forall|i: int| 0 <= i < subs.len() implies #[trigger] enc_items(c.sub_items)[i]
        == subs[i] by {
        assert(dec_item(subs[i]) is Some);
        lemma_item_roundtrip(subs[i]);
    }
    assert(enc_items(c.sub_items) =~= subs);
    assert(JsonV::Arr(enc_items(c.sub_items)) == ps[3].1);
    assert(enc_opt_str(c.path) == ps[4].1);
    assert(enc_opt_str(c.source_path) == ps[5].1);
    assert(enc_names(c.parent_names) =~= ps[6].1->Arr_0);
    assert(JsonV::Arr(enc_names(c.parent_names)) == ps[6].1);
    assert(JsonV::Str(c.name) == ps[0].1);
    assert(JsonV::Str(c.content) == ps[1].1);
    assert(enc_item(ItemV::Chapter(c))->Obj_0[0].1->Obj_0 =~= ps);
    assert(enc_item(ItemV::Chapter(c))->Obj_0[0].1 == j);
    assert(enc_item(ItemV::Chapter(c))->Obj_0 =~= seq![("Chapter"@, j)]);
    assert(enc_item(ItemV::Chapter(c)) == JsonV::Obj(seq![("Chapter"@, j)]));
}

/// Re-encoding a decoded document tree reproduces the JSON it came from.
pub proof fn lemma_book_roundtrip(j: JsonV)
    requires
        dec_book(j) is Some,
    ensures
        enc_book(dec_book(j).unwrap()) == j,
{
    let ps = j->Obj_0;
    let s = ps[0].1->Arr_0;
    let b = dec_book(j).unwrap();
    assert(dec_items(s) is Some);
    assert(forall|k: int| 0 <= k < s.len() ==> dec_item(#[trigger] s[k]) is Some);
    assert forall|i: int| 0 <= i < s.len() implies #[trigger] enc_items(b.sections)[i]
        == s[i] by {
        assert(dec_item(s[i]) is Some);
        lemma_item_roundtrip(s[i]);
    }
    assert(enc_items(b.sections) =~= s);
    assert(JsonV::Arr(enc_items(b.sections)) == ps[0].1);
    assert(enc_book(b)->Obj_0 =~= ps);
    assert(enc_book(b) == j);
}

/// Re-encoding a decoded context reproduces the JSON it came from.
pub proof fn lemma_context_roundtrip(j: JsonV)
    requires
        dec_context(j) is Some,
    ensures
        enc_context(dec_context(j).unwrap()) == j,
{
    let ps = j->Obj_0;
    let c = dec_context(j).unwrap();
    assert(enc_context(c)->Obj_0 =~= ps);
    assert(enc_context(c) == j);
}

/// The round trip: any JSON tree that decodes as a handshake payload is
/// reproduced, field for field and in order, by re-encoding what it decoded
/// to.
pub proof fn lemma_payload_roundtrip(j: JsonV)
    requires
        dec_payload(j) is Some,
    ensures
        enc_payload(dec_payload(j).unwrap().0, dec_payload(j).unwrap().1) == j,
{
    let es = j->Arr_0;
    let (c, b) = dec_payload(j).unwrap();
    lemma_context_roundtrip(es[0]);
    lemma_book_roundtrip(es[1]);
    assert(enc_payload(c, b)->Arr_0 =~= es);
    assert(enc_payload(c, b) == j);
}

/// The decoder accepts what the encoder emits: decoding an encoded item
/// gives the item back.
pub proof fn lemma_item_enc_dec(it: ItemV)
    ensures
        dec_item(enc_item(it)) == Some(it),
    decreases it,
{
    match it {
        ItemV::Separator => {},
        ItemV::Chapter(c) => {
            let inner = enc_item(it)->Obj_0[0].1;
            match c.number {
                Some(ns) => {
                    assert(forall|i: int|
                        0 <= i < ns.len() ==> dec_u32(#[trigger] enc_numbers(ns)[i]) is Some);
                    assert(dec_numbers(enc_numbers(ns)).unwrap() =~= ns);
                },
                None => {},
            }
            assert forall|i: int| 0 <= i < c.sub_items.len() implies dec_item(
                #[trigger] enc_items(c.sub_items)[i],
            ) == Some(c.sub_items[i]) by {
                lemma_item_enc_dec(c.sub_items[i]);
            }
            assert(dec_items(enc_items(c.sub_items)) is Some);
            assert(dec_items(enc_items(c.sub_items)).unwrap() =~= c.sub_items);
            assert(forall|i: int|
                0 <= i < c.parent_names.len() ==> (#[trigger] enc_names(c.parent_names)[i]) is Str);
            assert(dec_names(enc_names(c.parent_names)).unwrap() =~= c.parent_names);
            assert(dec_chapter(inner).unwrap() =~= c);
            assert(dec_item(enc_item(it)) == Some(it));
        },
    }
}

/// The decoder accepts what the encoder emits: decoding an encoded document
/// tree gives the tree back.
pub proof fn lemma_book_enc_dec(b: BookV)
    ensures
        dec_book(enc_book(b)) == Some(b),
{
    assert forall|i: int| 0 <= i < b.sections.len() implies dec_item(
        #[trigger] enc_items(b.sections)[i],
    ) == Some(b.sections[i]) by {
        lemma_item_enc_dec(b.sections[i]);
    }
    assert(dec_items(enc_items(b.sections)) is Some);
    assert(dec_items(enc_items(b.sections)).unwrap() =~= b.sections);
    assert(dec_book(enc_book(b)).unwrap() =~= b);
}

/// The decoder accepts what the encoder emits: decoding an encoded context
/// gives the context back.
pub proof fn lemma_context_enc_dec(c: ContextV)
    ensures
        dec_context(enc_context(c)) == Some(c),
{
    assert(dec_context(enc_context(c)).unwrap() =~= c);
}

/// The companion of the round trip: every payload the writer can emit is a
/// well-formed payload, and reading it back yields the very context and
/// tree it was made from.
pub proof fn lemma_payload_enc_dec(c: ContextV, b: BookV)
    ensures
        dec_payload(enc_payload(c, b)) == Some((c, b)),
{
    lemma_context_enc_dec(c);
    lemma_book_enc_dec(b);
    assert(dec_payload(enc_payload(c, b)).unwrap() =~= (c, b));
}

/// String comparison against an expected key or tag.
fn str_eq(a: &String, b: &str) -> (r: bool)
    ensures
        r == (a@ == b@),
{
    let t = b.to_owned();
    *a == t
}

fn decode_u32(j: &Json) -> (r: Result<u32, MdBookRFCError>)
    ensures
        match r {
            Ok(n) => dec_u32(json_view(*j)) == Some(n),
            Err(e) => dec_u32(json_view(*j)) is None && e == MdBookRFCError::Decode,
        },
{
    match j {
        Json::Int(n) => if 0 <= *n && *n <= u32::MAX as i64 {
            Ok(*n as u32)
        } else {
            Err(MdBookRFCError::Decode)
        },
        _ => Err(MdBookRFCError::Decode),
    }
}

#[verifier::loop_isolation(false)]
fn decode_numbers(v: &Vec<Json>) -> (r: Result<Vec<u32>, MdBookRFCError>)
    ensures
        match r {
            Ok(ns) => dec_numbers(jsons_view(v@)) == Some(ns@),
            Err(e) => dec_numbers(jsons_view(v@)) is None && e == MdBookRFCError::Decode,
        },
{
    let mut out: Vec<u32> = Vec::new();
    let mut i: usize = 0;
    while i < v.len()
        invariant
            i <= v.len(),
            out@.len() == i as int,
            forall|k: int| 0 <= k < i ==> dec_u32(json_view(#[trigger] v@[k])) is Some,
            forall|k: int| 0 <= k < i ==> (#[trigger] out@[k]) == dec_u32(json_view(v@[k])).unwrap(),
        decreases v.len() - i,
    {
        match decode_u32(&v[i]) {
            Ok(n) => {
                out.push(n);
            },
            Err(e) => {
                proof {
                    assert(jsons_view(v@)[i as int] == json_view(v@[i as int]));
                    assert(dec_numbers(jsons_view(v@)) is None);
                }
                return Err(e);
            },
        }
        i = i + 1;
    }
    proof {
        assert(forall|k: int|
            0 <= k < v@.len() ==> dec_u32(#[trigger] jsons_view(v@)[k]) is Some);
        assert(out@ =~= dec_numbers(jsons_view(v@)).unwrap());
    }
    Ok(out)
}

fn decode_number(j: &Json) -> (r: Result<Option<Vec<u32>>, MdBookRFCError>)
    ensures
        match r {
            Ok(n) => dec_number(json_view(*j)) == Some(opt_nums_view(n)),
            Err(e) => dec_number(json_view(*j)) is None && e == MdBookRFCError::Decode,
        },
{
    match j {
        Json::Null => Ok(None),
        Json::Arr(v) => match decode_numbers(v) {
            Ok(ns) => Ok(Some(ns)),
            Err(e) => Err(e),
        },
        _ => Err(MdBookRFCError::Decode),
    }
}

fn decode_opt_str(j: &Json) -> (r: Result<Option<String>, MdBookRFCError>)
    ensures
        match r {
            Ok(s) => dec_opt_str(json_view(*j)) == Some(opt_str_view(s)),
            Err(e) => dec_opt_str(json_view(*j)) is None && e == MdBookRFCError::Decode,
        },
{
    match j {
        Json::Null => Ok(None),
        Json::Str(s) => Ok(Some(s.clone())),
        _ => Err(MdBookRFCError::Decode),
    }
}

#[verifier::loop_isolation(false)]
fn decode_names(v: &Vec<Json>) -> (r: Result<Vec<String>, MdBookRFCError>)
    ensures
        match r {
            Ok(ss) => dec_names(jsons_view(v@)) == Some(strs_view(ss@)),
            Err(e) => dec_names(jsons_view(v@)) is None && e == MdBookRFCError::Decode,
        },
{
    let mut out: Vec<String> = Vec::new();
    let mut i: usize = 0;
    while i < v.len()
        invariant
            i <= v.len(),
            out@.len() == i as int,
            forall|k: int| 0 <= k < i ==> json_view(#[trigger] v@[k]) is Str,
            forall|k: int| 0 <= k < i ==> (#[trigger] out@[k])@ == json_view(v@[k])->Str_0,
        decreases v.len() - i,
    {
        match &v[i] {
            Json::Str(s) => {
                out.push(s.clone());
            },
            _ => {
                proof {
                    assert(jsons_view(v@)[i as int] == json_view(v@[i as int]));
                    assert(dec_names(jsons_view(v@)) is None);
                }
                return Err(MdBookRFCError::Decode);
            },
        }
        i = i + 1;
    }
    proof {
        assert(forall|k: int| 0 <= k < v@.len() ==> (#[trigger] jsons_view(v@)[k]) is Str);
        assert(strs_view(out@) =~= dec_names(jsons_view(v@)).unwrap());
    }
    Ok(out)
}

#[verifier::loop_isolation(false)]
fn decode_items(v: &Vec<Json>) -> (r: Result<Vec<Item>, MdBookRFCError>)
    ensures
        match r {
            Ok(items) => dec_items(jsons_view(v@)) == Some(items_view(items@)),
            Err(e) => dec_items(jsons_view(v@)) is None && e == MdBookRFCError::Decode,
        },
    decreases v@,
{
    let mut out: Vec<Item> = Vec::new();
    let mut i: usize = 0;
    while i < v.len()
        invariant
            i <= v.len(),
            out@.len() == i as int,
            forall|k: int| 0 <= k < i ==> dec_item(json_view(#[trigger] v@[k])) is Some,
            forall|k: int|
                0 <= k < i ==> item_view(#[trigger] out@[k]) == dec_item(
                    json_view(v@[k]),
                ).unwrap(),
        decreases v.len() - i,
    {
        proof {
            assert(decreases_to!(v@ => v@[i as int]));
        }
        match decode_item(&v[i]) {
            Ok(it) => {
                out.push(it);
            },
            Err(e) => {
                proof {
                    assert(jsons_view(v@)[i as int] == json_view(v@[i as int]));
                    assert(dec_items(jsons_view(v@)) is None);
                }
                return Err(e);
            },
        }
        i = i + 1;
    }
    proof {
        assert(forall|k: int|
            0 <= k < v@.len() ==> dec_item(#[trigger] jsons_view(v@)[k]) is Some);
        assert(items_view(out@) =~= dec_items(jsons_view(v@)).unwrap());
    }
    Ok(out)
}

fn decode_item(j: &Json) -> (r: Result<Item, MdBookRFCError>)
    ensures
        match r {
            Ok(it) => dec_item(json_view(*j)) == Some(item_view(it)),
            Err(e) => dec_item(json_view(*j)) is None && e == MdBookRFCError::Decode,
        },
    decreases *j,
{
    match j {
        Json::Str(s) => if str_eq(s, "Separator") {
            Ok(Item::Separator)
        } else {
            Err(MdBookRFCError::Decode)
        },
        Json::Obj(ps) => {
            if ps.len() == 1 && str_eq(&ps[0].0, "Chapter") {
                proof {
                    assert(decreases_to!(*j => j->Obj_0));
                    assert(decreases_to!(j->Obj_0 => j->Obj_0@));
                    assert(decreases_to!(j->Obj_0@ => j->Obj_0@[0]));
                    assert(decreases_to!(j->Obj_0@[0] => j->Obj_0@[0].1));
                }
                match decode_chapter(&ps[0].1) {
                    Ok(it) => Ok(it),
                    Err(e) => Err(e),
                }
            } else {
                Err(MdBookRFCError::Decode)
            }
        },
        _ => Err(MdBookRFCError::Decode),
    }
}

fn decode_chapter(j: &Json) -> (r: Result<Item, MdBookRFCError>)
    ensures
        match r {
            Ok(it) => dec_chapter(json_view(*j)) is Some && item_view(it) == ItemV::Chapter(
                dec_chapter(json_view(*j)).unwrap(),
            ),
            Err(e) => dec_chapter(json_view(*j)) is None && e == MdBookRFCError::Decode,
        },
    decreases *j,
{
    match j {
        Json::Obj(ps) => {
            if !(ps.len() == 7 && str_eq(&ps[0].0, "name") && str_eq(&ps[1].0, "content") && str_eq(
                &ps[2].0,
                "number",
            ) && str_eq(&ps[3].0, "sub_items") && str_eq(&ps[4].0, "path") && str_eq(
                &ps[5].0,
                "source_path",
            ) && str_eq(&ps[6].0, "parent_names")) {
                return Err(MdBookRFCError::Decode);
            }
            let name = match &ps[0].1 {
                Json::Str(s) => s.clone(),
                _ => {
                    proof {
                        assert(!(json_view(ps@[0 as int].1) is Str));
                    }
                    return Err(MdBookRFCError::Decode);
                },
            };
            let content = match &ps[1].1 {
                Json::Str(s) => s.clone(),
                _ => {
                    proof {
                        assert(!(json_view(ps@[1 as int].1) is Str));
                    }
                    return Err(MdBookRFCError::Decode);
                },
            };
            let number = match decode_number(&ps[2].1) {
                Ok(n) => n,
                Err(e) => {
                    proof {
                        assert(pairs_view(ps@)[2].1 == json_view(ps@[2 as int].1));
                    }
                    return Err(e);
                },
            };
            let sub_items = match &ps[3].1 {
                Json::Arr(subs) => {
                    proof {
                        assert(decreases_to!(*j => j->Obj_0));
                        assert(decreases_to!(j->Obj_0 => j->Obj_0@));
                        assert(decreases_to!(j->Obj_0@ => j->Obj_0@[3]));
                        assert(decreases_to!(j->Obj_0@[3] => j->Obj_0@[3].1));
                        assert(decreases_to!(j->Obj_0@[3].1 => j->Obj_0@[3].1->Arr_0));
                        assert(decreases_to!(j->Obj_0@[3].1->Arr_0 => j->Obj_0@[3].1->Arr_0@));
                    }
                    proof {
                        assert(json_view(ps@[3 as int].1) == JsonV::Arr(jsons_view(subs@)));
                    }
                    match decode_items(subs) {
                        Ok(items) => items,
                        Err(e) => {
                            return Err(e);
                        },
                    }
                },
                _ => {
                    proof {
                        assert(!(json_view(ps@[3 as int].1) is Arr));
                    }
                    return Err(MdBookRFCError::Decode);
                },
            };
            let path = match decode_opt_str(&ps[4].1) {
                Ok(p) => p,
                Err(e) => {
                    return Err(e);
                },
            };
            let source_path = match decode_opt_str(&ps[5].1) {
                Ok(p) => p,
                Err(e) => {
                    return Err(e);
                },
            };
            let parent_names = match &ps[6].1 {
                Json::Arr(names) => {
                    proof {
                        assert(json_view(ps@[6 as int].1) == JsonV::Arr(jsons_view(names@)));
                    }
                    match decode_names(names) {
                        Ok(ns) => ns,
                        Err(e) => {
                            return Err(e);
                        },
                    }
                },
                _ => {
                    proof {
                        assert(!(json_view(ps@[6 as int].1) is Arr));
                    }
                    return Err(MdBookRFCError::Decode);
                },
            };
            let it = Item::Chapter {
                name,
                content,
                number,
                sub_items,
                path,
                source_path,
                parent_names,
            };
            proof {
                assert(item_view(it) == ItemV::Chapter(dec_chapter(json_view(*j)).unwrap()));
            }
            Ok(it)
        },
        _ => Err(MdBookRFCError::Decode),
    }
}

/// Decode the document tree from its JSON form.
pub fn decode_book(j: &Json) -> (r: Result<Book, MdBookRFCError>)
    ensures
        match r {
            Ok(b) => dec_book(j.deep_view()) == Some(b.deep_view()),
            Err(e) => dec_book(j.deep_view()) is None && e == MdBookRFCError::Decode,
        },
{
    match j {
        Json::Obj(ps) => {
            if !(ps.len() == 2 && str_eq(&ps[0].0, "sections") && str_eq(
                &ps[1].0,
                "__non_exhaustive",
            )) {
                return Err(MdBookRFCError::Decode);
            }
            match &ps[1].1 {
                Json::Null => {
                    proof {
                        assert(json_view(ps@[1 as int].1) is Null);
                    }
                },
                _ => {
                    proof {
                        assert(!(json_view(ps@[1 as int].1) is Null));
                    }
                    return Err(MdBookRFCError::Decode);
                },
            }
            match &ps[0].1 {
                Json::Arr(secs) => {
                    proof {
                        assert(json_view(ps@[0 as int].1) == JsonV::Arr(jsons_view(secs@)));
                    }
                    match decode_items(secs) {
                        Ok(items) => Ok(Book { sections: items }),
                        Err(e) => Err(e),
                    }
                },
                _ => {
                    proof {
                        assert(!(json_view(ps@[0 as int].1) is Arr));
                    }
                    Err(MdBookRFCError::Decode)
                },
            }
        },
        _ => Err(MdBookRFCError::Decode),
    }
}

/// Decode the invocation context from its JSON form. The configuration
/// mapping is carried over as the JSON value it arrived as.
pub fn decode_context(j: &Json) -> (r: Result<Context, MdBookRFCError>)
    ensures
        match r {
            Ok(c) => dec_context(j.deep_view()) == Some(c.deep_view()),
            Err(e) => dec_context(j.deep_view()) is None && e == MdBookRFCError::Decode,
        },
{
    match j {
        Json::Obj(ps) => {
            if !(ps.len() == 4 && str_eq(&ps[0].0, "root") && str_eq(&ps[1].0, "config") && str_eq(
                &ps[2].0,
                "renderer",
            ) && str_eq(&ps[3].0, "mdbook_version")) {
                return Err(MdBookRFCError::Decode);
            }
            let root = match &ps[0].1 {
                Json::Str(s) => s.clone(),
                _ => {
                    proof {
                        assert(!(json_view(ps@[0 as int].1) is Str));
                    }
                    return Err(MdBookRFCError::Decode);
                },
            };
            let renderer = match &ps[2].1 {
                Json::Str(s) => s.clone(),
                _ => {
                    proof {
                        assert(!(json_view(ps@[2 as int].1) is Str));
                    }
                    return Err(MdBookRFCError::Decode);
                },
            };
            let mdbook_version = match &ps[3].1 {
                Json::Str(s) => s.clone(),
                _ => {
                    proof {
                        assert(!(json_view(ps@[3 as int].1) is Str));
                    }
                    return Err(MdBookRFCError::Decode);
                },
            };
            let config = ps[1].1.clone();
            let c = Context { root, config, renderer, mdbook_version };
            proof {
                assert(json_view(ps@[0 as int].1) == JsonV::Str(c.root@));
                assert(json_view(ps@[2 as int].1) == JsonV::Str(c.renderer@));
                assert(json_view(ps@[3 as int].1) == JsonV::Str(c.mdbook_version@));
            }
            Ok(c)
        },
        _ => Err(MdBookRFCError::Decode),
    }
}

/// Decode one handshake payload: a JSON array holding the context and the
/// document tree, in that order.
pub fn decode_payload(j: &Json) -> (r: Result<(Context, Book), MdBookRFCError>)
    ensures
        match r {
            Ok(cb) => dec_payload(j.deep_view()) == Some((cb.0.deep_view(), cb.1.deep_view())),
            Err(e) => dec_payload(j.deep_view()) is None && e == MdBookRFCError::Decode,
        },
{
    match j {
        Json::Arr(es) => {
            if es.len() != 2 {
                return Err(MdBookRFCError::Decode);
            }
            proof {
                assert(jsons_view(es@)[0] == json_view(es@[0]));
                assert(jsons_view(es@)[1] == json_view(es@[1]));
            }
            let ctx = match decode_context(&es[0]) {
                Ok(c) => c,
                Err(e) => {
                    return Err(e);
                },
            };
            let book = match decode_book(&es[1]) {
                Ok(b) => b,
                Err(e) => {
                    return Err(e);
                },
            };
            Ok((ctx, book))
        },
        _ => Err(MdBookRFCError::Decode),
    }
}

#[verifier::loop_isolation(false)]
fn encode_numbers(ns: &Vec<u32>) -> (r: Vec<Json>)
    ensures
        jsons_view(r@) == enc_numbers(ns@),
{
    let mut out: Vec<Json> = Vec::new();
    let mut i: usize = 0;
    while i < ns.len()
        invariant
            i <= ns.len(),
            out@.len() == i as int,
            forall|k: int|
                0 <= k < i ==> json_view(#[trigger] out@[k]) == JsonV::Int(ns@[k] as i64),
        decreases ns.len() - i,
    {
        out.push(Json::Int(ns[i] as i64));
        i = i + 1;
    }
    proof {
        assert(jsons_view(out@) =~= enc_numbers(ns@));
    }
    out
}

fn encode_number(n: &Option<Vec<u32>>) -> (r: Json)
    ensures
        json_view(r) == enc_number(opt_nums_view(*n)),
{
    match n {
        None => Json::Null,
        Some(ns) => Json::Arr(encode_numbers(ns)),
    }
}

fn encode_opt_str(s: &Option<String>) -> (r: Json)
    ensures
        json_view(r) == enc_opt_str(opt_str_view(*s)),
{
    match s {
        None => Json::Null,
        Some(t) => Json::Str(t.clone()),
    }
}

#[verifier::loop_isolation(false)]
fn encode_names(ss: &Vec<String>) -> (r: Vec<Json>)
    ensures
        jsons_view(r@) == enc_names(strs_view(ss@)),
{
    let mut out: Vec<Json> = Vec::new();
    let mut i: usize = 0;
    while i < ss.len()
        invariant
            i <= ss.len(),
            out@.len() == i as int,
            forall|k: int| 0 <= k < i ==> json_view(#[trigger] out@[k]) == JsonV::Str(ss@[k]@),
        decreases ss.len() - i,
    {
        let s = ss[i].clone();
        out.push(Json::Str(s));
        i = i + 1;
    }
    proof {
        assert(jsons_view(out@) =~= enc_names(strs_view(ss@)));
    }
    out
}

#[verifier::loop_isolation(false)]
fn encode_items(items: &Vec<Item>) -> (r: Vec<Json>)
    ensures
        jsons_view(r@) == enc_items(items_view(items@)),
    decreases items@,
{
    let mut out: Vec<Json> = Vec::new();
    let mut i: usize = 0;
    while i < items.len()
        invariant
            i <= items.len(),
            out@.len() == i as int,
            forall|k: int|
                0 <= k < i ==> json_view(#[trigger] out@[k]) == enc_item(item_view(items@[k])),
        decreases items.len() - i,
    {
        proof {
            assert(decreases_to!(items@ => items@[i as int]));
        }
        let j = encode_item(&items[i]);
        out.push(j);
        i = i + 1;
    }
    proof {
        assert forall|k: int| 0 <= k < items@.len() implies #[trigger] jsons_view(out@)[k]
            == enc_items(items_view(items@))[k] by {
            assert(items_view(items@)[k] == item_view(items@[k]));
            assert(jsons_view(out@)[k] == json_view(out@[k]));
        }
        assert(jsons_view(out@) =~= enc_items(items_view(items@)));
    }
    out
}

fn encode_item(it: &Item) -> (r: Json)
    ensures
        json_view(r) == enc_item(item_view(*it)),
    decreases *it,
{
    match it {
        Item::Separator => Json::Str("Separator".to_owned()),
        Item::Chapter { name, content, number, sub_items, path, source_path, parent_names } => {
            proof {
                assert(decreases_to!(*it => it->Chapter_sub_items));
                assert(decreases_to!(it->Chapter_sub_items => it->Chapter_sub_items@));
            }
            let subs = encode_items(sub_items);
            let names = encode_names(parent_names);
            let mut fields: Vec<(String, Json)> = Vec::new();
            fields.push(("name".to_owned(), Json::Str(name.clone())));
            fields.push(("content".to_owned(), Json::Str(content.clone())));
            fields.push(("number".to_owned(), encode_number(number)));
            fields.push(("sub_items".to_owned(), Json::Arr(subs)));
            fields.push(("path".to_owned(), encode_opt_str(path)));
            fields.push(("source_path".to_owned(), encode_opt_str(source_path)));
            fields.push(("parent_names".to_owned(), Json::Arr(names)));
            let ghost fv = pairs_view(fields@);
            let inner = Json::Obj(fields);
            let mut outer: Vec<(String, Json)> = Vec::new();
            outer.push(("Chapter".to_owned(), inner));
            let r = Json::Obj(outer);
            proof {
                let cv = item_view(*it)->Chapter_0;
                assert(fv =~= enc_item(item_view(*it))->Obj_0[0].1->Obj_0);
                assert(pairs_view(outer@) =~= enc_item(item_view(*it))->Obj_0);
            }
            r
        },
    }
}

/// Encode the document tree into its JSON form, ready for the output stream.
pub fn encode_book(b: &Book) -> (r: Json)
    ensures
        r.deep_view() == enc_book(b.deep_view()),
{
    let secs = encode_items(&b.sections);
    let ghost sv = secs@;
    let mut fields: Vec<(String, Json)> = Vec::new();
    fields.push(("sections".to_owned(), Json::Arr(secs)));
    fields.push(("__non_exhaustive".to_owned(), Json::Null));
    let r = Json::Obj(fields);
    proof {
        assert(json_view(r->Obj_0@[0].1) == JsonV::Arr(jsons_view(sv)));
        assert(json_view(r->Obj_0@[1].1) == JsonV::Null);
        assert(r.deep_view()->Obj_0 =~= enc_book(b.deep_view())->Obj_0);
    }
    r
}

/// Encode the invocation context into its JSON form.
pub fn encode_context(c: &Context) -> (r: Json)
    ensures
        r.deep_view() == enc_context(c.deep_view()),
{
    let mut fields: Vec<(String, Json)> = Vec::new();
    fields.push(("root".to_owned(), Json::Str(c.root.clone())));
    fields.push(("config".to_owned(), c.config.clone()));
    fields.push(("renderer".to_owned(), Json::Str(c.renderer.clone())));
    fields.push(("mdbook_version".to_owned(), Json::Str(c.mdbook_version.clone())));
    let r = Json::Obj(fields);
    proof {
        assert(json_view(r->Obj_0@[0].1) == JsonV::Str(c.root@));
        assert(json_view(r->Obj_0@[1].1) == json_view(c.config));
        assert(json_view(r->Obj_0@[2].1) == JsonV::Str(c.renderer@));
        assert(json_view(r->Obj_0@[3].1) == JsonV::Str(c.mdbook_version@));
        assert(r.deep_view()->Obj_0 =~= enc_context(c.deep_view())->Obj_0);
    }
    r
}

/// Encode a whole handshake payload: the JSON array `[context, book]`.
pub fn encode_payload(c: &Context, b: &Book) -> (r: Json)
    ensures
        r.deep_view() == enc_payload(c.deep_view(), b.deep_view()),
{
    let cj = encode_context(c);
    let bj = encode_book(b);
    let mut es: Vec<Json> = Vec::new();
    es.push(cj);
    es.push(bj);
    let r = Json::Arr(es);
    proof {
        assert(r.deep_view()->Arr_0 =~= enc_payload(c.deep_view(), b.deep_view())->Arr_0);
    }
    r
}

} // verus!
