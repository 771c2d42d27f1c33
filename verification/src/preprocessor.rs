use vstd::prelude::*;

use crate::book::{Book, Context};
use crate::codec::{dec_payload, decode_payload, enc_book, encode_book};
use crate::error::MdBookRFCError;
use crate::json::{json_view, pairs_view, Json, JsonV};
use crate::version::{caret_matches, check_compatibility, semver_parse, semver_view};

verus! {

/// The first member of a JSON object pair sequence carrying `key`, from
/// position `i` on.
pub open spec fn lookup_from(ps: Seq<(Seq<char>, JsonV)>, key: Seq<char>, i: int) -> Option<JsonV>
    decreases ps.len() - i,
{
    if i < 0 || i >= ps.len() {
        None
    } else if ps[i].0 == key {
        Some(ps[i].1)
    } else {
        lookup_from(ps, key, i + 1)
    }
}

/// Looking a key up in a JSON value: the first member of that name, if the
/// value is an object holding one.
pub open spec fn obj_lookup(j: JsonV, key: Seq<char>) -> Option<JsonV> {
    match j {
        JsonV::Obj(ps) => lookup_from(ps, key, 0),
        _ => None,
    }
}

fn lookup_exec<'a>(ps: &'a Vec<(String, Json)>, key: &str, i: usize) -> (r: Option<&'a Json>)
    requires
        i <= ps@.len(),
    ensures
        match r {
            Some(v) => lookup_from(pairs_view(ps@), key@, i as int) == Some(json_view(*v)),
            None => lookup_from(pairs_view(ps@), key@, i as int) is None,
        },
    decreases ps@.len() - i,
{
    if i == ps.len() {
        None
    } else {
        proof {
            assert(pairs_view(ps@)[i as int] == (ps@[i as int].0@, json_view(ps@[i as int].1)));
        }
        let t = key.to_owned();
        if ps[i].0 == t {
            Some(&ps[i].1)
        } else {
            lookup_exec(ps, key, i + 1)
        }
    }
}

/// The member of that name in a JSON object, if any: the configuration
/// mapping is consulted this way.
pub fn json_get<'a>(j: &'a Json, key: &str) -> (r: Option<&'a Json>)
    ensures
        match r {
            Some(v) => obj_lookup(json_view(*j), key@) == Some(json_view(*v)),
            None => obj_lookup(json_view(*j), key@) is None,
        },
{
    match j {
        Json::Obj(ps) => lookup_exec(ps, key, 0),
        _ => None,
    }
}

/// The no-op preprocessor: it declares its renderer support and hands every
/// document tree back unchanged.
pub struct RFCPreprocessor;

impl RFCPreprocessor {
    pub fn new() -> (r: RFCPreprocessor) {
        RFCPreprocessor
    }

    /// The name under which the host tool configures this preprocessor.
    pub fn name(&self) -> (r: &'static str)
        ensures
            r@ == "rfc-preprocessor"@,
    {
        "rfc-preprocessor"
    }

    /// The transform stage. The baseline transform is the identity: the
    /// tree comes back unchanged, whatever the configuration holds. A real
    /// transform would read its configuration block, looked up here the way
    /// one would.
    pub fn run(&self, ctx: &Context, book: Book) -> (r: Result<Book, MdBookRFCError>)
        ensures
            r is Ok,
            r->Ok_0.deep_view() == book.deep_view(),
    {
        if let Some(table) = json_get(&ctx.config, "preprocessor") {
            if let Some(block) = json_get(table, "rfc-preprocessor") {
                // A transform could be told to fail through a sentinel key in
                // its block; the baseline deliberately stays the identity.
                let _sentinel = json_get(block, "blow-up");
            }
        }
        Ok(book)
    }

    /// The renderer allowlist: exactly the renderer named `rfc`, by
    /// case-sensitive comparison.
    pub fn supports_renderer(&self, renderer: &str) -> (r: bool)
        ensures
            r == (renderer@ == "rfc"@),
    {
        let t = renderer.to_owned();
        let k = "rfc".to_owned();
        t == k
    }
}

/// One whole handshake, after the payload has been read: decode it, compare
/// the declared tool version against the one the plugin was built against,
/// run the transform, and re-encode the tree for the output stream. The
/// returned flag says whether a compatibility warning is due; a mismatch
/// never stops the run.
pub fn preprocess(pre: &RFCPreprocessor, payload: &Json, built_against: &str) -> (r: Result<
    (Json, bool),
    MdBookRFCError,
>)
    ensures
        match r {
            Ok(out) => {
                &&& dec_payload(json_view(*payload)) is Some
                &&& semver_parse(built_against@) is Some
                &&& semver_parse(
                    dec_payload(json_view(*payload)).unwrap().0.mdbook_version,
                ) is Some
                &&& json_view(out.0) == enc_book(dec_payload(json_view(*payload)).unwrap().1)
                &&& out.1 == !caret_matches(
                    semver_view(semver_parse(built_against@).unwrap()),
                    semver_view(
                        semver_parse(
                            dec_payload(json_view(*payload)).unwrap().0.mdbook_version,
                        ).unwrap(),
                    ),
                )
            },
            Err(e) => match e {
                MdBookRFCError::Decode => dec_payload(json_view(*payload)) is None,
                MdBookRFCError::VersionParse => dec_payload(json_view(*payload)) is Some && (
                semver_parse(built_against@) is None || semver_parse(
                    dec_payload(json_view(*payload)).unwrap().0.mdbook_version,
                ) is None),
                _ => false,
            },
        },
{
    let (ctx, book) = decode_payload(payload)?;
    let compatible = check_compatibility(built_against, ctx.mdbook_version.as_str())?;
    let processed = pre.run(&ctx, book)?;
    let out = encode_book(&processed);
    Ok((out, !compatible))
}

} // verus!
