//! What the hub reads of a config document before its typed load: the
//! names of the `[servers.<name>]` blocks and the fields each block holds.
//!
//! The document is parsed by the `toml` crate into its key outline (the
//! keys of the top-level table, of the tables below it, and of the tables
//! below those); everything read from the outline is verified.
use vstd::prelude::*;
use crate::config::{unknown_fields, unknown_server_fields};
use crate::init::views;
use crate::text::str_equals;

verus! {

/// A server block of the outline: its name and, when its value is a
/// table, the names of its fields.
pub type ServerBlock = (String, Option<Vec<String>>);

/// A top-level entry of the outline: its key and, when its value is a
/// table, the blocks of that table.
pub type OutlineEntry = (String, Option<Vec<ServerBlock>>);

/// A server block as plain values.
pub open spec fn block_view(b: ServerBlock) -> (Seq<char>, Option<Seq<Seq<char>>>) {
    (b.0@, match b.1 {
        Some(fields) => Some(views(fields@)),
        None => None,
    })
}

/// Server blocks as plain values.
pub open spec fn blocks_view(bs: Seq<ServerBlock>) -> Seq<(Seq<char>, Option<Seq<Seq<char>>>)> {
    bs.map_values(|b: ServerBlock| block_view(b))
}

/// An outline as plain values.
pub open spec fn outline_view(o: Seq<OutlineEntry>) -> Seq<(Seq<char>, Option<Seq<(Seq<char>, Option<Seq<Seq<char>>>)>>)> {
    o.map_values(|e: OutlineEntry| (e.0@, match e.1 {
        Some(bs) => Some(blocks_view(bs@)),
        None => None,
    }))
}

/// The key outline of the TOML document `content` as the `toml` crate
/// parses it, or the message of its parse error.
pub uninterp spec fn toml_key_outline(content: Seq<char>) -> Result<Seq<(Seq<char>, Option<Seq<(Seq<char>, Option<Seq<Seq<char>>>)>>)>, Seq<char>>;

/// Parses `content` with `toml::from_str` into a `toml::Table` and lists,
/// in the table's order, each key with, when its value is a table, that
/// table's keys with, again when their value is a table, its keys.  The
/// contract ties the result to the document and nothing else: the same
/// text gives the same outline or the same error message.
#[verifier::external_body]
fn parse_key_outline(content: &str) -> (r: Result<Vec<OutlineEntry>, String>)
    ensures
        match r {
            Ok(o) => toml_key_outline(content@) == Ok::<_, Seq<char>>(outline_view(o@)),
            Err(m) => toml_key_outline(content@) == Err::<
                Seq<(Seq<char>, Option<Seq<(Seq<char>, Option<Seq<Seq<char>>>)>>)>,
                Seq<char>,
            >(m@),
        },
{
    match toml::from_str::<toml::Table>(content) {
        Ok(t) => Ok(t.iter().map(|(k, v)| (k.clone(), v.as_table().map(|t2| t2.iter().map(
            |(k2, v2)| (k2.clone(), v2.as_table().map(|t3| t3.keys().cloned().collect())),
        ).collect()))).collect()),
        Err(e) => Err(e.to_string()),
    }
}

/// The server blocks of an outline: the blocks under the top-level key
/// `servers` when its value is a table, none otherwise.
pub open spec fn servers_section(o: Seq<(Seq<char>, Option<Seq<(Seq<char>, Option<Seq<Seq<char>>>)>>)>) -> Seq<(Seq<char>, Option<Seq<Seq<char>>>)>
    decreases o.len(),
{
    if o.len() == 0 {
        Seq::empty()
    } else if o[0].0 == "servers"@ {
        match o[0].1 {
            Some(bs) => bs,
            None => Seq::empty(),
        }
    } else {
        servers_section(o.drop_first())
    }
}

/// The names of server blocks.
pub open spec fn block_names(bs: Seq<(Seq<char>, Option<Seq<Seq<char>>>)>) -> Seq<Seq<char>> {
    bs.map_values(|b: (Seq<char>, Option<Seq<Seq<char>>>)| b.0)
}

/// Each unknown field of each server block whose value is a table, with
/// the block's name, in document order.
pub open spec fn unknown_field_pairs(bs: Seq<(Seq<char>, Option<Seq<Seq<char>>>)>) -> Seq<(Seq<char>, Seq<char>)>
    decreases bs.len(),
{
    if bs.len() == 0 {
        Seq::empty()
    } else {
        let rest = unknown_field_pairs(bs.drop_last());
        let b = bs.last();
        match b.1 {
            Some(fields) => rest + unknown_fields(fields).map_values(|f: Seq<char>| (b.0, f)),
            None => rest,
        }
    }
}

/// The blocks of the `servers` table of `outline`.
fn servers_blocks(outline: &Vec<OutlineEntry>) -> (r: Option<&Vec<ServerBlock>>)
    ensures
        servers_section(outline_view(outline@)) == match r {
            Some(bs) => blocks_view(bs@),
            None => Seq::empty(),
        },
{
    let ghost ov = outline_view(outline@);
    let mut i: usize = 0;
    assert(ov.skip(0) == ov);
    while i < outline.len()
        invariant
            i <= outline@.len(),
            ov == outline_view(outline@),
            servers_section(ov) == servers_section(ov.skip(i as int)),
        decreases outline@.len() - i,
    {
        let ghost rest = ov.skip(i as int);
        assert(rest[0] == ov[i as int]);
        assert(rest.drop_first() == ov.skip(i + 1));
        if str_equals(outline[i].0.as_str(), "servers") {
            return match &outline[i].1 {
                Some(bs) => Some(bs),
                None => None,
            };
        }
        i = i + 1;
    }
    assert(ov.skip(i as int).len() == 0);
    None
}

/// The names of the server blocks of an outline.
pub fn server_names_of_outline(outline: &Vec<OutlineEntry>) -> (r: Vec<String>)
    ensures
        views(r@) == block_names(servers_section(outline_view(outline@))),
{
    let mut r: Vec<String> = Vec::new();
    match servers_blocks(outline) {
        Some(bs) => {
            let ghost bv = blocks_view(bs@);
            for i in 0..bs.len()
                invariant
                    bv == blocks_view(bs@),
                    views(r@) == block_names(bv.take(i as int)),
            {
                let ghost before = views(r@);
                r.push(bs[i].0.clone());
                assert(views(r@) =~= before.push(bs@[i as int].0@));
                assert(block_names(bv.take(i + 1)) =~= block_names(bv.take(i as int)).push(bv[i as int].0));
            }
            assert(bv.take(bs@.len() as int) == bv);
        },
        None => {
            assert(views(r@) =~= Seq::<Seq<char>>::empty());
        },
    }
    r
}

/// The unknown fields of the server blocks of an outline, each with the
/// name of its block.
pub fn unknown_fields_of_outline(outline: &Vec<OutlineEntry>) -> (r: Vec<(String, String)>)
    ensures
        r@.map_values(|p: (String, String)| (p.0@, p.1@)) == unknown_field_pairs(
            servers_section(outline_view(outline@)),
        ),
{
    let mut r: Vec<(String, String)> = Vec::new();
    match servers_blocks(outline) {
        Some(bs) => {
            let ghost bv = blocks_view(bs@);
            for i in 0..bs.len()
                invariant
                    bv == blocks_view(bs@),
                    r@.map_values(|p: (String, String)| (p.0@, p.1@)) == unknown_field_pairs(bv.take(i as int)),
            {
                assert(bv.take(i + 1).drop_last() == bv.take(i as int));
                assert(bv.take(i + 1).last() == bv[i as int]);
                match &bs[i].1 {
                    Some(fields) => {
                        let unknown = unknown_server_fields(fields);
                        let ghost uv = unknown@.map_values(|f: String| f@);
                        let ghost name = bs@[i as int].0@;
                        let ghost base = r@.map_values(|p: (String, String)| (p.0@, p.1@));
                        for j in 0..unknown.len()
                            invariant
                                uv == unknown@.map_values(|f: String| f@),
                                r@.map_values(|p: (String, String)| (p.0@, p.1@)) == base + uv.take(
                                    j as int,
                                ).map_values(|f: Seq<char>| (name, f)),
                                name == bs@[i as int].0@,
                                i < bs@.len(),
                        {
                            let ghost before = r@.map_values(|p: (String, String)| (p.0@, p.1@));
                            r.push((bs[i].0.clone(), unknown[j].clone()));
                            assert(r@.map_values(|p: (String, String)| (p.0@, p.1@)) =~= before.push(
                                (name, uv[j as int]),
                            ));
                            assert(uv.take(j + 1).map_values(|f: Seq<char>| (name, f)) =~= uv.take(
                                j as int,
                            ).map_values(|f: Seq<char>| (name, f)).push((name, uv[j as int])));
                        }
                        assert(uv.take(unknown@.len() as int) == uv);
                        assert(views(fields@) == fields@.map_values(|f: String| f@));
                    },
                    None => {},
                }
            }
            assert(bv.take(bs@.len() as int) == bv);
        },
        None => {
            assert(r@.map_values(|p: (String, String)| (p.0@, p.1@)) =~= Seq::<(Seq<char>, Seq<char>)>::empty());
        },
    }
    r
}

/// The names of the server blocks of the TOML document `content`, or the
/// parse error's message.
pub fn server_names_in(content: &str) -> (r: Result<Vec<String>, String>)
    ensures
        match toml_key_outline(content@) {
            Ok(o) => r matches Ok(v) && views(v@) == block_names(servers_section(o)),
            Err(m) => r matches Err(e) && e@ == m,
        },
{
    match parse_key_outline(content) {
        Ok(o) => Ok(server_names_of_outline(&o)),
        Err(m) => Err(m),
    }
}

/// The unknown fields, with their block names, of the server blocks of the
/// TOML document `content`, or the parse error's message.
pub fn unknown_fields_in(content: &str) -> (r: Result<Vec<(String, String)>, String>)
    ensures
        match toml_key_outline(content@) {
            Ok(o) => r matches Ok(v) && v@.map_values(|p: (String, String)| (p.0@, p.1@))
                == unknown_field_pairs(servers_section(o)),
            Err(m) => r matches Err(e) && e@ == m,
        },
{
    match parse_key_outline(content) {
        Ok(o) => Ok(unknown_fields_of_outline(&o)),
        Err(m) => Err(m),
    }
}

} // verus!
