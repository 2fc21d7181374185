//! The `init` wizard's rules: which server names are acceptable, how a new
//! server block is written as TOML, and how it is added to a config file.
use vstd::prelude::*;
use crate::text::{
    chars_of, join, join_strings, push_char, push_str, split_on, str_equals, trim,
    trimmed_range,
};

verus! {

/// `c` escaped for a TOML basic (double-quoted) string: a backslash and a
/// double quote are preceded by a backslash.
pub open spec fn escape_char(c: char) -> Seq<char> {
    if c == '\\' {
        seq!['\\', '\\']
    } else if c == '"' {
        seq!['\\', '"']
    } else {
        seq![c]
    }
}

/// `s` escaped for a TOML basic string.
pub open spec fn toml_escaped(s: Seq<char>) -> Seq<char>
    decreases s.len(),
{
    if s.len() == 0 {
        Seq::empty()
    } else {
        toml_escaped(s.drop_last()) + escape_char(s.last())
    }
}

fn push_escaped(out: &mut String, cs: &Vec<char>)
    ensures
        final(out)@ == old(out)@ + toml_escaped(cs@),
{
    for i in 0..cs.len()
        invariant
            out@ == old(out)@ + toml_escaped(cs@.take(i as int)),
    {
        let c = cs[i];
        assert(cs@.take(i + 1).drop_last() == cs@.take(i as int));
        if c == '\\' {
            push_char(out, '\\');
            push_char(out, '\\');
        } else if c == '"' {
            push_char(out, '\\');
            push_char(out, '"');
        } else {
            push_char(out, c);
        }
        assert(out@ == old(out)@ + toml_escaped(cs@.take(i + 1)));
    }
    assert(cs@.take(cs.len() as int) == cs@);
}

/// Escape a string for placement inside a TOML double-quoted basic string:
/// `\` becomes `\\` and `"` becomes `\"`.
pub fn toml_escape(s: &str) -> (r: String)
    ensures
        r@ == toml_escaped(s@),
{
    let cs = chars_of(s);
    let mut out = String::new();
    push_escaped(&mut out, &cs);
    out
}

/// A character allowed in a TOML bare key: ASCII letters, digits, `-`, `_`.
pub open spec fn is_name_char(c: char) -> bool {
    ('A' <= c <= 'Z') || ('a' <= c <= 'z') || ('0' <= c <= '9') || c == '-' || c == '_'
}

/// A usable server name: non-empty, made only of bare-key characters.
pub open spec fn valid_server_name(s: Seq<char>) -> bool {
    s.len() > 0 && forall|i: int| 0 <= i < s.len() ==> is_name_char(#[trigger] s[i])
}

/// A server name is accepted exactly when it is non-empty and each of its
/// characters is an ASCII letter, an ASCII digit, `-` or `_` (TOML's bare-key
/// characters); any other character, such as `/`, `.`, a space or a quote,
/// makes it unusable.
pub proof fn server_name_rule(s: Seq<char>)
    ensures
        valid_server_name(s) <==> (s.len() > 0 && forall|i: int|
            0 <= i < s.len() ==> {
                let u = #[trigger] s[i] as int;
                (0x41 <= u <= 0x5a) || (0x61 <= u <= 0x7a) || (0x30 <= u <= 0x39) || u == 0x2d || u == 0x5f
            }),
        s.contains('/') || s.contains('.') || s.contains(' ') || s.contains('"') ==> !valid_server_name(s),
{
    assert forall|c: char| is_name_char(c) <==> {
        let u = c as int;
        (0x41 <= u <= 0x5a) || (0x61 <= u <= 0x7a) || (0x30 <= u <= 0x39) || u == 0x2d || u == 0x5f
    } by {
        assert(('A' as int) == 0x41 && ('Z' as int) == 0x5a && ('a' as int) == 0x61 && ('z' as int) == 0x7a);
        assert(('0' as int) == 0x30 && ('9' as int) == 0x39 && ('-' as int) == 0x2d && ('_' as int) == 0x5f);
    }
    if s.contains('/') || s.contains('.') || s.contains(' ') || s.contains('"') {
        let i = choose|i: int| 0 <= i < s.len() && (s[i] == '/' || s[i] == '.' || s[i] == ' ' || s[i] == '"');
        assert(!is_name_char(s[i]));
    }
}

/// Whether `name` can be used as a server name in the generated TOML.
pub fn is_valid_server_name(name: &str) -> (b: bool)
    ensures
        b == valid_server_name(name@),
{
    let cs = chars_of(name);
    if cs.len() == 0 {
        return false;
    }
    for i in 0..cs.len()
        invariant
            cs@ == name@,
            forall|k: int| 0 <= k < i ==> is_name_char(#[trigger] cs@[k]),
    {
        let c = cs[i];
        if !(('A' <= c && c <= 'Z') || ('a' <= c && c <= 'z') || ('0' <= c && c <= '9') || c == '-'
            || c == '_') {
            return false;
        }
    }
    true
}

/// `a` as a quoted, escaped TOML string.
pub open spec fn quoted(a: Seq<char>) -> Seq<char> {
    seq!['"'] + toml_escaped(a) + seq!['"']
}

/// The quoted arguments separated by `", "`.
pub open spec fn quoted_list(args: Seq<Seq<char>>) -> Seq<char>
    decreases args.len(),
{
    if args.len() == 0 {
        Seq::empty()
    } else if args.len() == 1 {
        quoted(args[0])
    } else {
        quoted_list(args.drop_last()) + seq![',', ' '] + quoted(args.last())
    }
}

/// The text of a new server block: a leading newline, the table header,
/// the command, the arguments when there are any, and the transport when
/// it is not the default `stdio`.
pub open spec fn toml_block(
    name: Seq<char>,
    command: Seq<char>,
    args: Seq<Seq<char>>,
    transport: Seq<char>,
) -> Seq<char> {
    let head = "\n[servers."@ + name + "]\ncommand = \""@ + toml_escaped(command) + "\"\n"@;
    let with_args = if args.len() == 0 {
        head
    } else {
        head + "args = ["@ + quoted_list(args) + "]\n"@
    };
    if transport == "stdio"@ {
        with_args
    } else {
        with_args + "transport = \""@ + toml_escaped(transport) + "\"\n"@
    }
}

/// The views of a list of strings.
pub open spec fn views(v: Seq<String>) -> Seq<Seq<char>> {
    v.map_values(|s: String| s@)
}

/// Build the TOML server block for a new server entry.
pub fn format_toml_block(name: &str, command: &str, args: &[String], transport: &str) -> (r: String)
    ensures
        r@ == toml_block(name@, command@, views(args@), transport@),
{
    let mut block = String::new();
    push_str(&mut block, "\n[servers.");
    push_str(&mut block, name);
    push_str(&mut block, "]\ncommand = \"");
    let cmd = chars_of(command);
    push_escaped(&mut block, &cmd);
    push_str(&mut block, "\"\n");
    let ghost head = block@;
    if args.len() > 0 {
        push_str(&mut block, "args = [");
        let ghost before = block@;
        for i in 0..args.len()
            invariant
                args@.len() > 0,
                block@ == before + quoted_list(views(args@).take(i as int)),
        {
            let ghost vs = views(args@).take(i + 1);
            assert(vs.drop_last() == views(args@).take(i as int));
            assert(vs.last() == args@[i as int]@);
            if i > 0 {
                push_str(&mut block, ", ");
                proof {
                    reveal_strlit(", ");
                }
            }
            push_char(&mut block, '"');
            let a = chars_of(args[i].as_str());
            push_escaped(&mut block, &a);
            push_char(&mut block, '"');
            proof {
                if i == 0 {
                    assert(vs.len() == 1 && vs[0] == args@[0]@);
                }
                assert(block@ == before + quoted_list(vs));
            }
        }
        assert(views(args@).take(args.len() as int) == views(args@));
        push_str(&mut block, "]\n");
    }
    if !str_equals(transport, "stdio") {
        push_str(&mut block, "transport = \"");
        let t = chars_of(transport);
        push_escaped(&mut block, &t);
        push_str(&mut block, "\"\n");
    }
    block
}


/// The wizard's answer to a proposed server name: accepted, or the message
/// explaining the refusal.
pub open spec fn name_check(input: Seq<char>, existing: Seq<Seq<char>>) -> Result<(), Seq<char>> {
    if input.len() == 0 {
        Err("Server name must not be empty"@)
    } else if !valid_server_name(input) {
        Err("Server name may only contain letters, digits, hyphens, and underscores"@)
    } else if existing.contains(input) {
        Err("Name '"@ + input + "' already exists. Existing servers: "@ + join(existing, ", "@))
    } else {
        Ok(())
    }
}

/// Whether `name` is one of `names`.
pub fn contains_name(names: &[String], name: &str) -> (b: bool)
    ensures
        b == views(names@).contains(name@),
{
    for i in 0..names.len()
        invariant
            forall|k: int| 0 <= k < i ==> names@[k]@ != name@,
    {
        if str_equals(names[i].as_str(), name) {
            assert(views(names@)[i as int] == name@);
            return true;
        }
    }
    proof {
        if views(names@).contains(name@) {
            let vs = views(names@);
            let k = choose|k: int| 0 <= k < vs.len() && #[trigger] vs[k] == name@;
            assert(names@[k]@ == name@);
        }
    }
    false
}

/// Check a server name typed into the wizard against the naming rule and
/// the names already in the config file.
pub fn validate_new_server_name(input: &str, existing: &[String]) -> (r: Result<(), String>)
    ensures
        match (r, name_check(input@, views(existing@))) {
            (Ok(()), Ok(())) => true,
            (Err(m), Err(e)) => m@ == e,
            _ => false,
        },
{
    let cs = chars_of(input);
    if cs.len() == 0 {
        return Err(String::from_str("Server name must not be empty"));
    }
    if !is_valid_server_name(input) {
        return Err(String::from_str(
            "Server name may only contain letters, digits, hyphens, and underscores",
        ));
    }
    if contains_name(existing, input) {
        let mut m = String::from_str("Name '");
        push_str(&mut m, input);
        push_str(&mut m, "' already exists. Existing servers: ");
        let list = join_strings(existing, ", ");
        push_str(&mut m, list.as_str());
        return Err(m);
    }
    Ok(())
}

/// The pieces of `pieces`, trimmed, without the empty ones.
pub open spec fn kept_trimmed(pieces: Seq<Seq<char>>) -> Seq<Seq<char>>
    decreases pieces.len(),
{
    if pieces.len() == 0 {
        Seq::empty()
    } else {
        let k = kept_trimmed(pieces.drop_last());
        let t = trim(pieces.last());
        if t.len() > 0 { k.push(t) } else { k }
    }
}

/// The arguments typed as a comma-separated list: each piece trimmed,
/// empty pieces dropped.
pub open spec fn args_from_list(raw: Seq<char>) -> Seq<Seq<char>> {
    kept_trimmed(split_on(raw, ','))
}

/// Split the wizard's comma-separated argument answer into arguments.
pub fn parse_args_list(raw: &str) -> (r: Vec<String>)
    ensures
        views(r@) == args_from_list(raw@),
{
    let cs = chars_of(raw);
    let mut r: Vec<String> = Vec::new();
    let mut start: usize = 0;
    let mut i: usize = 0;
    assert(cs@.take(0) == Seq::<char>::empty());
    while i < cs.len()
        invariant
            cs@ == raw@,
            start <= i <= cs@.len(),
            split_on(cs@.take(i as int), ',').last() == cs@.subrange(start as int, i as int),
            views(r@) == kept_trimmed(split_on(cs@.take(i as int), ',').drop_last()),
        decreases cs@.len() - i,
    {
        proof {
            crate::text::split_on_nonempty(cs@.take(i as int), ',');
        }
        let ghost prev = split_on(cs@.take(i as int), ',');
        assert(cs@.take(i + 1).drop_last() == cs@.take(i as int));
        if cs[i] == ',' {
            let piece = trimmed_range(&cs, start, i);
            assert(split_on(cs@.take(i + 1), ',') == prev.push(Seq::empty()));
            assert(prev.push(Seq::<char>::empty()).drop_last() == prev);
            assert(prev == prev.drop_last().push(prev.last()));
            if piece.len() > 0 {
                r.push(crate::text::string_of(&piece));
                assert(views(r@) == views(r@).drop_last().push(piece@));
            }
            start = i + 1;
        } else {
            let ghost next = prev.update(prev.len() - 1, prev.last().push(cs@[i as int]));
            assert(split_on(cs@.take(i + 1), ',') == next);
            assert(next.drop_last() == prev.drop_last());
            assert(cs@.subrange(start as int, i + 1) == cs@.subrange(start as int, i as int).push(
                cs@[i as int],
            ));
        }
        i = i + 1;
    }
    proof {
        crate::text::split_on_nonempty(cs@, ',');
    }
    assert(cs@.take(cs@.len() as int) == cs@);
    let ghost segs = split_on(cs@, ',');
    let piece = trimmed_range(&cs, start, cs.len());
    assert(segs == segs.drop_last().push(segs.last()));
    if piece.len() > 0 {
        r.push(crate::text::string_of(&piece));
        assert(views(r@) == views(r@).drop_last().push(piece@));
    }
    r
}

/// Number of leading line feeds of `s`.
pub open spec fn lead_newlines(s: Seq<char>) -> nat
    decreases s.len(),
{
    if s.len() > 0 && s[0] == '\n' { 1 + lead_newlines(s.drop_first()) } else { 0 }
}

/// How a new server block is written to the config file.
pub struct EntryWrite {
    /// Append to the existing file (`true`) or create it (`false`).
    pub append: bool,
    /// The text to append, or the whole content of the new file.
    pub content: String,
}

/// What is written for `toml_block`: appended to an existing file, after a
/// line feed when the file does not already end with one; or, for a new
/// file, the whole block without its leading line feeds.
pub open spec fn entry_write(existing: Option<Seq<char>>, block: Seq<char>) -> (bool, Seq<char>) {
    match existing {
        Some(e) => (true, if e.len() > 0 && e.last() == '\n' { block } else { seq!['\n'] + block }),
        None => (false, block.skip(lead_newlines(block) as int)),
    }
}

proof fn lead_newlines_skip(s: Seq<char>, k: int)
    requires
        0 <= k <= s.len(),
        forall|i: int| 0 <= i < k ==> #[trigger] s[i] == '\n',
        k == s.len() || s[k] != '\n',
    ensures
        lead_newlines(s) == k,
    decreases k,
{
    if k > 0 {
        assert forall|i: int| 0 <= i < k - 1 implies #[trigger] s.drop_first()[i] == '\n' by {
            assert(s.drop_first()[i] == s[i + 1]);
        }
        if k < s.len() {
            assert(s.drop_first()[k - 1] == s[k]);
        }
        lead_newlines_skip(s.drop_first(), k - 1);
    }
}

proof fn lead_newlines_facts(s: Seq<char>)
    ensures
        lead_newlines(s) <= s.len(),
        forall|i: int| 0 <= i < lead_newlines(s) ==> #[trigger] s[i] == '\n',
        lead_newlines(s) < s.len() ==> s[lead_newlines(s) as int] != '\n',
    decreases s.len(),
{
    if s.len() > 0 && s[0] == '\n' {
        lead_newlines_facts(s.drop_first());
        assert forall|i: int| 0 <= i < lead_newlines(s) implies #[trigger] s[i] == '\n' by {
            if i > 0 {
                assert(s[i] == s.drop_first()[i - 1]);
            }
        }
        if lead_newlines(s) < s.len() {
            assert(s[lead_newlines(s) as int] == s.drop_first()[lead_newlines(s.drop_first()) as int]);
        }
    }
}

/// Adding a server block keeps the file's content and puts the block at
/// the end on a line of its own; a new file holds the block without its
/// leading blank lines.
pub proof fn entry_write_layout(existing: Option<Seq<char>>, block: Seq<char>)
    ensures
        match existing {
            Some(e) => {
                let full = e + entry_write(existing, block).1;
                &&& entry_write(existing, block).0
                &&& full.subrange(0, e.len() as int) == e
                &&& full.len() > block.len()
                &&& full.subrange(full.len() - block.len(), full.len() as int) == block
                &&& full[full.len() - block.len() - 1] == '\n'
            },
            None => {
                let c = entry_write(existing, block).1;
                &&& !entry_write(existing, block).0
                &&& (c.len() == 0 || c[0] != '\n')
                &&& block == Seq::new(lead_newlines(block), |i: int| '\n') + c
            },
        },
{
    match existing {
        Some(e) => {
            let full = e + entry_write(existing, block).1;
            assert(full.subrange(0, e.len() as int) =~= e);
            assert(full.subrange(full.len() - block.len(), full.len() as int) =~= block);
        },
        None => {
            lead_newlines_facts(block);
            let k = lead_newlines(block) as int;
            let c = block.skip(k);
            if c.len() > 0 {
                assert(c[0] == block[k]);
            }
            assert(block =~= Seq::new(lead_newlines(block), |i: int| '\n') + c);
        },
    }
}

/// Decide how to add `toml_block` to a config file whose current content is
/// `existing` (`None` when the file does not exist).
pub fn plan_server_entry_write(existing: Option<&str>, toml_block: &str) -> (w: EntryWrite)
    ensures
        (w.append, w.content@) == entry_write(
            match existing {
                Some(e) => Some(e@),
                None => None,
            },
            toml_block@,
        ),
{
    match existing {
        Some(e) => {
            let ec = chars_of(e);
            let mut content = String::new();
            if ec.len() == 0 || ec[ec.len() - 1] != '\n' {
                push_char(&mut content, '\n');
            }
            push_str(&mut content, toml_block);
            EntryWrite { append: true, content }
        },
        None => {
            let bc = chars_of(toml_block);
            let mut k: usize = 0;
            while k < bc.len() && bc[k] == '\n'
                invariant
                    k <= bc@.len(),
                    forall|i: int| 0 <= i < k ==> #[trigger] bc@[i] == '\n',
                decreases bc@.len() - k,
            {
                k = k + 1;
            }
            proof {
                lead_newlines_skip(bc@, k as int);
            }
            let mut rest: Vec<char> = Vec::new();
            let mut i = k;
            while i < bc.len()
                invariant
                    k <= i <= bc@.len(),
                    rest@ == bc@.subrange(k as int, i as int),
                decreases bc@.len() - i,
            {
                rest.push(bc[i]);
                assert(bc@.subrange(k as int, i + 1) == bc@.subrange(k as int, i as int).push(bc@[i as int]));
                i = i + 1;
            }
            EntryWrite { append: false, content: crate::text::string_of(&rest) }
        },
    }
}


/// Reading a TOML basic string body in which a backslash makes the next
/// character literal (the `\\` and `\"` escapes).
pub open spec fn toml_unescaped(s: Seq<char>) -> Seq<char>
    decreases s.len(),
{
    if s.len() == 0 {
        Seq::empty()
    } else if s[0] == '\\' && s.len() >= 2 {
        seq![s[1]] + toml_unescaped(s.skip(2))
    } else {
        seq![s[0]] + toml_unescaped(s.skip(1))
    }
}

proof fn escaped_concat(a: Seq<char>, b: Seq<char>)
    ensures
        toml_escaped(a + b) == toml_escaped(a) + toml_escaped(b),
    decreases b.len(),
{
    if b.len() == 0 {
        assert(a + b == a);
    } else {
        assert((a + b).drop_last() == a + b.drop_last());
        assert((a + b).last() == b.last());
        escaped_concat(a, b.drop_last());
    }
}

/// Escaping is undone by reading the string back: a TOML reader recovers
/// exactly the text that was escaped, so commands and arguments survive the
/// generated config file unchanged.
pub proof fn escape_round_trip(s: Seq<char>)
    ensures
        toml_unescaped(toml_escaped(s)) == s,
    decreases s.len(),
{
    if s.len() > 0 {
        let c = s[0];
        let rest = s.skip(1);
        assert(s == seq![c] + rest);
        escaped_concat(seq![c], rest);
        assert(seq![c].drop_last() == Seq::<char>::empty());
        assert(seq![c].last() == c);
        assert(toml_escaped(Seq::<char>::empty()) == Seq::<char>::empty());
        assert(Seq::<char>::empty() + escape_char(c) =~= escape_char(c));
        assert(toml_escaped(seq![c]) == escape_char(c));
        escape_round_trip(rest);
        let e = toml_escaped(s);
        if c == '\\' || c == '"' {
            assert(e.skip(2) == toml_escaped(rest));
        } else {
            assert(e.skip(1) == toml_escaped(rest));
        }
    }
}

/// A quote never ends the escaped string early: every double quote of the
/// escaped text directly follows a backslash.
pub proof fn escaped_quotes_are_escaped(s: Seq<char>)
    ensures
        forall|i: int| 0 <= i < toml_escaped(s).len() && #[trigger] toml_escaped(s)[i] == '"' ==> i > 0
            && toml_escaped(s)[i - 1] == '\\',
    decreases s.len(),
{
    if s.len() > 0 {
        escaped_quotes_are_escaped(s.drop_last());
        let p = toml_escaped(s.drop_last());
        let e = toml_escaped(s);
        assert forall|i: int| 0 <= i < e.len() && #[trigger] e[i] == '"' implies i > 0 && e[i - 1] == '\\' by {
            if i < p.len() {
                assert(e[i] == p[i]);
                assert(e[i - 1] == p[i - 1]);
            }
        }
    }
}

} // verus!
