//! The hub's configuration: server entries, their validation, the merge of
//! `env_file` values into a server's environment, and the merge of the
//! global and local config files.
use vstd::prelude::*;
use crate::text::{chars_of, push_str, split_on, str_equals, string_of, trim, trimmed_range};

verus! {

/// Field names known in a `[servers.<name>]` block.
pub open spec fn known_server_field(f: Seq<char>) -> bool {
    ||| f == "command"@
    ||| f == "args"@
    ||| f == "env"@
    ||| f == "env_file"@
    ||| f == "transport"@
    ||| f == "cwd"@
    ||| f == "health_check_interval"@
    ||| f == "max_retries"@
    ||| f == "restart_delay"@
}

/// The transport used when a server block names none.
pub fn default_transport() -> (t: String)
    ensures
        t@ == "stdio"@,
{
    String::from_str("stdio")
}

/// An environment: variable names with their values; a later entry for a
/// name overrides an earlier one.
pub type EnvVars = Vec<(String, String)>;

/// The names and values of an environment.
pub open spec fn env_pairs(env: Seq<(String, String)>) -> Seq<(Seq<char>, Seq<char>)> {
    env.map_values(|p: (String, String)| (p.0@, p.1@))
}

/// The environment as a map from names to values; a later entry for a name
/// overrides an earlier one.
pub open spec fn env_map(pairs: Seq<(Seq<char>, Seq<char>)>) -> Map<Seq<char>, Seq<char>>
    decreases pairs.len(),
{
    if pairs.len() == 0 {
        Map::empty()
    } else {
        env_map(pairs.drop_last()).insert(pairs.last().0, pairs.last().1)
    }
}

/// No variable name occurs twice.
pub open spec fn distinct_keys(pairs: Seq<(Seq<char>, Seq<char>)>) -> bool {
    forall|i: int, j: int| 0 <= i < j < pairs.len() ==> #[trigger] pairs[i].0 != #[trigger] pairs[j].0
}

/// Per-server configuration block.
#[derive(Clone, Debug)]
pub struct ServerConfig {
    /// The executable to run (required, must not be empty).
    pub command: String,
    /// Command-line arguments passed to the executable.
    pub args: Vec<String>,
    /// Inline environment variables.
    pub env: EnvVars,
    /// Path to a `.env` file whose values override `env`.
    pub env_file: Option<String>,
    /// Transport protocol ("stdio" or "http").
    pub transport: String,
    /// Working directory for the child process.
    pub cwd: Option<String>,
    /// Per-server health check interval override (seconds).
    pub health_check_interval: Option<u64>,
    /// Per-server max restart attempts override.
    pub max_retries: Option<u32>,
    /// Per-server base restart delay override (seconds).
    pub restart_delay: Option<u64>,
}

/// Top-level config: server name with its configuration.
#[derive(Debug)]
pub struct HubConfig {
    pub servers: Vec<(String, ServerConfig)>,
}

/// The server names of a config, in order.
pub open spec fn server_names(servers: Seq<(String, ServerConfig)>) -> Seq<Seq<char>> {
    servers.map_values(|p: (String, ServerConfig)| p.0@)
}

impl HubConfig {
    /// Every server name occurs once.
    pub open spec fn wf(&self) -> bool {
        server_names(self.servers@).no_duplicates()
    }
}

// ─── Validation ───────────────────────────────────────────────────────────

/// The problems found in one server entry, in the order they are reported.
pub open spec fn server_problems(name: Seq<char>, command: Seq<char>, transport: Seq<char>) -> Seq<Seq<char>> {
    let a: Seq<Seq<char>> = if command.len() == 0 {
        seq!["Server '"@ + name + "': 'command' must not be empty"@]
    } else {
        Seq::empty()
    };
    let b: Seq<Seq<char>> = if transport == "stdio"@ || transport == "http"@ {
        Seq::empty()
    } else {
        seq![
            "Server '"@ + name + "': unknown transport '"@ + transport
                + "' (expected 'stdio' or 'http')"@,
        ]
    };
    a + b
}

/// The problems of all entries, entry after entry.
pub open spec fn config_problems(servers: Seq<(String, ServerConfig)>) -> Seq<Seq<char>>
    decreases servers.len(),
{
    if servers.len() == 0 {
        Seq::empty()
    } else {
        let last = servers.last();
        config_problems(servers.drop_last()) + server_problems(last.0@, last.1.command@, last.1.transport@)
    }
}

/// Validation outcome: success when there is no problem, otherwise all
/// problems, one per line.
pub open spec fn validation(servers: Seq<(String, ServerConfig)>) -> Result<(), Seq<char>> {
    let ps = config_problems(servers);
    if ps.len() == 0 { Ok(()) } else { Err(crate::text::join(ps, "\n"@)) }
}

fn push_problem(ps: &mut Vec<String>, m: String)
    ensures
        final(ps)@.map_values(|p: String| p@) == old(ps)@.map_values(|p: String| p@).push(m@),
{
    ps.push(m);
    assert(ps@.map_values(|p: String| p@) =~= old(ps)@.map_values(|p: String| p@).push(m@));
}

/// Validate all server entries, collecting every problem before failing.
pub fn validate_config(config: &HubConfig) -> (r: Result<(), String>)
    ensures
        match (r, validation(config.servers@)) {
            (Ok(()), Ok(())) => true,
            (Err(m), Err(e)) => m@ == e,
            _ => false,
        },
{
    let mut errors: Vec<String> = Vec::new();
    for i in 0..config.servers.len()
        invariant
            errors@.map_values(|p: String| p@) == config_problems(config.servers@.take(i as int)),
    {
        let name = &config.servers[i].0;
        let server = &config.servers[i].1;
        let ghost before = errors@.map_values(|p: String| p@);
        assert(config.servers@.take(i + 1).drop_last() == config.servers@.take(i as int));
        assert(config.servers@.take(i + 1).last() == config.servers@[i as int]);
        let cmd = chars_of(server.command.as_str());
        if cmd.len() == 0 {
            let mut m = String::from_str("Server '");
            push_str(&mut m, name.as_str());
            push_str(&mut m, "': 'command' must not be empty");
            push_problem(&mut errors, m);
        }
        let ghost mid = errors@.map_values(|p: String| p@);
        if !(str_equals(server.transport.as_str(), "stdio") || str_equals(server.transport.as_str(), "http")) {
            let mut m = String::from_str("Server '");
            push_str(&mut m, name.as_str());
            push_str(&mut m, "': unknown transport '");
            push_str(&mut m, server.transport.as_str());
            push_str(&mut m, "' (expected 'stdio' or 'http')");
            push_problem(&mut errors, m);
        }
        assert(errors@.map_values(|p: String| p@) == before + server_problems(
            name@,
            server.command@,
            server.transport@,
        ));
    }
    assert(config.servers@.take(config.servers.len() as int) == config.servers@);
    if errors.len() == 0 {
        Ok(())
    } else {
        Err(crate::text::join_strings(errors.as_slice(), "\n"))
    }
}


// ─── env_file ─────────────────────────────────────────────────────────────

/// Index of the first `c` in `s`, or `s.len()` when there is none.
pub open spec fn first_index(s: Seq<char>, c: char) -> nat
    decreases s.len(),
{
    if s.len() == 0 {
        0
    } else if s[0] == c {
        0
    } else {
        1 + first_index(s.drop_first(), c)
    }
}

/// The assignment a line of an env file makes: after trimming, blank lines
/// and lines starting with `#` make none; otherwise the line is split at
/// its first `=` into a trimmed name and a trimmed value.  A line without
/// `=` makes none.
pub open spec fn env_line(line: Seq<char>) -> Option<(Seq<char>, Seq<char>)> {
    let t = trim(line);
    if t.len() == 0 || t[0] == '#' {
        None
    } else {
        let p = first_index(t, '=');
        if p < t.len() {
            Some((trim(t.take(p as int)), trim(t.skip((p + 1) as int))))
        } else {
            None
        }
    }
}

/// The assignments of a sequence of lines, in order.
pub open spec fn env_lines(lines: Seq<Seq<char>>) -> Seq<(Seq<char>, Seq<char>)>
    decreases lines.len(),
{
    if lines.len() == 0 {
        Seq::empty()
    } else {
        let prev = env_lines(lines.drop_last());
        match env_line(lines.last()) {
            Some(kv) => prev.push(kv),
            None => prev,
        }
    }
}

/// The assignments of an env file's content.
pub open spec fn env_file_entries(content: Seq<char>) -> Seq<(Seq<char>, Seq<char>)> {
    env_lines(split_on(content, '\n'))
}

proof fn first_index_props(s: Seq<char>, c: char)
    ensures
        first_index(s, c) <= s.len(),
        forall|i: int| 0 <= i < first_index(s, c) ==> #[trigger] s[i] != c,
        first_index(s, c) < s.len() ==> s[first_index(s, c) as int] == c,
    decreases s.len(),
{
    if s.len() > 0 && s[0] != c {
        first_index_props(s.drop_first(), c);
        assert forall|i: int| 0 <= i < first_index(s, c) implies #[trigger] s[i] != c by {
            if i > 0 {
                assert(s[i] == s.drop_first()[i - 1]);
            }
        }
    }
}

proof fn first_index_at(s: Seq<char>, c: char, p: int)
    requires
        0 <= p <= s.len(),
        forall|i: int| 0 <= i < p ==> #[trigger] s[i] != c,
        p == s.len() || s[p] == c,
    ensures
        first_index(s, c) == p,
{
    first_index_props(s, c);
}

/// The assignment made by `line[from..to]`, if any.
fn env_line_of(cs: &Vec<char>, from: usize, to: usize) -> (r: Option<(String, String)>)
    requires
        from <= to <= cs@.len(),
    ensures
        match (r, env_line(cs@.subrange(from as int, to as int))) {
            (Some(kv), Some(e)) => kv.0@ == e.0 && kv.1@ == e.1,
            (None, None) => true,
            _ => false,
        },
{
    let t = trimmed_range(cs, from, to);
    if t.len() == 0 || t[0] == '#' {
        return None;
    }
    let mut p: usize = 0;
    while p < t.len() && t[p] != '='
        invariant
            p <= t@.len(),
            forall|i: int| 0 <= i < p ==> #[trigger] t@[i] != '=',
        decreases t@.len() - p,
    {
        p = p + 1;
    }
    proof {
        first_index_at(t@, '=', p as int);
    }
    if p == t.len() {
        return None;
    }
    let k = trimmed_range(&t, 0, p);
    let v = trimmed_range(&t, p + 1, t.len());
    assert(t@.subrange(0, p as int) == t@.take(p as int));
    assert(t@.subrange(p + 1, t@.len() as int) == t@.skip(p + 1));
    Some((string_of(&k), string_of(&v)))
}

fn push_entry(out: &mut EnvVars, kv: (String, String))
    ensures
        env_pairs(final(out)@) == env_pairs(old(out)@).push((kv.0@, kv.1@)),
{
    out.push(kv);
    assert(env_pairs(out@) =~= env_pairs(old(out)@).push((kv.0@, kv.1@)));
}

/// The environment of a server whose `env_file` holds `content`: the inline
/// variables followed by the file's assignments, so that the file's values
/// take precedence.
pub fn merge_env_file(env: &EnvVars, content: &str) -> (r: EnvVars)
    ensures
        env_pairs(r@) == env_pairs(env@) + env_file_entries(content@),
{
    let mut out: EnvVars = Vec::new();
    for i in 0..env.len()
        invariant
            env_pairs(out@) == env_pairs(env@.take(i as int)),
    {
        let kv = (env[i].0.clone(), env[i].1.clone());
        push_entry(&mut out, kv);
        assert(env_pairs(env@.take(i + 1)) == env_pairs(env@.take(i as int)).push((env@[i as int].0@, env@[i as int].1@)));
    }
    assert(env@.take(env.len() as int) == env@);
    let ghost base = env_pairs(out@);
    let cs = chars_of(content);
    let mut start: usize = 0;
    let mut i: usize = 0;
    assert(cs@.take(0) == Seq::<char>::empty());
    while i < cs.len()
        invariant
            cs@ == content@,
            start <= i <= cs@.len(),
            split_on(cs@.take(i as int), '\n').last() == cs@.subrange(start as int, i as int),
            env_pairs(out@) == base + env_lines(split_on(cs@.take(i as int), '\n').drop_last()),
        decreases cs@.len() - i,
    {
        proof {
            crate::text::split_on_nonempty(cs@.take(i as int), '\n');
        }
        let ghost prev = split_on(cs@.take(i as int), '\n');
        assert(cs@.take(i + 1).drop_last() == cs@.take(i as int));
        if cs[i] == '\n' {
            assert(split_on(cs@.take(i + 1), '\n') == prev.push(Seq::empty()));
            assert(prev.push(Seq::<char>::empty()).drop_last() == prev);
            assert(prev == prev.drop_last().push(prev.last()));
            match env_line_of(&cs, start, i) {
                Some(kv) => push_entry(&mut out, kv),
                None => {},
            }
            start = i + 1;
        } else {
            let ghost next = prev.update(prev.len() - 1, prev.last().push(cs@[i as int]));
            assert(split_on(cs@.take(i + 1), '\n') == next);
            assert(next.drop_last() == prev.drop_last());
            assert(cs@.subrange(start as int, i + 1) == cs@.subrange(start as int, i as int).push(
                cs@[i as int],
            ));
        }
        i = i + 1;
    }
    proof {
        crate::text::split_on_nonempty(cs@, '\n');
    }
    assert(cs@.take(cs@.len() as int) == cs@);
    let ghost segs = split_on(cs@, '\n');
    assert(segs == segs.drop_last().push(segs.last()));
    match env_line_of(&cs, start, cs.len()) {
        Some(kv) => push_entry(&mut out, kv),
        None => {},
    }
    out
}

/// Assignments applied in order: the map of a concatenation is the map of
/// the first part overridden by the map of the second.
pub proof fn env_map_concat(a: Seq<(Seq<char>, Seq<char>)>, b: Seq<(Seq<char>, Seq<char>)>)
    ensures
        env_map(a + b) == env_map(a).union_prefer_right(env_map(b)),
    decreases b.len(),
{
    if b.len() == 0 {
        assert(a + b == a);
        assert(env_map(a).union_prefer_right(Map::empty()) =~= env_map(a));
    } else {
        assert((a + b).drop_last() == a + b.drop_last());
        assert((a + b).last() == b.last());
        env_map_concat(a, b.drop_last());
        assert(env_map(a + b) =~= env_map(a).union_prefer_right(env_map(b)));
    }
}

/// Values from `env_file` take precedence over inline `env`: the resolved
/// environment is the inline one overridden by the file's assignments.
pub proof fn env_file_overrides_inline(env: Seq<(String, String)>, content: Seq<char>)
    ensures
        env_map(env_pairs(env) + env_file_entries(content)) == env_map(env_pairs(env)).union_prefer_right(
            env_map(env_file_entries(content)),
        ),
{
    env_map_concat(env_pairs(env), env_file_entries(content));
}

/// A line of an env file makes an assignment exactly when, once trimmed,
/// it is not blank, does not start with `#`, and holds an `=`.  Comment
/// lines and blank lines make none.
pub proof fn env_line_assigns_iff(line: Seq<char>)
    ensures
        env_line(line) is Some <==> (trim(line).len() > 0 && trim(line)[0] != '#' && trim(
            line,
        ).contains('=')),
        trim(line).len() > 0 && trim(line)[0] == '#' ==> env_line(line) is None,
        trim(line).len() == 0 ==> env_line(line) is None,
{
    let t = trim(line);
    first_index_props(t, '=');
    if t.contains('=') {
        let j = choose|j: int| 0 <= j < t.len() && t[j] == '=';
        assert(first_index(t, '=') <= j);
    }
    if first_index(t, '=') < t.len() {
        assert(t[first_index(t, '=') as int] == '=');
    }
}

/// An assignment splits its trimmed line at the first `=`: the name is the
/// trimmed text before it and the value the trimmed text after it.
pub proof fn env_line_splits_at_first_equals(line: Seq<char>)
    requires
        env_line(line) is Some,
    ensures
        ({
            let t = trim(line);
            let (k, v) = env_line(line)->0;
            exists|p: int|
                0 <= p < t.len() && t[p] == '=' && (forall|i: int| 0 <= i < p ==> t[i] != '=') && k
                    == trim(t.take(p)) && v == trim(t.skip(p + 1))
        }),
{
    let t = trim(line);
    first_index_props(t, '=');
    let p = first_index(t, '=') as int;
    assert(0 <= p < t.len() && t[p] == '=' && (forall|i: int| 0 <= i < p ==> t[i] != '='));
}

proof fn env_lines_of_silent_lines(lines: Seq<Seq<char>>)
    requires
        forall|i: int| 0 <= i < lines.len() ==> #[trigger] env_line(lines[i]) is None,
    ensures
        env_lines(lines) == Seq::<(Seq<char>, Seq<char>)>::empty(),
    decreases lines.len(),
{
    if lines.len() > 0 {
        let d = lines.drop_last();
        assert forall|i: int| 0 <= i < d.len() implies #[trigger] env_line(d[i]) is None by {
            assert(d[i] == lines[i]);
        }
        env_lines_of_silent_lines(d);
        assert(env_line(lines[lines.len() - 1]) is None);
    }
}

/// An env file whose lines are all blank or comments (trimmed, they start
/// with `#`) assigns nothing, so merging it leaves the environment as it was.
pub proof fn commented_env_file_adds_nothing(env: Seq<(String, String)>, content: Seq<char>)
    requires
        forall|i: int|
            0 <= i < split_on(content, '\n').len() ==> trim(#[trigger] split_on(content, '\n')[i]).len()
                == 0 || trim(split_on(content, '\n')[i])[0] == '#',
    ensures
        env_file_entries(content) == Seq::<(Seq<char>, Seq<char>)>::empty(),
        env_pairs(env) + env_file_entries(content) == env_pairs(env),
{
    let lines = split_on(content, '\n');
    assert forall|i: int| 0 <= i < lines.len() implies #[trigger] env_line(lines[i]) is None by {
        env_line_assigns_iff(lines[i]);
    }
    env_lines_of_silent_lines(lines);
    assert(env_pairs(env) + Seq::<(Seq<char>, Seq<char>)>::empty() == env_pairs(env));
}


// ─── Unknown fields ───────────────────────────────────────────────────────

/// The field names of a server block that the hub does not know, in order.
pub open spec fn unknown_fields(fields: Seq<Seq<char>>) -> Seq<Seq<char>>
    decreases fields.len(),
{
    if fields.len() == 0 {
        Seq::empty()
    } else {
        let prev = unknown_fields(fields.drop_last());
        if known_server_field(fields.last()) { prev } else { prev.push(fields.last()) }
    }
}

/// A field of a server block draws an "unknown field" warning exactly
/// when it is not one of the known fields.
pub proof fn unknown_fields_are_the_unlisted_ones(fields: Seq<Seq<char>>, f: Seq<char>)
    ensures
        unknown_fields(fields).contains(f) <==> (fields.contains(f) && !known_server_field(f)),
    decreases fields.len(),
{
    if fields.len() > 0 {
        let prev = fields.drop_last();
        unknown_fields_are_the_unlisted_ones(prev, f);
        assert(fields == prev.push(fields.last()));
        if fields.contains(f) && !known_server_field(f) {
            if f != fields.last() {
                let i = choose|i: int| 0 <= i < fields.len() && fields[i] == f;
                assert(prev[i] == f);
            }
        }
        if prev.contains(f) {
            let i = choose|i: int| 0 <= i < prev.len() && prev[i] == f;
            assert(fields[i] == f);
        }
        if !known_server_field(fields.last()) {
            let u = unknown_fields(prev);
            if u.push(fields.last()).contains(f) && f != fields.last() {
                let i = choose|i: int| 0 <= i < u.push(fields.last()).len() && u.push(fields.last())[i] == f;
                assert(u[i] == f);
            }
            if f == fields.last() {
                assert(u.push(fields.last())[u.len() as int] == f);
            }
            if u.contains(f) {
                let i = choose|i: int| 0 <= i < u.len() && u[i] == f;
                assert(u.push(fields.last())[i] == f);
            }
        }
        if f == fields.last() {
            assert(fields[fields.len() - 1] == f);
        }
    }
}

/// The hub starts only with at least one server: a configuration without
/// servers is an error that says how to add one.
pub fn check_has_servers(config: &HubConfig) -> (r: Result<(), String>)
    ensures
        config.servers@.len() > 0 ==> r is Ok,
        config.servers@.len() == 0 ==> (r matches Err(m)
            && m@ == "No servers defined in config. Add servers to mcp-hub.toml or run `mcp-hub init`."@),
{
    if config.servers.len() > 0 {
        Ok(())
    } else {
        Err(String::from_str("No servers defined in config. Add servers to mcp-hub.toml or run `mcp-hub init`."))
    }
}

/// Whether `f` names a known server field.
pub fn is_known_server_field(f: &str) -> (b: bool)
    ensures
        b == known_server_field(f@),
{
    str_equals(f, "command") || str_equals(f, "args") || str_equals(f, "env") || str_equals(f, "env_file")
        || str_equals(f, "transport") || str_equals(f, "cwd") || str_equals(f, "health_check_interval")
        || str_equals(f, "max_retries") || str_equals(f, "restart_delay")
}

/// The fields of a server block that deserve an "unknown field" warning:
/// unknown fields are tolerated so that newer config files still load.
pub fn unknown_server_fields(fields: &Vec<String>) -> (r: Vec<String>)
    ensures
        r@.map_values(|f: String| f@) == unknown_fields(fields@.map_values(|f: String| f@)),
{
    let ghost fs = fields@.map_values(|f: String| f@);
    let mut r: Vec<String> = Vec::new();
    for i in 0..fields.len()
        invariant
            fs == fields@.map_values(|f: String| f@),
            r@.map_values(|f: String| f@) == unknown_fields(fs.take(i as int)),
    {
        assert(fs.take(i + 1).drop_last() == fs.take(i as int));
        assert(fs.take(i + 1).last() == fields@[i as int]@);
        if !is_known_server_field(fields[i].as_str()) {
            let ghost before = r@.map_values(|f: String| f@);
            r.push(fields[i].clone());
            assert(r@.map_values(|f: String| f@) =~= before.push(fields@[i as int]@));
        }
    }
    assert(fs.take(fields.len() as int) == fs);
    r
}

// ─── Global and local config files ────────────────────────────────────────

/// `servers` with the entry `e` added, or replacing the entry of the same
/// name.
pub open spec fn upsert_server(servers: Seq<(String, ServerConfig)>, e: (String, ServerConfig)) -> Seq<
    (String, ServerConfig),
> {
    let names = server_names(servers);
    if names.contains(e.0@) {
        servers.update(names.index_of(e.0@), e)
    } else {
        servers.push(e)
    }
}

/// `servers` extended by `more`, entry after entry.
pub open spec fn extend_servers(servers: Seq<(String, ServerConfig)>, more: Seq<(String, ServerConfig)>) -> Seq<
    (String, ServerConfig),
>
    decreases more.len(),
{
    if more.len() == 0 {
        servers
    } else {
        upsert_server(extend_servers(servers, more.drop_last()), more.last())
    }
}

/// The configuration of each named server.
pub open spec fn server_map(servers: Seq<(String, ServerConfig)>) -> Map<Seq<char>, ServerConfig> {
    Map::new(
        |k: Seq<char>| server_names(servers).contains(k),
        |k: Seq<char>| servers[server_names(servers).index_of(k)].1,
    )
}

proof fn upsert_keeps_distinct(servers: Seq<(String, ServerConfig)>, e: (String, ServerConfig))
    requires
        server_names(servers).no_duplicates(),
    ensures
        server_names(upsert_server(servers, e)).no_duplicates(),
        server_map(upsert_server(servers, e)) == server_map(servers).insert(e.0@, e.1),
{
    let names = server_names(servers);
    let r = upsert_server(servers, e);
    let rn = server_names(r);
    if names.contains(e.0@) {
        let i = names.index_of(e.0@);
        assert(rn =~= names);
        assert forall|k: Seq<char>| #[trigger] rn.contains(k) implies rn.index_of(k) == names.index_of(k) by {
            let j = names.index_of(k);
            crate::logs::index_of_unique(rn, k, j);
        }
        assert(server_map(r) =~= server_map(servers).insert(e.0@, e.1)) by {
            assert forall|k: Seq<char>| #[trigger] server_map(r).contains_key(k) implies server_map(r)[k]
                == server_map(servers).insert(e.0@, e.1)[k] by {
                let j = names.index_of(k);
                if k == e.0@ {
                    assert(j == i);
                } else {
                    assert(j != i);
                }
            }
        }
    } else {
        assert(rn =~= names.push(e.0@));
        assert forall|k: Seq<char>| #[trigger] names.contains(k) implies rn.index_of(k) == names.index_of(k) by {
            let j = names.index_of(k);
            assert(rn[j] == k);
            crate::logs::index_of_unique(rn, k, j);
        }
        crate::logs::index_of_unique(rn, e.0@, names.len() as int);
        let m = server_map(servers).insert(e.0@, e.1);
        assert forall|k: Seq<char>| #[trigger] server_map(r).contains_key(k) == m.contains_key(k) by {
            if names.contains(k) {
                let j = names.index_of(k);
                assert(rn[j] == k);
            }
            if rn.contains(k) && k != e.0@ {
                let j = rn.index_of(k);
                assert(j < names.len());
                assert(names[j] == k);
            }
        }
        assert forall|k: Seq<char>| #[trigger] server_map(r).contains_key(k) implies server_map(r)[k] == m[k] by {
            if k != e.0@ {
                assert(names.contains(k));
                let j = names.index_of(k);
                assert(rn.index_of(k) == j);
                assert(r[j] == servers[j]);
            }
        }
        assert(server_map(r) =~= m);
    }
}

/// Local servers override global ones by name: the merged configuration of
/// each server is the global one overridden by the local one, and server
/// names stay distinct.
pub proof fn local_overrides_global(global: Seq<(String, ServerConfig)>, local: Seq<(String, ServerConfig)>)
    requires
        server_names(global).no_duplicates(),
        server_names(local).no_duplicates(),
    ensures
        server_names(extend_servers(global, local)).no_duplicates(),
        server_map(extend_servers(global, local)) == server_map(global).union_prefer_right(server_map(local)),
    decreases local.len(),
{
    if local.len() == 0 {
        assert(server_map(local) =~= Map::empty());
        assert(server_map(global).union_prefer_right(Map::empty()) =~= server_map(global));
    } else {
        let d = local.drop_last();
        let e = local.last();
        let ln = server_names(local);
        let dn = server_names(d);
        assert(ln =~= dn.push(e.0@));
        assert(dn.no_duplicates()) by {
            assert forall|i: int, j: int| 0 <= i < dn.len() && 0 <= j < dn.len() && i != j implies dn[i]
                != dn[j] by {
                assert(dn[i] == ln[i] && dn[j] == ln[j]);
            }
        }
        assert(!dn.contains(e.0@)) by {
            if dn.contains(e.0@) {
                let j = dn.index_of(e.0@);
                assert(ln[j] == ln[ln.len() - 1]);
            }
        }
        assert(local == d.push(e));
        assert(upsert_server(d, e) == local);
        upsert_keeps_distinct(d, e);
        let prev = extend_servers(global, d);
        local_overrides_global(global, d);
        upsert_keeps_distinct(prev, e);
        assert(server_map(global).union_prefer_right(server_map(local)) =~= server_map(global).union_prefer_right(
            server_map(d),
        ).insert(e.0@, e.1));
    }
}

fn find_server(servers: &Vec<(String, ServerConfig)>, name: &String) -> (r: Option<usize>)
    ensures
        match r {
            Some(i) => i < servers@.len() && servers@[i as int].0@ == name@,
            None => !server_names(servers@).contains(name@),
        },
{
    for i in 0..servers.len()
        invariant
            forall|k: int| 0 <= k < i ==> servers@[k].0@ != name@,
    {
        if servers[i].0 == *name {
            return Some(i);
        }
    }
    proof {
        if server_names(servers@).contains(name@) {
            let ns = server_names(servers@);
            let k = choose|k: int| 0 <= k < ns.len() && #[trigger] ns[k] == name@;
            assert(servers@[k].0@ == name@);
        }
    }
    None
}

/// Merge a local config into a global one: a local server replaces the
/// global server of the same name, other local servers are added after the
/// global ones.
pub fn merge_configs(global: HubConfig, local: HubConfig) -> (r: HubConfig)
    requires
        global.wf(),
    ensures
        r.servers@ == extend_servers(global.servers@, local.servers@),
{
    let mut servers = global.servers;
    let mut rest = local.servers;
    let ghost all = rest@;
    let total = rest.len();
    let mut done: usize = 0;
    while rest.len() > 0
        invariant
            done + rest@.len() == total,
            all.len() == total,
            rest@ == all.skip(done as int),
            servers@ == extend_servers(global.servers@, all.take(done as int)),
            server_names(servers@).no_duplicates(),
        decreases rest@.len(),
    {
        let e = rest.remove(0);
        assert(all.take(done + 1).drop_last() == all.take(done as int));
        assert(all.take(done + 1).last() == e);
        proof {
            upsert_keeps_distinct(servers@, e);
        }
        let ghost before = servers@;
        match find_server(&servers, &e.0) {
            Some(i) => {
                proof {
                    crate::logs::index_of_unique(server_names(before), e.0@, i as int);
                }
                servers.set(i, e);
            },
            None => {
                servers.push(e);
            },
        }
        done = done + 1;
        assert(rest@ == all.skip(done as int));
    }
    assert(all.take(all.len() as int) == all);
    HubConfig { servers }
}

/// Choose the configuration from the global and local config files that
/// were found: neither is an error, one is used as it is, both are merged
/// with local servers overriding global ones.
pub fn combine_found_configs(global: Option<HubConfig>, local: Option<HubConfig>) -> (r: Result<
    HubConfig,
    String,
>)
    requires
        global matches Some(g) ==> g.wf(),
    ensures
        match (global, local) {
            (None, None) => r matches Err(m) && m@ == "No mcp-hub.toml found. Create one or run `mcp-hub init`."@,
            (Some(g), None) => r matches Ok(c) && c.servers@ == g.servers@,
            (None, Some(l)) => r matches Ok(c) && c.servers@ == l.servers@,
            (Some(g), Some(l)) => r matches Ok(c) && c.servers@ == extend_servers(g.servers@, l.servers@),
        },
{
    match (global, local) {
        (None, None) => Err(String::from_str("No mcp-hub.toml found. Create one or run `mcp-hub init`.")),
        (Some(g), None) => Ok(g),
        (None, Some(l)) => Ok(l),
        (Some(g), Some(l)) => Ok(merge_configs(g, l)),
    }
}


/// A server entry is acceptable: it has a command and a known transport.
pub open spec fn server_ok(e: (String, ServerConfig)) -> bool {
    e.1.command@.len() > 0 && (e.1.transport@ == "stdio"@ || e.1.transport@ == "http"@)
}

/// A configuration validates exactly when every server entry is acceptable.
pub proof fn validation_accepts_exactly_sound_configs(servers: Seq<(String, ServerConfig)>)
    ensures
        validation(servers) is Ok <==> forall|i: int| 0 <= i < servers.len() ==> server_ok(#[trigger] servers[i]),
    decreases servers.len(),
{
    if servers.len() > 0 {
        let d = servers.drop_last();
        validation_accepts_exactly_sound_configs(d);
        let e = servers.last();
        let ps = server_problems(e.0@, e.1.command@, e.1.transport@);
        assert(ps.len() == 0 <==> server_ok(e));
        if forall|i: int| 0 <= i < servers.len() ==> server_ok(#[trigger] servers[i]) {
            assert forall|i: int| 0 <= i < d.len() implies server_ok(#[trigger] d[i]) by {
                assert(d[i] == servers[i]);
            }
            assert(server_ok(servers[servers.len() - 1]));
        }
        if validation(servers) is Ok {
            assert forall|i: int| 0 <= i < servers.len() implies server_ok(#[trigger] servers[i]) by {
                if i < d.len() {
                    assert(d[i] == servers[i]);
                }
            }
        }
    }
}

} // verus!
