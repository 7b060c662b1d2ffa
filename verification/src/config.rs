//! The configuration record that the request pipeline reads. It is built
//! once at startup and never changes afterwards.

use crate::http1::header_lines;
use crate::http1::Header;
use crate::paths::join;
use crate::paths::joined_path;
use crate::paths::normal_form;
use crate::paths::normalize;
use crate::paths::path_difference;
use crate::paths::relative_to;
use crate::text::catenate;
use crate::text::decimal;
use crate::text::decimal_text;
use crate::text::same_text;
use crate::text::split_at_first;
use crate::text::split_once;
use vstd::prelude::*;

verus! {

/// The values that the operator configured for one header name.
#[derive(Debug)]
pub struct HeaderRule {
    pub name: String,
    pub values: Vec<String>,
}

/// One pair of user name and password that basic authentication accepts.
#[derive(Debug)]
pub struct Credential {
    pub username: String,
    pub password: String,
}

/// The configuration of one server.
#[derive(Default, Debug)]
pub struct Config {
    pub serve_dir_abs: String,
    pub serve_dir_fmt: String,
    pub address: String,
    pub port: usize,
    pub spa: bool,
    pub cors: bool,
    pub compress: bool,
    pub sab: bool,
    pub domain: String,
    pub domain_pretty: String,
    pub headers: Vec<HeaderRule>,
    pub quiet: bool,
    pub watch: bool,
    pub watch_dir: String,
    pub no_watch_inject: bool,
    pub stream_buffer_size: usize,
    pub basic_auth: Vec<Credential>,
}

/// What the command line asks for.
#[derive(Debug)]
pub struct CliCommand {
    /// The directory to serve.
    pub serve_dir: String,
    pub address: String,
    pub port: usize,
    /// Answer misses with the root index, for single-page applications.
    pub spa: bool,
    /// For how many seconds clients may cache; 0 forbids caching.
    pub cache_time: usize,
    /// Compress complete bodies while serving.
    pub compress: bool,
    /// Headers to add, each as `key:value`.
    pub headers: Vec<String>,
    pub cors: bool,
    /// Send the headers that `SharedArrayBuffer` needs.
    pub sab: bool,
    pub quiet: bool,
    /// Watch for changes and tell the browsers.
    pub watch: bool,
    /// The directory to watch, if not the one served.
    pub watch_dir: Option<String>,
    pub no_watch_inject: bool,
    pub stream_buffer_size: usize,
    /// Credentials for basic authentication, each as `user:password`.
    pub basic_auth: Vec<String>,
}

/// Why a command line makes no configuration.
#[derive(Debug, Clone, Copy, PartialEq, Eq, Structural)]
pub enum ConfigError {
    /// The served directory cannot be written relative to the working one.
    UnrelatedDirectory,
    /// A header lacks the colon between key and value.
    MalformedHeader,
    /// A credential lacks the colon between user and password.
    MalformedCredential,
}

/// A rule as a name and the texts of its values.
pub open spec fn rule_view(rule: HeaderRule) -> (Seq<char>, Seq<Seq<char>>) {
    (rule.name@, Seq::new(rule.values@.len(), |i: int| rule.values@[i]@))
}

/// A table of rules as names and values.
pub open spec fn table_view(rules: Seq<HeaderRule>) -> Seq<(Seq<char>, Seq<Seq<char>>)> {
    Seq::new(rules.len(), |i: int| rule_view(rules[i]))
}

/// The first place at or after `from` at which the table has a rule for
/// `name`.
pub open spec fn rule_place(table: Seq<(Seq<char>, Seq<Seq<char>>)>, name: Seq<char>, from: int) -> Option<
    int,
>
    decreases table.len() - from,
{
    if from < 0 || from >= table.len() {
        None
    } else if table[from].0 == name {
        Some(from)
    } else {
        rule_place(table, name, from + 1)
    }
}

/// The table with one more value for `name`: behind the values that the
/// name has, or in a new rule at the end.
pub open spec fn with_value(
    table: Seq<(Seq<char>, Seq<Seq<char>>)>,
    name: Seq<char>,
    value: Seq<char>,
) -> Seq<(Seq<char>, Seq<Seq<char>>)> {
    match rule_place(table, name, 0) {
        Some(i) => table.update(i, (name, table[i].1.push(value))),
        None => table.push((name, seq![value])),
    }
}

/// The table with the headers of the command line added one by one, each
/// split at its first colon; none if one of them has no colon.
pub open spec fn with_lines(table: Seq<(Seq<char>, Seq<Seq<char>>)>, lines: Seq<Seq<char>>) -> Option<
    Seq<(Seq<char>, Seq<Seq<char>>)>,
>
    decreases lines.len(),
{
    if lines.len() == 0 {
        Some(table)
    } else {
        match with_lines(table, lines.drop_last()) {
            None => None,
            Some(sofar) => match split_at_first(lines.last(), ':') {
                None => None,
                Some((key, value)) => Some(with_value(sofar, key, value)),
            },
        }
    }
}

/// The rules that every configuration starts with: isolation as
/// `SharedArrayBuffer` needs it or none, any origin or none, and caching
/// for the given time or not at all.
pub open spec fn standing_table(sab: bool, cors: bool, cache_time: usize) -> Seq<
    (Seq<char>, Seq<Seq<char>>),
> {
    seq![
        (
            "Cross-Origin-Opener-Policy"@,
            seq![if sab {
                "same-origin"@
            } else {
                "unsafe-none"@
            }],
        ),
        (
            "Cross-Origin-Embedder-Policy"@,
            seq![if sab {
                "require-corp"@
            } else {
                "unsafe-none"@
            }],
        ),
        (
            "Access-Control-Allow-Origin"@,
            seq![if cors {
                "*"@
            } else {
                "null"@
            }],
        ),
        (
            "Cache-Control"@,
            seq![
                if cache_time == 0 {
                    "no-cache, no-store, must-revalidate"@
                } else {
                    "max-age="@ + decimal_text(cache_time as nat)
                },
            ],
        ),
    ]
}

/// The credentials of the command line, each split at its first colon;
/// none if one of them has no colon.
pub open spec fn credentials_of(lines: Seq<Seq<char>>) -> Option<Seq<(Seq<char>, Seq<char>)>>
    decreases lines.len(),
{
    if lines.len() == 0 {
        Some(Seq::empty())
    } else {
        match credentials_of(lines.drop_last()) {
            None => None,
            Some(sofar) => match split_at_first(lines.last(), ':') {
                None => None,
                Some(pair) => Some(sofar.push(pair)),
            },
        }
    }
}

/// Credentials as pairs of texts.
pub open spec fn credential_views(credentials: Seq<Credential>) -> Seq<(Seq<char>, Seq<char>)> {
    Seq::new(credentials.len(), |i: int| (credentials[i].username@, credentials[i].password@))
}

/// The texts of a sequence of strings.
pub open spec fn line_texts(lines: Seq<String>) -> Seq<Seq<char>> {
    Seq::new(lines.len(), |i: int| lines[i]@)
}

/// The address and port as one text.
pub open spec fn domain_of(address: Seq<char>, port: usize) -> Seq<char> {
    address + ":"@ + decimal_text(port as nat)
}

/// The address to show: the loopback address where the server listens on
/// every interface.
pub open spec fn pretty_domain(address: Seq<char>, port: usize) -> Seq<char> {
    if address == "0.0.0.0"@ || address == "::"@ {
        "127.0.0.1:"@ + decimal_text(port as nat)
    } else {
        domain_of(address, port)
    }
}

/// The served directory in full: resolved against the working directory
/// and normalized.
pub open spec fn served_directory(cwd: Seq<char>, serve_dir: Seq<char>) -> Seq<char> {
    normal_form(joined_path(cwd, serve_dir))
}

/// One rule with one value.
fn rule(name: &str, value: String) -> (rule: HeaderRule)
    ensures
        rule_view(rule) == (name@, seq![value@]),
{
    let mut values: Vec<String> = Vec::new();
    values.push(value);
    let rule = HeaderRule { name: name.to_owned(), values };
    assert(rule_view(rule).1 =~= seq![value@]);
    rule
}

/// The rules that every configuration starts with.
fn standing_rules(sab: bool, cors: bool, cache_time: usize) -> (rules: Vec<HeaderRule>)
    ensures
        table_view(rules@) == standing_table(sab, cors, cache_time),
{
    let mut rules: Vec<HeaderRule> = Vec::new();
    if sab {
        rules.push(rule("Cross-Origin-Opener-Policy", "same-origin".to_owned()));
        rules.push(rule("Cross-Origin-Embedder-Policy", "require-corp".to_owned()));
    } else {
        rules.push(rule("Cross-Origin-Opener-Policy", "unsafe-none".to_owned()));
        rules.push(rule("Cross-Origin-Embedder-Policy", "unsafe-none".to_owned()));
    }
    if cors {
        rules.push(rule("Access-Control-Allow-Origin", "*".to_owned()));
    } else {
        rules.push(rule("Access-Control-Allow-Origin", "null".to_owned()));
    }
    if cache_time == 0 {
        rules.push(rule("Cache-Control", "no-cache, no-store, must-revalidate".to_owned()));
    } else {
        let digits = decimal(cache_time as u64);
        rules.push(rule("Cache-Control", catenate("max-age=", digits.as_str())));
    }
    assert(table_view(rules@) =~= standing_table(sab, cors, cache_time));
    rules
}

/// Adds one value for `name` to the rules.
pub fn add_header(rules: &mut Vec<HeaderRule>, name: String, value: String)
    ensures
        table_view(final(rules)@) == with_value(table_view(old(rules)@), name@, value@),
{
    let ghost table = table_view(rules@);
    let mut i: usize = 0;
    while i < rules.len()
        invariant
            i <= rules@.len(),
            rules@ == old(rules)@,
            table == table_view(rules@),
            rule_place(table, name@, 0) == rule_place(table, name@, i as int),
        decreases rules@.len() - i,
    {
        assert(table[i as int] == rule_view(rules@[i as int]));
        if same_text(rules[i].name.as_str(), name.as_str()) {
            let mut found = rules.remove(i);
            let ghost values = rule_view(found).1;
            found.values.push(value);
            assert(rule_view(found).1 =~= values.push(value@));
            rules.insert(i, found);
            assert(table_view(rules@) =~= table.update(i as int, (name@, table[i as int].1.push(value@))));
            return ;
        }
        i = i + 1;
    }
    let mut values: Vec<String> = Vec::new();
    values.push(value);
    let added = HeaderRule { name, values };
    assert(rule_view(added).1 =~= seq![value@]);
    rules.push(added);
    assert(table_view(rules@) =~= table.push((name@, seq![value@])));
}

/// Adds the headers of the command line to the rules, one by one. A header
/// without a colon ends it.
pub fn add_header_lines(rules: &mut Vec<HeaderRule>, lines: &Vec<String>) -> (done: bool)
    ensures
        done ==> with_lines(table_view(old(rules)@), line_texts(lines@)) == Some(
            table_view(final(rules)@),
        ),
        !done ==> with_lines(table_view(old(rules)@), line_texts(lines@)) is None,
{
    let ghost start = table_view(rules@);
    let ghost texts = line_texts(lines@);
    let mut i: usize = 0;
    assert(texts.take(0) =~= Seq::empty());
    while i < lines.len()
        invariant
            i <= lines@.len(),
            texts == line_texts(lines@),
            start == table_view(old(rules)@),
            with_lines(start, texts.take(i as int)) == Some(table_view(rules@)),
        decreases lines@.len() - i,
    {
        proof {
            assert(texts.take(i + 1).drop_last() =~= texts.take(i as int));
            assert(texts.take(i + 1).last() == lines@[i as int]@);
        }
        match split_once(lines[i].as_str(), ':') {
            None => {
                proof {
                    assert(with_lines(start, texts.take(i + 1)) is None);
                    lemma_with_lines_stays_none(start, texts, i + 1);
                }
                return false;
            },
            Some((key, value)) => {
                add_header(rules, key, value);
            },
        }
        i = i + 1;
    }
    assert(texts.take(lines@.len() as int) =~= texts);
    true
}

/// Once a header without a colon was met, no table comes of the lines.
pub proof fn lemma_with_lines_stays_none(
    table: Seq<(Seq<char>, Seq<Seq<char>>)>,
    lines: Seq<Seq<char>>,
    upto: int,
)
    requires
        0 <= upto <= lines.len(),
        with_lines(table, lines.take(upto)) is None,
    ensures
        with_lines(table, lines) is None,
    decreases lines.len() - upto,
{
    if upto < lines.len() {
        assert(lines.take(upto + 1).drop_last() =~= lines.take(upto));
        lemma_with_lines_stays_none(table, lines, upto + 1);
    } else {
        assert(lines.take(upto) =~= lines);
    }
}

/// Once a credential without a colon was met, no list comes of the lines.
pub proof fn lemma_credentials_stay_none(lines: Seq<Seq<char>>, upto: int)
    requires
        0 <= upto <= lines.len(),
        credentials_of(lines.take(upto)) is None,
    ensures
        credentials_of(lines) is None,
    decreases lines.len() - upto,
{
    if upto < lines.len() {
        assert(lines.take(upto + 1).drop_last() =~= lines.take(upto));
        lemma_credentials_stay_none(lines, upto + 1);
    } else {
        assert(lines.take(upto) =~= lines);
    }
}

/// Reads the credentials of the command line.
pub fn parse_credentials(lines: &Vec<String>) -> (credentials: Option<Vec<Credential>>)
    ensures
        match credentials {
            Some(list) => credentials_of(line_texts(lines@)) == Some(credential_views(list@)),
            None => credentials_of(line_texts(lines@)) is None,
        },
{
    let ghost texts = line_texts(lines@);
    let mut list: Vec<Credential> = Vec::new();
    let mut i: usize = 0;
    assert(texts.take(0) =~= Seq::empty());
    assert(credential_views(list@) =~= Seq::empty());
    while i < lines.len()
        invariant
            i <= lines@.len(),
            texts == line_texts(lines@),
            credentials_of(texts.take(i as int)) == Some(credential_views(list@)),
        decreases lines@.len() - i,
    {
        proof {
            assert(texts.take(i + 1).drop_last() =~= texts.take(i as int));
            assert(texts.take(i + 1).last() == lines@[i as int]@);
        }
        match split_once(lines[i].as_str(), ':') {
            None => {
                proof {
                    lemma_credentials_stay_none(texts, i + 1);
                }
                return None;
            },
            Some((username, password)) => {
                let ghost before = credential_views(list@);
                list.push(Credential { username, password });
                assert(credential_views(list@) =~= before.push((username@, password@)));
            },
        }
        i = i + 1;
    }
    assert(texts.take(lines@.len() as int) =~= texts);
    Some(list)
}

/// The header lines that one rule stands for: its name with each value.
pub open spec fn rule_lines(rule: HeaderRule) -> Seq<(Seq<char>, Seq<char>)> {
    Seq::new(rule.values@.len(), |i: int| (rule.name@, rule.values@[i]@))
}

/// The header lines that the rules stand for, rule by rule.
pub open spec fn configured_lines(rules: Seq<HeaderRule>) -> Seq<(Seq<char>, Seq<char>)>
    decreases rules.len(),
{
    if rules.len() == 0 {
        Seq::empty()
    } else {
        configured_lines(rules.drop_last()) + rule_lines(rules.last())
    }
}

/// Whether no name stands twice in the table.
pub open spec fn names_distinct(table: Seq<(Seq<char>, Seq<Seq<char>>)>) -> bool {
    forall|i: int, j: int| 0 <= i < j < table.len() ==> (#[trigger] table[i]).0 != (#[trigger] table[j]).0
}

/// The place that `rule_place` finds holds the name, and is the first to
/// do so; where it finds none, the name stands nowhere from `from` on.
pub proof fn lemma_rule_place(table: Seq<(Seq<char>, Seq<Seq<char>>)>, name: Seq<char>, from: int)
    requires
        0 <= from,
    ensures
        match rule_place(table, name, from) {
            Some(i) => from <= i < table.len() && table[i].0 == name,
            None => forall|i: int| from <= i < table.len() ==> (#[trigger] table[i]).0 != name,
        },
    decreases table.len() - from,
{
    if from < table.len() && table[from].0 != name {
        lemma_rule_place(table, name, from + 1);
    }
}

/// Adding a value leaves every name in the table once.
pub proof fn lemma_with_value_keeps_names(
    table: Seq<(Seq<char>, Seq<Seq<char>>)>,
    name: Seq<char>,
    value: Seq<char>,
)
    requires
        names_distinct(table),
    ensures
        names_distinct(with_value(table, name, value)),
{
    lemma_rule_place(table, name, 0);
    let after = with_value(table, name, value);
    assert forall|i: int, j: int| 0 <= i < j < after.len() implies (#[trigger] after[i]).0 != (
    #[trigger] after[j]).0 by {
        match rule_place(table, name, 0) {
            Some(k) => {
                assert(after[i].0 == table[i].0);
                assert(after[j].0 == table[j].0);
            },
            None => {
                if j < table.len() {
                    assert(after[i] == table[i] && after[j] == table[j]);
                } else {
                    assert(after[i] == table[i]);
                }
            },
        }
    }
}

/// Adding the headers of a command line leaves every name in the table once.
pub proof fn lemma_with_lines_keeps_names(
    table: Seq<(Seq<char>, Seq<Seq<char>>)>,
    lines: Seq<Seq<char>>,
)
    requires
        names_distinct(table),
    ensures
        with_lines(table, lines) matches Some(after) ==> names_distinct(after),
    decreases lines.len(),
{
    if lines.len() > 0 {
        lemma_with_lines_keeps_names(table, lines.drop_last());
        match with_lines(table, lines.drop_last()) {
            Some(sofar) => match split_at_first(lines.last(), ':') {
                Some((key, value)) => {
                    lemma_with_value_keeps_names(sofar, key, value);
                },
                None => {},
            },
            None => {},
        }
    }
}

/// The rules that every configuration starts with have four different names.
pub proof fn lemma_standing_table_names(sab: bool, cors: bool, cache_time: usize)
    ensures
        names_distinct(standing_table(sab, cors, cache_time)),
{
    reveal_strlit("Cross-Origin-Opener-Policy");
    reveal_strlit("Cross-Origin-Embedder-Policy");
    reveal_strlit("Access-Control-Allow-Origin");
    reveal_strlit("Cache-Control");
    let table = standing_table(sab, cors, cache_time);
    assert(table[0].0.len() == 26);
    assert(table[1].0.len() == 28);
    assert(table[2].0.len() == 27);
    assert(table[3].0.len() == 13);
}

/// What keeps a command line from making a configuration, if anything.
pub open spec fn failure(command: CliCommand, cwd: Seq<char>) -> Option<ConfigError> {
    if path_difference(served_directory(cwd, command.serve_dir@), cwd) is None {
        Some(ConfigError::UnrelatedDirectory)
    } else if with_lines(
        standing_table(command.sab, command.cors, command.cache_time),
        line_texts(command.headers@),
    ) is None {
        Some(ConfigError::MalformedHeader)
    } else if credentials_of(line_texts(command.basic_auth@)) is None {
        Some(ConfigError::MalformedCredential)
    } else {
        None
    }
}

/// Whether `config` is what the command line asks for in the working
/// directory `cwd`.
pub open spec fn built_from(config: Config, command: CliCommand, cwd: Seq<char>) -> bool {
    &&& config.serve_dir_abs@ == served_directory(cwd, command.serve_dir@)
    &&& path_difference(config.serve_dir_abs@, cwd) matches Some(rel)
    &&& config.serve_dir_fmt@ == "./"@ + rel
    &&& config.address@ == command.address@
    &&& config.port == command.port
    &&& config.spa == command.spa
    &&& config.cors == command.cors
    &&& config.compress == command.compress
    &&& config.sab == command.sab
    &&& config.domain@ == domain_of(command.address@, command.port)
    &&& config.domain_pretty@ == pretty_domain(command.address@, command.port)
    &&& with_lines(
        standing_table(command.sab, command.cors, command.cache_time),
        line_texts(command.headers@),
    ) == Some(table_view(config.headers@))
    &&& config.quiet == command.quiet
    &&& config.watch == command.watch
    &&& config.watch_dir@ == match command.watch_dir {
        Some(dir) => dir@,
        None => config.serve_dir_abs@,
    }
    &&& config.no_watch_inject == command.no_watch_inject
    &&& config.stream_buffer_size == command.stream_buffer_size
    &&& credentials_of(line_texts(command.basic_auth@)) == Some(
        credential_views(config.basic_auth@),
    )
    &&& names_distinct(table_view(config.headers@))
}

impl Config {
    /// Builds the configuration that the command line asks for, with `cwd`
    /// as the working directory against which the served directory is
    /// resolved.
    pub fn from_cli(command: CliCommand, cwd: &str) -> (config: Result<Config, ConfigError>)
        ensures
            match config {
                Ok(c) => failure(command, cwd@) is None && built_from(c, command, cwd@),
                Err(e) => failure(command, cwd@) == Some(e),
            },
    {
        let port = decimal(command.port as u64);
        let mut domain = catenate(command.address.as_str(), ":");
        domain.append(port.as_str());
        let domain_pretty = if same_text(command.address.as_str(), "0.0.0.0") || same_text(
            command.address.as_str(),
            "::",
        ) {
            catenate("127.0.0.1:", port.as_str())
        } else {
            domain.clone()
        };
        let joined = join(cwd, command.serve_dir.as_str());
        let serve_dir_abs = normalize(joined.as_str());
        let serve_dir_fmt = match relative_to(serve_dir_abs.as_str(), cwd) {
            Some(rel) => {
                catenate("./", rel.as_str())
            },
            None => {
                return Err(ConfigError::UnrelatedDirectory);
            },
        };
        let mut headers = standing_rules(command.sab, command.cors, command.cache_time);
        if !add_header_lines(&mut headers, &command.headers) {
            return Err(ConfigError::MalformedHeader);
        }
        proof {
            let standing = standing_table(command.sab, command.cors, command.cache_time);
            lemma_standing_table_names(command.sab, command.cors, command.cache_time);
            lemma_with_lines_keeps_names(standing, line_texts(command.headers@));
        }
        let basic_auth = match parse_credentials(&command.basic_auth) {
            Some(list) => list,
            None => {
                return Err(ConfigError::MalformedCredential);
            },
        };
        let watch_dir = match &command.watch_dir {
            Some(dir) => dir.clone(),
            None => serve_dir_abs.clone(),
        };
        Ok(
            Config {
                serve_dir_abs,
                serve_dir_fmt,
                address: command.address.clone(),
                port: command.port,
                spa: command.spa,
                cors: command.cors,
                compress: command.compress,
                sab: command.sab,
                domain,
                domain_pretty,
                headers,
                quiet: command.quiet,
                watch: command.watch,
                watch_dir,
                no_watch_inject: command.no_watch_inject,
                stream_buffer_size: command.stream_buffer_size,
                basic_auth,
            },
        )
    }

    /// Appends the configured headers to `headers`, verbatim and in the
    /// order of the rules.
    pub fn merge_headers(&self, headers: &mut Vec<Header>)
        ensures
            header_lines(final(headers)@) == header_lines(old(headers)@) + configured_lines(
                self.headers@,
            ),
    {
        let ghost start = header_lines(headers@);
        let mut r: usize = 0;
        assert(self.headers@.take(0) =~= Seq::empty());
        assert(start + configured_lines(Seq::empty()) =~= start);
        while r < self.headers.len()
            invariant
                r <= self.headers@.len(),
                header_lines(headers@) == start + configured_lines(self.headers@.take(r as int)),
            decreases self.headers@.len() - r,
        {
            let rule = &self.headers[r];
            let ghost before = header_lines(headers@);
            let mut v: usize = 0;
            while v < rule.values.len()
                invariant
                    v <= rule.values@.len(),
                    header_lines(headers@) == before + rule_lines(*rule).take(v as int),
                decreases rule.values@.len() - v,
            {
                let ghost lines = header_lines(headers@);
                headers.push(Header::new(rule.name.as_str(), rule.values[v].as_str()));
                assert(header_lines(headers@) =~= lines.push((rule.name@, rule.values@[v as int]@)));
                assert(rule_lines(*rule).take(v + 1) =~= rule_lines(*rule).take(v as int).push(
                    (rule.name@, rule.values@[v as int]@),
                ));
                v = v + 1;
            }
            proof {
                assert(rule_lines(*rule).take(rule.values@.len() as int) =~= rule_lines(*rule));
                assert(self.headers@.take(r + 1).drop_last() =~= self.headers@.take(r as int));
                assert(self.headers@.take(r + 1).last() == *rule);
                assert(header_lines(headers@) =~= start + configured_lines(
                    self.headers@.take(r + 1),
                ));
            }
            r = r + 1;
        }
        assert(self.headers@.take(self.headers@.len() as int) =~= self.headers@);
    }
}

} // verus!
