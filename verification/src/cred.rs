//! Management of the `gitcredentials(7)` helper interface: one
//! `CredentialHelper` per discovery request, holding the queried URL, the
//! protocol and host decomposed from it, a possibly pre-seeded username, and
//! the ordered list of normalized helper command lines to run.
use vstd::prelude::*;
use vstd::string::*;

use crate::config::Config;
use crate::merge::{first_some, Discovery, spec_execute, reply_usernames, reply_passwords};
use crate::merge::{lemma_first_some_push, lemma_first_some_prefix, lemma_first_some3};
use crate::reply::{parse_reply, parse_reply_bytes};
use crate::urlparse::{split_url, url_parts};

verus! {

/// A structure to represent the helper configuration of one discovery
/// request.
pub struct CredentialHelper {
    /// The currently discovered username from configuration, if any.
    pub username: Option<String>,
    protocol: Option<String>,
    host: Option<String>,
    url: String,
    commands: Vec<String>,
}

/// The mathematical content of a `CredentialHelper`.
pub struct HelperView {
    /// The pre-seeded or configuration-supplied username.
    pub username: Option<Seq<char>>,
    /// The scheme decomposed from the URL.
    pub protocol: Option<Seq<char>>,
    /// The domain decomposed from the URL.
    pub host: Option<Seq<char>>,
    /// The URL the request is about, kept verbatim.
    pub url: Seq<char>,
    /// The normalized helper command lines, in precedence order.
    pub commands: Seq<Seq<char>>,
}

impl View for CredentialHelper {
    type V = HelperView;

    closed spec fn view(&self) -> HelperView {
        HelperView {
            username: self.username.deep_view(),
            protocol: self.protocol.deep_view(),
            host: self.host.deep_view(),
            url: self.url@,
            commands: self.commands.deep_view(),
        }
    }
}

/// The configuration key scoped to the exact URL: `credential.<url>.<name>`.
pub open spec fn exact_key_spec(url: Seq<char>, name: Seq<char>) -> Seq<char> {
    "credential."@ + url + "."@ + name
}

/// The configuration key scoped to the URL pattern:
/// `credential.<protocol>://<host>.<name>`, available only when both the
/// protocol and the host are known.
pub open spec fn url_key_spec(
    protocol: Option<Seq<char>>,
    host: Option<Seq<char>>,
    name: Seq<char>,
) -> Option<Seq<char>> {
    match (protocol, host) {
        (Some(p), Some(h)) => Some("credential."@ + p + "://"@ + h + "."@ + name),
        _ => None,
    }
}

/// An ASCII letter, as a drive designator has one.
pub open spec fn is_ascii_letter(c: char) -> bool {
    (97 <= c as u32 && c as u32 <= 122) || (65 <= c as u32 && c as u32 <= 90)
}

/// A configured helper string that denotes a path to an executable: it
/// starts with a path separator, or looks like a drive-letter absolute path.
pub open spec fn is_path_like(c: Seq<char>) -> bool {
    (c.len() >= 1 && (c[0] == '/' || c[0] == '\\')) || (c.len() >= 3 && is_ascii_letter(c[0])
        && c[1] == ':' && c[2] == '\\')
}

/// How a raw configured helper string becomes an invocable command line.
/// First match wins: a leading `!` marks a literal shell expression, taken
/// as is without the `!`; a path to an executable is wrapped in quotes; any
/// other string is a short helper name `X`, invoked as `git credential-X`.
/// A bare name is never treated as a path, and a path is never treated as a
/// name.
pub open spec fn normalize_cmd(c: Seq<char>) -> Seq<char> {
    if c.len() >= 1 && c[0] == '!' {
        c.drop_first()
    } else if is_path_like(c) {
        "\""@ + c + "\""@
    } else {
        "git credential-"@ + c
    }
}

/// One line of the helper input protocol: `<prefix><value>` and a line
/// feed when the value is known, nothing when it is not.
pub open spec fn field_line(prefix: Seq<char>, value: Option<Seq<char>>) -> Seq<char> {
    match value {
        Some(v) => prefix + v + "\n"@,
        None => Seq::empty(),
    }
}

/// The whole text a helper is handed on its input stream.
pub open spec fn stdin_input_spec(
    protocol: Option<Seq<char>>,
    host: Option<Seq<char>>,
    username: Option<Seq<char>>,
) -> Seq<char> {
    field_line("protocol="@, protocol) + field_line("host="@, host) + field_line(
        "username="@,
        username,
    )
}

/// The commands contributed by one configuration value: one normalized
/// command when the value is present, none when it is absent.
pub open spec fn normalized(value: Option<Seq<char>>) -> Seq<Seq<char>> {
    match value {
        Some(c) => seq![normalize_cmd(c)],
        None => Seq::empty(),
    }
}

/// The value the store gives for the URL-pattern key, when that key exists.
pub open spec fn url_candidate(cfg: &Config, h: HelperView, name: Seq<char>) -> Option<Seq<char>> {
    match url_key_spec(h.protocol, h.host, name) {
        Some(k) => cfg.spec_get(k),
        None => None,
    }
}

/// The username that configuration resolves for a helper object: an already
/// known username stands; otherwise the exact-URL key, the URL-pattern key
/// and the global key are consulted in that order and the first hit wins.
pub open spec fn resolved_username(cfg: &Config, h: HelperView) -> Option<Seq<char>> {
    if h.username is Some {
        h.username
    } else {
        first_some(
            seq![
                cfg.spec_get(exact_key_spec(h.url, "username"@)),
                url_candidate(cfg, h, "username"@),
                cfg.spec_get("credential.username"@),
            ],
        )
    }
}

/// The helper commands that configuration contributes, in precedence order:
/// every hit among the exact-URL key, the URL-pattern key and the global key
/// is normalized and collected — unlike username resolution, all matches
/// count, not just the first.
pub open spec fn helper_commands(cfg: &Config, h: HelperView) -> Seq<Seq<char>> {
    normalized(cfg.spec_get(exact_key_spec(h.url, "helper"@))) + normalized(
        url_candidate(cfg, h, "helper"@),
    ) + normalized(cfg.spec_get("credential.helper"@))
}

impl CredentialHelper {
    /// Create a new credential helper object which will be used to probe the
    /// local credential configuration for the given URL. A URL that cannot
    /// be parsed is not an error: the protocol and host merely stay unknown.
    pub fn new(url: &str) -> (ret: CredentialHelper)
        ensures
            ret@.url == url@,
            ret@.username is None,
            ret@.commands == Seq::<Seq<char>>::empty(),
            ret@.protocol == url_parts(url@).0,
            ret@.host == url_parts(url@).1,
    {
        let parts = split_url(url);
        let ret = CredentialHelper {
            protocol: parts.0,
            host: parts.1,
            username: None,
            url: url.to_owned(),
            commands: Vec::new(),
        };
        proof {
            assert(ret@.commands =~= Seq::<Seq<char>>::empty());
        }
        ret
    }

    /// Set the username that this credential helper will query with,
    /// replacing whatever was known before — also with nothing, which
    /// clears it.
    pub fn username(&mut self, username: Option<&str>)
        ensures
            final(self)@ == (HelperView { username: username.deep_view(), ..old(self)@ }),
    {
        match username {
            Some(s) => {
                self.username = Some(s.to_owned());
            },
            None => {
                self.username = None;
            },
        }
    }

    /// The configuration key scoped to this helper's exact URL.
    pub fn exact_key(&self, name: &str) -> (ret: String)
        ensures
            ret@ == exact_key_spec(self@.url, name@),
    {
        let mut s = String::from_str("credential.");
        s.append(self.url.as_str());
        s.append(".");
        s.append(name);
        proof {
            assert(s@ =~= exact_key_spec(self@.url, name@));
        }
        s
    }

    /// The configuration key scoped to this helper's protocol and host, when
    /// both are known.
    pub fn url_key(&self, name: &str) -> (ret: Option<String>)
        ensures
            ret.deep_view() == url_key_spec(self@.protocol, self@.host, name@),
    {
        match (&self.host, &self.protocol) {
            (Some(host), Some(protocol)) => {
                let mut s = String::from_str("credential.");
                s.append(protocol.as_str());
                s.append("://");
                s.append(host.as_str());
                s.append(".");
                s.append(name);
                proof {
                    assert(s@ =~= "credential."@ + protocol@ + "://"@ + host@ + "."@ + name@);
                }
                Some(s)
            },
            _ => None,
        }
    }

    /// Query the configuration store to discover the username to query with
    /// and the helper commands to execute: the username only when none is
    /// known yet, the helpers always.
    pub fn config(&mut self, config: &Config)
        ensures
            final(self)@ == (HelperView {
                username: resolved_username(config, old(self)@),
                commands: old(self)@.commands + helper_commands(config, old(self)@),
                ..old(self)@
            }),
    {
        if self.username.is_none() {
            self.config_username(config);
        }
        self.config_helper(config);
    }

    /// Resolve the username from configuration: exact-URL key first, then
    /// the URL-pattern key, then the global key; the first hit wins and a
    /// miss falls through silently.
    fn config_username(&mut self, config: &Config)
        requires
            old(self)@.username is None,
        ensures
            final(self)@ == (HelperView {
                username: resolved_username(config, old(self)@),
                ..old(self)@
            }),
    {
        let exact = self.exact_key("username");
        let mut value = config.get_str(exact.as_str());
        if value.is_none() {
            match self.url_key("username") {
                Some(key) => {
                    value = config.get_str(key.as_str());
                },
                None => {},
            }
        }
        if value.is_none() {
            value = config.get_str("credential.username");
        }
        proof {
            lemma_first_some3(
                config.spec_get(exact_key_spec(old(self)@.url, "username"@)),
                url_candidate(config, old(self)@, "username"@),
                config.spec_get("credential.username"@),
            );
        }
        self.username = value;
    }

    /// Collect every configured helper directive, in precedence order:
    /// exact-URL key, URL-pattern key, global key.
    fn config_helper(&mut self, config: &Config)
        ensures
            final(self)@ == (HelperView {
                commands: old(self)@.commands + helper_commands(config, old(self)@),
                ..old(self)@
            }),
    {
        let exact_key = self.exact_key("helper");
        let exact = config.get_str(exact_key.as_str());
        match &exact {
            Some(s) => self.add_command(Some(s.as_str())),
            None => self.add_command(None),
        }
        match self.url_key("helper") {
            Some(key) => {
                let url_value = config.get_str(key.as_str());
                match &url_value {
                    Some(s) => self.add_command(Some(s.as_str())),
                    None => self.add_command(None),
                }
            },
            None => {},
        }
        let global = config.get_str("credential.helper");
        match &global {
            Some(s) => self.add_command(Some(s.as_str())),
            None => self.add_command(None),
        }
        proof {
            assert(self@.commands =~= old(self)@.commands + helper_commands(config, old(self)@));
        }
    }

    /// Begin the discovery fold, seeded with the currently known username.
    pub fn begin(&self) -> (ret: Discovery)
        ensures
            ret.username.deep_view() == self@.username,
            ret.password.deep_view() is None,
    {
        let seed = match &self.username {
            Some(s) => Some(s.clone()),
            None => None,
        };
        Discovery { username: seed, password: None }
    }

    /// The normalized helper command lines, in the order they are to be
    /// executed.
    pub fn commands(&self) -> (ret: &Vec<String>)
        ensures
            ret.deep_view() == self@.commands,
    {
        &self.commands
    }

    /// The discovery result this helper object reaches when each of its
    /// commands, in order, answers with the given parsed reply: per field
    /// the first writer wins, and once both fields are known the remaining
    /// replies are not consulted. Only succeeds when both a username and a
    /// password were found.
    pub fn execute(&self, replies: &Vec<(Option<String>, Option<String>)>) -> (ret: Option<
        (String, String),
    >)
        requires
            replies@.len() == self@.commands.len(),
        ensures
            ret.deep_view() == spec_execute(self@.username, replies.deep_view()),
    {
        let ghost seed = self@.username;
        let ghost rv = replies.deep_view();
        let mut state = self.begin();
        let n = replies.len();
        let mut done = false;
        let mut i: usize = 0;
        proof {
            assert(rv.take(0) =~= Seq::<(Option<Seq<char>>, Option<Seq<char>>)>::empty());
            assert(reply_usernames(rv.take(0)) =~= Seq::<Option<Seq<char>>>::empty());
            assert(reply_passwords(rv.take(0)) =~= Seq::<Option<Seq<char>>>::empty());
            assert(seq![seed] + reply_usernames(rv.take(0)) =~= seq![seed]);
            assert(seq![seed].drop_first() =~= Seq::<Option<Seq<char>>>::empty());
            assert(first_some(seq![seed]) == seed);
        }
        while i < n && !done
            invariant
                i <= n,
                n == replies@.len(),
                rv == replies.deep_view(),
                state.username.deep_view() == first_some(
                    seq![seed] + reply_usernames(rv.take(i as int)),
                ),
                state.password.deep_view() == first_some(reply_passwords(rv.take(i as int))),
                done == (state.username.deep_view() is Some
                    && state.password.deep_view() is Some),
            decreases n - i,
        {
            let u = match &replies[i].0 {
                Some(s) => Some(s.clone()),
                None => None,
            };
            let p = match &replies[i].1 {
                Some(s) => Some(s.clone()),
                None => None,
            };
            proof {
                assert(rv[i as int] == replies@[i as int].deep_view());
                assert(u.deep_view() == rv[i as int].0);
                assert(p.deep_view() == rv[i as int].1);
                assert(rv.take(i + 1) =~= rv.take(i as int).push(rv[i as int]));
                assert(reply_usernames(rv.take(i + 1)) =~= reply_usernames(
                    rv.take(i as int),
                ).push(rv[i as int].0));
                assert(reply_passwords(rv.take(i + 1)) =~= reply_passwords(
                    rv.take(i as int),
                ).push(rv[i as int].1));
                assert(seq![seed] + reply_usernames(rv.take(i + 1)) =~= (seq![seed]
                    + reply_usernames(rv.take(i as int))).push(rv[i as int].0));
                lemma_first_some_push(
                    seq![seed] + reply_usernames(rv.take(i as int)),
                    rv[i as int].0,
                );
                lemma_first_some_push(reply_passwords(rv.take(i as int)), rv[i as int].1);
            }
            state.absorb(u, p);
            done = state.complete();
            i = i + 1;
        }
        proof {
            if i == n {
                assert(rv.take(n as int) =~= rv);
            } else {
                assert(first_some(seq![seed] + reply_usernames(rv.take(i as int))) is Some);
                assert(first_some(reply_passwords(rv.take(i as int))) is Some);
                assert((seq![seed] + reply_usernames(rv)).take(i + 1) =~= seq![seed]
                    + reply_usernames(rv.take(i as int)));
                lemma_first_some_prefix(seq![seed] + reply_usernames(rv), i + 1);
                assert(reply_passwords(rv).take(i as int) =~= reply_passwords(rv.take(i as int)));
                lemma_first_some_prefix(reply_passwords(rv), i as int);
            }
        }
        state.finish()
    }

    /// The exact text to hand a helper on its input stream: one
    /// `key=value` line, line-feed terminated, for each known field, in the
    /// fixed order protocol, host, username; an unknown field is omitted.
    pub fn stdin_input(&self, username: &Option<String>) -> (ret: String)
        ensures
            ret@ == stdin_input_spec(self@.protocol, self@.host, username.deep_view()),
    {
        let mut s = String::new();
        match &self.protocol {
            Some(p) => {
                s.append("protocol=");
                s.append(p.as_str());
                s.append("\n");
            },
            None => {},
        }
        match &self.host {
            Some(h) => {
                s.append("host=");
                s.append(h.as_str());
                s.append("\n");
            },
            None => {},
        }
        match username {
            Some(u) => {
                s.append("username=");
                s.append(u.as_str());
                s.append("\n");
            },
            None => {},
        }
        proof {
            assert(s@ =~= stdin_input_spec(self@.protocol, self@.host, username.deep_view()));
        }
        s
    }

    /// Parse the output of a helper command into the username and password
    /// it offered.
    pub fn parse_output(&self, output: Vec<u8>) -> (ret: (Option<String>, Option<String>))
        ensures
            ret.deep_view() == parse_reply(output@),
    {
        parse_reply_bytes(output)
    }

    /// Add one configured helper value to the list of commands to execute,
    /// normalized as `normalize_cmd` says; an absent value adds nothing.
    pub fn add_command(&mut self, cmd: Option<&str>)
        ensures
            final(self)@ == (HelperView {
                commands: old(self)@.commands + normalized(cmd.deep_view()),
                ..old(self)@
            }),
    {
        let cmd = match cmd {
            Some(s) => s,
            None => {
                proof {
                    assert(old(self)@.commands + normalized(None) =~= old(self)@.commands);
                }
                return ;
            },
        };
        let norm = normalize(cmd);
        self.commands.push(norm);
        proof {
            assert(self.commands.deep_view() =~= old(self)@.commands + normalized(
                Some(cmd).deep_view(),
            ));
        }
    }
}

/// Turn one raw configured helper string into an invocable command line.
fn normalize(cmd: &str) -> (ret: String)
    ensures
        ret@ == normalize_cmd(cmd@),
{
    if !cmd.is_empty() && cmd.get_char(0) == '!' {
        let rest = cmd.substring_char(1, cmd.unicode_len());
        rest.to_owned()
    } else {
        let n = cmd.unicode_len();
        let mut path_like = false;
        if n >= 1 {
            let c0 = cmd.get_char(0);
            let c0u = c0 as u32;
            let letter = (97 <= c0u && c0u <= 122) || (65 <= c0u && c0u <= 90);
            if c0 == '/' || c0 == '\\' {
                path_like = true;
            } else if n >= 3 && letter && cmd.get_char(1) == ':' && cmd.get_char(2) == '\\' {
                path_like = true;
            }
        }
        if path_like {
            let mut s = String::from_str("\"");
            s.append(cmd);
            s.append("\"");
            proof {
                assert(s@ =~= "\""@ + cmd@ + "\""@);
            }
            s
        } else {
            let mut s = String::from_str("git credential-");
            s.append(cmd);
            s
        }
    }
}

/// The full shell line a helper command is run with: the command itself,
/// then the lone protocol operation `get`.
pub fn command_line(cmd: &str) -> (ret: String)
    ensures
        ret@ == cmd@ + " get"@,
{
    let mut s = cmd.to_owned();
    s.append(" get");
    s
}

} // verus!
