//! Managing remotes: listing, reading configuration, creating, updating,
//! deleting and checking them.
use vstd::prelude::*;
use crate::operations::{args_of, lines_of, push_arg, strs, Remote};
use crate::operations::info::pairs;
use crate::operations::files::text_or_empty;
use crate::operations::json::{
    bool_field, field_bool, field_str, get, json_get, members_distinct, setting_of, setting_text,
    str_field, Json,
};
use crate::text::{
    chars_of, contains, contains_chars, lemma_filter_map_step, lemma_take_all, lines, strip_end,
    strip_end_chars, string_of, views,
};

verus! {

/// Arguments of `rclone listremotes`.
pub fn list_args() -> (r: Vec<String>)
    ensures
        strs(r@) == seq!["listremotes"@],
{
    let r = args_of(&["listremotes"]);
    assert(strs(r@) =~= seq!["listremotes"@]);
    r
}

/// Arguments of `rclone config dump`, which prints every remote's
/// configuration as JSON.
pub fn config_dump_args() -> (r: Vec<String>)
    ensures
        strs(r@) == seq!["config"@, "dump"@],
{
    let r = args_of(&["config", "dump"]);
    assert(strs(r@) =~= seq!["config"@, "dump"@]);
    r
}

/// The remote named on a `listremotes` line: the line without its trailing
/// colons; a line that is empty without them names none.
pub open spec fn remote_name_entry(l: Seq<char>) -> Option<Seq<char>> {
    if strip_end(l, ':').len() > 0 {
        Some(strip_end(l, ':'))
    } else {
        None
    }
}

pub open spec fn remote_name_entry_fn() -> spec_fn(Seq<char>) -> Option<Seq<char>> {
    |l: Seq<char>| remote_name_entry(l)
}

/// The names of the remotes from the answer to [`list_args`], in order. A
/// failure is passed on.
pub fn remote_names(outcome: Result<String, String>) -> (r: Result<Vec<String>, String>)
    ensures
        match outcome {
            Ok(out) => r matches Ok(d) && strs(d@) == lines(out@).filter_map(
                remote_name_entry_fn(),
            ),
            Err(e) => r matches Err(e2) && e2@ == e@,
        },
{
    match outcome {
        Ok(out) => {
            let ls = lines_of(out.as_str());
            let ghost all = lines(out@);
            let ghost f = remote_name_entry_fn();
            let mut d: Vec<String> = Vec::new();
            let mut i: usize = 0;
            while i < ls.len()
                invariant
                    i <= ls.len(),
                    views(ls@) == all,
                    f == remote_name_entry_fn(),
                    strs(d@) == all.take(i as int).filter_map(f),
                decreases ls.len() - i,
            {
                proof {
                    lemma_filter_map_step(all, f, i as int);
                    assert(all[i as int] == ls@[i as int]@);
                }
                let n = strip_end_chars(&ls[i], ':');
                if n.len() > 0 {
                    let s = string_of(&n);
                    let ghost before = d@;
                    d.push(s);
                    assert(strs(d@) =~= strs(before).push(s@));
                }
                i += 1;
            }
            proof {
                lemma_take_all(all);
            }
            Ok(d)
        },
        Err(e) => Err(e),
    }
}

/// The remote listed under `name`: its configuration when it could be read,
/// otherwise a remote of type `unknown` with no settings.
pub fn remote_or_unknown(name: &str, looked_up: Result<Remote, String>) -> (r: Remote)
    ensures
        match looked_up {
            Ok(found) => r == found,
            Err(_) => r.name@ == name@ && r.remote_type@ == "unknown"@ && r.config@.len() == 0,
        },
{
    match looked_up {
        Ok(found) => found,
        Err(_) => Remote { name: name.to_owned(), remote_type: "unknown".to_owned(), config: Vec::new() },
    }
}

/// The configured remotes from their names and the outcome of looking up
/// each one's configuration (`looked_up[i]` for `names[i]`): each found
/// configuration, or a remote of type `unknown` where it could not be read
/// (see [`remote_or_unknown`]), in the order of the names.
pub fn remotes_from(names: &Vec<String>, looked_up: Vec<Result<Remote, String>>) -> (r: Vec<Remote>)
    requires
        looked_up.len() == names.len(),
    ensures
        r@.len() == names@.len(),
        forall|i: int|
            0 <= i < names@.len() ==> match looked_up@[i] {
                Ok(found) => #[trigger] r@[i] == found,
                Err(_) => r@[i].name@ == names@[i]@ && r@[i].remote_type@ == "unknown"@
                    && r@[i].config@.len() == 0,
            },
{
    let ghost all = looked_up@;
    let mut rest = looked_up;
    let mut out: Vec<Remote> = Vec::new();
    let mut i: usize = 0;
    while i < names.len()
        invariant
            i <= names.len(),
            all.len() == names.len(),
            rest@ == all.skip(i as int),
            out@.len() == i,
            forall|k: int|
                0 <= k < i ==> match all[k] {
                    Ok(found) => #[trigger] out@[k] == found,
                    Err(_) => out@[k].name@ == names@[k]@ && out@[k].remote_type@ == "unknown"@
                        && out@[k].config@.len() == 0,
                },
        decreases names.len() - i,
    {
        let outcome = rest.remove(0);
        assert(outcome == all[i as int]);
        let remote = remote_or_unknown(names[i].as_str(), outcome);
        out.push(remote);
        i += 1;
        assert(rest@ =~= all.skip(i as int));
    }
    out
}

/// The backend type of the first remote called `name` among `rs`; empty
/// when there is none.
pub open spec fn type_of_remote(rs: Seq<Remote>, name: Seq<char>) -> Seq<char>
    decreases rs.len(),
{
    if rs.len() == 0 {
        Seq::empty()
    } else if rs[0].name@ == name {
        rs[0].remote_type@
    } else {
        type_of_remote(rs.drop_first(), name)
    }
}

/// The backend type of the remote called `name`, as shown in its menu.
pub fn remote_type_of(remotes: &Vec<Remote>, name: &str) -> (r: String)
    ensures
        r@ == type_of_remote(remotes@, name@),
{
    let n = chars_of(name);
    let mut i: usize = 0;
    assert(remotes@.skip(0) =~= remotes@);
    while i < remotes.len()
        invariant
            i <= remotes.len(),
            n@ == name@,
            type_of_remote(remotes@, name@) == type_of_remote(remotes@.skip(i as int), name@),
        decreases remotes.len() - i,
    {
        assert(remotes@.skip(i as int)[0] == remotes@[i as int]);
        if crate::text::chars_eq(&chars_of(remotes[i].name.as_str()), &n) {
            return remotes[i].remote_type.clone();
        }
        assert(remotes@.skip(i as int).drop_first() =~= remotes@.skip(i + 1));
        i += 1;
    }
    String::new()
}

/// A setting of a remote's configuration: every member but `type`, with
/// its value as text (see [`setting_text`]).
pub open spec fn setting_entry(e: (String, Json)) -> Option<(Seq<char>, Seq<char>)> {
    if e.0@ == "type"@ {
        None
    } else {
        Some((e.0@, setting_text(e.1)))
    }
}

pub open spec fn setting_entry_fn() -> spec_fn((String, Json)) -> Option<(Seq<char>, Seq<char>)> {
    |e: (String, Json)| setting_entry(e)
}

/// The settings of the remote configuration `rc`; none when it is not an
/// object.
pub open spec fn settings_of(rc: Json) -> Seq<(Seq<char>, Seq<char>)> {
    match rc {
        Json::Object { entries, .. } => entries@.filter_map(setting_entry_fn()),
        _ => Seq::empty(),
    }
}

/// The message given when no remote `name` is configured.
pub open spec fn not_found_message(name: Seq<char>) -> Seq<char> {
    "Remote '"@ + name + "' не найден"@
}

/// Dropping the `type` member keeps keys apart: every setting's key is
/// the key of some member, and when the members' keys are distinct so are
/// the settings' keys.
proof fn lemma_settings_distinct(es: Seq<(String, Json)>)
    ensures
        forall|k: int|
            0 <= k < es.filter_map(setting_entry_fn()).len() ==> exists|i: int|
                0 <= i < es.len() && (#[trigger] es.filter_map(setting_entry_fn())[k]).0
                    == es[i].0@,
        (forall|i: int, k: int| 0 <= i < k < es.len() ==> #[trigger] es[i].0@ != #[trigger] es[k].0@)
            ==> forall|a: int, b: int|
            0 <= a < b < es.filter_map(setting_entry_fn()).len() ==> (#[trigger] es.filter_map(
                setting_entry_fn(),
            )[a]).0 != (#[trigger] es.filter_map(setting_entry_fn())[b]).0,
    decreases es.len(),
{
    let f = setting_entry_fn();
    if es.len() > 0 {
        let n = es.len() - 1;
        let rest = es.drop_last();
        lemma_settings_distinct(rest);
        let out = es.filter_map(f);
        let ro = rest.filter_map(f);
        assert forall|k: int| 0 <= k < out.len() implies exists|i: int|
            0 <= i < es.len() && (#[trigger] out[k]).0 == es[i].0@ by {
            if k < ro.len() {
                assert(out[k] == ro[k]);
                let i = choose|i: int| 0 <= i < rest.len() && ro[k].0 == rest[i].0@;
                assert(es[i] == rest[i]);
            } else {
                assert(out[k].0 == es[n].0@);
            }
        }
        if forall|i: int, k: int| 0 <= i < k < es.len() ==> #[trigger] es[i].0@ != #[trigger] es[k].0@ {
            assert forall|i: int, k: int| 0 <= i < k < rest.len() implies #[trigger] rest[i].0@
                != #[trigger] rest[k].0@ by {
                assert(es[i] == rest[i] && es[k] == rest[k]);
            }
            assert forall|a: int, b: int| 0 <= a < b < out.len() implies (#[trigger] out[a]).0
                != (#[trigger] out[b]).0 by {
                assert(out[a] == ro[a]);
                if b < ro.len() {
                    assert(out[b] == ro[b]);
                } else {
                    let i = choose|i: int| 0 <= i < rest.len() && ro[a].0 == rest[i].0@;
                    assert(es[i] == rest[i]);
                    assert(out[b].0 == es[n].0@);
                }
            }
        }
    }
}

/// The remote `remote_name` as the configuration dump (the answer to
/// [`config_dump_args`]) describes it: its `type` member when that is a
/// string, `unknown` otherwise, and its other members as settings; an error
/// when the dump has no such remote.
pub fn get_config(dump: &Json, remote_name: &str) -> (r: Result<Remote, String>)
    ensures
        match json_get(*dump, remote_name@) {
            None => r matches Err(e) && e@ == not_found_message(remote_name@),
            Some(rc) => r matches Ok(remote) && {
                &&& remote.name@ == remote_name@
                &&& remote.remote_type@ == (match field_str(rc, "type"@) {
                    Some(t) => t,
                    None => "unknown"@,
                })
                &&& pairs(remote.config@) == settings_of(rc)
                &&& members_distinct(rc) ==> remote.wf()
            },
        },
{
    match get(dump, remote_name) {
        None => {
            let a = crate::text::concat(&chars_of("Remote '"), &chars_of(remote_name));
            let m = crate::text::concat(&a, &chars_of("' не найден"));
            Err(string_of(&m))
        },
        Some(rc) => {
            let remote_type = match str_field(rc, "type") {
                Some(t) => t,
                None => "unknown".to_owned(),
            };
            let mut config: Vec<(String, String)> = Vec::new();
            match rc {
                Json::Object { entries, .. } => {
                    let ghost f = setting_entry_fn();
                    let type_key = chars_of("type");
                    let mut i: usize = 0;
                    while i < entries.len()
                        invariant
                            i <= entries.len(),
                            f == setting_entry_fn(),
                            type_key@ == "type"@,
                            pairs(config@) == entries@.take(i as int).filter_map(f),
                        decreases entries.len() - i,
                    {
                        proof {
                            lemma_filter_map_step(entries@, f, i as int);
                        }
                        let key = &entries[i].0;
                        if !crate::text::chars_eq(&chars_of(key.as_str()), &type_key) {
                            let value = setting_of(&entries[i].1);
                            let k = key.clone();
                            let ghost before = config@;
                            config.push((k, value));
                            assert(pairs(config@) =~= pairs(before).push((k@, value@)));
                        }
                        i += 1;
                    }
                    proof {
                        lemma_take_all(entries@);
                        lemma_settings_distinct(entries@);
                        let out = entries@.filter_map(f);
                        assert forall|i: int, j: int|
                            0 <= i < j < config@.len() && members_distinct(*rc) implies
                            #[trigger] config@[i].0@ != #[trigger] config@[j].0@ by {
                            assert(pairs(config@)[i] == out[i]);
                            assert(pairs(config@)[j] == out[j]);
                        }
                    }
                },
                _ => {},
            }
            Ok(Remote { name: remote_name.to_owned(), remote_type, config })
        },
    }
}

/// Keys and values one after the other.
pub open spec fn flatten_pairs(p: Seq<(Seq<char>, Seq<char>)>) -> Seq<Seq<char>>
    decreases p.len(),
{
    if p.len() == 0 {
        Seq::empty()
    } else {
        flatten_pairs(p.drop_last()) + seq![p.last().0, p.last().1]
    }
}

/// Appends every key and its value.
fn push_pairs(args: &mut Vec<String>, config: &Vec<(String, String)>)
    ensures
        strs(final(args)@) == strs(old(args)@) + flatten_pairs(pairs(config@)),
{
    let mut i: usize = 0;
    assert(strs(args@) =~= strs(old(args)@) + flatten_pairs(pairs(config@).take(0)));
    while i < config.len()
        invariant
            i <= config.len(),
            strs(args@) == strs(old(args)@) + flatten_pairs(pairs(config@).take(i as int)),
        decreases config.len() - i,
    {
        let ghost p = pairs(config@);
        assert(p.take(i + 1).drop_last() =~= p.take(i as int));
        push_arg(args, config[i].0.as_str());
        push_arg(args, config[i].1.as_str());
        i += 1;
        assert(strs(args@) =~= strs(old(args)@) + flatten_pairs(p.take(i as int)));
    }
    assert(pairs(config@).take(config.len() as int) =~= pairs(config@));
}

/// Arguments of `rclone config create` for a remote `name` of backend
/// `remote_type`, followed by every setting as key and value, in order.
pub fn create_args(name: &str, remote_type: &str, config: &Vec<(String, String)>) -> (r: Vec<
    String,
>)
    ensures
        strs(r@) == seq!["config"@, "create"@, name@, remote_type@] + flatten_pairs(
            pairs(config@),
        ),
{
    let mut r = args_of(&["config", "create", name, remote_type]);
    assert(strs(r@) =~= seq!["config"@, "create"@, name@, remote_type@]);
    push_pairs(&mut r, config);
    r
}

/// Arguments of `rclone config update` for `name` with every setting as key
/// and value, in order.
pub fn update_args(name: &str, config: &Vec<(String, String)>) -> (r: Vec<String>)
    ensures
        strs(r@) == seq!["config"@, "update"@, name@] + flatten_pairs(pairs(config@)),
{
    let mut r = args_of(&["config", "update", name]);
    assert(strs(r@) =~= seq!["config"@, "update"@, name@]);
    push_pairs(&mut r, config);
    r
}

/// Arguments of `rclone config delete` for `name`.
pub fn delete_args(name: &str) -> (r: Vec<String>)
    ensures
        strs(r@) == seq!["config"@, "delete"@, name@],
{
    let r = args_of(&["config", "delete", name]);
    assert(strs(r@) =~= seq!["config"@, "delete"@, name@]);
    r
}

/// Arguments of `rclone lsd` that list the top level of `remote_name`.
pub fn check_args(remote_name: &str) -> (r: Vec<String>)
    ensures
        strs(r@) == seq!["lsd"@, remote_name@, "--max-depth"@, "1"@],
{
    let r = args_of(&["lsd", remote_name, "--max-depth", "1"]);
    assert(strs(r@) =~= seq!["lsd"@, remote_name@, "--max-depth"@, "1"@]);
    r
}

/// Whether a remote is reachable, from the answer to [`check_args`]: a
/// listing that succeeded, or one that failed only because the directory
/// was not found (the remote exists but is empty), means reachable; any
/// other failure is passed on.
pub fn check(outcome: Result<String, String>) -> (r: Result<bool, String>)
    ensures
        match outcome {
            Ok(_) => r == Ok::<bool, String>(true),
            Err(e) => if contains(e@, "directory not found"@) {
                r == Ok::<bool, String>(true)
            } else {
                r matches Err(e2) && e2@ == e@
            },
        },
{
    match outcome {
        Ok(_) => Ok(true),
        Err(e) => {
            let hay = chars_of(e.as_str());
            let needle = chars_of("directory not found");
            if contains_chars(&hay, &needle) {
                Ok(true)
            } else {
                Err(e)
            }
        },
    }
}

// ---------------------------------------------------------------------------
// Setting up a remote step by step

/// A question that rclone asks while it sets up a remote.
#[derive(Debug)]
pub struct ConfigQuestion {
    /// The option asked for, such as `config_is_local`.
    pub name: String,
    pub help: String,
    /// The default answer, as text.
    pub default: String,
    pub is_password: bool,
    /// Suggested answers, each with its explanation.
    pub examples: Vec<(String, String)>,
}

/// Where the set-up of a remote stands after one step.
#[derive(Debug)]
pub enum ConfigStep {
    /// The remote is created.
    Done,
    /// rclone needs an answer to `question`; the next step passes `state`
    /// back with the answer.
    Question { state: String, question: ConfigQuestion },
}

/// The arguments that continue a set-up: the state rclone handed out and
/// the answer, when both are given.
pub open spec fn continue_args(state: Option<Seq<char>>, answer: Option<Seq<char>>) -> Seq<
    Seq<char>,
> {
    match (state, answer) {
        (Some(s), Some(a)) => seq!["--continue"@, "--state"@, s, "--result"@, a],
        _ => Seq::empty(),
    }
}

/// The texts of optional borrowed strings.
pub open spec fn opt_str(o: Option<&str>) -> Option<Seq<char>> {
    match o {
        Some(s) => Some(s@),
        None => None,
    }
}

/// Arguments of one step of `rclone config create` for a remote `name` of
/// backend `remote_type`, without prompts: the first step, or, with the
/// state and answer of a question, the step that continues from it.
pub fn config_create_args(
    name: &str,
    remote_type: &str,
    state: Option<&str>,
    answer: Option<&str>,
) -> (r: Vec<String>)
    ensures
        strs(r@) == seq!["config"@, "create"@, name@, remote_type@, "--non-interactive"@]
            + continue_args(opt_str(state), opt_str(answer)),
{
    let mut r = args_of(&["config", "create", name, remote_type, "--non-interactive"]);
    let ghost first = strs(r@);
    match (state, answer) {
        (Some(s), Some(a)) => {
            push_arg(&mut r, "--continue");
            push_arg(&mut r, "--state");
            push_arg(&mut r, s);
            push_arg(&mut r, "--result");
            push_arg(&mut r, a);
        },
        _ => {},
    }
    assert(strs(r@) =~= first + continue_args(opt_str(state), opt_str(answer)));
    r
}

/// A suggested answer as a step's reply lists it: its `Value` and `Help`.
pub open spec fn example_of(item: Json) -> (Seq<char>, Seq<char>) {
    (text_or_empty(field_str(item, "Value"@)), text_or_empty(field_str(item, "Help"@)))
}

/// The suggested answers of a question: one per item of its `Examples`
/// array, none when it has no such array.
pub open spec fn examples_of(o: Json) -> Seq<(Seq<char>, Seq<char>)> {
    match json_get(o, "Examples"@) {
        Some(Json::Array { items, .. }) => items@.map_values(|it: Json| example_of(it)),
        _ => Seq::empty(),
    }
}

/// `q` is the question that the reply's `Option` member `o` describes: its
/// `Name`, `Help`, `DefaultStr` (empty where missing), `IsPassword` (false
/// where missing) and `Examples`.
pub open spec fn question_from(q: ConfigQuestion, o: Json) -> bool {
    &&& q.name@ == text_or_empty(field_str(o, "Name"@))
    &&& q.help@ == text_or_empty(field_str(o, "Help"@))
    &&& q.default@ == text_or_empty(field_str(o, "DefaultStr"@))
    &&& q.is_password == (match field_bool(o, "IsPassword"@) {
        Some(b) => b,
        None => false,
    })
    &&& pairs(q.examples@) == examples_of(o)
}

/// The error a step's reply reports, empty when there is none.
pub open spec fn reply_error(reply: Json) -> Seq<char> {
    text_or_empty(field_str(reply, "Error"@))
}

/// The question a step's reply asks: its `Option` member, when present and
/// not null.
pub open spec fn reply_question(reply: Json) -> Option<Json> {
    match json_get(reply, "Option"@) {
        Some(Json::Null) => None,
        Some(o) => Some(o),
        None => None,
    }
}

fn question_of(o: &Json) -> (q: ConfigQuestion)
    ensures
        question_from(q, *o),
{
    let name = match str_field(o, "Name") {
        Some(s) => s,
        None => String::new(),
    };
    let help = match str_field(o, "Help") {
        Some(s) => s,
        None => String::new(),
    };
    let default = match str_field(o, "DefaultStr") {
        Some(s) => s,
        None => String::new(),
    };
    let is_password = match bool_field(o, "IsPassword") {
        Some(b) => b,
        None => false,
    };
    let mut examples: Vec<(String, String)> = Vec::new();
    match get(o, "Examples") {
        Some(Json::Array { items, .. }) => {
            let ghost all = items@.map_values(|it: Json| example_of(it));
            let mut i: usize = 0;
            while i < items.len()
                invariant
                    i <= items.len(),
                    all == items@.map_values(|it: Json| example_of(it)),
                    pairs(examples@) == all.take(i as int),
                decreases items.len() - i,
            {
                let value = match str_field(&items[i], "Value") {
                    Some(s) => s,
                    None => String::new(),
                };
                let explained = match str_field(&items[i], "Help") {
                    Some(s) => s,
                    None => String::new(),
                };
                let ghost before = examples@;
                examples.push((value, explained));
                assert(pairs(examples@) =~= pairs(before).push(example_of(items@[i as int])));
                i += 1;
                assert(all.take(i as int) =~= all.take(i - 1).push(all[i - 1]));
            }
            assert(all.take(items.len() as int) =~= all);
        },
        _ => {
            assert(pairs(examples@) =~= examples_of(*o));
        },
    }
    ConfigQuestion { name, help, default, is_password, examples }
}

/// The outcome of a set-up step from rclone's reply (the answer to
/// [`config_create_args`]): the error it reports, if any; else the question
/// it asks, with the state to continue from (its `State`, empty where
/// missing); else the remote is created.
pub fn config_step(reply: &Json) -> (r: Result<ConfigStep, String>)
    ensures
        if reply_error(*reply).len() > 0 {
            r matches Err(e) && e@ == reply_error(*reply)
        } else {
            match reply_question(*reply) {
                Some(o) => r matches Ok(ConfigStep::Question { state, question }) && state@
                    == text_or_empty(field_str(*reply, "State"@)) && question_from(question, o),
                None => r matches Ok(ConfigStep::Done),
            }
        },
{
    match str_field(reply, "Error") {
        Some(e) => {
            if e.as_str().is_empty() {
            } else {
                return Err(e);
            }
        },
        None => {},
    }
    match get(reply, "Option") {
        Some(Json::Null) => Ok(ConfigStep::Done),
        Some(o) => {
            let state = match str_field(reply, "State") {
                Some(s) => s,
                None => String::new(),
            };
            Ok(ConfigStep::Question { state, question: question_of(o) })
        },
        None => Ok(ConfigStep::Done),
    }
}

} // verus!
