//! The wire format of requests and responses, as mathematics.
//!
//! A value is written as a list of words (see the module `wire` for how
//! words become a line). The first word of a request or a response is its
//! tag; its fields follow in order, each as its name and its value. A text
//! is one word, a number its decimal digits, an absent value `-`, a present
//! one `+` followed by its words, and a list its length followed by its
//! items.
//!
//! For each kind of value there is a function that writes it (`…_words`)
//! and one that reads it from the front of a list of words (`read_…`), and
//! a proof that reading what was written gives the value back and leaves
//! what followed it.

use vstd::prelude::*;
use crate::config::ProcessConfigView;
use crate::decimal::{decimal, lemma_decimal_parses, parse_decimal};
use crate::protocol::{
    ProcessInfoView, ProcessStatus, ProtocolError, RequestView, ResponseView,
};
use crate::wire::{
    escape, frame, frame_holds_no_line_feed, frame_round_trip, words_of,
};

verus! {

/// A list of words.
pub type Words = Seq<Seq<char>>;

/// Words written one after another can be taken together either way.
pub proof fn lemma_regroup(a: Words, b: Words, c: Words)
    ensures
        (a + b) + c == a + (b + c),
{
    assert((a + b) + c =~= a + (b + c));
}

/// The words of a field of a record: its name, then its value.
pub open spec fn field(name: Seq<char>, value: Words) -> Words {
    seq![name] + value
}

/// Reads a field of a record: the name `name`, then the value as `read`
/// reads it.
pub open spec fn keyed<T>(
    name: Seq<char>,
    read: spec_fn(Words) -> Option<(T, Words)>,
    words: Words,
) -> Option<(T, Words)> {
    if words.len() > 0 && words[0] == name {
        read(words.drop_first())
    } else {
        None
    }
}

/// A field begins with its name; what follows the name is its value and
/// what follows the field.
pub proof fn lemma_field(name: Seq<char>, value: Words, rest: Words)
    ensures
        (field(name, value) + rest).len() > 0,
        (field(name, value) + rest)[0] == name,
        (field(name, value) + rest).drop_first() == value + rest,
{
}

// ---------------------------------------------------------------------------
// Texts, numbers, truth values
// ---------------------------------------------------------------------------

pub open spec fn str_words(v: Seq<char>) -> Words {
    seq![v]
}

pub open spec fn read_str(words: Words) -> Option<(Seq<char>, Words)> {
    if words.len() > 0 {
        Some((words[0], words.drop_first()))
    } else {
        None
    }
}

pub proof fn lemma_read_str(v: Seq<char>, rest: Words)
    ensures
        read_str(str_words(v) + rest) == Some((v, rest)),
{
    assert((str_words(v) + rest).drop_first() == rest);
}

pub open spec fn nat_words(n: nat) -> Words {
    seq![decimal(n)]
}

/// Reads a number of any size.
pub open spec fn read_nat(words: Words) -> Option<(nat, Words)> {
    if words.len() > 0 {
        match parse_decimal(words[0]) {
            Some(n) => Some((n, words.drop_first())),
            None => None,
        }
    } else {
        None
    }
}

pub proof fn lemma_read_nat(n: nat, rest: Words)
    ensures
        read_nat(nat_words(n) + rest) == Some((n, rest)),
{
    lemma_decimal_parses(n);
    assert((nat_words(n) + rest).drop_first() == rest);
}

pub open spec fn u64_words(n: u64) -> Words {
    nat_words(n as nat)
}

pub open spec fn read_u64(words: Words) -> Option<(u64, Words)> {
    match read_nat(words) {
        Some((n, rest)) if n <= u64::MAX => Some((n as u64, rest)),
        _ => None,
    }
}

pub proof fn lemma_read_u64(n: u64, rest: Words)
    ensures
        read_u64(u64_words(n) + rest) == Some((n, rest)),
{
    lemma_read_nat(n as nat, rest);
}

pub open spec fn u32_words(n: u32) -> Words {
    nat_words(n as nat)
}

pub open spec fn read_u32(words: Words) -> Option<(u32, Words)> {
    match read_nat(words) {
        Some((n, rest)) if n <= u32::MAX => Some((n as u32, rest)),
        _ => None,
    }
}

pub proof fn lemma_read_u32(n: u32, rest: Words)
    ensures
        read_u32(u32_words(n) + rest) == Some((n, rest)),
{
    lemma_read_nat(n as nat, rest);
}

pub open spec fn bool_words(b: bool) -> Words {
    seq![if b {
        "true"@
    } else {
        "false"@
    }]
}

pub open spec fn read_bool(words: Words) -> Option<(bool, Words)> {
    if words.len() > 0 && words[0] == "true"@ {
        Some((true, words.drop_first()))
    } else if words.len() > 0 && words[0] == "false"@ {
        Some((false, words.drop_first()))
    } else {
        None
    }
}

pub proof fn lemma_read_bool(b: bool, rest: Words)
    ensures
        read_bool(bool_words(b) + rest) == Some((b, rest)),
{
    reveal_strlit("true");
    reveal_strlit("false");
    assert("true"@.len() != "false"@.len());
    assert((bool_words(b) + rest).drop_first() == rest);
}

pub open spec fn status_words(status: ProcessStatus) -> Words {
    seq![match status {
        ProcessStatus::Online => "online"@,
        ProcessStatus::Stopped => "stopped"@,
    }]
}

pub open spec fn read_status(words: Words) -> Option<(ProcessStatus, Words)> {
    if words.len() > 0 && words[0] == "online"@ {
        Some((ProcessStatus::Online, words.drop_first()))
    } else if words.len() > 0 && words[0] == "stopped"@ {
        Some((ProcessStatus::Stopped, words.drop_first()))
    } else {
        None
    }
}

pub proof fn lemma_read_status(status: ProcessStatus, rest: Words)
    ensures
        read_status(status_words(status) + rest) == Some((status, rest)),
{
    reveal_strlit("online");
    reveal_strlit("stopped");
    assert("online"@.len() != "stopped"@.len());
    assert((status_words(status) + rest).drop_first() == rest);
}

// ---------------------------------------------------------------------------
// Absent or present
// ---------------------------------------------------------------------------

/// The word for a value that is absent.
pub open spec fn absent() -> Seq<char> {
    "-"@
}

/// The word before a value that is present.
pub open spec fn present() -> Seq<char> {
    "+"@
}

pub proof fn lemma_marks_differ()
    ensures
        absent() != present(),
{
    reveal_strlit("-");
    reveal_strlit("+");
    assert("-"@[0] == '-');
    assert("+"@[0] == '+');
}

pub open spec fn opt_str_words(v: Option<Seq<char>>) -> Words {
    match v {
        None => seq![absent()],
        Some(s) => seq![present()] + str_words(s),
    }
}

pub open spec fn read_opt_str(words: Words) -> Option<(Option<Seq<char>>, Words)> {
    if words.len() > 0 && words[0] == absent() {
        Some((None, words.drop_first()))
    } else if words.len() > 0 && words[0] == present() {
        match read_str(words.drop_first()) {
            Some((s, rest)) => Some((Some(s), rest)),
            None => None,
        }
    } else {
        None
    }
}

pub proof fn lemma_read_opt_str(v: Option<Seq<char>>, rest: Words)
    ensures
        read_opt_str(opt_str_words(v) + rest) == Some((v, rest)),
{
    lemma_marks_differ();
    let words = opt_str_words(v) + rest;
    match v {
        None => {
            assert(words.drop_first() == rest);
        },
        Some(s) => {
            assert(words.drop_first() == str_words(s) + rest);
            lemma_read_str(s, rest);
        },
    }
}

pub open spec fn opt_u64_words(v: Option<u64>) -> Words {
    match v {
        None => seq![absent()],
        Some(n) => seq![present()] + u64_words(n),
    }
}

pub open spec fn read_opt_u64(words: Words) -> Option<(Option<u64>, Words)> {
    if words.len() > 0 && words[0] == absent() {
        Some((None, words.drop_first()))
    } else if words.len() > 0 && words[0] == present() {
        match read_u64(words.drop_first()) {
            Some((n, rest)) => Some((Some(n), rest)),
            None => None,
        }
    } else {
        None
    }
}

pub proof fn lemma_read_opt_u64(v: Option<u64>, rest: Words)
    ensures
        read_opt_u64(opt_u64_words(v) + rest) == Some((v, rest)),
{
    lemma_marks_differ();
    let words = opt_u64_words(v) + rest;
    match v {
        None => {
            assert(words.drop_first() == rest);
        },
        Some(n) => {
            assert(words.drop_first() == u64_words(n) + rest);
            lemma_read_u64(n, rest);
        },
    }
}

pub open spec fn opt_u32_words(v: Option<u32>) -> Words {
    match v {
        None => seq![absent()],
        Some(n) => seq![present()] + u32_words(n),
    }
}

pub open spec fn read_opt_u32(words: Words) -> Option<(Option<u32>, Words)> {
    if words.len() > 0 && words[0] == absent() {
        Some((None, words.drop_first()))
    } else if words.len() > 0 && words[0] == present() {
        match read_u32(words.drop_first()) {
            Some((n, rest)) => Some((Some(n), rest)),
            None => None,
        }
    } else {
        None
    }
}

pub proof fn lemma_read_opt_u32(v: Option<u32>, rest: Words)
    ensures
        read_opt_u32(opt_u32_words(v) + rest) == Some((v, rest)),
{
    lemma_marks_differ();
    let words = opt_u32_words(v) + rest;
    match v {
        None => {
            assert(words.drop_first() == rest);
        },
        Some(n) => {
            assert(words.drop_first() == u32_words(n) + rest);
            lemma_read_u32(n, rest);
        },
    }
}

// ---------------------------------------------------------------------------
// Lists of texts and of pairs of texts
// ---------------------------------------------------------------------------

pub open spec fn strs_words(v: Seq<Seq<char>>) -> Words {
    nat_words(v.len()) + v
}

pub open spec fn read_strs(words: Words) -> Option<(Seq<Seq<char>>, Words)> {
    match read_nat(words) {
        Some((n, rest)) if n <= rest.len() => Some((rest.take(n as int), rest.skip(n as int))),
        _ => None,
    }
}

pub proof fn lemma_read_strs(v: Seq<Seq<char>>, rest: Words)
    ensures
        read_strs(strs_words(v) + rest) == Some((v, rest)),
{
    assert(strs_words(v) + rest == nat_words(v.len()) + (v + rest));
    lemma_read_nat(v.len(), v + rest);
    assert((v + rest).take(v.len() as int) == v);
    assert((v + rest).skip(v.len() as int) == rest);
}

/// The words of pairs of texts: both texts of the first pair, then both of
/// the second, and so on.
pub open spec fn pair_items(v: Seq<(Seq<char>, Seq<char>)>) -> Words {
    Seq::new(
        2 * v.len(),
        |i: int|
            if i % 2 == 0 {
                v[i / 2].0
            } else {
                v[i / 2].1
            },
    )
}

/// The pairs that `2 * n` words make.
pub open spec fn pairs_of(words: Words, n: nat) -> Seq<(Seq<char>, Seq<char>)> {
    Seq::new(n, |i: int| (words[2 * i], words[2 * i + 1]))
}

pub open spec fn pairs_words(v: Seq<(Seq<char>, Seq<char>)>) -> Words {
    nat_words(v.len()) + pair_items(v)
}

pub open spec fn read_pairs(words: Words) -> Option<(Seq<(Seq<char>, Seq<char>)>, Words)> {
    match read_nat(words) {
        Some((n, rest)) if 2 * n <= rest.len() => Some(
            (pairs_of(rest, n), rest.skip(2 * n as int)),
        ),
        _ => None,
    }
}

pub proof fn lemma_read_pairs(v: Seq<(Seq<char>, Seq<char>)>, rest: Words)
    ensures
        read_pairs(pairs_words(v) + rest) == Some((v, rest)),
{
    let items = pair_items(v);
    assert(pairs_words(v) + rest == nat_words(v.len()) + (items + rest));
    lemma_read_nat(v.len(), items + rest);
    assert((items + rest).skip(2 * v.len() as int) == rest);
    assert(pairs_of(items + rest, v.len()) == v) by {
        assert forall|i: int| 0 <= i < v.len() implies pairs_of(items + rest, v.len())[i]
            == v[i] by {
            assert((items + rest)[2 * i] == items[2 * i]);
            assert((items + rest)[2 * i + 1] == items[2 * i + 1]);
            assert((2 * i) % 2 == 0 && (2 * i) / 2 == i);
            assert((2 * i + 1) % 2 == 1 && (2 * i + 1) / 2 == i);
        }
    }
}

pub open spec fn opt_strs_words(v: Option<Seq<Seq<char>>>) -> Words {
    match v {
        None => seq![absent()],
        Some(list) => seq![present()] + strs_words(list),
    }
}

pub open spec fn read_opt_strs(words: Words) -> Option<(Option<Seq<Seq<char>>>, Words)> {
    if words.len() > 0 && words[0] == absent() {
        Some((None, words.drop_first()))
    } else if words.len() > 0 && words[0] == present() {
        match read_strs(words.drop_first()) {
            Some((list, rest)) => Some((Some(list), rest)),
            None => None,
        }
    } else {
        None
    }
}

pub proof fn lemma_read_opt_strs(v: Option<Seq<Seq<char>>>, rest: Words)
    ensures
        read_opt_strs(opt_strs_words(v) + rest) == Some((v, rest)),
{
    lemma_marks_differ();
    let words = opt_strs_words(v) + rest;
    match v {
        None => {
            assert(words.drop_first() == rest);
        },
        Some(list) => {
            assert(words.drop_first() == strs_words(list) + rest);
            lemma_read_strs(list, rest);
        },
    }
}

pub open spec fn opt_pairs_words(v: Option<Seq<(Seq<char>, Seq<char>)>>) -> Words {
    match v {
        None => seq![absent()],
        Some(list) => seq![present()] + pairs_words(list),
    }
}

pub open spec fn read_opt_pairs(words: Words) -> Option<
    (Option<Seq<(Seq<char>, Seq<char>)>>, Words),
> {
    if words.len() > 0 && words[0] == absent() {
        Some((None, words.drop_first()))
    } else if words.len() > 0 && words[0] == present() {
        match read_pairs(words.drop_first()) {
            Some((list, rest)) => Some((Some(list), rest)),
            None => None,
        }
    } else {
        None
    }
}

pub proof fn lemma_read_opt_pairs(v: Option<Seq<(Seq<char>, Seq<char>)>>, rest: Words)
    ensures
        read_opt_pairs(opt_pairs_words(v) + rest) == Some((v, rest)),
{
    lemma_marks_differ();
    let words = opt_pairs_words(v) + rest;
    match v {
        None => {
            assert(words.drop_first() == rest);
        },
        Some(list) => {
            assert(words.drop_first() == pairs_words(list) + rest);
            lemma_read_pairs(list, rest);
        },
    }
}


// ---------------------------------------------------------------------------
// Descriptors
// ---------------------------------------------------------------------------

pub open spec fn config_words(c: ProcessConfigView) -> Words {
    field("command"@, str_words(c.command)) + field("cwd"@, opt_str_words(c.cwd)) + field(
        "env"@,
        opt_pairs_words(c.env),
    ) + field("group"@, opt_str_words(c.group)) + field(
        "kill_timeout"@,
        opt_u64_words(c.kill_timeout),
    ) + field("extra"@, pairs_words(c.extra))
}

#[verifier::opaque]
pub open spec fn read_config(words: Words) -> Option<(ProcessConfigView, Words)> {
    match keyed("command"@, |w: Words| read_str(w), words) {
        Some((command, after_command)) => match keyed(
            "cwd"@,
            |w: Words| read_opt_str(w),
            after_command,
        ) {
            Some((cwd, after_cwd)) => match keyed("env"@, |w: Words| read_opt_pairs(w), after_cwd) {
                Some((env, after_env)) => match keyed(
                    "group"@,
                    |w: Words| read_opt_str(w),
                    after_env,
                ) {
                    Some((group, after_group)) => match keyed(
                        "kill_timeout"@,
                        |w: Words| read_opt_u64(w),
                        after_group,
                    ) {
                        Some((kill_timeout, after_timeout)) => match keyed(
                            "extra"@,
                            |w: Words| read_pairs(w),
                            after_timeout,
                        ) {
                            Some((extra, rest)) => Some(
                                (
                                    ProcessConfigView {
                                        command,
                                        cwd,
                                        env,
                                        group,
                                        kill_timeout,
                                        extra,
                                    },
                                    rest,
                                ),
                            ),
                            None => None,
                        },
                        None => None,
                    },
                    None => None,
                },
                None => None,
            },
            None => None,
        },
        None => None,
    }
}

pub proof fn lemma_read_config(c: ProcessConfigView, rest: Words)
    ensures
        read_config(config_words(c) + rest) == Some((c, rest)),
{
    reveal(read_config);
    let command = field("command"@, str_words(c.command));
    let cwd = field("cwd"@, opt_str_words(c.cwd));
    let env = field("env"@, opt_pairs_words(c.env));
    let group = field("group"@, opt_str_words(c.group));
    let timeout = field("kill_timeout"@, opt_u64_words(c.kill_timeout));
    let extra = field("extra"@, pairs_words(c.extra));
    let after_timeout = extra + rest;
    let after_group = timeout + after_timeout;
    let after_env = group + after_group;
    let after_cwd = env + after_env;
    let after_command = cwd + after_cwd;
    assert(config_words(c) + rest == command + after_command) by {
        lemma_regroup(command + cwd + env + group + timeout, extra, rest);
        lemma_regroup(command + cwd + env + group, timeout, after_timeout);
        lemma_regroup(command + cwd + env, group, after_group);
        lemma_regroup(command + cwd, env, after_env);
        lemma_regroup(command, cwd, after_cwd);
    }
    lemma_field("command"@, str_words(c.command), after_command);
    lemma_read_str(c.command, after_command);
    lemma_field("cwd"@, opt_str_words(c.cwd), after_cwd);
    lemma_read_opt_str(c.cwd, after_cwd);
    lemma_field("env"@, opt_pairs_words(c.env), after_env);
    lemma_read_opt_pairs(c.env, after_env);
    lemma_field("group"@, opt_str_words(c.group), after_group);
    lemma_read_opt_str(c.group, after_group);
    lemma_field("kill_timeout"@, opt_u64_words(c.kill_timeout), after_timeout);
    lemma_read_opt_u64(c.kill_timeout, after_timeout);
    lemma_field("extra"@, pairs_words(c.extra), rest);
    lemma_read_pairs(c.extra, rest);
}

/// A descriptor under its name.
pub type ConfigEntry = (Seq<char>, ProcessConfigView);

pub open spec fn entry_words(e: ConfigEntry) -> Words {
    field("name"@, str_words(e.0)) + config_words(e.1)
}

pub open spec fn read_entry(words: Words) -> Option<(ConfigEntry, Words)> {
    match keyed("name"@, |w: Words| read_str(w), words) {
        Some((name, after_name)) => match read_config(after_name) {
            Some((config, rest)) => Some(((name, config), rest)),
            None => None,
        },
        None => None,
    }
}

pub proof fn lemma_read_entry(e: ConfigEntry, rest: Words)
    ensures
        read_entry(entry_words(e) + rest) == Some((e, rest)),
        entry_words(e).len() >= 1,
{
    let after_name = config_words(e.1) + rest;
    lemma_regroup(field("name"@, str_words(e.0)), config_words(e.1), rest);
    lemma_field("name"@, str_words(e.0), after_name);
    lemma_read_str(e.0, after_name);
    lemma_read_config(e.1, rest);
}

pub open spec fn entries_words(v: Seq<ConfigEntry>) -> Words
    decreases v.len(),
{
    if v.len() == 0 {
        Seq::empty()
    } else {
        entry_words(v[0]) + entries_words(v.drop_first())
    }
}

pub open spec fn read_entries(words: Words, n: nat) -> Option<(Seq<ConfigEntry>, Words)>
    decreases n,
{
    if n == 0 {
        Some((Seq::empty(), words))
    } else {
        match read_entry(words) {
            Some((first, after_first)) => match read_entries(after_first, (n - 1) as nat) {
                Some((more, rest)) => Some((seq![first] + more, rest)),
                None => None,
            },
            None => None,
        }
    }
}

pub proof fn lemma_read_entries(v: Seq<ConfigEntry>, rest: Words)
    ensures
        read_entries(entries_words(v) + rest, v.len()) == Some((v, rest)),
        entries_words(v).len() >= v.len(),
    decreases v.len(),
{
    if v.len() == 0 {
        assert(entries_words(v) + rest == rest);
    } else {
        let tail = v.drop_first();
        lemma_read_entries(tail, rest);
        assert(entries_words(v) + rest == entry_words(v[0]) + (entries_words(tail) + rest));
        lemma_read_entry(v[0], entries_words(tail) + rest);
        assert(seq![v[0]] + tail == v);
    }
}

pub open spec fn configs_words(v: Seq<ConfigEntry>) -> Words {
    nat_words(v.len()) + entries_words(v)
}

pub open spec fn read_configs(words: Words) -> Option<(Seq<ConfigEntry>, Words)> {
    match read_nat(words) {
        Some((n, rest)) if n <= rest.len() => read_entries(rest, n),
        _ => None,
    }
}

pub proof fn lemma_read_configs(v: Seq<ConfigEntry>, rest: Words)
    ensures
        read_configs(configs_words(v) + rest) == Some((v, rest)),
{
    assert(configs_words(v) + rest == nat_words(v.len()) + (entries_words(v) + rest));
    lemma_read_nat(v.len(), entries_words(v) + rest);
    lemma_read_entries(v, rest);
}

// ---------------------------------------------------------------------------
// Process reports
// ---------------------------------------------------------------------------

pub open spec fn info_words(info: ProcessInfoView) -> Words {
    field("name"@, str_words(info.name)) + field("pid"@, opt_u32_words(info.pid)) + field(
        "status"@,
        status_words(info.status),
    ) + field("uptime_secs"@, opt_u64_words(info.uptime_secs)) + field(
        "restarts"@,
        u32_words(info.restarts),
    ) + field("group"@, opt_str_words(info.group))
}

#[verifier::opaque]
pub open spec fn read_info(words: Words) -> Option<(ProcessInfoView, Words)> {
    match keyed("name"@, |w: Words| read_str(w), words) {
        Some((name, after_name)) => match keyed("pid"@, |w: Words| read_opt_u32(w), after_name) {
            Some((pid, after_pid)) => match keyed(
                "status"@,
                |w: Words| read_status(w),
                after_pid,
            ) {
                Some((status, after_status)) => match keyed(
                    "uptime_secs"@,
                    |w: Words| read_opt_u64(w),
                    after_status,
                ) {
                    Some((uptime_secs, after_uptime)) => match keyed(
                        "restarts"@,
                        |w: Words| read_u32(w),
                        after_uptime,
                    ) {
                        Some((restarts, after_restarts)) => match keyed(
                            "group"@,
                            |w: Words| read_opt_str(w),
                            after_restarts,
                        ) {
                            Some((group, rest)) => Some(
                                (
                                    ProcessInfoView {
                                        name,
                                        pid,
                                        status,
                                        uptime_secs,
                                        restarts,
                                        group,
                                    },
                                    rest,
                                ),
                            ),
                            None => None,
                        },
                        None => None,
                    },
                    None => None,
                },
                None => None,
            },
            None => None,
        },
        None => None,
    }
}

pub proof fn lemma_read_info(info: ProcessInfoView, rest: Words)
    ensures
        read_info(info_words(info) + rest) == Some((info, rest)),
        info_words(info).len() >= 1,
{
    reveal(read_info);
    let name = field("name"@, str_words(info.name));
    let pid = field("pid"@, opt_u32_words(info.pid));
    let status = field("status"@, status_words(info.status));
    let uptime = field("uptime_secs"@, opt_u64_words(info.uptime_secs));
    let restarts = field("restarts"@, u32_words(info.restarts));
    let group = field("group"@, opt_str_words(info.group));
    let after_restarts = group + rest;
    let after_uptime = restarts + after_restarts;
    let after_status = uptime + after_uptime;
    let after_pid = status + after_status;
    let after_name = pid + after_pid;
    assert(info_words(info) + rest == name + after_name) by {
        lemma_regroup(name + pid + status + uptime + restarts, group, rest);
        lemma_regroup(name + pid + status + uptime, restarts, after_restarts);
        lemma_regroup(name + pid + status, uptime, after_uptime);
        lemma_regroup(name + pid, status, after_status);
        lemma_regroup(name, pid, after_pid);
    }
    lemma_field("name"@, str_words(info.name), after_name);
    lemma_read_str(info.name, after_name);
    lemma_field("pid"@, opt_u32_words(info.pid), after_pid);
    lemma_read_opt_u32(info.pid, after_pid);
    lemma_field("status"@, status_words(info.status), after_status);
    lemma_read_status(info.status, after_status);
    lemma_field("uptime_secs"@, opt_u64_words(info.uptime_secs), after_uptime);
    lemma_read_opt_u64(info.uptime_secs, after_uptime);
    lemma_field("restarts"@, u32_words(info.restarts), after_restarts);
    lemma_read_u32(info.restarts, after_restarts);
    lemma_field("group"@, opt_str_words(info.group), rest);
    lemma_read_opt_str(info.group, rest);
}

pub open spec fn info_items(v: Seq<ProcessInfoView>) -> Words
    decreases v.len(),
{
    if v.len() == 0 {
        Seq::empty()
    } else {
        info_words(v[0]) + info_items(v.drop_first())
    }
}

pub open spec fn read_info_items(words: Words, n: nat) -> Option<(Seq<ProcessInfoView>, Words)>
    decreases n,
{
    if n == 0 {
        Some((Seq::empty(), words))
    } else {
        match read_info(words) {
            Some((first, after_first)) => match read_info_items(after_first, (n - 1) as nat) {
                Some((more, rest)) => Some((seq![first] + more, rest)),
                None => None,
            },
            None => None,
        }
    }
}

pub proof fn lemma_read_info_items(v: Seq<ProcessInfoView>, rest: Words)
    ensures
        read_info_items(info_items(v) + rest, v.len()) == Some((v, rest)),
        info_items(v).len() >= v.len(),
    decreases v.len(),
{
    if v.len() == 0 {
        assert(info_items(v) + rest == rest);
    } else {
        let tail = v.drop_first();
        lemma_read_info_items(tail, rest);
        assert(info_items(v) + rest == info_words(v[0]) + (info_items(tail) + rest));
        lemma_read_info(v[0], info_items(tail) + rest);
        assert(seq![v[0]] + tail == v);
    }
}

pub open spec fn infos_words(v: Seq<ProcessInfoView>) -> Words {
    nat_words(v.len()) + info_items(v)
}

pub open spec fn read_infos(words: Words) -> Option<(Seq<ProcessInfoView>, Words)> {
    match read_nat(words) {
        Some((n, rest)) if n <= rest.len() => read_info_items(rest, n),
        _ => None,
    }
}

pub proof fn lemma_read_infos(v: Seq<ProcessInfoView>, rest: Words)
    ensures
        read_infos(infos_words(v) + rest) == Some((v, rest)),
{
    assert(infos_words(v) + rest == nat_words(v.len()) + (info_items(v) + rest));
    lemma_read_nat(v.len(), info_items(v) + rest);
    lemma_read_info_items(v, rest);
}


// ---------------------------------------------------------------------------
// Requests
// ---------------------------------------------------------------------------

pub open spec fn request_words(request: RequestView) -> Words {
    match request {
        RequestView::Start { configs, names, env } => seq!["start"@] + field(
            "configs"@,
            configs_words(configs),
        ) + field("names"@, opt_strs_words(names)) + field("env"@, opt_pairs_words(env)),
        RequestView::Stop { names } => seq!["stop"@] + field("names"@, opt_strs_words(names)),
        RequestView::Restart { names } => seq!["restart"@] + field(
            "names"@,
            opt_strs_words(names),
        ),
        RequestView::List => seq!["list"@],
        RequestView::Kill => seq!["kill"@],
        RequestView::Log { name, lines, follow } => seq!["log"@] + field(
            "name"@,
            opt_str_words(name),
        ) + field("lines"@, u64_words(lines)) + field("follow"@, bool_words(follow)),
    }
}

/// Whether `word` is the tag of a request.
pub open spec fn is_request_tag(word: Seq<char>) -> bool {
    word == "start"@ || word == "stop"@ || word == "restart"@ || word == "list"@ || word
        == "kill"@ || word == "log"@
}

pub open spec fn read_request(words: Words) -> Option<(RequestView, Words)> {
    if words.len() == 0 {
        None
    } else {
        let fields = words.drop_first();
        if words[0] == "start"@ {
            match keyed("configs"@, |w: Words| read_configs(w), fields) {
                Some((configs, after_configs)) => match keyed(
                    "names"@,
                    |w: Words| read_opt_strs(w),
                    after_configs,
                ) {
                    Some((names, after_names)) => match keyed(
                        "env"@,
                        |w: Words| read_opt_pairs(w),
                        after_names,
                    ) {
                        Some((env, rest)) => Some((RequestView::Start { configs, names, env }, rest)),
                        None => None,
                    },
                    None => None,
                },
                None => None,
            }
        } else if words[0] == "stop"@ {
            match keyed("names"@, |w: Words| read_opt_strs(w), fields) {
                Some((names, rest)) => Some((RequestView::Stop { names }, rest)),
                None => None,
            }
        } else if words[0] == "restart"@ {
            match keyed("names"@, |w: Words| read_opt_strs(w), fields) {
                Some((names, rest)) => Some((RequestView::Restart { names }, rest)),
                None => None,
            }
        } else if words[0] == "list"@ {
            Some((RequestView::List, fields))
        } else if words[0] == "kill"@ {
            Some((RequestView::Kill, fields))
        } else if words[0] == "log"@ {
            match keyed("name"@, |w: Words| read_opt_str(w), fields) {
                Some((name, after_name)) => match keyed(
                    "lines"@,
                    |w: Words| read_u64(w),
                    after_name,
                ) {
                    Some((lines, after_lines)) => match keyed(
                        "follow"@,
                        |w: Words| read_bool(w),
                        after_lines,
                    ) {
                        Some((follow, rest)) => Some((RequestView::Log { name, lines, follow }, rest)),
                        None => None,
                    },
                    None => None,
                },
                None => None,
            }
        } else {
            None
        }
    }
}

/// The tags of requests are six different words, none empty.
pub proof fn lemma_request_tags()
    ensures
        "start"@ != "stop"@,
        "start"@ != "restart"@,
        "start"@ != "list"@,
        "start"@ != "kill"@,
        "start"@ != "log"@,
        "stop"@ != "restart"@,
        "stop"@ != "list"@,
        "stop"@ != "kill"@,
        "stop"@ != "log"@,
        "restart"@ != "list"@,
        "restart"@ != "kill"@,
        "restart"@ != "log"@,
        "list"@ != "kill"@,
        "list"@ != "log"@,
        "kill"@ != "log"@,
        "start"@.len() > 0,
        "stop"@.len() > 0,
        "restart"@.len() > 0,
        "list"@.len() > 0,
        "kill"@.len() > 0,
        "log"@.len() > 0,
{
    reveal_strlit("start");
    reveal_strlit("stop");
    reveal_strlit("restart");
    reveal_strlit("list");
    reveal_strlit("kill");
    reveal_strlit("log");
    assert("start"@.len() == 5);
    assert("stop"@.len() == 4);
    assert("restart"@.len() == 7);
    assert("list"@.len() == 4);
    assert("kill"@.len() == 4);
    assert("log"@.len() == 3);
    assert("stop"@[0] == 's');
    assert("list"@[0] == 'l');
    assert("kill"@[0] == 'k');
}

proof fn lemma_read_start(
    configs: Seq<ConfigEntry>,
    names: Option<Seq<Seq<char>>>,
    env: Option<Seq<(Seq<char>, Seq<char>)>>,
    rest: Words,
)
    ensures
        read_request(request_words(RequestView::Start { configs, names, env }) + rest) == Some(
            (RequestView::Start { configs, names, env }, rest),
        ),
{
    let tag = seq!["start"@];
    let f1 = field("configs"@, configs_words(configs));
    let f2 = field("names"@, opt_strs_words(names));
    let f3 = field("env"@, opt_pairs_words(env));
    let after_names = f3 + rest;
    let after_configs = f2 + after_names;
    let fields = f1 + after_configs;
    let words = request_words(RequestView::Start { configs, names, env }) + rest;
    assert(words == tag + fields) by {
        lemma_regroup(tag + f1 + f2, f3, rest);
        lemma_regroup(tag + f1, f2, after_names);
        lemma_regroup(tag, f1, after_configs);
    }
    assert(words[0] == "start"@);
    assert(words.drop_first() == fields);
    lemma_field("configs"@, configs_words(configs), after_configs);
    lemma_read_configs(configs, after_configs);
    lemma_field("names"@, opt_strs_words(names), after_names);
    lemma_read_opt_strs(names, after_names);
    lemma_field("env"@, opt_pairs_words(env), rest);
    lemma_read_opt_pairs(env, rest);
}

proof fn lemma_read_log(name: Option<Seq<char>>, lines: u64, follow: bool, rest: Words)
    ensures
        read_request(request_words(RequestView::Log { name, lines, follow }) + rest) == Some(
            (RequestView::Log { name, lines, follow }, rest),
        ),
{
    lemma_request_tags();
    let tag = seq!["log"@];
    let f1 = field("name"@, opt_str_words(name));
    let f2 = field("lines"@, u64_words(lines));
    let f3 = field("follow"@, bool_words(follow));
    let after_lines = f3 + rest;
    let after_name = f2 + after_lines;
    let fields = f1 + after_name;
    let words = request_words(RequestView::Log { name, lines, follow }) + rest;
    assert(words == tag + fields) by {
        lemma_regroup(tag + f1 + f2, f3, rest);
        lemma_regroup(tag + f1, f2, after_lines);
        lemma_regroup(tag, f1, after_name);
    }
    assert(words[0] == "log"@);
    assert(words.drop_first() == fields);
    lemma_field("name"@, opt_str_words(name), after_name);
    lemma_read_opt_str(name, after_name);
    lemma_field("lines"@, u64_words(lines), after_lines);
    lemma_read_u64(lines, after_lines);
    lemma_field("follow"@, bool_words(follow), rest);
    lemma_read_bool(follow, rest);
}

proof fn lemma_read_names(tag: Seq<char>, names: Option<Seq<Seq<char>>>, rest: Words)
    ensures
        ({
            let words = seq![tag] + field("names"@, opt_strs_words(names)) + rest;
            &&& words[0] == tag
            &&& keyed("names"@, |w: Words| read_opt_strs(w), words.drop_first()) == Some(
                (names, rest),
            )
        }),
{
    let f1 = field("names"@, opt_strs_words(names));
    let words = seq![tag] + f1 + rest;
    lemma_regroup(seq![tag], f1, rest);
    assert(words.drop_first() == f1 + rest);
    lemma_field("names"@, opt_strs_words(names), rest);
    lemma_read_opt_strs(names, rest);
}

pub proof fn lemma_read_request(request: RequestView, rest: Words)
    ensures
        read_request(request_words(request) + rest) == Some((request, rest)),
        is_request_tag(request_words(request)[0]),
        request_words(request).len() >= 1,
{
    lemma_request_tags();
    let words = request_words(request) + rest;
    let fields = words.drop_first();
    match request {
        RequestView::Start { configs, names, env } => {
            lemma_read_start(configs, names, env, rest);
        },
        RequestView::Stop { names } => {
            lemma_read_names("stop"@, names, rest);
        },
        RequestView::Restart { names } => {
            lemma_read_names("restart"@, names, rest);
        },
        RequestView::List => {
            assert(words[0] == "list"@);
            assert(fields == rest);
        },
        RequestView::Kill => {
            assert(words[0] == "kill"@);
            assert(fields == rest);
        },
        RequestView::Log { name, lines, follow } => {
            lemma_read_log(name, lines, follow, rest);
        },
    }
}

// ---------------------------------------------------------------------------
// Responses
// ---------------------------------------------------------------------------

pub open spec fn response_words(response: ResponseView) -> Words {
    match response {
        ResponseView::Success { message } => seq!["success"@] + field(
            "message"@,
            opt_str_words(message),
        ),
        ResponseView::Error { message } => seq!["error"@] + field("message"@, str_words(message)),
        ResponseView::ProcessList { processes } => seq!["process_list"@] + field(
            "processes"@,
            infos_words(processes),
        ),
        ResponseView::ProcessDetail { info } => seq!["process_detail"@] + field(
            "info"@,
            info_words(info),
        ),
        ResponseView::LogLine { name, line } => seq!["log_line"@] + field(
            "name"@,
            opt_str_words(name),
        ) + field("line"@, str_words(line)),
    }
}

/// Whether `word` is the tag of a response.
pub open spec fn is_response_tag(word: Seq<char>) -> bool {
    word == "success"@ || word == "error"@ || word == "process_list"@ || word
        == "process_detail"@ || word == "log_line"@
}

pub open spec fn read_response(words: Words) -> Option<(ResponseView, Words)> {
    if words.len() == 0 {
        None
    } else {
        let fields = words.drop_first();
        if words[0] == "success"@ {
            match keyed("message"@, |w: Words| read_opt_str(w), fields) {
                Some((message, rest)) => Some((ResponseView::Success { message }, rest)),
                None => None,
            }
        } else if words[0] == "error"@ {
            match keyed("message"@, |w: Words| read_str(w), fields) {
                Some((message, rest)) => Some((ResponseView::Error { message }, rest)),
                None => None,
            }
        } else if words[0] == "process_list"@ {
            match keyed("processes"@, |w: Words| read_infos(w), fields) {
                Some((processes, rest)) => Some((ResponseView::ProcessList { processes }, rest)),
                None => None,
            }
        } else if words[0] == "process_detail"@ {
            match keyed("info"@, |w: Words| read_info(w), fields) {
                Some((info, rest)) => Some((ResponseView::ProcessDetail { info }, rest)),
                None => None,
            }
        } else if words[0] == "log_line"@ {
            match keyed("name"@, |w: Words| read_opt_str(w), fields) {
                Some((name, after_name)) => match keyed(
                    "line"@,
                    |w: Words| read_str(w),
                    after_name,
                ) {
                    Some((line, rest)) => Some((ResponseView::LogLine { name, line }, rest)),
                    None => None,
                },
                None => None,
            }
        } else {
            None
        }
    }
}

/// The tags of responses are five different words, none empty.
pub proof fn lemma_response_tags()
    ensures
        "success"@ != "error"@,
        "success"@ != "process_list"@,
        "success"@ != "process_detail"@,
        "success"@ != "log_line"@,
        "error"@ != "process_list"@,
        "error"@ != "process_detail"@,
        "error"@ != "log_line"@,
        "process_list"@ != "process_detail"@,
        "process_list"@ != "log_line"@,
        "process_detail"@ != "log_line"@,
        "success"@.len() > 0,
        "error"@.len() > 0,
        "process_list"@.len() > 0,
        "process_detail"@.len() > 0,
        "log_line"@.len() > 0,
{
    reveal_strlit("success");
    reveal_strlit("error");
    reveal_strlit("process_list");
    reveal_strlit("process_detail");
    reveal_strlit("log_line");
    assert("success"@.len() == 7);
    assert("error"@.len() == 5);
    assert("process_list"@.len() == 12);
    assert("process_detail"@.len() == 14);
    assert("log_line"@.len() == 8);
}

pub proof fn lemma_read_response(response: ResponseView, rest: Words)
    ensures
        read_response(response_words(response) + rest) == Some((response, rest)),
        is_response_tag(response_words(response)[0]),
        response_words(response).len() >= 1,
{
    lemma_response_tags();
    let words = response_words(response) + rest;
    let fields = words.drop_first();
    match response {
        ResponseView::Success { message } => {
            let f1 = field("message"@, opt_str_words(message));
            lemma_regroup(seq!["success"@], f1, rest);
            assert(words[0] == "success"@);
            assert(fields == f1 + rest);
            lemma_field("message"@, opt_str_words(message), rest);
            lemma_read_opt_str(message, rest);
        },
        ResponseView::Error { message } => {
            let f1 = field("message"@, str_words(message));
            lemma_regroup(seq!["error"@], f1, rest);
            assert(words[0] == "error"@);
            assert(fields == f1 + rest);
            lemma_field("message"@, str_words(message), rest);
            lemma_read_str(message, rest);
        },
        ResponseView::ProcessList { processes } => {
            let f1 = field("processes"@, infos_words(processes));
            lemma_regroup(seq!["process_list"@], f1, rest);
            assert(words[0] == "process_list"@);
            assert(fields == f1 + rest);
            lemma_field("processes"@, infos_words(processes), rest);
            lemma_read_infos(processes, rest);
        },
        ResponseView::ProcessDetail { info } => {
            let f1 = field("info"@, info_words(info));
            lemma_regroup(seq!["process_detail"@], f1, rest);
            assert(words[0] == "process_detail"@);
            assert(fields == f1 + rest);
            lemma_field("info"@, info_words(info), rest);
            lemma_read_info(info, rest);
        },
        ResponseView::LogLine { name, line } => {
            let f1 = field("name"@, opt_str_words(name));
            let f2 = field("line"@, str_words(line));
            lemma_regroup(seq!["log_line"@] + f1, f2, rest);
            lemma_regroup(seq!["log_line"@], f1, f2 + rest);
            assert(words[0] == "log_line"@);
            assert(fields == f1 + (f2 + rest));
            lemma_field("name"@, opt_str_words(name), f2 + rest);
            lemma_read_opt_str(name, f2 + rest);
            lemma_field("line"@, str_words(line), rest);
            lemma_read_str(line, rest);
        },
    }
}

// ---------------------------------------------------------------------------
// Lines
// ---------------------------------------------------------------------------

/// A line without the line feed at its end, if it has one.
pub open spec fn body_of(line: Seq<char>) -> Seq<char> {
    if line.len() > 0 && line.last() == '\n' {
        line.drop_last()
    } else {
        line
    }
}

/// The frame of a request.
pub open spec fn request_text(request: RequestView) -> Seq<char> {
    frame(request_words(request))
}

/// The line that a request travels as: its frame and a line feed.
pub open spec fn request_line(request: RequestView) -> Seq<char> {
    request_text(request).push('\n')
}

/// The request that `line` stands for, or why it stands for none. The
/// line feed at the end of the line may be missing. A start that holds two
/// descriptors under one name is not well formed.
pub open spec fn decoded_request(line: Seq<char>) -> Result<RequestView, ProtocolError> {
    let body = body_of(line);
    if body.len() == 0 {
        Err(ProtocolError::Empty)
    } else {
        match words_of(body) {
            None => Err(ProtocolError::Malformed),
            Some(words) => if words.len() == 0 || !is_request_tag(words[0]) {
                Err(ProtocolError::UnknownVariant)
            } else {
                match read_request(words) {
                    Some((request, rest)) if rest.len() == 0 && request.wf() => Ok(request),
                    _ => Err(ProtocolError::Malformed),
                }
            },
        }
    }
}

/// The frame of a response.
pub open spec fn response_text(response: ResponseView) -> Seq<char> {
    frame(response_words(response))
}

/// The line that a response travels as: its frame and a line feed.
pub open spec fn response_line(response: ResponseView) -> Seq<char> {
    response_text(response).push('\n')
}

/// The response that `line` stands for, or why it stands for none. The
/// line feed at the end of the line may be missing.
pub open spec fn decoded_response(line: Seq<char>) -> Result<ResponseView, ProtocolError> {
    let body = body_of(line);
    if body.len() == 0 {
        Err(ProtocolError::Empty)
    } else {
        match words_of(body) {
            None => Err(ProtocolError::Malformed),
            Some(words) => if words.len() == 0 || !is_response_tag(words[0]) {
                Err(ProtocolError::UnknownVariant)
            } else {
                match read_response(words) {
                    Some((response, rest)) if rest.len() == 0 => Ok(response),
                    _ => Err(ProtocolError::Malformed),
                }
            },
        }
    }
}

/// A frame is at least as long as its first word.
proof fn lemma_frame_len(words: Words)
    requires
        words.len() >= 1,
    ensures
        frame(words).len() >= words[0].len(),
{
    lemma_escape_len(words[0]);
}

proof fn lemma_escape_len(word: Seq<char>)
    ensures
        escape(word).len() >= word.len(),
    decreases word.len(),
{
    if word.len() > 0 {
        lemma_escape_len(word.drop_first());
    }
}

/// A line that is a frame and a line feed holds no other line feed.
proof fn lemma_body_of_line(words: Words)
    ensures
        body_of(frame(words).push('\n')) == frame(words),
        body_of(frame(words)) == frame(words),
{
    frame_holds_no_line_feed(words);
    let text = frame(words);
    assert(text.push('\n').drop_last() == text);
    if text.len() > 0 {
        assert(text[text.len() - 1] != '\n');
    }
}

/// Decoding undoes encoding, for every request: the line of a request
/// stands for that request, with or without the line feed at its end.
pub proof fn request_round_trip(request: RequestView)
    requires
        request.wf(),
    ensures
        decoded_request(request_line(request)) == Ok::<RequestView, ProtocolError>(request),
        decoded_request(request_text(request)) == Ok::<RequestView, ProtocolError>(request),
{
    let words = request_words(request);
    lemma_read_request(request, Seq::empty());
    assert(words + Seq::<Seq<char>>::empty() == words);
    lemma_request_tags();
    lemma_frame_len(words);
    lemma_body_of_line(words);
    frame_round_trip(words);
}

/// Decoding undoes encoding, for every response: the line of a response
/// stands for that response, with or without the line feed at its end.
pub proof fn response_round_trip(response: ResponseView)
    ensures
        decoded_response(response_line(response)) == Ok::<ResponseView, ProtocolError>(response),
        decoded_response(response_text(response)) == Ok::<ResponseView, ProtocolError>(response),
{
    let words = response_words(response);
    lemma_read_response(response, Seq::empty());
    assert(words + Seq::<Seq<char>>::empty() == words);
    lemma_response_tags();
    lemma_frame_len(words);
    lemma_body_of_line(words);
    frame_round_trip(words);
}

/// The only line feed of an encoded line is the one at its end; any line
/// feed in a field is written as an escape.
pub proof fn lines_end_at_their_line_feed(request: RequestView, response: ResponseView)
    ensures
        forall|i: int|
            0 <= i < request_text(request).len() ==> (#[trigger] request_text(request)[i])
                != '\n',
        forall|i: int|
            0 <= i < response_text(response).len() ==> (#[trigger] response_text(response)[i])
                != '\n',
        request_line(request).last() == '\n',
        response_line(response).last() == '\n',
{
    frame_holds_no_line_feed(request_words(request));
    frame_holds_no_line_feed(response_words(response));
}

/// What is decoded is a request that travels: no line stands for a start
/// with two descriptors under one name.
pub proof fn decoded_requests_are_well_formed(line: Seq<char>)
    ensures
        decoded_request(line) matches Ok(request) ==> request.wf(),
{
}

/// A line that stands for nothing is refused for its own reason: the
/// empty line as empty, and a line whose first word is no tag as naming an
/// unknown variant.
pub proof fn refusals_say_why(line: Seq<char>)
    ensures
        decoded_request(line) == Err::<RequestView, ProtocolError>(ProtocolError::Empty)
            <==> body_of(line).len() == 0,
        decoded_response(line) == Err::<ResponseView, ProtocolError>(ProtocolError::Empty)
            <==> body_of(line).len() == 0,
{
}

} // verus!
