//! Encoding and decoding the lines that a client and the supervisor send
//! each other. What a line holds is defined in the module `format`.

use vstd::prelude::*;
use crate::format::{
    absent, body_of, bool_words, config_words, configs_words, decoded_request, decoded_response,
    entries_words, entry_words, info_items, info_words, infos_words, is_request_tag,
    is_response_tag, lemma_marks_differ, nat_words, opt_pairs_words, opt_str_words, opt_strs_words,
    opt_u32_words, opt_u64_words, pair_items, pairs_of, pairs_words, present, read_bool,
    read_config, read_configs, read_entries, read_entry, read_info, read_info_items, read_infos,
    read_nat, read_opt_pairs, read_opt_str, read_opt_strs, read_opt_u32, read_opt_u64, read_pairs,
    read_request, read_response, read_status, read_str, read_strs, read_u32, read_u64,
    request_line, request_words, response_line, response_words, status_words, str_words,
    strs_words, u32_words, u64_words, ConfigEntry, Words,
};
use crate::config::ProcessConfig;
use crate::decimal::{decimal, decimal_chars, parse_u64};
use crate::protocol::{
    ProcessInfo, ProcessInfoView, ProcessStatus, ProtocolError, Request, RequestView, Response,
    ResponseView,
};
use crate::text::{chars_of, string_of};
use crate::wire::{escape, escape_char, frame, scan, words_of};

verus! {

// ---------------------------------------------------------------------------
// Frames
// ---------------------------------------------------------------------------

fn push_escaped(word: &String, out: &mut Vec<char>)
    ensures
        final(out)@ == old(out)@ + escape(word@),
{
    let chars = chars_of(word.as_str());
    let mut i: usize = 0;
    assert(chars@.skip(0) == chars@);
    assert(out@ + Seq::<char>::empty() == out@);
    assert(escape(chars@.take(0)) == Seq::<char>::empty());
    while i < chars.len()
        invariant
            i <= chars.len(),
            chars@ == word@,
            out@ + escape(chars@.skip(i as int)) == old(out)@ + escape(chars@),
        decreases chars.len() - i,
    {
        let c = chars[i];
        let ghost rest = chars@.skip(i as int);
        let ghost before = out@;
        proof {
            assert(rest[0] == c);
            assert(rest.drop_first() == chars@.skip(i + 1));
            assert(escape(rest) == escape_char(c) + escape(chars@.skip(i + 1)));
        }
        if c == '\\' {
            out.push('\\');
            out.push('\\');
        } else if c == ' ' {
            out.push('\\');
            out.push('s');
        } else if c == '\n' {
            out.push('\\');
            out.push('n');
        } else {
            out.push(c);
        }
        proof {
            assert(out@ == before + escape_char(c));
            assert(before + escape_char(c) + escape(chars@.skip(i + 1)) == before + (escape_char(c)
                + escape(chars@.skip(i + 1))));
        }
        i += 1;
    }
    assert(escape(chars@.skip(chars.len() as int)) == Seq::<char>::empty());
    assert(out@ + Seq::<char>::empty() == out@);
}

/// The frame of `words`.
pub fn write_frame(words: &Vec<String>) -> (text: Vec<char>)
    ensures
        text@ == frame(words.deep_view()),
{
    let mut text: Vec<char> = Vec::new();
    let mut i: usize = 0;
    let ghost all = words.deep_view();
    assert(all.skip(0) == all);
    assert(text@ + frame(all) == frame(all));
    while i < words.len()
        invariant
            i <= words.len(),
            all == words.deep_view(),
            i < words.len() ==> text@ + frame(all.skip(i as int)) == frame(all),
            i == words.len() ==> text@ == frame(all),
        decreases words.len() - i,
    {
        let ghost rest = all.skip(i as int);
        let ghost before = text@;
        proof {
            assert(rest[0] == words[i as int]@);
            assert(rest.drop_first() == all.skip(i + 1));
        }
        push_escaped(&words[i], &mut text);
        if i + 1 < words.len() {
            text.push(' ');
            proof {
                assert(frame(rest) == escape(rest[0]) + seq![' '] + frame(all.skip(i + 1)));
                assert(text@ == before + escape(rest[0]) + seq![' ']);
                assert(text@ + frame(all.skip(i + 1)) == before + frame(rest));
            }
        } else {
            proof {
                assert(rest.len() == 1);
                assert(frame(rest) == escape(rest[0]));
            }
        }
        i += 1;
    }
    text
}

/// The words of the frame `text`, if it is one.
pub fn read_frame(text: &Vec<char>) -> (words: Option<Vec<String>>)
    ensures
        words.deep_view() == words_of(text@),
        words matches Some(list) ==> list.len() >= 1,
{
    let mut words: Vec<String> = Vec::new();
    let mut word: Vec<char> = Vec::new();
    let mut i: usize = 0;
    assert(words.deep_view() == Seq::<Seq<char>>::empty());
    while i < text.len()
        invariant
            i <= text.len(),
            scan(text@, i as int, word@, words.deep_view()) == words_of(text@),
        decreases text.len() - i,
    {
        let c = text[i];
        if c == ' ' {
            let ghost before = words.deep_view();
            words.push(string_of(&word));
            assert(words.deep_view() == before.push(word@));
            word = Vec::new();
            i += 1;
        } else if c == '\n' {
            return None;
        } else if c == '\\' {
            if i + 1 >= text.len() {
                return None;
            }
            let code = text[i + 1];
            if code == '\\' {
                word.push('\\');
            } else if code == 's' {
                word.push(' ');
            } else if code == 'n' {
                word.push('\n');
            } else {
                return None;
            }
            i += 2;
        } else {
            word.push(c);
            i += 1;
        }
    }
    let ghost before = words.deep_view();
    words.push(string_of(&word));
    assert(words.deep_view() == before.push(word@));
    Some(words)
}


// ---------------------------------------------------------------------------
// Writing values as words
// ---------------------------------------------------------------------------

fn put_literal(out: &mut Vec<String>, word: &str)
    ensures
        final(out).deep_view() == old(out).deep_view() + seq![word@],
{
    let ghost before = out.deep_view();
    out.push(String::from_str(word));
    assert(out.deep_view() == before.push(word@));
    assert(before.push(word@) == before + seq![word@]);
}

fn put_str(out: &mut Vec<String>, v: &String)
    ensures
        final(out).deep_view() == old(out).deep_view() + str_words(v@),
{
    let ghost before = out.deep_view();
    out.push(v.clone());
    assert(out.deep_view() == before.push(v@));
    assert(before.push(v@) == before + seq![v@]);
}

fn put_u64(out: &mut Vec<String>, n: u64)
    ensures
        final(out).deep_view() == old(out).deep_view() + nat_words(n as nat),
{
    let ghost before = out.deep_view();
    out.push(string_of(&decimal_chars(n)));
    assert(out.deep_view() == before.push(decimal(n as nat)));
    assert(before.push(decimal(n as nat)) == before + seq![decimal(n as nat)]);
}

fn put_bool(out: &mut Vec<String>, b: bool)
    ensures
        final(out).deep_view() == old(out).deep_view() + bool_words(b),
{
    if b {
        put_literal(out, "true");
    } else {
        put_literal(out, "false");
    }
}

fn put_status(out: &mut Vec<String>, status: ProcessStatus)
    ensures
        final(out).deep_view() == old(out).deep_view() + status_words(status),
{
    match status {
        ProcessStatus::Online => put_literal(out, "online"),
        ProcessStatus::Stopped => put_literal(out, "stopped"),
    }
}

fn put_opt_str(out: &mut Vec<String>, v: &Option<String>)
    ensures
        final(out).deep_view() == old(out).deep_view() + opt_str_words(v.deep_view()),
{
    let ghost before = out.deep_view();
    match v {
        None => put_literal(out, "-"),
        Some(s) => {
            put_literal(out, "+");
            put_str(out, s);
            assert(before + seq![present()] + str_words(s@) == before + (seq![present()]
                + str_words(s@)));
        },
    }
}

fn put_opt_u64(out: &mut Vec<String>, v: Option<u64>)
    ensures
        final(out).deep_view() == old(out).deep_view() + opt_u64_words(v),
{
    let ghost before = out.deep_view();
    match v {
        None => put_literal(out, "-"),
        Some(n) => {
            put_literal(out, "+");
            put_u64(out, n);
            assert(before + seq![present()] + u64_words(n) == before + (seq![present()]
                + u64_words(n)));
        },
    }
}

fn put_opt_u32(out: &mut Vec<String>, v: Option<u32>)
    ensures
        final(out).deep_view() == old(out).deep_view() + opt_u32_words(v),
{
    let ghost before = out.deep_view();
    match v {
        None => put_literal(out, "-"),
        Some(n) => {
            put_literal(out, "+");
            put_u64(out, n as u64);
            assert(before + seq![present()] + u32_words(n) == before + (seq![present()]
                + u32_words(n)));
        },
    }
}

fn put_strs(out: &mut Vec<String>, v: &Vec<String>)
    ensures
        final(out).deep_view() == old(out).deep_view() + strs_words(v.deep_view()),
{
    let ghost before = out.deep_view();
    let ghost list = v.deep_view();
    put_u64(out, v.len() as u64);
    let ghost counted = out.deep_view();
    let mut i: usize = 0;
    assert(counted + list.take(0) == counted);
    while i < v.len()
        invariant
            i <= v.len(),
            list == v.deep_view(),
            out.deep_view() == counted + list.take(i as int),
        decreases v.len() - i,
    {
        let ghost now = out.deep_view();
        out.push(v[i].clone());
        assert(out.deep_view() == now.push(list[i as int]));
        assert(now.push(list[i as int]) == counted + list.take(i + 1));
        i += 1;
    }
    assert(list.take(v.len() as int) == list);
    assert(before + nat_words(list.len()) + list == before + (nat_words(list.len()) + list));
}

fn put_pairs(out: &mut Vec<String>, v: &Vec<(String, String)>)
    ensures
        final(out).deep_view() == old(out).deep_view() + pairs_words(v.deep_view()),
{
    let ghost before = out.deep_view();
    let ghost list = v.deep_view();
    let ghost items = pair_items(list);
    put_u64(out, v.len() as u64);
    let ghost counted = out.deep_view();
    let mut i: usize = 0;
    assert(counted + items.take(0) == counted);
    while i < v.len()
        invariant
            i <= v.len(),
            list == v.deep_view(),
            items == pair_items(list),
            out.deep_view() == counted + items.take(2 * i),
        decreases v.len() - i,
    {
        let ghost now = out.deep_view();
        out.push(v[i].0.clone());
        out.push(v[i].1.clone());
        proof {
            assert((2 * i) % 2 == 0 && (2 * i) / 2 == i) by (nonlinear_arith)
                requires
                    i >= 0,
            ;
            assert((2 * i + 1) % 2 == 1 && (2 * i + 1) / 2 == i) by (nonlinear_arith)
                requires
                    i >= 0,
            ;
            assert(items[2 * i] == list[i as int].0);
            assert(items[2 * i + 1] == list[i as int].1);
            assert(out.deep_view() == now.push(list[i as int].0).push(list[i as int].1));
            assert(now.push(list[i as int].0).push(list[i as int].1) == counted + items.take(
                2 * (i + 1),
            ));
        }
        i += 1;
    }
    assert(items.take(2 * v.len()) == items);
    assert(before + nat_words(list.len()) + items == before + (nat_words(list.len()) + items));
}

fn put_opt_strs(out: &mut Vec<String>, v: &Option<Vec<String>>)
    ensures
        final(out).deep_view() == old(out).deep_view() + opt_strs_words(v.deep_view()),
{
    let ghost before = out.deep_view();
    match v {
        None => put_literal(out, "-"),
        Some(list) => {
            put_literal(out, "+");
            put_strs(out, list);
            assert(before + seq![present()] + strs_words(list.deep_view()) == before + (
            seq![present()] + strs_words(list.deep_view())));
        },
    }
}

fn put_opt_pairs(out: &mut Vec<String>, v: &Option<Vec<(String, String)>>)
    ensures
        final(out).deep_view() == old(out).deep_view() + opt_pairs_words(v.deep_view()),
{
    let ghost before = out.deep_view();
    match v {
        None => put_literal(out, "-"),
        Some(list) => {
            put_literal(out, "+");
            put_pairs(out, list);
            assert(before + seq![present()] + pairs_words(list.deep_view()) == before + (
            seq![present()] + pairs_words(list.deep_view())));
        },
    }
}

fn put_config(out: &mut Vec<String>, c: &ProcessConfig)
    ensures
        final(out).deep_view() == old(out).deep_view() + config_words(c@),
{
    let ghost before = out.deep_view();
    put_literal(out, "command");
    put_str(out, &c.command);
    put_literal(out, "cwd");
    put_opt_str(out, &c.cwd);
    put_literal(out, "env");
    put_opt_pairs(out, &c.env);
    put_literal(out, "group");
    put_opt_str(out, &c.group);
    put_literal(out, "kill_timeout");
    put_opt_u64(out, c.kill_timeout);
    put_literal(out, "extra");
    put_pairs(out, &c.extra);
    assert(out.deep_view() == before + config_words(c@));
}

fn put_configs(out: &mut Vec<String>, v: &Vec<(String, ProcessConfig)>)
    ensures
        final(out).deep_view() == old(out).deep_view() + configs_words(v.deep_view()),
{
    let ghost before = out.deep_view();
    let ghost list = v.deep_view();
    put_u64(out, v.len() as u64);
    let ghost counted = out.deep_view();
    let mut i: usize = 0;
    assert(list.skip(0) == list);
    while i < v.len()
        invariant
            i <= v.len(),
            list == v.deep_view(),
            out.deep_view() + entries_words(list.skip(i as int)) == counted + entries_words(list),
        decreases v.len() - i,
    {
        let ghost now = out.deep_view();
        let ghost rest = list.skip(i as int);
        put_literal(out, "name");
        put_str(out, &v[i].0);
        put_config(out, &v[i].1);
        proof {
            assert(rest[0] == list[i as int]);
            assert(rest.drop_first() == list.skip(i + 1));
            assert(out.deep_view() == now + entry_words(list[i as int]));
            assert(now + entry_words(rest[0]) + entries_words(list.skip(i + 1)) == now + (
            entry_words(rest[0]) + entries_words(list.skip(i + 1))));
        }
        i += 1;
    }
    proof {
        assert(entries_words(list.skip(v.len() as int)) == Seq::<Seq<char>>::empty());
        assert(out.deep_view() + Seq::<Seq<char>>::empty() == out.deep_view());
        assert(before + nat_words(list.len()) + entries_words(list) == before + (nat_words(
            list.len(),
        ) + entries_words(list)));
    }
}

fn put_info(out: &mut Vec<String>, info: &ProcessInfo)
    ensures
        final(out).deep_view() == old(out).deep_view() + info_words(info@),
{
    let ghost before = out.deep_view();
    put_literal(out, "name");
    put_str(out, &info.name);
    put_literal(out, "pid");
    put_opt_u32(out, info.pid);
    put_literal(out, "status");
    put_status(out, info.status);
    put_literal(out, "uptime_secs");
    put_opt_u64(out, info.uptime_secs);
    put_literal(out, "restarts");
    put_u64(out, info.restarts as u64);
    put_literal(out, "group");
    put_opt_str(out, &info.group);
    assert(out.deep_view() == before + info_words(info@));
}

fn put_infos(out: &mut Vec<String>, v: &Vec<ProcessInfo>)
    ensures
        final(out).deep_view() == old(out).deep_view() + infos_words(v.deep_view()),
{
    let ghost before = out.deep_view();
    let ghost list = v.deep_view();
    put_u64(out, v.len() as u64);
    let ghost counted = out.deep_view();
    let mut i: usize = 0;
    assert(list.skip(0) == list);
    while i < v.len()
        invariant
            i <= v.len(),
            list == v.deep_view(),
            out.deep_view() + info_items(list.skip(i as int)) == counted + info_items(list),
        decreases v.len() - i,
    {
        let ghost now = out.deep_view();
        let ghost rest = list.skip(i as int);
        put_info(out, &v[i]);
        proof {
            assert(rest[0] == list[i as int]);
            assert(rest.drop_first() == list.skip(i + 1));
            assert(now + info_words(rest[0]) + info_items(list.skip(i + 1)) == now + (info_words(
                rest[0],
            ) + info_items(list.skip(i + 1))));
        }
        i += 1;
    }
    proof {
        assert(info_items(list.skip(v.len() as int)) == Seq::<Seq<char>>::empty());
        assert(out.deep_view() + Seq::<Seq<char>>::empty() == out.deep_view());
        assert(before + nat_words(list.len()) + info_items(list) == before + (nat_words(
            list.len(),
        ) + info_items(list)));
    }
}

/// The words of a request.
pub fn request_to_words(request: &Request) -> (words: Vec<String>)
    ensures
        words.deep_view() == request_words(request@),
{
    let mut words: Vec<String> = Vec::new();
    assert(words.deep_view() == Seq::<Seq<char>>::empty());
    match request {
        Request::Start { configs, names, env } => {
            put_literal(&mut words, "start");
            put_literal(&mut words, "configs");
            put_configs(&mut words, configs);
            put_literal(&mut words, "names");
            put_opt_strs(&mut words, names);
            put_literal(&mut words, "env");
            put_opt_pairs(&mut words, env);
        },
        Request::Stop { names } => {
            put_literal(&mut words, "stop");
            put_literal(&mut words, "names");
            put_opt_strs(&mut words, names);
        },
        Request::Restart { names } => {
            put_literal(&mut words, "restart");
            put_literal(&mut words, "names");
            put_opt_strs(&mut words, names);
        },
        Request::List => {
            put_literal(&mut words, "list");
        },
        Request::Kill => {
            put_literal(&mut words, "kill");
        },
        Request::Log { name, lines, follow } => {
            put_literal(&mut words, "log");
            put_literal(&mut words, "name");
            put_opt_str(&mut words, name);
            put_literal(&mut words, "lines");
            put_u64(&mut words, *lines);
            put_literal(&mut words, "follow");
            put_bool(&mut words, *follow);
        },
    }
    assert(words.deep_view() == request_words(request@));
    words
}

/// The words of a response.
pub fn response_to_words(response: &Response) -> (words: Vec<String>)
    ensures
        words.deep_view() == response_words(response@),
{
    let mut words: Vec<String> = Vec::new();
    assert(words.deep_view() == Seq::<Seq<char>>::empty());
    match response {
        Response::Success { message } => {
            put_literal(&mut words, "success");
            put_literal(&mut words, "message");
            put_opt_str(&mut words, message);
        },
        Response::Error { message } => {
            put_literal(&mut words, "error");
            put_literal(&mut words, "message");
            put_str(&mut words, message);
        },
        Response::ProcessList { processes } => {
            put_literal(&mut words, "process_list");
            put_literal(&mut words, "processes");
            put_infos(&mut words, processes);
        },
        Response::ProcessDetail { info } => {
            put_literal(&mut words, "process_detail");
            put_literal(&mut words, "info");
            put_info(&mut words, info);
        },
        Response::LogLine { name, line } => {
            put_literal(&mut words, "log_line");
            put_literal(&mut words, "name");
            put_opt_str(&mut words, name);
            put_literal(&mut words, "line");
            put_str(&mut words, line);
        },
    }
    assert(words.deep_view() == response_words(response@));
    words
}

/// The line that `request` travels as.
pub fn encode_request(request: &Request) -> (line: String)
    ensures
        line@ == request_line(request@),
{
    let mut text = write_frame(&request_to_words(request));
    text.push('\n');
    string_of(&text)
}

/// The line that `response` travels as.
pub fn encode_response(response: &Response) -> (line: String)
    ensures
        line@ == response_line(response@),
{
    let mut text = write_frame(&response_to_words(response));
    text.push('\n');
    string_of(&text)
}


// ---------------------------------------------------------------------------
// Reading values from words
// ---------------------------------------------------------------------------

/// The words from position `at` on.
pub open spec fn words_from(words: &Vec<String>, at: usize) -> Words {
    words.deep_view().skip(at as int)
}

proof fn lemma_from(words: &Vec<String>, at: usize)
    requires
        at < words.len(),
    ensures
        words_from(words, at).len() == words.len() - at,
        words_from(words, at)[0] == words[at as int]@,
        words_from(words, at).drop_first() == words_from(words, (at + 1) as usize),
{
}

fn word_is(words: &Vec<String>, at: usize, literal: &str) -> (same: bool)
    requires
        at < words.len(),
    ensures
        same == (words_from(words, at)[0] == literal@),
{
    words[at] == String::from_str(literal)
}

/// Reads the name of a field: where the value of the field begins, if the
/// word at `at` is `name`.
fn take_key(words: &Vec<String>, at: usize, name: &str) -> (taken: Option<usize>)
    requires
        at <= words.len(),
    ensures
        match taken {
            Some(next) => next == at + 1 && next <= words.len() && words_from(words, at).len() > 0
                && words_from(words, at)[0] == name@ && words_from(words, at).drop_first()
                == words_from(words, next),
            None => !(words_from(words, at).len() > 0 && words_from(words, at)[0] == name@),
        },
{
    if at >= words.len() {
        return None;
    }
    proof {
        lemma_from(words, at);
    }
    if word_is(words, at, name) {
        Some(at + 1)
    } else {
        None
    }
}

fn take_str(words: &Vec<String>, at: usize) -> (taken: Option<(String, usize)>)
    requires
        at <= words.len(),
    ensures
        match taken {
            Some((v, next)) => at <= next <= words.len() && read_str(words_from(words, at)) == Some(
                (v@, words_from(words, next)),
            ),
            None => read_str(words_from(words, at)) is None,
        },
{
    if at < words.len() {
        proof {
            lemma_from(words, at);
        }
        Some((words[at].clone(), at + 1))
    } else {
        None
    }
}

/// Reads a number that is at most `limit`.
fn take_number(words: &Vec<String>, at: usize, limit: u64) -> (taken: Option<(u64, usize)>)
    requires
        at <= words.len(),
    ensures
        match taken {
            Some((n, next)) => next == at + 1 && next <= words.len() && n <= limit && read_nat(
                words_from(words, at),
            ) == Some((n as nat, words_from(words, next))),
            None => match read_nat(words_from(words, at)) {
                Some((n, rest)) => n > limit,
                None => true,
            },
        },
{
    if at < words.len() {
        proof {
            lemma_from(words, at);
        }
        let digits = chars_of(words[at].as_str());
        match parse_u64(&digits) {
            Some(n) => {
                if n <= limit {
                    Some((n, at + 1))
                } else {
                    None
                }
            },
            None => None,
        }
    } else {
        None
    }
}

fn take_u64(words: &Vec<String>, at: usize) -> (taken: Option<(u64, usize)>)
    requires
        at <= words.len(),
    ensures
        match taken {
            Some((v, next)) => at <= next <= words.len() && read_u64(words_from(words, at)) == Some(
                (v, words_from(words, next)),
            ),
            None => read_u64(words_from(words, at)) is None,
        },
{
    take_number(words, at, u64::MAX)
}

fn take_u32(words: &Vec<String>, at: usize) -> (taken: Option<(u32, usize)>)
    requires
        at <= words.len(),
    ensures
        match taken {
            Some((v, next)) => at <= next <= words.len() && read_u32(words_from(words, at)) == Some(
                (v, words_from(words, next)),
            ),
            None => read_u32(words_from(words, at)) is None,
        },
{
    match take_number(words, at, u32::MAX as u64) {
        Some((n, next)) => Some((n as u32, next)),
        None => None,
    }
}

fn take_bool(words: &Vec<String>, at: usize) -> (taken: Option<(bool, usize)>)
    requires
        at <= words.len(),
    ensures
        match taken {
            Some((v, next)) => at <= next <= words.len() && read_bool(words_from(words, at)) == Some(
                (v, words_from(words, next)),
            ),
            None => read_bool(words_from(words, at)) is None,
        },
{
    if at >= words.len() {
        return None;
    }
    proof {
        lemma_from(words, at);
    }
    if word_is(words, at, "true") {
        Some((true, at + 1))
    } else if word_is(words, at, "false") {
        Some((false, at + 1))
    } else {
        None
    }
}

fn take_status(words: &Vec<String>, at: usize) -> (taken: Option<(ProcessStatus, usize)>)
    requires
        at <= words.len(),
    ensures
        match taken {
            Some((v, next)) => at <= next <= words.len() && read_status(words_from(words, at)) == Some(
                (v, words_from(words, next)),
            ),
            None => read_status(words_from(words, at)) is None,
        },
{
    if at >= words.len() {
        return None;
    }
    proof {
        lemma_from(words, at);
    }
    if word_is(words, at, "online") {
        Some((ProcessStatus::Online, at + 1))
    } else if word_is(words, at, "stopped") {
        Some((ProcessStatus::Stopped, at + 1))
    } else {
        None
    }
}

/// Reads the mark of a value that may be absent: whether the value is
/// present.
fn take_mark(words: &Vec<String>, at: usize) -> (taken: Option<bool>)
    requires
        at <= words.len(),
    ensures
        match taken {
            Some(there) => at < words.len() && words_from(words, at)[0] == (if there {
                present()
            } else {
                absent()
            }) && words_from(words, at).drop_first() == words_from(words, (at + 1) as usize),
            None => !(words_from(words, at).len() > 0 && words_from(words, at)[0] == absent()) && !(words_from(
                words,
                at,
            ).len() > 0 && words_from(words, at)[0] == present()),
        },
{
    if at >= words.len() {
        return None;
    }
    proof {
        lemma_from(words, at);
        lemma_marks_differ();
    }
    if word_is(words, at, "-") {
        Some(false)
    } else if word_is(words, at, "+") {
        Some(true)
    } else {
        None
    }
}

fn take_opt_str(words: &Vec<String>, at: usize) -> (taken: Option<(Option<String>, usize)>)
    requires
        at <= words.len(),
    ensures
        match taken {
            Some((v, next)) => at <= next <= words.len() && read_opt_str(words_from(words, at)) == Some(
                (v.deep_view(), words_from(words, next)),
            ),
            None => read_opt_str(words_from(words, at)) is None,
        },
{
    proof {
        lemma_marks_differ();
    }
    match take_mark(words, at) {
        Some(true) => match take_str(words, at + 1) {
            Some((v, next)) => Some((Some(v), next)),
            None => None,
        },
        Some(false) => Some((None, at + 1)),
        None => None,
    }
}

fn take_opt_u64(words: &Vec<String>, at: usize) -> (taken: Option<(Option<u64>, usize)>)
    requires
        at <= words.len(),
    ensures
        match taken {
            Some((v, next)) => at <= next <= words.len() && read_opt_u64(words_from(words, at)) == Some(
                (v, words_from(words, next)),
            ),
            None => read_opt_u64(words_from(words, at)) is None,
        },
{
    proof {
        lemma_marks_differ();
    }
    match take_mark(words, at) {
        Some(true) => match take_u64(words, at + 1) {
            Some((v, next)) => Some((Some(v), next)),
            None => None,
        },
        Some(false) => Some((None, at + 1)),
        None => None,
    }
}

fn take_opt_u32(words: &Vec<String>, at: usize) -> (taken: Option<(Option<u32>, usize)>)
    requires
        at <= words.len(),
    ensures
        match taken {
            Some((v, next)) => at <= next <= words.len() && read_opt_u32(words_from(words, at)) == Some(
                (v, words_from(words, next)),
            ),
            None => read_opt_u32(words_from(words, at)) is None,
        },
{
    proof {
        lemma_marks_differ();
    }
    match take_mark(words, at) {
        Some(true) => match take_u32(words, at + 1) {
            Some((v, next)) => Some((Some(v), next)),
            None => None,
        },
        Some(false) => Some((None, at + 1)),
        None => None,
    }
}

/// Reads the length of a list whose items take at least `width` words
/// each: the list cannot be longer than the words that follow allow.
fn take_count(words: &Vec<String>, at: usize, width: usize) -> (taken: Option<(usize, usize)>)
    requires
        at <= words.len(),
        1 <= width <= 2,
    ensures
        match taken {
            Some((n, next)) => at < next <= words.len() && next == at + 1 && width * n
                <= words.len() - next && read_nat(words_from(words, at)) == Some(
                (n as nat, words_from(words, next)),
            ),
            None => match read_nat(words_from(words, at)) {
                Some((n, rest)) => width * n > rest.len(),
                None => true,
            },
        },
{
    if at >= words.len() {
        return None;
    }
    proof {
        lemma_from(words, at);
    }
    let room = (words.len() - (at + 1)) / width;
    assert(width * room <= words.len() - (at + 1)) by (nonlinear_arith)
        requires
            room == (words.len() - (at + 1)) / (width as int),
            width >= 1,
            words.len() - (at + 1) >= 0,
    ;
    match take_number(words, at, room as u64) {
        Some((n, next)) => {
            assert(width * n <= width * room) by (nonlinear_arith)
                requires
                    n <= room,
                    width >= 1,
            ;
            Some((n as usize, next))
        },
        None => {
            proof {
                match read_nat(words_from(words, at)) {
                    Some((n, rest)) => {
                        assert(n >= room + 1);
                        assert(width * n > rest.len()) by (nonlinear_arith)
                            requires
                                n >= room + 1,
                                room == rest.len() / (width as nat),
                                1 <= width <= 2,
                        ;
                    },
                    None => {},
                }
            }
            None
        },
    }
}

fn take_strs(words: &Vec<String>, at: usize) -> (taken: Option<(Vec<String>, usize)>)
    requires
        at <= words.len(),
    ensures
        match taken {
            Some((v, next)) => at <= next <= words.len() && read_strs(words_from(words, at)) == Some(
                (v.deep_view(), words_from(words, next)),
            ),
            None => read_strs(words_from(words, at)) is None,
        },
{
    match take_count(words, at, 1) {
        Some((n, first)) => {
            let mut list: Vec<String> = Vec::new();
            let mut i: usize = 0;
            let ghost rest = words_from(words, first);
            while i < n
                invariant
                    i <= n,
                    first + n <= words.len(),
                    rest == words_from(words, first),
                    list.deep_view() == rest.take(i as int),
                decreases n - i,
            {
                let ghost before = list.deep_view();
                list.push(words[first + i].clone());
                assert(list.deep_view() == before.push(rest[i as int]));
                i += 1;
            }
            assert(rest.skip(n as int) == words_from(words, (first + n) as usize));
            Some((list, first + n))
        },
        None => None,
    }
}

fn take_pairs(words: &Vec<String>, at: usize) -> (taken: Option<(Vec<(String, String)>, usize)>)
    requires
        at <= words.len(),
    ensures
        match taken {
            Some((v, next)) => at <= next <= words.len() && read_pairs(words_from(words, at)) == Some(
                (v.deep_view(), words_from(words, next)),
            ),
            None => read_pairs(words_from(words, at)) is None,
        },
{
    match take_count(words, at, 2) {
        Some((n, first)) => {
            let mut list: Vec<(String, String)> = Vec::new();
            let mut i: usize = 0;
            let ghost rest = words_from(words, first);
            while i < n
                invariant
                    i <= n,
                    first + 2 * n <= words.len(),
                    rest == words_from(words, first),
                    list.deep_view() == pairs_of(rest, n as nat).take(i as int),
                decreases n - i,
            {
                let ghost before = list.deep_view();
                list.push((words[first + 2 * i].clone(), words[first + 2 * i + 1].clone()));
                assert(list.deep_view() == before.push((rest[2 * i], rest[2 * i + 1])));
                i += 1;
            }
            assert(pairs_of(rest, n as nat).take(n as int) == pairs_of(rest, n as nat));
            assert(rest.skip(2 * n as int) == words_from(words, (first + 2 * n) as usize));
            Some((list, first + 2 * n))
        },
        None => None,
    }
}

fn take_opt_strs(words: &Vec<String>, at: usize) -> (taken: Option<(Option<Vec<String>>, usize)>)
    requires
        at <= words.len(),
    ensures
        match taken {
            Some((v, next)) => at <= next <= words.len() && read_opt_strs(words_from(words, at))
                == Some((v.deep_view(), words_from(words, next))),
            None => read_opt_strs(words_from(words, at)) is None,
        },
{
    proof {
        lemma_marks_differ();
    }
    match take_mark(words, at) {
        Some(true) => match take_strs(words, at + 1) {
            Some((v, next)) => Some((Some(v), next)),
            None => None,
        },
        Some(false) => Some((None, at + 1)),
        None => None,
    }
}

fn take_opt_pairs(words: &Vec<String>, at: usize) -> (taken: Option<
    (Option<Vec<(String, String)>>, usize),
>)
    requires
        at <= words.len(),
    ensures
        match taken {
            Some((v, next)) => at <= next <= words.len() && read_opt_pairs(words_from(words, at))
                == Some((v.deep_view(), words_from(words, next))),
            None => read_opt_pairs(words_from(words, at)) is None,
        },
{
    proof {
        lemma_marks_differ();
    }
    match take_mark(words, at) {
        Some(true) => match take_pairs(words, at + 1) {
            Some((v, next)) => Some((Some(v), next)),
            None => None,
        },
        Some(false) => Some((None, at + 1)),
        None => None,
    }
}


fn take_config(words: &Vec<String>, at: usize) -> (taken: Option<(ProcessConfig, usize)>)
    requires
        at <= words.len(),
    ensures
        match taken {
            Some((v, next)) => at <= next <= words.len() && read_config(words_from(words, at))
                == Some((v@, words_from(words, next))),
            None => read_config(words_from(words, at)) is None,
        },
{
    proof {
        reveal(read_config);
    }
    let at = match take_key(words, at, "command") {
        Some(next) => next,
        None => {
            return None;
        },
    };
    let (command, at) = match take_str(words, at) {
        Some(taken) => taken,
        None => {
            return None;
        },
    };
    let at = match take_key(words, at, "cwd") {
        Some(next) => next,
        None => {
            return None;
        },
    };
    let (cwd, at) = match take_opt_str(words, at) {
        Some(taken) => taken,
        None => {
            return None;
        },
    };
    let at = match take_key(words, at, "env") {
        Some(next) => next,
        None => {
            return None;
        },
    };
    let (env, at) = match take_opt_pairs(words, at) {
        Some(taken) => taken,
        None => {
            return None;
        },
    };
    let at = match take_key(words, at, "group") {
        Some(next) => next,
        None => {
            return None;
        },
    };
    let (group, at) = match take_opt_str(words, at) {
        Some(taken) => taken,
        None => {
            return None;
        },
    };
    let at = match take_key(words, at, "kill_timeout") {
        Some(next) => next,
        None => {
            return None;
        },
    };
    let (kill_timeout, at) = match take_opt_u64(words, at) {
        Some(taken) => taken,
        None => {
            return None;
        },
    };
    let at = match take_key(words, at, "extra") {
        Some(next) => next,
        None => {
            return None;
        },
    };
    let (extra, at) = match take_pairs(words, at) {
        Some(taken) => taken,
        None => {
            return None;
        },
    };
    Some((ProcessConfig { command, cwd, env, group, kill_timeout, extra }, at))
}

fn take_entry(words: &Vec<String>, at: usize) -> (taken: Option<((String, ProcessConfig), usize)>)
    requires
        at <= words.len(),
    ensures
        match taken {
            Some((v, next)) => at <= next <= words.len() && read_entry(words_from(words, at)) == Some(
                (v.deep_view(), words_from(words, next)),
            ),
            None => read_entry(words_from(words, at)) is None,
        },
{
    let at = match take_key(words, at, "name") {
        Some(next) => next,
        None => {
            return None;
        },
    };
    match take_str(words, at) {
        Some((name, after_name)) => match take_config(words, after_name) {
            Some((config, next)) => Some(((name, config), next)),
            None => None,
        },
        None => None,
    }
}

fn take_configs(words: &Vec<String>, at: usize) -> (taken: Option<
    (Vec<(String, ProcessConfig)>, usize),
>)
    requires
        at <= words.len(),
    ensures
        match taken {
            Some((v, next)) => at <= next <= words.len() && read_configs(words_from(words, at)) == Some(
                (v.deep_view(), words_from(words, next)),
            ),
            None => read_configs(words_from(words, at)) is None,
        },
{
    let (n, first) = match take_count(words, at, 1) {
        Some(taken) => taken,
        None => {
            return None;
        },
    };
    let mut list: Vec<(String, ProcessConfig)> = Vec::new();
    let mut i: usize = 0;
    let mut cur: usize = first;
    proof {
        assert(list.deep_view() == Seq::<ConfigEntry>::empty());
        match read_entries(words_from(words, first), n as nat) {
            Some((more, rest)) => {
                assert(list.deep_view() + more == more);
            },
            None => {},
        }
    }
    while i < n
        invariant
            i <= n,
            first <= cur <= words.len(),
            read_configs(words_from(words, at)) == read_entries(words_from(words, first), n as nat),
            read_entries(words_from(words, first), n as nat) == (match read_entries(
                words_from(words, cur),
                (n - i) as nat,
            ) {
                Some((more, rest)) => Some((list.deep_view() + more, rest)),
                None => None,
            }),
        decreases n - i,
    {
        match take_entry(words, cur) {
            Some((entry, next)) => {
                let ghost before = list.deep_view();
                let ghost first_entry = entry.deep_view();
                list.push(entry);
                proof {
                    assert(list.deep_view() == before.push(first_entry));
                    match read_entries(words_from(words, next), (n - i - 1) as nat) {
                        Some((more, rest)) => {
                            assert(before + (seq![first_entry] + more) == before.push(first_entry)
                                + more);
                        },
                        None => {},
                    }
                }
                cur = next;
                i += 1;
            },
            None => {
                return None;
            },
        }
    }
    proof {
        assert(list.deep_view() + Seq::<ConfigEntry>::empty() == list.deep_view());
    }
    Some((list, cur))
}

fn take_info(words: &Vec<String>, at: usize) -> (taken: Option<(ProcessInfo, usize)>)
    requires
        at <= words.len(),
    ensures
        match taken {
            Some((v, next)) => at <= next <= words.len() && read_info(words_from(words, at))
                == Some((v@, words_from(words, next))),
            None => read_info(words_from(words, at)) is None,
        },
{
    proof {
        reveal(read_info);
    }
    let at = match take_key(words, at, "name") {
        Some(next) => next,
        None => {
            return None;
        },
    };
    let (name, at) = match take_str(words, at) {
        Some(taken) => taken,
        None => {
            return None;
        },
    };
    let at = match take_key(words, at, "pid") {
        Some(next) => next,
        None => {
            return None;
        },
    };
    let (pid, at) = match take_opt_u32(words, at) {
        Some(taken) => taken,
        None => {
            return None;
        },
    };
    let at = match take_key(words, at, "status") {
        Some(next) => next,
        None => {
            return None;
        },
    };
    let (status, at) = match take_status(words, at) {
        Some(taken) => taken,
        None => {
            return None;
        },
    };
    let at = match take_key(words, at, "uptime_secs") {
        Some(next) => next,
        None => {
            return None;
        },
    };
    let (uptime_secs, at) = match take_opt_u64(words, at) {
        Some(taken) => taken,
        None => {
            return None;
        },
    };
    let at = match take_key(words, at, "restarts") {
        Some(next) => next,
        None => {
            return None;
        },
    };
    let (restarts, at) = match take_u32(words, at) {
        Some(taken) => taken,
        None => {
            return None;
        },
    };
    let at = match take_key(words, at, "group") {
        Some(next) => next,
        None => {
            return None;
        },
    };
    let (group, at) = match take_opt_str(words, at) {
        Some(taken) => taken,
        None => {
            return None;
        },
    };
    Some((ProcessInfo { name, pid, status, uptime_secs, restarts, group }, at))
}

fn take_infos(words: &Vec<String>, at: usize) -> (taken: Option<(Vec<ProcessInfo>, usize)>)
    requires
        at <= words.len(),
    ensures
        match taken {
            Some((v, next)) => at <= next <= words.len() && read_infos(words_from(words, at)) == Some(
                (v.deep_view(), words_from(words, next)),
            ),
            None => read_infos(words_from(words, at)) is None,
        },
{
    let (n, first) = match take_count(words, at, 1) {
        Some(taken) => taken,
        None => {
            return None;
        },
    };
    let mut list: Vec<ProcessInfo> = Vec::new();
    let mut i: usize = 0;
    let mut cur: usize = first;
    proof {
        assert(list.deep_view() == Seq::<ProcessInfoView>::empty());
        match read_info_items(words_from(words, first), n as nat) {
            Some((more, rest)) => {
                assert(list.deep_view() + more == more);
            },
            None => {},
        }
    }
    while i < n
        invariant
            i <= n,
            first <= cur <= words.len(),
            read_infos(words_from(words, at)) == read_info_items(words_from(words, first), n as nat),
            read_info_items(words_from(words, first), n as nat) == (match read_info_items(
                words_from(words, cur),
                (n - i) as nat,
            ) {
                Some((more, rest)) => Some((list.deep_view() + more, rest)),
                None => None,
            }),
        decreases n - i,
    {
        match take_info(words, cur) {
            Some((info, next)) => {
                let ghost before = list.deep_view();
                let ghost first_info = info@;
                list.push(info);
                proof {
                    assert(list.deep_view() == before.push(first_info));
                    match read_info_items(words_from(words, next), (n - i - 1) as nat) {
                        Some((more, rest)) => {
                            assert(before + (seq![first_info] + more) == before.push(first_info)
                                + more);
                        },
                        None => {},
                    }
                }
                cur = next;
                i += 1;
            },
            None => {
                return None;
            },
        }
    }
    proof {
        assert(list.deep_view() + Seq::<ProcessInfoView>::empty() == list.deep_view());
    }
    Some((list, cur))
}

/// The mathematical content of a request that was read.
pub open spec fn taken_request(taken: Option<(Request, usize)>, words: &Vec<String>) -> Option<
    (RequestView, Words),
> {
    match taken {
        Some((request, next)) => Some((request@, words_from(words, next))),
        None => None,
    }
}

fn take_request(words: &Vec<String>) -> (taken: Option<(Request, usize)>)
    requires
        words.len() >= 1,
    ensures
        taken_request(taken, words) == read_request(words.deep_view()),
        taken matches Some((request, next)) ==> next <= words.len(),
{
    proof {
        lemma_from(words, 0);
        assert(words_from(words, 0) == words.deep_view());
    }
    if word_is(words, 0, "start") {
        let at = match take_key(words, 1, "configs") {
            Some(next) => next,
            None => {
                return None;
            },
        };
        let (configs, at) = match take_configs(words, at) {
            Some(taken) => taken,
            None => {
                return None;
            },
        };
        let at = match take_key(words, at, "names") {
            Some(next) => next,
            None => {
                return None;
            },
        };
        let (names, at) = match take_opt_strs(words, at) {
            Some(taken) => taken,
            None => {
                return None;
            },
        };
        let at = match take_key(words, at, "env") {
            Some(next) => next,
            None => {
                return None;
            },
        };
        match take_opt_pairs(words, at) {
            Some((env, next)) => Some((Request::Start { configs, names, env }, next)),
            None => None,
        }
    } else if word_is(words, 0, "stop") {
        let at = match take_key(words, 1, "names") {
            Some(next) => next,
            None => {
                return None;
            },
        };
        match take_opt_strs(words, at) {
            Some((names, next)) => Some((Request::Stop { names }, next)),
            None => None,
        }
    } else if word_is(words, 0, "restart") {
        let at = match take_key(words, 1, "names") {
            Some(next) => next,
            None => {
                return None;
            },
        };
        match take_opt_strs(words, at) {
            Some((names, next)) => Some((Request::Restart { names }, next)),
            None => None,
        }
    } else if word_is(words, 0, "list") {
        Some((Request::List, 1))
    } else if word_is(words, 0, "kill") {
        Some((Request::Kill, 1))
    } else if word_is(words, 0, "log") {
        let at = match take_key(words, 1, "name") {
            Some(next) => next,
            None => {
                return None;
            },
        };
        let (name, at) = match take_opt_str(words, at) {
            Some(taken) => taken,
            None => {
                return None;
            },
        };
        let at = match take_key(words, at, "lines") {
            Some(next) => next,
            None => {
                return None;
            },
        };
        let (lines, at) = match take_u64(words, at) {
            Some(taken) => taken,
            None => {
                return None;
            },
        };
        let at = match take_key(words, at, "follow") {
            Some(next) => next,
            None => {
                return None;
            },
        };
        match take_bool(words, at) {
            Some((follow, next)) => Some((Request::Log { name, lines, follow }, next)),
            None => None,
        }
    } else {
        None
    }
}

/// The mathematical content of a response that was read.
pub open spec fn taken_response(taken: Option<(Response, usize)>, words: &Vec<String>) -> Option<
    (ResponseView, Words),
> {
    match taken {
        Some((response, next)) => Some((response@, words_from(words, next))),
        None => None,
    }
}

fn take_response(words: &Vec<String>) -> (taken: Option<(Response, usize)>)
    requires
        words.len() >= 1,
    ensures
        taken_response(taken, words) == read_response(words.deep_view()),
        taken matches Some((response, next)) ==> next <= words.len(),
{
    proof {
        lemma_from(words, 0);
        assert(words_from(words, 0) == words.deep_view());
    }
    if word_is(words, 0, "success") {
        let at = match take_key(words, 1, "message") {
            Some(next) => next,
            None => {
                return None;
            },
        };
        match take_opt_str(words, at) {
            Some((message, next)) => Some((Response::Success { message }, next)),
            None => None,
        }
    } else if word_is(words, 0, "error") {
        let at = match take_key(words, 1, "message") {
            Some(next) => next,
            None => {
                return None;
            },
        };
        match take_str(words, at) {
            Some((message, next)) => Some((Response::Error { message }, next)),
            None => None,
        }
    } else if word_is(words, 0, "process_list") {
        let at = match take_key(words, 1, "processes") {
            Some(next) => next,
            None => {
                return None;
            },
        };
        match take_infos(words, at) {
            Some((processes, next)) => Some((Response::ProcessList { processes }, next)),
            None => None,
        }
    } else if word_is(words, 0, "process_detail") {
        let at = match take_key(words, 1, "info") {
            Some(next) => next,
            None => {
                return None;
            },
        };
        match take_info(words, at) {
            Some((info, next)) => Some((Response::ProcessDetail { info }, next)),
            None => None,
        }
    } else if word_is(words, 0, "log_line") {
        let at = match take_key(words, 1, "name") {
            Some(next) => next,
            None => {
                return None;
            },
        };
        let (name, at) = match take_opt_str(words, at) {
            Some(taken) => taken,
            None => {
                return None;
            },
        };
        let at = match take_key(words, at, "line") {
            Some(next) => next,
            None => {
                return None;
            },
        };
        match take_str(words, at) {
            Some((line, next)) => Some((Response::LogLine { name, line }, next)),
            None => None,
        }
    } else {
        None
    }
}

fn is_request_word(word: &String) -> (known: bool)
    ensures
        known == is_request_tag(word@),
{
    *word == String::from_str("start") || *word == String::from_str("stop") || *word
        == String::from_str("restart") || *word == String::from_str("list") || *word
        == String::from_str("kill") || *word == String::from_str("log")
}

fn is_response_word(word: &String) -> (known: bool)
    ensures
        known == is_response_tag(word@),
{
    *word == String::from_str("success") || *word == String::from_str("error") || *word
        == String::from_str("process_list") || *word == String::from_str("process_detail")
        || *word == String::from_str("log_line")
}

/// The characters of `line` without the line feed at its end, if it has
/// one.
fn body_chars(line: &str) -> (body: Vec<char>)
    ensures
        body@ == body_of(line@),
{
    let mut body = chars_of(line);
    let n = body.len();
    if n > 0 && body[n - 1] == '\n' {
        body.pop();
    }
    body
}

/// The mathematical content of a decoded request.
pub open spec fn request_result(decoded: Result<Request, ProtocolError>) -> Result<
    RequestView,
    ProtocolError,
> {
    match decoded {
        Ok(request) => Ok(request@),
        Err(error) => Err(error),
    }
}

/// The mathematical content of a decoded response.
pub open spec fn response_result(decoded: Result<Response, ProtocolError>) -> Result<
    ResponseView,
    ProtocolError,
> {
    match decoded {
        Ok(response) => Ok(response@),
        Err(error) => Err(error),
    }
}

/// The request that `line` stands for, or why it stands for none. The
/// line feed at the end of the line may be missing.
pub fn decode_request(line: &str) -> (decoded: Result<Request, ProtocolError>)
    ensures
        request_result(decoded) == decoded_request(line@),
{
    let body = body_chars(line);
    if body.len() == 0 {
        return Err(ProtocolError::Empty);
    }
    let words = match read_frame(&body) {
        Some(words) => words,
        None => {
            return Err(ProtocolError::Malformed);
        },
    };
    proof {
        lemma_from(&words, 0);
        assert(words_from(&words, 0) == words.deep_view());
    }
    if !is_request_word(&words[0]) {
        return Err(ProtocolError::UnknownVariant);
    }
    match take_request(&words) {
        Some((request, next)) => {
            if next == words.len() && request.is_well_formed() {
                Ok(request)
            } else {
                Err(ProtocolError::Malformed)
            }
        },
        None => Err(ProtocolError::Malformed),
    }
}

/// The response that `line` stands for, or why it stands for none. The
/// line feed at the end of the line may be missing.
pub fn decode_response(line: &str) -> (decoded: Result<Response, ProtocolError>)
    ensures
        response_result(decoded) == decoded_response(line@),
{
    let body = body_chars(line);
    if body.len() == 0 {
        return Err(ProtocolError::Empty);
    }
    let words = match read_frame(&body) {
        Some(words) => words,
        None => {
            return Err(ProtocolError::Malformed);
        },
    };
    proof {
        lemma_from(&words, 0);
        assert(words_from(&words, 0) == words.deep_view());
    }
    if !is_response_word(&words[0]) {
        return Err(ProtocolError::UnknownVariant);
    }
    match take_response(&words) {
        Some((response, next)) => {
            if next == words.len() {
                Ok(response)
            } else {
                Err(ProtocolError::Malformed)
            }
        },
        None => Err(ProtocolError::Malformed),
    }
}

} // verus!
