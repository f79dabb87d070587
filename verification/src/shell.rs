//! Where the UI finds its server: what the desktop shell injects, and what the user
//! typed.

use vstd::prelude::*;
use crate::normalize::{read_url, url_read};
use crate::text::{replace, trim, trimmed, with_replaced};

verus! {

/// The configured server: that of the environment, else that of the file where it is not
/// blank.
pub open spec fn server_of(env: Option<Seq<char>>, file: Option<Seq<char>>) -> Option<Seq<char>> {
    match env {
        Some(url) => Some(trimmed(url)),
        None => match file {
            Some(raw) => if trimmed(raw).len() == 0 {
                None
            } else {
                Some(trimmed(raw))
            },
            None => None,
        },
    }
}

/// The configured server, from the environment variable and the file's content.
pub fn configured_server(env: Option<String>, file: Option<String>) -> (r: Option<String>)
    ensures
        r.deep_view() == server_of(env.deep_view(), file.deep_view()),
{
    match env {
        Some(url) => Some(trim(url.as_str())),
        None => match file {
            Some(raw) => {
                let url = trim(raw.as_str());
                if url.as_str().is_empty() {
                    None
                } else {
                    Some(url)
                }
            },
            None => None,
        },
    }
}

/// A text as it stands inside single quotes in a script.
pub open spec fn in_quotes(s: Seq<char>) -> Seq<char> {
    with_replaced(with_replaced(s, '\\', "\\\\"@), '\'', "\\'"@)
}

/// The script that tells the UI where its server is.
pub open spec fn script_for(server: Seq<char>) -> Seq<char> {
    "window.FERRET_API_BASE = '"@ + in_quotes(server) + "';"@
}

/// The script that tells the UI where its server is; none where none is configured or it
/// is no URL.
pub fn init_script(server: Option<String>) -> (r: Option<String>)
    ensures
        r.deep_view() == match server.deep_view() {
            Some(s) => if url_read(s) is Some {
                Some(script_for(s))
            } else {
                None
            },
            None => None,
        },
{
    match server {
        Some(s) => {
            if read_url(s.as_str()).is_none() {
                return None;
            }
            let escaped = replace(replace(s.as_str(), '\\', "\\\\").as_str(), '\'', "\\'");
            let mut out = "window.FERRET_API_BASE = '".to_owned();
            out.append(escaped.as_str());
            out.append("';");
            Some(out)
        },
        None => None,
    }
}

/// The server address to keep: what is typed, trimmed, where it is a URL; else the UI
/// finds its server by itself again.
pub fn server_override(input: &str) -> (r: Option<String>)
    ensures
        r.deep_view() == if trimmed(input@).len() > 0 && url_read(trimmed(input@)) is Some {
            Some(trimmed(input@))
        } else {
            None
        },
{
    let url = trim(input);
    if url.as_str().is_empty() || read_url(url.as_str()).is_none() {
        None
    } else {
        Some(url)
    }
}

/// What a script reads between single quotes: a backslash stands for the character behind
/// it.
pub open spec fn read_quoted(s: Seq<char>) -> Seq<char>
    decreases s.len(),
{
    if s.len() == 0 {
        Seq::empty()
    } else if s[0] == '\\' && s.len() >= 2 {
        seq![s[1]] + read_quoted(s.skip(2))
    } else {
        seq![s[0]] + read_quoted(s.drop_first())
    }
}

/// Whether a quote stands in `s` that no backslash escapes.
pub open spec fn closes_early(s: Seq<char>) -> bool
    decreases s.len(),
{
    if s.len() == 0 {
        false
    } else if s[0] == '\\' && s.len() >= 2 {
        closes_early(s.skip(2))
    } else {
        s[0] == '\'' || closes_early(s.drop_first())
    }
}

proof fn replaced_in_parts(a: Seq<char>, b: Seq<char>, from: char, to: Seq<char>)
    ensures
        with_replaced(a + b, from, to) == with_replaced(a, from, to) + with_replaced(b, from, to),
    decreases b.len(),
{
    let s = a + b;
    if b.len() == 0 {
        assert(s =~= a);
        assert(with_replaced(b, from, to) =~= Seq::empty());
        assert(with_replaced(a, from, to) + Seq::<char>::empty() =~= with_replaced(a, from, to));
    } else {
        replaced_in_parts(a, b.drop_last(), from, to);
        assert(s.drop_last() =~= a + b.drop_last());
        let end = if b.last() == from { to } else { seq![b.last()] };
        let x = with_replaced(a, from, to);
        let y = with_replaced(b.drop_last(), from, to);
        assert((x + y) + end =~= x + (y + end));
    }
}

proof fn quoted_first(s: Seq<char>)
    requires
        s.len() > 0,
    ensures
        in_quotes(s) == (if s[0] == '\\' || s[0] == '\'' {
            seq!['\\', s[0]]
        } else {
            seq![s[0]]
        }) + in_quotes(s.drop_first()),
{
    reveal_strlit("\\\\");
    reveal_strlit("\\'");
    reveal_with_fuel(with_replaced, 3);
    let c = seq![s[0]];
    let rest = s.drop_first();
    assert(s =~= c + rest);
    replaced_in_parts(c, rest, '\\', "\\\\"@);
    let first = with_replaced(c, '\\', "\\\\"@);
    let second = with_replaced(rest, '\\', "\\\\"@);
    replaced_in_parts(first, second, '\'', "\\'"@);
    assert(c.drop_last() =~= Seq::empty());
    assert("\\\\"@ =~= seq!['\\', '\\']);
    assert("\\'"@ =~= seq!['\\', '\'']);
    if s[0] == '\\' {
        assert(first =~= seq!['\\', '\\']);
        assert(first.drop_last() =~= seq!['\\']);
        assert(first.drop_last().drop_last() =~= Seq::empty());
        assert(with_replaced(first, '\'', "\\'"@) =~= seq!['\\', '\\']);
    } else {
        assert(first =~= c);
        if s[0] == '\'' {
            assert(with_replaced(c, '\'', "\\'"@) =~= seq!['\\', '\'']);
        } else {
            assert(with_replaced(c, '\'', "\\'"@) =~= c);
        }
    }
}

/// The script carries the address: between its quotes it reads exactly that, and no quote
/// in the address ends it early.
pub proof fn the_script_carries_the_address(server: Seq<char>)
    ensures
        read_quoted(in_quotes(server)) == server,
        !closes_early(in_quotes(server)),
    decreases server.len(),
{
    if server.len() == 0 {
        assert(in_quotes(server) =~= Seq::empty());
        assert(server =~= Seq::empty());
    } else {
        let rest = server.drop_first();
        quoted_first(server);
        the_script_carries_the_address(rest);
        let q = in_quotes(server);
        let tail = in_quotes(rest);
        if server[0] == '\\' || server[0] == '\'' {
            assert(q.skip(2) =~= tail);
        } else {
            assert(q.drop_first() =~= tail);
        }
        assert(server =~= seq![server[0]] + rest);
    }
}

/// The server of the environment goes before that of the file, of which a blank one counts
/// for nothing; either is taken without the white space around it.
pub proof fn the_environment_goes_first(env: Option<Seq<char>>, file: Option<Seq<char>>)
    ensures
        env matches Some(url) ==> server_of(env, file) == Some(trimmed(url)),
        env is None && file is None ==> server_of(env, file) is None,
        env is None && file is Some ==> (server_of(env, file) is Some <==> trimmed(file->0).len()
            > 0),
        env is None && server_of(env, file) is Some ==> server_of(env, file) == Some(
            trimmed(file->0),
        ),
{
}

/// The script sets the address, and nothing else.
pub proof fn the_script_sets_the_address(server: Seq<char>)
    ensures
        script_for(server) == "window.FERRET_API_BASE = '"@ + in_quotes(server) + "';"@,
{
}

} // verus!
