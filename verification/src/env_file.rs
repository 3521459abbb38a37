//! The `.env` file that noalbs reads its credentials from.
//!
//! Four keys are managed here; every other line of the file (comments, blank
//! lines, keys this library does not know) is kept as it is, in its place.
use vstd::prelude::*;

use crate::text::{
    chars_of, join_exec, join_lines, lines, lines_exec, slice_of, same_chars, split_once, split_once_exec, string_from,
    trim, trim_chars, trim_start, trim_start_index,
};

verus! {

/// The `.env` values the GUI manages. Other lines in the file are preserved.
#[derive(Debug, Clone, PartialEq)]
pub struct EnvValues {
    pub twitch_bot_username: Option<String>,
    pub twitch_bot_oauth: Option<String>,
    pub api_port: Option<String>,
    pub log_dir: Option<String>,
}

/// The characters of an optional string.
pub open spec fn opt_view(o: Option<String>) -> Option<Seq<char>> {
    match o {
        Some(s) => Some(s@),
        None => None,
    }
}

impl EnvValues {
    /// The four managed values, in the order of `managed_keys()`.
    pub open spec fn slots(&self) -> Seq<Option<Seq<char>>> {
        seq![
            opt_view(self.twitch_bot_username),
            opt_view(self.twitch_bot_oauth),
            opt_view(self.api_port),
            opt_view(self.log_dir),
        ]
    }

    /// The value held for the managed key with index `i`.
    fn slot(&self, i: usize) -> (r: &Option<String>)
        requires
            i < 4,
        ensures
            opt_view(*r) == self.slots()[i as int],
    {
        if i == 0 {
            &self.twitch_bot_username
        } else if i == 1 {
            &self.twitch_bot_oauth
        } else if i == 2 {
            &self.api_port
        } else {
            &self.log_dir
        }
    }

    /// Stores `value` as the managed value with index `i`.
    fn set_slot(&mut self, i: usize, value: Option<String>)
        requires
            i < 4,
        ensures
            final(self).slots() == old(self).slots().update(i as int, opt_view(value)),
    {
        if i == 0 {
            self.twitch_bot_username = value;
        } else if i == 1 {
            self.twitch_bot_oauth = value;
        } else if i == 2 {
            self.api_port = value;
        } else {
            self.log_dir = value;
        }
        assert(self.slots() =~= old(self).slots().update(i as int, opt_view(value)));
    }
}

impl Default for EnvValues {
    fn default() -> (r: Self)
        ensures
            r.slots() == seq![None::<Seq<char>>, None, None, None],
    {
        let r = EnvValues { twitch_bot_username: None, twitch_bot_oauth: None, api_port: None, log_dir: None };
        assert(r.slots() =~= seq![None::<Seq<char>>, None, None, None]);
        r
    }
}

/// The keys managed in the `.env` file, in the order in which missing ones are
/// appended.
pub open spec fn managed_keys() -> Seq<Seq<char>> {
    seq!["TWITCH_BOT_USERNAME"@, "TWITCH_BOT_OAUTH"@, "API_PORT"@, "LOG_DIR"@]
}

/// The managed keys are four distinct words of capitals and underscores.
pub proof fn lemma_managed_keys()
    ensures
        managed_keys()[0].len() == 19,
        managed_keys()[1].len() == 16,
        managed_keys()[2].len() == 8,
        managed_keys()[3].len() == 7,
        forall|m: int, j: int|
            0 <= m < 4 && 0 <= j < managed_keys()[m].len() ==> {
                let c = #[trigger] managed_keys()[m][j];
                ('A' <= c && c <= 'Z') || c == '_'
            },
{
    reveal_strlit("TWITCH_BOT_USERNAME");
    reveal_strlit("TWITCH_BOT_OAUTH");
    reveal_strlit("API_PORT");
    reveal_strlit("LOG_DIR");
}

/// Index of `k` in `managed_keys()`, or -1.
pub open spec fn managed_index(k: Seq<char>) -> int {
    if k == managed_keys()[0] {
        0
    } else if k == managed_keys()[1] {
        1
    } else if k == managed_keys()[2] {
        2
    } else if k == managed_keys()[3] {
        3
    } else {
        -1
    }
}

/// A line split into its trimmed key and its value; `None` for blank lines,
/// comments (first non-blank character `#`) and lines without `=`.
pub open spec fn kv(line: Seq<char>) -> Option<(Seq<char>, Seq<char>)> {
    let t = trim_start(line);
    if t.len() == 0 || t[0] == '#' {
        None
    } else {
        match split_once(line, seq!['=']) {
            Some((k, v)) => Some((trim(k), v)),
            None => None,
        }
    }
}

/// The key of a line, if it has one.
pub open spec fn key_of(line: Seq<char>) -> Option<Seq<char>> {
    match kv(line) {
        Some((k, _)) => Some(k),
        None => None,
    }
}

/// The value that the last line with key `key` gives it.
pub open spec fn lookup(ls: Seq<Seq<char>>, key: Seq<char>) -> Option<Seq<char>>
    decreases ls.len(),
{
    if ls.len() == 0 {
        None
    } else {
        match kv(ls.last()) {
            Some((k, v)) => if k == key {
                Some(v)
            } else {
                lookup(ls.drop_last(), key)
            },
            None => lookup(ls.drop_last(), key),
        }
    }
}

/// The managed values that a text holds, in the order of `managed_keys()`.
pub open spec fn values_in(content: Seq<char>) -> Seq<Option<Seq<char>>> {
    managed_keys().map_values(|k: Seq<char>| lookup(lines(content), k))
}

/// The line `key=value`.
pub open spec fn kv_line(key: Seq<char>, value: Seq<char>) -> Seq<char> {
    key + seq!['='] + value
}

/// What becomes of an existing line: a managed key is rewritten with its new
/// value, or dropped when that value is `None`; any other line stays.
pub open spec fn render_line(l: Seq<char>, vals: Seq<Option<Seq<char>>>) -> Option<Seq<char>> {
    match key_of(l) {
        Some(k) => if managed_index(k) >= 0 {
            match vals[managed_index(k)] {
                Some(v) => Some(kv_line(k, v)),
                None => None,
            }
        } else {
            Some(l)
        },
        None => Some(l),
    }
}

/// The existing lines, rewritten in place.
pub open spec fn kept_lines(ls: Seq<Seq<char>>, vals: Seq<Option<Seq<char>>>) -> Seq<Seq<char>>
    decreases ls.len(),
{
    if ls.len() == 0 {
        seq![]
    } else {
        let rest = kept_lines(ls.drop_last(), vals);
        match render_line(ls.last(), vals) {
            Some(x) => rest.push(x),
            None => rest,
        }
    }
}

/// Some line of `ls` has key `k`.
pub open spec fn key_seen(ls: Seq<Seq<char>>, k: Seq<char>) -> bool {
    exists|j: int| 0 <= j < ls.len() && key_of(ls[j]) == Some(k)
}

/// The lines appended for the first `n` managed keys: those with a value that
/// no existing line carried.
pub open spec fn appended_lines(ls: Seq<Seq<char>>, vals: Seq<Option<Seq<char>>>, n: int) -> Seq<
    Seq<char>,
>
    decreases n,
{
    if n <= 0 {
        seq![]
    } else {
        let before = appended_lines(ls, vals, n - 1);
        let k = managed_keys()[n - 1];
        if !key_seen(ls, k) && vals[n - 1] is Some {
            before.push(kv_line(k, vals[n - 1]->0))
        } else {
            before
        }
    }
}

/// All output lines for the existing lines `ls`.
pub open spec fn rendered_lines(ls: Seq<Seq<char>>, vals: Seq<Option<Seq<char>>>) -> Seq<
    Seq<char>,
> {
    kept_lines(ls, vals) + appended_lines(ls, vals, 4)
}

/// The new text: the output lines joined by `'\n'`, with a final `'\n'`
/// unless the text is empty.
pub open spec fn render_text(existing: Seq<char>, vals: Seq<Option<Seq<char>>>) -> Seq<char> {
    let j = join_lines(rendered_lines(lines(existing), vals));
    if j.len() == 0 {
        j
    } else {
        j.push('\n')
    }
}

/// Split a non-comment line into (KEY, VALUE). Returns None for blanks/comments.
fn parse_kv(line: &[char]) -> (r: Option<(Vec<char>, Vec<char>)>)
    ensures
        match r {
            Some((k, v)) => kv(line@) == Some((k@, v@)),
            None => kv(line@) is None,
        },
{
    let t = trim_start_index(line);
    if t == line.len() || line[t] == '#' {
        assert(trim_start(line@).len() == 0 || trim_start(line@)[0] == '#');
        return None;
    }
    assert(trim_start(line@)[0] == line@[t as int]);
    let eq = vec!['='];
    assert(eq@ =~= seq!['=']);
    match split_once_exec(line, eq.as_slice()) {
        Some((k, v)) => {
            let kt = trim_chars(k.as_slice());
            Some((kt, v))
        },
        None => None,
    }
}

/// The managed key literals, as characters.
fn managed_key_chars(i: usize) -> (r: Vec<char>)
    requires
        i < 4,
    ensures
        r@ == managed_keys()[i as int],
{
    if i == 0 {
        chars_of("TWITCH_BOT_USERNAME")
    } else if i == 1 {
        chars_of("TWITCH_BOT_OAUTH")
    } else if i == 2 {
        chars_of("API_PORT")
    } else {
        chars_of("LOG_DIR")
    }
}

/// Index of `k` among the managed keys.
fn managed_index_exec(k: &[char]) -> (r: Option<usize>)
    ensures
        match r {
            Some(i) => i < 4 && managed_index(k@) == i as int,
            None => managed_index(k@) == -1,
        },
{
    let mut i: usize = 0;
    while i < 4
        invariant
            i <= 4,
            forall|j: int| 0 <= j < i ==> k@ != managed_keys()[j],
        decreases 4 - i,
    {
        let m = managed_key_chars(i);
        if same_chars(k, m.as_slice()) {
            return Some(i);
        }
        i = i + 1;
    }
    None
}

/// The managed values that `content`, the text of a `.env` file, holds: for
/// each managed key, the value of the last line that sets it.
pub fn parse_env(content: &str) -> (r: EnvValues)
    ensures
        r.slots() == values_in(content@),
{
    let chars = chars_of(content);
    let ls = lines_exec(chars.as_slice());
    let ghost all = ls@.map_values(|l: Vec<char>| l@);
    let mut v = EnvValues::default();
    let mut i: usize = 0;
    while i < ls.len()
        invariant
            i <= ls@.len(),
            all == ls@.map_values(|l: Vec<char>| l@),
            all == lines(content@),
            v.slots().len() == 4,
            forall|m: int|
                0 <= m < 4 ==> #[trigger] v.slots()[m] == lookup(
                    all.take(i as int),
                    managed_keys()[m],
                ),
        decreases ls@.len() - i,
    {
        let ghost before = v.slots();
        proof {
            lemma_managed_keys();
        }
        assert(all.take(i + 1).drop_last() =~= all.take(i as int));
        assert(all.take(i + 1).last() == ls@[i as int]@);
        match parse_kv(ls[i].as_slice()) {
            Some((k, val)) => {
                match managed_index_exec(k.as_slice()) {
                    Some(m) => {
                        v.set_slot(m, Some(string_from(val.as_slice())));
                    },
                    None => {},
                }
            },
            None => {},
        }
        i = i + 1;
    }
    assert(all.take(ls@.len() as int) =~= all);
    assert(v.slots() =~= values_in(content@));
    v
}

/// The line `key=value` as characters.
fn kv_line_exec(key: &[char], value: &String) -> (r: Vec<char>)
    ensures
        r@ == kv_line(key@, value@),
{
    let mut r = slice_of(key, 0, key.len());
    assert(r@ =~= key@);
    r.push('=');
    let v = chars_of(value.as_str());
    let mut k: usize = 0;
    let ghost mid = r@;
    while k < v.len()
        invariant
            k <= v@.len(),
            v@ == value@,
            r@ == mid + v@.take(k as int),
        decreases v@.len() - k,
    {
        r.push(v[k]);
        k = k + 1;
        assert(r@ =~= mid + v@.take(k as int));
    }
    assert(v@.take(v@.len() as int) =~= v@);
    r
}

/// The new text of a `.env` file whose current text is `existing`: lines with a
/// managed key are updated in place (or removed when their value is `None`),
/// managed keys with a value that no line carried are appended in the order of
/// `managed_keys()`, and every other line is kept where it was.
pub fn render_env(existing: &str, values: &EnvValues) -> (r: String)
    ensures
        r@ == render_text(existing@, values.slots()),
{
    let ghost vals = values.slots();
    let chars = chars_of(existing);
    let ls = lines_exec(chars.as_slice());
    let ghost all = ls@.map_values(|l: Vec<char>| l@);
    let mut out: Vec<Vec<char>> = Vec::new();
    let mut seen: Vec<bool> = vec![false, false, false, false];
    let mut i: usize = 0;
    proof {
        lemma_managed_keys();
    }
    while i < ls.len()
        invariant
            i <= ls@.len(),
            all == ls@.map_values(|l: Vec<char>| l@),
            all == lines(existing@),
            vals == values.slots(),
            seen@.len() == 4,
            out@.map_values(|l: Vec<char>| l@) == kept_lines(all.take(i as int), vals),
            forall|m: int| 0 <= m < 4 ==> #[trigger] seen@[m] == key_seen(all.take(i as int), managed_keys()[m]),
        decreases ls@.len() - i,
    {
        let ghost prev = all.take(i as int);
        let ghost next = all.take(i + 1);
        let ghost line = all[i as int];
        let ghost old_out = out@.map_values(|l: Vec<char>| l@);
        proof {
            lemma_managed_keys();
        }
        assert(next.drop_last() =~= prev);
        assert(next.last() == line);
        assert(line == ls@[i as int]@);
        assert forall|m: int| 0 <= m < 4 implies #[trigger] key_seen(next, managed_keys()[m])
            == (key_seen(prev, managed_keys()[m]) || key_of(line) == Some(managed_keys()[m])) by {
            let k = managed_keys()[m];
            if key_seen(next, k) {
                let j = choose|j: int| 0 <= j < next.len() && key_of(next[j]) == Some(k);
                if j < i {
                    assert(prev[j] == next[j]);
                }
            }
            if key_seen(prev, k) {
                let j = choose|j: int| 0 <= j < prev.len() && key_of(prev[j]) == Some(k);
                assert(next[j] == prev[j]);
            }
            if key_of(line) == Some(k) {
                assert(next[i as int] == line);
            }
        }
        let cur = &ls[i];
        match parse_kv(cur.as_slice()) {
            Some((k, _)) => {
                match managed_index_exec(k.as_slice()) {
                    Some(m) => {
                        seen.set(m, true);
                        match values.slot(m) {
                            Some(val) => {
                                let l = kv_line_exec(k.as_slice(), val);
                                out.push(l);
                                assert(out@.map_values(|l: Vec<char>| l@) =~= old_out.push(
                                    kv_line(k@, val@),
                                ));
                            },
                            None => {},
                        }
                    },
                    None => {
                        let l = slice_of(cur.as_slice(), 0, cur.len());
                        assert(l@ =~= line);
                        out.push(l);
                        assert(out@.map_values(|l: Vec<char>| l@) =~= old_out.push(line));
                    },
                }
            },
            None => {
                let l = slice_of(cur.as_slice(), 0, cur.len());
                assert(l@ =~= line);
                out.push(l);
                assert(out@.map_values(|l: Vec<char>| l@) =~= old_out.push(line));
            },
        }
        i = i + 1;
    }
    assert(all.take(ls@.len() as int) =~= all);
    let mut m: usize = 0;
    while m < 4
        invariant
            m <= 4,
            all == lines(existing@),
            vals == values.slots(),
            seen@.len() == 4,
            forall|q: int| 0 <= q < 4 ==> #[trigger] seen@[q] == key_seen(all, managed_keys()[q]),
            out@.map_values(|l: Vec<char>| l@) == kept_lines(all, vals) + appended_lines(
                all,
                vals,
                m as int,
            ),
        decreases 4 - m,
    {
        let ghost old_out = out@.map_values(|l: Vec<char>| l@);
        if !seen[m] {
            match values.slot(m) {
                Some(val) => {
                    let key = managed_key_chars(m);
                    let l = kv_line_exec(key.as_slice(), val);
                    out.push(l);
                    assert(out@.map_values(|l: Vec<char>| l@) =~= old_out.push(
                        kv_line(managed_keys()[m as int], val@),
                    ));
                },
                None => {},
            }
        }
        m = m + 1;
    }
    let mut j = join_exec(&out);
    if j.len() > 0 {
        j.push('\n');
    }
    string_from(j.as_slice())
}

} // verus!
