//! Turning the configured command lines into a program and its arguments.
use vstd::prelude::*;
use crate::text::{find_first, first_index, parse_u16, parse_u16_spec, push_char, push_str, trim_bounds, trimmed};

verus! {

/// `s` with every `{}`, read left to right, replaced by `path`.
pub open spec fn replace_braces(s: Seq<char>, path: Seq<char>) -> Seq<char>
    decreases s.len(),
{
    if s.len() == 0 {
        s
    } else if s.len() >= 2 && s[0] == '{' && s[1] == '}' {
        path + replace_braces(s.subrange(2, s.len() as int), path)
    } else {
        seq![s[0]] + replace_braces(s.drop_first(), path)
    }
}

/// The pieces of `s` between single spaces; two spaces in a row give an empty piece.
pub open spec fn split_spaces(s: Seq<char>) -> Seq<Seq<char>>
    decreases s.len(),
{
    if s.len() == 0 {
        seq![Seq::empty()]
    } else {
        let p = split_spaces(s.drop_last());
        if s.last() == ' ' {
            p.push(Seq::empty())
        } else {
            p.update(p.len() - 1, p.last().push(s.last()))
        }
    }
}

/// The program and arguments that show the image at `path`: the template's
/// first word is the program; the rest, with `{}` replaced by the path, is split
/// at each space. A template without a space is invalid.
pub open spec fn apply_command_spec(template: Seq<char>, path: Seq<char>) -> Option<(Seq<char>, Seq<Seq<char>>)> {
    match first_index(template, ' ') {
        None => None,
        Some(k) => Some((
            template.subrange(0, k),
            split_spaces(replace_braces(template.subrange(k + 1, template.len() as int), path)),
        )),
    }
}

/// The views of a list of strings.
pub open spec fn views(v: Seq<String>) -> Seq<Seq<char>> {
    v.map_values(|s: String| s@)
}

/// `s[from..]` with every `{}` replaced by `path`.
fn replace_braces_exec(s: &str, from: usize, path: &str) -> (r: String)
    requires
        from <= s@.len(),
    ensures
        r@ == replace_braces(s@.subrange(from as int, s@.len() as int), path@),
{
    let n = s.unicode_len();
    let mut out = String::new();
    let mut i: usize = from;
    while i < n
        invariant
            n == s@.len(),
            from <= i <= n,
            out@ + replace_braces(s@.subrange(i as int, n as int), path@)
                == replace_braces(s@.subrange(from as int, n as int), path@),
        decreases n - i,
    {
        let ghost t = s@.subrange(i as int, n as int);
        if i + 1 < n && s.get_char(i) == '{' && s.get_char(i + 1) == '}' {
            assert(t.subrange(2, t.len() as int) =~= s@.subrange(i + 2, n as int));
            let ghost before = out@;
            push_str(&mut out, path);
            assert(out@ + replace_braces(s@.subrange(i + 2, n as int), path@)
                =~= before + (path@ + replace_braces(s@.subrange(i + 2, n as int), path@)));
            i = i + 2;
        } else {
            let c = s.get_char(i);
            assert(t.drop_first() =~= s@.subrange(i + 1, n as int));
            push_char(&mut out, c);
            assert(out@ + replace_braces(s@.subrange(i + 1, n as int), path@)
                =~= out@.drop_last() + (seq![c] + replace_braces(s@.subrange(i + 1, n as int), path@)));
            i = i + 1;
        }
    }
    assert(out@ + Seq::<char>::empty() =~= out@);
    out
}

/// Splits `s` at each space.
fn split_spaces_exec(s: &str) -> (r: Vec<String>)
    ensures
        views(r@) == split_spaces(s@),
{
    let n = s.unicode_len();
    let mut words: Vec<String> = Vec::new();
    let mut cur = String::new();
    let mut i: usize = 0;
    assert(s@.subrange(0, 0) =~= Seq::<char>::empty());
    assert(views(words@).push(cur@) =~= seq![Seq::<char>::empty()]);
    while i < n
        invariant
            n == s@.len(),
            i <= n,
            views(words@).push(cur@) == split_spaces(s@.subrange(0, i as int)),
        decreases n - i,
    {
        let c = s.get_char(i);
        let ghost pre = s@.subrange(0, i as int);
        let ghost p = split_spaces(pre);
        assert(s@.subrange(0, i + 1).drop_last() =~= pre);
        assert(s@.subrange(0, i + 1).last() == c);
        if c == ' ' {
            let done = cur;
            words.push(done);
            cur = String::new();
            assert(views(words@) =~= views(words@.drop_last()).push(done@));
            assert(views(words@).push(cur@) =~= p.push(Seq::empty()));
        } else {
            push_char(&mut cur, c);
            assert(views(words@).push(cur@) =~= p.update(p.len() - 1, p.last().push(c)));
        }
        i = i + 1;
    }
    assert(s@.subrange(0, n as int) =~= s@);
    let ghost before = words@;
    words.push(cur);
    assert(views(words@) =~= views(before).push(cur@));
    words
}

/// The program and arguments that show the image at `path`, or nothing when
/// the template has no space.
pub fn apply_command(template: &str, path: &str) -> (r: Option<(String, Vec<String>)>)
    ensures
        match apply_command_spec(template@, path@) {
            None => r is None,
            Some((prog, args)) => r matches Some((p, a)) && p@ == prog && views(a@) == args,
        },
{
    let n = template.unicode_len();
    assert(template@.subrange(0, n as int) =~= template@);
    match find_first(template, 0, ' ') {
        None => None,
        Some(k) => {
            let program = template.substring_char(0, k).to_owned();
            let replaced = replace_braces_exec(template, k + 1, path);
            let args = split_spaces_exec(replaced.as_str());
            Some((program, args))
        },
    }
}

/// The words that `shell_words::split` makes of a command line, or nothing when
/// a quote is left open.
pub uninterp spec fn shell_words_of(s: Seq<char>) -> Option<Seq<Seq<char>>>;

/// Relies on `shell_words::split`: splits a command line into words as a POSIX
/// shell would, failing only on a quote left open; the words depend on the line alone.
#[verifier::external_body]
fn shell_split(s: &str) -> (r: Option<Vec<String>>)
    ensures
        match shell_words_of(s@) {
            None => r is None,
            Some(ws) => r matches Some(v) && views(v@) == ws,
        },
{
    shell_words::split(s).ok()
}

/// The program and arguments of a probe command line, split as a shell would;
/// nothing when it does not split or holds no word.
pub fn probe_command(command: &str) -> (r: Option<(String, Vec<String>)>)
    ensures
        match shell_words_of(command@) {
            Some(ws) if ws.len() > 0 => r matches Some((p, a)) && p@ == ws[0] && views(a@) == ws.drop_first(),
            _ => r is None,
        },
{
    let words = match shell_split(command) {
        Some(w) => w,
        None => {
            return None;
        },
    };
    if words.len() == 0 {
        return None;
    }
    let mut words = words;
    let ghost all = words@;
    let program = words.remove(0);
    assert(views(words@) =~= views(all).drop_first());
    Some((program, words))
}

/// The screen size that a probe printed: a number, whitespace around it allowed.
pub fn parse_screen_dimension(output: &str) -> (r: Option<u16>)
    ensures
        match parse_u16_spec(trimmed(output@)) {
            Ok(v) => r == Some(v),
            Err(_) => r is None,
        },
{
    let (a, b) = trim_bounds(output);
    match parse_u16(output.substring_char(a, b)) {
        Ok(v) => Some(v),
        Err(_) => None,
    }
}

} // verus!
