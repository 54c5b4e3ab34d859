use vstd::prelude::*;

use crate::text::{chars_of, glue, glue_chars, has_prefix, lower, lowercase, split, split_chars, starts_with, string_of, views};

verus! {

/// The characters of each string.
pub open spec fn strs(v: Seq<String>) -> Seq<Seq<char>> {
    v.map_values(|s: String| s@)
}

/// The value of a `key=value` line: the pieces after the first `=`, glued
/// back with `=` (see [`glue`]).
pub open spec fn line_value(line: Seq<char>) -> Seq<char> {
    glue(split(line, '=').drop_first(), '=')
}

/// What one line of a configuration file adds to the sources, the
/// destinations and the exceptions: a line that starts, in any case, with
/// `source=`, `destination=` or `exception=` adds its value to that list;
/// any other line is ignored.
pub open spec fn conf_line(
    acc: (Seq<Seq<char>>, Seq<Seq<char>>, Seq<Seq<char>>),
    line: Seq<char>,
) -> (Seq<Seq<char>>, Seq<Seq<char>>, Seq<Seq<char>>) {
    let l = lowercase(line);
    let v = line_value(line);
    if has_prefix(l, "source="@) {
        (acc.0.push(v), acc.1, acc.2)
    } else if has_prefix(l, "destination="@) {
        (acc.0, acc.1.push(v), acc.2)
    } else if has_prefix(l, "exception="@) {
        (acc.0, acc.1, acc.2.push(v))
    } else {
        acc
    }
}

/// The three lists that the lines give, in file order.
pub open spec fn conf_lists(lines: Seq<Seq<char>>) -> (Seq<Seq<char>>, Seq<Seq<char>>, Seq<Seq<char>>)
    decreases lines.len(),
{
    if lines.len() == 0 {
        (Seq::empty(), Seq::empty(), Seq::empty())
    } else {
        conf_line(conf_lists(lines.drop_last()), lines.last())
    }
}

/// Reading one more line `key=value` (no `=` in either part): the key is
/// matched in any case, while the folder or exception it adds is the value
/// as written, never lower-cased.  A `source=` line adds it to the
/// sources, a `destination=` line to the destinations and an `exception=`
/// line to the exceptions, leaving the other lists as they were.
pub proof fn lemma_conf_keeps_written_value(
    lines: Seq<Seq<char>>,
    line: Seq<char>,
    key: Seq<char>,
    v: Seq<char>,
)
    requires
        line == key + seq!['='] + v,
        !key.contains('='),
        !v.contains('='),
    ensures
        line_value(line) == v,
        has_prefix(lowercase(line), "source="@) ==> conf_lists(lines.push(line)) == (
            conf_lists(lines).0.push(v),
            conf_lists(lines).1,
            conf_lists(lines).2,
        ),
        !has_prefix(lowercase(line), "source="@) && has_prefix(lowercase(line), "destination="@)
            ==> conf_lists(lines.push(line)) == (
            conf_lists(lines).0,
            conf_lists(lines).1.push(v),
            conf_lists(lines).2,
        ),
        !has_prefix(lowercase(line), "source="@) && !has_prefix(lowercase(line), "destination="@)
            && has_prefix(lowercase(line), "exception="@) ==> conf_lists(lines.push(line)) == (
            conf_lists(lines).0,
            conf_lists(lines).1,
            conf_lists(lines).2.push(v),
        ),
{
    crate::text::lemma_split_key_value(key, v, '=');
    assert(lines.push(line).drop_last() =~= lines);
    assert(lines.push(line).last() == line);
}

/// The value of a `key=value` line.
pub fn get_val(arg: &str) -> (r: String)
    ensures
        r@ == line_value(arg@),
{
    let c = chars_of(arg);
    let parts = split_chars(&c, '=');
    proof {
        crate::text::lemma_split_nonempty(arg@, '=');
    }
    let v = glue_chars(&parts, 1, '=');
    assert(views(parts@).subrange(1, parts@.len() as int) =~= split(arg@, '=').drop_first());
    string_of(&v)
}

/// A configuration: pairs of source and destination folders, and the
/// exceptions (folders whose path contains one of them are skipped).
#[derive(Debug)]
pub struct Readconf {
    pub source: Vec<String>,
    pub destination: Vec<String>,
    pub exception: Vec<String>,
}

/// A configuration whose numbers of sources and destinations differ.
pub struct ConfMismatch {
    pub sources: usize,
    pub destinations: usize,
}

impl Readconf {
    /// The configuration that the lines of a file give; an error when the
    /// numbers of sources and destinations differ.
    pub fn new(lines: &Vec<String>) -> (r: Result<Readconf, ConfMismatch>)
        ensures
            ({
                let l = conf_lists(strs(lines@));
                match r {
                    Ok(c) => l.0.len() == l.1.len() && strs(c.source@) == l.0 && strs(c.destination@)
                        == l.1 && strs(c.exception@) == l.2,
                    Err(e) => l.0.len() != l.1.len() && e.sources == l.0.len() && e.destinations
                        == l.1.len(),
                }
            }),
    {
        let mut src: Vec<String> = Vec::new();
        let mut dst: Vec<String> = Vec::new();
        let mut exc: Vec<String> = Vec::new();
        let mut i: usize = 0;
        while i < lines.len()
            invariant
                i <= lines.len(),
                conf_lists(strs(lines@).subrange(0, i as int)) == (strs(src@), strs(dst@), strs(exc@)),
            decreases lines.len() - i,
        {
            let l = &lines[i];
            let ghost pre = strs(lines@).subrange(0, i as int + 1);
            assert(pre.drop_last() =~= strs(lines@).subrange(0, i as int));
            assert(pre.last() == l@);
            let res = get_val(l.as_str());
            let low = lower(l.as_str());
            let ghost rv = res@;
            let ghost (s0, d0, e0) = (strs(src@), strs(dst@), strs(exc@));
            if starts_with(low.as_str(), "source=") {
                src.push(res);
                assert(strs(src@) =~= s0.push(rv));
            } else if starts_with(low.as_str(), "destination=") {
                dst.push(res);
                assert(strs(dst@) =~= d0.push(rv));
            } else if starts_with(low.as_str(), "exception=") {
                exc.push(res);
                assert(strs(exc@) =~= e0.push(rv));
            }
            i = i + 1;
        }
        assert(strs(lines@).subrange(0, lines.len() as int) =~= strs(lines@));
        if src.len() != dst.len() {
            return Err(ConfMismatch { sources: src.len(), destinations: dst.len() });
        }
        Ok(Readconf { source: src, destination: dst, exception: exc })
    }
}

} // verus!
