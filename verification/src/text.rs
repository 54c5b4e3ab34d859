use vstd::prelude::*;

verus! {

/// Appends one character to a string (std `String::push`): the string's
/// characters afterwards are the old ones followed by `c`.
#[verifier::external_body]
fn push_char(s: &mut String, c: char)
    ensures
        final(s)@ == old(s)@.push(c),
{
    s.push(c);
}

/// The characters of `s`, in order.
pub fn chars_of(s: &str) -> (r: Vec<char>)
    ensures
        r@ == s@,
{
    let n = s.unicode_len();
    let mut r: Vec<char> = Vec::new();
    let mut i: usize = 0;
    while i < n
        invariant
            n == s@.len(),
            i <= n,
            r@ == s@.subrange(0, i as int),
        decreases n - i,
    {
        let c = s.get_char(i);
        r.push(c);
        i = i + 1;
        assert(r@ =~= s@.subrange(0, i as int));
    }
    assert(r@ =~= s@);
    r
}

/// The string made of the characters of `v`, in order.
pub fn string_of(v: &Vec<char>) -> (r: String)
    ensures
        r@ == v@,
{
    let mut r = String::new();
    let mut i: usize = 0;
    while i < v.len()
        invariant
            i <= v.len(),
            r@ == v@.subrange(0, i as int),
        decreases v.len() - i,
    {
        push_char(&mut r, v[i]);
        i = i + 1;
        assert(r@ =~= v@.subrange(0, i as int));
    }
    assert(r@ =~= v@);
    r
}

} // verus!

verus! {

/// The views of a sequence of character vectors.
pub open spec fn views(v: Seq<Vec<char>>) -> Seq<Seq<char>> {
    v.map_values(|p: Vec<char>| p@)
}

/// The pieces of `s` between occurrences of `sep`, left to right, as
/// `str::split` with a character pattern yields them (there is always at
/// least one piece; separators at either end give empty pieces).
pub open spec fn split(s: Seq<char>, sep: char) -> Seq<Seq<char>>
    decreases s.len(),
{
    if s.len() == 0 {
        seq![Seq::<char>::empty()]
    } else {
        let pre = split(s.drop_last(), sep);
        if s.last() == sep {
            pre.push(Seq::<char>::empty())
        } else {
            pre.drop_last().push(pre.last().push(s.last()))
        }
    }
}

pub proof fn lemma_split_nonempty(s: Seq<char>, sep: char)
    ensures
        split(s, sep).len() >= 1,
    decreases s.len(),
{
    if s.len() > 0 {
        lemma_split_nonempty(s.drop_last(), sep);
    }
}

/// A text without the separator is one piece.
pub proof fn lemma_split_no_sep(s: Seq<char>, sep: char)
    requires
        !s.contains(sep),
    ensures
        split(s, sep) == seq![s],
    decreases s.len(),
{
    if s.len() == 0 {
        assert(s =~= Seq::<char>::empty());
    } else {
        let d = s.drop_last();
        assert(!d.contains(sep)) by {
            if d.contains(sep) {
                let j = choose|j: int| 0 <= j < d.len() && d[j] == sep;
                assert(s[j] == sep);
            }
        }
        lemma_split_no_sep(d, sep);
        assert(s.last() != sep) by {
            assert(s[s.len() - 1] == s.last());
        }
        let pre = split(d, sep);
        assert(pre == seq![d]);
        assert(split(s, sep) == pre.drop_last().push(pre.last().push(s.last())));
        assert(d.push(s.last()) =~= s);
        assert(pre.drop_last() =~= Seq::<Seq<char>>::empty());
        assert(pre.drop_last().push(pre.last().push(s.last())) =~= seq![s]);
    }
}

/// After a separator, a text without the separator is the last piece.
pub proof fn lemma_split_last_piece(s: Seq<char>, t: Seq<char>, sep: char)
    requires
        !t.contains(sep),
    ensures
        split(s + seq![sep] + t, sep) == split(s, sep).push(t),
    decreases t.len(),
{
    let w = s + seq![sep] + t;
    if t.len() == 0 {
        assert(w.drop_last() =~= s);
        assert(w.last() == sep);
        assert(t =~= Seq::<char>::empty());
        assert(split(w, sep) == split(w.drop_last(), sep).push(Seq::<char>::empty()));
    } else {
        let u = t.drop_last();
        assert(!u.contains(sep)) by {
            if u.contains(sep) {
                let j = choose|j: int| 0 <= j < u.len() && u[j] == sep;
                assert(t[j] == sep);
            }
        }
        lemma_split_last_piece(s, u, sep);
        assert(w.drop_last() =~= s + seq![sep] + u);
        assert(w.last() == t.last());
        assert(t.last() != sep) by {
            assert(t[t.len() - 1] == t.last());
        }
        let pre = split(w.drop_last(), sep);
        assert(pre == split(s, sep).push(u));
        assert(split(w, sep) == pre.drop_last().push(pre.last().push(w.last())));
        assert(pre.drop_last() =~= split(s, sep));
        assert(pre.last() == u);
        assert(u.push(t.last()) =~= t);
        assert(split(w, sep) =~= split(s, sep).push(t));
    }
}

/// `key` and a value around one separator, neither holding the separator:
/// the pieces after the first are the value alone, and gluing them back
/// gives the value.
pub proof fn lemma_split_key_value(key: Seq<char>, v: Seq<char>, sep: char)
    requires
        !key.contains(sep),
        !v.contains(sep),
    ensures
        split(key + seq![sep] + v, sep) == seq![key, v],
        glue(split(key + seq![sep] + v, sep).drop_first(), sep) == v,
{
    lemma_split_no_sep(key, sep);
    lemma_split_last_piece(key, v, sep);
    assert(seq![key].push(v) =~= seq![key, v]);
    let rest = seq![key, v].drop_first();
    assert(rest =~= seq![v]);
    assert(rest.drop_last() =~= Seq::<Seq<char>>::empty());
    assert(glue(rest.drop_last(), sep) == Seq::<char>::empty());
    assert(glue(rest, sep) == v);
}

/// Splits the characters of `s` at every `sep` (std `str::split`).
pub fn split_chars(s: &Vec<char>, sep: char) -> (r: Vec<Vec<char>>)
    ensures
        views(r@) == split(s@, sep),
{
    let mut done: Vec<Vec<char>> = Vec::new();
    let mut cur: Vec<char> = Vec::new();
    let mut i: usize = 0;
    assert(s@.subrange(0, 0) =~= Seq::<char>::empty());
    assert(views(done@).push(cur@) =~= split(s@.subrange(0, 0), sep));
    while i < s.len()
        invariant
            i <= s.len(),
            views(done@).push(cur@) == split(s@.subrange(0, i as int), sep),
        decreases s.len() - i,
    {
        let c = s[i];
        let ghost pre = split(s@.subrange(0, i as int), sep);
        assert(s@.subrange(0, i + 1).drop_last() =~= s@.subrange(0, i as int));
        assert(s@.subrange(0, i + 1).last() == c);
        if c == sep {
            let ghost old_done = done@;
            done.push(cur);
            cur = Vec::new();
            assert(views(done@) =~= views(old_done).push(pre.last()));
            assert(views(done@).push(cur@) =~= pre.push(Seq::<char>::empty()));
        } else {
            let ghost old_cur = cur@;
            cur.push(c);
            assert(pre.drop_last() =~= views(done@));
            assert(views(done@).push(cur@) =~= pre.drop_last().push(pre.last().push(c)));
        }
        i = i + 1;
    }
    assert(s@.subrange(0, s.len() as int) =~= s@);
    let ghost last_done = done@;
    done.push(cur);
    assert(views(done@) =~= views(last_done).push(cur@));
    done
}

} // verus!

verus! {

/// The pieces glued back together with `sep`, where a separator is only put
/// in front of a piece once something has already been written: leading
/// empty pieces vanish together with their separators.
pub open spec fn glue(parts: Seq<Seq<char>>, sep: char) -> Seq<char>
    decreases parts.len(),
{
    if parts.len() == 0 {
        Seq::<char>::empty()
    } else {
        let acc = glue(parts.drop_last(), sep);
        if acc.len() == 0 {
            parts.last()
        } else {
            acc.push(sep) + parts.last()
        }
    }
}

/// Appends all characters of `src` to `dst`.
pub fn push_all(dst: &mut Vec<char>, src: &Vec<char>)
    ensures
        final(dst)@ == old(dst)@ + src@,
{
    let mut i: usize = 0;
    while i < src.len()
        invariant
            i <= src.len(),
            dst@ == old(dst)@ + src@.subrange(0, i as int),
        decreases src.len() - i,
    {
        dst.push(src[i]);
        i = i + 1;
        assert(dst@ =~= old(dst)@ + src@.subrange(0, i as int));
    }
    assert(src@.subrange(0, src.len() as int) =~= src@);
}

/// Glues `parts[from..]` with `sep` (see [`glue`]).
pub fn glue_chars(parts: &Vec<Vec<char>>, from: usize, sep: char) -> (r: Vec<char>)
    requires
        from <= parts.len(),
    ensures
        r@ == glue(views(parts@).subrange(from as int, parts.len() as int), sep),
{
    let mut res: Vec<char> = Vec::new();
    let mut j: usize = from;
    assert(views(parts@).subrange(from as int, from as int) =~= Seq::<Seq<char>>::empty());
    while j < parts.len()
        invariant
            from <= j <= parts.len(),
            res@ == glue(views(parts@).subrange(from as int, j as int), sep),
        decreases parts.len() - j,
    {
        let ghost sub = views(parts@).subrange(from as int, j as int + 1);
        assert(sub.drop_last() =~= views(parts@).subrange(from as int, j as int));
        assert(sub.last() == parts@[j as int]@);
        if res.len() > 0 {
            res.push(sep);
        }
        push_all(&mut res, &parts[j]);
        j = j + 1;
    }
    res
}

/// What `Path::file_name` keeps of a unix path: the pieces between `/`
/// that are neither empty nor `.` name components; the last of them is
/// the file name, unless there is none or it is `..`.
pub open spec fn is_name_piece(p: Seq<char>) -> bool {
    p.len() > 0 && p != seq!['.']
}

pub open spec fn name_pieces(path: Seq<char>) -> Seq<Seq<char>> {
    split(path, '/').filter(|p: Seq<char>| is_name_piece(p))
}

pub open spec fn file_name(path: Seq<char>) -> Option<Seq<char>> {
    let named = name_pieces(path);
    if named.len() == 0 || named.last() == seq!['.', '.'] {
        None
    } else {
        Some(named.last())
    }
}

fn is_name_piece_exec(p: &Vec<char>) -> (r: bool)
    ensures
        r == is_name_piece(p@),
{
    if p.len() == 0 {
        false
    } else if p.len() == 1 && p[0] == '.' {
        assert(p@ =~= seq!['.']);
        false
    } else {
        assert(p@.len() != 1 ==> p@ != seq!['.']);
        assert(p@.len() == 1 ==> p@[0] != '.');
        true
    }
}

/// The last name component of `path` (std `Path::file_name` on unix).
pub fn path_file_name(path: &str) -> (r: Option<String>)
    ensures
        r is Some <==> file_name(path@) is Some,
        r is Some ==> r->0@ == file_name(path@)->0,
{
    let chars = chars_of(path);
    let parts = split_chars(&chars, '/');
    let ghost pred = |p: Seq<char>| is_name_piece(p);
    let mut best: Option<usize> = None;
    let mut i: usize = 0;
    assert(views(parts@).subrange(0, 0).filter(pred) =~= Seq::<Seq<char>>::empty()) by {
        reveal(Seq::filter);
    }
    while i < parts.len()
        invariant
            i <= parts.len(),
            views(parts@) == split(path@, '/'),
            pred == (|p: Seq<char>| is_name_piece(p)),
            match best {
                None => views(parts@).subrange(0, i as int).filter(pred).len() == 0,
                Some(k) => k < i && views(parts@).subrange(0, i as int).filter(pred).len() > 0
                    && views(parts@).subrange(0, i as int).filter(pred).last() == parts@[k as int]@,
            },
        decreases parts.len() - i,
    {
        let ghost sub = views(parts@).subrange(0, i as int + 1);
        assert(sub.drop_last() =~= views(parts@).subrange(0, i as int));
        assert(sub.last() == parts@[i as int]@);
        assert(sub.filter(pred) == if pred(sub.last()) {
            sub.drop_last().filter(pred).push(sub.last())
        } else {
            sub.drop_last().filter(pred)
        }) by {
            reveal(Seq::filter);
        }
        let good = is_name_piece_exec(&parts[i]);
        assert(good == is_name_piece(sub.last()));
        assert(pred(sub.last()) == is_name_piece(sub.last()));
        if good {
            best = Some(i);
            assert(sub.filter(pred).last() == parts@[i as int]@);
        } else {
            assert(sub.filter(pred) == views(parts@).subrange(0, i as int).filter(pred));
        }
        i = i + 1;
    }
    assert(views(parts@).subrange(0, parts.len() as int) =~= views(parts@));
    match best {
        None => None,
        Some(k) => {
            let p = &parts[k];
            if p.len() == 2 && p[0] == '.' && p[1] == '.' {
                assert(p@ =~= seq!['.', '.']);
                None
            } else {
                assert(p@ != seq!['.', '.']) by {
                    if p@ == seq!['.', '.'] {
                        assert(p@.len() == 2 && p@[0] == '.' && p@[1] == '.');
                    }
                }
                Some(string_of(p))
            }
        },
    }
}

/// `Path::join` on unix: an absolute `part` replaces `base`; otherwise a
/// `/` is put between them unless `base` is empty or already ends in `/`.
pub open spec fn join_path(base: Seq<char>, part: Seq<char>) -> Seq<char> {
    if part.len() > 0 && part[0] == '/' {
        part
    } else if base.len() > 0 && base.last() != '/' {
        base.push('/') + part
    } else {
        base + part
    }
}

/// Joins two unix paths (std `Path::join`).
pub fn path_join(base: &str, part: &str) -> (r: String)
    ensures
        r@ == join_path(base@, part@),
{
    let pl = part.unicode_len();
    let bl = base.unicode_len();
    if pl > 0 && part.get_char(0) == '/' {
        String::from_str(part)
    } else if bl > 0 && base.get_char(bl - 1) != '/' {
        let mut r = String::from_str(base);
        push_char(&mut r, '/');
        r.append(part);
        r
    } else {
        let mut r = String::from_str(base);
        r.append(part);
        r
    }
}

} // verus!

verus! {

/// The decimal digit character for `d` (`0 <= d < 10`).
pub open spec fn digit_char(d: int) -> char {
    if d == 0 { '0' }
    else if d == 1 { '1' }
    else if d == 2 { '2' }
    else if d == 3 { '3' }
    else if d == 4 { '4' }
    else if d == 5 { '5' }
    else if d == 6 { '6' }
    else if d == 7 { '7' }
    else if d == 8 { '8' }
    else { '9' }
}

/// The decimal writing of `n` without leading zeros, as `Display` prints
/// an unsigned integer.
pub open spec fn decimal(n: nat) -> Seq<char>
    decreases n,
{
    if n < 10 {
        seq![digit_char(n as int)]
    } else {
        decimal(n / 10).push(digit_char((n % 10) as int))
    }
}

/// The decimal writing of a signed integer, with a leading `-` when negative.
pub open spec fn signed_decimal(n: int) -> Seq<char> {
    if n < 0 {
        seq!['-'] + decimal((-n) as nat)
    } else {
        decimal(n as nat)
    }
}

fn digit(d: u64) -> (c: char)
    requires
        d < 10,
    ensures
        c == digit_char(d as int),
{
    match d {
        0 => '0',
        1 => '1',
        2 => '2',
        3 => '3',
        4 => '4',
        5 => '5',
        6 => '6',
        7 => '7',
        8 => '8',
        _ => '9',
    }
}

fn push_decimal(n: u64, out: &mut Vec<char>)
    ensures
        final(out)@ == old(out)@ + decimal(n as nat),
    decreases n,
{
    if n >= 10 {
        push_decimal(n / 10, out);
    }
    let ghost mid = out@;
    out.push(digit(n % 10));
    if n >= 10 {
        assert(out@ =~= old(out)@ + decimal(n as nat));
    } else {
        assert(out@ =~= old(out)@ + decimal(n as nat));
    }
}

/// `n` written in decimal (std `u64::to_string`).
pub fn dec_u64(n: u64) -> (r: String)
    ensures
        r@ == decimal(n as nat),
{
    let mut v: Vec<char> = Vec::new();
    push_decimal(n, &mut v);
    assert(v@ =~= decimal(n as nat));
    string_of(&v)
}

/// `n` written in decimal (std `i64::to_string`).
pub fn dec_i64(n: i64) -> (r: String)
    ensures
        r@ == signed_decimal(n as int),
{
    let mut v: Vec<char> = Vec::new();
    if n < 0 {
        v.push('-');
        let m: u64 = (-(n as i128)) as u64;
        push_decimal(m, &mut v);
        assert(v@ =~= signed_decimal(n as int));
    } else {
        push_decimal(n as u64, &mut v);
        assert(v@ =~= signed_decimal(n as int));
    }
    string_of(&v)
}

/// Whether `s` begins with `p` (std `str::starts_with`).
pub open spec fn has_prefix(s: Seq<char>, p: Seq<char>) -> bool {
    p.len() <= s.len() && s.subrange(0, p.len() as int) == p
}

/// Whether `p` occurs in `s` starting at position `i`.
pub open spec fn occurs_at(s: Seq<char>, p: Seq<char>, i: int) -> bool {
    0 <= i && i + p.len() <= s.len() && s.subrange(i, i + p.len()) == p
}

/// Whether `p` occurs anywhere in `s` (std `str::contains`).
pub open spec fn has_infix(s: Seq<char>, p: Seq<char>) -> bool {
    exists|i: int| occurs_at(s, p, i)
}

fn matches_at(s: &Vec<char>, p: &Vec<char>, i: usize) -> (r: bool)
    requires
        i + p.len() <= s.len(),
    ensures
        r == occurs_at(s@, p@, i as int),
{
    let mut j: usize = 0;
    while j < p.len()
        invariant
            j <= p.len(),
            i + p.len() <= s.len(),
            forall|k: int| 0 <= k < j ==> s@[i + k] == p@[k],
        decreases p.len() - j,
    {
        if s[i + j] != p[j] {
            assert(s@.subrange(i as int, i + p.len())[j as int] != p@[j as int]);
            return false;
        }
        j = j + 1;
    }
    assert(s@.subrange(i as int, i + p.len()) =~= p@);
    true
}

/// Whether `s` begins with `p`.
pub fn starts_with(s: &str, p: &str) -> (r: bool)
    ensures
        r == has_prefix(s@, p@),
{
    let sc = chars_of(s);
    let pc = chars_of(p);
    if pc.len() > sc.len() {
        false
    } else {
        matches_at(&sc, &pc, 0)
    }
}

/// Whether `p` occurs in `s`.
pub fn contains(s: &str, p: &str) -> (r: bool)
    ensures
        r == has_infix(s@, p@),
{
    let sc = chars_of(s);
    let pc = chars_of(p);
    if pc.len() > sc.len() {
        assert forall|i: int| !occurs_at(s@, p@, i) by {}
        return false;
    }
    let last = sc.len() - pc.len();
    let mut i: usize = 0;
    while i < last
        invariant
            last == sc.len() - pc.len(),
            pc.len() <= sc.len(),
            sc@ == s@,
            pc@ == p@,
            i <= last,
            forall|k: int| 0 <= k < i ==> !occurs_at(s@, p@, k),
        decreases last - i,
    {
        if matches_at(&sc, &pc, i) {
            return true;
        }
        i = i + 1;
    }
    if matches_at(&sc, &pc, last) {
        return true;
    }
    assert forall|k: int| !occurs_at(s@, p@, k) by {
        if 0 <= k && k < i {
        }
    }
    false
}

/// Whether the last character of `s` is `c` (std `str::ends_with` with a
/// character pattern).
pub fn ends_with_char(s: &str, c: char) -> (r: bool)
    ensures
        r == (s@.len() > 0 && s@.last() == c),
{
    let n = s.unicode_len();
    n > 0 && s.get_char(n - 1) == c
}

/// What `str::to_lowercase` returns for a string with these characters.
pub uninterp spec fn lowercase(s: Seq<char>) -> Seq<char>;

/// std `str::to_lowercase`: the contract claims only that the result is a
/// function of the characters of `s`, named [`lowercase`].
#[verifier::external_body]
pub(crate) fn lower(s: &str) -> (r: String)
    ensures
        r@ == lowercase(s@),
{
    s.to_lowercase()
}

/// What `format!("{:?}", Path::new(s))` writes for a path with these
/// characters: quoted, with escapes as std writes a path.  Folder and file
/// names are always shown this way in logs and scripts.
pub uninterp spec fn path_debug_text(s: Seq<char>) -> Seq<char>;

/// The `Debug` rendering of a path (std `<Path as Debug>::fmt`, that is
/// `<OsStr as Debug>::fmt`, on `Path::new(s)`): the contract claims only
/// that it is a function of the characters of `s`, named
/// [`path_debug_text`].  On unix, the target this program is built for, a
/// path is the bytes of `s`, so the text depends on them alone; the
/// Windows rendering of the same path is not claimed to be equal.
#[verifier::external_body]
pub(crate) fn path_debug(s: &str) -> (r: String)
    ensures
        r@ == path_debug_text(s@),
{
    format!("{:?}", std::path::Path::new(s))
}

} // verus!
