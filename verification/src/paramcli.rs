use vstd::prelude::*;

use crate::readconf::{strs, Readconf};
use crate::text::{chars_of, ends_with_char, glue, glue_chars, has_prefix, lower, lowercase, split, split_chars, starts_with, string_of, views};

verus! {

/// The options that the explorers and comparers use.
#[derive(Debug)]
pub struct Options {
    pub verbose: bool,
    pub crypt: bool,
    pub ignore_err: bool,
    pub exceptions: Vec<String>,
    pub ignore_date_diff: bool,
}

/// The parameters from the command line and the configuration file.
#[derive(Debug)]
pub struct Paramcli {
    pub source: Vec<String>,
    pub destination: Vec<String>,
    pub exceptions: Vec<String>,
    pub fic_out: String,
    pub verbose: bool,
    pub crypt: bool,
    pub ignore_err: bool,
    pub config: String,
    pub ignore_date_diff: bool,
}

/// The value of an argument `/name:value`: the pieces after the first `:`
/// glued back with `:` (see [`glue`]), and one more `:` when the argument
/// ends with `:`.
pub open spec fn param_value(arg: Seq<char>) -> Seq<char> {
    let v = glue(split(arg, ':').drop_first(), ':');
    if arg.len() > 0 && arg.last() == ':' {
        v.push(':')
    } else {
        v
    }
}

/// The value of an argument `/name:value`.
pub fn get_param(arg: String) -> (r: String)
    ensures
        r@ == param_value(arg@),
{
    let c = chars_of(arg.as_str());
    let parts = split_chars(&c, ':');
    proof {
        crate::text::lemma_split_nonempty(arg@, ':');
    }
    let mut v = glue_chars(&parts, 1, ':');
    assert(views(parts@).subrange(1, parts@.len() as int) =~= split(arg@, ':').drop_first());
    if ends_with_char(arg.as_str(), ':') {
        v.push(':');
    }
    string_of(&v)
}

/// The command line read so far, by characters.
pub struct ArgsView {
    pub source: Seq<Seq<char>>,
    pub destination: Seq<Seq<char>>,
    pub conf: Seq<char>,
    pub fic: Seq<char>,
    pub verbose: bool,
    pub crypt: bool,
    pub ignore_err: bool,
    pub ignore_date_diff: bool,
}

/// Whether an argument asks for help: `/?`, `-?`, or `/help`, `-help` in
/// any case.
pub open spec fn is_help(arg: Seq<char>) -> bool {
    arg == "/?"@ || arg == "-?"@ || lowercase(arg) == "/help"@ || lowercase(arg) == "-help"@
}

/// What one argument changes: `/src:`, `/dst:` add a folder; `/conf:`,
/// `/fic:` set the configuration file and the output script; `/verbose`,
/// `/crypt`, `/ignore_err`, `/ignore_date_diff` set their switch (names in
/// any case); anything else is ignored.
pub open spec fn apply_arg(p: ArgsView, arg: Seq<char>) -> ArgsView {
    let l = lowercase(arg);
    if has_prefix(l, "/src:"@) {
        ArgsView { source: p.source.push(param_value(arg)), ..p }
    } else if has_prefix(l, "/dst:"@) {
        ArgsView { destination: p.destination.push(param_value(arg)), ..p }
    } else if has_prefix(l, "/conf:"@) {
        ArgsView { conf: param_value(arg), ..p }
    } else if has_prefix(l, "/fic:"@) {
        ArgsView { fic: param_value(arg), ..p }
    } else if l == "/verbose"@ {
        ArgsView { verbose: true, ..p }
    } else if l == "/crypt"@ {
        ArgsView { crypt: true, ..p }
    } else if l == "/ignore_err"@ {
        ArgsView { ignore_err: true, ..p }
    } else if l == "/ignore_date_diff"@ {
        ArgsView { ignore_date_diff: true, ..p }
    } else {
        p
    }
}

/// Nothing read yet.
pub open spec fn no_args() -> ArgsView {
    ArgsView {
        source: Seq::empty(),
        destination: Seq::empty(),
        conf: Seq::empty(),
        fic: Seq::empty(),
        verbose: false,
        crypt: false,
        ignore_err: false,
        ignore_date_diff: false,
    }
}

/// The arguments read in order.
pub open spec fn scan(args: Seq<Seq<char>>) -> ArgsView
    decreases args.len(),
{
    if args.len() == 0 {
        no_args()
    } else {
        apply_arg(scan(args.drop_last()), args.last())
    }
}

/// The position of the first argument that asks for help, or -1.
pub open spec fn first_help(args: Seq<Seq<char>>) -> int
    decreases args.len(),
{
    if args.len() == 0 {
        -1
    } else if first_help(args.drop_last()) >= 0 {
        first_help(args.drop_last())
    } else if is_help(args.last()) {
        args.len() - 1
    } else {
        -1
    }
}

/// An argument `name:value`, with no `:` in the name or the value, has
/// the value as typed: the characters after the `:`, in their own case.
pub proof fn lemma_param_value_typed(arg: Seq<char>, name: Seq<char>, v: Seq<char>)
    requires
        arg == name + seq![':'] + v,
        !name.contains(':'),
        !v.contains(':'),
        v.len() > 0,
    ensures
        param_value(arg) == v,
{
    crate::text::lemma_split_key_value(name, v, ':');
    assert(arg.last() == v.last());
    assert(v.last() != ':') by {
        assert(v[v.len() - 1] == v.last());
    }
}

/// Reading one more argument `name:value` (no `:` in either part): the
/// option's name is matched in any case, while the folder, configuration
/// file or output script it sets is the value as typed, never lower-cased.
/// A `/src:` argument adds the value to the sources and a `/dst:` one to
/// the destinations, leaving the other list as it was; `/conf:` and
/// `/fic:` set the configuration file and the output script to it.
pub proof fn lemma_scan_keeps_typed_value(args: Seq<Seq<char>>, arg: Seq<char>, name: Seq<char>, v: Seq<char>)
    requires
        arg == name + seq![':'] + v,
        !name.contains(':'),
        !v.contains(':'),
        v.len() > 0,
    ensures
        has_prefix(lowercase(arg), "/src:"@) ==> scan(args.push(arg)).source == scan(args).source.push(v)
            && scan(args.push(arg)).destination == scan(args).destination,
        !has_prefix(lowercase(arg), "/src:"@) && has_prefix(lowercase(arg), "/dst:"@) ==> scan(
            args.push(arg),
        ).destination == scan(args).destination.push(v) && scan(args.push(arg)).source == scan(args).source,
        !has_prefix(lowercase(arg), "/src:"@) && !has_prefix(lowercase(arg), "/dst:"@) && has_prefix(
            lowercase(arg),
            "/conf:"@,
        ) ==> scan(args.push(arg)).conf == v,
        !has_prefix(lowercase(arg), "/src:"@) && !has_prefix(lowercase(arg), "/dst:"@) && !has_prefix(
            lowercase(arg),
            "/conf:"@,
        ) && has_prefix(lowercase(arg), "/fic:"@) ==> scan(args.push(arg)).fic == v,
{
    lemma_param_value_typed(arg, name, v);
    assert(args.push(arg).drop_last() =~= args);
    assert(args.push(arg).last() == arg);
}

/// The command line, read.
pub struct RawParams {
    pub source: Vec<String>,
    pub destination: Vec<String>,
    pub conf: String,
    pub fic: String,
    pub verbose: bool,
    pub crypt: bool,
    pub ignore_err: bool,
    pub ignore_date_diff: bool,
}

impl RawParams {
    pub open spec fn view_as(self) -> ArgsView {
        ArgsView {
            source: strs(self.source@),
            destination: strs(self.destination@),
            conf: self.conf@,
            fic: self.fic@,
            verbose: self.verbose,
            crypt: self.crypt,
            ignore_err: self.ignore_err,
            ignore_date_diff: self.ignore_date_diff,
        }
    }
}

/// The outcome of reading the command line: help is shown after the
/// first `shown` arguments have been echoed (no argument at all asks for
/// help too), or the parameters read.
pub enum ArgScan {
    Help(usize),
    Parsed(RawParams),
}

/// Whether `a` is the text `b`.
fn same_text(a: &String, b: &str) -> (r: bool)
    ensures
        r == (a@ == b@),
{
    let t = String::from_str(b);
    *a == t
}

/// Reads the command line (without the program's name).
pub fn scan_args(args: &Vec<String>) -> (r: ArgScan)
    ensures
        args@.len() == 0 ==> r == ArgScan::Help(0),
        args@.len() > 0 && first_help(strs(args@)) >= 0 ==> r == ArgScan::Help(
            (first_help(strs(args@)) + 1) as usize,
        ),
        args@.len() > 0 && first_help(strs(args@)) < 0 ==> r is Parsed && r->Parsed_0.view_as() == scan(
            strs(args@),
        ),
{
    if args.len() == 0 {
        return ArgScan::Help(0);
    }
    let mut p = RawParams {
        source: Vec::new(),
        destination: Vec::new(),
        conf: String::new(),
        fic: String::new(),
        verbose: false,
        crypt: false,
        ignore_err: false,
        ignore_date_diff: false,
    };
    assert(strs(p.source@) =~= Seq::<Seq<char>>::empty());
    assert(strs(p.destination@) =~= Seq::<Seq<char>>::empty());
    assert(strs(args@).subrange(0, 0) =~= Seq::<Seq<char>>::empty());
    let mut i: usize = 0;
    while i < args.len()
        invariant
            i <= args.len(),
            first_help(strs(args@).subrange(0, i as int)) == -1,
            p.view_as() == scan(strs(args@).subrange(0, i as int)),
        decreases args.len() - i,
    {
        let arg = &args[i];
        let ghost pre = strs(args@).subrange(0, i as int + 1);
        assert(pre.drop_last() =~= strs(args@).subrange(0, i as int));
        assert(pre.last() == arg@);
        let low = lower(arg.as_str());
        let help = same_text(arg, "/?") || same_text(arg, "-?") || same_text(&low, "/help") || same_text(
            &low,
            "-help",
        );
        if help {
            assert(first_help(pre) == i);
            proof {
                lemma_first_help_prefix(strs(args@), i as int + 1);
            }
            return ArgScan::Help(i + 1);
        }
        let ghost pv = p.view_as();
        if starts_with(low.as_str(), "/src:") {
            let v = get_param(arg.clone());
            p.source.push(v);
            assert(strs(p.source@) =~= pv.source.push(param_value(arg@)));
        } else if starts_with(low.as_str(), "/dst:") {
            let v = get_param(arg.clone());
            p.destination.push(v);
            assert(strs(p.destination@) =~= pv.destination.push(param_value(arg@)));
        } else if starts_with(low.as_str(), "/conf:") {
            p.conf = get_param(arg.clone());
        } else if starts_with(low.as_str(), "/fic:") {
            p.fic = get_param(arg.clone());
        } else if same_text(&low, "/verbose") {
            p.verbose = true;
        } else if same_text(&low, "/crypt") {
            p.crypt = true;
        } else if same_text(&low, "/ignore_err") {
            p.ignore_err = true;
        } else if same_text(&low, "/ignore_date_diff") {
            p.ignore_date_diff = true;
        }
        assert(p.view_as() =~= apply_arg(pv, arg@));
        i = i + 1;
    }
    assert(strs(args@).subrange(0, args.len() as int) =~= strs(args@));
    ArgScan::Parsed(p)
}

/// A help request found in a prefix is the first one of the whole.
pub proof fn lemma_first_help_prefix(s: Seq<Seq<char>>, n: int)
    requires
        0 <= n <= s.len(),
        first_help(s.subrange(0, n)) >= 0,
    ensures
        first_help(s) == first_help(s.subrange(0, n)),
    decreases s.len() - n,
{
    if n < s.len() {
        assert(s.subrange(0, n + 1).drop_last() =~= s.subrange(0, n));
        lemma_first_help_prefix(s, n + 1);
    } else {
        assert(s.subrange(0, n) =~= s);
    }
}


/// Why the parameters cannot be used (the program then shows the help).
pub enum ParamError {
    /// Not as many destinations as sources.
    CountMismatch,
    /// No source at all.
    NothingToSynch,
    /// A source equals its destination (the first pair is not checked).
    SameSourceAndDestination(String),
    /// No output script given.
    NoOutputScript,
}

/// The first position from 1 on where the source equals its destination,
/// or -1.
pub open spec fn first_same(s: Seq<Seq<char>>, d: Seq<Seq<char>>) -> int {
    if exists|i: int| 1 <= i < s.len() && i < d.len() && s[i] == d[i] {
        choose|i: int|
            1 <= i < s.len() && i < d.len() && s[i] == d[i] && forall|j: int|
                1 <= j < i ==> s[j] != d[j]
    } else {
        -1
    }
}

/// The folders and exceptions in force: those of the configuration file
/// when there is one, else those of the command line with no exception.
pub open spec fn chosen_lists(raw: RawParams, conf: Option<Readconf>) -> (Seq<Seq<char>>, Seq<Seq<char>>, Seq<Seq<char>>) {
    match conf {
        Some(c) => (strs(c.source@), strs(c.destination@), strs(c.exception@)),
        None => (strs(raw.source@), strs(raw.destination@), Seq::empty()),
    }
}

impl Paramcli {
    /// The parameters from the command line `raw` and, when `raw` names a
    /// configuration file, the configuration read from it; checked in this
    /// order: as many destinations as sources, at least one source, no
    /// source equal to its destination (from the second pair on), an
    /// output script.
    pub fn new(raw: RawParams, conf: Option<Readconf>) -> (r: Result<Paramcli, ParamError>)
        requires
            raw.conf@.len() > 0 <==> conf is Some,
        ensures
            ({
                let l = chosen_lists(raw, conf);
                if l.0.len() != l.1.len() {
                    r is Err && r->Err_0 is CountMismatch
                } else if l.0.len() == 0 {
                    r is Err && r->Err_0 is NothingToSynch
                } else if first_same(l.0, l.1) >= 0 {
                    r is Err && r->Err_0 is SameSourceAndDestination
                        && r->Err_0->SameSourceAndDestination_0@ == l.0[first_same(l.0, l.1)]
                } else if raw.fic@.len() == 0 {
                    r is Err && r->Err_0 is NoOutputScript
                } else {
                    r is Ok && strs(r->Ok_0.source@) == l.0 && strs(r->Ok_0.destination@) == l.1
                        && strs(r->Ok_0.exceptions@) == l.2 && r->Ok_0.fic_out@ == raw.fic@
                        && r->Ok_0.config@ == raw.conf@ && r->Ok_0.verbose == raw.verbose
                        && r->Ok_0.crypt == raw.crypt && r->Ok_0.ignore_err == raw.ignore_err
                        && r->Ok_0.ignore_date_diff == raw.ignore_date_diff
                }
            }),
    {
        let ghost l = chosen_lists(raw, conf);
        let (src, dst, exc) = match conf {
            Some(c) => (c.source, c.destination, c.exception),
            None => (raw.source, raw.destination, Vec::new()),
        };
        assert(strs(exc@) =~= l.2);
        if src.len() != dst.len() {
            return Err(ParamError::CountMismatch);
        }
        if src.len() == 0 {
            return Err(ParamError::NothingToSynch);
        }
        let mut i: usize = 1;
        while i < src.len()
            invariant
                1 <= i <= src.len(),
                l == chosen_lists(raw, conf),
                src.len() == dst.len(),
                strs(src@) == l.0,
                strs(dst@) == l.1,
                forall|j: int| 1 <= j < i ==> l.0[j] != l.1[j],
            decreases src.len() - i,
        {
            if src[i] == dst[i] {
                assert(l.0[i as int] == src@[i as int]@);
                assert(first_same(l.0, l.1) == i) by {
                    let ii = i as int;
                    assert(1 <= ii < l.0.len() && ii < l.1.len() && l.0[ii] == l.1[ii] && forall|j: int|
                        1 <= j < ii ==> l.0[j] != l.1[j]);
                    let k = first_same(l.0, l.1);
                    assert(1 <= k < l.0.len() && k < l.1.len() && l.0[k] == l.1[k] && forall|j: int|
                        1 <= j < k ==> l.0[j] != l.1[j]);
                    if k < ii {
                        assert(l.0[k] != l.1[k]);
                    }
                    if k > ii {
                        assert(l.0[ii] != l.1[ii]);
                    }
                }
                return Err(ParamError::SameSourceAndDestination(src[i].clone()));
            }
            i = i + 1;
        }
        assert(first_same(l.0, l.1) == -1);
        if raw.fic.unicode_len() == 0 {
            return Err(ParamError::NoOutputScript);
        }
        Ok(Paramcli {
            source: src,
            destination: dst,
            exceptions: exc,
            fic_out: raw.fic,
            verbose: raw.verbose,
            crypt: raw.crypt,
            ignore_err: raw.ignore_err,
            config: raw.conf,
            ignore_date_diff: raw.ignore_date_diff,
        })
    }

    /// The options for the explorers and comparers: the switches and the
    /// exceptions.
    pub fn to_options(&self) -> (r: Options)
        ensures
            r.verbose == self.verbose,
            r.crypt == self.crypt,
            r.ignore_err == self.ignore_err,
            strs(r.exceptions@) == strs(self.exceptions@),
            r.ignore_date_diff == self.ignore_date_diff,
    {
        Options {
            verbose: self.verbose,
            crypt: self.crypt,
            ignore_err: self.ignore_err,
            exceptions: clone_strings(&self.exceptions),
            ignore_date_diff: self.ignore_date_diff,
        }
    }
}

/// A copy of a list of strings.
pub fn clone_strings(v: &Vec<String>) -> (r: Vec<String>)
    ensures
        strs(r@) == strs(v@),
{
    let mut r: Vec<String> = Vec::new();
    let mut i: usize = 0;
    while i < v.len()
        invariant
            i <= v.len(),
            strs(r@) == strs(v@).subrange(0, i as int),
        decreases v.len() - i,
    {
        let ghost before = strs(r@);
        r.push(v[i].clone());
        assert(strs(r@) =~= before.push(v@[i as int]@));
        i = i + 1;
        assert(strs(r@) =~= strs(v@).subrange(0, i as int));
    }
    assert(strs(v@).subrange(0, v.len() as int) =~= strs(v@));
    r
}

} // verus!
