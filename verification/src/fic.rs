use vstd::prelude::*;

use crate::text::{dec_i64, dec_u64, decimal, file_name, path_file_name, signed_decimal};

verus! {

/// What chrono prints for the UTC date and time `secs` seconds and
/// `nanos` nanoseconds after the unix epoch, in the format
/// `%d/%m/%Y %T` (day/month/year hours:minutes:seconds).
pub uninterp spec fn utc_day_time(secs: i64, nanos: u32) -> Seq<char>;

/// chrono `DateTime::<Utc>::from_timestamp` followed by
/// `DateTime::format("%d/%m/%Y %T")`: the contract claims only that the
/// text is a function of the two arguments, named [`utc_day_time`].
/// `from_timestamp` fails exactly for dates outside chrono's range,
/// from -262143-01-01 to +262142-12-31 (`NaiveDate::MIN` and `MAX`): the
/// `requires` is that range, counted in seconds from the epoch.
#[verifier::external_body]
fn utc_text(secs: i64, nanos: u32) -> (r: String)
    requires
        nanos < 1_000_000_000,
        utc_in_range(secs),
    ensures
        r@ == utc_day_time(secs, nanos),
{
    chrono::DateTime::from_timestamp(secs, nanos).unwrap().format("%d/%m/%Y %T").to_string()
}

/// A point in time: `secs` whole seconds after the unix epoch (negative
/// before it) and `nanos` nanoseconds more, as a `SystemTime` holds it.
#[derive(Clone, Copy, Debug, PartialEq, Eq, Structural)]
pub struct Stamp {
    pub secs: i64,
    pub nanos: u32,
}

/// The seconds for which chrono can write a date: from the first second
/// of -262143-01-01 to the last of +262142-12-31.
pub open spec fn utc_in_range(secs: i64) -> bool {
    -8_334_601_228_800 <= secs <= 8_210_266_876_799
}

/// The `Debug` text of a `SystemTime` on unix.
pub open spec fn stamp_debug(s: Stamp) -> Seq<char> {
    "SystemTime { tv_sec: "@ + signed_decimal(s.secs as int) + ", tv_nsec: "@ + decimal(s.nanos as nat)
        + " }"@
}

impl Stamp {
    pub open spec fn wf(self) -> bool {
        self.nanos < 1_000_000_000
    }

    /// The raw text of the point in time, as `{:?}` shows a `SystemTime`.
    pub fn debug_text(&self) -> (r: String)
        ensures
            r@ == stamp_debug(*self),
    {
        let mut r = String::from_str("SystemTime { tv_sec: ");
        let s = dec_i64(self.secs);
        r.append(s.as_str());
        r.append(", tv_nsec: ");
        let n = dec_u64(self.nanos as u64);
        r.append(n.as_str());
        r.append(" }");
        r
    }

    /// The UTC date and time as `dd/mm/yyyy hh:mm:ss`, when chrono can
    /// write it.
    pub fn utc(&self) -> (r: Option<String>)
        requires
            self.wf(),
        ensures
            utc_in_range(self.secs) ==> r is Some && r->0@ == utc_day_time(self.secs, self.nanos),
            !utc_in_range(self.secs) ==> r is None,
    {
        if -8_334_601_228_800 <= self.secs && self.secs <= 8_210_266_876_799 {
            Some(utc_text(self.secs, self.nanos))
        } else {
            None
        }
    }
}

/// What the file system tells about a file.
pub struct FileMeta {
    /// Length in bytes.
    pub len: u64,
    /// Last modification time.
    pub modify: Stamp,
    /// Last modification time in whole seconds (filetime's `unix_seconds`).
    pub modify_second: i64,
}

/// A file as the synchronisation sees it.
pub struct Fic {
    /// The file's metadata could not be read.
    pub forbidden: bool,
    /// Modification date.
    pub modify: Stamp,
    /// The same in whole seconds.
    pub modify_second: i64,
    /// Length in bytes.
    pub len: u64,
    /// The file's name (its last path component).
    pub name: String,
}

/// Result of comparing a source file with a destination file.
#[derive(Clone, Copy)]
pub enum FicComp {
    Same,
    SizeChange(u64, u64),
    DateChange(Stamp, Stamp),
}

/// The largest length a file can have: its size is a signed 64-bit
/// offset (`st_size`).
pub open spec fn max_file_len() -> int {
    i64::MAX as int
}

/// Whether the sizes differ. With `crypt`, a destination of 4096 bytes or
/// more is taken to carry a 4096-byte header that the source lacks.
pub open spec fn size_differs(src_len: u64, dst_len: u64, crypt: bool) -> bool {
    if crypt && dst_len >= 4096 {
        src_len + 4096 != dst_len
    } else {
        src_len != dst_len
    }
}

/// The comparison of a source file `a` with a destination file `b`: a size
/// difference first; then, for a non-empty source, a difference of the
/// modification times counted in whole seconds; else the same.
pub open spec fn compare(a: Fic, b: Fic, crypt: bool) -> FicComp {
    if size_differs(a.len, b.len, crypt) {
        FicComp::SizeChange(a.len, b.len)
    } else if a.len != 0 && a.modify_second != b.modify_second {
        FicComp::DateChange(a.modify, b.modify)
    } else {
        FicComp::Same
    }
}

impl Fic {
    /// Lengths fit in a file offset and the time is well formed.
    pub open spec fn wf(self) -> bool {
        &&& self.len <= max_file_len()
        &&& self.modify.wf()
    }

    /// The file at `path` as seen through `meta`, its metadata, or through
    /// nothing when the metadata could not be read: then it is forbidden,
    /// empty, and dated `now` (0 in whole seconds).
    pub fn new(path: &str, meta: Option<FileMeta>, now: Stamp) -> (r: Fic)
        requires
            file_name(path@) is Some,
            meta is Some ==> meta->0.len <= max_file_len() && meta->0.modify.wf(),
            now.wf(),
        ensures
            r.wf(),
            r.name@ == file_name(path@)->0,
            meta is None ==> r.forbidden && r.len == 0 && r.modify == now && r.modify_second == 0,
            meta is Some ==> !r.forbidden && r.len == meta->0.len && r.modify == meta->0.modify
                && r.modify_second == meta->0.modify_second,
    {
        let name = match path_file_name(path) {
            Some(n) => n,
            None => String::new(),
        };
        match meta {
            None => Fic { forbidden: true, modify: now, modify_second: 0, len: 0, name },
            Some(m) => Fic {
                forbidden: false,
                modify: m.modify,
                modify_second: m.modify_second,
                len: m.len,
                name,
            },
        }
    }

    /// Compares this source file with the destination file `other`.
    pub fn comp(&self, other: &Fic, crypt: bool) -> (r: FicComp)
        requires
            crypt && other.len >= 4096 ==> self.len + 4096 <= u64::MAX,
        ensures
            r == compare(*self, *other, crypt),
    {
        if crypt {
            if other.len >= 4096 {
                if (self.len + 4096) != other.len {
                    return FicComp::SizeChange(self.len, other.len);
                }
            } else {
                if self.len != other.len {
                    return FicComp::SizeChange(self.len, other.len);
                }
            }
        } else if self.len != other.len {
            return FicComp::SizeChange(self.len, other.len);
        }
        if self.len != 0 {
            if self.modify_second != other.modify_second {
                return FicComp::DateChange(self.modify, other.modify);
            }
        }
        FicComp::Same
    }
}


/// Without the `crypt` rule a file compares the same with itself, and
/// whether two files compare the same does not depend on which one is the
/// source.
pub proof fn lemma_compare_same_symmetric(a: Fic, b: Fic)
    ensures
        compare(a, a, false) == FicComp::Same,
        (compare(a, b, false) == FicComp::Same) == (compare(b, a, false) == FicComp::Same),
{
}

/// With the `crypt` rule, a destination of 4096 bytes or more that is
/// exactly 4096 bytes longer than the source, with the same time in whole
/// seconds, compares the same; a destination as long as a source of 4096
/// bytes or more is a size change.
pub proof fn lemma_compare_crypt(a: Fic, b: Fic)
    requires
        b.len >= 4096,
    ensures
        a.len + 4096 == b.len && a.modify_second == b.modify_second ==> compare(a, b, true)
            == FicComp::Same,
        a.len == b.len ==> compare(a, b, true) == FicComp::SizeChange(a.len, b.len),
{
}

/// Without the `crypt` rule the sizes decide first: files of different
/// lengths are a size change reported with both lengths, whatever their
/// times; files of the same length are a date change exactly when the
/// source is not empty and their times in whole seconds differ, and the
/// same otherwise.
pub proof fn lemma_compare_plain(a: Fic, b: Fic)
    ensures
        a.len != b.len ==> compare(a, b, false) == FicComp::SizeChange(a.len, b.len),
        a.len == b.len && a.len != 0 && a.modify_second != b.modify_second ==> compare(a, b, false)
            == FicComp::DateChange(a.modify, b.modify),
        a.len == b.len && (a.len == 0 || a.modify_second == b.modify_second) ==> compare(a, b, false)
            == FicComp::Same,
{
}

/// With the `crypt` rule the sizes decide first too: a destination under
/// 4096 bytes must have the source's length, and one of 4096 bytes or more
/// must be exactly 4096 bytes longer; otherwise it is a size change,
/// whatever the times.  When the lengths agree this way, a non-empty
/// source with another time in whole seconds is a date change.
pub proof fn lemma_compare_crypt_sizes(a: Fic, b: Fic)
    ensures
        b.len < 4096 && a.len != b.len ==> compare(a, b, true) == FicComp::SizeChange(a.len, b.len),
        b.len >= 4096 && a.len + 4096 != b.len ==> compare(a, b, true) == FicComp::SizeChange(a.len, b.len),
        (if b.len < 4096 {
            a.len == b.len
        } else {
            a.len + 4096 == b.len
        }) && a.len != 0 && a.modify_second != b.modify_second ==> compare(a, b, true) == FicComp::DateChange(
            a.modify,
            b.modify,
        ),
{
}

} // verus!
