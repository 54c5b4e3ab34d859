use vstd::prelude::*;

use crate::text::{path_debug, path_debug_text, dec_u64, decimal};

verus! {

/// End of line in the generated Windows script.
pub open spec fn eol() -> Seq<char> {
    seq!['\r', '\n']
}

/// `XCOPY "<src>" "<dst>" /H /Y /K /R `
pub open spec fn copy_text(src: Seq<char>, dst: Seq<char>) -> Seq<char> {
    "XCOPY \""@ + src + "\" \""@ + dst + "\" /H /Y /K /R "@
}

/// `XCOPY "<src>\*.*" "<dst>" /E /I /H /Y /K /R `
pub open spec fn copy_rec_text(src: Seq<char>, dst: Seq<char>) -> Seq<char> {
    "XCOPY \""@ + src + "\\*.*"@ + "\" \""@ + dst + "\" /E /I /H /Y /K /R "@
}

/// `DEL "<dst>" /F /A `
pub open spec fn del_text(dst: Seq<char>) -> Seq<char> {
    "DEL \""@ + dst + "\" /F /A "@
}

/// `RD /S /Q "<dst>"`, preceded by a confirmation dialog when the folder
/// is big (more than 10 in `nbfold` or more than 100 in `nbfic`).
pub open spec fn rd_text(dst: Seq<char>, nbfic: u32, nbfold: u32) -> Seq<char> {
    let ask = if nbfold > 10 || nbfic > 100 {
        "Echo "@ + path_debug_text(dst) + " Contains "@ + decimal(nbfold as nat) + " folders and "@
            + decimal(nbfic as nat) + "  files."@ + eol() + "Echo Please confirm deletation"@ + eol()
            + "Echo Y to Delete"@ + eol() + "Echo N to keep"@ + eol() + "choice /C YN"@ + eol()
            + "if '%ERRORLEVEL%'=='1' "@
    } else {
        Seq::<char>::empty()
    };
    ask + "RD /S /Q \""@ + dst + "\""@
}

/// Command copying the file `src` into the folder `dst`.
pub fn gen_copy(src: &str, dst: &str) -> (r: String)
    ensures
        r@ == copy_text(src@, dst@),
{
    let mut res = String::from_str("XCOPY \"");
    res.append(src);
    res.append("\" \"");
    res.append(dst);
    res.append("\" /H /Y /K /R ");
    res
}

/// Command copying the folder `src` with all it holds to `dst`.
pub fn gen_copy_rec(src: &str, dst: &str) -> (r: String)
    ensures
        r@ == copy_rec_text(src@, dst@),
{
    let mut res = String::from_str("XCOPY \"");
    res.append(src);
    res.append("\\*.*");
    res.append("\" \"");
    res.append(dst);
    res.append("\" /E /I /H /Y /K /R ");
    res
}

/// Command deleting the file `dst`.
pub fn gen_del(dst: &str) -> (r: String)
    ensures
        r@ == del_text(dst@),
{
    let mut res = String::from_str("DEL \"");
    res.append(dst);
    res.append("\" /F /A ");
    res
}

/// Command deleting the folder `dst`, asking first when it is big.
pub fn gen_rd(dst: &str, nbfic: u32, nbfold: u32) -> (r: String)
    ensures
        r@ == rd_text(dst@, nbfic, nbfold),
{
    let mut res = String::new();
    if nbfold > 10 || nbfic > 100 {
        res.append("Echo ");
        let q = path_debug(dst);
        res.append(q.as_str());
        res.append(" Contains ");
        let a = dec_u64(nbfold as u64);
        res.append(a.as_str());
        res.append(" folders and ");
        let b = dec_u64(nbfic as u64);
        res.append(b.as_str());
        res.append("  files.");
        res.append("\r\n");
        res.append("Echo Please confirm deletation");
        res.append("\r\n");
        res.append("Echo Y to Delete");
        res.append("\r\n");
        res.append("Echo N to keep");
        res.append("\r\n");
        res.append("choice /C YN");
        res.append("\r\n");
        res.append("if '%ERRORLEVEL%'=='1' ");
        proof {
            reveal_strlit("\r\n");
        }
    }
    res.append("RD /S /Q \"");
    res.append(dst);
    res.append("\"");
    res
}

/// The two first lines of the script.
pub fn start_script() -> (r: (String, String))
    ensures
        r.0@ == "@echo off"@,
        r.1@ == "chcp 65001"@,
{
    (String::from_str("@echo off"), String::from_str("chcp 65001"))
}

} // verus!
