use vstd::prelude::*;

use crate::text::{path_debug, path_debug_text, dec_u64, decimal};

pub mod windows;

verus! {

/// End of line in the generated unix script.
pub open spec fn eol() -> Seq<char> {
    seq!['\n']
}

/// A command of the synchronisation script.
pub enum Command {
    /// Copy the file at the first path into the folder at the second.
    Copy(String, String),
    /// Copy the folder at the first path, recursively, to the second path.
    CopyRecurs(String, String),
    /// Delete the file at the path.
    RemoveFile(String),
    /// Delete the folder at the path, which holds the given numbers of
    /// sub-folders and files.
    RemoveFold(String, u32, u32),
}

/// A command with its paths taken by their characters.
pub enum CommandView {
    Copy(Seq<char>, Seq<char>),
    CopyRecurs(Seq<char>, Seq<char>),
    RemoveFile(Seq<char>),
    RemoveFold(Seq<char>, u32, u32),
}

impl View for Command {
    type V = CommandView;

    open spec fn view(&self) -> CommandView {
        match self {
            Command::Copy(a, b) => CommandView::Copy(a@, b@),
            Command::CopyRecurs(a, b) => CommandView::CopyRecurs(a@, b@),
            Command::RemoveFile(a) => CommandView::RemoveFile(a@),
            Command::RemoveFold(a, x, y) => CommandView::RemoveFold(a@, *x, *y),
        }
    }
}

/// `cp --preserve=all "<src>" "<dst>" `
pub open spec fn copy_text(src: Seq<char>, dst: Seq<char>) -> Seq<char> {
    "cp --preserve=all \""@ + src + "\" \""@ + dst + "\" "@
}

/// `cp --preserve=all -r "<src>/" "<dst>" `
pub open spec fn copy_rec_text(src: Seq<char>, dst: Seq<char>) -> Seq<char> {
    "cp --preserve=all -r \""@ + src + "/"@ + "\" \""@ + dst + "\" "@
}

/// `rm -f "<dst>" `
pub open spec fn del_text(dst: Seq<char>) -> Seq<char> {
    "rm -f \""@ + dst + "\" "@
}

/// Whether a folder deletion asks for confirmation first.
pub open spec fn asks_confirmation(nbfic: u32, nbfold: u32) -> bool {
    nbfold > 10 || nbfic > 100
}

/// `rm -rf "<dst>"`, wrapped in a confirmation dialog when the folder is
/// big (more than 10 in `nbfold` or more than 100 in `nbfic`).
pub open spec fn rd_text(dst: Seq<char>, nbfic: u32, nbfold: u32) -> Seq<char> {
    let cmd = "rm -rf \""@ + dst + "\""@;
    if asks_confirmation(nbfic, nbfold) {
        "echo "@ + path_debug_text(dst) + " Contains "@ + decimal(nbfold as nat) + " folders and "@
            + decimal(nbfic as nat) + "  files."@ + eol()
            + "echo Do you wish to delete this folder? \"Yes\" will Proceed, Anything Else will keep it"@
            + eol() + "    read yn"@ + eol() + "        case $yn in"@ + eol() + "            Yes) "@
            + cmd + ";;"@ + eol() + "            *) echo avoid delete ;;"@ + eol()
            + "        esac"@ + eol()
    } else {
        cmd
    }
}

/// The script text of a command.  A folder removal passes its folder
/// count where `rd_text` takes `nbfic` and its file count where it takes
/// `nbfold`.
pub open spec fn command_text(c: CommandView) -> Seq<char> {
    match c {
        CommandView::Copy(s, d) => copy_text(s, d),
        CommandView::CopyRecurs(s, d) => copy_rec_text(s, d),
        CommandView::RemoveFile(d) => del_text(d),
        CommandView::RemoveFold(d, a, b) => rd_text(d, a, b),
    }
}

impl Command {
    /// The text of the command in the script.
    pub fn to_command(&self) -> (r: String)
        ensures
            r@ == command_text(self@),
    {
        match self {
            Command::Copy(src, dst) => gen_copy(src.as_str(), dst.as_str()),
            Command::CopyRecurs(src, dst) => gen_copy_rec(src.as_str(), dst.as_str()),
            Command::RemoveFile(dst) => gen_del(dst.as_str()),
            Command::RemoveFold(dst, nbfold, nbfic) => gen_rd(dst.as_str(), *nbfold, *nbfic),
        }
    }
}

/// Command copying the file `src` into the folder `dst`.
pub fn gen_copy(src: &str, dst: &str) -> (r: String)
    ensures
        r@ == copy_text(src@, dst@),
{
    let mut res = String::from_str("cp --preserve=all \"");
    res.append(src);
    res.append("\" \"");
    res.append(dst);
    res.append("\" ");
    res
}

/// Command copying the folder `src` with all it holds to `dst`.
pub fn gen_copy_rec(src: &str, dst: &str) -> (r: String)
    ensures
        r@ == copy_rec_text(src@, dst@),
{
    let mut res = String::from_str("cp --preserve=all -r \"");
    res.append(src);
    res.append("/");
    res.append("\" \"");
    res.append(dst);
    res.append("\" ");
    res
}

/// Command deleting the file `dst`.
pub fn gen_del(dst: &str) -> (r: String)
    ensures
        r@ == del_text(dst@),
{
    let mut res = String::from_str("rm -f \"");
    res.append(dst);
    res.append("\" ");
    res
}

/// Command deleting the folder `dst`, asking first when it is big.
pub fn gen_rd(dst: &str, nbfic: u32, nbfold: u32) -> (r: String)
    ensures
        r@ == rd_text(dst@, nbfic, nbfold),
{
    let mut cmd = String::from_str("rm -rf \"");
    cmd.append(dst);
    cmd.append("\"");
    if nbfold > 10 || nbfic > 100 {
        let mut res = String::from_str("echo ");
        let q = path_debug(dst);
        res.append(q.as_str());
        res.append(" Contains ");
        let a = dec_u64(nbfold as u64);
        res.append(a.as_str());
        res.append(" folders and ");
        let b = dec_u64(nbfic as u64);
        res.append(b.as_str());
        res.append("  files.");
        res.append("\n");
        res.append("echo Do you wish to delete this folder? \"Yes\" will Proceed, Anything Else will keep it");
        res.append("\n");
        res.append("    read yn");
        res.append("\n");
        res.append("        case $yn in");
        res.append("\n");
        res.append("            Yes) ");
        res.append(cmd.as_str());
        res.append(";;");
        res.append("\n");
        res.append("            *) echo avoid delete ;;");
        res.append("\n");
        res.append("        esac");
        res.append("\n");
        proof {
            reveal_strlit("\n");
        }
        res
    } else {
        cmd
    }
}

/// The two first lines of the script.
pub fn start_script() -> (r: (String, String))
    ensures
        r.0@ == "#/bin/sh"@,
        r.1@ == ""@,
{
    (String::from_str("#/bin/sh"), String::from_str(""))
}

} // verus!
