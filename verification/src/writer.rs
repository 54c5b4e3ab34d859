use vstd::prelude::*;

verus! {

/// Writes lines to the console and counts them.  The line to print is
/// handed back by [`WriterConsole::write`]; the caller prints it.
pub struct WriterConsole {
    pub nb_ecr: i32,
}

impl WriterConsole {
    /// A writer that has written nothing.
    pub fn new() -> (r: WriterConsole)
        ensures
            r.nb_ecr == 0,
    {
        WriterConsole { nb_ecr: 0 }
    }

    /// Writes one line: it is counted, and handed back to be printed.
    pub fn write(&mut self, data: String) -> (r: String)
        requires
            old(self).nb_ecr < i32::MAX,
        ensures
            r@ == data@,
            final(self).nb_ecr == old(self).nb_ecr + 1,
    {
        self.nb_ecr = self.nb_ecr + 1;
        data
    }

    /// How many lines were written.
    pub fn get_nb_ecr(&self) -> (r: i32)
        ensures
            r == self.nb_ecr,
    {
        self.nb_ecr
    }
}

/// A new writer followed by `k` writes has counted `k` lines: `ws` holds
/// the writer after [`WriterConsole::new`] and after each following
/// [`WriterConsole::write`], as their `ensures` give them.
pub proof fn lemma_writes_counted(ws: Seq<WriterConsole>)
    requires
        ws.len() > 0,
        ws[0].nb_ecr == 0,
        forall|i: int| 0 <= i < ws.len() - 1 ==> #[trigger] ws[i + 1].nb_ecr == ws[i].nb_ecr + 1,
    ensures
        forall|i: int| 0 <= i < ws.len() ==> #[trigger] ws[i].nb_ecr == i,
    decreases ws.len(),
{
    if ws.len() > 1 {
        let pre = ws.drop_last();
        assert forall|i: int| 0 <= i < pre.len() - 1 implies #[trigger] pre[i + 1].nb_ecr == pre[i].nb_ecr + 1 by {
            assert(ws[i + 1].nb_ecr == ws[i].nb_ecr + 1);
        }
        lemma_writes_counted(pre);
        let j = ws.len() - 2;
        assert(ws[j + 1].nb_ecr == ws[j].nb_ecr + 1);
        assert(pre[j].nb_ecr == j);
        assert forall|i: int| 0 <= i < ws.len() implies #[trigger] ws[i].nb_ecr == i by {
            if i < ws.len() - 1 {
                assert(pre[i].nb_ecr == i);
            }
        }
    }
}

} // verus!
