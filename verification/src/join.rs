use vstd::prelude::*;

use crate::constant::JOINER;
use crate::explorer::Place;
use crate::fold::Fold;
use crate::logger::{log_line, message_text, Logger, MessageType};
use crate::readconf::strs;
use crate::span::{duration_text, Span};
use crate::text::signed_decimal;

verus! {

/// The folders waiting for a partner: sources, then destinations.
pub type Queues = (Seq<Fold>, Seq<Fold>);

/// One folder arrives from side `p`: it joins its queue; when both queues
/// then hold a folder, the first of each leave together as a pair.
pub open spec fn join_step(q: Queues, p: Place, f: Fold) -> (Queues, Option<(Fold, Fold)>) {
    let s = match p {
        Place::Src => q.0.push(f),
        Place::Dst => q.0,
    };
    let d = match p {
        Place::Src => q.1,
        Place::Dst => q.1.push(f),
    };
    if s.len() > 0 && d.len() > 0 {
        ((s.drop_first(), d.drop_first()), Some((s[0], d[0])))
    } else {
        ((s, d), None)
    }
}

/// Pairs the sources with the destinations, in the order they are read.
/// The log lines it produces wait in `notes` until they are taken.
pub struct Joiner {
    pub src: Vec<Fold>,
    pub dst: Vec<Fold>,
    pub nb_src: i32,
    pub nb_dst: i32,
    pub nb_comp: i32,
    pub logger: Logger,
    pub notes: Vec<String>,
}

impl Joiner {
    /// The queues.
    pub open spec fn queues(self) -> Queues {
        (self.src@, self.dst@)
    }

    /// A joiner with empty queues; its first note says that it starts.
    pub fn new(verbose: bool) -> (r: Joiner)
        ensures
            r.queues() == (Seq::<Fold>::empty(), Seq::<Fold>::empty()),
            r.nb_src == 0 && r.nb_dst == 0 && r.nb_comp == 0,
            r.logger.name@ == JOINER@,
            r.logger.verbose == verbose,
            strs(r.notes@) == seq![log_line(JOINER@, "Starting"@)],
    {
        let logger = Logger::new(String::from_str(JOINER), verbose);
        let line = logger.starting();
        let mut notes: Vec<String> = Vec::new();
        let ghost lv = line@;
        notes.push(line);
        assert(strs(notes@) =~= seq![lv]);
        Joiner { src: Vec::new(), dst: Vec::new(), nb_src: 0, nb_dst: 0, nb_comp: 0, logger, notes }
    }

    /// The lines produced since the last call; none are left.
    pub fn take_notes(&mut self) -> (r: Vec<String>)
        ensures
            r@ == old(self).notes@,
            final(self).notes@.len() == 0,
            final(self).queues() == old(self).queues(),
            final(self).nb_src == old(self).nb_src,
            final(self).nb_dst == old(self).nb_dst,
            final(self).nb_comp == old(self).nb_comp,
            final(self).logger == old(self).logger,
    {
        let mut r: Vec<String> = Vec::new();
        std::mem::swap(&mut r, &mut self.notes);
        r
    }

    /// A folder `data` read from side `typ`: it is queued, and the pair
    /// that it completes, if any, is returned; verbose lines tell both.
    pub fn receive(&mut self, typ: Place, data: Fold) -> (r: Option<(Fold, Fold)>)
        requires
            old(self).nb_src < i32::MAX,
            old(self).nb_dst < i32::MAX,
            old(self).nb_comp < i32::MAX,
        ensures
            (final(self).queues(), r) == join_step(old(self).queues(), typ, data),
            final(self).nb_src == old(self).nb_src + if typ is Src { 1int } else { 0int },
            final(self).nb_dst == old(self).nb_dst + if typ is Dst { 1int } else { 0int },
            final(self).nb_comp == old(self).nb_comp + if r is Some { 1int } else { 0int },
            final(self).logger == old(self).logger,
            strs(final(self).notes@) == strs(old(self).notes@) + if old(self).logger.verbose {
                seq![log_line(old(self).logger.name@, "receive "@ + match typ {
                    Place::Src => "source"@,
                    Place::Dst => "destination"@,
                } + " data"@)] + if r is Some {
                    seq![log_line(old(self).logger.name@, "got a pair -> sending to comparers"@)]
                } else {
                    Seq::<Seq<char>>::empty()
                }
            } else {
                Seq::<Seq<char>>::empty()
            },
    {
        let ghost q = self.queues();
        let ghost n0 = strs(self.notes@);
        let mut m = String::from_str("receive ");
        let t = typ.to_string();
        m.append(t.as_str());
        m.append(" data");
        match self.logger.verbose(m) {
            Some(l) => {
                let ghost lv = l@;
                self.notes.push(l);
                assert(strs(self.notes@) =~= n0.push(lv));
            },
            None => {},
        }
        let ghost n1 = strs(self.notes@);
        match typ {
            Place::Src => {
                self.src.push(data);
                self.nb_src = self.nb_src + 1;
            },
            Place::Dst => {
                self.dst.push(data);
                self.nb_dst = self.nb_dst + 1;
            },
        }
        if self.src.len() > 0 && self.dst.len() > 0 {
            match self.logger.verbose(String::from_str("got a pair -> sending to comparers")) {
                Some(l) => {
                    let ghost lv = l@;
                    self.notes.push(l);
                    assert(strs(self.notes@) =~= n1.push(lv));
                },
                None => {},
            }
            let s = self.src.remove(0);
            let d = self.dst.remove(0);
            self.nb_comp = self.nb_comp + 1;
            assert(self.src@ =~= join_step(q, typ, data).0.0);
            assert(self.dst@ =~= join_step(q, typ, data).0.1);
            assert(strs(self.notes@) =~= strs(old(self).notes@) + if old(self).logger.verbose {
                seq![log_line(old(self).logger.name@, "receive "@ + match typ {
                    Place::Src => "source"@,
                    Place::Dst => "destination"@,
                } + " data"@)] + seq![log_line(old(self).logger.name@, "got a pair -> sending to comparers"@)]
            } else {
                Seq::<Seq<char>>::empty()
            });
            Some((s, d))
        } else {
            assert(strs(self.notes@) =~= strs(old(self).notes@) + if old(self).logger.verbose {
                seq![log_line(old(self).logger.name@, "receive "@ + match typ {
                    Place::Src => "source"@,
                    Place::Dst => "destination"@,
                } + " data"@)] + Seq::<Seq<char>>::empty()
            } else {
                Seq::<Seq<char>>::empty()
            });
            None
        }
    }

    /// The closing line: how many sources, destinations and pairs, with
    /// the time spent working and the time elapsed.
    pub fn finish(&self, tps: Span, elapse: Span) -> (r: String)
        requires
            tps.wf(),
            elapse.wf(),
        ensures
            r@ == log_line(
                self.logger.name@,
                "finished all (src:"@ + signed_decimal(self.nb_src as int) + " dst:"@ + signed_decimal(
                    self.nb_dst as int,
                ) + " cmp:"@ + signed_decimal(self.nb_comp as int) + ")"@ + " in "@ + duration_text(tps.secs, tps.nanos)
                    + "/"@ + duration_text(elapse.secs, elapse.nanos) + " "@,
            ),
    {
        let mut m = String::from_str("finished all (src:");
        let a = crate::text::dec_i64(self.nb_src as i64);
        m.append(a.as_str());
        m.append(" dst:");
        let b = crate::text::dec_i64(self.nb_dst as i64);
        m.append(b.as_str());
        m.append(" cmp:");
        let c = crate::text::dec_i64(self.nb_comp as i64);
        m.append(c.as_str());
        m.append(")");
        self.logger.dual_timed(m, tps, elapse).0
    }
}


/// The folders that arrived from side `p`, in order.
pub open spec fn arrivals_from(evs: Seq<(Place, Fold)>, p: Place) -> Seq<Fold>
    decreases evs.len(),
{
    if evs.len() == 0 {
        Seq::empty()
    } else {
        let pre = arrivals_from(evs.drop_last(), p);
        if evs.last().0 == p {
            pre.push(evs.last().1)
        } else {
            pre
        }
    }
}

/// The queues and the pairs produced, in order, when the arrivals `evs`
/// meet a joiner whose queues are empty.
pub open spec fn run_joiner(evs: Seq<(Place, Fold)>) -> (Queues, Seq<(Fold, Fold)>)
    decreases evs.len(),
{
    if evs.len() == 0 {
        ((Seq::empty(), Seq::empty()), Seq::empty())
    } else {
        let (q, ps) = run_joiner(evs.drop_last());
        let (q2, o) = join_step(q, evs.last().0, evs.last().1);
        (
            q2,
            match o {
                Some(pair) => ps.push(pair),
                None => ps,
            },
        )
    }
}

/// The joiner pairs the k-th source read with the k-th destination read:
/// after any arrivals, the pairs produced are the first sources and
/// destinations side by side, as many as the shorter side has, and the
/// rest of the longer side waits, in order (one queue is always empty).
pub proof fn lemma_joiner_pairs_in_order(evs: Seq<(Place, Fold)>)
    ensures
        ({
            let s = arrivals_from(evs, Place::Src);
            let d = arrivals_from(evs, Place::Dst);
            let n = if s.len() < d.len() { s.len() } else { d.len() };
            let r = run_joiner(evs);
            &&& r.1.len() == n
            &&& forall|k: int| 0 <= k < n ==> #[trigger] r.1[k] == (s[k], d[k])
            &&& r.0.0 == s.skip(n as int)
            &&& r.0.1 == d.skip(n as int)
            &&& (r.0.0.len() == 0 || r.0.1.len() == 0)
        }),
    decreases evs.len(),
{
    if evs.len() > 0 {
        let pre = evs.drop_last();
        lemma_joiner_pairs_in_order(pre);
        let s0 = arrivals_from(pre, Place::Src);
        let d0 = arrivals_from(pre, Place::Dst);
        let n0 = if s0.len() < d0.len() { s0.len() } else { d0.len() };
        let s = arrivals_from(evs, Place::Src);
        let d = arrivals_from(evs, Place::Dst);
        let n = if s.len() < d.len() { s.len() } else { d.len() };
        let (q, ps) = run_joiner(pre);
        let (p, f) = evs.last();
        match p {
            Place::Src => {
                assert(s == s0.push(f));
                assert(d == d0);
                if s0.len() < d0.len() {
                    assert(q.0.push(f) =~= seq![f]);
                    assert(n == n0 + 1);
                    assert(q.1[0] == d[n0 as int]);
                    assert(q.1.drop_first() =~= d.skip(n as int));
                    assert(seq![f].drop_first() =~= s.skip(n as int));
                    assert(s[n0 as int] == f);
                } else {
                    assert(n == n0);
                    assert(q.1.len() == 0);
                    assert(q.0.push(f) =~= s.skip(n as int));
                }
            },
            Place::Dst => {
                assert(d == d0.push(f));
                assert(s == s0);
                if d0.len() < s0.len() {
                    assert(q.1.push(f) =~= seq![f]);
                    assert(n == n0 + 1);
                    assert(q.0[0] == s[n0 as int]);
                    assert(q.0.drop_first() =~= s.skip(n as int));
                    assert(seq![f].drop_first() =~= d.skip(n as int));
                    assert(d[n0 as int] == f);
                } else {
                    assert(n == n0);
                    assert(q.0.len() == 0);
                    assert(q.1.push(f) =~= d.skip(n as int));
                }
            },
        }
    }
}

} // verus!
