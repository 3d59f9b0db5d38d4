use vstd::prelude::*;

verus! {

/// Most entries a log keeps; the oldest is evicted first.
pub const LOG_CAPACITY: usize = 1000;

/// Appending `x` to a log that keeps at most `cap` entries.
pub open spec fn bounded_push<T>(s: Seq<T>, x: T, cap: nat) -> Seq<T> {
    let t = s.push(x);
    if t.len() > cap {
        t.drop_first()
    } else {
        t
    }
}

/// Appending every entry of `xs`, in order.
pub open spec fn push_all<T>(s: Seq<T>, xs: Seq<T>, cap: nat) -> Seq<T>
    decreases xs.len(),
{
    if xs.len() == 0 {
        s
    } else {
        bounded_push(push_all(s, xs.drop_last(), cap), xs.last(), cap)
    }
}

/// The last `cap` entries of `s` (all of them when there are fewer).
pub open spec fn newest<T>(s: Seq<T>, cap: nat) -> Seq<T> {
    if s.len() > cap {
        s.subrange(s.len() - cap, s.len() as int)
    } else {
        s
    }
}

/// Bounded history: a log that starts within its capacity and receives any
/// number of entries holds exactly the newest `cap` of everything it was
/// given, oldest evicted first. Past `cap` entries its length stays `cap`.
pub proof fn lemma_push_all_keeps_newest<T>(s: Seq<T>, xs: Seq<T>, cap: nat)
    requires
        cap > 0,
        s.len() <= cap,
    ensures
        push_all(s, xs, cap) == newest(s + xs, cap),
        (s + xs).len() >= cap ==> push_all(s, xs, cap).len() == cap,
    decreases xs.len(),
{
    if xs.len() > 0 {
        lemma_push_all_keeps_newest(s, xs.drop_last(), cap);
        let prev = push_all(s, xs.drop_last(), cap);
        let all = s + xs;
        assert(s + xs.drop_last() =~= all.drop_last());
        if all.len() > cap {
            assert(bounded_push(prev, xs.last(), cap) =~= all.subrange(
                all.len() - cap,
                all.len() as int,
            ));
        } else {
            assert(bounded_push(prev, xs.last(), cap) =~= all);
        }
    } else {
        assert(s + xs =~= s);
    }
}

/// An append-only log holding at most `LOG_CAPACITY` entries.
#[derive(Debug)]
pub struct BoundedLog<T> {
    entries: Vec<T>,
}

impl<T> View for BoundedLog<T> {
    type V = Seq<T>;

    closed spec fn view(&self) -> Seq<T> {
        self.entries@
    }
}

impl<T> BoundedLog<T> {
    pub open spec fn wf(&self) -> bool {
        self@.len() <= LOG_CAPACITY
    }

    pub fn new() -> (r: Self)
        ensures
            r@ == Seq::<T>::empty(),
            r.wf(),
    {
        BoundedLog { entries: Vec::new() }
    }

    /// Appends, evicting the oldest entry when the log is full.
    pub fn push(&mut self, x: T)
        requires
            old(self).wf(),
        ensures
            final(self)@ == bounded_push(old(self)@, x, LOG_CAPACITY as nat),
            final(self).wf(),
    {
        self.entries.push(x);
        if self.entries.len() > LOG_CAPACITY {
            self.entries.remove(0);
            proof {
                assert(self.entries@ =~= bounded_push(old(self)@, x, LOG_CAPACITY as nat));
            }
        }
    }

    pub fn len(&self) -> (r: usize)
        ensures
            r == self@.len(),
    {
        self.entries.len()
    }

    pub fn get(&self, i: usize) -> (r: &T)
        requires
            i < self@.len(),
        ensures
            *r == self@[i as int],
    {
        &self.entries[i]
    }

    pub fn as_slice(&self) -> (r: &[T])
        ensures
            r@ == self@,
    {
        self.entries.as_slice()
    }
}

} // verus!
