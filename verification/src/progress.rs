//! Progress accounting for streamed copy and download operations.
//!
//! Progress is the exact fraction of bytes handled so far over the total,
//! kept as an integer pair so that the ordering of reported values can be
//! stated and proved. The embedding application turns a [`Progress`] into a
//! floating-point number only at the edge where it is displayed or emitted.

use vstd::prelude::*;

verus! {

/// Fractional progress of one operation: `num / den`, with `num <= den`
/// and `den >= 1`, so the value always lies in `[0, 1]` and equals `1`
/// exactly when `num == den`.
#[derive(Debug, Clone, Copy, PartialEq, Eq, Structural)]
pub struct Progress {
    /// Bytes accounted so far (clamped to the total).
    pub num: u64,
    /// The total the operation runs to.
    pub den: u64,
}

impl Progress {
    /// The pair is a well-formed fraction in `[0, 1]`.
    pub open spec fn wf(self) -> bool {
        1 <= self.den && self.num <= self.den
    }

    /// The fraction equals one: the operation is complete.
    pub open spec fn is_complete(self) -> bool {
        self.num == self.den
    }

    /// Fraction order: `self <= other`, by cross multiplication.
    pub open spec fn le(self, other: Progress) -> bool {
        self.num * other.den <= other.num * self.den
    }

    /// The completed fraction `1/1`.
    pub open spec fn one() -> Progress {
        Progress { num: 1, den: 1 }
    }

    /// Build the progress fraction for `done` bytes out of `total`.
    /// A zero total reports completion at once; a count beyond the total
    /// is clamped, so the result never exceeds one.
    pub fn from_counts(done: u64, total: u64) -> (p: Progress)
        ensures
            p == Self::spec_from_counts(done, total),
            p.wf(),
    {
        if total == 0 {
            Progress { num: 1, den: 1 }
        } else if done <= total {
            Progress { num: done, den: total }
        } else {
            Progress { num: total, den: total }
        }
    }

    /// What `from_counts` returns.
    pub open spec fn spec_from_counts(done: u64, total: u64) -> Progress {
        if total == 0 {
            Progress { num: 1, den: 1 }
        } else if done <= total {
            Progress { num: done, den: total }
        } else {
            Progress { num: total, den: total }
        }
    }

    /// Report whether this progress value is the final one.
    pub fn complete(&self) -> (r: bool)
        ensures
            r == self.is_complete(),
    {
        self.num == self.den
    }
}

/// Two well-formed fractions over one denominator are ordered as their
/// numerators are.
pub proof fn lemma_le_same_den(a: Progress, b: Progress)
    requires
        a.wf(),
        b.wf(),
        a.den == b.den,
        a.num <= b.num,
    ensures
        a.le(b),
{
    assert(a.num * b.den <= b.num * a.den) by (nonlinear_arith)
        requires
            a.num <= b.num,
            a.den == b.den,
    ;
}

/// A sequence of progress values is non-decreasing under fraction order.
pub open spec fn monotone(s: Seq<Progress>) -> bool {
    forall|i: int, j: int| 0 <= i <= j < s.len() ==> #[trigger] s[i].le(#[trigger] s[j])
}

/// Progress accounting for one local streamed copy.
///
/// The host reads the source in chunks; after writing each chunk it calls
/// [`CopyTracker::step`] with the chunk size and reports the returned value.
/// A zero-byte source is complete at once, and its single progress value
/// comes out of [`CopyTracker::new`]. The ghost field `emitted` records
/// every value handed out, so the shape of the whole report stream can be
/// stated and proved.
pub struct CopyTracker {
    total: u64,
    copied: u64,
    emitted: Ghost<Seq<Progress>>,
}

impl CopyTracker {
    /// The total byte count the copy runs to.
    pub closed spec fn total(self) -> u64 {
        self.total
    }

    /// Bytes accounted so far.
    pub closed spec fn copied(self) -> u64 {
        self.copied
    }

    /// Every progress value handed out so far, oldest first.
    pub closed spec fn emitted(self) -> Seq<Progress> {
        self.emitted@
    }

    /// Internal consistency of the tracker and of its report stream.
    pub closed spec fn wf(self) -> bool {
        &&& self.copied <= self.total
        &&& (self.total == 0 ==> self.emitted@ =~= seq![Progress::one()])
        &&& (self.total > 0 ==> {
            &&& forall|i: int|
                0 <= i < self.emitted@.len() ==> (#[trigger] self.emitted@[i]).den == self.total
                    && self.emitted@[i].num <= self.copied && self.emitted@[i].wf()
            &&& forall|i: int, j: int|
                0 <= i <= j < self.emitted@.len() ==> (#[trigger] self.emitted@[i]).num
                    <= (#[trigger] self.emitted@[j]).num
            &&& (self.copied > 0 ==> self.emitted@.len() > 0
                && self.emitted@.last().num == self.copied)
            &&& (self.copied == 0 ==> self.emitted@.len() == 0)
        })
    }

    /// The copy has accounted for every byte of the source.
    pub open spec fn is_done(self) -> bool {
        self.copied() == self.total()
    }

    /// Report whether the copy has accounted for every byte.
    pub fn done(&self) -> (r: bool)
        ensures
            r == self.is_done(),
    {
        self.copied == self.total
    }

    /// Start tracking a copy of `total` bytes. For an empty source the
    /// operation is already complete and the one progress value to report
    /// is returned here; otherwise no value is due yet.
    pub fn new(total: u64) -> (r: (CopyTracker, Option<Progress>))
        ensures
            r.0.wf(),
            r.0.total() == total,
            r.0.copied() == 0,
            total == 0 ==> r.1 == Some(Progress::one()) && r.0.emitted() =~= seq![
                Progress::one(),
            ] && r.0.is_done(),
            total > 0 ==> r.1 is None && r.0.emitted() =~= Seq::<Progress>::empty(),
    {
        if total == 0 {
            let t = CopyTracker {
                total,
                copied: 0,
                emitted: Ghost(Seq::empty().push(Progress::one())),
            };
            (t, Some(Progress { num: 1, den: 1 }))
        } else {
            let t = CopyTracker { total, copied: 0, emitted: Ghost(Seq::empty()) };
            (t, None)
        }
    }

    /// Account for one chunk of `n` bytes just written and return the
    /// progress value to report for it: bytes copied so far over the total.
    pub fn step(&mut self, n: u64) -> (p: Progress)
        requires
            old(self).wf(),
            old(self).total() > 0,
            1 <= n <= old(self).total() - old(self).copied(),
        ensures
            final(self).wf(),
            final(self).total() == old(self).total(),
            final(self).copied() == old(self).copied() + n,
            p == (Progress { num: final(self).copied(), den: final(self).total() }),
            p.wf(),
            final(self).emitted() =~= old(self).emitted().push(p),
            final(self).is_done() <==> p.is_complete(),
    {
        self.copied = self.copied + n;
        let p = Progress { num: self.copied, den: self.total };
        proof {
            self.emitted@ = self.emitted@.push(p);
        }
        p
    }
}

/// For every source of any size, the progress values a completed copy has
/// reported all lie in `[0, 1]` and are non-decreasing, at least one was
/// reported, and the last one equals one.
pub proof fn lemma_copy_stream_shape(t: CopyTracker)
    requires
        t.wf(),
        t.is_done(),
    ensures
        forall|i: int| 0 <= i < t.emitted().len() ==> (#[trigger] t.emitted()[i]).wf(),
        monotone(t.emitted()),
        t.emitted().len() > 0,
        t.emitted().last().is_complete(),
{
    if t.total() == 0 {
        assert(t.emitted() =~= seq![Progress::one()]);
        assert forall|i: int, j: int|
            0 <= i <= j < t.emitted().len() implies #[trigger] t.emitted()[i].le(
            #[trigger] t.emitted()[j],
        ) by {
            lemma_le_same_den(t.emitted()[i], t.emitted()[j]);
        }
    } else {
        assert forall|i: int, j: int|
            0 <= i <= j < t.emitted().len() implies #[trigger] t.emitted()[i].le(
            #[trigger] t.emitted()[j],
        ) by {
            lemma_le_same_den(t.emitted()[i], t.emitted()[j]);
        }
    }
}

/// Progress accounting for one streamed download.
///
/// The server may or may not announce a content length. With a known,
/// positive length every received chunk yields a progress value, clamped so
/// it never exceeds one even if the body outruns the announced length. With
/// an unknown (or zero) length no progress value is ever produced: the host
/// stays silent rather than guessing.
pub struct DownloadTracker {
    len_hint: u64,
    received: u64,
    emitted: Ghost<Seq<Progress>>,
}

impl DownloadTracker {
    /// The announced content length; zero stands for "unknown".
    pub closed spec fn len_hint(self) -> u64 {
        self.len_hint
    }

    /// Bytes received so far.
    pub closed spec fn received(self) -> u64 {
        self.received
    }

    /// Every progress value handed out so far, oldest first.
    pub closed spec fn emitted(self) -> Seq<Progress> {
        self.emitted@
    }

    /// Internal consistency of the tracker and of its report stream.
    pub closed spec fn wf(self) -> bool {
        &&& (self.len_hint == 0 ==> self.emitted@.len() == 0)
        &&& (self.len_hint > 0 ==> {
            &&& forall|i: int|
                0 <= i < self.emitted@.len() ==> (#[trigger] self.emitted@[i]).den
                    == self.len_hint && self.emitted@[i].num <= self.received
                    && self.emitted@[i].wf()
            &&& forall|i: int, j: int|
                0 <= i <= j < self.emitted@.len() ==> (#[trigger] self.emitted@[i]).num
                    <= (#[trigger] self.emitted@[j]).num
        })
    }

    /// Start tracking a download whose content length is `content_length`,
    /// if the server announced one.
    pub fn new(content_length: Option<u64>) -> (t: DownloadTracker)
        ensures
            t.wf(),
            t.received() == 0,
            t.emitted() =~= Seq::<Progress>::empty(),
            t.len_hint() == (match content_length {
                Some(n) => n,
                None => 0u64,
            }),
    {
        let len_hint = match content_length {
            Some(n) => n,
            None => 0,
        };
        DownloadTracker { len_hint, received: 0, emitted: Ghost(Seq::empty()) }
    }

    /// Account for one received chunk of `n` bytes. With a known positive
    /// length the value to report is returned, clamped to one; with an
    /// unknown length nothing is.
    pub fn step(&mut self, n: u64) -> (r: Option<Progress>)
        requires
            old(self).wf(),
            1 <= n,
            old(self).received() + n <= u64::MAX,
        ensures
            final(self).wf(),
            final(self).len_hint() == old(self).len_hint(),
            final(self).received() == old(self).received() + n,
            old(self).len_hint() == 0 ==> r is None && final(self).emitted() =~= old(
                self,
            ).emitted(),
            old(self).len_hint() > 0 ==> {
                &&& r == Some(
                    Progress::spec_from_counts(final(self).received(), final(self).len_hint()),
                )
                &&& final(self).emitted() =~= old(self).emitted().push(r->Some_0)
                &&& r->Some_0.wf()
            },
    {
        self.received = self.received + n;
        if self.len_hint == 0 {
            None
        } else {
            let p = Progress::from_counts(self.received, self.len_hint);
            proof {
                self.emitted@ = self.emitted@.push(p);
            }
            Some(p)
        }
    }
}

/// Every progress value a download reports lies in `[0, 1]`, the stream is
/// non-decreasing, and with no announced content length the stream is empty.
pub proof fn lemma_download_stream_shape(t: DownloadTracker)
    requires
        t.wf(),
    ensures
        forall|i: int| 0 <= i < t.emitted().len() ==> (#[trigger] t.emitted()[i]).wf(),
        monotone(t.emitted()),
        t.len_hint() == 0 ==> t.emitted().len() == 0,
{
    assert forall|i: int, j: int|
        0 <= i <= j < t.emitted().len() implies #[trigger] t.emitted()[i].le(
        #[trigger] t.emitted()[j],
    ) by {
        lemma_le_same_den(t.emitted()[i], t.emitted()[j]);
    }
}

} // verus!
