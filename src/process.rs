//! The realtime process handler: one bounded, non-blocking pass per cycle.
use vstd::prelude::*;

use crate::channel::Inbox;

verus! {

/// Most buffers taken from the frame channel in one cycle, so that a cycle's
/// work stays bounded however fast the host sends.
pub const MAX_DRAIN: usize = 1024;

/// The buffer that a cycle applies out of those it took, in the order they
/// were sent: the most recent one whose length is `size`, if there is one.
pub open spec fn latest_fitting<S>(pending: Seq<Seq<S>>, size: nat) -> Option<Seq<S>>
    decreases pending.len(),
{
    if pending.len() == 0 {
        None
    } else if pending.last().len() == size {
        Some(pending.last())
    } else {
        latest_fitting(pending.drop_last(), size)
    }
}

/// The output buffer after a cycle that took `pending` from the frame channel.
pub open spec fn cycle_output<S>(out: Seq<S>, pending: Seq<Seq<S>>) -> Seq<S> {
    match latest_fitting(pending, out.len()) {
        Some(f) => f,
        None => out,
    }
}

/// The buffer that a cycle applies is one whole buffer that was sent, and no
/// buffer sent after it has the right length: the most recent fitting buffer
/// supersedes all older ones.
pub proof fn lemma_latest_fitting_is_last_fit<S>(pending: Seq<Seq<S>>, size: nat)
    ensures
        latest_fitting(pending, size) matches Some(f) ==> exists|i: int|
            0 <= i < pending.len() && #[trigger] pending[i] == f && f.len() == size
                && forall|j: int| i < j < pending.len() ==> #[trigger] pending[j].len() != size,
        latest_fitting(pending, size) is None ==> forall|j: int|
            0 <= j < pending.len() ==> #[trigger] pending[j].len() != size,
    decreases pending.len(),
{
    if pending.len() > 0 {
        let rest = pending.drop_last();
        lemma_latest_fitting_is_last_fit(rest, size);
        if pending.last().len() != size {
            if let Some(f) = latest_fitting(rest, size) {
                let i = choose|i: int|
                    0 <= i < rest.len() && #[trigger] rest[i] == f && f.len() == size
                        && forall|j: int| i < j < rest.len() ==> #[trigger] rest[j].len() != size;
                assert(pending[i] == f);
                assert forall|j: int| i < j < pending.len() implies #[trigger] pending[j].len() != size by {
                    if j < rest.len() {
                        assert(rest[j] == pending[j]);
                    }
                }
            } else {
                assert forall|j: int| 0 <= j < pending.len() implies #[trigger] pending[j].len() != size by {
                    if j < rest.len() {
                        assert(rest[j] == pending[j]);
                    }
                }
            }
        } else {
            assert(pending[pending.len() - 1] == pending.last());
        }
    }
}

/// Whatever the host sent before a cycle, the output after it is the
/// previous output or exactly one of the buffers sent, never a mix of two;
/// and when the most recent buffer fits, it is that one.
pub proof fn lemma_cycle_output_whole<S>(out: Seq<S>, pending: Seq<Seq<S>>)
    ensures
        cycle_output(out, pending) == out || exists|i: int|
            0 <= i < pending.len() && #[trigger] pending[i] == cycle_output(out, pending),
        cycle_output(out, pending).len() == out.len(),
        pending.len() > 0 && pending.last().len() == out.len() ==> cycle_output(out, pending)
            == pending.last(),
{
    lemma_latest_fitting_is_last_fit(pending, out.len());
}

/// A buffer of the wrong length has no effect on the output, wherever it
/// stands among the buffers a cycle takes.
pub proof fn lemma_wrong_length_ignored<S>(
    out: Seq<S>,
    before: Seq<Seq<S>>,
    bad: Seq<S>,
    after: Seq<Seq<S>>,
)
    requires
        bad.len() != out.len(),
    ensures
        cycle_output(out, before + seq![bad] + after) == cycle_output(out, before + after),
    decreases after.len(),
{
    let with_bad = before + seq![bad] + after;
    let without = before + after;
    if after.len() == 0 {
        assert(with_bad.drop_last() =~= before);
        assert(without =~= before);
    } else {
        let shorter = after.drop_last();
        lemma_wrong_length_ignored(out, before, bad, shorter);
        assert(with_bad.last() == after.last());
        assert(without.last() == after.last());
        assert(with_bad.drop_last() =~= before + seq![bad] + shorter);
        assert(without.drop_last() =~= before + shorter);
    }
}

/// What a cycle reports to the host.
pub struct CycleReport<S> {
    /// The cycle's frame count, when per-cycle requests are configured.
    pub request: Option<u32>,
    /// A copy of the input buffer, when it is not empty.
    pub in_frames: Option<Vec<S>>,
    /// Whether a buffer from the frame channel was copied to the output.
    pub applied: bool,
}

/// The realtime process handler of a session.
#[verifier::reject_recursive_types(S)]
pub struct Processor<S> {
    frames: Inbox<Vec<S>>,
    use_callback: bool,
}

/// Keeps `incoming` in place of `latest` when its length is `size`.
pub fn keep_latest<S>(latest: Option<Vec<S>>, incoming: Vec<S>, size: usize) -> (r: Option<Vec<S>>)
    ensures
        incoming@.len() == size ==> r == Some(incoming),
        incoming@.len() != size ==> r == latest,
{
    if incoming.len() == size {
        Some(incoming)
    } else {
        latest
    }
}

/// Copies `frames` into `out`, or leaves `out` untouched and fails when the
/// two lengths differ.
pub fn copy_frames<S: Copy>(out: &mut [S], frames: &[S]) -> (r: bool)
    ensures
        r == (frames@.len() == old(out)@.len()),
        r ==> final(out)@ == frames@,
        !r ==> final(out)@ == old(out)@,
{
    if frames.len() != out.len() {
        return false;
    }
    let n = out.len();
    let mut i: usize = 0;
    while i < n
        invariant
            n == out@.len(),
            n == frames@.len(),
            i <= n,
            forall|j: int| 0 <= j < i ==> out@[j] == frames@[j],
        decreases n - i,
    {
        out[i] = frames[i];
        i = i + 1;
    }
    assert(out@ =~= frames@);
    true
}

/// The report's copy of the input buffer: present exactly when it is not empty.
pub fn forward_input<S: Copy>(input: &[S]) -> (r: Option<Vec<S>>)
    ensures
        input@.len() == 0 ==> r is None,
        input@.len() > 0 ==> r is Some && r->0@ == input@,
{
    if input.len() == 0 {
        return None;
    }
    let mut v: Vec<S> = Vec::with_capacity(input.len());
    let mut i: usize = 0;
    while i < input.len()
        invariant
            i <= input@.len(),
            v@ == input@.subrange(0, i as int),
        decreases input@.len() - i,
    {
        v.push(input[i]);
        i = i + 1;
    }
    assert(v@ =~= input@);
    Some(v)
}

/// The items appended to `before` to give `after`.
pub open spec fn since<S>(before: Seq<Seq<S>>, after: Seq<Seq<S>>) -> Seq<Seq<S>> {
    after.subrange(before.len() as int, after.len() as int)
}

impl<S: Copy> Processor<S> {
    pub fn new(frames: Inbox<Vec<S>>, use_callback: bool) -> (r: Processor<S>)
        ensures
            r.uses_callback() == use_callback,
            r.taken() == frames.received().map_values(|v: Vec<S>| v@),
            r.empty_polls() == frames.empty_polls(),
    {
        Processor { frames, use_callback }
    }

    pub closed spec fn uses_callback(&self) -> bool {
        self.use_callback
    }

    /// The buffers this handler has taken from the frame channel so far,
    /// oldest first.
    pub closed spec fn taken(&self) -> Seq<Seq<S>> {
        self.frames.received().map_values(|v: Vec<S>| v@)
    }

    /// How many polls of the frame channel found nothing pending.
    pub closed spec fn empty_polls(&self) -> nat {
        self.frames.empty_polls()
    }

    /// Takes up to `MAX_DRAIN` pending buffers, oldest first, and keeps the
    /// last whose length is `size`; the others are dropped.
    fn take_latest(&mut self, size: usize) -> (r: Option<Vec<S>>)
        ensures
            final(self).uses_callback() == old(self).uses_callback(),
            old(self).taken().len() <= final(self).taken().len() <= old(self).taken().len() + MAX_DRAIN,
            final(self).taken() == old(self).taken() + since(old(self).taken(), final(self).taken()),
            r matches Some(f) ==> f@.len() == size && latest_fitting(
                since(old(self).taken(), final(self).taken()),
                size as nat,
            ) == Some(f@),
            r is None ==> latest_fitting(since(old(self).taken(), final(self).taken()), size as nat) is None,
            final(self).empty_polls() == old(self).empty_polls() + (if final(self).taken().len()
                < old(self).taken().len() + MAX_DRAIN { 1nat } else { 0nat }),
    {
        let ghost start = self.taken();
        let ghost use_callback = self.use_callback;
        let ghost e0 = self.empty_polls();
        let mut latest: Option<Vec<S>> = None;
        let ghost mut batch: Seq<Seq<S>> = seq![];
        let mut taken: usize = 0;
        while taken < MAX_DRAIN
            invariant_except_break
                self.empty_polls() == e0,
            invariant
                self.use_callback == use_callback,
                taken <= MAX_DRAIN,
                batch.len() == taken as nat,
                self.taken() == start + batch,
                latest matches Some(f) ==> f@.len() == size && latest_fitting(batch, size as nat) == Some(f@),
                latest is None ==> latest_fitting(batch, size as nat) is None,
            ensures
                self.empty_polls() == e0 + (if taken < MAX_DRAIN { 1nat } else { 0nat }),
            decreases MAX_DRAIN - taken,
        {
            let ghost prev = self.frames.received();
            match self.frames.try_take() {
                Some(f) => {
                    proof {
                        let ghost next = batch.push(f@);
                        assert(next.drop_last() =~= batch);
                        assert(self.frames.received() == prev.push(f));
                        assert(prev.map_values(|v: Vec<S>| v@) == start + batch);
                        let ghost now = self.taken();
                        assert(prev.map_values(|v: Vec<S>| v@).len() == prev.len());
                        assert(prev.len() == start.len() + batch.len());
                        assert forall|i: int| 0 <= i < now.len() implies now[i] == (start + next)[i] by {
                            if i < prev.len() {
                                assert(prev.push(f)[i] == prev[i]);
                                assert(prev.map_values(|v: Vec<S>| v@)[i] == prev[i]@);
                            }
                        }
                        assert(now =~= start + next);
                        batch = next;
                    }
                    latest = keep_latest(latest, f, size);
                },
                None => {
                    break;
                },
            }
            taken = taken + 1;
        }
        assert(since(start, self.taken()) =~= batch);
        latest
    }

    /// One cycle: reports the frame request and the input, then takes the
    /// pending buffers until a poll finds none left or `MAX_DRAIN` were taken
    /// (any beyond wait for the next cycle), and copies the most recent one of the right length to
    /// `out`. Without such a buffer `out` keeps its previous content.
    pub fn process(&mut self, n_frames: u32, input: &[S], out: &mut [S]) -> (r: CycleReport<S>)
        ensures
            final(self).uses_callback() == old(self).uses_callback(),
            r.request == (if old(self).uses_callback() { Some(n_frames) } else { None::<u32> }),
            input@.len() == 0 ==> r.in_frames is None,
            input@.len() > 0 ==> r.in_frames is Some && r.in_frames->0@ == input@,
            old(self).taken().len() <= final(self).taken().len() <= old(self).taken().len() + MAX_DRAIN,
            final(self).taken() == old(self).taken() + since(old(self).taken(), final(self).taken()),
            final(out)@ == cycle_output(old(out)@, since(old(self).taken(), final(self).taken())),
            r.applied == latest_fitting(since(old(self).taken(), final(self).taken()), old(out)@.len()) is Some,
            final(self).taken().len() < old(self).taken().len() + MAX_DRAIN ==> final(self).empty_polls()
                == old(self).empty_polls() + 1,
            final(self).taken().len() == old(self).taken().len() + MAX_DRAIN ==> final(self).empty_polls()
                == old(self).empty_polls(),
    {
        let request = if self.use_callback { Some(n_frames) } else { None };
        let in_frames = forward_input(input);
        let latest = self.take_latest(out.len());
        let applied = match latest {
            Some(f) => copy_frames(out, f.as_slice()),
            None => false,
        };
        CycleReport { request, in_frames, applied }
    }
}

} // verus!
