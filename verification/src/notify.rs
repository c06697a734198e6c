use vstd::prelude::*;

use std::time::Instant;

verus! {

/// Seconds a notification stays on screen before it expires.
pub const NOTIFICATION_TIME_LIMIT_SECS: u64 = 5;

/// The standard library's monotonic clock reading; opaque to the proofs.
#[verifier::external_type_specification]
#[verifier::external_body]
pub struct ExInstant(Instant);

/// Relies on `std::time::Instant::now`: a reading of the monotonic clock.
/// Nothing is assumed of it; two calls may differ.
#[verifier::external_body]
fn now_instant() -> (r: Instant) {
    Instant::now()
}

/// Relies on `std::time::Instant::elapsed` and `Duration::as_secs`: whole
/// seconds since the reading was taken. Time-dependent, so nothing is
/// assumed of the result.
#[verifier::external_body]
fn elapsed_secs(t: &Instant) -> (r: u64) {
    t.elapsed().as_secs()
}

/// One transient message shown to the user, stamped with its creation
/// time.
pub struct Notification {
    pub title: String,
    pub message: String,
    pub time_stamp: Instant,
}

impl Notification {
    /// Stamp a fresh notification with the current time.
    pub fn new(title: &str, message: &str) -> (r: Notification)
        ensures
            r.title@ == title@,
            r.message@ == message@,
    {
        Notification {
            title: String::from_str(title),
            message: String::from_str(message),
            time_stamp: now_instant(),
        }
    }

    /// Whether the notification has outlived its time limit. The answer
    /// depends on the clock, so nothing is promised of it.
    pub fn expired(&self) -> bool {
        elapsed_secs(&self.time_stamp) > NOTIFICATION_TIME_LIMIT_SECS
    }
}

/// Height of one rendered notification: the message wrapped at the inner
/// width, plus the frame, saturating at the largest representable height.
pub open spec fn spec_notification_height(message_len: nat, width: u16) -> int {
    let lines = message_len as int / (width - 2) + 5;
    if lines > u16::MAX {
        u16::MAX as int
    } else {
        lines
    }
}

/// `a` is `b` with zero or more elements removed: the survivors keep
/// their relative order and are the very elements of `b`.
pub open spec fn subsequence_of<T>(a: Seq<T>, b: Seq<T>) -> bool
    decreases a.len() + b.len(),
{
    if a.len() == 0 {
        true
    } else if b.len() == 0 {
        false
    } else if a[0] == b[0] {
        subsequence_of(a.drop_first(), b.drop_first())
    } else {
        subsequence_of(a, b.drop_first())
    }
}

proof fn lemma_subsequence_extend<T>(a: Seq<T>, b: Seq<T>, x: T)
    requires
        subsequence_of(a, b),
    ensures
        subsequence_of(a, b.push(x)),
    decreases a.len() + b.len(),
{
    if a.len() > 0 {
        assert(b.push(x)[0] == b[0]);
        assert(b.push(x).drop_first() =~= b.drop_first().push(x));
        if a[0] == b[0] {
            lemma_subsequence_extend(a.drop_first(), b.drop_first(), x);
        } else {
            lemma_subsequence_extend(a, b.drop_first(), x);
        }
    }
}

proof fn lemma_subsequence_single<T>(b: Seq<T>, x: T)
    ensures
        subsequence_of(seq![x], b.push(x)),
    decreases b.len(),
{
    assert(subsequence_of(Seq::<T>::empty(), Seq::<T>::empty()));
    if b.len() == 0 {
        assert(b.push(x) =~= seq![x]);
        assert(seq![x].drop_first() =~= Seq::<T>::empty());
        assert(seq![x][0] == x);
        assert(subsequence_of(seq![x], seq![x]));
    } else {
        assert(b.push(x)[0] == b[0]);
        if x == b[0] {
            assert(seq![x].drop_first() =~= Seq::<T>::empty());
            assert(subsequence_of(Seq::<T>::empty(), b.push(x).drop_first()));
        } else {
            lemma_subsequence_single(b.drop_first(), x);
            assert(b.push(x).drop_first() =~= b.drop_first().push(x));
        }
    }
}

proof fn lemma_subsequence_extend_both<T>(a: Seq<T>, b: Seq<T>, x: T)
    requires
        subsequence_of(a, b),
    ensures
        subsequence_of(a.push(x), b.push(x)),
    decreases a.len() + b.len(),
{
    if a.len() == 0 {
        lemma_subsequence_single(b, x);
        assert(a.push(x) =~= seq![x]);
    } else {
        assert(a.push(x)[0] == a[0] && b.push(x)[0] == b[0]);
        assert(a.push(x).drop_first() =~= a.drop_first().push(x));
        assert(b.push(x).drop_first() =~= b.drop_first().push(x));
        if a[0] == b[0] {
            lemma_subsequence_extend_both(a.drop_first(), b.drop_first(), x);
        } else {
            lemma_subsequence_extend_both(a, b.drop_first(), x);
        }
    }
}

/// The transient messages currently on screen, oldest first.
pub struct NotificationList {
    pub list: Vec<Notification>,
}

impl NotificationList {
    pub fn new() -> (r: NotificationList)
        ensures
            r.list@.len() == 0,
    {
        NotificationList { list: Vec::new() }
    }

    /// Append a freshly stamped notification.
    pub fn notify(&mut self, title: &str, message: &str)
        ensures
            final(self).list@.len() == old(self).list@.len() + 1,
            forall|i: int| 0 <= i < old(self).list@.len() ==> final(self).list@[i] == old(
                self,
            ).list@[i],
            final(self).list@.last().title@ == title@,
            final(self).list@.last().message@ == message@,
    {
        self.list.push(Notification::new(title, message));
    }

    /// Drop every notification whose time limit has passed. Which ones
    /// leave depends on the clock; what remains is a subsequence of what
    /// was there: the survivors, unmodified and in their original order.
    pub fn remove_expired(&mut self)
        ensures
            subsequence_of(final(self).list@, old(self).list@),
            final(self).list@.len() <= old(self).list@.len(),
    {
        let ghost orig = self.list@;
        let mut kept: Vec<Notification> = Vec::new();
        while self.list.len() > 0
            invariant
                orig == old(self).list@,
                self.list@.len() <= orig.len(),
                self.list@ == orig.skip(orig.len() - self.list@.len()),
                subsequence_of(kept@, orig.take(orig.len() - self.list@.len())),
                kept@.len() + self.list@.len() <= orig.len(),
            decreases self.list@.len(),
        {
            let ghost j = orig.len() - self.list@.len();
            let note = self.list.remove(0);
            proof {
                assert(note == orig.skip(j as int)[0]);
                assert(note == orig[j as int]);
                assert(self.list@ =~= orig.skip(j as int + 1));
                assert(orig.take(j as int + 1) =~= orig.take(j as int).push(orig[j as int]));
            }
            if note.expired() {
                proof {
                    lemma_subsequence_extend(kept@, orig.take(j as int), note);
                }
            } else {
                let ghost kept_before = kept@;
                kept.push(note);
                proof {
                    lemma_subsequence_extend_both(kept_before, orig.take(j as int), note);
                }
            }
        }
        proof {
            assert(orig.take(orig.len() as int) =~= orig);
        }
        self.list = kept;
    }

    /// The rendered height of each notification at the given terminal
    /// width. The width must leave room inside the frame.
    pub fn get_notification_heights(&self, width: u16) -> (r: Vec<u16>)
        requires
            width > 2,
        ensures
            r@.len() == self.list@.len(),
            forall|i: int| 0 <= i < r@.len() ==> r@[i] as int == spec_notification_height(
                self.list@[i].message@.len(),
                width,
            ),
    {
        let mut heights: Vec<u16> = Vec::new();
        let inner_width = (width - 2) as usize;
        let mut i: usize = 0;
        while i < self.list.len()
            invariant
                i <= self.list@.len(),
                width > 2,
                inner_width == width - 2,
                heights@.len() == i,
                forall|k: int| 0 <= k < i ==> heights@[k] as int == spec_notification_height(
                    self.list@[k].message@.len(),
                    width,
                ),
            decreases self.list@.len() - i,
        {
            let chars = self.list[i].message.as_str().unicode_len();
            let wrapped = chars / inner_width;
            if wrapped > (u16::MAX - 5) as usize {
                heights.push(u16::MAX);
            } else {
                heights.push(wrapped as u16 + 5);
            }
            i += 1;
        }
        heights
    }
}

} // verus!
