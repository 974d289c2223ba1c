//! Reference counts of shared heap blocks, and the count-free headers of
//! uniquely owned ones.
//!
//! A block is a header followed by the payload that programs see. Two counts
//! are kept: the payload is dropped when the strong count reaches zero, and
//! the block itself is freed when the weak count is zero too. Until then a
//! weak reference can still read from the header that its referent is gone.
//!
//! A payload pointer is an `Option` here: a null pointer is `None`, and any
//! other is the header of the block it points into.
use vstd::prelude::*;

verus! {

/// The alignment of every block, in bytes.
pub const ALIGN: usize = 16;

/// The bytes of a shared block before its payload.
pub const HEADER_SIZE: usize = 32;

/// The bytes of a uniquely owned block before its payload.
pub const UNIQUE_HEADER_SIZE: usize = 16;

/// The size and the alignment of a block.
#[derive(Clone, Copy, Debug, PartialEq, Eq, Structural)]
pub struct Layout {
    pub size: usize,
    pub align: usize,
}

/// The header of a shared block.
#[derive(Clone, Copy, Debug, PartialEq, Eq, Structural)]
pub struct Header {
    pub strong: i64,
    pub weak: i64,
    /// The payload size that the block was allocated for.
    pub size: i64,
    /// Whether a drop callback was recorded.
    pub drop: bool,
}

/// The header of a uniquely owned block: what its sole owner needs to
/// destroy it, and no counts.
#[derive(Clone, Copy, Debug, PartialEq, Eq, Structural)]
pub struct UniqueHeader {
    pub size: i64,
    pub drop: bool,
}

/// The bytes that a payload size stands for; a negative one stands for none.
pub open spec fn payload_bytes(size: i64) -> int {
    if size < 0 {
        0
    } else {
        size as int
    }
}

/// Whether a payload of `size` bytes behind `header` bytes makes a block
/// that can be asked for: rounded up to the alignment it stays within the
/// largest size of an object.
pub open spec fn fits(header: usize, size: i64) -> bool {
    header + payload_bytes(size) <= isize::MAX - (ALIGN - 1)
}

/// The layout of `header` bytes followed by a payload of `size` bytes.
pub open spec fn block(header: usize, size: i64) -> Layout
    recommends
        fits(header, size),
{
    Layout { size: (header + payload_bytes(size)) as usize, align: ALIGN }
}

/// Tells whether a block can be asked for.
pub fn layout_fits(header: usize, payload_size: i64) -> (r: bool)
    ensures
        r == fits(header, payload_size),
{
    let limit: u128 = isize::MAX as u128 - (ALIGN as u128 - 1);
    let bytes: u128 = if payload_size < 0 {
        0
    } else {
        payload_size as u128
    };
    header as u128 + bytes <= limit
}

fn bytes_of(payload_size: i64) -> (r: usize)
    requires
        payload_bytes(payload_size) <= isize::MAX,
    ensures
        r == payload_bytes(payload_size),
{
    if payload_size < 0 {
        0
    } else {
        payload_size as usize
    }
}

/// The layout of a shared block.
pub fn layout_for(payload_size: i64) -> (r: Layout)
    requires
        fits(HEADER_SIZE, payload_size),
    ensures
        r == block(HEADER_SIZE, payload_size),
        r.size == HEADER_SIZE + payload_bytes(payload_size),
        r.align == ALIGN,
{
    Layout { size: HEADER_SIZE + bytes_of(payload_size), align: ALIGN }
}

/// The layout of a uniquely owned block.
pub fn unique_layout_for(payload_size: i64) -> (r: Layout)
    requires
        fits(UNIQUE_HEADER_SIZE, payload_size),
    ensures
        r == block(UNIQUE_HEADER_SIZE, payload_size),
        r.size == UNIQUE_HEADER_SIZE + payload_bytes(payload_size),
        r.align == ALIGN,
{
    Layout { size: UNIQUE_HEADER_SIZE + bytes_of(payload_size), align: ALIGN }
}

impl Header {
    /// A header of a block that could be asked for.
    pub open spec fn wf(self) -> bool {
        fits(HEADER_SIZE, self.size)
    }

    /// The header of a fresh block.
    pub open spec fn fresh(size: i64, drop: bool) -> Header {
        Header { strong: 1, weak: 0, size, drop }
    }

    pub open spec fn with_strong(self, strong: int) -> Header {
        Header { strong: strong as i64, ..self }
    }

    pub open spec fn with_weak(self, weak: int) -> Header {
        Header { weak: weak as i64, ..self }
    }
}

impl UniqueHeader {
    /// A header of a block that could be asked for, as a unique block and as
    /// a shared one.
    pub open spec fn wf(self) -> bool {
        fits(UNIQUE_HEADER_SIZE, self.size)
    }
}

/// A block to ask for, and the header to write into it.
pub struct Allocation<H> {
    pub layout: Layout,
    pub header: H,
}

/// A uniquely owned block of `size` payload bytes.
pub fn nether_rt_unique_alloc(size: i64, drop: bool) -> (r: Allocation<UniqueHeader>)
    requires
        fits(UNIQUE_HEADER_SIZE, size),
    ensures
        r.layout == block(UNIQUE_HEADER_SIZE, size),
        r.header == (UniqueHeader { size, drop }),
        r.header.wf(),
{
    Allocation { layout: unique_layout_for(size), header: UniqueHeader { size, drop } }
}

/// The end of a uniquely owned block.
#[derive(Clone, Copy, Debug, PartialEq, Eq, Structural)]
pub struct Destroyed {
    /// Whether the drop callback runs first.
    pub run_drop: bool,
    /// The layout to free.
    pub layout: Layout,
}

/// Ends sole ownership: the drop callback runs once, if there is one, and the
/// block is freed. Nothing happens to a null pointer.
pub fn nether_rt_unique_free(payload: Option<UniqueHeader>) -> (r: Option<Destroyed>)
    requires
        payload is Some ==> payload->0.wf(),
    ensures
        match payload {
            None => r is None,
            Some(h) => r == Some(
                Destroyed { run_drop: h.drop, layout: block(UNIQUE_HEADER_SIZE, h.size) },
            ),
        },
{
    match payload {
        None => None,
        Some(h) => Some(Destroyed { run_drop: h.drop, layout: unique_layout_for(h.size) }),
    }
}

/// The header of the shared block that takes over a uniquely owned one.
pub open spec fn promoted(h: UniqueHeader) -> Header {
    Header::fresh(h.size, h.drop)
}

/// The move of a uniquely owned payload into a shared block.
pub struct Promotion {
    /// The shared block.
    pub shared: Allocation<Header>,
    /// How many payload bytes move.
    pub moved: usize,
    /// The layout of the unique block to free. Its drop callback does not
    /// run: the shared block has taken it over.
    pub freed: Layout,
}

/// Turns sole ownership into a shared reference: the payload bytes and the
/// drop callback move to a fresh shared block. A null pointer stays null.
pub fn nether_rt_unique_promote(payload: Option<UniqueHeader>) -> (r: Option<Promotion>)
    requires
        payload is Some ==> payload->0.wf() && fits(HEADER_SIZE, payload->0.size),
    ensures
        r is Some == payload is Some,
        payload matches Some(h) ==> {
            &&& r->0.shared.header == promoted(h)
            &&& r->0.shared.header.wf()
            &&& r->0.shared.layout == block(HEADER_SIZE, h.size)
            &&& r->0.moved == payload_bytes(h.size)
            &&& r->0.freed == block(UNIQUE_HEADER_SIZE, h.size)
        },
{
    match payload {
        None => None,
        Some(h) => Some(
            Promotion {
                shared: nether_rt_arc_alloc(h.size, h.drop),
                moved: bytes_of(h.size),
                freed: unique_layout_for(h.size),
            },
        ),
    }
}

/// The layout to free once both counts are zero.
pub fn dealloc_header(header: Header) -> (r: Layout)
    requires
        header.wf(),
    ensures
        r == block(HEADER_SIZE, header.size),
{
    layout_for(header.size)
}

/// A shared block of `size` payload bytes, with one strong reference and no
/// weak one.
pub fn nether_rt_arc_alloc(size: i64, drop: bool) -> (r: Allocation<Header>)
    requires
        fits(HEADER_SIZE, size),
    ensures
        r.layout == block(HEADER_SIZE, size),
        r.header == Header::fresh(size, drop),
        r.header.wf(),
{
    Allocation { layout: layout_for(size), header: Header { strong: 1, weak: 0, size, drop } }
}

/// A header with one more strong reference.
pub open spec fn retained(payload: Option<Header>) -> Option<Header> {
    match payload {
        None => None,
        Some(h) => Some(h.with_strong(h.strong + 1)),
    }
}

/// Counts one more strong reference.
pub fn nether_rt_arc_retain(payload: Option<Header>) -> (r: Option<Header>)
    requires
        payload is Some ==> payload->0.strong < i64::MAX,
    ensures
        r == retained(payload),
{
    match payload {
        None => None,
        Some(h) => Some(Header { strong: h.strong + 1, ..h }),
    }
}

/// What a strong release leads to.
#[derive(Clone, Copy, Debug, PartialEq, Eq, Structural)]
pub enum Release {
    /// Other strong references remain.
    Kept,
    /// That was the last one. The drop callback runs if there is one. While
    /// it runs, the release holds a weak reference of its own, so that no
    /// weak release that the callback makes frees the block under it. After
    /// the callback that reference is given up by a weak release, which frees
    /// the block if no other reference is left.
    Last { run_drop: bool },
}

/// A header with one strong reference less, and what that leads to.
pub open spec fn released(payload: Option<Header>) -> (Option<Header>, Release) {
    match payload {
        None => (None, Release::Kept),
        Some(h) => if h.strong == 1 {
            (Some(h.with_strong(0).with_weak(h.weak + 1)), Release::Last { run_drop: h.drop })
        } else {
            (Some(h.with_strong(h.strong - 1)), Release::Kept)
        },
    }
}

/// Counts one strong reference less.
pub fn nether_rt_arc_release(payload: Option<Header>) -> (r: (Option<Header>, Release))
    requires
        payload is Some ==> payload->0.strong > i64::MIN,
        payload is Some && payload->0.strong == 1 ==> payload->0.weak < i64::MAX,
    ensures
        r == released(payload),
{
    match payload {
        None => (None, Release::Kept),
        Some(h) => {
            if h.strong == 1 {
                (Some(Header { strong: 0, weak: h.weak + 1, ..h }), Release::Last { run_drop: h.drop })
            } else {
                (Some(Header { strong: h.strong - 1, ..h }), Release::Kept)
            }
        },
    }
}

/// A header with one more weak reference.
pub open spec fn weak_retained(payload: Option<Header>) -> Option<Header> {
    match payload {
        None => None,
        Some(h) => Some(h.with_weak(h.weak + 1)),
    }
}

/// Counts one more weak reference. The strong count is left alone.
pub fn nether_rt_arc_weak_retain(payload: Option<Header>) -> (r: Option<Header>)
    requires
        payload is Some ==> payload->0.weak < i64::MAX,
    ensures
        r == weak_retained(payload),
{
    match payload {
        None => None,
        Some(h) => Some(Header { weak: h.weak + 1, ..h }),
    }
}

/// A header with one weak reference less, and whether the block is freed.
pub open spec fn weak_released(payload: Option<Header>) -> (Option<Header>, bool) {
    match payload {
        None => (None, false),
        Some(h) => (Some(h.with_weak(h.weak - 1)), h.weak == 1 && h.strong == 0),
    }
}

/// Counts one weak reference less, and gives the layout to free if that was
/// the last reference of either kind. The drop callback never runs here.
pub fn nether_rt_arc_weak_release(payload: Option<Header>) -> (r: (Option<Header>, Option<Layout>))
    requires
        payload is Some ==> payload->0.wf() && payload->0.weak > i64::MIN,
    ensures
        r.0 == weak_released(payload).0,
        r.1 == (if weak_released(payload).1 {
            Some(block(HEADER_SIZE, payload->0.size))
        } else {
            None
        }),
{
    match payload {
        None => (None, None),
        Some(h) => {
            let after = Header { weak: h.weak - 1, ..h };
            if after.weak == 0 && after.strong == 0 {
                (Some(after), Some(dealloc_header(after)))
            } else {
                (Some(after), None)
            }
        },
    }
}

/// A header after an attempt to read through a weak reference, and whether
/// the referent was alive.
pub open spec fn upgraded(payload: Option<Header>) -> (Option<Header>, bool) {
    match payload {
        None => (None, false),
        Some(h) => if h.strong == 0 {
            (Some(h), false)
        } else {
            (Some(h.with_strong(h.strong + 1)), true)
        },
    }
}

/// Reads through a weak reference: a referent that is alive gains a strong
/// reference, which the caller owns. One that is gone stays gone.
pub fn nether_rt_arc_weak_upgrade(payload: Option<Header>) -> (r: (Option<Header>, bool))
    requires
        payload is Some ==> payload->0.strong < i64::MAX,
    ensures
        r == upgraded(payload),
{
    match payload {
        None => (None, false),
        Some(h) => {
            if h.strong == 0 {
                (Some(h), false)
            } else {
                (Some(Header { strong: h.strong + 1, ..h }), true)
            }
        },
    }
}

/// Something that happens to a block.
pub enum Event {
    Retain,
    Release,
    WeakRetain,
    WeakRelease,
    Upgrade,
    /// The last release comes back from the drop callback and gives up the
    /// weak reference that it held meanwhile.
    DropDone,
}

/// A block in the course of a program.
pub struct Life {
    pub header: Header,
    /// Whether the last release is in its drop callback. Anything that is
    /// permitted may happen meanwhile, weak releases among it.
    pub dropping: bool,
    /// How often the drop callback was due.
    pub dropped: nat,
    /// How often the block was freed.
    pub freed: nat,
}

impl Life {
    pub open spec fn begin(size: i64, drop: bool) -> Life {
        Life { header: Header::fresh(size, drop), dropping: false, dropped: 0, freed: 0 }
    }

    /// The weak references of the program: all but the one that the last
    /// release holds.
    pub open spec fn weak_held(self) -> int {
        if self.dropping {
            self.header.weak - 1
        } else {
            self.header.weak as int
        }
    }

    /// Whether a program that owns what it uses can do this now: it uses only
    /// references that it holds, and no count is at its largest value.
    pub open spec fn permits(self, e: Event) -> bool {
        let h = self.header;
        match e {
            Event::Retain => 0 < h.strong < i64::MAX,
            Event::Release => 0 < h.strong && h.weak < i64::MAX,
            Event::WeakRetain => (0 < h.strong || 0 < self.weak_held()) && h.weak < i64::MAX,
            Event::WeakRelease => 0 < self.weak_held(),
            Event::Upgrade => 0 < self.weak_held() && h.strong < i64::MAX,
            Event::DropDone => self.dropping,
        }
    }

    /// The block after one event.
    pub open spec fn then_event(self, e: Event) -> Life {
        let h = Some(self.header);
        match e {
            Event::Retain => Life { header: retained(h)->0, ..self },
            Event::Release => {
                let (after, what) = released(h);
                match what {
                    Release::Kept => Life { header: after->0, ..self },
                    Release::Last { .. } => Life {
                        header: after->0,
                        dropping: true,
                        dropped: self.dropped + 1,
                        ..self
                    },
                }
            },
            Event::WeakRetain => Life { header: weak_retained(h)->0, ..self },
            Event::WeakRelease => self.weakly_released(),
            Event::Upgrade => Life { header: upgraded(h).0->0, ..self },
            Event::DropDone => Life { dropping: false, ..self.weakly_released() },
        }
    }

    /// The block after a weak release.
    pub open spec fn weakly_released(self) -> Life {
        let (after, free) = weak_released(Some(self.header));
        Life {
            header: after->0,
            freed: if free {
                self.freed + 1
            } else {
                self.freed
            },
            ..self
        }
    }

    /// The block after the first `n` events.
    pub open spec fn after(self, events: Seq<Event>, n: int) -> Life
        decreases n,
    {
        if n <= 0 {
            self
        } else {
            self.after(events, n - 1).then_event(events[n - 1])
        }
    }

    /// Whether each event is permitted when its turn comes.
    pub open spec fn orderly(self, events: Seq<Event>) -> bool {
        forall|i: int|
            #![trigger events[i]]
            0 <= i < events.len() ==> self.after(events, i).permits(events[i])
    }
}

/// How many of the first `n` events of a life add a strong reference.
pub open spec fn gains(life: Life, events: Seq<Event>, n: int) -> int
    decreases n,
{
    if n <= 0 {
        0
    } else {
        gains(life, events, n - 1) + match events[n - 1] {
            Event::Retain => 1int,
            Event::Upgrade => if life.after(events, n - 1).header.strong != 0 {
                1
            } else {
                0
            },
            _ => 0,
        }
    }
}

/// How many of the first `n` events release a strong reference.
pub open spec fn losses(events: Seq<Event>, n: int) -> int
    decreases n,
{
    if n <= 0 {
        0
    } else {
        losses(events, n - 1) + match events[n - 1] {
            Event::Release => 1int,
            _ => 0,
        }
    }
}

/// A retain and the matching release leave a live block as it was, with
/// nothing dropped and nothing freed.
pub proof fn law_release_undoes_retain(h: Header)
    requires
        0 < h.strong < i64::MAX,
    ensures
        released(retained(Some(h))) == (Some(h), Release::Kept),
{
}

/// A weak retain and the matching weak release leave a live block as it was
/// and free nothing.
pub proof fn law_weak_release_undoes_weak_retain(h: Header)
    requires
        h.strong != 0,
        h.weak < i64::MAX,
    ensures
        weak_released(weak_retained(Some(h))) == (Some(h), false),
{
}

/// Strong operations leave the weak count as it was, a last release once its
/// drop callback is done, and weak references never change the strong count.
pub proof fn law_counts_are_separate(h: Header)
    requires
        h.weak < i64::MAX,
    ensures
        retained(Some(h))->0.weak == h.weak,
        h.strong != 1 ==> released(Some(h)).0->0.weak == h.weak,
        h.strong == 1 ==> weak_released(released(Some(h)).0).0->0.weak == h.weak,
        upgraded(Some(h)).0->0.weak == h.weak,
        weak_retained(Some(h))->0.strong == h.strong,
        weak_released(Some(h)).0->0.strong == h.strong,
{
}

/// Nothing happens to a null pointer.
pub proof fn law_null_is_left_alone()
    ensures
        retained(None) is None,
        released(None) == (None::<Header>, Release::Kept),
        weak_retained(None) is None,
        weak_released(None) == (None::<Header>, false),
        upgraded(None) == (None::<Header>, false),
{
}

/// An upgrade succeeds exactly while the referent is alive, and then owns a
/// strong reference of its own.
pub proof fn law_upgrade_succeeds_while_alive(h: Header)
    requires
        0 <= h.strong < i64::MAX,
    ensures
        upgraded(Some(h)).1 <==> h.strong > 0,
        upgraded(Some(h)).1 ==> upgraded(Some(h)).0 == retained(Some(h)),
        !upgraded(Some(h)).1 ==> upgraded(Some(h)).0 == Some(h),
{
}

/// Along an orderly life both counts stay at or above zero, the drop callback
/// has been due exactly once when the strong count is zero and never before,
/// and the block has been freed exactly once when both counts are zero and
/// never before, whatever the drop callback does with the block. Once it is
/// freed nothing can be done with it any more.
pub proof fn law_dropped_and_freed_once(size: i64, drop: bool, events: Seq<Event>, n: int)
    requires
        0 <= n <= events.len(),
        Life::begin(size, drop).orderly(events),
    ensures
        ({
            let l = Life::begin(size, drop).after(events, n);
            &&& l.header.strong >= 0
            &&& l.header.weak >= 0
            &&& l.header.size == size
            &&& l.header.drop == drop
            &&& l.dropped == (if l.header.strong == 0 {
                1nat
            } else {
                0
            })
            &&& l.freed == (if l.header.strong == 0 && l.header.weak == 0 {
                1nat
            } else {
                0
            })
            &&& l.weak_held() >= 0
            &&& l.dropping ==> l.header.strong == 0 && l.freed == 0
            &&& l.freed > 0 ==> forall|e: Event| !#[trigger] l.permits(e)
        }),
    decreases n,
{
    if n > 0 {
        law_dropped_and_freed_once(size, drop, events, n - 1);
        let before = Life::begin(size, drop).after(events, n - 1);
        assert(before.permits(events[n - 1]));
    }
}

/// Along an orderly life the strong count is one for the allocation, plus the
/// retains and the upgrades that succeeded, less the releases.
pub proof fn law_strong_count(size: i64, drop: bool, events: Seq<Event>, n: int)
    requires
        0 <= n <= events.len(),
        Life::begin(size, drop).orderly(events),
    ensures
        Life::begin(size, drop).after(events, n).header.strong == 1 + gains(
            Life::begin(size, drop),
            events,
            n,
        ) - losses(events, n),
    decreases n,
{
    if n > 0 {
        law_strong_count(size, drop, events, n - 1);
        let before = Life::begin(size, drop).after(events, n - 1);
        assert(before.permits(events[n - 1]));
    }
}

/// Once the strong count of an orderly life is zero it stays zero: every
/// upgrade from then on reports that the referent is gone.
pub proof fn law_gone_for_good(size: i64, drop: bool, events: Seq<Event>, m: int, n: int)
    requires
        0 <= m <= n <= events.len(),
        Life::begin(size, drop).orderly(events),
        Life::begin(size, drop).after(events, m).header.strong == 0,
    ensures
        Life::begin(size, drop).after(events, n).header.strong == 0,
        !upgraded(Some(Life::begin(size, drop).after(events, n).header)).1,
    decreases n - m,
{
    if m < n {
        law_gone_for_good(size, drop, events, m, n - 1);
        let before = Life::begin(size, drop).after(events, n - 1);
        assert(before.permits(events[n - 1]));
    }
}

/// Promotion keeps what the sole owner had, the payload size and the drop
/// callback, and the callback is then due at the last release, not before.
pub proof fn law_promotion_defers_the_drop(h: UniqueHeader)
    ensures
        promoted(h).size == h.size,
        promoted(h).drop == h.drop,
        released(Some(promoted(h))).1 == (Release::Last { run_drop: h.drop }),
        retained(Some(promoted(h))) matches Some(shared) && released(Some(shared)).1
            == Release::Kept,
{
}

} // verus!
