//! The registry of capturers: one per display region, made once, handed out
//! by index to any number of readers, and torn down as a whole.
//!
//! The registry is generic in the capturer `H`.  It never opens, copies or
//! closes one: the caller opens them, the registry keeps them and lends them
//! out by reference, and clearing the registry drops them.

use vstd::prelude::*;

verus! {

/// One physical monitor's capture area.
#[derive(Clone, Copy, Debug, PartialEq, Eq, Structural)]
pub struct DisplayRegion {
    /// The left edge.
    pub x: i32,
    /// The top edge.
    pub y: i32,
    /// The extent to the right.
    pub width: usize,
    /// The extent downwards.
    pub height: usize,
    /// The region's place in the enumeration.
    pub index: usize,
}

/// The rectangle that spans a set of regions.
#[derive(Clone, Copy, Debug, PartialEq, Eq, Structural)]
pub struct Bounds {
    pub min_x: i32,
    pub max_x: i32,
    pub min_y: i32,
    pub max_y: i32,
}

/// A display with the capturer that was opened on it.
pub struct OpenedDisplay<H> {
    /// The left and the top edge.
    pub origin: (i32, i32),
    /// The extent to the right.
    pub width: usize,
    /// The extent downwards.
    pub height: usize,
    /// The capturer.
    pub capturer: H,
}

/// What one enumeration of the displays brought.
pub struct Enumeration<H> {
    /// The index of the primary display.
    pub primary: usize,
    /// The displays in the order of the enumeration.
    pub displays: Vec<OpenedDisplay<H>>,
}

impl<H> Enumeration<H> {
    /// The primary index names one of the displays, where there are any.
    pub open spec fn valid(&self) -> bool {
        self.displays@.len() == 0 || self.primary < self.displays@.len()
    }
}

/// Why the registry refused.
#[derive(Clone, Copy, Debug, PartialEq, Eq, Structural)]
pub enum RegistryError {
    /// Capturers by index exist only under the compositor-mediated server.
    WrongDisplayServer,
    /// The registry holds no displays.
    NotInitialized,
    /// No display has the index that was asked for.
    InvalidIndex,
    /// The displays could not be enumerated, or a capturer did not open.
    CaptureUnavailable,
    /// The enumeration names a primary display that it does not hold.
    InvalidPrimary,
}

/// What a consumer gets for one display index.
pub struct CapturerInfo<'a, H> {
    /// The left and the top edge of the display.
    pub origin: (i32, i32),
    /// Its extent to the right.
    pub width: usize,
    /// Its extent downwards.
    pub height: usize,
    /// How many displays the registry holds.
    pub ndisplay: usize,
    /// The index that was asked for.
    pub current: usize,
    /// The privacy mode in effect; none.
    pub privacy_mode_id: i32,
    /// The registry's own capturer for that display.
    pub capturer: &'a H,
}

/// The notice that asks the remote operator to pick a screen.
pub struct SelectionPrompt {
    pub msgtype: String,
    pub title: String,
    pub text: String,
    pub link: String,
}

/// The right edge of a display.
pub open spec fn right_of<H>(d: OpenedDisplay<H>) -> int {
    d.origin.0 + d.width
}

/// The bottom edge of a display.
pub open spec fn bottom_of<H>(d: OpenedDisplay<H>) -> int {
    d.origin.1 + d.height
}

/// The display's far edges are coordinates that a pointer can have.
pub open spec fn fits<H>(d: OpenedDisplay<H>) -> bool {
    right_of(d) <= i32::MAX && bottom_of(d) <= i32::MAX
}

/// Every display of the sequence fits.
pub open spec fn all_fit<H>(displays: Seq<OpenedDisplay<H>>) -> bool {
    forall|i: int| 0 <= i < displays.len() ==> fits(#[trigger] displays[i])
}

/// `b` is the smallest rectangle that holds every display: each side is
/// reached by one display and passed by none.
pub open spec fn is_bounding<H>(displays: Seq<OpenedDisplay<H>>, b: Bounds) -> bool {
    &&& forall|i: int|
        0 <= i < displays.len() ==> {
            &&& b.min_x <= (#[trigger] displays[i]).origin.0
            &&& right_of(displays[i]) <= b.max_x
            &&& b.min_y <= displays[i].origin.1
            &&& bottom_of(displays[i]) <= b.max_y
        }
    &&& exists|i: int| 0 <= i < displays.len() && (#[trigger] displays[i]).origin.0 == b.min_x
    &&& exists|i: int| 0 <= i < displays.len() && right_of(#[trigger] displays[i]) == b.max_x
    &&& exists|i: int| 0 <= i < displays.len() && (#[trigger] displays[i]).origin.1 == b.min_y
    &&& exists|i: int| 0 <= i < displays.len() && bottom_of(#[trigger] displays[i]) == b.max_y
}

/// The region of the display that stands at place `i`.
pub open spec fn region_of<H>(d: OpenedDisplay<H>, i: int) -> DisplayRegion {
    DisplayRegion { x: d.origin.0, y: d.origin.1, width: d.width, height: d.height, index: i as usize }
}

/// A set of displays has one bounding rectangle at most.
pub proof fn law_bounds_unique<H>(displays: Seq<OpenedDisplay<H>>, a: Bounds, b: Bounds)
    requires
        is_bounding(displays, a),
        is_bounding(displays, b),
    ensures
        a == b,
{
}

/// The right and the bottom edge of a display, where it fits.
fn far_edges<H>(d: &OpenedDisplay<H>) -> (r: Option<(i32, i32)>)
    ensures
        match r {
            Some((right, bottom)) => fits(*d) && right == right_of(*d) && bottom == bottom_of(*d),
            None => !fits(*d),
        },
{
    if d.width > 0xffff_ffff || d.height > 0xffff_ffff {
        return None;
    }
    let right: i64 = d.origin.0 as i64 + d.width as i64;
    let bottom: i64 = d.origin.1 as i64 + d.height as i64;
    if right > 0x7fff_ffff || bottom > 0x7fff_ffff {
        return None;
    }
    Some((right as i32, bottom as i32))
}

/// The rectangle that spans the displays: from the least left and top edge
/// to the greatest right and bottom edge.  There is none for an empty set,
/// nor for a set with a display that does not fit.
pub fn bounding_rect<H>(displays: &Vec<OpenedDisplay<H>>) -> (r: Option<Bounds>)
    ensures
        r is Some <==> displays@.len() > 0 && all_fit(displays@),
        r is Some ==> is_bounding(displays@, r->0),
{
    if displays.len() == 0 {
        return None;
    }
    let (right, bottom) = match far_edges(&displays[0]) {
        Some(e) => e,
        None => {
            return None;
        },
    };
    let mut b = Bounds {
        min_x: displays[0].origin.0,
        max_x: right,
        min_y: displays[0].origin.1,
        max_y: bottom,
    };
    let mut i: usize = 1;
    proof {
        let first = displays@.subrange(0, 1);
        assert(first[0] == displays@[0]);
    }
    while i < displays.len()
        invariant
            1 <= i <= displays@.len(),
            all_fit(displays@.subrange(0, i as int)),
            is_bounding(displays@.subrange(0, i as int), b),
        decreases displays@.len() - i,
    {
        let ghost seen = displays@.subrange(0, i as int);
        let ghost next = displays@.subrange(0, i + 1);
        let ghost before = b;
        let d = &displays[i];
        match far_edges(d) {
            None => {
                return None;
            },
            Some((right, bottom)) => {
                if b.min_x > d.origin.0 {
                    b.min_x = d.origin.0;
                }
                if b.max_x < right {
                    b.max_x = right;
                }
                if b.min_y > d.origin.1 {
                    b.min_y = d.origin.1;
                }
                if b.max_y < bottom {
                    b.max_y = bottom;
                }
            },
        }
        proof {
            assert(next[i as int] == displays@[i as int]);
            assert forall|k: int| 0 <= k < i implies next[k] == #[trigger] seen[k] by {}
            let w0 = choose|k: int| 0 <= k < seen.len() && (#[trigger] seen[k]).origin.0 == before.min_x;
            let w1 = choose|k: int| 0 <= k < seen.len() && right_of(#[trigger] seen[k]) == before.max_x;
            let w2 = choose|k: int| 0 <= k < seen.len() && (#[trigger] seen[k]).origin.1 == before.min_y;
            let w3 = choose|k: int| 0 <= k < seen.len() && bottom_of(#[trigger] seen[k]) == before.max_y;
            assert(next[w0] == seen[w0] && next[w1] == seen[w1] && next[w2] == seen[w2] && next[w3]
                == seen[w3]);
            let k0 = if b.min_x == before.min_x { w0 } else { i as int };
            let k1 = if b.max_x == before.max_x { w1 } else { i as int };
            let k2 = if b.min_y == before.min_y { w2 } else { i as int };
            let k3 = if b.max_y == before.max_y { w3 } else { i as int };
            assert(next[k0].origin.0 == b.min_x);
            assert(right_of(next[k1]) == b.max_x);
            assert(next[k2].origin.1 == b.min_y);
            assert(bottom_of(next[k3]) == b.max_y);
            assert forall|k: int| 0 <= k < next.len() implies {
                &&& b.min_x <= (#[trigger] next[k]).origin.0
                &&& right_of(next[k]) <= b.max_x
                &&& b.min_y <= next[k].origin.1
                &&& bottom_of(next[k]) <= b.max_y
                &&& fits(next[k])
            } by {
                if k < i {
                    assert(next[k] == seen[k]);
                }
            }
        }
        i += 1;
    }
    assert(displays@.subrange(0, i as int) =~= displays@);
    Some(b)
}

/// The capturers of all displays, once they are opened.
pub struct CaptureRegistry<H> {
    primary: usize,
    displays: Option<Vec<OpenedDisplay<H>>>,
}

impl<H> CaptureRegistry<H> {
    /// The primary index names one of the displays, where there are any.
    #[verifier::type_invariant]
    spec fn primary_in_order(&self) -> bool {
        match self.displays {
            Some(v) => v@.len() == 0 || self.primary < v@.len(),
            None => true,
        }
    }

    /// Whether the registry holds the displays of an enumeration.
    pub closed spec fn populated(&self) -> bool {
        self.displays is Some
    }

    /// The displays that the registry holds; none while it is empty.
    pub closed spec fn displays(&self) -> Seq<OpenedDisplay<H>> {
        match self.displays {
            Some(v) => v@,
            None => Seq::empty(),
        }
    }

    /// The index of the primary display; 0 while the registry is empty.
    pub closed spec fn primary(&self) -> usize {
        match self.displays {
            Some(_) => self.primary,
            None => 0,
        }
    }

    /// The two registries hold the same displays, in the same state.
    pub open spec fn same_as(&self, other: &Self) -> bool {
        &&& self.populated() == other.populated()
        &&& self.displays() == other.displays()
        &&& self.primary() == other.primary()
    }

    /// The regions of the displays, each with its place as its index.
    pub open spec fn regions(&self) -> Seq<DisplayRegion> {
        Seq::new(self.displays().len(), |i: int| region_of(self.displays()[i], i))
    }

    /// Whether the displays must be enumerated before the next
    /// initialization: the registry is empty, and the legacy display server
    /// is not in effect.
    pub open spec fn wants_enumeration(&self, legacy: bool) -> bool {
        !legacy && !self.populated()
    }

    /// What an initialization returns.  Under the legacy display server, and
    /// on a populated registry, nothing is to be done.  Else it fails where
    /// no enumeration came, or where the primary index names none of the
    /// displays.  Otherwise it succeeds, and gives the rectangle that spans
    /// the displays; there is none where there are no displays, nor where a
    /// display reaches beyond the coordinates that a pointer can have.
    pub open spec fn init_result(
        &self,
        legacy: bool,
        enumeration: Option<Enumeration<H>>,
        r: Result<Option<Bounds>, RegistryError>,
    ) -> bool {
        if !self.wants_enumeration(legacy) {
            r == Ok::<Option<Bounds>, RegistryError>(None)
        } else {
            match enumeration {
                None => r == Err::<Option<Bounds>, RegistryError>(
                    RegistryError::CaptureUnavailable,
                ),
                Some(e) => if !e.valid() {
                    r == Err::<Option<Bounds>, RegistryError>(RegistryError::InvalidPrimary)
                } else {
                    match r {
                        Ok(Some(b)) => all_fit(e.displays@) && is_bounding(e.displays@, b),
                        Ok(None) => e.displays@.len() == 0 || !all_fit(e.displays@),
                        Err(_) => false,
                    }
                },
            }
        }
    }

    /// The initialization takes the registry from `self` to `next` and
    /// returns `r`.  The registry changes only where it succeeds on an empty
    /// registry: then it holds the enumeration, whole.
    pub open spec fn init_step(
        &self,
        legacy: bool,
        enumeration: Option<Enumeration<H>>,
        next: &Self,
        r: Result<Option<Bounds>, RegistryError>,
    ) -> bool {
        &&& self.init_result(legacy, enumeration, r)
        &&& if self.wants_enumeration(legacy) && r is Ok {
            &&& enumeration is Some
            &&& next.populated()
            &&& next.displays() == enumeration->0.displays@
            &&& next.primary() == enumeration->0.primary
        } else {
            next.same_as(self)
        }
    }

    /// Clearing takes the registry from `self` to `next`: to the empty
    /// registry, unless the legacy display server is in effect.
    pub open spec fn clear_step(&self, legacy: bool, next: &Self) -> bool {
        if legacy {
            next.same_as(self)
        } else {
            !next.populated() && next.displays().len() == 0 && next.primary() == 0
        }
    }

    /// What a request for the capturer of display `idx` returns.
    pub open spec fn lookup(&self, legacy: bool, idx: usize) -> Result<OpenedDisplay<H>, RegistryError> {
        if legacy {
            Err(RegistryError::WrongDisplayServer)
        } else if !self.populated() {
            Err(RegistryError::NotInitialized)
        } else if idx >= self.displays().len() {
            Err(RegistryError::InvalidIndex)
        } else {
            Ok(self.displays()[idx as int])
        }
    }

    /// An empty registry.
    pub fn new() -> (r: Self)
        ensures
            !r.populated(),
            r.displays().len() == 0,
            r.primary() == 0,
    {
        CaptureRegistry { primary: 0, displays: None }
    }

    /// Whether the registry holds the displays of an enumeration.
    pub fn is_populated(&self) -> (r: bool)
        ensures
            r == self.populated(),
    {
        self.displays.is_some()
    }

    /// Whether the caller has to enumerate the displays, and open their
    /// capturers, for the next initialization.
    pub fn needs_enumeration(&self, legacy: bool) -> (r: bool)
        ensures
            r == self.wants_enumeration(legacy),
    {
        !legacy && self.displays.is_none()
    }

    /// Initializes the registry, if that is still to be done: takes the
    /// enumeration in, whole or not at all, and returns the rectangle that
    /// the pointer mapping is to be told of.
    pub fn check_init(&mut self, legacy: bool, enumeration: Option<Enumeration<H>>) -> (r: Result<
        Option<Bounds>,
        RegistryError,
    >)
        ensures
            old(self).init_step(legacy, enumeration, final(self), r),
    {
        if legacy || self.displays.is_some() {
            return Ok(None);
        }
        match enumeration {
            None => Err(RegistryError::CaptureUnavailable),
            Some(e) => {
                if e.displays.len() > 0 && e.primary >= e.displays.len() {
                    return Err(RegistryError::InvalidPrimary);
                }
                let bounds = bounding_rect(&e.displays);
                *self = CaptureRegistry { primary: e.primary, displays: Some(e.displays) };
                Ok(bounds)
            },
        }
    }

    /// Initializes the registry, if that is still to be done.
    pub fn ensure_inited(&mut self, legacy: bool, enumeration: Option<Enumeration<H>>) -> (r:
        Result<Option<Bounds>, RegistryError>)
        ensures
            old(self).init_step(legacy, enumeration, final(self), r),
    {
        self.check_init(legacy, enumeration)
    }

    /// Whether the remote operator still has to pick a screen: the registry
    /// is empty and the legacy display server is not in effect.
    pub fn has_pending_selection(&self, legacy: bool) -> (r: bool)
        ensures
            r == (!legacy && !self.populated()),
    {
        !legacy && self.displays.is_none()
    }

    /// The notice for the remote operator while a screen is still to be
    /// picked; nothing once the registry is populated, and nothing under the
    /// legacy display server.
    pub fn is_inited(&self, legacy: bool) -> (r: Option<SelectionPrompt>)
        ensures
            r is Some <==> !legacy && !self.populated(),
            r is Some ==> {
                &&& r->0.msgtype@ == "nook-nocancel-hasclose"@
                &&& r->0.title@ == "Wayland"@
                &&& r->0.text@
                    == "Please Select the screen to be shared(Operate on the peer side)."@
                &&& r->0.link@ == ""@
            },
    {
        if self.has_pending_selection(legacy) {
            Some(
                SelectionPrompt {
                    msgtype: "nook-nocancel-hasclose".to_owned(),
                    title: "Wayland".to_owned(),
                    text: "Please Select the screen to be shared(Operate on the peer side).".to_owned(),
                    link: "".to_owned(),
                },
            )
        } else {
            None
        }
    }

    /// The regions of all displays, in the order of the enumeration.
    pub fn get_displays(&self) -> (r: Result<Vec<DisplayRegion>, RegistryError>)
        ensures
            match r {
                Ok(v) => self.populated() && v@ == self.regions(),
                Err(e) => !self.populated() && e == RegistryError::NotInitialized,
            },
    {
        match &self.displays {
            None => Err(RegistryError::NotInitialized),
            Some(displays) => {
                let mut v: Vec<DisplayRegion> = Vec::new();
                let mut i: usize = 0;
                while i < displays.len()
                    invariant
                        i <= displays@.len(),
                        v@.len() == i,
                        forall|k: int| 0 <= k < i ==> v@[k] == region_of(displays@[k], k),
                    decreases displays@.len() - i,
                {
                    let d = &displays[i];
                    v.push(
                        DisplayRegion {
                            x: d.origin.0,
                            y: d.origin.1,
                            width: d.width,
                            height: d.height,
                            index: i,
                        },
                    );
                    i += 1;
                }
                assert(v@ =~= self.regions());
                Ok(v)
            },
        }
    }

    /// The index of the primary display.  Where the registry holds displays,
    /// it is the index of one of them.
    pub fn get_primary(&self) -> (r: Result<usize, RegistryError>)
        ensures
            match r {
                Ok(p) => {
                    &&& self.populated()
                    &&& p == self.primary()
                    &&& self.displays().len() > 0 ==> p < self.displays().len() && self.lookup(
                        false,
                        p,
                    ) is Ok
                },
                Err(e) => !self.populated() && e == RegistryError::NotInitialized,
            },
    {
        proof {
            use_type_invariant(self);
        }
        match &self.displays {
            None => Err(RegistryError::NotInitialized),
            Some(_) => Ok(self.primary),
        }
    }

    /// Drops every capturer and empties the registry.  Under the legacy
    /// display server nothing happens.
    pub fn clear(&mut self, legacy: bool)
        ensures
            old(self).clear_step(legacy, final(self)),
    {
        if legacy {
            return ;
        }
        *self = CaptureRegistry { primary: 0, displays: None };
    }

    /// The capturer of display `idx`, with the display's place and size.
    /// The capturer is the registry's own, lent out: every request for one
    /// index reaches the same capturer, and none changes the registry.
    pub fn get_capturer(&self, legacy: bool, idx: usize) -> (r: Result<
        CapturerInfo<'_, H>,
        RegistryError,
    >)
        ensures
            match r {
                Ok(info) => {
                    &&& self.lookup(legacy, idx) is Ok
                    &&& *info.capturer == self.lookup(legacy, idx)->Ok_0.capturer
                    &&& info.origin == self.lookup(legacy, idx)->Ok_0.origin
                    &&& info.width == self.lookup(legacy, idx)->Ok_0.width
                    &&& info.height == self.lookup(legacy, idx)->Ok_0.height
                    &&& info.ndisplay == self.displays().len()
                    &&& info.current == idx
                    &&& info.privacy_mode_id == 0
                },
                Err(e) => self.lookup(legacy, idx) == Err::<OpenedDisplay<H>, RegistryError>(e),
            },
    {
        if legacy {
            return Err(RegistryError::WrongDisplayServer);
        }
        match &self.displays {
            None => Err(RegistryError::NotInitialized),
            Some(displays) => {
                if idx >= displays.len() {
                    return Err(RegistryError::InvalidIndex);
                }
                let d = &displays[idx];
                Ok(
                    CapturerInfo {
                        origin: d.origin,
                        width: d.width,
                        height: d.height,
                        ndisplay: displays.len(),
                        current: idx,
                        privacy_mode_id: 0,
                        capturer: &d.capturer,
                    },
                )
            },
        }
    }
}

/// The words of a refusal.
pub fn error_message(e: RegistryError) -> (r: String)
    ensures
        r@ == match e {
            RegistryError::WrongDisplayServer => "Do not call this function if not wayland"@,
            RegistryError::NotInitialized => "Failed to get capturer display info"@,
            RegistryError::InvalidIndex => "Invalid capturer index"@,
            RegistryError::CaptureUnavailable => "Failed to open the displays"@,
            RegistryError::InvalidPrimary => "Invalid primary display index"@,
        },
{
    match e {
        RegistryError::WrongDisplayServer => "Do not call this function if not wayland".to_owned(),
        RegistryError::NotInitialized => "Failed to get capturer display info".to_owned(),
        RegistryError::InvalidIndex => "Invalid capturer index".to_owned(),
        RegistryError::CaptureUnavailable => "Failed to open the displays".to_owned(),
        RegistryError::InvalidPrimary => "Invalid primary display index".to_owned(),
    }
}

/// Initializing is done once: on a populated registry a further
/// initialization changes nothing, asks for no enumeration and opens no
/// capturer, whatever enumeration it is given.
pub proof fn law_init_once<H>(
    r0: CaptureRegistry<H>,
    r1: CaptureRegistry<H>,
    legacy: bool,
    again: Option<Enumeration<H>>,
    out: Result<Option<Bounds>, RegistryError>,
)
    requires
        r0.populated(),
        r0.init_step(legacy, again, &r1, out),
    ensures
        !r0.wants_enumeration(legacy),
        r1.same_as(&r0),
        out == Ok::<Option<Bounds>, RegistryError>(None),
        forall|idx: usize| r1.lookup(legacy, idx) == r0.lookup(legacy, idx),
{
}

/// An initialization commits whole or not at all: after a failure the
/// registry is as it was, and after a success on an empty registry every
/// display of the enumeration, and no other, has its capturer.
pub proof fn law_init_all_or_nothing<H>(
    r0: CaptureRegistry<H>,
    r1: CaptureRegistry<H>,
    e: Option<Enumeration<H>>,
    out: Result<Option<Bounds>, RegistryError>,
)
    requires
        !r0.populated(),
        r0.init_step(false, e, &r1, out),
    ensures
        out is Err ==> r1.same_as(&r0),
        out is Ok ==> e is Some && forall|idx: usize|
            r1.lookup(false, idx) == if idx < e->0.displays@.len() {
                Ok::<OpenedDisplay<H>, RegistryError>(e->0.displays@[idx as int])
            } else {
                Err::<OpenedDisplay<H>, RegistryError>(RegistryError::InvalidIndex)
            },
{
}

/// The first initialization succeeds on every enumeration whose primary
/// index is in order, whatever its displays: afterwards the registry holds
/// the displays of that enumeration, place by place, each with its own
/// capturer and size, and wants no further enumeration.
pub proof fn law_first_init_populates<H>(
    r0: CaptureRegistry<H>,
    r1: CaptureRegistry<H>,
    e: Enumeration<H>,
    out: Result<Option<Bounds>, RegistryError>,
)
    requires
        !r0.populated(),
        e.valid(),
        r0.init_step(false, Some(e), &r1, out),
    ensures
        out is Ok,
        r1.populated(),
        !r1.wants_enumeration(false),
        r1.displays() == e.displays@,
        r1.primary() == e.primary,
        r1.regions().len() == e.displays@.len(),
        forall|i: int|
            0 <= i < e.displays@.len() ==> #[trigger] r1.regions()[i] == region_of(
                e.displays@[i],
                i,
            ),
{
}

/// However many callers initialize, one after the other as the registry's
/// lock lets them: every call succeeds, only the first wants an enumeration,
/// and after each call the registry holds the displays of the first
/// enumeration, with the capturers that were opened for it and no others.
/// `states` are the registry before the first call and after each call.
pub proof fn law_init_happens_once<H>(
    states: Seq<CaptureRegistry<H>>,
    inputs: Seq<Option<Enumeration<H>>>,
    outs: Seq<Result<Option<Bounds>, RegistryError>>,
    k: int,
)
    requires
        states.len() == inputs.len() + 1,
        outs.len() == inputs.len(),
        !states[0].populated(),
        inputs.len() >= 1,
        inputs[0] is Some,
        inputs[0]->0.valid(),
        forall|i: int|
            0 <= i < inputs.len() ==> (#[trigger] states[i]).init_step(
                false,
                inputs[i],
                &states[i + 1],
                outs[i],
            ),
        1 <= k <= inputs.len(),
    ensures
        outs[k - 1] is Ok,
        states[k].populated(),
        !states[k].wants_enumeration(false),
        states[k].displays() == inputs[0]->0.displays@,
        states[k].primary() == inputs[0]->0.primary,
        k > 1 ==> outs[k - 1] == Ok::<Option<Bounds>, RegistryError>(None),
    decreases k,
{
    if k == 1 {
        assert(states[0].init_step(false, inputs[0], &states[1], outs[0]));
    } else {
        law_init_happens_once(states, inputs, outs, k - 1);
        assert(states[k - 1].init_step(false, inputs[k - 1], &states[k], outs[k - 1]));
    }
}

/// After an initialization the primary display is one of the displays: where
/// the registry took an enumeration with displays in, the capturer of the
/// primary index can be had.
pub proof fn law_primary_names_a_display<H>(
    r0: CaptureRegistry<H>,
    r1: CaptureRegistry<H>,
    e: Option<Enumeration<H>>,
    out: Result<Option<Bounds>, RegistryError>,
)
    requires
        !r0.populated(),
        r0.init_step(false, e, &r1, out),
        out is Ok,
    ensures
        r1.displays().len() > 0 ==> r1.primary() < r1.displays().len() && r1.lookup(
            false,
            r1.primary(),
        ) is Ok,
{
}

/// After clearing, no index has a capturer, until the registry is
/// initialized again: then every index of the new enumeration has one.
pub proof fn law_clear_invalidates<H>(
    r0: CaptureRegistry<H>,
    r1: CaptureRegistry<H>,
    r2: CaptureRegistry<H>,
    e: Enumeration<H>,
    out: Result<Option<Bounds>, RegistryError>,
    idx: usize,
)
    requires
        r0.clear_step(false, &r1),
        r1.init_step(false, Some(e), &r2, out),
    ensures
        r1.lookup(false, idx) == Err::<OpenedDisplay<H>, RegistryError>(
            RegistryError::NotInitialized,
        ),
        r1.wants_enumeration(false),
        out is Ok && idx < e.displays@.len() ==> r2.lookup(false, idx) == Ok::<
            OpenedDisplay<H>,
            RegistryError,
        >(e.displays@[idx as int]),
{
}

/// A request for a capturer changes nothing and depends on nothing but the
/// registry and the index: two requests for one index get the same capturer,
/// and an index beyond the displays gets none.
pub proof fn law_handle_shared<H>(r: CaptureRegistry<H>, idx: usize)
    requires
        r.populated(),
    ensures
        idx < r.displays().len() ==> r.lookup(false, idx) == Ok::<OpenedDisplay<H>, RegistryError>(
            r.displays()[idx as int],
        ),
        idx >= r.displays().len() ==> r.lookup(false, idx) == Err::<OpenedDisplay<H>, RegistryError>(
            RegistryError::InvalidIndex,
        ),
{
}

} // verus!
