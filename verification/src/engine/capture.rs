//! Monitors and captured frames: which monitor to capture, when the staging
//! texture has to be replaced, and the frame as it is handed on.
use vstd::prelude::*;

verus! {

/// A monitor's rectangle on the virtual desktop, and whether it is the primary
/// display.
#[derive(Clone, Copy, PartialEq, Eq, Debug, Structural)]
pub struct MonitorRect {
    pub x: i32,
    pub y: i32,
    pub width: u32,
    pub height: u32,
    pub primary: bool,
}

/// A monitor as the system describes it: its edges and its flag word.
#[derive(Clone, Copy, PartialEq, Eq, Debug, Structural)]
pub struct RawMonitor {
    pub left: i32,
    pub top: i32,
    pub right: i32,
    pub bottom: i32,
    pub flags: u32,
}

/// The bit of a monitor's flag word that marks the primary display.
pub const MONITORINFOF_PRIMARY: u32 = 1;

/// The way from one edge to the other, or nothing where they are the wrong way
/// round.
pub open spec fn extent(from: i32, to: i32) -> int {
    if to < from {
        0
    } else {
        to - from
    }
}

/// The rectangle of a monitor.
pub open spec fn rect_of(m: RawMonitor) -> MonitorRect {
    MonitorRect {
        x: m.left,
        y: m.top,
        width: extent(m.left, m.right) as u32,
        height: extent(m.top, m.bottom) as u32,
        primary: m.flags % 2 == 1,
    }
}

/// The sides of a monitor's rectangle can be computed on 32 bits.
pub open spec fn measurable(m: RawMonitor) -> bool {
    &&& i32::MIN <= m.right - m.left <= i32::MAX
    &&& i32::MIN <= m.bottom - m.top <= i32::MAX
}

/// The rectangle of a monitor.
pub fn monitor_rect(m: &RawMonitor) -> (r: MonitorRect)
    requires
        measurable(*m),
    ensures
        r == rect_of(*m),
{
    let w: i32 = m.right - m.left;
    let h: i32 = m.bottom - m.top;
    let flags: u32 = m.flags;
    assert((flags & 1 != 0) == (flags % 2 == 1)) by (bit_vector);
    MonitorRect {
        x: m.left,
        y: m.top,
        width: if w < 0 {
            0
        } else {
            w as u32
        },
        height: if h < 0 {
            0
        } else {
            h as u32
        },
        primary: (flags & MONITORINFOF_PRIMARY) != 0,
    }
}

/// The rectangle of every monitor, in the order in which the system lists them.
pub fn enumerate_monitors(raw: &Vec<RawMonitor>) -> (mons: Vec<MonitorRect>)
    requires
        forall|i: int| 0 <= i < raw@.len() ==> measurable(#[trigger] raw@[i]),
    ensures
        mons@.len() == raw@.len(),
        forall|i: int| 0 <= i < raw@.len() ==> #[trigger] mons@[i] == rect_of(raw@[i]),
{
    let mut mons: Vec<MonitorRect> = Vec::new();
    for i in 0..raw.len()
        invariant
            forall|k: int| 0 <= k < raw@.len() ==> measurable(#[trigger] raw@[k]),
            mons@.len() == i,
            forall|k: int| 0 <= k < i ==> #[trigger] mons@[k] == rect_of(raw@[k]),
    {
        mons.push(monitor_rect(&raw[i]));
    }
    mons
}

/// `i` is the first monitor of which `p` holds.
pub open spec fn first_such(
    mons: Seq<MonitorRect>,
    p: spec_fn(MonitorRect) -> bool,
    i: int,
) -> bool {
    &&& 0 <= i < mons.len()
    &&& p(mons[i])
    &&& forall|k: int| 0 <= k < i ==> !p(#[trigger] mons[k])
}

/// The monitor's top left corner is at the given point.
pub open spec fn at_corner(x: i32, y: i32) -> spec_fn(MonitorRect) -> bool {
    |m: MonitorRect| m.x == x && m.y == y
}

/// The monitor is the primary display.
pub open spec fn is_primary() -> spec_fn(MonitorRect) -> bool {
    |m: MonitorRect| m.primary
}

/// Some monitor has the property.
pub open spec fn any_such(mons: Seq<MonitorRect>, p: spec_fn(MonitorRect) -> bool) -> bool {
    exists|i: int| 0 <= i < mons.len() && p(#[trigger] mons[i])
}

/// `i` is the primary display, or the first monitor where none is marked so.
pub open spec fn is_default_monitor(mons: Seq<MonitorRect>, i: int) -> bool {
    if any_such(mons, is_primary()) {
        first_such(mons, is_primary(), i)
    } else {
        i == 0 && mons.len() > 0
    }
}

/// The primary display, or the first monitor where none is marked so.
pub fn default_monitor(mons: &Vec<MonitorRect>) -> (r: Option<usize>)
    ensures
        match r {
            Some(i) => is_default_monitor(mons@, i as int),
            None => mons@.len() == 0,
        },
{
    for i in 0..mons.len()
        invariant
            forall|k: int| 0 <= k < i ==> !is_primary()(#[trigger] mons@[k]),
    {
        if mons[i].primary {
            assert(is_primary()(mons@[i as int]));
            return Some(i);
        }
    }
    if mons.len() == 0 {
        None
    } else {
        Some(0)
    }
}

/// The monitor to capture for the corner `(x, y)`: the one that begins there,
/// or else the default one.
pub fn choose_monitor(mons: &Vec<MonitorRect>, x: i32, y: i32) -> (r: Option<usize>)
    ensures
        match r {
            Some(i) => if any_such(mons@, at_corner(x, y)) {
                first_such(mons@, at_corner(x, y), i as int)
            } else {
                is_default_monitor(mons@, i as int)
            },
            None => mons@.len() == 0,
        },
{
    for i in 0..mons.len()
        invariant
            forall|k: int| 0 <= k < i ==> !at_corner(x, y)(#[trigger] mons@[k]),
    {
        if mons[i].x == x && mons[i].y == y {
            assert(at_corner(x, y)(mons@[i as int]));
            return Some(i);
        }
    }
    default_monitor(mons)
}

/// One captured BGRA frame, borrowed from the [`Capture`] that holds it.
pub struct Frame<'a> {
    pub bgra: &'a [u8],
    pub row_pitch: usize,
    pub width: u32,
    pub height: u32,
}

/// What a capture session holds on the CPU side.
pub struct CaptureView {
    /// The size of the monitor's picture, as last seen.
    pub width: u32,
    pub height: u32,
    /// The size of the staging texture, once there is one.
    pub staging: Option<(u32, u32)>,
    /// The bytes of the last frame and of each of its rows.
    pub bytes: Seq<u8>,
    pub row_pitch: nat,
}

impl CaptureView {
    /// The session once a frame of the given size has arrived.
    pub open spec fn arrived(self, w: u32, h: u32) -> CaptureView {
        CaptureView { width: w, height: h, ..self }
    }

    /// There is no staging texture of the given size.
    pub open spec fn needs_staging(self, w: u32, h: u32) -> bool {
        self.staging != Some((w, h))
    }

    /// The session once a staging texture of the frame's size has been made.
    pub open spec fn with_staging(self) -> CaptureView {
        CaptureView { staging: Some((self.width, self.height)), ..self }
    }

    /// The session once it has taken over a frame's bytes.
    pub open spec fn with_frame(self, bytes: Seq<u8>, row_pitch: nat) -> CaptureView {
        CaptureView { bytes, row_pitch, ..self }
    }
}

/// The CPU side of a capture session.
pub struct Capture {
    staging: Option<(u32, u32)>,
    buf: Vec<u8>,
    row_pitch: usize,
    w: u32,
    h: u32,
}

impl View for Capture {
    type V = CaptureView;

    closed spec fn view(&self) -> CaptureView {
        CaptureView {
            width: self.w,
            height: self.h,
            staging: self.staging,
            bytes: self.buf@,
            row_pitch: self.row_pitch as nat,
        }
    }
}

impl Capture {
    /// A session over a monitor of the given size that has seen no frame.
    pub fn new(w: u32, h: u32) -> (c: Capture)
        ensures
            c@ == (CaptureView {
                width: w,
                height: h,
                staging: None,
                bytes: Seq::empty(),
                row_pitch: 0,
            }),
    {
        Capture { staging: None, buf: Vec::new(), row_pitch: 0, w, h }
    }

    /// The size of the monitor's picture, as last seen.
    pub fn size(&self) -> (r: (u32, u32))
        ensures
            r == (self@.width, self@.height),
    {
        (self.w, self.h)
    }

    /// A frame of the given size has arrived. Returns whether the staging
    /// texture has to be made anew for it.
    pub fn frame_arrived(&mut self, w: u32, h: u32) -> (need_new: bool)
        ensures
            final(self)@ == old(self)@.arrived(w, h),
            need_new == old(self)@.needs_staging(w, h),
    {
        self.w = w;
        self.h = h;
        match self.staging {
            Some((sw, sh)) => sw != w || sh != h,
            None => true,
        }
    }

    /// A staging texture of the frame's size has been made.
    pub fn staging_created(&mut self)
        ensures
            final(self)@ == old(self)@.with_staging(),
    {
        self.staging = Some((self.w, self.h));
    }

    /// How many bytes to map for the frame that has arrived, or `None` where
    /// that is more than memory can hold.
    pub fn mapped_len(&self, row_pitch: usize) -> (n: Option<usize>)
        ensures
            match n {
                Some(n) => n == row_pitch * self@.height,
                None => row_pitch * self@.height > usize::MAX,
            },
    {
        row_pitch.checked_mul(self.h as usize)
    }

    /// Takes over the bytes of the frame that has arrived.
    pub fn store(&mut self, mapped: &[u8], row_pitch: usize)
        requires
            mapped@.len() == row_pitch * old(self)@.height,
        ensures
            final(self)@ == old(self)@.with_frame(mapped@, row_pitch as nat),
    {
        self.buf.clear();
        self.buf.extend_from_slice(mapped);
        assert(self.buf@ =~= mapped@);
        self.row_pitch = row_pitch;
    }

    /// The frame that was last taken over. Its rows are `row_pitch` bytes
    /// apart, which may be more than four bytes per pixel.
    pub fn next_bgra(&self) -> (f: Frame<'_>)
        ensures
            f.bgra@ == self@.bytes,
            f.row_pitch == self@.row_pitch,
            f.width == self@.width,
            f.height == self@.height,
    {
        Frame {
            bgra: self.buf.as_slice(),
            row_pitch: self.row_pitch,
            width: self.w,
            height: self.h,
        }
    }
}

/// The system's rectangle survives: the edges of a monitor that is the right
/// way round can be read back from its corner and its sides.
pub proof fn law_rect_keeps_edges(m: RawMonitor)
    requires
        measurable(m),
        m.left <= m.right,
        m.top <= m.bottom,
    ensures
        rect_of(m).x + rect_of(m).width == m.right,
        rect_of(m).y + rect_of(m).height == m.bottom,
{
}

/// There is at most one first monitor with a given property, and so only one
/// answer to which monitor to capture.
pub proof fn law_first_is_unique(
    mons: Seq<MonitorRect>,
    p: spec_fn(MonitorRect) -> bool,
    i: int,
    j: int,
)
    requires
        first_such(mons, p, i),
        first_such(mons, p, j),
    ensures
        i == j,
{
    if i < j {
        assert(!p(mons[i]));
    } else if j < i {
        assert(!p(mons[j]));
    }
}

/// Frames of one size share one staging texture: once it is made, only a frame
/// of another size asks for a new one.
pub proof fn law_staging_is_reused(c: CaptureView, w: u32, h: u32, w2: u32, h2: u32)
    ensures
        c.arrived(w, h).with_staging().needs_staging(w2, h2) <==> (w2, h2) != (w, h),
{
}

/// A frame whose rows are at least four bytes per pixel apart is a whole
/// picture: its bytes are all that the conversion reads.
pub proof fn law_stored_frame_is_whole(c: CaptureView, bytes: Seq<u8>, row_pitch: nat)
    requires
        bytes.len() == row_pitch * c.height,
        row_pitch >= 4 * c.width,
    ensures
        crate::engine::convert::picture_fits(
            c.with_frame(bytes, row_pitch).bytes.len(),
            row_pitch as int,
            c.width as int,
            c.height as int,
        ),
{
    let h = c.height as int;
    if h > 0 {
        assert((h - 1) * row_pitch + row_pitch == row_pitch * h) by (nonlinear_arith);
    }
}

/// A monitor's rectangle begins at its left and top edges, is as large as the way
/// to the others or empty where they are the wrong way round, and is the primary
/// one where the lowest bit of the flag word is set.
pub proof fn law_rect_is_the_systems(m: RawMonitor)
    requires
        measurable(m),
    ensures
        rect_of(m).x == m.left,
        rect_of(m).y == m.top,
        m.left <= m.right ==> rect_of(m).width == m.right - m.left,
        m.left > m.right ==> rect_of(m).width == 0,
        m.top <= m.bottom ==> rect_of(m).height == m.bottom - m.top,
        m.top > m.bottom ==> rect_of(m).height == 0,
        rect_of(m).primary <==> m.flags % 2 == 1,
{
}

/// A rectangle can be measured where its sides fit in 32 bits.
pub proof fn law_measurable_sides(m: RawMonitor)
    ensures
        measurable(m) <==> -0x8000_0000 <= m.right - m.left < 0x8000_0000 && -0x8000_0000
            <= m.bottom - m.top < 0x8000_0000,
{
}

/// The monitor at a corner is the first that begins exactly there, and there is
/// one exactly when some monitor does.
pub proof fn law_corner_finds_its_monitor(mons: Seq<MonitorRect>, x: i32, y: i32, i: int)
    requires
        0 <= i < mons.len(),
    ensures
        first_such(mons, at_corner(x, y), i) <==> mons[i].x == x && mons[i].y == y && (forall|
            k: int,
        |
            0 <= k < i ==> !((#[trigger] mons[k]).x == x && mons[k].y == y)),
        mons[i].x == x && mons[i].y == y ==> any_such(mons, at_corner(x, y)),
        (forall|k: int|
            0 <= k < mons.len() ==> !((#[trigger] mons[k]).x == x && mons[k].y == y)) ==> !any_such(
            mons,
            at_corner(x, y),
        ),
{
    assert forall|k: int| 0 <= k < mons.len() implies #[trigger] at_corner(x, y)(mons[k]) == (
    mons[k].x == x && mons[k].y == y) by {}
    if mons[i].x == x && mons[i].y == y {
        assert(at_corner(x, y)(mons[i]));
    }
}

/// The default monitor is the first that is marked as the primary one, and the
/// first of all where none is marked.
pub proof fn law_default_is_primary_or_first(mons: Seq<MonitorRect>, i: int)
    requires
        is_default_monitor(mons, i),
    ensures
        0 <= i < mons.len(),
        mons[i].primary || (i == 0 && forall|k: int|
            0 <= k < mons.len() ==> !(#[trigger] mons[k]).primary),
        forall|k: int| 0 <= k < i ==> !(#[trigger] mons[k]).primary,
{
    if any_such(mons, is_primary()) {
        assert(is_primary()(mons[i]));
        assert forall|k: int| 0 <= k < i implies !(#[trigger] mons[k]).primary by {
            assert(!is_primary()(mons[k]));
        }
    } else {
        assert forall|k: int| 0 <= k < mons.len() implies !(#[trigger] mons[k]).primary by {
            assert(!is_primary()(mons[k]));
        }
    }
}

/// A frame that arrived and was taken over is the one that is handed on: its size,
/// its bytes and the distance of its rows, whatever was there before. Making or
/// keeping a staging texture changes nothing of it.
pub proof fn law_newest_frame_is_handed_on(
    c: CaptureView,
    w: u32,
    h: u32,
    bytes: Seq<u8>,
    row_pitch: nat,
)
    ensures
        ({
            let kept = c.arrived(w, h).with_frame(bytes, row_pitch);
            let made = c.arrived(w, h).with_staging().with_frame(bytes, row_pitch);
            &&& kept.width == w && kept.height == h
            &&& kept.bytes == bytes && kept.row_pitch == row_pitch
            &&& kept.staging == c.staging
            &&& made.width == w && made.height == h
            &&& made.bytes == bytes && made.row_pitch == row_pitch
            &&& made.staging == Some((w, h))
            &&& c.arrived(w, h).bytes == c.bytes && c.arrived(w, h).row_pitch == c.row_pitch
        }),
{
}

/// A staging texture is made where there is none or one of another size, and only
/// there.
pub proof fn law_staging_fits_the_frame(c: CaptureView, w: u32, h: u32)
    ensures
        c.staging is None ==> c.needs_staging(w, h),
        c.staging matches Some(size) ==> (c.needs_staging(w, h) <==> size.0 != w || size.1 != h),
{
}

} // verus!
