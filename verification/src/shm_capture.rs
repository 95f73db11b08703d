use vstd::prelude::*;
use crate::capture_layout::{
    calculate_layout, pixel_format_supported, spec_calculate_layout, PixelLayout,
    IMAGE_ORDER_LSB_FIRST, VISUAL_CLASS_TRUE_COLOR,
};

verus! {

/// A pixmap format that the X server offers.
#[derive(Clone, Copy, Debug, PartialEq, Eq, Structural)]
pub struct PixmapFormat {
    pub depth: u8,
    pub bits_per_pixel: u8,
    pub scanline_pad: u8,
}

/// A visual of the X server.
#[derive(Clone, Copy, Debug, PartialEq, Eq, Structural)]
pub struct VisualType {
    pub visual_id: u32,
    pub class: u8,
    pub red_mask: u32,
    pub green_mask: u32,
    pub blue_mask: u32,
}

/// The visuals of one depth of one screen.
#[derive(Clone, Debug)]
pub struct DepthVisuals {
    pub depth: u8,
    pub visuals: Vec<VisualType>,
}

/// What the connection setup tells of pixels: the image byte order, the pixmap
/// formats, and the depths of all screens in order.
#[derive(Clone, Debug)]
pub struct PixelSetup {
    pub image_byte_order: u8,
    pub pixmap_formats: Vec<PixmapFormat>,
    pub depths: Vec<DepthVisuals>,
}

/// The capture target as the backend sees it.
#[derive(Clone, Copy, Debug, PartialEq, Eq, Structural)]
pub struct WindowInfo {
    pub window: u32,
    pub visual: u32,
    pub width: u16,
    pub height: u16,
    pub depth: u8,
}

/// A format serves a depth when it has that depth and 32 bits per pixel.
pub open spec fn format_fits(f: PixmapFormat, depth: u8) -> bool {
    f.depth == depth && f.bits_per_pixel == 32
}

/// `i` is the first format that serves `depth`.
pub open spec fn is_first_format(formats: Seq<PixmapFormat>, depth: u8, i: int) -> bool {
    &&& 0 <= i < formats.len()
    &&& format_fits(formats[i], depth)
    &&& forall|j: int| 0 <= j < i ==> !format_fits(#[trigger] formats[j], depth)
}

/// The first format that serves `depth`, if any.
pub open spec fn chosen_format(formats: Seq<PixmapFormat>, depth: u8) -> Option<PixmapFormat> {
    if exists|i: int| is_first_format(formats, depth, i) {
        Some(formats[choose|i: int| is_first_format(formats, depth, i)])
    } else {
        None
    }
}

/// Visual `k` of depth entry `d` is the visual `visual` of depth `depth`.
pub open spec fn visual_at(d: DepthVisuals, depth: u8, k: int, visual: u32) -> bool {
    d.depth == depth && 0 <= k < d.visuals@.len() && d.visuals@[k].visual_id == visual
}

/// Visual `k` of depth entry `i` is the first visual `visual` of depth `depth`,
/// screens and depths taken in order.
pub open spec fn is_first_visual(depths: Seq<DepthVisuals>, depth: u8, visual: u32, i: int, k: int) -> bool {
    &&& 0 <= i < depths.len()
    &&& visual_at(depths[i], depth, k, visual)
    &&& forall|i2: int, k2: int|
        (0 <= i2 < i || (i2 == i && k2 < k)) ==> !#[trigger] visual_at(depths[i2], depth, k2, visual)
}

/// The first visual `visual` of depth `depth`, if any.
pub open spec fn chosen_visual(depths: Seq<DepthVisuals>, depth: u8, visual: u32) -> Option<VisualType> {
    if exists|p: (int, int)| is_first_visual(depths, depth, visual, p.0, p.1) {
        let p = choose|p: (int, int)| is_first_visual(depths, depth, visual, p.0, p.1);
        Some(depths[p.0].visuals@[p.1])
    } else {
        None
    }
}

proof fn lemma_first_format_unique(formats: Seq<PixmapFormat>, depth: u8, i: int)
    requires
        is_first_format(formats, depth, i),
    ensures
        chosen_format(formats, depth) == Some(formats[i]),
{
    let c = choose|c: int| is_first_format(formats, depth, c);
    assert(is_first_format(formats, depth, c));
    if c < i {
        assert(!format_fits(formats[c], depth));
    }
    if i < c {
        assert(!format_fits(formats[i], depth));
    }
}

proof fn lemma_first_visual_unique(depths: Seq<DepthVisuals>, depth: u8, visual: u32, i: int, k: int)
    requires
        is_first_visual(depths, depth, visual, i, k),
    ensures
        chosen_visual(depths, depth, visual) == Some(depths[i].visuals@[k]),
{
    assert(is_first_visual(depths, depth, visual, (i, k).0, (i, k).1));
    let p = choose|p: (int, int)| is_first_visual(depths, depth, visual, p.0, p.1);
    assert(is_first_visual(depths, depth, visual, p.0, p.1));
    if p.0 < i || (p.0 == i && p.1 < k) {
        assert(!visual_at(depths[p.0], depth, p.1, visual));
    }
    if i < p.0 || (i == p.0 && k < p.1) {
        assert(!visual_at(depths[i], depth, k, visual));
    }
}

/// Why no pixel layout can be read from the server's setup.
#[derive(Clone, Copy, Debug, PartialEq, Eq, Structural)]
pub enum PixelLayoutError {
    /// No pixmap format of the window's depth has 32 bits per pixel.
    NoFormat { depth: u8 },
    /// The window's visual is not among the visuals of its depth.
    NoVisual { visual: u32 },
    /// The pixels are not native BGRA true colour.
    Unsupported {
        depth: u8,
        bits_per_pixel: u8,
        image_order: u8,
        class: u8,
        red_mask: u32,
        green_mask: u32,
        blue_mask: u32,
    },
    /// The image does not fit in memory.
    Overflow { width: u16, height: u16, scanline_pad: u8 },
}

/// The supported layouts: native little-endian BGRA true colour of depth 24 or 32.
pub open spec fn format_supported(depth: u8, bits_per_pixel: u8, order: u8, v: VisualType) -> bool {
    &&& (depth == 24 || depth == 32)
    &&& bits_per_pixel == 32
    &&& order == IMAGE_ORDER_LSB_FIRST
    &&& v.class == VISUAL_CLASS_TRUE_COLOR
    &&& v.red_mask == 0x00ff_0000
    &&& v.green_mask == 0x0000_ff00
    &&& v.blue_mask == 0x0000_00ff
}

/// The layout of the window's pixels: from the first pixmap format of its depth
/// with 32 bits per pixel and the first visual of its depth with its visual id,
/// when they describe native BGRA and the image fits in memory.
pub open spec fn spec_pixel_layout(setup: PixelSetup, info: WindowInfo) -> Result<PixelLayout, PixelLayoutError> {
    match chosen_format(setup.pixmap_formats@, info.depth) {
        None => Err(PixelLayoutError::NoFormat { depth: info.depth }),
        Some(f) => match chosen_visual(setup.depths@, info.depth, info.visual) {
            None => Err(PixelLayoutError::NoVisual { visual: info.visual }),
            Some(v) => if !format_supported(info.depth, f.bits_per_pixel, setup.image_byte_order, v) {
                Err(
                    PixelLayoutError::Unsupported {
                        depth: info.depth,
                        bits_per_pixel: f.bits_per_pixel,
                        image_order: setup.image_byte_order,
                        class: v.class,
                        red_mask: v.red_mask,
                        green_mask: v.green_mask,
                        blue_mask: v.blue_mask,
                    },
                )
            } else {
                match spec_calculate_layout(
                    info.width as u32,
                    info.height as u32,
                    f.bits_per_pixel,
                    f.scanline_pad,
                ) {
                    Some(l) => Ok(l),
                    None => Err(
                        PixelLayoutError::Overflow {
                            width: info.width,
                            height: info.height,
                            scanline_pad: f.scanline_pad,
                        },
                    ),
                }
            },
        },
    }
}

fn find_format(formats: &Vec<PixmapFormat>, depth: u8) -> (res: Option<PixmapFormat>)
    ensures
        res == chosen_format(formats@, depth),
{
    let mut i: usize = 0;
    while i < formats.len()
        invariant
            i <= formats@.len(),
            forall|j: int| 0 <= j < i ==> !format_fits(#[trigger] formats@[j], depth),
        decreases formats@.len() - i,
    {
        let f = formats[i];
        if f.depth == depth && f.bits_per_pixel == 32 {
            proof {
                lemma_first_format_unique(formats@, depth, i as int);
            }
            return Some(f);
        }
        i += 1;
    }
    assert(!exists|i: int| is_first_format(formats@, depth, i));
    None
}

fn find_visual(depths: &Vec<DepthVisuals>, depth: u8, visual: u32) -> (res: Option<VisualType>)
    ensures
        res == chosen_visual(depths@, depth, visual),
{
    let mut i: usize = 0;
    while i < depths.len()
        invariant
            i <= depths@.len(),
            forall|i2: int, k2: int| 0 <= i2 < i ==> !#[trigger] visual_at(depths@[i2], depth, k2, visual),
        decreases depths@.len() - i,
    {
        let d = &depths[i];
        if d.depth == depth {
            let mut k: usize = 0;
            while k < d.visuals.len()
                invariant
                    i < depths@.len(),
                    *d == depths@[i as int],
                    d.depth == depth,
                    k <= d.visuals@.len(),
                    forall|i2: int, k2: int| 0 <= i2 < i ==> !#[trigger] visual_at(depths@[i2], depth, k2, visual),
                    forall|k2: int| k2 < k ==> !#[trigger] visual_at(depths@[i as int], depth, k2, visual),
                decreases d.visuals@.len() - k,
            {
                let v = d.visuals[k];
                if v.visual_id == visual {
                    proof {
                        assert(visual_at(depths@[i as int], depth, k as int, visual));
                        lemma_first_visual_unique(depths@, depth, visual, i as int, k as int);
                    }
                    return Some(v);
                }
                k += 1;
            }
            assert forall|i2: int, k2: int| 0 <= i2 < i + 1 implies !#[trigger] visual_at(
                depths@[i2],
                depth,
                k2,
                visual,
            ) by {
                if i2 == i && 0 <= k2 < d.visuals@.len() {
                    assert(d.visuals@[k2].visual_id != visual || !visual_at(depths@[i2], depth, k2, visual));
                }
            }
        }
        i += 1;
    }
    assert(!exists|p: (int, int)| is_first_visual(depths@, depth, visual, p.0, p.1));
    None
}

/// The layout of the window's pixels as the server's setup describes them.
pub fn pixel_layout(setup: &PixelSetup, info: WindowInfo) -> (res: Result<PixelLayout, PixelLayoutError>)
    ensures
        res == spec_pixel_layout(*setup, info),
{
    let format = match find_format(&setup.pixmap_formats, info.depth) {
        Some(f) => f,
        None => {
            return Err(PixelLayoutError::NoFormat { depth: info.depth });
        },
    };
    let visual = match find_visual(&setup.depths, info.depth, info.visual) {
        Some(v) => v,
        None => {
            return Err(PixelLayoutError::NoVisual { visual: info.visual });
        },
    };
    if !pixel_format_supported(
        info.depth,
        format.bits_per_pixel,
        setup.image_byte_order,
        visual.class,
        visual.red_mask,
        visual.green_mask,
        visual.blue_mask,
    ) {
        return Err(
            PixelLayoutError::Unsupported {
                depth: info.depth,
                bits_per_pixel: format.bits_per_pixel,
                image_order: setup.image_byte_order,
                class: visual.class,
                red_mask: visual.red_mask,
                green_mask: visual.green_mask,
                blue_mask: visual.blue_mask,
            },
        );
    }
    match calculate_layout(
        info.width as u32,
        info.height as u32,
        format.bits_per_pixel,
        format.scanline_pad,
    ) {
        Some(l) => Ok(l),
        None => Err(
            PixelLayoutError::Overflow {
                width: info.width,
                height: info.height,
                scanline_pad: format.scanline_pad,
            },
        ),
    }
}

/// X11 `MapState::VIEWABLE`.
pub const MAP_STATE_VIEWABLE: u8 = 2;

/// Why a window cannot be captured for now.
#[derive(Clone, Copy, Debug, PartialEq, Eq, Structural)]
pub enum WindowInfoError {
    /// The window is not viewable.
    NotViewable,
    /// The window has a border of this width.
    Border(u16),
    /// The window has no area.
    ZeroSize,
}

/// The capture target from its attributes and geometry: it must be viewable,
/// without border, and of non-zero size.
pub fn check_window_info(
    window: u32,
    map_state: u8,
    visual: u32,
    border_width: u16,
    width: u16,
    height: u16,
    depth: u8,
) -> (res: Result<WindowInfo, WindowInfoError>)
    ensures
        res == if map_state != MAP_STATE_VIEWABLE {
            Err(WindowInfoError::NotViewable)
        } else if border_width != 0 {
            Err(WindowInfoError::Border(border_width))
        } else if width == 0 || height == 0 {
            Err(WindowInfoError::ZeroSize)
        } else {
            Ok(WindowInfo { window, visual, width, height, depth })
        },
{
    if map_state != MAP_STATE_VIEWABLE {
        return Err(WindowInfoError::NotViewable);
    }
    if border_width != 0 {
        return Err(WindowInfoError::Border(border_width));
    }
    if width == 0 || height == 0 {
        return Err(WindowInfoError::ZeroSize);
    }
    Ok(WindowInfo { window, visual, width, height, depth })
}

/// Why a capture generation cannot be set up for a named pixmap.
#[derive(Clone, Copy, Debug, PartialEq, Eq, Structural)]
pub enum GenerationError {
    /// The pixmap's size or depth differs from the window's (the window changed).
    GeometryMismatch { width: u16, height: u16, depth: u8 },
    /// The pixels cannot be read.
    Layout(PixelLayoutError),
    /// The shared-memory segment would exceed 4 GiB.
    TooLarge { size: usize },
}

impl GenerationError {
    /// Whether the error can go away on its own (the window is changing), rather
    /// than stopping capture.
    pub fn is_transient(&self) -> (res: bool)
        ensures
            res == (*self is GeometryMismatch),
    {
        match self {
            GenerationError::GeometryMismatch { .. } => true,
            _ => false,
        }
    }
}

/// What a capture generation needs: the pixel layout of the window and the size
/// of the shared-memory segment, once the named pixmap is known to match the
/// window.
pub open spec fn spec_generation_plan(
    setup: PixelSetup,
    info: WindowInfo,
    width: u16,
    height: u16,
    depth: u8,
) -> Result<(PixelLayout, u32), GenerationError> {
    if width != info.width || height != info.height || depth != info.depth {
        Err(GenerationError::GeometryMismatch { width, height, depth })
    } else {
        match spec_pixel_layout(setup, info) {
            Err(e) => Err(GenerationError::Layout(e)),
            Ok(l) => if l.size > u32::MAX {
                Err(GenerationError::TooLarge { size: l.size })
            } else {
                Ok((l, l.size as u32))
            },
        }
    }
}

/// Plans a capture generation for a named pixmap of the given geometry.
pub fn generation_plan(
    setup: &PixelSetup,
    info: WindowInfo,
    width: u16,
    height: u16,
    depth: u8,
) -> (res: Result<(PixelLayout, u32), GenerationError>)
    ensures
        res == spec_generation_plan(*setup, info, width, height, depth),
{
    if width != info.width || height != info.height || depth != info.depth {
        return Err(GenerationError::GeometryMismatch { width, height, depth });
    }
    match pixel_layout(setup, info) {
        Err(e) => Err(GenerationError::Layout(e)),
        Ok(l) => if l.size > u32::MAX as usize {
            Err(GenerationError::TooLarge { size: l.size })
        } else {
            Ok((l, l.size as u32))
        },
    }
}

/// Whether a MIT-SHM `GetImage` reply describes the image of the generation: the
/// same depth and exactly the size of the mapped segment.
pub fn shm_reply_matches(reply_depth: u8, reply_size: u32, depth: u8, map_len: usize) -> (res: bool)
    ensures
        res == (reply_depth == depth && reply_size == map_len),
{
    reply_depth == depth && reply_size as u64 == map_len as u64
}

/// The lifecycle events of the capture target that the backend reacts to.
#[derive(Clone, Copy, Debug, PartialEq, Eq, Structural)]
pub enum LifecycleEvent {
    Configured { window: u32, width: u16, height: u16 },
    Unmapped { window: u32 },
    Mapped { window: u32 },
    Destroyed { window: u32 },
    Other,
}

/// What an event does to the binding.
#[derive(Clone, Copy, Debug, PartialEq, Eq, Structural)]
pub enum LifecycleAction {
    /// Nothing happens.
    Ignore,
    /// The capture generation is released and made again on the next use.
    Invalidate,
    /// The window is gone: the binding is dropped.
    Destroy,
}

/// The reaction to an event, for the bound window (if any) and the size of its
/// capture generation (if any): a resize of the bound window to another size than
/// the generation's, and an unmap or map of it, invalidate the generation; its
/// destruction drops the binding; anything else is ignored.
pub fn lifecycle_action(
    event: LifecycleEvent,
    bound: Option<u32>,
    generation_size: Option<(u16, u16)>,
) -> (res: LifecycleAction)
    ensures
        res == match bound {
            None => LifecycleAction::Ignore,
            Some(w) => match event {
                LifecycleEvent::Configured { window, width, height } => if window == w && (
                generation_size matches Some(size) && (width, height) != size) {
                    LifecycleAction::Invalidate
                } else {
                    LifecycleAction::Ignore
                },
                LifecycleEvent::Unmapped { window } => if window == w {
                    LifecycleAction::Invalidate
                } else {
                    LifecycleAction::Ignore
                },
                LifecycleEvent::Mapped { window } => if window == w {
                    LifecycleAction::Invalidate
                } else {
                    LifecycleAction::Ignore
                },
                LifecycleEvent::Destroyed { window } => if window == w {
                    LifecycleAction::Destroy
                } else {
                    LifecycleAction::Ignore
                },
                LifecycleEvent::Other => LifecycleAction::Ignore,
            },
        },
{
    let w = match bound {
        None => {
            return LifecycleAction::Ignore;
        },
        Some(w) => w,
    };
    match event {
        LifecycleEvent::Configured { window, width, height } => {
            let resized = match generation_size {
                Some((gw, gh)) => width != gw || height != gh,
                None => false,
            };
            if window == w && resized {
                LifecycleAction::Invalidate
            } else {
                LifecycleAction::Ignore
            }
        },
        LifecycleEvent::Unmapped { window } | LifecycleEvent::Mapped { window } => if window == w {
            LifecycleAction::Invalidate
        } else {
            LifecycleAction::Ignore
        },
        LifecycleEvent::Destroyed { window } => if window == w {
            LifecycleAction::Destroy
        } else {
            LifecycleAction::Ignore
        },
        LifecycleEvent::Other => LifecycleAction::Ignore,
    }
}

/// The kinds of X11 protocol errors that the backend tells apart.
#[derive(Clone, Copy, Debug, PartialEq, Eq, Structural)]
pub enum X11ErrorKind {
    Window,
    Drawable,
    Pixmap,
    Match,
    Other,
}

/// Whether a protocol error of this kind means that the target changed under the
/// request (so the failure is transient): a bad window, drawable, pixmap or match.
pub fn transient_error_kind(kind: X11ErrorKind) -> (res: bool)
    ensures
        res == !(kind is Other),
{
    match kind {
        X11ErrorKind::Other => false,
        _ => true,
    }
}

} // verus!
