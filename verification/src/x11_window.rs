use vstd::prelude::*;
use crate::geometry::{WindowRect, WindowSnapshot};

verus! {

/// The X11 atom `None`, also the window `None`.
pub const X11_NONE: u32 = 0;

/// The predefined atom `ATOM`.
pub const ATOM_ATOM: u32 = 4;

/// The predefined atom `STRING`.
pub const ATOM_STRING: u32 = 31;

/// The predefined atom `WINDOW`.
pub const ATOM_WINDOW: u32 = 33;

/// The focus value `PointerRoot`.
pub const POINTER_ROOT: u32 = 1;

/// How deep the focus walk climbs from the active window towards the game window.
pub const FOCUS_WALK_LIMIT: u32 = 32;

/// The reply to an X11 `GetProperty` request: the property's type and format,
/// how many format units it holds, how many bytes were left unread, and its raw
/// bytes.
#[derive(Clone, Debug)]
pub struct PropertyReply {
    pub type_: u32,
    pub format: u8,
    pub value_len: u32,
    pub bytes_after: u32,
    pub value: Vec<u8>,
}

/// The values of an optional list.
pub open spec fn opt_words(w: Option<Vec<u32>>) -> Option<Seq<u32>> {
    match w {
        Some(v) => Some(v@),
        None => None,
    }
}

/// What reading a reply's bytes as 32-bit values can give: values only where the
/// format is 32, one for each whole four bytes.
pub open spec fn words_fit(r: PropertyReply, w: Option<Seq<u32>>) -> bool {
    &&& (w is Some <==> r.format == 32)
    &&& (w matches Some(s) ==> s.len() == r.value@.len() / 4)
}

/// The 32-bit value of the bytes `4i` to `4i + 3` of `b`: the first byte lowest
/// where `little_endian`, highest otherwise.
pub open spec fn word_at(b: Seq<u8>, i: int, little_endian: bool) -> u32 {
    let b0 = b[4 * i] as int;
    let b1 = b[4 * i + 1] as int;
    let b2 = b[4 * i + 2] as int;
    let b3 = b[4 * i + 3] as int;
    if little_endian {
        (b0 + 256 * b1 + 65536 * b2 + 16777216 * b3) as u32
    } else {
        (b3 + 256 * b2 + 65536 * b1 + 16777216 * b0) as u32
    }
}

/// The bytes of `b` read four at a time, in one byte order, as 32-bit values; a
/// short tail is left out.
pub open spec fn words_in(b: Seq<u8>, little_endian: bool) -> Seq<u32> {
    Seq::new(b.len() / 4, |i: int| word_at(b, i, little_endian))
}

/// The 32-bit values of a reply in one byte order: its bytes so read where the
/// format is 32, nothing otherwise.
pub open spec fn reply_words(r: PropertyReply, little_endian: bool) -> Option<Seq<u32>> {
    if r.format == 32 {
        Some(words_in(r.value@, little_endian))
    } else {
        None
    }
}

/// `GetPropertyReply::value32` of x11rb, on a reply with the format and bytes of
/// `reply`: where the format is 32, the bytes read four at a time with
/// `u32::from_ne_bytes`, a short tail left out; nothing otherwise. The machine's
/// byte order, little- or big-endian, decides the values; the contract says that
/// they are the bytes read in one of the two orders, the same for every value,
/// and does not say which.
#[verifier::external_body]
fn property_words(reply: &PropertyReply) -> (res: Option<Vec<u32>>)
    ensures
        words_fit(*reply, opt_words(res)),
        res matches Some(v) ==> exists|little_endian: bool|
            v@ == #[trigger] words_in(reply.value@, little_endian),
{
    let raw = x11rb::protocol::xproto::GetPropertyReply {
        format: reply.format,
        value: reply.value.clone(),
        ..Default::default()
    };
    raw.value32().map(|words| words.collect())
}

/// The reply's values as `property_words` gave them are those of one byte order.
proof fn lemma_words_in_one_order(reply: PropertyReply, words: Option<Vec<u32>>) -> (little_endian: bool)
    requires
        words_fit(reply, opt_words(words)),
        words matches Some(v) ==> exists|le: bool| v@ == #[trigger] words_in(reply.value@, le),
    ensures
        opt_words(words) == reply_words(reply, little_endian),
{
    match words {
        Some(v) => {
            let le = choose|le: bool| v@ == #[trigger] words_in(reply.value@, le);
            le
        },
        None => true,
    }
}

/// Why a `_NET_CLIENT_LIST` property cannot be read.
#[derive(Clone, Copy, Debug, PartialEq, Eq, Structural)]
pub enum WindowListError {
    /// Not a list of windows of 32-bit values.
    Malformed,
    /// More values than the address space holds.
    Oversized,
    /// Bytes are missing or left unread.
    Truncated,
}

impl WindowListError {
    /// The message of the error.
    pub fn message(&self) -> (res: &'static str)
        ensures
            res@ == match self {
                WindowListError::Malformed => "malformed _NET_CLIENT_LIST property"@,
                WindowListError::Oversized => "oversized _NET_CLIENT_LIST property"@,
                WindowListError::Truncated => "truncated _NET_CLIENT_LIST property"@,
            },
    {
        match self {
            WindowListError::Malformed => "malformed _NET_CLIENT_LIST property",
            WindowListError::Oversized => "oversized _NET_CLIENT_LIST property",
            WindowListError::Truncated => "truncated _NET_CLIENT_LIST property",
        }
    }
}

/// The meaning of a `_NET_CLIENT_LIST` reply: no list where the property is
/// absent or empty; the windows where it is a complete list of windows; an error
/// otherwise.
pub open spec fn spec_window_list(r: PropertyReply, words: Option<Seq<u32>>) -> Result<
    Option<Seq<u32>>,
    WindowListError,
> {
    if r.type_ == X11_NONE && r.format == 0 && r.value_len == 0 && r.value@.len() == 0 {
        Ok(None)
    } else if r.type_ != ATOM_WINDOW || r.format != 32 {
        Err(WindowListError::Malformed)
    } else if r.value_len * 4 > usize::MAX {
        Err(WindowListError::Oversized)
    } else if r.bytes_after != 0 || r.value@.len() != r.value_len * 4 {
        Err(WindowListError::Truncated)
    } else {
        match words {
            None => Err(WindowListError::Malformed),
            Some(w) => if w.len() == 0 {
                Ok(None)
            } else {
                Ok(Some(w))
            },
        }
    }
}

/// Whether a list result is the one the specification gives.
pub open spec fn list_result_is(
    res: Result<Option<Vec<u32>>, WindowListError>,
    expected: Result<Option<Seq<u32>>, WindowListError>,
) -> bool {
    match (res, expected) {
        (Ok(Some(w)), Ok(Some(s))) => w@ == s,
        (Ok(None), Ok(None)) => true,
        (Err(e), Err(f)) => e == f,
        _ => false,
    }
}

/// The windows of a `_NET_CLIENT_LIST` reply whose bytes read as 32-bit values
/// give `words`.
pub fn window_list_from(reply: &PropertyReply, words: Option<Vec<u32>>) -> (res: Result<
    Option<Vec<u32>>,
    WindowListError,
>)
    ensures
        list_result_is(res, spec_window_list(*reply, opt_words(words))),
{
    if reply.type_ == X11_NONE && reply.format == 0 && reply.value_len == 0 && reply.value.len()
        == 0 {
        return Ok(None);
    }
    if reply.type_ != ATOM_WINDOW || reply.format != 32 {
        return Err(WindowListError::Malformed);
    }
    let len = reply.value_len as usize;
    let expected_len = match len.checked_mul(4) {
        Some(n) => n,
        None => {
            return Err(WindowListError::Oversized);
        },
    };
    if reply.bytes_after != 0 || reply.value.len() != expected_len {
        return Err(WindowListError::Truncated);
    }
    match words {
        None => Err(WindowListError::Malformed),
        Some(w) => if w.len() == 0 {
            Ok(None)
        } else {
            Ok(Some(w))
        },
    }
}

/// The windows of a `_NET_CLIENT_LIST` reply.
pub fn parse_window_list(reply: &PropertyReply) -> (res: Result<Option<Vec<u32>>, WindowListError>)
    ensures
        exists|little_endian: bool|
            list_result_is(res, spec_window_list(*reply, #[trigger] reply_words(*reply, little_endian))),
{
    let words = property_words(reply);
    let res = window_list_from(reply, words);
    proof {
        let le = lemma_words_in_one_order(*reply, words);
        assert(list_result_is(res, spec_window_list(*reply, reply_words(*reply, le))));
    }
    res
}

/// The one window among `windows`; none where there are none or several, so
/// that an ambiguous title never selects a window.
pub fn unique_window(windows: &[u32]) -> (res: Option<u32>)
    ensures
        res == if windows@.len() == 1 {
            Some(windows@[0])
        } else {
            None
        },
{
    if windows.len() == 1 {
        Some(windows[0])
    } else {
        None
    }
}

fn bytes_equal(a: &[u8], b: &[u8]) -> (res: bool)
    ensures
        res == (a@ == b@),
{
    if a.len() != b.len() {
        return false;
    }
    let mut i: usize = 0;
    while i < a.len()
        invariant
            a@.len() == b@.len(),
            i <= a@.len(),
            forall|j: int| 0 <= j < i ==> a@[j] == b@[j],
        decreases a@.len() - i,
    {
        if a[i] != b[i] {
            return false;
        }
        i += 1;
    }
    assert(a@ =~= b@);
    true
}

/// A window name property of type `name_type` holds exactly `title`: a complete
/// 8-bit string of that type equal to it.
pub open spec fn spec_name_is(r: PropertyReply, name_type: u32, title: Seq<u8>) -> bool {
    r.type_ == name_type && r.format == 8 && r.bytes_after == 0 && r.value@ == title
}

/// What a window's `_NET_WM_NAME` says of its title: a UTF-8 string decides
/// (the title matches where the string is complete and equal); anything else
/// leaves it to `WM_NAME`.
pub fn net_wm_name_verdict(reply: &PropertyReply, utf8_atom: u32, title: &[u8]) -> (res: Option<bool>)
    ensures
        res == if reply.type_ == utf8_atom && reply.format == 8 {
            Some(reply.bytes_after == 0 && reply.value@ == title@)
        } else {
            None
        },
{
    if reply.type_ == utf8_atom && reply.format == 8 {
        Some(reply.bytes_after == 0 && bytes_equal(reply.value.as_slice(), title))
    } else {
        None
    }
}

/// Whether a window's `WM_NAME` is exactly `title`.
pub fn wm_name_matches(reply: &PropertyReply, title: &[u8]) -> (res: bool)
    ensures
        res == spec_name_is(*reply, ATOM_STRING, title@),
{
    reply.type_ == ATOM_STRING && reply.format == 8 && reply.bytes_after == 0 && bytes_equal(
        reply.value.as_slice(),
        title,
    )
}

/// The active window that a `_NET_ACTIVE_WINDOW` reply, whose bytes read as
/// 32-bit values give `words`, names, if it names a window.
pub open spec fn spec_active_window(r: PropertyReply, words: Option<Seq<u32>>) -> Option<u32> {
    if r.type_ != ATOM_WINDOW || r.format != 32 {
        None
    } else {
        match words {
            Some(w) => if w.len() > 0 && w[0] != X11_NONE && w[0] != POINTER_ROOT {
                Some(w[0])
            } else {
                None
            },
            None => None,
        }
    }
}

/// The active window of a `_NET_ACTIVE_WINDOW` reply whose bytes read as 32-bit
/// values give `words`.
pub fn active_window_from(reply: &PropertyReply, words: Option<Vec<u32>>) -> (res: Option<u32>)
    ensures
        res == spec_active_window(*reply, opt_words(words)),
{
    if reply.type_ != ATOM_WINDOW || reply.format != 32 {
        return None;
    }
    match words {
        Some(w) => if w.len() > 0 && w[0] != X11_NONE && w[0] != POINTER_ROOT {
            Some(w[0])
        } else {
            None
        },
        None => None,
    }
}

/// The active window of a `_NET_ACTIVE_WINDOW` reply.
pub fn active_window(reply: &PropertyReply) -> (res: Option<u32>)
    ensures
        exists|little_endian: bool| res == spec_active_window(*reply, #[trigger] reply_words(*reply, little_endian)),
{
    let words = property_words(reply);
    let res = active_window_from(reply, words);
    proof {
        let le = lemma_words_in_one_order(*reply, words);
        assert(res == spec_active_window(*reply, reply_words(*reply, le)));
    }
    res
}

/// What the focus walk does next.
#[derive(Clone, Copy, Debug, PartialEq, Eq, Structural)]
pub enum FocusWalk {
    /// The walk ended: whether the game window has the focus.
    Done(bool),
    /// Look up the parent of this window.
    QueryParent(u32),
}

/// The first step of the walk from the active window up to the game window
/// `target`.
pub fn focus_walk_start(active: u32, target: u32) -> (res: FocusWalk)
    ensures
        res == if active == target {
            FocusWalk::Done(true)
        } else {
            FocusWalk::QueryParent(active)
        },
{
    if active == target {
        FocusWalk::Done(true)
    } else {
        FocusWalk::QueryParent(active)
    }
}

/// The next step after the parent of `window` turned out to be `parent`, when
/// `steps` windows were looked at so far: the walk stops at the root, at a
/// window without parent, after `FOCUS_WALK_LIMIT` windows, and at the game window.
pub fn focus_walk_step(window: u32, parent: u32, root: u32, target: u32, steps: u32) -> (res: FocusWalk)
    ensures
        res == if parent == X11_NONE || parent == root || parent == window {
            FocusWalk::Done(false)
        } else if steps + 1 >= FOCUS_WALK_LIMIT {
            FocusWalk::Done(false)
        } else if parent == target {
            FocusWalk::Done(true)
        } else {
            FocusWalk::QueryParent(parent)
        },
{
    if parent == X11_NONE || parent == root || parent == window {
        FocusWalk::Done(false)
    } else if steps >= FOCUS_WALK_LIMIT - 1 {
        FocusWalk::Done(false)
    } else if parent == target {
        FocusWalk::Done(true)
    } else {
        FocusWalk::QueryParent(parent)
    }
}

/// A `_NET_WM_STATE` reply, whose bytes read as 32-bit values give `words`,
/// lists the fullscreen state.
pub open spec fn spec_lists_fullscreen(r: PropertyReply, words: Option<Seq<u32>>, atom: u32) -> bool {
    r.type_ == ATOM_ATOM && r.format == 32 && match words {
        Some(w) => w.contains(atom),
        None => false,
    }
}

/// Whether a `_NET_WM_STATE` reply whose bytes read as 32-bit values give
/// `words` lists the fullscreen state.
pub fn fullscreen_from(reply: &PropertyReply, words: Option<Vec<u32>>, fullscreen_atom: u32) -> (res:
    bool)
    ensures
        res == spec_lists_fullscreen(*reply, opt_words(words), fullscreen_atom),
{
    if reply.type_ != ATOM_ATOM || reply.format != 32 {
        return false;
    }
    let ghost ws = opt_words(words);
    match words {
        Some(w) => {
            let mut i: usize = 0;
            while i < w.len()
                invariant
                    reply.type_ == ATOM_ATOM,
                    reply.format == 32,
                    ws == Some(w@),
                    ws == opt_words(words),
                    i <= w@.len(),
                    forall|j: int| 0 <= j < i ==> w@[j] != fullscreen_atom,
                decreases w@.len() - i,
            {
                if w[i] == fullscreen_atom {
                    assert(w@.contains(fullscreen_atom));
                    return true;
                }
                i += 1;
            }
            false
        },
        None => false,
    }
}

/// Whether a `_NET_WM_STATE` reply lists the fullscreen state.
pub fn lists_fullscreen(reply: &PropertyReply, fullscreen_atom: u32) -> (res: bool)
    ensures
        exists|little_endian: bool|
            res == spec_lists_fullscreen(*reply, #[trigger] reply_words(*reply, little_endian), fullscreen_atom),
{
    let words = property_words(reply);
    let res = fullscreen_from(reply, words, fullscreen_atom);
    proof {
        let le = lemma_words_in_one_order(*reply, words);
        assert(res == spec_lists_fullscreen(*reply, reply_words(*reply, le), fullscreen_atom));
    }
    res
}

/// The game window's area from its position on the root window and its size;
/// none where the area is empty.
pub fn snapshot_rect(dst_x: i16, dst_y: i16, width: u16, height: u16) -> (res: Option<WindowRect>)
    ensures
        res == if width > 0 && height > 0 {
            Some(
                WindowRect {
                    left: dst_x as i32,
                    top: dst_y as i32,
                    width: width as i32,
                    height: height as i32,
                },
            )
        } else {
            None
        },
{
    let rect = WindowRect {
        left: dst_x as i32,
        top: dst_y as i32,
        width: width as i32,
        height: height as i32,
    };
    if rect.is_valid() {
        Some(rect)
    } else {
        None
    }
}

/// The observation of the game window; none where its state property is gone.
pub fn window_snapshot(window: u32, rect: WindowRect, foreground: bool, fullscreen: Option<bool>) -> (res:
    Option<WindowSnapshot>)
    ensures
        res == match fullscreen {
            Some(f) => Some(
                WindowSnapshot { window: window as u64, rect, foreground, fullscreen: f },
            ),
            None => None,
        },
{
    match fullscreen {
        Some(f) => Some(WindowSnapshot { window: window as u64, rect, foreground, fullscreen: f }),
        None => None,
    }
}


/// How an X11 request failed.
#[derive(Clone, Copy, Debug, PartialEq, Eq, Structural)]
pub enum ReplyFailureKind {
    /// The server answered with a `Window` error: the window is gone.
    BadWindow,
    /// The server answered with another protocol error.
    OtherX11Error,
    /// The connection failed.
    Connection,
}

/// A failed X11 request: how it failed, and the error's message.
#[derive(Clone, Debug)]
pub struct ReplyFailure {
    pub kind: ReplyFailureKind,
    pub message: String,
}

/// The reply of a request about a window, where a `Window` error means that the
/// window is gone (`None`) and any other failure, the connection's included, is
/// an error with its message.
pub fn reply_or_window_gone<T>(reply: Result<T, ReplyFailure>) -> (res: Result<Option<T>, String>)
    ensures
        match reply {
            Ok(t) => res matches Ok(Some(u)) && u == t,
            Err(f) => if f.kind == ReplyFailureKind::BadWindow {
                res matches Ok(None)
            } else {
                res matches Err(m) && m@ == f.message@
            },
        },
{
    match reply {
        Ok(t) => Ok(Some(t)),
        Err(f) => if f.kind == ReplyFailureKind::BadWindow {
            Ok(None)
        } else {
            Err(f.message)
        },
    }
}

} // verus!
