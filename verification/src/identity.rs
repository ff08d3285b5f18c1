//! Identity of an overlay window: the owning process instance and the window handle.
use crate::text::{
    chars_of, copy_range, ends_with, eq_ignore_ascii_case, find, find_from, index_of_or_len,
    index_or_len, lower_chars, lowered, occurs_at, same_ignoring_ascii_case, str_eq, string_of,
};
use vstd::prelude::*;
use vstd::string::*;

verus! {

/// A process instance: a PID is only meaningful together with the process start time.
#[derive(Clone, Debug)]
pub struct Owner {
    pub pid: u32,
    pub start: u64,
    pub version: String,
    pub path: String,
    pub test: bool,
}

/// A candidate overlay window as seen by discovery.
#[derive(Clone, Debug)]
pub struct Window {
    pub hwnd: usize,
    pub owner: Owner,
    pub rect: [i32; 4],
    pub style: u32,
}

/// The key under which the repair policy tracks a window: process instance and handle.
#[derive(Clone, Copy, Debug, PartialEq, Eq, Hash, Structural)]
pub struct WindowKey {
    pub pid: u32,
    pub start: u64,
    pub hwnd: usize,
}

/// The key of a window, as a value.
pub open spec fn key_of(w: Window) -> WindowKey {
    WindowKey { pid: w.owner.pid, start: w.owner.start, hwnd: w.hwnd }
}

impl Window {
    pub fn key(&self) -> (k: WindowKey)
        ensures
            k == key_of(*self),
    {
        WindowKey { pid: self.owner.pid, start: self.owner.start, hwnd: self.hwnd }
    }
}

/// Equality of two window rectangles (left, top, right, bottom).
pub fn same_rect(a: &[i32; 4], b: &[i32; 4]) -> (r: bool)
    ensures
        r == (a@ == b@),
{
    let r = a[0] == b[0] && a[1] == b[1] && a[2] == b[2] && a[3] == b[3];
    if r {
        assert(a@ =~= b@);
    }
    r
}


/// The package family of the official Codex application.
pub const OFFICIAL_FAMILY: &'static str = "OpenAI.Codex_2p2nqsd0c76g0";
pub const APP_SUFFIX: &'static str = "\\app\\chatgpt.exe";
pub const INSTALL_MARK: &'static str = "\\windowsapps\\openai.codex_";
pub const PACKAGE_MARK: &'static str = "openai.codex_";

/// The piece of `s` after the first occurrence of `pat`, up to its next occurrence.
pub open spec fn second_piece(s: Seq<char>, pat: Seq<char>) -> Seq<char> {
    match find_from(s, pat, 0) {
        None => Seq::empty(),
        Some(i) => {
            let after = s.subrange(i + pat.len(), s.len() as int);
            match find_from(after, pat, 0) {
                Some(e) => after.subrange(0, e),
                None => after,
            }
        },
    }
}

/// The version of the official package installed at `path`, read from the package directory
/// name (lower-cased), when `path` is the application executable of that package.
pub open spec fn official_version_of(path: Seq<char>, family: Seq<char>) -> Option<Seq<char>> {
    let lower = lower_chars(path);
    let piece = second_piece(lower, PACKAGE_MARK@);
    let version = piece.subrange(0, index_or_len(piece, '_'));
    if family != OFFICIAL_FAMILY@ || !ends_with(lower, APP_SUFFIX@) || find_from(
        lower,
        INSTALL_MARK@,
        0,
    ) is None || version.len() == 0 {
        None
    } else {
        Some(version)
    }
}

pub fn official_version(path: &str, family: &str) -> (r: Option<String>)
    ensures
        match r {
            Some(v) => official_version_of(path@, family@) == Some(v@),
            None => official_version_of(path@, family@) is None,
        },
{
    let lower = lowered(path);
    let n = lower.len();
    let suffix_len = APP_SUFFIX.unicode_len();
    if !str_eq(family, OFFICIAL_FAMILY) || suffix_len > n || !occurs_at(
        lower.as_slice(),
        APP_SUFFIX,
        n - suffix_len,
    ) || find(lower.as_slice(), INSTALL_MARK, 0).is_none() {
        return None;
    }
    let m = PACKAGE_MARK.unicode_len();
    let piece = match find(lower.as_slice(), PACKAGE_MARK, 0) {
        None => Vec::new(),
        Some(i) => {
            let after = copy_range(lower.as_slice(), i + m, n);
            proof {
                assert(i + m <= n);
            }
            match find(after.as_slice(), PACKAGE_MARK, 0) {
                Some(e) => copy_range(after.as_slice(), 0, e),
                None => after,
            }
        },
    };
    proof {
        if find_from(lower@, PACKAGE_MARK@, 0) is None {
            assert(piece@ =~= Seq::<char>::empty());
        }
    }
    let u = index_of_or_len(piece.as_slice(), '_');
    if u == 0 {
        return None;
    }
    Some(string_of(piece.as_slice(), 0, u))
}

/// The version under which a process is tracked: a self-test process must be this very
/// executable and is "synthetic"; any other must belong to the official package and run from
/// its installation (`family` is `None` when the package could not be read).
pub open spec fn owner_version_of(test: bool, path: Seq<char>, own_exe: Seq<char>, family: Option<Seq<char>>) -> Result<
    Seq<char>,
    Seq<char>,
> {
    if test {
        if same_ignoring_ascii_case(path, own_exe) {
            Ok("synthetic"@)
        } else {
            Err("not_test_process"@)
        }
    } else {
        match family {
            Some(f) => if f == OFFICIAL_FAMILY@ {
                match official_version_of(path, f) {
                    Some(v) => Ok(v),
                    None => Err("unsupported_path"@),
                }
            } else {
                Err("not_official_package"@)
            },
            None => Err("not_official_package"@),
        }
    }
}

pub open spec fn family_view(family: Option<&str>) -> Option<Seq<char>> {
    match family {
        Some(f) => Some(f@),
        None => None,
    }
}

pub fn owner_version(test: bool, path: &str, own_exe: &str, family: Option<&str>) -> (r: Result<
    String,
    &'static str,
>)
    ensures
        match r {
            Ok(v) => owner_version_of(test, path@, own_exe@, family_view(family)) == Ok::<
                Seq<char>,
                Seq<char>,
            >(v@),
            Err(e) => owner_version_of(test, path@, own_exe@, family_view(family)) == Err::<
                Seq<char>,
                Seq<char>,
            >(e@),
        },
{
    if test {
        return if eq_ignore_ascii_case(path, own_exe) {
            Ok(String::from_str("synthetic"))
        } else {
            Err("not_test_process")
        };
    }
    match family {
        Some(f) => {
            if !str_eq(f, OFFICIAL_FAMILY) {
                return Err("not_official_package");
            }
            match official_version(path, f) {
                Some(v) => Ok(v),
                None => Err("unsupported_path"),
            }
        },
        None => Err("not_official_package"),
    }
}

impl Owner {
    /// A copy of the owner, with its text fields duplicated.
    pub fn copied(&self) -> (r: Owner)
        ensures
            r == *self,
    {
        Owner {
            pid: self.pid,
            start: self.start,
            version: self.version.clone(),
            path: self.path.clone(),
            test: self.test,
        }
    }
}

impl Window {
    /// A copy of the window description.
    pub fn copied(&self) -> (r: Window)
        ensures
            r == *self,
    {
        Window { hwnd: self.hwnd, owner: self.owner.copied(), rect: self.rect, style: self.style }
    }
}

/// The extended styles an overlay must have: topmost, tool window and layered.
pub const OVERLAY_STYLE: u32 = 0x80088;
/// The window class of the application's overlays.
pub const OVERLAY_CLASS: &'static str = "Chrome_WidgetWin_1";
/// The window class of the self-test's own overlays.
pub const TEST_CLASS: &'static str = "PetRepair.TestOverlay";

/// The strict classification of a window of process `o`: owned by that process, visible,
/// of the expected class, with all overlay styles and a non-empty rectangle.
pub open spec fn classified(
    o: Owner,
    hwnd: usize,
    window_pid: u32,
    visible: bool,
    class: Seq<char>,
    style: Option<u32>,
    rect: Option<[i32; 4]>,
) -> Option<Window> {
    let expected = if o.test {
        TEST_CLASS@
    } else {
        OVERLAY_CLASS@
    };
    if window_pid != o.pid || !visible || class != expected {
        None
    } else {
        match (style, rect) {
            (Some(st), Some(r)) => if st & OVERLAY_STYLE == OVERLAY_STYLE && r[2] > r[0] && r[3]
                > r[1] {
                Some(Window { hwnd, owner: o, style: st, rect: r })
            } else {
                None
            },
            _ => None,
        }
    }
}

/// A window is an overlay only with all three overlay styles: topmost (0x8), tool window
/// (0x80) and layered (0x80000); one that lacks any of them is never taken for the pet. A
/// window of the owner's process that is visible, of the expected class, with all three
/// styles and a non-empty rectangle always is, and the description keeps what was reported.
pub proof fn law_overlay_needs_all_three_styles(
    o: Owner,
    hwnd: usize,
    window_pid: u32,
    visible: bool,
    class: Seq<char>,
    style: Option<u32>,
    rect: Option<[i32; 4]>,
)
    ensures
        classified(o, hwnd, window_pid, visible, class, style, rect) matches Some(w) ==> {
            &&& w.style & 0x8u32 == 0x8u32
            &&& w.style & 0x80u32 == 0x80u32
            &&& w.style & 0x80000u32 == 0x80000u32
            &&& style == Some(w.style)
            &&& rect == Some(w.rect)
            &&& w.hwnd == hwnd
            &&& w.owner == o
            &&& window_pid == o.pid
            &&& visible
            &&& class == (if o.test {
                TEST_CLASS@
            } else {
                OVERLAY_CLASS@
            })
            &&& w.rect[0] < w.rect[2]
            &&& w.rect[1] < w.rect[3]
        },
        style is Some && (style->0 & 0x8u32 != 0x8u32 || style->0 & 0x80u32 != 0x80u32
            || style->0 & 0x80000u32 != 0x80000u32) ==> classified(
            o,
            hwnd,
            window_pid,
            visible,
            class,
            style,
            rect,
        ) is None,
        window_pid == o.pid && visible && class == (if o.test {
            TEST_CLASS@
        } else {
            OVERLAY_CLASS@
        }) && style is Some && style->0 & 0x8u32 == 0x8u32 && style->0 & 0x80u32 == 0x80u32
            && style->0 & 0x80000u32 == 0x80000u32 && rect is Some && rect->0[0] < rect->0[2]
            && rect->0[1] < rect->0[3]
            ==> classified(o, hwnd, window_pid, visible, class, style, rect) is Some,
{
    if let Some(st) = style {
        assert((st & 0x80088u32 == 0x80088u32) <==> (st & 0x8u32 == 0x8u32 && st & 0x80u32
            == 0x80u32 && st & 0x80000u32 == 0x80000u32)) by (bit_vector);
    }
}

/// Classify a window from what the system reported about it (`style` and `rect` are `None`
/// when they could not be read).
pub fn classify(
    o: &Owner,
    hwnd: usize,
    window_pid: u32,
    visible: bool,
    class: &str,
    style: Option<u32>,
    rect: Option<[i32; 4]>,
) -> (r: Option<Window>)
    ensures
        r == classified(*o, hwnd, window_pid, visible, class@, style, rect),
        r matches Some(w) ==> w.style & 0x8u32 == 0x8u32 && w.style & 0x80u32 == 0x80u32
            && w.style & 0x80000u32 == 0x80000u32 && style == Some(w.style),
{
    proof {
        law_overlay_needs_all_three_styles(*o, hwnd, window_pid, visible, class@, style, rect);
    }
    if window_pid != o.pid || !visible {
        return None;
    }
    let expected = if o.test {
        TEST_CLASS
    } else {
        OVERLAY_CLASS
    };
    if !str_eq(class, expected) {
        return None;
    }
    let Some(style) = style else {
        return None;
    };
    if style & OVERLAY_STYLE != OVERLAY_STYLE {
        return None;
    }
    let Some(rect) = rect else {
        return None;
    };
    if rect[2] <= rect[0] || rect[3] <= rect[1] {
        return None;
    }
    Some(Window { hwnd, owner: o.copied(), style, rect })
}

/// Whether a point lies in a rectangle (left and top inclusive, right and bottom exclusive).
pub open spec fn inside(x: i32, y: i32, rect: [i32; 4]) -> bool {
    x >= rect[0] && x < rect[2] && y >= rect[1] && y < rect[3]
}

pub fn point_inside(x: i32, y: i32, rect: &[i32; 4]) -> (r: bool)
    ensures
        r == inside(x, y, *rect),
{
    x >= rect[0] && x < rect[2] && y >= rect[1] && y < rect[3]
}

/// The executable name of the Codex application.
pub const IMAGE_NAME: &'static str = "ChatGPT.exe";

/// Whether a process image name is the Codex application's (ignoring ASCII case).
pub fn is_codex_image(name: &str) -> (r: bool)
    ensures
        r == same_ignoring_ascii_case(name@, IMAGE_NAME@),
{
    eq_ignore_ascii_case(name, IMAGE_NAME)
}

/// Whether the window still belongs to the same process instance: the window's process is the
/// recorded PID and that process has the recorded start time and image path.
pub fn same_instance(w: &Window, window_pid: u32, current: Option<&Owner>) -> (r: bool)
    ensures
        r == (window_pid == w.owner.pid && match current {
            Some(o) => o.start == w.owner.start && same_ignoring_ascii_case(o.path@, w.owner.path@),
            None => false,
        }),
{
    if window_pid != w.owner.pid {
        return false;
    }
    match current {
        Some(o) => o.start == w.owner.start && eq_ignore_ascii_case(o.path.as_str(), w.owner.path.as_str()),
        None => false,
    }
}

pub open spec fn by_handle(s: Seq<Window>) -> bool {
    forall|i: int, j: int| 0 <= i <= j < s.len() ==> s[i].hwnd <= s[j].hwnd
}

/// The windows ordered by handle.
pub fn sorted_by_handle(windows: Vec<Window>) -> (r: Vec<Window>)
    ensures
        r@.to_multiset() == windows@.to_multiset(),
        by_handle(r@),
{
    broadcast use vstd::seq_lib::group_to_multiset_ensures, vstd::multiset::group_multiset_axioms;

    let ghost orig = windows@;
    let mut rest = windows;
    let mut out: Vec<Window> = Vec::new();
    while rest.len() > 0
        invariant
            out@.to_multiset().add(rest@.to_multiset()) == orig.to_multiset(),
            by_handle(out@),
            forall|i: int, j: int|
                0 <= i < out@.len() && 0 <= j < rest@.len() ==> out@[i].hwnd <= rest@[j].hwnd,
        decreases rest@.len(),
    {
        let mut best: usize = 0;
        let mut j: usize = 1;
        while j < rest.len()
            invariant
                1 <= j <= rest@.len(),
                best < rest@.len(),
                forall|q: int| 0 <= q < j ==> rest@[best as int].hwnd <= rest@[q].hwnd,
            decreases rest@.len() - j,
        {
            if rest[j].hwnd < rest[best].hwnd {
                best = j;
            }
            j = j + 1;
        }
        let ghost before_rest = rest@;
        let ghost before_out = out@;
        let w = rest.remove(best);
        out.push(w);
        proof {
            assert(rest@ == before_rest.remove(best as int));
            assert forall|i: int, k: int| 0 <= i < out@.len() && 0 <= k < rest@.len() implies out@[i].hwnd
                <= rest@[k].hwnd by {
                let kk = if k < best { k } else { k + 1 };
                assert(rest@[k] == before_rest[kk]);
            }
            vstd::seq_lib::to_multiset_remove(before_rest, best as int);
            vstd::seq_lib::to_multiset_build(before_out, w);
            vstd::seq_lib::to_multiset_contains(before_rest, w);
            assert(before_rest.contains(w)) by {
                assert(before_rest[best as int] == w);
            }
            assert(out@.to_multiset().add(rest@.to_multiset()) =~= before_out.to_multiset().add(
                before_rest.to_multiset(),
            ));
        }
    }
    proof {
        assert(rest@.to_multiset() =~= vstd::multiset::Multiset::empty());
        assert(out@.to_multiset().add(rest@.to_multiset()) =~= out@.to_multiset());
    }
    out
}

/// A 64-bit FILETIME value from its two halves.
pub fn filetime_ticks(high: u32, low: u32) -> (r: u64)
    ensures
        r == high as int * 0x1_0000_0000 + low as int,
{
    let h = high as u64;
    let l = low as u64;
    let r = (h << 32u64) | l;
    assert(r == h * 0x1_0000_0000 + l) by (bit_vector)
        requires
            h < 0x1_0000_0000,
            l < 0x1_0000_0000,
            r == (h << 32u64) | l,
    ;
    r
}

/// Whether an asynchronous key state reports the key as held (its high bit).
pub fn key_down(state: i16) -> (r: bool)
    ensures
        r == (state < 0),
{
    let u = state as u16;
    let r = u & 0x8000u16 != 0;
    assert(r == (state < 0)) by (bit_vector)
        requires
            u == state as u16,
            r == (u & 0x8000u16 != 0),
    ;
    r
}

/// The process runs on the interactive input desktop: both names are known and equal.
pub fn same_desktop(input: &str, current: &str) -> (r: bool)
    ensures
        r == (input@.len() > 0 && input@ == current@),
{
    input.unicode_len() > 0 && str_eq(input, current)
}

/// A window-long call failed when it returned 0 and set an error.
pub fn call_failed(returned_zero: bool, last_error: u32) -> (r: bool)
    ensures
        r == (returned_zero && last_error != 0),
{
    returned_zero && last_error != 0
}

/// A named mutex was obtained when the wait reports it signalled or abandoned.
pub fn gate_acquired(wait_result: u32) -> (r: bool)
    ensures
        r == (wait_result == 0 || wait_result == 0x80),
{
    wait_result == 0 || wait_result == 0x80
}
} // verus!
