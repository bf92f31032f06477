//! Window primitives: AppWindow, WindowId, selection, visual flags and the
//! move/resize animation.
use vstd::prelude::*;

verus! {

#[derive(Debug, Clone, Copy, PartialEq, Eq, Structural)]
pub struct WindowId(pub usize);

#[derive(Debug, Clone, Copy, PartialEq, Eq, Structural)]
pub enum WindowState {
    Normal,
    Minimized,
    Maximized,
    Fullscreen,
}

#[derive(Clone, Copy, Debug)]
pub struct Selection {
    pub start: (u32, u32),
    pub end: (u32, u32),
}

#[derive(Clone, Copy, Debug)]
pub struct VisualFlags {
    pub shadow: bool,
    pub opacity: u8,
    pub rounded: bool,
    pub border: bool,
    pub active: bool,
}

impl VisualFlags {
    pub fn new() -> (f: Self)
        ensures
            f.shadow && f.opacity == 255 && f.rounded && f.border && f.active,
    {
        VisualFlags { shadow: true, opacity: 255, rounded: true, border: true, active: true }
    }
}

#[derive(Clone, Copy, Debug)]
pub struct AnimState {
    pub from_x: i32,
    pub from_y: i32,
    pub from_w: u32,
    pub from_h: u32,
    pub to_x: i32,
    pub to_y: i32,
    pub to_w: u32,
    pub to_h: u32,
    pub tick: u32,
    pub duration: u32,
}

pub struct AppWindow {
    pub x: i32,
    pub y: i32,
    pub w: u32,
    pub h: u32,
    pub prev_x: i32,
    pub prev_y: i32,
    pub prev_w: u32,
    pub prev_h: u32,
    pub title: String,
    pub content: Vec<String>,
    pub scroll: u32,
    pub pid: Option<u64>,
    pub focused: bool,
    pub dragging: bool,
    pub drag_ox: i32,
    pub drag_oy: i32,
    pub state: WindowState,
    pub prev_state: WindowState,
    pub flags: VisualFlags,
    pub selection: Option<Selection>,
    pub anim: Option<AnimState>,
    pub always_on_top: bool,
    pub explorer_id: Option<u32>,
}

/// Integer division rounding toward zero, as `i32 / i32` does.
pub open spec fn trunc_div(a: int, b: int) -> int {
    if a >= 0 {
        a / b
    } else {
        -((-a) / b)
    }
}

/// The point `t / d` of the way from `from` to `to`, rounded toward `from`.
pub open spec fn lerp(from: int, to: int, t: int, d: int) -> int {
    from + trunc_div((to - from) * t, d)
}

/// Whether `v` fits in an `i32`.
pub open spec fn fits_i32(v: int) -> bool {
    i32::MIN <= v <= i32::MAX
}

/// One animation step stays within the machine integers it is computed in:
/// the tick can advance, and each coordinate's distance to its target, times
/// the tick, fits in an `i32` (the widths and heights themselves may be any
/// `u32`).
pub open spec fn anim_step_fits(a: AnimState) -> bool {
    let t = a.tick + 1;
    &&& a.tick < u32::MAX
    &&& t < a.duration ==> {
        &&& a.duration <= i32::MAX
        &&& fits_i32(a.to_x - a.from_x)
        &&& fits_i32((a.to_x - a.from_x) * t)
        &&& fits_i32(a.to_y - a.from_y)
        &&& fits_i32((a.to_y - a.from_y) * t)
        &&& fits_i32((a.to_w - a.from_w) * t)
        &&& fits_i32((a.to_h - a.from_h) * t)
    }
}

/// The window after one animation tick: the tick advances; at the end of the
/// animation the window takes the target geometry and the animation ends,
/// and before it each coordinate is interpolated.
pub open spec fn after_tick(w: AppWindow) -> AppWindow {
    match w.anim {
        None => w,
        Some(a) => {
            let tick = (a.tick + 1) as u32;
            let t: int = if tick < a.duration {
                tick as int
            } else {
                a.duration as int
            };
            let d = a.duration as int;
            if t >= d {
                AppWindow { x: a.to_x, y: a.to_y, w: a.to_w, h: a.to_h, anim: None, ..w }
            } else {
                AppWindow {
                    x: lerp(a.from_x as int, a.to_x as int, t, d) as i32,
                    y: lerp(a.from_y as int, a.to_y as int, t, d) as i32,
                    w: lerp(a.from_w as int, a.to_w as int, t, d) as u32,
                    h: lerp(a.from_h as int, a.to_h as int, t, d) as u32,
                    anim: Some(AnimState { tick, ..a }),
                    ..w
                }
            }
        },
    }
}

proof fn lemma_lerp_between(from: int, to: int, t: int, d: int)
    requires
        0 <= t < d,
    ensures
        from <= to ==> from <= lerp(from, to, t, d) <= to,
        to <= from ==> to <= lerp(from, to, t, d) <= from,
{
    let diff = to - from;
    if diff >= 0 {
        assert(diff * t <= diff * d) by (nonlinear_arith)
            requires
                diff >= 0,
                0 <= t < d,
        ;
        assert(0 <= diff * t) by (nonlinear_arith)
            requires
                diff >= 0,
                0 <= t,
        ;
        assert((diff * t) / d <= diff) by (nonlinear_arith)
            requires
                diff * t <= diff * d,
                0 <= diff * t,
                d > 0,
        ;
        assert((diff * t) / d >= 0) by (nonlinear_arith)
            requires
                0 <= diff * t,
                d > 0,
        ;
    } else {
        let nd = -diff;
        assert(nd * t <= nd * d) by (nonlinear_arith)
            requires
                nd > 0,
                0 <= t < d,
        ;
        assert(diff * t == -(nd * t)) by (nonlinear_arith)
            requires
                nd == -diff,
        ;
        assert(0 <= nd * t) by (nonlinear_arith)
            requires
                nd > 0,
                0 <= t,
        ;
        assert((nd * t) / d <= nd) by (nonlinear_arith)
            requires
                nd * t <= nd * d,
                0 <= nd * t,
                d > 0,
        ;
        assert((nd * t) / d >= 0) by (nonlinear_arith)
            requires
                0 <= nd * t,
                d > 0,
        ;
    }
}

/// The window after `n` animation ticks.
pub open spec fn after_ticks(w: AppWindow, n: nat) -> AppWindow
    decreases n,
{
    if n == 0 {
        w
    } else {
        after_ticks(after_tick(w), (n - 1) as nat)
    }
}

/// `v` lies between `a` and `b`, whichever is larger.
pub open spec fn between(v: int, a: int, b: int) -> bool {
    (a <= v <= b) || (b <= v <= a)
}

/// A running animation ends after as many ticks as it has left, with the
/// window at the target geometry.
pub proof fn law_animation_reaches_target(w: AppWindow)
    requires
        w.anim matches Some(a) && a.tick < a.duration,
    ensures
        ({
            let a = w.anim->0;
            let v = after_ticks(w, (a.duration - a.tick) as nat);
            &&& v.anim is None
            &&& v.x == a.to_x && v.y == a.to_y && v.w == a.to_w && v.h == a.to_h
        }),
    decreases w.anim->0.duration - w.anim->0.tick,
{
    let a = w.anim->0;
    let n = (a.duration - a.tick) as nat;
    let w1 = after_tick(w);
    assert(after_ticks(w, n) == after_ticks(w1, (n - 1) as nat));
    if a.tick + 1 >= a.duration {
        assert(after_ticks(w1, 0) == w1);
    } else {
        law_animation_reaches_target(w1);
    }
}

/// While an animation runs, each step puts every coordinate between where
/// the animation started and where it ends.
pub proof fn law_animation_stays_between(w: AppWindow)
    requires
        w.anim matches Some(a) && a.tick + 1 < a.duration,
    ensures
        ({
            let a = w.anim->0;
            let v = after_tick(w);
            &&& between(v.x as int, a.from_x as int, a.to_x as int)
            &&& between(v.y as int, a.from_y as int, a.to_y as int)
            &&& between(v.w as int, a.from_w as int, a.to_w as int)
            &&& between(v.h as int, a.from_h as int, a.to_h as int)
        }),
{
    let a = w.anim->0;
    let t = a.tick + 1;
    let d = a.duration as int;
    lemma_lerp_between(a.from_x as int, a.to_x as int, t, d);
    lemma_lerp_between(a.from_y as int, a.to_y as int, t, d);
    lemma_lerp_between(a.from_w as int, a.to_w as int, t, d);
    lemma_lerp_between(a.from_h as int, a.to_h as int, t, d);
}

impl AppWindow {
    /// Start an animation from the current geometry to the given one, over
    /// ten ticks.
    pub fn animate_to(&mut self, x: i32, y: i32, w: u32, h: u32)
        ensures
            *final(self) == (AppWindow {
                anim: Some(
                    AnimState {
                        from_x: old(self).x,
                        from_y: old(self).y,
                        from_w: old(self).w,
                        from_h: old(self).h,
                        to_x: x,
                        to_y: y,
                        to_w: w,
                        to_h: h,
                        tick: 0,
                        duration: 10,
                    },
                ),
                ..*old(self)
            }),
    {
        self.anim = Some(
            AnimState {
                from_x: self.x,
                from_y: self.y,
                from_w: self.w,
                from_h: self.h,
                to_x: x,
                to_y: y,
                to_w: w,
                to_h: h,
                tick: 0,
                duration: 10,
            },
        );
    }

    /// Advance the animation by one tick; false when no animation runs.
    pub fn tick_animation(&mut self) -> (r: bool)
        requires
            old(self).anim matches Some(a) ==> anim_step_fits(a),
        ensures
            r == old(self).anim is Some,
            *final(self) == after_tick(*old(self)),
    {
        match self.anim {
            Some(a0) => {
                let mut a = a0;
                a.tick = a.tick + 1;
                let t = if a.tick < a.duration {
                    a.tick
                } else {
                    a.duration
                };
                if t >= a.duration {
                    self.x = a.to_x;
                    self.y = a.to_y;
                    self.w = a.to_w;
                    self.h = a.to_h;
                    self.anim = None;
                } else {
                    let d = a.duration;
                    proof {
                        lemma_lerp_between(a.from_x as int, a.to_x as int, t as int, d as int);
                        lemma_lerp_between(a.from_y as int, a.to_y as int, t as int, d as int);
                        lemma_lerp_between(a.from_w as int, a.to_w as int, t as int, d as int);
                        lemma_lerp_between(a.from_h as int, a.to_h as int, t as int, d as int);
                    }
                    self.x = a.from_x + ((a.to_x - a.from_x) * t as i32) / d as i32;
                    self.y = a.from_y + ((a.to_y - a.from_y) * t as i32) / d as i32;
                    let dw: i64 = (a.to_w as i64 - a.from_w as i64) * t as i64 / d as i64;
                    let dh: i64 = (a.to_h as i64 - a.from_h as i64) * t as i64 / d as i64;
                    self.w = (a.from_w as i64 + dw) as u32;
                    self.h = (a.from_h as i64 + dh) as u32;
                    self.anim = Some(a);
                }
                true
            },
            None => false,
        }
    }
}

} // verus!
