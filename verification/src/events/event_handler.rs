//! The frame driver's decision core.
//!
//! Once per iteration the host hands over every input event queued since the
//! last one, already decoded into plain values.  The handler folds them, in
//! order, into the view state and the light: drags turn the object, the
//! camera or move the light, the wheel changes the light's intensity
//! (floor-clamped at zero), held keys move the camera and the reference
//! offset once per iteration.  A resize or a quit short-circuits the rest of
//! the iteration's events.  Every accumulating field saturates at its
//! well-formedness bound, far beyond what interaction can reach, so the
//! handler keeps the view and the light well-formed forever.

use vstd::prelude::*;
use crate::fixed::{SCALE, tdiv, trem, sat_spec, tdiv_i64, trem_i64, sat_add};
use crate::types::event_callback::EventCallback;
use crate::types::light::Light;
use crate::types::pixel::MAX_COORD;
use crate::types::view_state::{ANGLE_LIMIT, ViewState};

verus! {

/// The keys the driver reacts to.
#[derive(Clone, Copy, Debug, PartialEq, Eq, Structural)]
pub enum Key {
    W,
    S,
    A,
    D,
    Up,
    Down,
    Left,
    Right,
    Escape,
    Other,
}

/// The mouse buttons the driver reacts to.
#[derive(Clone, Copy, Debug, PartialEq, Eq, Structural)]
pub enum Button {
    Left,
    Right,
    Middle,
    Other,
}

/// One decoded input event.
#[derive(Clone, Copy, Debug, PartialEq, Eq, Structural)]
pub enum InputEvent {
    Quit,
    WindowResized(u32, u32),
    KeyDown(Key),
    KeyUp(Key),
    MouseDown(Button, i32, i32),
    MouseUp(Button),
    MouseMotion(i32, i32),
    MouseWheel(i32),
    Ignored,
}

/// The handler's memory between events: the last cursor position and which
/// drags and movement keys are active.
#[derive(Clone, Copy, Debug, PartialEq, Eq, Structural)]
pub struct EventHandler {
    pub last_x: i32,
    pub last_y: i32,
    pub drag: bool,
    pub r_drag: bool,
    pub m_drag: bool,
    pub move_forward: bool,
    pub move_backward: bool,
    pub move_left: bool,
    pub move_right: bool,
    pub r_move_forward: bool,
    pub r_move_backward: bool,
    pub r_move_left: bool,
    pub r_move_right: bool,
}

/// A drag delta turned into an angle change: a hundredth of a fixed-point
/// radian per pixel dragged, reduced modulo 360.
pub open spec fn angle_delta(d: int) -> int {
    trem(tdiv(d * (SCALE as int), 100), 360 * (SCALE as int))
}

/// A drag delta halved, in fixed point.
pub open spec fn half_delta(d: int) -> int {
    tdiv(d * (SCALE as int), 2)
}

/// The effect of one non-terminating event on the handler, the view and the
/// light.
pub open spec fn step_spec(h: EventHandler, v: ViewState, l: Light, ev: InputEvent) -> (
    EventHandler,
    ViewState,
    Light,
) {
    match ev {
        InputEvent::KeyDown(k) => (key_spec(h, k, true), v, l),
        InputEvent::KeyUp(k) => (key_spec(h, k, false), v, l),
        InputEvent::MouseDown(b, x, y) => (
            match b {
                Button::Left => EventHandler { drag: true, last_x: x, last_y: y, ..h },
                Button::Right => EventHandler { r_drag: true, last_x: x, last_y: y, ..h },
                Button::Middle => EventHandler { m_drag: true, last_x: x, last_y: y, ..h },
                Button::Other => h,
            },
            v,
            l,
        ),
        InputEvent::MouseUp(b) => (
            match b {
                Button::Left => EventHandler { drag: false, ..h },
                Button::Right => EventHandler { r_drag: false, ..h },
                Button::Middle => EventHandler { m_drag: false, ..h },
                Button::Other => h,
            },
            v,
            l,
        ),
        InputEvent::MouseMotion(x, y) => motion_spec(h, v, l, x as int, y as int),
        InputEvent::MouseWheel(y) => (
            h,
            v,
            Light {
                intensity: sat_spec(
                    l.intensity + half_delta(y as int),
                    0,
                    MAX_COORD as int,
                ) as i64,
                ..l
            },
        ),
        _ => (h, v, l),
    }
}

/// A key press or release toggles its movement flag.
pub open spec fn key_spec(h: EventHandler, k: Key, pressed: bool) -> EventHandler {
    match k {
        Key::W => EventHandler { move_forward: pressed, ..h },
        Key::S => EventHandler { move_backward: pressed, ..h },
        Key::A => EventHandler { move_left: pressed, ..h },
        Key::D => EventHandler { move_right: pressed, ..h },
        Key::Up => EventHandler { r_move_forward: pressed, ..h },
        Key::Down => EventHandler { r_move_backward: pressed, ..h },
        Key::Left => EventHandler { r_move_left: pressed, ..h },
        Key::Right => EventHandler { r_move_right: pressed, ..h },
        _ => h,
    }
}

/// Cursor motion under the active drags, applied in order: a left drag
/// turns the object, a right drag moves the light, a middle drag turns the
/// camera.  Each drag consumes the delta from the position the previous one
/// recorded.
pub open spec fn motion_spec(h: EventHandler, v: ViewState, l: Light, x: int, y: int) -> (
    EventHandler,
    ViewState,
    Light,
) {
    let (h1, v1) = motion_obj_spec(h, v, x, y);
    let (h2, l2) = motion_light_spec(h1, l, x, y);
    let (h3, v3) = motion_cam_spec(h2, v1, x, y);
    (h3, v3, l2)
}

/// A left drag turns the object.
pub open spec fn motion_obj_spec(h: EventHandler, v: ViewState, x: int, y: int) -> (
    EventHandler,
    ViewState,
) {
    if h.drag {
        (
            EventHandler { last_x: x as i32, last_y: y as i32, ..h },
            ViewState {
                angle_x: sat_spec(
                    v.angle_x + angle_delta(y - h.last_y),
                    -ANGLE_LIMIT as int,
                    ANGLE_LIMIT as int,
                ) as i64,
                angle_y: sat_spec(
                    v.angle_y + angle_delta(x - h.last_x),
                    -ANGLE_LIMIT as int,
                    ANGLE_LIMIT as int,
                ) as i64,
                ..v
            },
        )
    } else {
        (h, v)
    }
}

/// A right drag moves the light in its plane.
pub open spec fn motion_light_spec(h: EventHandler, l: Light, x: int, y: int) -> (
    EventHandler,
    Light,
) {
    if h.r_drag {
        (
            EventHandler { last_x: x as i32, last_y: y as i32, ..h },
            Light {
                x: sat_spec(
                    l.x + half_delta(x - h.last_x),
                    -MAX_COORD as int,
                    MAX_COORD as int,
                ) as i64,
                y: sat_spec(
                    l.y - half_delta(y - h.last_y),
                    -MAX_COORD as int,
                    MAX_COORD as int,
                ) as i64,
                ..l
            },
        )
    } else {
        (h, l)
    }
}

/// A middle drag turns the camera the other way.
pub open spec fn motion_cam_spec(h: EventHandler, v: ViewState, x: int, y: int) -> (
    EventHandler,
    ViewState,
) {
    if h.m_drag {
        (
            EventHandler { last_x: x as i32, last_y: y as i32, ..h },
            ViewState {
                c_angle_x: sat_spec(
                    v.c_angle_x - angle_delta(y - h.last_y),
                    -ANGLE_LIMIT as int,
                    ANGLE_LIMIT as int,
                ) as i64,
                c_angle_y: sat_spec(
                    v.c_angle_y - angle_delta(x - h.last_x),
                    -ANGLE_LIMIT as int,
                    ANGLE_LIMIT as int,
                ) as i64,
                ..v
            },
        )
    } else {
        (h, v)
    }
}

/// The held-key movement applied once per iteration, after all events.
pub open spec fn moves_spec(h: EventHandler, v: ViewState) -> ViewState {
    let step = 2 * (SCALE as int);
    let cz = if h.move_forward {
        sat_spec(v.camera_z - step, -MAX_COORD as int, MAX_COORD as int)
    } else {
        v.camera_z as int
    };
    let cz2 = if h.move_backward {
        sat_spec(cz + step, -MAX_COORD as int, MAX_COORD as int)
    } else {
        cz
    };
    let cx = if h.move_left {
        sat_spec(v.camera_x + step, -MAX_COORD as int, MAX_COORD as int)
    } else {
        v.camera_x as int
    };
    let cx2 = if h.move_right {
        sat_spec(cx - step, -MAX_COORD as int, MAX_COORD as int)
    } else {
        cx
    };
    let rz = if h.r_move_forward {
        sat_spec(v.ref_z - step, -MAX_COORD as int, MAX_COORD as int)
    } else {
        v.ref_z as int
    };
    let rz2 = if h.r_move_backward {
        sat_spec(rz + step, -MAX_COORD as int, MAX_COORD as int)
    } else {
        rz
    };
    let rx = if h.r_move_left {
        sat_spec(v.ref_x - step, -MAX_COORD as int, MAX_COORD as int)
    } else {
        v.ref_x as int
    };
    let rx2 = if h.r_move_right {
        sat_spec(rx + step, -MAX_COORD as int, MAX_COORD as int)
    } else {
        rx
    };
    ViewState {
        camera_z: cz2 as i64,
        camera_x: cx2 as i64,
        ref_z: rz2 as i64,
        ref_x: rx2 as i64,
        ..v
    }
}

/// The whole iteration: fold the events in order; a quit, an escape press
/// or a resize ends it at once, otherwise the held-key movement follows the
/// last event and the driver renders next.
pub open spec fn run_spec(h: EventHandler, v: ViewState, l: Light, evs: Seq<InputEvent>) -> (
    EventHandler,
    ViewState,
    Light,
    EventCallback,
)
    decreases evs.len(),
{
    if evs.len() == 0 {
        (h, moves_spec(h, v), l, EventCallback::Next)
    } else {
        match evs[0] {
            InputEvent::Quit => (h, v, l, EventCallback::Quit),
            InputEvent::KeyDown(Key::Escape) => (h, v, l, EventCallback::Quit),
            InputEvent::WindowResized(w, hh) => (h, v, l, EventCallback::Resized(w, hh)),
            _ => {
                let (h1, v1, l1) = step_spec(h, v, l, evs[0]);
                run_spec(h1, v1, l1, evs.drop_first())
            },
        }
    }
}

impl EventHandler {
    /// A fresh handler: no drag, no held key, cursor at the origin.
    pub fn new() -> (r: EventHandler)
        ensures
            r == (EventHandler {
                last_x: 0,
                last_y: 0,
                drag: false,
                r_drag: false,
                m_drag: false,
                move_forward: false,
                move_backward: false,
                move_left: false,
                move_right: false,
                r_move_forward: false,
                r_move_backward: false,
                r_move_left: false,
                r_move_right: false,
            }),
    {
        EventHandler {
            last_x: 0,
            last_y: 0,
            drag: false,
            r_drag: false,
            m_drag: false,
            move_forward: false,
            move_backward: false,
            move_left: false,
            move_right: false,
            r_move_forward: false,
            r_move_backward: false,
            r_move_left: false,
            r_move_right: false,
        }
    }

    /// Consume one iteration's events: exactly [`run_spec`] of the previous
    /// state.  The view and the light stay well-formed; in particular the
    /// light's intensity never drops below zero.
    #[verifier::rlimit(100)]
    pub fn handle_events(
        &mut self,
        events: &Vec<InputEvent>,
        view_state: &mut ViewState,
        light: &mut Light,
    ) -> (r: EventCallback)
        requires
            old(view_state).wf(),
            old(light).wf(),
        ensures
            ({
                let (h2, v2, l2, cb) = run_spec(
                    *old(self),
                    *old(view_state),
                    *old(light),
                    events@,
                );
                *final(self) == h2 && *final(view_state) == v2 && *final(light) == l2 && r == cb
            }),
            final(view_state).wf(),
            final(light).wf(),
            final(light).intensity >= 0,
    {
        let ghost h0 = *old(self);
        let ghost v0 = *old(view_state);
        let ghost l0 = *old(light);
        let n = events.len();
        proof {
            assert(events@.skip(0) =~= events@);
        }
        let mut k: usize = 0;
        while k < n
            invariant
                k <= n,
                n == events@.len(),
                h0 == *old(self),
                v0 == *old(view_state),
                l0 == *old(light),
                view_state.wf(),
                light.wf(),
                run_spec(h0, v0, l0, events@) == run_spec(
                    *self,
                    *view_state,
                    *light,
                    events@.skip(k as int),
                ),
            decreases n - k,
        {
            let ev: InputEvent = events[k];
            proof {
                assert(events@.skip(k as int)[0] == events@[k as int]);
                assert(events@.skip(k as int).drop_first() =~= events@.skip(k as int + 1));
            }
            match ev {
                InputEvent::Quit => {
                    proof {
                        assert(run_spec(*self, *view_state, *light, events@.skip(k as int)) == (
                        *self,
                        *view_state,
                        *light,
                        EventCallback::Quit,
                        ));
                    }
                    return EventCallback::Quit;
                },
                InputEvent::KeyDown(Key::Escape) => {
                    proof {
                        assert(run_spec(*self, *view_state, *light, events@.skip(k as int)) == (
                        *self,
                        *view_state,
                        *light,
                        EventCallback::Quit,
                        ));
                    }
                    return EventCallback::Quit;
                },
                InputEvent::WindowResized(w, hh) => {
                    proof {
                        assert(run_spec(*self, *view_state, *light, events@.skip(k as int)) == (
                        *self,
                        *view_state,
                        *light,
                        EventCallback::Resized(w, hh),
                        ));
                    }
                    return EventCallback::Resized(w, hh);
                },
                InputEvent::KeyDown(key) => {
                    self.on_key(key, true);
                },
                InputEvent::KeyUp(key) => {
                    self.on_key(key, false);
                },
                InputEvent::MouseDown(btn, x, y) => {
                    match btn {
                        Button::Left => {
                            self.drag = true;
                            self.last_x = x;
                            self.last_y = y;
                        },
                        Button::Right => {
                            self.r_drag = true;
                            self.last_x = x;
                            self.last_y = y;
                        },
                        Button::Middle => {
                            self.m_drag = true;
                            self.last_x = x;
                            self.last_y = y;
                        },
                        Button::Other => {},
                    }
                },
                InputEvent::MouseUp(btn) => {
                    match btn {
                        Button::Left => {
                            self.drag = false;
                        },
                        Button::Right => {
                            self.r_drag = false;
                        },
                        Button::Middle => {
                            self.m_drag = false;
                        },
                        Button::Other => {},
                    }
                },
                InputEvent::MouseMotion(x, y) => {
                    self.on_motion(view_state, light, x, y);
                },
                InputEvent::MouseWheel(y) => {
                    let d: i64 = tdiv_i64((y as i64) * SCALE, 2);
                    light.intensity = sat_add(light.intensity, d, 0, MAX_COORD);
                },
                InputEvent::Ignored => {},
            }
            k = k + 1;
        }
        proof {
            assert(events@.skip(n as int) =~= Seq::<InputEvent>::empty());
        }
        self.apply_moves(view_state);
        EventCallback::Next
    }

    /// Toggle the movement flag of one key.
    #[verifier::rlimit(100)]
    fn on_key(&mut self, k: Key, pressed: bool)
        ensures
            *final(self) == key_spec(*old(self), k, pressed),
    {
        match k {
            Key::W => self.move_forward = pressed,
            Key::S => self.move_backward = pressed,
            Key::A => self.move_left = pressed,
            Key::D => self.move_right = pressed,
            Key::Up => self.r_move_forward = pressed,
            Key::Down => self.r_move_backward = pressed,
            Key::Left => self.r_move_left = pressed,
            Key::Right => self.r_move_right = pressed,
            Key::Escape => {},
            Key::Other => {},
        }
    }

    /// Apply cursor motion under the active drags.
    fn on_motion(&mut self, view_state: &mut ViewState, light: &mut Light, x: i32, y: i32)
        requires
            old(view_state).wf(),
            old(light).wf(),
        ensures
            (*final(self), *final(view_state), *final(light)) == motion_spec(
                *old(self),
                *old(view_state),
                *old(light),
                x as int,
                y as int,
            ),
            final(view_state).wf(),
            final(light).wf(),
    {
        self.drag_object(view_state, x, y);
        self.drag_light(light, x, y);
        self.drag_camera(view_state, x, y);
    }

    /// The left-drag stage of cursor motion.
    #[verifier::rlimit(100)]
    fn drag_object(&mut self, view_state: &mut ViewState, x: i32, y: i32)
        requires
            old(view_state).wf(),
        ensures
            (*final(self), *final(view_state)) == motion_obj_spec(
                *old(self),
                *old(view_state),
                x as int,
                y as int,
            ),
            final(view_state).wf(),
    {
        if self.drag {
            let dy: i64 = y as i64 - self.last_y as i64;
            let dx: i64 = x as i64 - self.last_x as i64;
            view_state.angle_x = sat_add(
                view_state.angle_x,
                self.angle_step(dy),
                -ANGLE_LIMIT,
                ANGLE_LIMIT,
            );
            view_state.angle_y = sat_add(
                view_state.angle_y,
                self.angle_step(dx),
                -ANGLE_LIMIT,
                ANGLE_LIMIT,
            );
            self.last_x = x;
            self.last_y = y;
        }
    }

    /// The right-drag stage of cursor motion.
    #[verifier::rlimit(100)]
    fn drag_light(&mut self, light: &mut Light, x: i32, y: i32)
        requires
            old(light).wf(),
        ensures
            (*final(self), *final(light)) == motion_light_spec(
                *old(self),
                *old(light),
                x as int,
                y as int,
            ),
            final(light).wf(),
    {
        if self.r_drag {
            let dx: i64 = x as i64 - self.last_x as i64;
            let dy: i64 = y as i64 - self.last_y as i64;
            let hx: i64 = tdiv_i64(dx * SCALE, 2);
            let hy: i64 = tdiv_i64(dy * SCALE, 2);
            light.x = sat_add(light.x, hx, -MAX_COORD, MAX_COORD);
            light.y = sat_add(light.y, -hy, -MAX_COORD, MAX_COORD);
            self.last_x = x;
            self.last_y = y;
        }
    }

    /// The middle-drag stage of cursor motion.
    #[verifier::rlimit(100)]
    fn drag_camera(&mut self, view_state: &mut ViewState, x: i32, y: i32)
        requires
            old(view_state).wf(),
        ensures
            (*final(self), *final(view_state)) == motion_cam_spec(
                *old(self),
                *old(view_state),
                x as int,
                y as int,
            ),
            final(view_state).wf(),
    {
        if self.m_drag {
            let dy: i64 = y as i64 - self.last_y as i64;
            let dx: i64 = x as i64 - self.last_x as i64;
            view_state.c_angle_x = sat_add(
                view_state.c_angle_x,
                -self.angle_step(dy),
                -ANGLE_LIMIT,
                ANGLE_LIMIT,
            );
            view_state.c_angle_y = sat_add(
                view_state.c_angle_y,
                -self.angle_step(dx),
                -ANGLE_LIMIT,
                ANGLE_LIMIT,
            );
            self.last_x = x;
            self.last_y = y;
        }
    }

    /// An angle change from a drag delta.
    fn angle_step(&self, d: i64) -> (r: i64)
        requires
            -0x1_0000_0000 <= d <= 0x1_0000_0000,
        ensures
            r as int == angle_delta(d as int),
            -360 * (SCALE as int) < r < 360 * (SCALE as int),
    {
        let p: i64 = tdiv_i64(d * SCALE, 100);
        trem_i64(p, 360 * SCALE)
    }

    /// The held-key movement, once per iteration.
    fn apply_moves(&self, view_state: &mut ViewState)
        requires
            old(view_state).wf(),
        ensures
            *final(view_state) == moves_spec(*self, *old(view_state)),
            final(view_state).wf(),
    {
        let step: i64 = 2 * SCALE;
        if self.move_forward {
            view_state.camera_z = sat_add(view_state.camera_z, -step, -MAX_COORD, MAX_COORD);
        }
        if self.move_backward {
            view_state.camera_z = sat_add(view_state.camera_z, step, -MAX_COORD, MAX_COORD);
        }
        if self.move_left {
            view_state.camera_x = sat_add(view_state.camera_x, step, -MAX_COORD, MAX_COORD);
        }
        if self.move_right {
            view_state.camera_x = sat_add(view_state.camera_x, -step, -MAX_COORD, MAX_COORD);
        }
        if self.r_move_forward {
            view_state.ref_z = sat_add(view_state.ref_z, -step, -MAX_COORD, MAX_COORD);
        }
        if self.r_move_backward {
            view_state.ref_z = sat_add(view_state.ref_z, step, -MAX_COORD, MAX_COORD);
        }
        if self.r_move_left {
            view_state.ref_x = sat_add(view_state.ref_x, -step, -MAX_COORD, MAX_COORD);
        }
        if self.r_move_right {
            view_state.ref_x = sat_add(view_state.ref_x, step, -MAX_COORD, MAX_COORD);
        }
    }
}

} // verus!
