//! What a key asks for, and what the request does in each mode.
use crate::scalar::Scalar;
use crate::tui::event::{KeyCode, KeyEvent, KeyEventKind};
use crate::tui::state::{App, BenchmarkState, HelpState, RenderState};
use vstd::prelude::*;

verus! {

/// A direction in space, by its three coordinates.
#[derive(Clone, Copy, Debug, PartialEq, Eq, Structural)]
pub struct Vector3 {
    pub x: Scalar,
    pub y: Scalar,
    pub z: Scalar,
}

/// What the user asks for.
#[derive(Clone, Copy, Debug, PartialEq, Eq, Structural)]
pub enum NextAction {
    /// Move the view by the given distances.
    Translate { x: Scalar, y: Scalar, z: Scalar },
    /// Turn the shapes about `axis` by `angle`, in radians.
    Rotate { axis: Vector3, angle: Scalar },
    Quit,
    Save,
    Nothing,
    Help,
    Back,
    Benchmark,
}

/// What the program has to do outside the interface's own state after a
/// request.
#[derive(Clone, Copy, Debug, PartialEq, Eq, Structural)]
pub enum Effect {
    /// Turn the shapes about `axis` by `angle` and draw the picture anew.
    RotateShapes { axis: Vector3, angle: Scalar },
    /// Move the view and draw the picture anew.
    TranslateView { x: Scalar, y: Scalar, z: Scalar },
    /// Write the picture to a file.
    SaveScreenshot,
    /// Nothing.
    Nothing,
}

/// The distance of one step of the view: 5.
pub open spec fn step() -> Scalar {
    Scalar { bits: 0x40a0_0000 }
}

/// One step backwards: -5.
pub open spec fn step_back() -> Scalar {
    Scalar { bits: 0xc0a0_0000 }
}

/// The angle of one turn: a sixteenth of pi.
pub open spec fn turn() -> Scalar {
    Scalar { bits: 0x3e49_0fdb }
}

/// One turn the other way.
pub open spec fn turn_back() -> Scalar {
    Scalar { bits: 0xbe49_0fdb }
}

/// No distance.
pub open spec fn still() -> Scalar {
    Scalar { bits: 0 }
}

/// The x axis.
pub open spec fn x_axis() -> Vector3 {
    Vector3 { x: Scalar { bits: 0x3f80_0000 }, y: Scalar { bits: 0 }, z: Scalar { bits: 0 } }
}

/// The y axis.
pub open spec fn y_axis() -> Vector3 {
    Vector3 { x: Scalar { bits: 0 }, y: Scalar { bits: 0x3f80_0000 }, z: Scalar { bits: 0 } }
}

/// What a key asks for. Only a key that is pressed asks for anything. The
/// arrow keys and `h`, `j`, `k`, `l` move the view by one step to the left,
/// down, up and to the right; `u` and `d` move it forwards and backwards; the
/// capitals `H`, `L`, `K`, `J` turn the shapes by one turn about the y and
/// the x axis; `q` quits, `s` saves a screenshot, `?` shows the keys, `b`
/// times the drawing and the escape key leads back.
pub open spec fn spec_next_action_from_key(key: KeyEvent) -> NextAction {
    if key.kind != KeyEventKind::Press {
        NextAction::Nothing
    } else {
        match key.code {
            KeyCode::Char('q') => NextAction::Quit,
            KeyCode::Char('l') | KeyCode::Right => NextAction::Translate {
                x: step(),
                y: still(),
                z: still(),
            },
            KeyCode::Char('h') | KeyCode::Left => NextAction::Translate {
                x: step_back(),
                y: still(),
                z: still(),
            },
            KeyCode::Char('k') | KeyCode::Up => NextAction::Translate {
                x: still(),
                y: step(),
                z: still(),
            },
            KeyCode::Char('j') | KeyCode::Down => NextAction::Translate {
                x: still(),
                y: step_back(),
                z: still(),
            },
            KeyCode::Char('u') => NextAction::Translate { x: still(), y: still(), z: step() },
            KeyCode::Char('d') => NextAction::Translate { x: still(), y: still(), z: step_back() },
            KeyCode::Char('H') => NextAction::Rotate { axis: y_axis(), angle: turn_back() },
            KeyCode::Char('L') => NextAction::Rotate { axis: y_axis(), angle: turn() },
            KeyCode::Char('K') => NextAction::Rotate { axis: x_axis(), angle: turn_back() },
            KeyCode::Char('J') => NextAction::Rotate { axis: x_axis(), angle: turn() },
            KeyCode::Char('s') => NextAction::Save,
            KeyCode::Char('?') => NextAction::Help,
            KeyCode::Char('b') => NextAction::Benchmark,
            KeyCode::Esc => NextAction::Back,
            _ => NextAction::Nothing,
        }
    }
}

/// What a key asks for.
#[verifier::when_used_as_spec(spec_next_action_from_key)]
pub fn next_action_from_key(key: KeyEvent) -> (action: NextAction)
    ensures
        action == spec_next_action_from_key(key),
{
    let minor_rotation = Scalar::from_bits(0x3e49_0fdb);
    let minor_rotation_back = Scalar::from_bits(0xbe49_0fdb);
    let minor_translation = Scalar::from_bits(0x40a0_0000);
    let minor_translation_back = Scalar::from_bits(0xc0a0_0000);
    let zero = Scalar::zero();
    let one = Scalar::from_bits(0x3f80_0000);
    let x_axis = Vector3 { x: one, y: zero, z: zero };
    let y_axis = Vector3 { x: zero, y: one, z: zero };
    match key.kind {
        KeyEventKind::Press => match key.code {
            KeyCode::Char(c) => {
                if c == 'q' {
                    NextAction::Quit
                } else if c == 'l' {
                    NextAction::Translate { x: minor_translation, y: zero, z: zero }
                } else if c == 'h' {
                    NextAction::Translate { x: minor_translation_back, y: zero, z: zero }
                } else if c == 'k' {
                    NextAction::Translate { x: zero, y: minor_translation, z: zero }
                } else if c == 'j' {
                    NextAction::Translate { x: zero, y: minor_translation_back, z: zero }
                } else if c == 'u' {
                    NextAction::Translate { x: zero, y: zero, z: minor_translation }
                } else if c == 'd' {
                    NextAction::Translate { x: zero, y: zero, z: minor_translation_back }
                } else if c == 'H' {
                    NextAction::Rotate { axis: y_axis, angle: minor_rotation_back }
                } else if c == 'L' {
                    NextAction::Rotate { axis: y_axis, angle: minor_rotation }
                } else if c == 'K' {
                    NextAction::Rotate { axis: x_axis, angle: minor_rotation_back }
                } else if c == 'J' {
                    NextAction::Rotate { axis: x_axis, angle: minor_rotation }
                } else if c == 's' {
                    NextAction::Save
                } else if c == '?' {
                    NextAction::Help
                } else if c == 'b' {
                    NextAction::Benchmark
                } else {
                    NextAction::Nothing
                }
            },
            KeyCode::Right => NextAction::Translate { x: minor_translation, y: zero, z: zero },
            KeyCode::Left => NextAction::Translate { x: minor_translation_back, y: zero, z: zero },
            KeyCode::Up => NextAction::Translate { x: zero, y: minor_translation, z: zero },
            KeyCode::Down => NextAction::Translate { x: zero, y: minor_translation_back, z: zero },
            KeyCode::Esc => NextAction::Back,
            KeyCode::Other => NextAction::Nothing,
        },
        _ => NextAction::Nothing,
    }
}

/// The interface in one of its modes.
#[derive(Clone, Copy, Debug)]
pub enum StateWrapper {
    Rendering(App<RenderState>),
    Helping(App<HelpState>),
    Benchmarking(App<BenchmarkState>),
}

impl StateWrapper {
    /// Whether the user has asked to leave.
    pub open spec fn spec_should_quit(&self) -> bool {
        match self {
            StateWrapper::Rendering(app) => app.should_quit,
            StateWrapper::Helping(app) => app.should_quit,
            StateWrapper::Benchmarking(app) => app.should_quit,
        }
    }

    /// The mode after a request. The picture leads to the list of keys and
    /// to the timing, and both lead back to the picture; every mode can be
    /// left for good. Whatever else is asked, the mode stays.
    pub open spec fn next_mode(self, next_action: NextAction) -> StateWrapper {
        match (self, next_action) {
            (StateWrapper::Rendering(app), NextAction::Quit) => StateWrapper::Rendering(
                App::spec_new(true),
            ),
            (StateWrapper::Helping(app), NextAction::Quit) => StateWrapper::Helping(
                App::spec_new(true),
            ),
            (StateWrapper::Benchmarking(app), NextAction::Quit) => StateWrapper::Benchmarking(
                App::spec_new(true),
            ),
            (StateWrapper::Rendering(app), NextAction::Help) => StateWrapper::Helping(
                App::<HelpState>::spec_new(app.should_quit),
            ),
            (StateWrapper::Rendering(app), NextAction::Benchmark) => StateWrapper::Benchmarking(
                App::<BenchmarkState>::spec_new(app.should_quit),
            ),
            (StateWrapper::Helping(app), NextAction::Back) => StateWrapper::Rendering(
                App::<RenderState>::spec_new(app.should_quit),
            ),
            (StateWrapper::Benchmarking(app), NextAction::Back) => StateWrapper::Rendering(
                App::<RenderState>::spec_new(app.should_quit),
            ),
            _ => self,
        }
    }

    /// What the program has to do after a request: only while the picture
    /// is shown does a request move or turn anything or save a screenshot.
    pub open spec fn effect(self, next_action: NextAction) -> Effect {
        match (self, next_action) {
            (StateWrapper::Rendering(_), NextAction::Rotate { axis, angle }) => Effect::RotateShapes {
                axis,
                angle,
            },
            (StateWrapper::Rendering(_), NextAction::Translate { x, y, z }) => Effect::TranslateView {
                x,
                y,
                z,
            },
            (StateWrapper::Rendering(_), NextAction::Save) => Effect::SaveScreenshot,
            _ => Effect::Nothing,
        }
    }

    /// Takes a request: returns the mode that follows and what the program
    /// has to do.
    pub fn update(self, next_action: NextAction) -> (res: (StateWrapper, Effect))
        ensures
            res.0 == self.next_mode(next_action),
            res.1 == self.effect(next_action),
    {
        match self {
            StateWrapper::Rendering(app) => match next_action {
                NextAction::Rotate { axis, angle } => (self, Effect::RotateShapes { axis, angle }),
                NextAction::Translate { x, y, z } => (self, Effect::TranslateView { x, y, z }),
                NextAction::Save => (self, Effect::SaveScreenshot),
                NextAction::Quit => (StateWrapper::Rendering(App::new(true)), Effect::Nothing),
                NextAction::Help => (
                    StateWrapper::Helping(App::<HelpState>::from(app)),
                    Effect::Nothing,
                ),
                NextAction::Benchmark => (
                    StateWrapper::Benchmarking(App::<BenchmarkState>::from(app)),
                    Effect::Nothing,
                ),
                _ => (self, Effect::Nothing),
            },
            StateWrapper::Helping(app) => match next_action {
                NextAction::Quit => (StateWrapper::Helping(App::new(true)), Effect::Nothing),
                NextAction::Back => (
                    StateWrapper::Rendering(App::<RenderState>::from(app)),
                    Effect::Nothing,
                ),
                _ => (self, Effect::Nothing),
            },
            StateWrapper::Benchmarking(app) => match next_action {
                NextAction::Quit => (StateWrapper::Benchmarking(App::new(true)), Effect::Nothing),
                NextAction::Back => (
                    StateWrapper::Rendering(App::<RenderState>::from(app)),
                    Effect::Nothing,
                ),
                _ => (self, Effect::Nothing),
            },
        }
    }

    /// Whether the user has asked to leave.
    #[verifier::when_used_as_spec(spec_should_quit)]
    pub fn should_quit(&self) -> (quit: bool)
        ensures
            quit == self.spec_should_quit(),
    {
        match self {
            StateWrapper::Rendering(app) => app.should_quit,
            StateWrapper::Helping(app) => app.should_quit,
            StateWrapper::Benchmarking(app) => app.should_quit,
        }
    }
}


/// A rectangle of cells on the terminal.
#[derive(Clone, Copy, Debug, PartialEq, Eq, Structural)]
pub struct Rect {
    pub x: u16,
    pub y: u16,
    pub width: u16,
    pub height: u16,
}

/// The part of the terminal that shows the picture: all but the bottom line.
pub fn render_area(area: Rect) -> (picture: Rect)
    requires
        area.height >= 1,
    ensures
        picture == (Rect { height: (area.height - 1) as u16, ..area }),
{
    Rect { x: area.x, y: area.y, width: area.width, height: area.height - 1 }
}

/// Whether the picture no longer has the size of the part of the terminal
/// that shows it.
pub fn area_changed(picture: Rect, render_width: usize, render_height: usize) -> (changed: bool)
    ensures
        changed == (picture.width != render_width || picture.height != render_height),
{
    picture.width as usize != render_width || picture.height as usize != render_height
}

impl StateWrapper {
    /// Where a mode shows what it adds to the picture: a hint on the bottom
    /// line, the list of keys in the middle third of the terminal, or the
    /// timing in three lines across its middle half.
    pub open spec fn spec_overlay_area(&self, area: Rect) -> Rect {
        match self {
            StateWrapper::Rendering(_) => Rect {
                x: 0,
                y: (area.height - 1) as u16,
                width: area.width,
                height: 1,
            },
            StateWrapper::Helping(_) => Rect {
                x: area.width / 3,
                y: area.height / 4,
                width: area.width / 3,
                height: area.height / 2,
            },
            StateWrapper::Benchmarking(_) => Rect {
                x: area.width / 4,
                y: area.height / 4,
                width: area.width / 2,
                height: 3,
            },
        }
    }

    /// Where the mode shows what it adds to the picture.
    pub fn overlay_area(&self, area: Rect) -> (overlay: Rect)
        requires
            area.height >= 1,
        ensures
            overlay == self.spec_overlay_area(area),
    {
        match self {
            StateWrapper::Rendering(_) => Rect {
                x: 0,
                y: area.height - 1,
                width: area.width,
                height: 1,
            },
            StateWrapper::Helping(_) => Rect {
                x: area.width / 3,
                y: area.height / 4,
                width: area.width / 3,
                height: area.height / 2,
            },
            StateWrapper::Benchmarking(_) => Rect {
                x: area.width / 4,
                y: area.height / 4,
                width: area.width / 2,
                height: 3,
            },
        }
    }
}

} // verus!
