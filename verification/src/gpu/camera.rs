//! The keys that are held down to move the camera.
use crate::gpu::input::{UnifiedEvent, UnifiedKeyCode, UnifiedKeyKind};
use crate::scalar::Scalar;
use vstd::prelude::*;

verus! {

/// The speeds of the camera and the directions in which it is being moved.
#[derive(Debug, Clone, Copy, PartialEq, Eq, Structural)]
pub struct CameraController {
    pub speed: Scalar,
    pub angular_speed: Scalar,
    pub is_up_pressed: bool,
    pub is_down_pressed: bool,
    pub is_forward_pressed: bool,
    pub is_backward_pressed: bool,
    pub is_left_pressed: bool,
    pub is_right_pressed: bool,
}

impl CameraController {
    /// The controller as it is once nothing is held down.
    pub open spec fn at_rest(self) -> CameraController {
        CameraController {
            is_up_pressed: false,
            is_down_pressed: false,
            is_forward_pressed: false,
            is_backward_pressed: false,
            is_left_pressed: false,
            is_right_pressed: false,
            ..self
        }
    }

    /// Whether the key moves the camera.
    pub open spec fn moves(keycode: UnifiedKeyCode) -> bool {
        match keycode {
            UnifiedKeyCode::K | UnifiedKeyCode::Up | UnifiedKeyCode::H | UnifiedKeyCode::Left
            | UnifiedKeyCode::J | UnifiedKeyCode::Down | UnifiedKeyCode::L | UnifiedKeyCode::Right
            | UnifiedKeyCode::U | UnifiedKeyCode::D => true,
            _ => false,
        }
    }

    /// The controller after an event: the direction of the key is held
    /// exactly if the key was pressed. The arrows and `k`, `h`, `j`, `l` move
    /// up, left, down and right, `u` forwards and `d` backwards.
    pub open spec fn after(self, event: UnifiedEvent) -> CameraController {
        let is_pressed = event.kind == UnifiedKeyKind::Press;
        match event.keycode {
            UnifiedKeyCode::K | UnifiedKeyCode::Up => CameraController {
                is_up_pressed: is_pressed,
                ..self
            },
            UnifiedKeyCode::H | UnifiedKeyCode::Left => CameraController {
                is_left_pressed: is_pressed,
                ..self
            },
            UnifiedKeyCode::J | UnifiedKeyCode::Down => CameraController {
                is_down_pressed: is_pressed,
                ..self
            },
            UnifiedKeyCode::L | UnifiedKeyCode::Right => CameraController {
                is_right_pressed: is_pressed,
                ..self
            },
            UnifiedKeyCode::U => CameraController { is_forward_pressed: is_pressed, ..self },
            UnifiedKeyCode::D => CameraController { is_backward_pressed: is_pressed, ..self },
            _ => self,
        }
    }

    /// A controller with the given speeds and nothing held down.
    pub fn new(speed: Scalar, angular_speed: Scalar) -> (controller: CameraController)
        ensures
            controller.speed == speed,
            controller.angular_speed == angular_speed,
            controller == controller.at_rest(),
    {
        CameraController {
            speed,
            angular_speed,
            is_up_pressed: false,
            is_down_pressed: false,
            is_forward_pressed: false,
            is_backward_pressed: false,
            is_left_pressed: false,
            is_right_pressed: false,
        }
    }

    /// Takes an event and says whether its key moves the camera.
    pub fn process_events(&mut self, event: UnifiedEvent) -> (used: bool)
        ensures
            *final(self) == old(self).after(event),
            used == CameraController::moves(event.keycode),
    {
        let is_pressed = match event.kind {
            UnifiedKeyKind::Press => true,
            _ => false,
        };
        match event.keycode {
            UnifiedKeyCode::K | UnifiedKeyCode::Up => {
                self.is_up_pressed = is_pressed;
                true
            },
            UnifiedKeyCode::H | UnifiedKeyCode::Left => {
                self.is_left_pressed = is_pressed;
                true
            },
            UnifiedKeyCode::J | UnifiedKeyCode::Down => {
                self.is_down_pressed = is_pressed;
                true
            },
            UnifiedKeyCode::L | UnifiedKeyCode::Right => {
                self.is_right_pressed = is_pressed;
                true
            },
            UnifiedKeyCode::U => {
                self.is_forward_pressed = is_pressed;
                true
            },
            UnifiedKeyCode::D => {
                self.is_backward_pressed = is_pressed;
                true
            },
            _ => false,
        }
    }

    /// Lets go of every key. Most terminals do not report the release of a
    /// key.
    pub fn reset_velocity(&mut self)
        ensures
            *final(self) == old(self).at_rest(),
    {
        self.is_up_pressed = false;
        self.is_down_pressed = false;
        self.is_forward_pressed = false;
        self.is_left_pressed = false;
        self.is_backward_pressed = false;
        self.is_right_pressed = false;
    }
}

} // verus!
