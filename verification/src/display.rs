//! The display list: what the front end paints for each frame-buffer pixel.

use crate::machine::Chip8;
use crate::semantics::{Chip8State, DISPLAY_HEIGHT, DISPLAY_WIDTH, SCREEN_SCALE};
use vstd::prelude::*;

verus! {

/// One rectangle to paint: centred on (`center_x`, `center_y`), of the given
/// size and colour; `filled` rectangles are filled as well as outlined.
#[derive(Clone, Copy, Debug, PartialEq, Eq, Structural)]
pub struct DrawCommand {
    pub center_x: i32,
    pub center_y: i32,
    pub width: u32,
    pub height: u32,
    pub red: u8,
    pub green: u8,
    pub blue: u8,
    pub filled: bool,
}

/// Side of the outline drawn for an unlit pixel.
pub const UNLIT_OUTLINE: u32 = 10;

/// What is painted for the pixel in column `x` and line `y`: a lit pixel is a
/// filled blue square of the screen scale; an unlit one, a black outline of
/// side 10.
pub open spec fn draw_command(s: Chip8State, x: int, y: int) -> DrawCommand {
    let scale = s.screen_scale as int;
    if s.frame[x][y] == 1 {
        DrawCommand {
            center_x: (x * scale) as i32,
            center_y: (y * scale) as i32,
            width: scale as u32,
            height: scale as u32,
            red: 0,
            green: 0,
            blue: 255,
            filled: true,
        }
    } else {
        DrawCommand {
            center_x: (x * scale) as i32,
            center_y: (y * scale) as i32,
            width: UNLIT_OUTLINE,
            height: UNLIT_OUTLINE,
            red: 0,
            green: 0,
            blue: 0,
            filled: false,
        }
    }
}

/// All pixels, line by line from the top and left to right in each line.
pub open spec fn display_list(s: Chip8State) -> Seq<DrawCommand> {
    Seq::new(
        (DISPLAY_WIDTH * DISPLAY_HEIGHT) as nat,
        |k: int| draw_command(s, k % DISPLAY_WIDTH as int, k / DISPLAY_WIDTH as int),
    )
}

/// The rectangles that show the frame buffer, in painting order.
pub fn draw(chip8: &Chip8) -> (commands: Vec<DrawCommand>)
    ensures
        commands@ == display_list(chip8@),
{
    let mut commands: Vec<DrawCommand> = Vec::new();
    let scale = chip8.screen_scale();
    let mut y: usize = 0;
    while y < 32
        invariant
            scale == chip8@.screen_scale,
            scale == SCREEN_SCALE,
            y <= 32,
            commands@ =~= display_list(chip8@).take(y * 64),
        decreases 32 - y,
    {
        let mut x: usize = 0;
        while x < 64
            invariant
                scale == chip8@.screen_scale,
                scale == SCREEN_SCALE,
                y < 32,
                x <= 64,
                commands@ =~= display_list(chip8@).take(y * 64 + x),
            decreases 64 - x,
        {
            let center_x = (x as i32) * (scale as i32);
            let center_y = (y as i32) * (scale as i32);
            let command = if chip8.pixel(x, y) == 1 {
                DrawCommand {
                    center_x,
                    center_y,
                    width: scale as u32,
                    height: scale as u32,
                    red: 0,
                    green: 0,
                    blue: 255,
                    filled: true,
                }
            } else {
                DrawCommand {
                    center_x,
                    center_y,
                    width: UNLIT_OUTLINE,
                    height: UNLIT_OUTLINE,
                    red: 0,
                    green: 0,
                    blue: 0,
                    filled: false,
                }
            };
            proof {
                let k = y * 64 + x;
                assert(k % 64 == x && k / 64 == y) by (nonlinear_arith)
                    requires
                        k == y * 64 + x,
                        x < 64,
                ;
                assert(command == draw_command(chip8@, x as int, y as int));
            }
            commands.push(command);
            x = x + 1;
        }
        y = y + 1;
    }
    commands
}

} // verus!
