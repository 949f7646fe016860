//! Indicator window displaying the virtual desktops on the Taskbar: a dot for each desktop.

use vstd::prelude::*;

use crate::types::Rect;
use crate::virtual_desktop::canvas;
use crate::virtual_desktop::canvas::{Block, Canvas, Paint};

verus! {

/// The desktops have changed: the indicator is to be drawn again.
pub const WM_APP_VD_EVENT: u32 = 0x500;

pub const WM_SETTINGCHANGE: u32 = 0x001A;

pub const WM_SETCURSOR: u32 = 0x0020;

pub const WM_DISPLAYCHANGE: u32 = 0x007E;

pub const WM_MOUSEMOVE: u32 = 0x0200;

pub const WM_LBUTTONUP: u32 = 0x0202;

pub const WM_MOUSELEAVE: u32 = 0x02A3;

/// The width of the indicator in pixels.
pub const WIDTH: i32 = 128;

/// The distance of the indicator from the left edge of the taskbar in pixels.
pub const MARGIN: i32 = 10;

/// Where the indicator is shown.
#[derive(Debug, Clone, Copy, PartialEq, Eq, Structural)]
pub struct IndicatorPlace {
    pub x: i32,
    pub y: i32,
    pub width: i32,
    pub height: i32,
}

/// Where the indicator is shown on a taskbar: beside its left edge and as high as it.
pub fn place_on(taskbar: &Rect) -> (place: IndicatorPlace)
    requires
        taskbar.left + MARGIN <= i32::MAX,
        i32::MIN <= taskbar.bottom - taskbar.top <= i32::MAX,
    ensures
        place == (IndicatorPlace {
            x: (taskbar.left + MARGIN) as i32,
            y: taskbar.top,
            width: WIDTH,
            height: (taskbar.bottom - taskbar.top) as i32,
        }),
{
    IndicatorPlace {
        x: taskbar.left + MARGIN,
        y: taskbar.top,
        width: WIDTH,
        height: taskbar.bottom - taskbar.top,
    }
}

/// Red, green and blue.
pub type Rgb = (u8, u8, u8);

/// The colour of the dots: dark on a light taskbar, white on a dark one.
pub fn button_color(light_mode: bool) -> (color: Rgb)
    ensures
        color == if light_mode {
            (20u8, 20u8, 20u8)
        } else {
            (255u8, 255u8, 255u8)
        },
{
    if light_mode {
        (20, 20, 20)
    } else {
        (255, 255, 255)
    }
}

/// The colour behind the dot under the mouse.
pub fn hitbox_color(light_mode: bool) -> (color: Rgb)
    ensures
        color == if light_mode {
            (255u8, 255u8, 255u8)
        } else {
            (100u8, 100u8, 100u8)
        },
{
    if light_mode {
        (255, 255, 255)
    } else {
        (100, 100, 100)
    }
}

/// The position of the first desktop from `i` on that is the current one; zero where there is none.
pub open spec fn position_of(desktops: Seq<u128>, current: u128, i: int) -> int
    decreases desktops.len() - i,
{
    if i >= desktops.len() {
        0
    } else if desktops[i] == current {
        i
    } else {
        position_of(desktops, current, i + 1)
    }
}

/// The index of the current desktop; zero where it is unknown or not in the list.
pub fn current_index(desktops: &[u128], current: Option<u128>) -> (index: usize)
    ensures
        index == match current {
            Some(c) => position_of(desktops@, c, 0),
            None => 0,
        },
{
    if let Some(c) = current {
        for i in 0..desktops.len()
            invariant
                current == Some(c),
                position_of(desktops@, c, 0) == position_of(desktops@, c, i as int),
        {
            if desktops[i] == c {
                return i;
            }
        }
    }
    0
}

/// How a dot is drawn.
#[derive(Debug, Clone, Copy, PartialEq, Eq, Structural)]
pub struct Dot {
    /// The mouse is over the dot: its background is drawn.
    pub is_hovered: bool,
    /// The dot is larger by a quarter.
    pub enlarged: bool,
    /// The opacity in percent.
    pub opacity: u32,
}

/// The dot of a desktop: the current one is opaque, the one under the mouse brighter than the
/// others; both are enlarged, but not twice.
pub open spec fn dot(is_active: bool, is_hovered: bool) -> Dot {
    Dot {
        is_hovered,
        enlarged: is_active || is_hovered,
        opacity: if is_active {
            100
        } else if is_hovered {
            80
        } else {
            50
        },
    }
}

/// The dot of a desktop.
pub fn dot_style(is_active: bool, is_hovered: bool) -> (style: Dot)
    ensures
        style == dot(is_active, is_hovered),
{
    let mut enlarged = false;
    let mut opacity: u32 = if is_active {
        enlarged = true;
        100
    } else {
        50
    };
    if is_hovered {
        enlarged = true;
        if opacity < 80 {
            opacity = 80;
        }
    }
    Dot { is_hovered, enlarged, opacity }
}

/// The dots of all desktops.
pub fn plan_dots(count: usize, current: usize, hover_index: isize) -> (dots: Vec<Dot>)
    requires
        count <= isize::MAX,
    ensures
        dots@.len() == count,
        forall|i: int| 0 <= i < count ==> #[trigger] dots@[i] == dot(i == current, i == hover_index),
{
    let mut dots: Vec<Dot> = Vec::new();
    for i in 0..count
        invariant
            count <= isize::MAX,
            dots@.len() == i,
            forall|k: int|
                0 <= k < i ==> #[trigger] dots@[k] == dot(k == current, k == hover_index),
    {
        dots.push(dot_style(i == current, hover_index == i as isize));
    }
    dots
}

/// The two blocks of a dot: what lies behind it, and the circle itself.
#[derive(Debug)]
pub struct DotShape {
    pub background: Block,
    pub circle: Block,
}

/// The value of a point after a block was drawn over `before`.
pub open spec fn over(block: Block, paint: Paint, before: u32, x: int, y: int) -> u32 {
    if block.covers(x, y) {
        canvas::painted(paint, block.at(x, y), before)
    } else {
        before
    }
}

/// The value of a point after the first `n` dots were drawn on an empty picture, one after the
/// other: of each first what lies behind it, then its circle.
pub open spec fn point_after(shapes: Seq<DotShape>, n: int, x: int, y: int) -> u32
    decreases n,
{
    if n <= 0 {
        0
    } else {
        let shape = shapes[n - 1];
        over(
            shape.circle,
            Paint::Shape,
            over(shape.background, Paint::Hitbox, point_after(shapes, n - 1, x, y), x, y),
            x,
            y,
        )
    }
}

/// What a message to the indicator asks for.
#[derive(Debug, Clone, Copy, PartialEq, Eq, Structural)]
pub enum IndicatorStep {
    /// Draw the indicator.
    Render,
    /// Post a message to draw the indicator later.
    PostRender,
    /// Find the dot at this position, and hand it to [`IndicatorWindow::mouse_move`].
    MouseMove(i32),
    /// Call [`IndicatorWindow::mouse_leave`], and draw the indicator.
    MouseLeave,
    /// Find the dot at this position, and hand it to [`clicked_desktop`].
    Click(i32),
    /// Show the cursor of a hand.
    HandCursor,
    /// The default handling answers.
    Default,
}

impl IndicatorStep {
    /// The result of the message; nothing where the default handling answers.
    pub open spec fn answer(&self) -> Option<isize> {
        match self {
            IndicatorStep::Default => None,
            IndicatorStep::HandCursor => Some(1isize),
            _ => Some(0isize),
        }
    }

    /// The result of the message; nothing where the default handling answers.
    pub fn result(&self) -> (result: Option<isize>)
        ensures
            result == self.answer(),
    {
        match self {
            IndicatorStep::Default => None,
            IndicatorStep::HandCursor => Some(1),
            _ => Some(0),
        }
    }
}

/// The horizontal position of the mouse in a message: the low word, with its sign.
pub open spec fn low_signed(v: i32) -> int {
    let low = (v & 0xFFFF) as int;
    if low >= 0x8000 {
        low - 0x10000
    } else {
        low
    }
}

/// The horizontal position of the mouse in a message.
pub fn mouse_x(lparam: isize) -> (x: i32)
    ensures
        x == low_signed(lparam as i32),
{
    let v: i32 = #[verifier::truncate] (lparam as i32);
    assert(0 <= v & 0xFFFF <= 0xFFFF) by (bit_vector);
    let low: i32 = v & 0xFFFF;
    if low >= 0x8000 {
        low - 0x10000
    } else {
        low
    }
}

/// What a message to the indicator asks for.
pub open spec fn step_of(msg: u32, lparam: isize) -> IndicatorStep {
    if msg == WM_APP_VD_EVENT {
        IndicatorStep::Render
    } else if msg == WM_DISPLAYCHANGE || msg == WM_SETTINGCHANGE {
        IndicatorStep::PostRender
    } else if msg == WM_MOUSEMOVE {
        IndicatorStep::MouseMove(low_signed(lparam as i32) as i32)
    } else if msg == WM_MOUSELEAVE {
        IndicatorStep::MouseLeave
    } else if msg == WM_LBUTTONUP {
        IndicatorStep::Click(low_signed(lparam as i32) as i32)
    } else if msg == WM_SETCURSOR {
        IndicatorStep::HandCursor
    } else {
        IndicatorStep::Default
    }
}

/// The first dot from `i` on whose box holds the mouse.
pub open spec fn first_hit(hits: Seq<bool>, i: int) -> Option<int>
    decreases hits.len() - i,
{
    if i >= hits.len() {
        None
    } else if hits[i] {
        Some(i)
    } else {
        first_hit(hits, i + 1)
    }
}

/// The dot under the mouse: the first whose box holds it. Without a taskbar there is none.
pub fn get_hovered_index(taskbar_height: i32, hits: &[bool]) -> (index: Option<usize>)
    ensures
        taskbar_height <= 0 ==> index is None,
        taskbar_height > 0 ==> match first_hit(hits@, 0) {
            Some(i) => index == Some(i as usize) && i < hits@.len(),
            None => index is None,
        },
{
    if taskbar_height <= 0 {
        return None;
    }
    for i in 0..hits.len()
        invariant
            taskbar_height > 0,
            first_hit(hits@, 0) == first_hit(hits@, i as int),
    {
        if hits[i] {
            return Some(i);
        }
    }
    None
}

/// What is to be done after the mouse has moved.
#[derive(Debug, Clone, Copy, PartialEq, Eq, Structural)]
pub struct MouseMoved {
    /// Draw the indicator.
    pub render: bool,
    /// Ask to be told when the mouse leaves.
    pub track_leave: bool,
}

/// Indicator window displaying the virtual desktops on the Taskbar.
#[derive(Debug, Clone, Copy, PartialEq, Eq, Structural)]
pub struct IndicatorWindow {
    pub hwnd: isize,
    /// The index of the dot under the mouse; -1 where there is none.
    pub hover_index: isize,
}

impl IndicatorWindow {
    /// A window that the mouse is not over.
    pub fn new(hwnd: isize) -> (window: Self)
        ensures
            window == (IndicatorWindow { hwnd, hover_index: -1isize }),
    {
        IndicatorWindow { hwnd, hover_index: -1 }
    }

    /// Renders the dots into a picture of this size.
    pub fn render(width: usize, height: usize, shapes: &[DotShape]) -> (picture: Canvas)
        requires
            width * height <= usize::MAX,
            forall|i: int|
                0 <= i < shapes@.len() ==> (#[trigger] shapes@[i]).background.fits(
                    width as int,
                    height as int,
                ) && shapes@[i].circle.fits(width as int, height as int),
        ensures
            picture.valid(),
            picture.width == width,
            picture.height == height,
            forall|x: int, y: int| #[trigger]
                picture.inside(x, y) ==> picture.at(x, y) == point_after(
                    shapes@,
                    shapes@.len() as int,
                    x,
                    y,
                ),
    {
        let mut picture = Canvas::new(width, height);
        assert forall|x: int, y: int| #[trigger] picture.inside(x, y) implies picture.at(x, y)
            == point_after(shapes@, 0, x, y) by {
            canvas::lemma_index(x, y, width as int, height as int);
        }
        for i in 0..shapes.len()
            invariant
                forall|k: int|
                    0 <= k < shapes@.len() ==> (#[trigger] shapes@[k]).background.fits(
                        width as int,
                        height as int,
                    ) && shapes@[k].circle.fits(width as int, height as int),
                picture.valid(),
                picture.width == width,
                picture.height == height,
                forall|x: int, y: int| #[trigger]
                    picture.inside(x, y) ==> picture.at(x, y) == point_after(
                        shapes@,
                        i as int,
                        x,
                        y,
                    ),
        {
            let ghost before = picture;
            Self::draw_hitbox_and_bg(&mut picture, &shapes[i].background);
            let ghost between = picture;
            Self::draw_aa_circle(&mut picture, &shapes[i].circle);
            assert forall|x: int, y: int| #[trigger] picture.inside(x, y) implies picture.at(x, y)
                == point_after(shapes@, i + 1, x, y) by {
                assert(before.inside(x, y));
                assert(between.inside(x, y));
            }
        }
        picture
    }

    /// Draws what lies behind a dot: the background of its box where the mouse is over it, and
    /// otherwise a box that cannot be seen but be hit by the mouse.
    pub fn draw_hitbox_and_bg(picture: &mut Canvas, background: &Block)
        requires
            old(picture).valid(),
            background.fits(old(picture).width as int, old(picture).height as int),
        ensures
            final(picture).valid(),
            final(picture).width == old(picture).width,
            final(picture).height == old(picture).height,
            forall|x: int, y: int| #[trigger]
                old(picture).inside(x, y) ==> final(picture).at(x, y) == over(
                    *background,
                    Paint::Hitbox,
                    old(picture).at(x, y),
                    x,
                    y,
                ),
    {
        picture.draw(background, Paint::Hitbox);
    }

    /// Draws the circle of a dot.
    pub fn draw_aa_circle(picture: &mut Canvas, circle: &Block)
        requires
            old(picture).valid(),
            circle.fits(old(picture).width as int, old(picture).height as int),
        ensures
            final(picture).valid(),
            final(picture).width == old(picture).width,
            final(picture).height == old(picture).height,
            forall|x: int, y: int| #[trigger]
                old(picture).inside(x, y) ==> final(picture).at(x, y) == over(
                    *circle,
                    Paint::Shape,
                    old(picture).at(x, y),
                    x,
                    y,
                ),
    {
        picture.draw(circle, Paint::Shape);
    }

    /// Core Message Procedure for the Indicator window.
    pub fn window_proc(msg: u32, lparam: isize) -> (step: IndicatorStep)
        ensures
            step == step_of(msg, lparam),
    {
        if msg == WM_APP_VD_EVENT {
            IndicatorStep::Render
        } else if msg == WM_DISPLAYCHANGE || msg == WM_SETTINGCHANGE {
            IndicatorStep::PostRender
        } else if msg == WM_MOUSEMOVE {
            IndicatorStep::MouseMove(mouse_x(lparam))
        } else if msg == WM_MOUSELEAVE {
            IndicatorStep::MouseLeave
        } else if msg == WM_LBUTTONUP {
            IndicatorStep::Click(mouse_x(lparam))
        } else if msg == WM_SETCURSOR {
            IndicatorStep::HandCursor
        } else {
            IndicatorStep::Default
        }
    }

    /// The number of a dot, or of none.
    pub open spec fn number(hovered: Option<usize>) -> isize {
        match hovered {
            Some(i) => i as isize,
            None => -1isize,
        }
    }

    /// Takes note of the dot under the mouse. The indicator is drawn only if it is another one.
    pub fn mouse_move(&mut self, hovered: Option<usize>) -> (moved: MouseMoved)
        ensures
            *final(self) == (IndicatorWindow {
                hover_index: Self::number(hovered),
                ..*old(self)
            }),
            moved.render == (old(self).hover_index != final(self).hover_index),
            moved.track_leave == (moved.render && final(self).hover_index != -1),
    {
        let new_index: isize = match hovered {
            Some(i) => #[verifier::truncate] (i as isize),
            None => -1,
        };
        if self.hover_index != new_index {
            self.hover_index = new_index;
            MouseMoved { render: true, track_leave: new_index != -1 }
        } else {
            MouseMoved { render: false, track_leave: false }
        }
    }

    /// Takes note that the mouse has left.
    pub fn mouse_leave(&mut self)
        ensures
            *final(self) == (IndicatorWindow { hover_index: -1isize, ..*old(self) }),
    {
        self.hover_index = -1;
    }
}

/// The desktop to switch to after a click: that of the dot under the mouse, if there is such a
/// desktop. `count` is absent where the desktops could not be listed.
pub fn clicked_desktop(hovered: Option<usize>, count: Option<usize>) -> (index: Option<usize>)
    ensures
        index == if hovered is Some && count is Some && hovered->0 < count->0 {
            hovered
        } else {
            None
        },
{
    if let (Some(index), Some(count)) = (hovered, count) {
        if index < count {
            return Some(index);
        }
    }
    None
}

/// A dot is opaque exactly if it is that of the current desktop; no dot is fainter than half.
pub proof fn law_only_the_current_dot_is_opaque(is_active: bool, is_hovered: bool)
    ensures
        dot(is_active, is_hovered).opacity == 100 <==> is_active,
        dot(is_active, is_hovered).opacity >= 50,
{
}

/// The current desktop, where it is in the list, is the one that its index names.
pub proof fn law_current_index_names_the_desktop(desktops: Seq<u128>, current: u128)
    requires
        desktops.contains(current),
    ensures
        0 <= position_of(desktops, current, 0) < desktops.len(),
        desktops[position_of(desktops, current, 0)] == current,
{
    let i = choose|i: int| 0 <= i < desktops.len() && desktops[i] == current;
    lemma_position_of(desktops, current, 0, i);
}

proof fn lemma_position_of(desktops: Seq<u128>, current: u128, from: int, i: int)
    requires
        0 <= from <= i < desktops.len(),
        desktops[i] == current,
    ensures
        from <= position_of(desktops, current, from) <= i,
        desktops[position_of(desktops, current, from)] == current,
    decreases i - from,
{
    if desktops[from] != current {
        lemma_position_of(desktops, current, from + 1, i);
    }
}

/// The index of the current desktop is the first at which it stands, and zero where it does not.
pub proof fn law_current_index_is_the_first(desktops: Seq<u128>, current: u128, k: int)
    ensures
        0 <= k < position_of(desktops, current, 0) ==> desktops[k] != current,
        !desktops.contains(current) ==> position_of(desktops, current, 0) == 0,
{
    lemma_first_position(desktops, current, 0);
}

proof fn lemma_first_position(desktops: Seq<u128>, current: u128, from: int)
    requires
        0 <= from,
    ensures
        forall|k: int| from <= k < position_of(desktops, current, from) ==> desktops[k] != current,
        position_of(desktops, current, from) == 0 || from <= position_of(desktops, current, from)
            < desktops.len() && desktops[position_of(desktops, current, from)] == current,
    decreases desktops.len() - from,
{
    if from < desktops.len() && desktops[from] != current {
        lemma_first_position(desktops, current, from + 1);
    }
}

/// The dot under the mouse is brighter than the others unless it is opaque anyway. It and the current
/// one are enlarged, and no other is.
pub proof fn law_hovered_dot_stands_out(is_active: bool, is_hovered: bool)
    ensures
        dot(is_active, is_hovered).is_hovered == is_hovered,
        dot(is_active, is_hovered).enlarged <==> is_active || is_hovered,
        dot(is_active, is_hovered).opacity == 80 <==> is_hovered && !is_active,
        dot(is_active, is_hovered).opacity == 50 <==> !is_hovered && !is_active,
{
}

/// A point that no dot covers stays empty.
pub proof fn law_uncovered_points_are_empty(shapes: Seq<DotShape>, n: int, x: int, y: int)
    requires
        0 <= n <= shapes.len(),
        forall|k: int|
            0 <= k < n ==> !(#[trigger] shapes[k]).background.covers(x, y)
                && !shapes[k].circle.covers(x, y),
    ensures
        point_after(shapes, n, x, y) == 0,
    decreases n,
{
    if n > 0 {
        law_uncovered_points_are_empty(shapes, n - 1, x, y);
        assert(!shapes[n - 1].background.covers(x, y));
    }
}

/// The circle of the last dot that reaches a point is what is seen there, whatever lies below it and
/// however many dots follow that do not cover the point.
pub proof fn law_last_circle_is_on_top(
    shapes: Seq<DotShape>,
    n: int,
    k: int,
    x: int,
    y: int,
    p: canvas::Pixel,
)
    requires
        0 <= k < n <= shapes.len(),
        shapes[k].circle.covers(x, y),
        shapes[k].circle.at(x, y) == Some(p),
        forall|j: int|
            k < j < n ==> !(#[trigger] shapes[j]).background.covers(x, y)
                && !shapes[j].circle.covers(x, y),
    ensures
        point_after(shapes, n, x, y) == canvas::packed(p),
    decreases n,
{
    if k < n - 1 {
        assert(!shapes[n - 1].background.covers(x, y));
        law_last_circle_is_on_top(shapes, n - 1, k, x, y, p);
    }
}

/// The background of the last dot that reaches a point is seen there, where its circle does not reach.
pub proof fn law_background_lies_below_the_circle(
    shapes: Seq<DotShape>,
    n: int,
    k: int,
    x: int,
    y: int,
    p: canvas::Pixel,
)
    requires
        0 <= k < n <= shapes.len(),
        shapes[k].background.covers(x, y),
        shapes[k].background.at(x, y) == Some(p),
        !shapes[k].circle.covers(x, y) || shapes[k].circle.at(x, y) is None,
        forall|j: int|
            k < j < n ==> !(#[trigger] shapes[j]).background.covers(x, y)
                && !shapes[j].circle.covers(x, y),
    ensures
        point_after(shapes, n, x, y) == canvas::packed(p),
    decreases n,
{
    if k < n - 1 {
        assert(!shapes[n - 1].background.covers(x, y));
        law_background_lies_below_the_circle(shapes, n - 1, k, x, y, p);
    }
}

/// Every point of a box can be hit by the mouse, once the first `n` dots are drawn, where the pixels
/// that are drawn can be hit.
pub proof fn law_boxes_can_be_hit(shapes: Seq<DotShape>, n: int, k: int, x: int, y: int)
    requires
        0 <= k < n <= shapes.len(),
        shapes[k].background.covers(x, y),
        forall|j: int|
            #![trigger shapes[j]]
            0 <= j < n ==> {
                &&& shapes[j].background.covers(x, y) ==> (shapes[j].background.at(
                    x,
                    y,
                ) matches Some(p) ==> canvas::packed(p) != 0)
                &&& shapes[j].circle.covers(x, y) ==> (shapes[j].circle.at(x, y) matches Some(p)
                    ==> canvas::packed(p) != 0)
            },
    ensures
        point_after(shapes, n, x, y) != 0,
    decreases n,
{
    let shape = shapes[n - 1];
    if k < n - 1 {
        law_boxes_can_be_hit(shapes, n - 1, k, x, y);
    }
    let below = over(shape.background, Paint::Hitbox, point_after(shapes, n - 1, x, y), x, y);
    assert(below != 0);
}

/// The position of the mouse is the low word of the parameter, as a number of 16 bits with a sign.
pub proof fn law_mouse_position_is_the_low_word(v: i32)
    ensures
        -0x8000 <= low_signed(v) <= 0x7FFF,
        (v - low_signed(v)) % 0x10000 == 0,
{
    let low = v & 0xFFFF;
    assert(0 <= low <= 0xFFFF && low == (v as i64 + 0x1_0000_0000i64) % 0x10000) by (bit_vector)
        requires
            low == v & 0xFFFF,
    ;
}

/// Each message asks for its own step; all others go to the default handling.
pub proof fn law_messages_of_the_indicator(msg: u32, lparam: isize)
    ensures
        step_of(msg, lparam) == IndicatorStep::Render <==> msg == 0x500,
        step_of(msg, lparam) == IndicatorStep::PostRender <==> msg == 0x7E || msg == 0x1A,
        step_of(msg, lparam) is MouseMove <==> msg == 0x200,
        step_of(msg, lparam) == IndicatorStep::MouseLeave <==> msg == 0x2A3,
        step_of(msg, lparam) is Click <==> msg == 0x202,
        step_of(msg, lparam) == IndicatorStep::HandCursor <==> msg == 0x20,
        step_of(msg, lparam) matches IndicatorStep::MouseMove(x) ==> x == low_signed(lparam as i32),
        step_of(msg, lparam) matches IndicatorStep::Click(x) ==> x == low_signed(lparam as i32),
{
    law_mouse_position_is_the_low_word(lparam as i32);
}

/// The default handling answers exactly what asks for no step; only the cursor is answered with one.
pub proof fn law_answers_of_the_indicator(step: IndicatorStep)
    ensures
        step.answer() is None <==> step == IndicatorStep::Default,
        step.answer() == Some(1isize) <==> step == IndicatorStep::HandCursor,
        step.answer() matches Some(v) ==> v == 0 || v == 1,
{
}

/// The dot under the mouse is the first whose box holds it.
pub proof fn law_first_box_is_hit(hits: Seq<bool>, i: int)
    requires
        0 <= i <= hits.len(),
        forall|k: int| 0 <= k < i ==> !#[trigger] hits[k],
        i < hits.len() ==> hits[i],
    ensures
        i == hits.len() ==> first_hit(hits, 0) is None,
        i < hits.len() ==> first_hit(hits, 0) == Some(i),
{
    lemma_first_hit(hits, i, 0);
}

proof fn lemma_first_hit(hits: Seq<bool>, i: int, from: int)
    requires
        0 <= from <= i <= hits.len(),
        forall|k: int| 0 <= k < i ==> !#[trigger] hits[k],
        i < hits.len() ==> hits[i],
    ensures
        i == hits.len() ==> first_hit(hits, from) is None,
        i < hits.len() ==> first_hit(hits, from) == Some(i),
    decreases i - from,
{
    if from < i {
        assert(!hits[from]);
        lemma_first_hit(hits, i, from + 1);
    }
}

/// The number of a dot is its index; that of none is less than any.
pub proof fn law_number_of_a_dot(i: usize)
    requires
        i <= isize::MAX,
    ensures
        IndicatorWindow::number(Some(i)) == i,
        IndicatorWindow::number(None) == -1,
{
}

/// What one more dot makes of a point: its circle comes before its background, and both before what was
/// there. A box without a background fills only what is empty. Without a dot the picture is empty.
pub proof fn law_one_more_dot(shapes: Seq<DotShape>, n: int, x: int, y: int, p: canvas::Pixel)
    requires
        0 <= n < shapes.len(),
    ensures
        ({
            let (background, circle) = (shapes[n].background, shapes[n].circle);
            let before = point_after(shapes, n, x, y);
            let after = point_after(shapes, n + 1, x, y);
            let no_circle = !circle.covers(x, y) || circle.at(x, y) is None;
            &&& circle.covers(x, y) && circle.at(x, y) == Some(p) ==> after == canvas::packed(p)
            &&& no_circle && background.covers(x, y) && background.at(x, y) == Some(p) ==> after
                == canvas::packed(p)
            &&& no_circle && background.covers(x, y) && background.at(x, y) is None && before == 0
                ==> after == 0x01000000
            &&& no_circle && background.covers(x, y) && background.at(x, y) is None && before != 0
                ==> after == before
            &&& no_circle && !background.covers(x, y) ==> after == before
        }),
        point_after(shapes, 0, x, y) == 0,
{
}

} // verus!
