use vstd::prelude::*;
use crate::keypad::{ButtonCode, Keypad};

verus! {

broadcast use crate::keypad::Keypad::lemma_len;

/// Number of pixel columns.
pub const SCREEN_WIDTH: u8 = 64;

/// Number of pixel rows.
pub const SCREEN_HEIGHT: u8 = 32;

/// Key code of the key that closes the display.
pub const KEY_ESCAPE: i32 = 27;

/// A framebuffer state: `SCREEN_WIDTH` columns of `SCREEN_HEIGHT` pixels each,
/// `true` for a lit pixel.
pub open spec fn is_framebuffer(pixels: Seq<Seq<bool>>) -> bool {
    &&& pixels.len() == SCREEN_WIDTH
    &&& forall|x: int| 0 <= x < SCREEN_WIDTH ==> (#[trigger] pixels[x]).len() == SCREEN_HEIGHT
}

/// The framebuffer with every pixel dark.
pub open spec fn blank_framebuffer() -> Seq<Seq<bool>> {
    Seq::new(SCREEN_WIDTH as nat, |x: int| Seq::new(SCREEN_HEIGHT as nat, |y: int| false))
}

/// `pixels` with the pixel at column `x`, row `y` inverted.
pub open spec fn toggled(pixels: Seq<Seq<bool>>, x: int, y: int) -> Seq<Seq<bool>> {
    pixels.update(x, pixels[x].update(y, !pixels[x][y]))
}

/// An axis-aligned rectangle of the window, in window pixels.
#[derive(Debug, Clone, Copy, PartialEq, Eq, Structural)]
pub struct PixelRect {
    pub x: i32,
    pub y: i32,
    pub width: u32,
    pub height: u32,
}

/// The window rectangle that shows framebuffer cell `cell`, cells being
/// numbered column by column, when one pixel is `pwidth` by `pheight` large.
pub open spec fn rect_of_cell(cell: int, pwidth: u32, pheight: u32) -> PixelRect {
    PixelRect {
        x: ((cell / SCREEN_HEIGHT as int) * pwidth) as i32,
        y: ((cell % SCREEN_HEIGHT as int) * pheight) as i32,
        width: pwidth,
        height: pheight,
    }
}

/// The rectangles of the lit pixels among the first `cells` cells, in cell order.
pub open spec fn lit_rects(pixels: Seq<Seq<bool>>, pwidth: u32, pheight: u32, cells: nat) -> Seq<
    PixelRect,
>
    decreases cells,
{
    if cells == 0 {
        Seq::empty()
    } else {
        let cell = cells - 1;
        let before = lit_rects(pixels, pwidth, pheight, cell as nat);
        if pixels[cell / SCREEN_HEIGHT as int][cell % SCREEN_HEIGHT as int] {
            before.push(rect_of_cell(cell, pwidth, pheight))
        } else {
            before
        }
    }
}

/// What the windowing layer reports: a request to close, a key going down or
/// up (with its key code), or anything else.
#[derive(Debug, Clone, Copy, PartialEq, Eq, Structural)]
pub enum InputEvent {
    Quit,
    KeyDown(i32),
    KeyUp(i32),
    Other,
}

/// The keyboard key bound to each button: the left four columns of a QWERTY
/// keyboard's digit and letter rows, in pad order. Key codes are the code
/// points of the unshifted characters.
pub open spec fn key_of_button(button: ButtonCode) -> i32 {
    match button {
        ButtonCode::B1 => 0x31,
        ButtonCode::B2 => 0x32,
        ButtonCode::B3 => 0x33,
        ButtonCode::BC => 0x34,
        ButtonCode::B4 => 0x71,
        ButtonCode::B5 => 0x77,
        ButtonCode::B6 => 0x65,
        ButtonCode::BD => 0x72,
        ButtonCode::B7 => 0x61,
        ButtonCode::B8 => 0x73,
        ButtonCode::B9 => 0x64,
        ButtonCode::BE => 0x66,
        ButtonCode::BA => 0x7a,
        ButtonCode::B0 => 0x78,
        ButtonCode::BB => 0x63,
        ButtonCode::BF => 0x76,
    }
}

/// The button a key is bound to, if any.
pub open spec fn button_of_key(keycode: i32) -> Option<ButtonCode> {
    if exists|b: ButtonCode| key_of_button(b) == keycode {
        Some(choose|b: ButtonCode| key_of_button(b) == keycode)
    } else {
        None
    }
}

/// Maps a keyboard key to the button it is bound to.
pub fn keycode_to_button_code(keycode: i32) -> (button: Option<ButtonCode>)
    ensures
        button == button_of_key(keycode),
        match button {
            Some(b) => key_of_button(b) == keycode,
            None => forall|b: ButtonCode| key_of_button(b) != keycode,
        },
{
    let button = match keycode {
        0x31 => Some(ButtonCode::B1),
        0x32 => Some(ButtonCode::B2),
        0x33 => Some(ButtonCode::B3),
        0x34 => Some(ButtonCode::BC),
        0x71 => Some(ButtonCode::B4),
        0x77 => Some(ButtonCode::B5),
        0x65 => Some(ButtonCode::B6),
        0x72 => Some(ButtonCode::BD),
        0x61 => Some(ButtonCode::B7),
        0x73 => Some(ButtonCode::B8),
        0x64 => Some(ButtonCode::B9),
        0x66 => Some(ButtonCode::BE),
        0x7a => Some(ButtonCode::BA),
        0x78 => Some(ButtonCode::B0),
        0x63 => Some(ButtonCode::BB),
        0x76 => Some(ButtonCode::BF),
        _ => None,
    };
    proof {
        if let Some(b) = button {
            assert(key_of_button(b) == keycode);
            let c = choose|c: ButtonCode| key_of_button(c) == keycode;
            assert(c == b);
        }
    }
    button
}

/// Whether `event` asks to close the display.
pub open spec fn is_quit(event: InputEvent) -> bool {
    event == InputEvent::Quit || event == InputEvent::KeyDown(KEY_ESCAPE)
}

/// The key states after `event`, which is not a request to close.
pub open spec fn keys_after_event(keys: Seq<bool>, event: InputEvent) -> Seq<bool> {
    match event {
        InputEvent::KeyDown(keycode) => match button_of_key(keycode) {
            Some(button) => keys.update(button.spec_index(), true),
            None => keys,
        },
        InputEvent::KeyUp(keycode) => match button_of_key(keycode) {
            Some(button) => keys.update(button.spec_index(), false),
            None => keys,
        },
        _ => keys,
    }
}

/// The key states after all of `events`, applied in order.
pub open spec fn keys_after_events(keys: Seq<bool>, events: Seq<InputEvent>) -> Seq<bool>
    decreases events.len(),
{
    if events.len() == 0 {
        keys
    } else {
        keys_after_event(keys_after_events(keys, events.drop_last()), events.last())
    }
}

/// Number of events before the first request to close; all of them if there
/// is no such request.
pub open spec fn events_before_quit(events: Seq<InputEvent>) -> nat
    decreases events.len(),
{
    if events.len() == 0 || is_quit(events[0]) {
        0
    } else {
        1 + events_before_quit(events.drop_first())
    }
}

/// `events_before_quit` is the index `n` at which the events end or ask to
/// close, when none of the events before `n` asks to close.
pub proof fn lemma_events_before_quit(events: Seq<InputEvent>, n: int)
    requires
        0 <= n <= events.len(),
        forall|k: int| 0 <= k < n ==> !is_quit(#[trigger] events[k]),
        n == events.len() || is_quit(events[n]),
    ensures
        events_before_quit(events) == n,
    decreases n,
{
    if n > 0 {
        let rest = events.drop_first();
        assert forall|k: int| 0 <= k < n - 1 implies !is_quit(#[trigger] rest[k]) by {
            assert(rest[k] == events[k + 1]);
        }
        lemma_events_before_quit(rest, n - 1);
    }
}

/// A display as the machine sees it.
pub struct ScreenView {
    /// The framebuffer, indexed by column, then row.
    pub pixels: Seq<Seq<bool>>,
    /// The key states, by key index.
    pub keys: Seq<bool>,
    /// The window title.
    pub title: Seq<char>,
    /// Width of one pixel, in window pixels.
    pub pwidth: u32,
    /// Height of one pixel, in window pixels.
    pub pheight: u32,
    /// Whether the framebuffer has been handed over for presentation and not
    /// yet been taken.
    pub stale: bool,
}

/// The display state: framebuffer and keypad, the geometry of the window that
/// shows them, and whether a frame awaits presentation.
pub struct Screen {
    framebuf: [[bool; 32]; 64],
    keypad: Keypad,
    title: String,
    scale: Scale,
    stale: bool,
}

/// Size of one pixel in window pixels, small enough for the whole window to
/// fit `i32` coordinates.
struct Scale {
    pwidth: u32,
    pheight: u32,
}

impl Scale {
    #[verifier::type_invariant]
    spec fn fits_window(&self) -> bool {
        &&& SCREEN_WIDTH * self.pwidth <= i32::MAX
        &&& SCREEN_HEIGHT * self.pheight <= i32::MAX
    }
}

impl View for Screen {
    type V = ScreenView;

    closed spec fn view(&self) -> ScreenView {
        ScreenView {
            pixels: Seq::new(SCREEN_WIDTH as nat, |x: int| self.framebuf@[x]@),
            keys: self.keypad@,
            title: self.title@,
            pwidth: self.scale.pwidth,
            pheight: self.scale.pheight,
            stale: self.stale,
        }
    }
}

impl Screen {
    /// A display titled `name` whose pixels are `pwidth` by `pheight` window
    /// pixels: blank, no key pressed, nothing to present. The window's width
    /// and height must fit in an `i32`.
    pub fn new(name: &str, pwidth: u32, pheight: u32) -> (screen: Self)
        requires
            SCREEN_WIDTH * pwidth <= i32::MAX,
            SCREEN_HEIGHT * pheight <= i32::MAX,
        ensures
            screen@ == (ScreenView {
                pixels: blank_framebuffer(),
                keys: Seq::new(16, |k: int| false),
                title: name@,
                pwidth,
                pheight,
                stale: false,
            }),
    {
        let screen = Self {
            framebuf: [[false;32];64],
            keypad: Keypad::new(),
            title: name.to_owned(),
            scale: Scale { pwidth, pheight },
            stale: false,
        };
        assert(screen@.pixels =~~= blank_framebuffer());
        screen
    }

    /// The shape of every display state.
    pub broadcast proof fn lemma_shape(&self)
        ensures
            #![trigger self@]
            is_framebuffer(self@.pixels),
            self@.keys.len() == 16,
    {
    }

    /// Inverts the pixel at column `x`, row `y`, and reports whether that
    /// turned it off.
    pub fn toggle_pixel(&mut self, x: u8, y: u8) -> (turned_off: bool)
        requires
            x < SCREEN_WIDTH,
            y < SCREEN_HEIGHT,
        ensures
            turned_off == old(self)@.pixels[x as int][y as int],
            final(self)@ == (ScreenView {
                pixels: toggled(old(self)@.pixels, x as int, y as int),
                ..old(self)@
            }),
    {
        let (x, y) = (x as usize, y as usize);
        self.framebuf[x][y] = !self.framebuf[x][y];
        assert(self@.pixels =~~= toggled(old(self)@.pixels, x as int, y as int));
        !self.framebuf[x][y]
    }

    /// Whether the pixel at column `x`, row `y` is lit.
    pub fn pixel(&self, x: u8, y: u8) -> (lit: bool)
        requires
            x < SCREEN_WIDTH,
            y < SCREEN_HEIGHT,
        ensures
            lit == self@.pixels[x as int][y as int],
    {
        self.framebuf[x as usize][y as usize]
    }

    /// The keypad, for reading and updating key states.
    pub fn get_keypad(&mut self) -> (pad: &mut Keypad)
        ensures
            pad@ == old(self)@.keys,
            final(self)@ == (ScreenView { keys: final(pad)@, ..old(self)@ }),
    {
        &mut self.keypad
    }

    /// Turns every pixel off.
    pub fn clear(&mut self)
        ensures
            final(self)@ == (ScreenView { pixels: blank_framebuffer(), ..old(self)@ }),
    {
        self.framebuf = [[false;32];64];
        assert(self@.pixels =~~= blank_framebuffer());
    }
    /// Hands the current framebuffer over for presentation.
    pub fn update(&mut self)
        ensures
            final(self)@ == (ScreenView { stale: true, ..old(self)@ }),
    {
        self.stale = true;
    }

    /// The frame to present: one filled rectangle per lit pixel, column by
    /// column and top to bottom within a column, on a dark background.
    pub fn frame(&self) -> (rects: Vec<PixelRect>)
        ensures
            rects@ == lit_rects(
                self@.pixels,
                self@.pwidth,
                self@.pheight,
                (SCREEN_WIDTH * SCREEN_HEIGHT) as nat,
            ),
    {
        proof {
            use_type_invariant(&self.scale);
        }
        let pwidth: u32 = self.scale.pwidth;
        let pheight: u32 = self.scale.pheight;
        let mut rects: Vec<PixelRect> = Vec::new();
        for x in 0..64usize
            invariant
                pwidth == self@.pwidth,
                pheight == self@.pheight,
                SCREEN_WIDTH * pwidth <= i32::MAX,
                SCREEN_HEIGHT * pheight <= i32::MAX,
                rects@ == lit_rects(self@.pixels, pwidth, pheight, (x * SCREEN_HEIGHT) as nat),
        {
            for y in 0..32usize
                invariant
                    x < SCREEN_WIDTH,
                    pwidth == self@.pwidth,
                    pheight == self@.pheight,
                    SCREEN_WIDTH * pwidth <= i32::MAX,
                    SCREEN_HEIGHT * pheight <= i32::MAX,
                    rects@ == lit_rects(
                        self@.pixels,
                        pwidth,
                        pheight,
                        (x * SCREEN_HEIGHT + y) as nat,
                    ),
            {
                let ghost cell: int = x * SCREEN_HEIGHT + y;
                assert(cell / SCREEN_HEIGHT as int == x && cell % SCREEN_HEIGHT as int == y);
                assert(x * pwidth <= i32::MAX && y * pheight <= i32::MAX) by (nonlinear_arith)
                    requires
                        x < 64,
                        y < 32,
                        64 * pwidth <= i32::MAX,
                        32 * pheight <= i32::MAX,
                ;
                if self.framebuf[x][y] {
                    rects.push(
                        PixelRect {
                            x: x as i32 * pwidth as i32,
                            y: y as i32 * pheight as i32,
                            width: pwidth,
                            height: pheight,
                        },
                    );
                }
            }
        }
        rects
    }

    /// The frame to present, if one has been handed over since the last one
    /// was taken.
    pub fn take_frame(&mut self) -> (frame: Option<Vec<PixelRect>>)
        ensures
            final(self)@ == (ScreenView { stale: false, ..old(self)@ }),
            match frame {
                Some(rects) => old(self)@.stale && rects@ == lit_rects(
                    old(self)@.pixels,
                    old(self)@.pwidth,
                    old(self)@.pheight,
                    (SCREEN_WIDTH * SCREEN_HEIGHT) as nat,
                ),
                None => !old(self)@.stale,
            },
    {
        if self.stale {
            self.stale = false;
            Some(self.frame())
        } else {
            None
        }
    }

    /// Applies pending input `events` in order, up to the first request to
    /// close. Returns whether the display stays open, that is, whether no
    /// event asked to close it.
    pub fn handle_input(&mut self, events: &Vec<InputEvent>) -> (open: bool)
        ensures
            open == (events_before_quit(events@) == events@.len()),
            final(self)@ == (ScreenView {
                keys: keys_after_events(
                    old(self)@.keys,
                    events@.take(events_before_quit(events@) as int),
                ),
                ..old(self)@
            }),
    {
        let mut open = true;
        let mut i: usize = 0;
        assert(events@.take(0) =~= Seq::empty());
        while i < events.len()
            invariant_except_break
                open,
            invariant
                0 <= i <= events@.len(),
                forall|k: int| 0 <= k < i ==> !is_quit(#[trigger] events@[k]),
                self@ == (ScreenView {
                    keys: keys_after_events(old(self)@.keys, events@.take(i as int)),
                    ..old(self)@
                }),
            ensures
                open ==> i == events@.len(),
                !open ==> i < events@.len() && is_quit(events@[i as int]),
            decreases events@.len() - i,
        {
            let event: InputEvent = events[i];
            proof {
                let upto = events@.take(i + 1);
                assert(upto.drop_last() =~= events@.take(i as int));
                assert(upto.last() == event);
            }
            match event {
                InputEvent::Quit => {
                    open = false;
                    break ;
                },
                InputEvent::KeyDown(keycode) => {
                    if keycode == KEY_ESCAPE {
                        open = false;
                        break ;
                    }
                    if let Some(button_code) = keycode_to_button_code(keycode) {
                        self.keypad.set_pressed(button_code, true);
                    }
                },
                InputEvent::KeyUp(keycode) => {
                    if let Some(button_code) = keycode_to_button_code(keycode) {
                        self.keypad.set_pressed(button_code, false);
                    }
                },
                InputEvent::Other => {},
            }
            i += 1;
        }
        proof {
            lemma_events_before_quit(events@, i as int);
        }
        open
    }

    /// The window title.
    pub fn title(&self) -> (title: &str)
        ensures
            title@ == self@.title,
    {
        self.title.as_str()
    }

    /// Width and height of one pixel, in window pixels.
    pub fn pixel_size(&self) -> (size: (u32, u32))
        ensures
            size == (self@.pwidth, self@.pheight),
    {
        (self.scale.pwidth, self.scale.pheight)
    }

    /// Width and height of the window that shows the whole framebuffer.
    pub fn window_size(&self) -> (size: (u32, u32))
        ensures
            size.0 == SCREEN_WIDTH * self@.pwidth,
            size.1 == SCREEN_HEIGHT * self@.pheight,
    {
        proof {
            use_type_invariant(&self.scale);
        }
        (self.scale.pwidth * 64, self.scale.pheight * 32)
    }
}

} // verus!
