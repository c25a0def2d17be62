use vstd::prelude::*;
use vstd::string::StringExecFns;
use crate::color::Color;
use crate::current::opt_text;
use crate::scale::{DesktopImageOptions, Scale, image_options, no_options};
use crate::screen::{DisplayHandle, Screen, same_text};

verus! {

/// Assigned, with no options, to a display that already shows the target, so
/// that the desktop service does not skip the real assignment as a no-op.
pub const PLACEHOLDER_PATH: &'static str = "./";

/// How long the desktop service is given to settle after the placeholder
/// assignments. Found by trial on the service, not derived.
pub const REFRESH_PAUSE_MILLIS: u64 = 400;

/// A transparent picture shipped with the system; a solid color is this
/// picture over a fill color.
pub const TRANSPARENT_IMAGE: &'static str = "/System/Library/PreferencePanes/DesktopScreenEffectsPref.prefPane/Contents/Resources/DesktopPictures.prefPane/Contents/Resources/Transparent.tiff";

/// One thing to do to the desktop, in order.
#[derive(Debug)]
pub enum Action {
    /// Show the picture at `path` on `display`.
    SetImage { display: DisplayHandle, path: String, options: DesktopImageOptions },
    /// Wait this many milliseconds.
    Pause { millis: u64 },
}

/// An action as a value: the path as its characters.
pub enum Step {
    SetImage { display: DisplayHandle, path: Seq<char>, options: DesktopImageOptions },
    Pause { millis: u64 },
}

impl View for Action {
    type V = Step;

    open spec fn view(&self) -> Step {
        match self {
            Action::SetImage { display, path, options } => Step::SetImage {
                display: *display,
                path: path@,
                options: *options,
            },
            Action::Pause { millis } => Step::Pause { millis: *millis },
        }
    }
}

pub open spec fn steps_of(actions: Seq<Action>) -> Seq<Step> {
    actions.map_values(|a: Action| a@)
}

pub open spec fn texts(s: Seq<Option<String>>) -> Seq<Option<Seq<char>>> {
    s.map_values(|o: Option<String>| opt_text(o))
}

/// The placeholder assignments among the first `n` displays: one for each
/// display whose current picture is the target.
pub open spec fn placeholder_steps(
    image: Seq<char>,
    displays: Seq<DisplayHandle>,
    current: Seq<Option<Seq<char>>>,
    n: nat,
) -> Seq<Step>
    decreases n,
{
    if n == 0 {
        seq![]
    } else {
        let prev = placeholder_steps(image, displays, current, (n - 1) as nat);
        if current[n - 1] == Some(image) {
            prev.push(
                Step::SetImage {
                    display: displays[n - 1],
                    path: PLACEHOLDER_PATH@,
                    options: no_options(),
                },
            )
        } else {
            prev
        }
    }
}

/// The placeholder assignments, then a pause if there was any.
pub open spec fn refresh_steps(
    image: Seq<char>,
    displays: Seq<DisplayHandle>,
    current: Seq<Option<Seq<char>>>,
) -> Seq<Step> {
    let p = placeholder_steps(image, displays, current, displays.len());
    if p.len() > 0 {
        p.push(Step::Pause { millis: REFRESH_PAUSE_MILLIS })
    } else {
        p
    }
}

/// The target assigned to every display, in order.
pub open spec fn target_steps(
    image: Seq<char>,
    displays: Seq<DisplayHandle>,
    options: DesktopImageOptions,
) -> Seq<Step> {
    Seq::new(
        displays.len(),
        |i: int| Step::SetImage { display: displays[i], path: image, options },
    )
}

/// Everything an image assignment does, given the displays and what each shows.
pub open spec fn image_steps(
    image: Seq<char>,
    displays: Seq<DisplayHandle>,
    current: Seq<Option<Seq<char>>>,
    options: DesktopImageOptions,
) -> Seq<Step> {
    refresh_steps(image, displays, current) + target_steps(image, displays, options)
}

pub open spec fn scale_or_auto(scale: Option<Scale>) -> Scale {
    match scale {
        Some(s) => s,
        None => Scale::Auto,
    }
}

pub open spec fn screen_or_all(screen: Option<&Screen>) -> Screen {
    match screen {
        Some(s) => *s,
        None => Screen::All,
    }
}

fn refresh_step(display: DisplayHandle) -> (r: Action)
    ensures
        r@ == (Step::SetImage { display, path: PLACEHOLDER_PATH@, options: no_options() }),
{
    Action::SetImage {
        display,
        path: String::from_str(PLACEHOLDER_PATH),
        options: DesktopImageOptions::empty(),
    }
}

/// The actions that make the desktop service take `image` again on displays
/// that already show it: a placeholder for each such display, then a pause
/// if there was any. `current` holds each display's picture, in order.
pub fn force_refresh_if_needed(
    image: &str,
    displays: &Vec<DisplayHandle>,
    current: &Vec<Option<String>>,
) -> (r: Vec<Action>)
    requires
        displays@.len() == current@.len(),
    ensures
        steps_of(r@) == refresh_steps(image@, displays@, texts(current@)),
{
    let ghost cur = texts(current@);
    let mut r: Vec<Action> = Vec::new();
    let mut i: usize = 0;
    while i < displays.len()
        invariant
            i <= displays@.len() == current@.len(),
            cur == texts(current@),
            steps_of(r@) == placeholder_steps(image@, displays@, cur, i as nat),
        decreases displays@.len() - i,
    {
        let ghost before = r@;
        let same = match &current[i] {
            Some(p) => same_text(p.as_str(), image),
            None => false,
        };
        assert(same == (cur[i as int] == Some(image@)));
        if same {
            r.push(refresh_step(displays[i]));
            assert(r@ == before.push(r@.last()));
            assert(steps_of(r@) == steps_of(before).push(r@.last()@));
        }
        i = i + 1;
    }
    if r.len() > 0 {
        let ghost before = r@;
        r.push(Action::Pause { millis: REFRESH_PAUSE_MILLIS });
        assert(r@ == before.push(r@.last()));
        assert(steps_of(r@) == steps_of(before).push(r@.last()@));
    }
    r
}

/// Plans the assignment of the picture at `image` to the selected displays
/// (all of them when `screen` is `None`): the refresh workaround for the
/// displays already showing it, then the picture on every display, in order,
/// with the options of `scale` (`Auto` when `None`) and `fill_color`.
/// `screens` and `main` are the enumeration and primary display; `current`
/// holds the picture of each selected display, in order.
pub fn set_image(
    image: &str,
    screen: Option<&Screen>,
    scale: Option<Scale>,
    fill_color: Option<Color>,
    screens: &Vec<DisplayHandle>,
    main: Option<DisplayHandle>,
    current: &Vec<Option<String>>,
) -> (r: Vec<Action>)
    requires
        current@.len() == screen_or_all(screen).resolved(screens@, main).len(),
    ensures
        steps_of(r@) == image_steps(
            image@,
            screen_or_all(screen).resolved(screens@, main),
            texts(current@),
            image_options(scale_or_auto(scale), fill_color),
        ),
{
    let options = match scale {
        Some(s) => s,
        None => Scale::Auto,
    }.options(fill_color);
    let displays = match screen {
        Some(s) => s.nsscreens(screens, main),
        None => Screen::All.nsscreens(screens, main),
    };
    let mut r = force_refresh_if_needed(image, &displays, current);
    let ghost refresh = r@;
    let mut i: usize = 0;
    while i < displays.len()
        invariant
            i <= displays@.len(),
            r@.len() == refresh.len() + i,
            steps_of(r@) == steps_of(refresh) + target_steps(image@, displays@, options).subrange(
                0,
                i as int,
            ),
        decreases displays@.len() - i,
    {
        let ghost before = r@;
        r.push(Action::SetImage { display: displays[i], path: String::from_str(image), options });
        assert(r@ == before.push(r@.last()));
        assert(target_steps(image@, displays@, options).subrange(0, i + 1) == target_steps(
            image@,
            displays@,
            options,
        ).subrange(0, i as int).push(r@.last()@));
        assert(steps_of(r@) == steps_of(before).push(r@.last()@));
        i = i + 1;
    }
    assert(target_steps(image@, displays@, options).subrange(0, displays@.len() as int)
        == target_steps(image@, displays@, options));
    r
}

/// Plans showing the solid `color` on the selected displays: the transparent
/// system picture, fitted, over `color`.
pub fn set_color(
    color: Color,
    screen: Option<&Screen>,
    screens: &Vec<DisplayHandle>,
    main: Option<DisplayHandle>,
    current: &Vec<Option<String>>,
) -> (r: Vec<Action>)
    requires
        current@.len() == screen_or_all(screen).resolved(screens@, main).len(),
    ensures
        steps_of(r@) == image_steps(
            TRANSPARENT_IMAGE@,
            screen_or_all(screen).resolved(screens@, main),
            texts(current@),
            image_options(Scale::Fit, Some(color)),
        ),
{
    set_image(TRANSPARENT_IMAGE, screen, Some(Scale::Fit), Some(color), screens, main, current)
}

} // verus!
