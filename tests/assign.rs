use std::collections::HashMap;

use macos_wallpaper::assign::{
    force_refresh_if_needed, set_color, set_image, Action, PLACEHOLDER_PATH,
    REFRESH_PAUSE_MILLIS, TRANSPARENT_IMAGE,
};
use macos_wallpaper::color::Color;
use macos_wallpaper::scale::{DesktopImageOptions, ImageScaling, Scale};
use macos_wallpaper::screen::Screen;
use macos_wallpaper::session::Assignment;

fn set(action: &Action) -> (u64, String, DesktopImageOptions) {
    match action {
        Action::SetImage { display, path, options } => (*display, path.clone(), *options),
        Action::Pause { .. } => panic!("expected an assignment, found a pause"),
    }
}

fn is_pause(action: &Action) -> bool {
    matches!(action, Action::Pause { millis } if *millis == REFRESH_PAUSE_MILLIS)
}

/// Runs a plan against a map of what each display shows; every call succeeds.
fn perform(shown: &mut HashMap<u64, String>, actions: Vec<Action>) {
    let mut run = Assignment::new(actions);
    while let Some(action) = run.next_action() {
        if let Action::SetImage { display, path, .. } = action {
            shown.insert(*display, path.clone());
        }
        run.report(Ok(()));
    }
    assert_eq!(run.outcome(), Some(Ok(())));
}

fn current(shown: &HashMap<u64, String>, displays: &[u64]) -> Vec<Option<String>> {
    displays.iter().map(|d| shown.get(d).cloned()).collect()
}

#[test]
fn refresh_only_where_target_shows() {
    let displays = vec![1, 2, 3];
    let current = vec![Some("/p.png".to_string()), Some("/q.png".to_string()), None];
    let r = force_refresh_if_needed("/p.png", &displays, &current);
    assert_eq!(r.len(), 2);
    let (d, p, o) = set(&r[0]);
    assert_eq!((d, p.as_str()), (1, PLACEHOLDER_PATH));
    assert_eq!(o, DesktopImageOptions::empty());
    assert!(is_pause(&r[1]));
}

#[test]
fn no_refresh_when_target_absent() {
    let displays = vec![1, 2];
    let current = vec![Some("/q.png".to_string()), None];
    assert!(force_refresh_if_needed("/p.png", &displays, &current).is_empty());
}

#[test]
fn plan_sets_every_display_in_order() {
    let screens = vec![5, 6];
    let current = vec![None, None];
    let r = set_image("/p.png", None, Some(Scale::Fill), None, &screens, None, &current);
    assert_eq!(r.len(), 2);
    for (i, d) in [5u64, 6].iter().enumerate() {
        let (display, path, o) = set(&r[i]);
        assert_eq!((display, path.as_str()), (*d, "/p.png"));
        assert_eq!(o.scaling, Some(ImageScaling::ProportionallyUpOrDown));
        assert_eq!(o.allow_clipping, Some(true));
        assert_eq!(o.fill_color, Some(macos_wallpaper::color::clear()));
    }
}

#[test]
fn assigning_twice_shows_image_both_times() {
    let screens = vec![1, 2];
    let mut shown: HashMap<u64, String> = HashMap::new();
    shown.insert(1, "/old.png".to_string());
    let first = set_image("/p.png", None, None, None, &screens, None, &current(&shown, &screens));
    assert_eq!(first.len(), 2);
    perform(&mut shown, first);
    assert_eq!(shown.get(&1).map(String::as_str), Some("/p.png"));
    assert_eq!(shown.get(&2).map(String::as_str), Some("/p.png"));
    let second = set_image("/p.png", None, None, None, &screens, None, &current(&shown, &screens));
    assert_eq!(second.len(), 5);
    assert_eq!(set(&second[0]).1, PLACEHOLDER_PATH);
    assert_eq!(set(&second[1]).1, PLACEHOLDER_PATH);
    assert!(is_pause(&second[2]));
    perform(&mut shown, second);
    assert_eq!(shown.get(&1).map(String::as_str), Some("/p.png"));
    assert_eq!(shown.get(&2).map(String::as_str), Some("/p.png"));
}

#[test]
fn color_is_transparent_image_over_fill() {
    let screens = vec![1, 2, 3];
    let red = Color { red: 255, green: 0, blue: 0, alpha: 255 };
    let r = set_color(red, Some(&Screen::All), &screens, Some(1), &vec![None, None, None]);
    assert_eq!(r.len(), 3);
    for (i, d) in screens.iter().enumerate() {
        let (display, path, o) = set(&r[i]);
        assert_eq!(display, *d);
        assert_eq!(path, TRANSPARENT_IMAGE);
        assert_eq!(o, Scale::Fit.options(Some(red)));
        assert_eq!(o.fill_color, Some(red));
    }
}

#[test]
fn selected_display_only() {
    let screens = vec![1, 2, 3];
    let r = set_image("/p.png", Some(&Screen::Index(1)), None, None, &screens, None, &vec![None]);
    assert_eq!(r.len(), 1);
    assert_eq!(set(&r[0]).0, 2);
}

#[test]
fn failure_stops_the_run() {
    let screens = vec![1, 2, 3];
    let plan = set_image("/p.png", None, None, None, &screens, None, &vec![None, None, None]);
    let mut run = Assignment::new(plan);
    let mut attempted = Vec::new();
    let mut shown: HashMap<u64, String> = HashMap::new();
    while let Some(action) = run.next_action() {
        let (display, path, _) = set(action);
        attempted.push(display);
        if display == 2 {
            run.report(Err("rejected".to_string()));
        } else {
            shown.insert(display, path);
            run.report(Ok(()));
        }
    }
    assert_eq!(attempted, vec![1, 2]);
    assert_eq!(run.completed(), 1);
    assert_eq!(shown.get(&1).map(String::as_str), Some("/p.png"));
    assert!(!shown.contains_key(&3));
    assert_eq!(run.outcome(), Some(Err("rejected".to_string())));
    run.report(Ok(()));
    assert!(run.next_action().is_none());
    assert_eq!(run.completed(), 1);
}

#[test]
fn empty_plan_succeeds_at_once() {
    let run = Assignment::new(Vec::new());
    assert!(run.next_action().is_none());
    assert_eq!(run.outcome(), Some(Ok(())));
}
